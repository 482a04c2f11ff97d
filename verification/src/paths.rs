//! Paths of the remote host, as text.

use crate::text;
use vstd::prelude::*;
use vstd::string::*;

verus! {

pub open spec fn is_absolute(path: Seq<char>) -> bool {
    path.len() > 0 && path[0] == '/'
}

/// Whether a path begins at the root.
pub fn absolute(path: &str) -> (r: bool)
    ensures
        r == is_absolute(path@),
{
    let c = text::characters(path);
    c.len() > 0 && c[0] == '/'
}

/// The path of `name` seen from `directory`.
pub open spec fn path_in(directory: Seq<char>, name: Seq<char>) -> Seq<char> {
    if is_absolute(name) || directory.len() == 0 {
        name
    } else if directory.last() == '/' {
        directory + name
    } else {
        directory + "/"@ + name
    }
}

/// The path of `name` seen from `directory`.
pub fn join(directory: &str, name: &str) -> (path: String)
    ensures
        path@ == path_in(directory@, name@),
{
    if absolute(name) || directory.is_empty() {
        return name.to_owned();
    }
    let c = text::characters(directory);
    let mut path = directory.to_owned();
    if c[c.len() - 1] != '/' {
        path.append("/");
    }
    path.append(name);
    path
}

/// A word of a shell command line that stands for this text.
pub open spec fn quoted(value: Seq<char>) -> Seq<char> {
    "'"@ + text::replaced_char(value, '\'', "'\\''"@) + "'"@
}

/// A word of a shell command line that stands for this text.
pub fn quote(value: &str) -> (out: String)
    ensures
        out@ == quoted(value@),
{
    let mut out = "'".to_owned();
    out.append(text::replace_char(value, '\'', "'\\''").as_str());
    out.append("'");
    out
}

/// How a POSIX shell takes the next character of a word.
pub enum Quoting {
    Plain,
    Quoted,
    Escaped,
}

/// The text that a POSIX shell reads from the beginning of a word, and how it takes
/// the next character. Nothing where a character stands there that is neither
/// quoted nor escaped: it might mean something to the shell.
pub open spec fn literal(word: Seq<char>) -> Option<(Seq<char>, Quoting)>
    decreases word.len(),
{
    if word.len() == 0 {
        Some((Seq::empty(), Quoting::Plain))
    } else {
        let c = word.last();
        match literal(word.drop_last()) {
            None => None,
            Some((read, Quoting::Plain)) => if c == '\'' {
                Some((read, Quoting::Quoted))
            } else if c == '\\' {
                Some((read, Quoting::Escaped))
            } else {
                None
            },
            Some((read, Quoting::Quoted)) => if c == '\'' {
                Some((read, Quoting::Plain))
            } else {
                Some((read.push(c), Quoting::Quoted))
            },
            Some((read, Quoting::Escaped)) => Some((read.push(c), Quoting::Plain)),
        }
    }
}

proof fn lemma_literal_push(word: Seq<char>, c: char)
    ensures
        word.push(c).drop_last() == word,
        word.push(c).last() == c,
{
    assert(word.push(c).drop_last() =~= word);
}

proof fn lemma_quoted(value: Seq<char>)
    ensures
        literal("'"@ + text::replaced_char(value, '\'', "'\\''"@)) == Some((value, Quoting::Quoted)),
    decreases value.len(),
{
    reveal_strlit("'");
    reveal_strlit("'\\''");
    let open = "'"@;
    if value.len() == 0 {
        assert(open + text::replaced_char(value, '\'', "'\\''"@) =~= Seq::empty().push('\''));
        lemma_literal_push(Seq::empty(), '\'');
        assert(literal(Seq::empty()) == Some((Seq::<char>::empty(), Quoting::Plain)));
        assert(value =~= Seq::empty());
    } else {
        let front = value.drop_last();
        let c = value.last();
        lemma_quoted(front);
        let word = open + text::replaced_char(front, '\'', "'\\''"@);
        assert(front.push(c) =~= value);
        if c == '\'' {
            let whole = word.push('\'').push('\\').push('\'').push('\'');
            assert(open + text::replaced_char(value, '\'', "'\\''"@) =~= whole);
            lemma_literal_push(word, '\'');
            assert(literal(word.push('\'')) == Some((front, Quoting::Plain)));
            lemma_literal_push(word.push('\''), '\\');
            assert(literal(word.push('\'').push('\\')) == Some((front, Quoting::Escaped)));
            lemma_literal_push(word.push('\'').push('\\'), '\'');
            assert(literal(word.push('\'').push('\\').push('\'')) == Some(
                (value, Quoting::Plain),
            ));
            lemma_literal_push(word.push('\'').push('\\').push('\''), '\'');
        } else {
            assert(open + text::replaced_char(value, '\'', "'\\''"@) =~= word.push(c));
            lemma_literal_push(word, c);
        }
    }
}

/// Whatever a text holds, a shell reads the quoted text as one word that stands
/// for it: nothing of it is taken as code.
pub proof fn quoting_is_literal(value: Seq<char>)
    ensures
        literal(quoted(value)) == Some((value, Quoting::Plain)),
{
    reveal_strlit("'");
    lemma_quoted(value);
    let word = "'"@ + text::replaced_char(value, '\'', "'\\''"@);
    assert(quoted(value) =~= word.push('\''));
    lemma_literal_push(word, '\'');
}

} // verus!
