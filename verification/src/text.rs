//! Texts as sequences of characters: the few string operations that the rest of
//! the library is written in, each with its exact meaning.

use vstd::prelude::*;
use vstd::string::*;

pub mod laws;

verus! {

/// `String::push` of the standard library: appends one character at the end.
pub assume_specification[ String::push ](s: &mut String, c: char)
    ensures
        final(s)@ == old(s)@.push(c),
;

// ---------------------------------------------------------------------------
// Characters
// ---------------------------------------------------------------------------

/// The characters of a text in order.
pub fn characters(text: &str) -> (out: Vec<char>)
    ensures
        out@ == text@,
{
    let mut out: Vec<char> = Vec::new();
    for c in it: text.chars()
        invariant
            out@ == it.seq().take(it.index() as int),
            it.seq() == text@,
    {
        out.push(c);
    }
    out
}

/// The text made of these characters.
pub fn text_of(chars: &[char]) -> (out: String)
    ensures
        out@ == chars@,
{
    piece(chars, 0, chars.len())
}

/// The text made of the characters from `start` up to `end`.
pub fn piece(chars: &[char], start: usize, end: usize) -> (out: String)
    requires
        start <= end <= chars@.len(),
    ensures
        out@ == chars@.subrange(start as int, end as int),
{
    let mut out: String = String::new();
    let mut i: usize = start;
    while i < end
        invariant
            start <= i <= end <= chars@.len(),
            out@ == chars@.subrange(start as int, i as int),
        decreases end - i,
    {
        out.push(chars[i]);
        i += 1;
        assert(chars@.subrange(start as int, i as int).drop_last() =~= chars@.subrange(
            start as int,
            i - 1,
        ));
    }
    out
}

fn same_characters(a: &[char], b: &[char]) -> (r: bool)
    ensures
        r == (a@ == b@),
{
    if a.len() != b.len() {
        return false;
    }
    let mut i: usize = 0;
    while i < a.len()
        invariant
            a@.len() == b@.len(),
            i <= a@.len(),
            a@.take(i as int) == b@.take(i as int),
        decreases a@.len() - i,
    {
        if a[i] != b[i] {
            assert(a@[i as int] != b@[i as int]);
            return false;
        }
        assert(a@.take(i + 1) =~= a@.take(i as int).push(a@[i as int]));
        assert(b@.take(i + 1) =~= b@.take(i as int).push(b@[i as int]));
        i += 1;
    }
    assert(a@.take(a@.len() as int) =~= a@);
    assert(b@.take(b@.len() as int) =~= b@);
    true
}

/// Whether two texts hold the same characters.
pub fn same(a: &str, b: &str) -> (r: bool)
    ensures
        r == (a@ == b@),
{
    let x = characters(a);
    let y = characters(b);
    same_characters(x.as_slice(), y.as_slice())
}

/// Whether an optional text is present and holds these characters.
pub fn is_text(value: &Option<String>, expected: &str) -> (r: bool)
    ensures
        r == (value matches Some(text) && text@ == expected@),
{
    match value {
        Some(text) => same(text.as_str(), expected),
        None => false,
    }
}

/// A text followed by another one.
pub fn joined(a: &str, b: &str) -> (out: String)
    ensures
        out@ == a@ + b@,
{
    let mut out = a.to_owned();
    out.append(b);
    out
}

// ---------------------------------------------------------------------------
// Searching
// ---------------------------------------------------------------------------

/// `pattern` stands in `text` at position `at`.
pub open spec fn occurs_at(text: Seq<char>, pattern: Seq<char>, at: int) -> bool {
    &&& 0 <= at <= text.len() - pattern.len()
    &&& text.subrange(at, at + pattern.len()) == pattern
}

/// `pattern` stands somewhere in `text`.
pub open spec fn has_text(text: Seq<char>, pattern: Seq<char>) -> bool {
    exists|at: int| #[trigger] occurs_at(text, pattern, at)
}

/// `text` begins with `pattern`.
pub open spec fn begins_with(text: Seq<char>, pattern: Seq<char>) -> bool {
    pattern.len() <= text.len() && text.take(pattern.len() as int) == pattern
}

fn occurs(text: &[char], pattern: &[char], at: usize) -> (r: bool)
    requires
        at <= text@.len(),
    ensures
        r == occurs_at(text@, pattern@, at as int),
{
    if text.len() - at < pattern.len() {
        return false;
    }
    let mut i: usize = 0;
    while i < pattern.len()
        invariant
            at + pattern@.len() <= text.len(),
            i <= pattern@.len(),
            forall|k: int| 0 <= k < i ==> text@[at + k] == pattern@[k],
        decreases pattern@.len() - i,
    {
        if text[at + i] != pattern[i] {
            assert(text@.subrange(at as int, at + pattern@.len())[i as int] != pattern@[i as int]);
            return false;
        }
        i += 1;
    }
    assert(text@.subrange(at as int, at + pattern@.len()) =~= pattern@);
    true
}

/// Whether `text` contains `pattern`.
pub fn contains(text: &str, pattern: &str) -> (r: bool)
    ensures
        r == has_text(text@, pattern@),
{
    let t = characters(text);
    let p = characters(pattern);
    let mut at: usize = 0;
    loop
        invariant
            t@ == text@,
            p@ == pattern@,
            at <= t@.len(),
            forall|k: int| 0 <= k < at ==> !occurs_at(t@, p@, k),
        decreases t@.len() - at,
    {
        if occurs(t.as_slice(), p.as_slice(), at) {
            assert(occurs_at(text@, pattern@, at as int));
            return true;
        }
        if at == t.len() {
            assert forall|k: int| !occurs_at(text@, pattern@, k) by {}
            return false;
        }
        at += 1;
    }
}

/// Whether `text` contains the character `c`.
pub fn contains_char(text: &str, c: char) -> (r: bool)
    ensures
        r == text@.contains(c),
{
    let t = characters(text);
    let mut i: usize = 0;
    while i < t.len()
        invariant
            t@ == text@,
            i <= t@.len(),
            forall|k: int| 0 <= k < i ==> t@[k] != c,
        decreases t@.len() - i,
    {
        if t[i] == c {
            assert(text@[i as int] == c);
            return true;
        }
        i += 1;
    }
    false
}

/// Whether `text` begins with `pattern`.
pub fn starts_with(text: &str, pattern: &str) -> (r: bool)
    ensures
        r == begins_with(text@, pattern@),
{
    let t = characters(text);
    let p = characters(pattern);
    let r = occurs(t.as_slice(), p.as_slice(), 0);
    assert(p@.len() <= t@.len() ==> t@.subrange(0, p@.len() as int) =~= t@.take(p@.len() as int));
    r
}

/// What follows `pattern` in a text that begins with it.
pub fn strip_prefix(text: &str, pattern: &str) -> (r: Option<String>)
    ensures
        match r {
            Some(rest) => text@ == pattern@ + rest@,
            None => !begins_with(text@, pattern@),
        },
{
    let t = characters(text);
    let p = characters(pattern);
    if !occurs(t.as_slice(), p.as_slice(), 0) {
        assert(p@.len() <= t@.len() ==> t@.subrange(0, p@.len() as int) =~= t@.take(p@.len() as int));
        return None;
    }
    let rest = piece(t.as_slice(), p.len(), t.len());
    assert(text@ =~= pattern@ + rest@) by {
        assert(t@.subrange(0, p@.len() as int) == p@);
        assert forall|k: int| 0 <= k < p@.len() implies t@[k] == p@[k] by {
            assert(t@.subrange(0, p@.len() as int)[k] == t@[k]);
        }
    }
    Some(rest)
}

// ---------------------------------------------------------------------------
// White space, splitting and replacing
// ---------------------------------------------------------------------------

/// The characters that have the Unicode property `White_Space`.
pub open spec fn white(c: char) -> bool {
    ||| '\u{9}' <= c <= '\u{d}'
    ||| c == ' '
    ||| c == '\u{85}'
    ||| c == '\u{a0}'
    ||| c == '\u{1680}'
    ||| '\u{2000}' <= c <= '\u{200a}'
    ||| c == '\u{2028}'
    ||| c == '\u{2029}'
    ||| c == '\u{202f}'
    ||| c == '\u{205f}'
    ||| c == '\u{3000}'
}

fn is_white(c: char) -> (r: bool)
    ensures
        r == white(c),
{
    ('\u{9}' <= c && c <= '\u{d}') || c == ' ' || c == '\u{85}' || c == '\u{a0}' || c == '\u{1680}'
        || ('\u{2000}' <= c && c <= '\u{200a}') || c == '\u{2028}' || c == '\u{2029}' || c
        == '\u{202f}' || c == '\u{205f}' || c == '\u{3000}'
}

/// `text` without the white space at its start.
pub open spec fn without_leading_white(text: Seq<char>) -> Seq<char>
    decreases text.len(),
{
    if text.len() > 0 && white(text[0]) {
        without_leading_white(text.drop_first())
    } else {
        text
    }
}

/// `text` without the white space at its end.
pub open spec fn without_trailing_white(text: Seq<char>) -> Seq<char>
    decreases text.len(),
{
    if text.len() > 0 && white(text.last()) {
        without_trailing_white(text.drop_last())
    } else {
        text
    }
}

/// `text` without the white space at both ends.
pub open spec fn trimmed(text: Seq<char>) -> Seq<char> {
    without_trailing_white(without_leading_white(text))
}

/// Removes the white space at both ends of a text.
pub fn trim(text: &str) -> (out: String)
    ensures
        out@ == trimmed(text@),
{
    let t = characters(text);
    let mut start: usize = 0;
    assert(t@.subrange(0, t@.len() as int) =~= t@);
    while start < t.len() && is_white(t[start])
        invariant
            start <= t@.len(),
            without_leading_white(t@) == without_leading_white(
                t@.subrange(start as int, t@.len() as int),
            ),
        decreases t@.len() - start,
    {
        assert(t@.subrange(start as int, t@.len() as int).drop_first() =~= t@.subrange(
            start + 1,
            t@.len() as int,
        ));
        start += 1;
    }
    let ghost kept = t@.subrange(start as int, t@.len() as int);
    assert(without_leading_white(t@) == kept);
    let mut end: usize = t.len();
    while end > start && is_white(t[end - 1])
        invariant
            start <= end <= t@.len(),
            without_trailing_white(kept) == without_trailing_white(
                t@.subrange(start as int, end as int),
            ),
        decreases end,
    {
        assert(t@.subrange(start as int, end as int).drop_last() =~= t@.subrange(
            start as int,
            end - 1,
        ));
        end -= 1;
    }
    piece(t.as_slice(), start, end)
}

/// `text` without the line ends (carriage return or line feed) at its end.
pub open spec fn without_line_end(text: Seq<char>) -> Seq<char>
    decreases text.len(),
{
    if text.len() > 0 && (text.last() == '\r' || text.last() == '\n') {
        without_line_end(text.drop_last())
    } else {
        text
    }
}

/// Removes the line ends at the end of a text.
pub fn trim_line_end(text: &str) -> (out: String)
    ensures
        out@ == without_line_end(text@),
{
    let t = characters(text);
    let mut end: usize = t.len();
    assert(t@.subrange(0, t@.len() as int) =~= t@);
    while end > 0 && (t[end - 1] == '\r' || t[end - 1] == '\n')
        invariant
            end <= t@.len(),
            without_line_end(t@) == without_line_end(t@.subrange(0, end as int)),
        decreases end,
    {
        assert(t@.subrange(0, end as int).drop_last() =~= t@.subrange(0, end - 1));
        end -= 1;
    }
    piece(t.as_slice(), 0, end)
}

/// The pieces of `items` between the occurrences of `separator`: always one more
/// than there are separators.
pub open spec fn split_by<T>(items: Seq<T>, separator: T) -> Seq<Seq<T>>
    decreases items.len(),
{
    if items.len() == 0 {
        seq![Seq::empty()]
    } else {
        let before = split_by(items.drop_last(), separator);
        if items.last() == separator {
            before.push(Seq::empty())
        } else {
            before.drop_last().push(before.last().push(items.last()))
        }
    }
}

pub proof fn lemma_split_nonempty<T>(items: Seq<T>, separator: T)
    ensures
        split_by(items, separator).len() > 0,
    decreases items.len(),
{
    if items.len() > 0 {
        lemma_split_nonempty(items.drop_last(), separator);
    }
}

/// The texts of a vector.
pub open spec fn texts(list: Seq<String>) -> Seq<Seq<char>> {
    list.map_values(|text: String| text@)
}

/// Without separators there is one piece.
pub proof fn lemma_split_whole<T>(items: Seq<T>, separator: T)
    requires
        !items.contains(separator),
    ensures
        split_by(items, separator) == Seq::<Seq<T>>::empty().push(items),
    decreases items.len(),
{
    if items.len() == 0 {
        assert(items =~= Seq::empty());
        assert(split_by(items, separator) =~= Seq::<Seq<T>>::empty().push(items));
    } else {
        let front = items.drop_last();
        assert forall|i: int| 0 <= i < front.len() implies front[i] != separator by {
            assert(items.contains(items[i]));
        }
        lemma_split_whole(front, separator);
        assert(items.contains(items.last()));
        assert(front.push(items.last()) =~= items);
        assert(split_by(items, separator) =~= Seq::<Seq<T>>::empty().push(items));
    }
}

/// What holds no separator belongs to the last piece.
pub proof fn lemma_split_append<T>(items: Seq<T>, separator: T, piece: Seq<T>)
    requires
        !piece.contains(separator),
    ensures
        ({
            let before = split_by(items, separator);
            &&& before.len() > 0
            &&& split_by(items + piece, separator) == before.drop_last().push(
                before.last() + piece,
            )
        }),
    decreases piece.len(),
{
    let before = split_by(items, separator);
    lemma_split_nonempty(items, separator);
    if piece.len() == 0 {
        assert(items + piece =~= items);
        assert(before.last() + piece =~= before.last());
        assert(before.drop_last().push(before.last()) =~= before);
    } else {
        let front = piece.drop_last();
        assert forall|i: int| 0 <= i < front.len() implies front[i] != separator by {
            assert(piece.contains(piece[i]));
        }
        lemma_split_append(items, separator, front);
        let all = items + piece;
        assert(all.drop_last() =~= items + front);
        assert(all.last() == piece.last());
        assert(piece.contains(piece.last()));
        let shorter = before.drop_last().push(before.last() + front);
        assert(shorter.drop_last() =~= before.drop_last());
        assert((before.last() + front).push(piece.last()) =~= before.last() + piece);
    }
}

/// A separator and a piece behind it add one piece.
pub proof fn lemma_split_push<T>(items: Seq<T>, separator: T, piece: Seq<T>)
    requires
        !piece.contains(separator),
    ensures
        split_by(items.push(separator) + piece, separator) == split_by(items, separator).push(
            piece,
        ),
    decreases piece.len(),
{
    let all = items.push(separator) + piece;
    if piece.len() == 0 {
        assert(all =~= items.push(separator));
        assert(all.drop_last() =~= items);
        assert(piece =~= Seq::empty());
    } else {
        let front = piece.drop_last();
        assert forall|i: int| 0 <= i < front.len() implies front[i] != separator by {
            assert(piece.contains(piece[i]));
        }
        lemma_split_push(items, separator, front);
        assert(all.drop_last() =~= items.push(separator) + front);
        assert(piece.contains(piece.last()));
        assert(front.push(piece.last()) =~= piece);
        let before = split_by(items, separator);
        assert(before.push(front).drop_last() =~= before);
        assert(split_by(all, separator) =~= before.push(piece));
    }
}

pub proof fn lemma_texts_push(list: Seq<String>, text: String)
    ensures
        texts(list.push(text)) == texts(list).push(text@),
{
    assert(texts(list.push(text)) =~= texts(list).push(text@));
}

/// The pieces of a text between the occurrences of a character.
pub fn split(text: &str, separator: char) -> (out: Vec<String>)
    ensures
        texts(out@) == split_by(text@, separator),
        out@.len() > 0,
{
    let t = characters(text);
    let mut out: Vec<String> = Vec::new();
    let mut current: String = String::new();
    let mut i: usize = 0;
    assert(texts(out@).push(current@) =~= split_by(t@.take(0), separator));
    while i < t.len()
        invariant
            t@ == text@,
            i <= t@.len(),
            texts(out@).push(current@) == split_by(t@.take(i as int), separator),
        decreases t@.len() - i,
    {
        let ghost before = texts(out@).push(current@);
        assert(t@.take(i + 1).drop_last() =~= t@.take(i as int));
        assert(t@.take(i + 1).last() == t@[i as int]);
        assert(before.drop_last() =~= texts(out@));
        if t[i] == separator {
            proof {
                lemma_texts_push(out@, current);
            }
            out.push(current);
            current = String::new();
        } else {
            current.push(t[i]);
        }
        i += 1;
    }
    assert(t@.take(t@.len() as int) =~= t@);
    proof {
        lemma_texts_push(out@, current);
    }
    out.push(current);
    out
}

/// The white-space separated words of `text`: those that are complete, and the
/// one that the text ends in (empty if it ends in white space).
pub open spec fn words_state(text: Seq<char>) -> (Seq<Seq<char>>, Seq<char>)
    decreases text.len(),
{
    if text.len() == 0 {
        (Seq::empty(), Seq::empty())
    } else {
        let (done, current) = words_state(text.drop_last());
        if !white(text.last()) {
            (done, current.push(text.last()))
        } else if current.len() > 0 {
            (done.push(current), Seq::empty())
        } else {
            (done, current)
        }
    }
}

/// The white-space separated words of `text`.
pub open spec fn words_of(text: Seq<char>) -> Seq<Seq<char>> {
    let (done, current) = words_state(text);
    if current.len() > 0 {
        done.push(current)
    } else {
        done
    }
}

/// The white-space separated words of a text.
pub fn words(text: &str) -> (out: Vec<String>)
    ensures
        texts(out@) == words_of(text@),
{
    let t = characters(text);
    let mut out: Vec<String> = Vec::new();
    let mut current: String = String::new();
    let mut i: usize = 0;
    assert(texts(out@) =~= words_state(t@.take(0)).0);
    while i < t.len()
        invariant
            t@ == text@,
            i <= t@.len(),
            words_state(t@.take(i as int)) == (texts(out@), current@),
        decreases t@.len() - i,
    {
        assert(t@.take(i + 1).drop_last() =~= t@.take(i as int));
        assert(t@.take(i + 1).last() == t@[i as int]);
        if !is_white(t[i]) {
            current.push(t[i]);
        } else if !current.as_str().is_empty() {
            proof {
                lemma_texts_push(out@, current);
            }
            out.push(current);
            current = String::new();
        }
        i += 1;
    }
    assert(t@.take(t@.len() as int) =~= t@);
    if !current.as_str().is_empty() {
        proof {
            lemma_texts_push(out@, current);
        }
        out.push(current);
    }
    out
}

/// A line without the carriage return before its line feed.
pub open spec fn without_return(line: Seq<char>) -> Seq<char> {
    if line.len() > 0 && line.last() == '\r' {
        line.drop_last()
    } else {
        line
    }
}

/// The lines of `text`: each ends at a line feed or at the end of the text; a
/// carriage return before the line feed belongs to the line end.
pub open spec fn lines_of(text: Seq<char>) -> Seq<Seq<char>> {
    let pieces = split_by(text, '\n');
    let ended = Seq::new((pieces.len() - 1) as nat, |i: int| without_return(pieces[i]));
    if pieces.last().len() > 0 {
        ended.push(pieces.last())
    } else {
        ended
    }
}

/// A listing: every line ends with a line feed.
pub open spec fn listing(lines: Seq<Seq<char>>) -> Seq<char>
    decreases lines.len(),
{
    if lines.len() == 0 {
        Seq::empty()
    } else {
        listing(lines.drop_last()) + lines.last().push('\n')
    }
}

proof fn lemma_listing_pieces(lines: Seq<Seq<char>>)
    requires
        forall|i: int| 0 <= i < lines.len() ==> !(#[trigger] lines[i]).contains('\n'),
    ensures
        split_by(listing(lines), '\n') == lines.push(Seq::<char>::empty()),
    decreases lines.len(),
{
    let none = Seq::<char>::empty();
    if lines.len() == 0 {
        lemma_split_whole(listing(lines), '\n');
        assert(split_by(listing(lines), '\n') =~= lines.push(none));
    } else {
        let front = lines.drop_last();
        let line = lines.last();
        assert forall|i: int| 0 <= i < front.len() implies !(#[trigger] front[i]).contains(
            '\n',
        ) by {
            assert(front[i] == lines[i]);
        }
        lemma_listing_pieces(front);
        lemma_split_append(listing(front), '\n', line);
        let whole = listing(front) + line;
        assert(none + line =~= line);
        assert(split_by(whole, '\n') =~= lines);
        lemma_split_push(whole, '\n', none);
        assert(whole.push('\n') + none =~= listing(lines));
    }
}

/// A listing has its lines.
pub proof fn lemma_listing(lines: Seq<Seq<char>>)
    requires
        forall|i: int| 0 <= i < lines.len() ==> !(#[trigger] lines[i]).contains('\n'),
        forall|i: int| 0 <= i < lines.len() ==> !(#[trigger] lines[i]).contains('\r'),
    ensures
        lines_of(listing(lines)) == lines,
{
    lemma_listing_pieces(lines);
    assert forall|i: int| 0 <= i < lines.len() implies without_return(#[trigger] lines[i])
        == lines[i] by {
        if lines[i].len() > 0 {
            assert(lines[i].contains(lines[i].last()));
        }
    }
    assert(lines_of(listing(lines)) =~= lines);
}

/// The lines of a text.
pub fn lines(text: &str) -> (out: Vec<String>)
    ensures
        texts(out@) == lines_of(text@),
{
    let pieces = split(text, '\n');
    let ghost model = split_by(text@, '\n');
    assert(model.len() == pieces@.len());
    let mut out: Vec<String> = Vec::new();
    let mut i: usize = 0;
    while i < pieces.len() - 1
        invariant
            pieces@.len() > 0,
            texts(pieces@) == model,
            i <= pieces@.len() - 1,
            texts(out@) == Seq::new(i as nat, |k: int| without_return(model[k])),
        decreases pieces@.len() - i,
    {
        assert(pieces@[i as int]@ == model[i as int]);
        let c = characters(pieces[i].as_str());
        let line = if c.len() > 0 && c[c.len() - 1] == '\r' {
            piece(c.as_slice(), 0, c.len() - 1)
        } else {
            text_of(c.as_slice())
        };
        assert(c@.len() > 0 ==> c@.subrange(0, c@.len() - 1) =~= c@.drop_last());
        assert(line@ == without_return(model[i as int]));
        proof {
            lemma_texts_push(out@, line);
        }
        out.push(line);
        i += 1;
        assert(texts(out@) =~= Seq::new(i as nat, |k: int| without_return(model[k])));
    }
    let last = pieces[pieces.len() - 1].clone();
    assert(last@ == model.last());
    if !last.as_str().is_empty() {
        proof {
            lemma_texts_push(out@, last);
        }
        out.push(last);
    }
    out
}

/// `text` with each occurrence of the character `from` replaced by `with`.
pub open spec fn replaced_char(text: Seq<char>, from: char, with: Seq<char>) -> Seq<char>
    decreases text.len(),
{
    if text.len() == 0 {
        text
    } else {
        replaced_char(text.drop_last(), from, with) + (if text.last() == from {
            with
        } else {
            seq![text.last()]
        })
    }
}

/// Replaces each occurrence of a character by a text.
pub fn replace_char(text: &str, from: char, with: &str) -> (out: String)
    ensures
        out@ == replaced_char(text@, from, with@),
{
    let t = characters(text);
    let mut out: String = String::new();
    let mut i: usize = 0;
    while i < t.len()
        invariant
            t@ == text@,
            i <= t@.len(),
            out@ == replaced_char(t@.take(i as int), from, with@),
        decreases t@.len() - i,
    {
        assert(t@.take(i + 1).drop_last() =~= t@.take(i as int));
        let ghost before = out@;
        if t[i] == from {
            out.append(with);
        } else {
            out.push(t[i]);
            assert(before.push(t@[i as int]) =~= before + seq![t@[i as int]]);
        }
        i += 1;
    }
    assert(t@.take(t@.len() as int) =~= t@);
    out
}

/// `text` with the occurrences of `from`, taken from the left without overlap,
/// replaced by `with`.
pub open spec fn replaced(text: Seq<char>, from: Seq<char>, with: Seq<char>) -> Seq<char>
    decreases text.len(),
{
    if text.len() == 0 || from.len() == 0 {
        text
    } else if occurs_at(text, from, 0) {
        with + replaced(text.skip(from.len() as int), from, with)
    } else {
        seq![text[0]] + replaced(text.drop_first(), from, with)
    }
}

/// Replaces the occurrences of a text that is not empty.
pub fn replace(text: &str, from: &str, with: &str) -> (out: String)
    requires
        from@.len() > 0,
    ensures
        out@ == replaced(text@, from@, with@),
{
    let t = characters(text);
    let f = characters(from);
    let mut out: String = String::new();
    let mut i: usize = 0;
    assert(t@.skip(0) =~= t@);
    while i < t.len()
        invariant
            t@ == text@,
            f@ == from@,
            f@.len() > 0,
            i <= t@.len(),
            replaced(t@, f@, with@) == out@ + replaced(t@.skip(i as int), f@, with@),
        decreases t@.len() - i,
    {
        let ghost rest = t@.skip(i as int);
        let ghost before = out@;
        assert(rest[0] == t@[i as int]);
        assert(rest.drop_first() =~= t@.skip(i + 1));
        assert(occurs_at(rest, f@, 0) == occurs_at(t@, f@, i as int)) by {
            if f@.len() <= rest.len() {
                assert(rest.subrange(0, f@.len() as int) =~= t@.subrange(i as int, i + f@.len()));
            }
        }
        if occurs(t.as_slice(), f.as_slice(), i) {
            assert(rest.skip(f@.len() as int) =~= t@.skip(i + f@.len()));
            out.append(with);
            assert(before + (with@ + replaced(t@.skip(i + f@.len()), f@, with@)) =~= out@
                + replaced(t@.skip(i + f@.len()), f@, with@));
            i += f.len();
        } else {
            out.push(t[i]);
            assert(before + (seq![t@[i as int]] + replaced(t@.skip(i + 1), f@, with@)) =~= out@
                + replaced(t@.skip(i + 1), f@, with@));
            i += 1;
        }
    }
    assert(t@.skip(i as int) =~= Seq::empty());
    assert(out@ + replaced(Seq::empty(), f@, with@) =~= out@);
    out
}

/// The texts with `separator` between them.
pub open spec fn joined_by(list: Seq<Seq<char>>, separator: Seq<char>) -> Seq<char>
    decreases list.len(),
{
    if list.len() == 0 {
        Seq::empty()
    } else if list.len() == 1 {
        list[0]
    } else {
        joined_by(list.drop_last(), separator) + separator + list.last()
    }
}

/// Joins texts with a separator.
pub fn join(list: &[String], separator: &str) -> (out: String)
    ensures
        out@ == joined_by(texts(list@), separator@),
{
    let mut out: String = String::new();
    let mut i: usize = 0;
    let ghost model = texts(list@);
    while i < list.len()
        invariant
            model == texts(list@),
            i <= list@.len(),
            out@ == joined_by(model.take(i as int), separator@),
        decreases list@.len() - i,
    {
        assert(model.take(i + 1).drop_last() =~= model.take(i as int));
        assert(model.take(i + 1).last() == list@[i as int]@);
        if i > 0 {
            out.append(separator);
            out.append(list[i].as_str());
        } else {
            out = list[i].clone();
        }
        i += 1;
    }
    assert(model.take(model.len() as int) =~= model);
    out
}

/// `a` stands before `b` in the order of their characters.
pub open spec fn precedes(a: Seq<char>, b: Seq<char>) -> bool
    decreases a.len(),
{
    if b.len() == 0 {
        false
    } else if a.len() == 0 {
        true
    } else if a[0] == b[0] {
        precedes(a.drop_first(), b.drop_first())
    } else {
        a[0] < b[0]
    }
}

/// Whether `a` stands before `b` in the order of their characters.
pub fn before(a: &str, b: &str) -> (r: bool)
    ensures
        r == precedes(a@, b@),
{
    let x = characters(a);
    let y = characters(b);
    let mut i: usize = 0;
    assert(x@.skip(0) =~= x@ && y@.skip(0) =~= y@);
    while i < x.len() && i < y.len() && x[i] == y[i]
        invariant
            i <= x@.len(),
            i <= y@.len(),
            precedes(x@, y@) == precedes(x@.skip(i as int), y@.skip(i as int)),
        decreases x@.len() - i,
    {
        assert(x@.skip(i as int).drop_first() =~= x@.skip(i + 1));
        assert(y@.skip(i as int).drop_first() =~= y@.skip(i + 1));
        i += 1;
    }
    if i == y.len() {
        false
    } else if i == x.len() {
        true
    } else {
        x[i] < y[i]
    }
}

/// Of two different texts one stands before the other.
pub proof fn lemma_precedes_total(a: Seq<char>, b: Seq<char>)
    ensures
        a != b ==> precedes(a, b) || precedes(b, a),
        !(precedes(a, b) && precedes(b, a)),
        !precedes(a, a),
    decreases a.len(),
{
    if a.len() == 0 {
        assert(b.len() == 0 ==> a =~= b);
    } else {
        lemma_precedes_total(a.drop_first(), a.drop_first());
        if b.len() > 0 && a[0] == b[0] {
            lemma_precedes_total(a.drop_first(), b.drop_first());
            assert(a.drop_first() == b.drop_first() ==> a =~= b) by {
                if a.drop_first() == b.drop_first() {
                    assert forall|i: int| 0 <= i < a.len() implies a[i] == b[i] by {
                        if i > 0 {
                            assert(a.drop_first()[i - 1] == b.drop_first()[i - 1]);
                        }
                    }
                }
            }
        }
    }
}

/// The order of texts is transitive.
pub proof fn lemma_precedes_transitive(a: Seq<char>, b: Seq<char>, c: Seq<char>)
    requires
        precedes(a, b),
        precedes(b, c),
    ensures
        precedes(a, c),
    decreases a.len(),
{
    if a.len() > 0 && a[0] == b[0] && b[0] == c[0] {
        lemma_precedes_transitive(a.drop_first(), b.drop_first(), c.drop_first());
    }
}

} // verus!
