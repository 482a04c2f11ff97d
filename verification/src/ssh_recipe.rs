//! Trusted local SSH arguments, captured before the connection is made. Reconnect
//! commands are never built from what a remote host sent.

use crate::bytes;
use crate::bytes::utf8_complaint;
use crate::host::outcome;
use crate::local::{is_private, private, refuse, LocalEntry, LocalError};
use crate::number::{decimal, decimal_text};
use crate::paths::{absolute, is_absolute, quote, quoted};
use crate::text;
use crate::workspace::sessions::{
    generation_guard, guard_of, is_token, session_name, target, target_of, token, PREFIX,
};
use crate::workspace::SOCKET;
use vstd::prelude::*;
use vstd::string::*;
use vstd::utf8::{decode_utf8, encode_utf8, valid_utf8};

pub mod laws;
pub mod route_laws;

verus! {

pub const MAX_RECIPE_BYTES: usize = 64 * 1024;

pub const MAX_ARGUMENTS: usize = 128;

/// How a user connected: from which directory, and with which arguments.
#[derive(Debug)]
pub struct SshRecipe {
    pub working_directory: String,
    pub arguments: Vec<String>,
}

#[verifier::ext_equal]
pub struct SshRecipeView {
    pub working_directory: Seq<char>,
    pub arguments: Seq<Seq<char>>,
}

impl DeepView for SshRecipe {
    type V = SshRecipeView;

    open spec fn deep_view(&self) -> SshRecipeView {
        SshRecipeView {
            working_directory: self.working_directory@,
            arguments: text::texts(self.arguments@),
        }
    }
}

// ---------------------------------------------------------------------------
// Arguments
// ---------------------------------------------------------------------------

/// An option, with its value if it takes one.
pub type SshOption = (char, Option<Seq<char>>);

/// Options that make no interactive connection.
pub open spec fn is_refused_flag(flag: char) -> bool {
    "OGQVWwf"@.contains(flag)
}

/// Options that take a value.
pub open spec fn is_valued_flag(flag: char) -> bool {
    "BbcDEeFIiJLlmopRS"@.contains(flag)
}

/// Options that take no value.
pub open spec fn is_plain_flag(flag: char) -> bool {
    "1246AaCKkMNnqsTtXxYyvg"@.contains(flag)
}

pub open spec fn flag_message(before: Seq<char>, flag: char, behind: Seq<char>) -> Seq<char> {
    before.push(flag) + behind
}

fn flag_error(before: &str, flag: char, behind: &str) -> (error: LocalError)
    ensures
        error.deep_view() == flag_message(before@, flag, behind@),
{
    let mut message = before.to_owned();
    message.push(flag);
    message.append(behind);
    LocalError { message }
}

/// The options in an argument from a position on, and whether the next argument is
/// the value of the last of them.
pub open spec fn cluster(argument: Seq<char>, at: int, next: Option<Seq<char>>) -> Result<
    (Seq<SshOption>, bool),
    Seq<char>,
>
    decreases argument.len() - at,
{
    if at >= argument.len() {
        Ok((Seq::empty(), false))
    } else {
        let flag = argument[at];
        if is_refused_flag(flag) {
            Err(
                flag_message(
                    "SSH -"@,
                    flag,
                    " is not supported for a persistent interactive connection"@,
                ),
            )
        } else if is_valued_flag(flag) {
            let attached = at + 1 < argument.len();
            if !attached && next is None {
                Err(flag_message("SSH -"@, flag, " needs an argument"@))
            } else {
                let value = if attached {
                    argument.skip(at + 1)
                } else {
                    next->Some_0
                };
                if value.len() == 0 {
                    Err(flag_message("SSH -"@, flag, " has an empty argument"@))
                } else {
                    Ok((Seq::empty().push((flag, Some(value))), !attached))
                }
            }
        } else if !is_plain_flag(flag) {
            Err(flag_message("Unsupported SSH option -"@, flag, ""@))
        } else {
            match cluster(argument, at + 1, next) {
                Err(message) => Err(message),
                Ok((options, used)) => Ok(
                    (Seq::empty().push((flag, None::<Seq<char>>)) + options, used),
                ),
            }
        }
    }
}

/// The next argument is used only where there is one.
pub proof fn lemma_cluster_used(argument: Seq<char>, at: int, next: Option<Seq<char>>)
    ensures
        cluster(argument, at, next) matches Ok((_, used)) ==> used ==> next is Some,
    decreases argument.len() - at,
{
    if at < argument.len() {
        lemma_cluster_used(argument, at + 1, next);
    }
}

/// The argument ends the options: it is none of them, or it says so.
pub open spec fn ends_options(argument: Seq<char>) -> bool {
    argument.len() == 0 || argument[0] != '-' || argument == "-"@
}

/// The options from an argument on, and the first argument behind them.
pub open spec fn scan(arguments: Seq<Seq<char>>, at: int) -> Result<
    (Seq<SshOption>, int),
    Seq<char>,
>
    decreases arguments.len() - at,
{
    if at >= arguments.len() {
        Ok((Seq::empty(), at))
    } else if arguments[at] == "--"@ {
        Ok((Seq::empty(), at + 1))
    } else if ends_options(arguments[at]) {
        Ok((Seq::empty(), at))
    } else {
        let next = if at + 1 < arguments.len() {
            Some(arguments[at + 1])
        } else {
            None
        };
        proof {
            lemma_cluster_used(arguments[at], 1, next);
        }
        match cluster(arguments[at], 1, next) {
            Err(message) => Err(message),
            Ok((options, used)) => match scan(
                arguments,
                if used {
                    at + 2
                } else {
                    at + 1
                },
            ) {
                Err(message) => Err(message),
                Ok((rest, end)) => Ok((options + rest, end)),
            },
        }
    }
}

/// The arguments of a connection: its options and its destination.
#[verifier::ext_equal]
pub struct ParsedView {
    pub options: Seq<SshOption>,
    pub destination: Seq<char>,
}

/// The options and the destination in arguments, or what is wrong with them.
pub open spec fn parsed_arguments(arguments: Seq<Seq<char>>) -> Result<ParsedView, Seq<char>> {
    if arguments.len() == 0 || arguments.len() > MAX_ARGUMENTS {
        Err("Invalid SSH argument count"@)
    } else {
        match scan(arguments, 0) {
            Err(message) => Err(message),
            Ok((options, at)) => if at + 1 != arguments.len() {
                Err("Expected exactly one SSH destination and no remote command"@)
            } else {
                let destination = arguments[at];
                if destination.len() == 0 || destination[0] == '-' || destination.contains(
                    '\0',
                ) {
                    Err("Invalid SSH destination"@)
                } else {
                    Ok(ParsedView { options, destination })
                }
            },
        }
    }
}

/// The arguments of a connection: its options and its destination.
#[derive(Debug)]
pub struct ParsedArguments {
    pub options: Vec<(char, Option<String>)>,
    pub destination: String,
}

impl DeepView for ParsedArguments {
    type V = ParsedView;

    open spec fn deep_view(&self) -> ParsedView {
        ParsedView { options: self.options.deep_view(), destination: self.destination@ }
    }
}

fn push_option(options: &mut Vec<(char, Option<String>)>, flag: char, value: Option<String>)
    ensures
        final(options).deep_view() == old(options).deep_view().push((flag, value.deep_view())),
{
    let ghost before = options.deep_view();
    options.push((flag, value));
    assert(options.deep_view() =~= before.push((flag, value.deep_view())));
}

/// Adds the options in one argument. Whether the next argument was used up.
fn parse_cluster(
    options: &mut Vec<(char, Option<String>)>,
    argument: &str,
    next: Option<&str>,
) -> (r: Result<bool, LocalError>)
    ensures
        match (r, cluster(argument@, 1, next.deep_view())) {
            (Ok(used), Ok((found, u))) => used == u && final(options).deep_view() == old(
                options,
            ).deep_view() + found,
            (Err(error), Err(message)) => error.deep_view() == message,
            _ => false,
        },
{
    let c = text::characters(argument);
    let ghost before = options.deep_view();
    let ghost whole = cluster(argument@, 1, next.deep_view());
    let mut at: usize = 1;
    assert(before + (whole->Ok_0).0 =~= options.deep_view() + (whole->Ok_0).0);
    while at < c.len()
        invariant
            c@ == argument@,
            at >= 1,
            before == old(options).deep_view(),
            whole == cluster(argument@, 1, next.deep_view()),
            match cluster(argument@, at as int, next.deep_view()) {
                Err(message) => whole == Err::<(Seq<SshOption>, bool), Seq<char>>(message),
                Ok((found, used)) => whole is Ok && (whole->Ok_0).1 == used && before + (
                whole->Ok_0).0 == options.deep_view() + found,
            },
        decreases c@.len() - at,
    {
        let flag = c[at];
        if text::contains_char("OGQVWwf", flag) {
            return Err(
                flag_error(
                    "SSH -",
                    flag,
                    " is not supported for a persistent interactive connection",
                ),
            );
        }
        if text::contains_char("BbcDEeFIiJLlmopRS", flag) {
            let attached = at + 1 < c.len();
            let value = if attached {
                text::piece(c.as_slice(), at + 1, c.len())
            } else {
                match next {
                    Some(value) => value.to_owned(),
                    None => return Err(flag_error("SSH -", flag, " needs an argument")),
                }
            };
            assert(attached ==> c@.subrange(at + 1, c@.len() as int) =~= argument@.skip(at + 1));
            if value.as_str().is_empty() {
                return Err(flag_error("SSH -", flag, " has an empty argument"));
            }
            let ghost held = options.deep_view();
            push_option(options, flag, Some(value));
            assert(held + Seq::empty().push((flag, Some(value@))) =~= options.deep_view());
            return Ok(!attached);
        }
        if !text::contains_char("1246AaCKkMNnqsTtXxYyvg", flag) {
            return Err(flag_error("Unsupported SSH option -", flag, ""));
        }
        let ghost held = options.deep_view();
        push_option(options, flag, None);
        proof {
            if let Ok((rest, used)) = cluster(argument@, at + 1, next.deep_view()) {
                assert(held + (Seq::empty().push((flag, None::<Seq<char>>)) + rest)
                    =~= options.deep_view() + rest);
            }
        }
        at += 1;
    }
    assert(options.deep_view() + Seq::<SshOption>::empty() =~= options.deep_view());
    Ok(false)
}

/// The options and the destination in arguments.
pub fn parse_arguments(arguments: &Vec<String>) -> (r: Result<ParsedArguments, LocalError>)
    ensures
        outcome(r) == parsed_arguments(text::texts(arguments@)),
{
    let ghost model = text::texts(arguments@);
    assert(forall|i: int| 0 <= i < arguments@.len() ==> model[i] == arguments@[i]@);
    if arguments.len() == 0 || arguments.len() > MAX_ARGUMENTS {
        return Err(refuse("Invalid SSH argument count"));
    }
    let mut options: Vec<(char, Option<String>)> = Vec::new();
    let mut at: usize = 0;
    let ghost whole = scan(model, 0);
    assert(options.deep_view() + (whole->Ok_0).0 =~= (whole->Ok_0).0);
    loop
        invariant_except_break
            match scan(model, at as int) {
                Err(message) => whole == Err::<(Seq<SshOption>, int), Seq<char>>(message),
                Ok((found, end)) => whole is Ok && (whole->Ok_0).1 == end && (whole->Ok_0).0
                    == options.deep_view() + found,
            },
        invariant
            model == text::texts(arguments@),
            forall|i: int| 0 <= i < arguments@.len() ==> model[i] == arguments@[i]@,
            whole == scan(model, 0),
            at <= arguments.len() <= MAX_ARGUMENTS,
        ensures
            whole is Ok,
            (whole->Ok_0) == (options.deep_view(), at as int),
        decreases arguments@.len() - at,
    {
        assert(options.deep_view() + Seq::<SshOption>::empty() =~= options.deep_view());
        if at == arguments.len() {
            break;
        }
        let argument = arguments[at].as_str();
        if text::same(argument, "--") {
            at += 1;
            break;
        }
        if !text::starts_with(argument, "-") || text::same(argument, "-") {
            proof {
                reveal_strlit("-");
                assert(argument@.len() > 0 ==> argument@.take(1)[0] == argument@[0]);
                assert(argument@.len() > 0 && argument@[0] == '-' ==> argument@.take(1) =~= "-"@);
            }
            break;
        }
        proof {
            reveal_strlit("-");
            assert(argument@.take(1)[0] == '-');
        }
        let next = if at + 1 < arguments.len() {
            Some(arguments[at + 1].as_str())
        } else {
            None
        };
        let ghost held = options.deep_view();
        let used = parse_cluster(&mut options, argument, next)?;
        proof {
            lemma_cluster_used(model[at as int], 1, next.deep_view());
            let (found, u) = cluster(model[at as int], 1, next.deep_view())->Ok_0;
            if let Ok((rest, end)) = scan(
                model,
                if used {
                    at + 2
                } else {
                    at + 1
                },
            ) {
                assert(held + (found + rest) =~= options.deep_view() + rest);
            }
        }
        at += if used {
            2
        } else {
            1
        };
    }
    if at + 1 != arguments.len() {
        return Err(refuse("Expected exactly one SSH destination and no remote command"));
    }
    let destination = arguments[at].clone();
    let c = text::characters(destination.as_str());
    if c.len() == 0 || c[0] == '-' || text::contains_char(destination.as_str(), '\0') {
        return Err(refuse("Invalid SSH destination"));
    }
    Ok(ParsedArguments { options, destination })
}

// ---------------------------------------------------------------------------
// Options that are left out
// ---------------------------------------------------------------------------

pub open spec fn ends_key(c: char) -> bool {
    c == '=' || c == ' ' || c == '\t'
}

/// The name of the setting in the value of an `-o` option.
pub open spec fn setting_key(value: Seq<char>) -> Seq<char>
    decreases value.len(),
{
    if value.len() == 0 || ends_key(value[0]) {
        Seq::empty()
    } else {
        Seq::empty().push(value[0]) + setting_key(value.drop_first())
    }
}

fn key_of(value: &str) -> (key: String)
    ensures
        key@ == setting_key(value@),
{
    let c = text::characters(value);
    let mut key: String = String::new();
    let mut i: usize = 0;
    assert(c@.skip(0) =~= c@);
    assert(key@ + setting_key(c@) =~= setting_key(c@));
    while i < c.len() && !(c[i] == '=' || c[i] == ' ' || c[i] == '\t')
        invariant
            i <= c@.len(),
            setting_key(c@) == key@ + setting_key(c@.skip(i as int)),
        decreases c@.len() - i,
    {
        let ghost held = key@;
        assert(c@.skip(i as int)[0] == c@[i as int]);
        assert(c@.skip(i as int).drop_first() =~= c@.skip(i + 1));
        key.push(c[i]);
        assert(held + (Seq::empty().push(c@[i as int]) + setting_key(c@.skip(i + 1))) =~= key@
            + setting_key(c@.skip(i + 1)));
        i += 1;
    }
    assert(key@ + Seq::<char>::empty() =~= key@);
    key
}

/// The code of a character, the same for a letter of ASCII in both cases.
pub open spec fn folded(c: char) -> int {
    if 'A' <= c <= 'Z' {
        c as int + 32
    } else {
        c as int
    }
}

fn fold(c: char) -> (r: u32)
    ensures
        r == folded(c),
{
    if 'A' <= c && c <= 'Z' {
        c as u32 + 32
    } else {
        c as u32
    }
}

/// Two texts that differ only in the case of letters of ASCII.
pub open spec fn same_ignoring_case(a: Seq<char>, b: Seq<char>) -> bool {
    &&& a.len() == b.len()
    &&& forall|i: int| 0 <= i < a.len() ==> folded(#[trigger] a[i]) == folded(b[i])
}

fn equal_ignoring_case(a: &str, b: &str) -> (r: bool)
    ensures
        r == same_ignoring_case(a@, b@),
{
    let x = text::characters(a);
    let y = text::characters(b);
    if x.len() != y.len() {
        return false;
    }
    let mut i: usize = 0;
    while i < x.len()
        invariant
            x@ == a@,
            y@ == b@,
            x@.len() == y@.len(),
            i <= x@.len(),
            forall|k: int| 0 <= k < i ==> folded(#[trigger] x@[k]) == folded(y@[k]),
        decreases x@.len() - i,
    {
        if fold(x[i]) != fold(y[i]) {
            assert(folded(a@[i as int]) != folded(b@[i as int]));
            return false;
        }
        i += 1;
    }
    true
}

/// The key is among these, in whatever case.
pub open spec fn names_setting(key: Seq<char>, keys: Seq<Seq<char>>) -> bool {
    exists|i: int| 0 <= i < keys.len() && same_ignoring_case(key, #[trigger] keys[i])
}

fn names_any(key: &str, keys: &Vec<String>) -> (r: bool)
    ensures
        r == names_setting(key@, text::texts(keys@)),
{
    let ghost model = text::texts(keys@);
    let mut i: usize = 0;
    while i < keys.len()
        invariant
            model == text::texts(keys@),
            i <= keys@.len(),
            forall|k: int| 0 <= k < i ==> !same_ignoring_case(key@, #[trigger] model[k]),
        decreases keys@.len() - i,
    {
        assert(model[i as int] == keys@[i as int]@);
        if equal_ignoring_case(key, keys[i].as_str()) {
            return true;
        }
        i += 1;
    }
    false
}

/// An option that is left out: its flag is among `flags`, or it is a setting among `keys`.
pub open spec fn left_out(option: SshOption, flags: Seq<char>, keys: Seq<Seq<char>>) -> bool {
    ||| flags.contains(option.0)
    ||| option.0 == 'o' && option.1 is Some && names_setting(setting_key(option.1->Some_0), keys)
}

/// The arguments that stand for an option.
pub open spec fn option_words(option: SshOption) -> Seq<Seq<char>> {
    let flag = Seq::<Seq<char>>::empty().push("-"@.push(option.0));
    match option.1 {
        Some(value) => flag.push(value),
        None => flag,
    }
}

/// The arguments that stand for the options that are not left out.
pub open spec fn kept_words(
    options: Seq<SshOption>,
    flags: Seq<char>,
    keys: Seq<Seq<char>>,
) -> Seq<Seq<char>>
    decreases options.len(),
{
    if options.len() == 0 {
        Seq::empty()
    } else {
        kept_words(options.drop_last(), flags, keys) + (if left_out(options.last(), flags, keys) {
            Seq::empty()
        } else {
            option_words(options.last())
        })
    }
}

fn push_text(list: &mut Vec<String>, word: String)
    ensures
        text::texts(final(list)@) == text::texts(old(list)@).push(word@),
{
    proof {
        text::lemma_texts_push(list@, word);
    }
    list.push(word);
}

fn keep_options(
    words: &mut Vec<String>,
    options: &Vec<(char, Option<String>)>,
    flags: &str,
    keys: &Vec<String>,
)
    ensures
        text::texts(final(words)@) == text::texts(old(words)@) + kept_words(
            options.deep_view(),
            flags@,
            text::texts(keys@),
        ),
{
    let ghost before = text::texts(words@);
    let ghost model = options.deep_view();
    let ghost key_model = text::texts(keys@);
    let mut i: usize = 0;
    assert(before + kept_words(model.take(0), flags@, key_model) =~= before);
    while i < options.len()
        invariant
            model == options.deep_view(),
            key_model == text::texts(keys@),
            i <= options@.len(),
            text::texts(words@) == before + kept_words(model.take(i as int), flags@, key_model),
        decreases options@.len() - i,
    {
        assert(model.take(i + 1).drop_last() =~= model.take(i as int));
        assert(model.take(i + 1).last() == model[i as int]);
        assert(model[i as int] == options@[i as int].deep_view());
        let ghost held = text::texts(words@);
        let flag = options[i].0;
        let out = text::contains_char(flags, flag) || (flag == 'o' && match &options[i].1 {
            Some(value) => names_any(key_of(value.as_str()).as_str(), keys),
            None => false,
        });
        assert(out == left_out(model[i as int], flags@, key_model));
        if !out {
            let mut word = "-".to_owned();
            word.push(flag);
            push_text(words, word);
            if let Some(value) = &options[i].1 {
                push_text(words, value.clone());
            }
            assert(text::texts(words@) =~= held + option_words(model[i as int]));
        } else {
            assert(text::texts(words@) =~= held + Seq::<Seq<char>>::empty());
        }
        assert(text::texts(words@) =~= before + kept_words(model.take(i + 1), flags@, key_model));
        i += 1;
    }
    assert(model.take(model.len() as int) =~= model);
}

/// The arguments that stand for settings.
pub open spec fn setting_words(settings: Seq<Seq<char>>) -> Seq<Seq<char>>
    decreases settings.len(),
{
    if settings.len() == 0 {
        Seq::empty()
    } else {
        setting_words(settings.drop_last()).push("-o"@).push(settings.last())
    }
}

fn push_settings(words: &mut Vec<String>, settings: &Vec<String>)
    ensures
        text::texts(final(words)@) == text::texts(old(words)@) + setting_words(
            text::texts(settings@),
        ),
{
    let ghost before = text::texts(words@);
    let ghost model = text::texts(settings@);
    let mut i: usize = 0;
    assert(before + setting_words(model.take(0)) =~= before);
    while i < settings.len()
        invariant
            model == text::texts(settings@),
            i <= settings@.len(),
            text::texts(words@) == before + setting_words(model.take(i as int)),
        decreases settings@.len() - i,
    {
        assert(model.take(i + 1).drop_last() =~= model.take(i as int));
        assert(model.take(i + 1).last() == settings@[i as int]@);
        push_text(words, "-o".to_owned());
        push_text(words, settings[i].clone());
        assert(text::texts(words@) =~= before + setting_words(model.take(i + 1)));
        i += 1;
    }
    assert(model.take(model.len() as int) =~= model);
}

// ---------------------------------------------------------------------------
// Recipes
// ---------------------------------------------------------------------------

/// The length of all arguments, in bytes.
pub open spec fn total_bytes(arguments: Seq<Seq<char>>) -> nat
    decreases arguments.len(),
{
    if arguments.len() == 0 {
        0
    } else {
        total_bytes(arguments.drop_last()) + encode_utf8(arguments.last()).len()
    }
}

/// What is wrong with a recipe, if anything.
pub open spec fn recipe_error(recipe: SshRecipeView) -> Option<Seq<char>> {
    if !is_absolute(recipe.working_directory) || (exists|i: int|
        0 <= i < recipe.arguments.len() && (#[trigger] recipe.arguments[i]).contains('\0'))
        || total_bytes(recipe.arguments) > MAX_RECIPE_BYTES {
        Some("Invalid SSH reconnect recipe"@)
    } else {
        match parsed_arguments(recipe.arguments) {
            Ok(_) => None,
            Err(message) => Some(message),
        }
    }
}

/// Whether the arguments are free of zero characters and short enough.
fn bounded_arguments(arguments: &Vec<String>) -> (r: bool)
    ensures
        r == ((forall|i: int|
            0 <= i < arguments@.len() ==> !(#[trigger] text::texts(arguments@)[i]).contains('\0'))
            && total_bytes(text::texts(arguments@)) <= MAX_RECIPE_BYTES),
{
    let ghost model = text::texts(arguments@);
    let mut total: usize = 0;
    let mut i: usize = 0;
    assert(model.take(0) =~= Seq::empty());
    while i < arguments.len()
        invariant
            model == text::texts(arguments@),
            i <= arguments@.len(),
            total == total_bytes(model.take(i as int)),
            total <= MAX_RECIPE_BYTES,
            forall|k: int| 0 <= k < i ==> !(#[trigger] model[k]).contains('\0'),
        decreases arguments@.len() - i,
    {
        assert(model[i as int] == arguments@[i as int]@);
        assert(model.take(i + 1).drop_last() =~= model.take(i as int));
        if text::contains_char(arguments[i].as_str(), '\0') {
            return false;
        }
        let length: usize = arguments[i].as_str().as_bytes().len();
        if length > MAX_RECIPE_BYTES - total {
            proof {
                lemma_total_grows(model, i + 1);
            }
            return false;
        }
        total += length;
        i += 1;
    }
    assert(model.take(model.len() as int) =~= model);
    true
}

proof fn lemma_total_grows(arguments: Seq<Seq<char>>, k: int)
    requires
        0 <= k <= arguments.len(),
    ensures
        total_bytes(arguments.take(k)) <= total_bytes(arguments),
    decreases arguments.len() - k,
{
    if k == arguments.len() {
        assert(arguments.take(k) =~= arguments);
    } else {
        lemma_total_grows(arguments, k + 1);
        assert(arguments.take(k + 1).drop_last() =~= arguments.take(k));
    }
}

/// The texts of a record's fields, or what is wrong with the first that is not UTF-8.
pub open spec fn field_texts(fields: Seq<Seq<u8>>) -> Result<Seq<Seq<char>>, Seq<char>>
    decreases fields.len(),
{
    if fields.len() == 0 {
        Ok(Seq::empty())
    } else {
        match field_texts(fields.drop_last()) {
            Err(message) => Err(message),
            Ok(texts) => if valid_utf8(fields.last()) {
                Ok(texts.push(decode_utf8(fields.last())))
            } else {
                Err(utf8_complaint(fields.last()))
            },
        }
    }
}

proof fn lemma_field_texts(fields: Seq<Seq<u8>>, k: int)
    requires
        0 <= k <= fields.len(),
        field_texts(fields.take(k)) is Err,
    ensures
        field_texts(fields) == field_texts(fields.take(k)),
    decreases fields.len() - k,
{
    if k == fields.len() {
        assert(fields.take(k) =~= fields);
    } else {
        assert(fields.take(k + 1).drop_last() =~= fields.take(k));
        lemma_field_texts(fields, k + 1);
    }
}

/// The recipe in a record: fields that each end in a zero byte, the first of which
/// names the format.
pub open spec fn decoded(record: Seq<u8>) -> Result<SshRecipeView, Seq<char>> {
    if record.len() > MAX_RECIPE_BYTES || record.len() == 0 || record.last() != 0 {
        Err("Incomplete or oversized SSH reconnect record"@)
    } else {
        match field_texts(text::split_by(record.drop_last(), 0u8)) {
            Err(message) => Err(message),
            Ok(fields) => if fields.len() < 3 || fields[0] != "EWSSH1"@ {
                Err("Unknown SSH reconnect record format"@)
            } else {
                let recipe = SshRecipeView {
                    working_directory: fields[1],
                    arguments: fields.skip(2),
                };
                match recipe_error(recipe) {
                    Some(message) => Err(message),
                    None => Ok(recipe),
                }
            },
        }
    }
}

fn decode_fields(fields: &Vec<Vec<u8>>) -> (r: Result<Vec<String>, LocalError>)
    ensures
        match (r, field_texts(fields.deep_view())) {
            (Ok(list), Ok(model)) => text::texts(list@) == model,
            (Err(error), Err(message)) => error.deep_view() == message,
            _ => false,
        },
{
    let ghost model = fields.deep_view();
    let mut out: Vec<String> = Vec::new();
    let mut i: usize = 0;
    assert(model.take(0) =~= Seq::empty());
    assert(text::texts(out@) =~= Seq::empty());
    while i < fields.len()
        invariant
            model == fields.deep_view(),
            i <= fields@.len(),
            field_texts(model.take(i as int)) == Ok::<Seq<Seq<char>>, Seq<char>>(
                text::texts(out@),
            ),
        decreases fields@.len() - i,
    {
        proof {
            bytes::bytes_deep_view(fields@[i as int]);
        }
        assert(model[i as int] == fields@[i as int]@);
        assert(model.take(i + 1).drop_last() =~= model.take(i as int));
        match bytes::to_text(fields[i].as_slice()) {
            Err(message) => {
                proof {
                    lemma_field_texts(model, i + 1);
                }
                return Err(LocalError { message });
            },
            Ok(field) => {
                push_text(&mut out, field);
            },
        }
        i += 1;
    }
    assert(model.take(model.len() as int) =~= model);
    Ok(out)
}

/// The options that a private connection master does not take over: forwardings,
/// control sockets, and what belongs to an interactive session.
pub open spec fn master_flags() -> Seq<char> {
    "SMNTtDLR"@
}

pub open spec fn master_keys() -> Seq<Seq<char>> {
    Seq::<Seq<char>>::empty().push("ControlMaster"@).push("ControlPath"@).push("ControlPersist"@)
        .push("RequestTTY"@).push("SessionType"@).push("LocalForward"@).push("RemoteForward"@)
        .push("DynamicForward"@).push("ForkAfterAuthentication"@).push("RemoteCommand"@)
}

pub open spec fn master_settings() -> Seq<Seq<char>> {
    Seq::<Seq<char>>::empty().push("ControlMaster=yes"@).push("ControlPersist=no"@)
        .push("BatchMode=yes"@).push("StrictHostKeyChecking=yes"@).push("ServerAliveInterval=10"@)
        .push("ServerAliveCountMax=2"@).push("ClearAllForwardings=yes"@).push("RequestTTY=no"@)
        .push("SessionType=none"@).push("ExitOnForwardFailure=yes"@)
}

/// The arguments of a foreground, private, non-interactive master. It never accepts
/// a new or a changed host key, and takes over no forwarding.
pub open spec fn master_words(parsed: ParsedView, socket: Seq<char>) -> Seq<Seq<char>> {
    (Seq::<Seq<char>>::empty().push("-N"@).push("-T"@) + setting_words(master_settings())).push(
        "-S"@,
    ).push(socket) + kept_words(parsed.options, master_flags(), master_keys()) + Seq::<
        Seq<char>,
    >::empty().push("--"@).push(parsed.destination)
}

pub open spec fn recovery_flags() -> Seq<char> {
    "SMNnTtDLR"@
}

pub open spec fn recovery_keys() -> Seq<Seq<char>> {
    master_keys().push("StdinNull"@)
}

pub open spec fn recovery_settings() -> Seq<Seq<char>> {
    Seq::<Seq<char>>::empty().push("ControlMaster=no"@).push("ControlPersist=no"@)
        .push("ControlPath=none"@).push("StrictHostKeyChecking=yes"@)
        .push("ClearAllForwardings=yes"@).push("RequestTTY=force"@).push("SessionType=default"@)
        .push("RemoteCommand=none"@).push("ServerAliveInterval=10"@).push("ServerAliveCountMax=2"@)
}

/// The tmux command that attaches to a session.
pub open spec fn attach_command(id: Seq<char>) -> Seq<char> {
    let session = session_name(id);
    "set-option -t "@ + session + " status off ; set-option -w -t ="@ + session
        + ":0 window-size latest ; attach-session -t "@ + session
}

/// The remote command that attaches to exactly this incarnation, and starts nothing.
pub open spec fn attach_words(id: Seq<char>, generation: Seq<char>) -> Seq<Seq<char>> {
    Seq::<Seq<char>>::empty().push("tmux"@).push("-L"@).push(SOCKET@).push("if-shell"@).push(
        "-F"@,
    ).push("-t"@).push(target(id)).push(generation_guard(generation)).push(
        attach_command(id),
    ).push("display-message -p 'Workspace was removed or replaced; nothing was started'"@)
}

/// A command line of words that a shell takes literally.
pub open spec fn quoted_line(words: Seq<Seq<char>>) -> Seq<char> {
    text::joined_by(words.map_values(|word: Seq<char>| quoted(word)), " "@)
}

fn quote_line(words: &Vec<String>) -> (line: String)
    ensures
        line@ == quoted_line(text::texts(words@)),
{
    let ghost model = text::texts(words@);
    let mut list: Vec<String> = Vec::new();
    let mut i: usize = 0;
    while i < words.len()
        invariant
            model == text::texts(words@),
            i <= words@.len(),
            text::texts(list@) == model.take(i as int).map_values(
                |word: Seq<char>| quoted(word),
            ),
        decreases words@.len() - i,
    {
        assert(model[i as int] == words@[i as int]@);
        push_text(&mut list, quote(words[i].as_str()));
        i += 1;
        assert(text::texts(list@) =~= model.take(i as int).map_values(
            |word: Seq<char>| quoted(word),
        ));
    }
    assert(model.take(model.len() as int) =~= model);
    text::join(list.as_slice(), " ")
}

/// The arguments of a connection that attaches a new local terminal to an incarnation.
pub open spec fn recovery_words(parsed: ParsedView, id: Seq<char>, generation: Seq<char>) -> Seq<
    Seq<char>,
> {
    Seq::<Seq<char>>::empty().push("-tt"@).push("-S"@).push("none"@) + setting_words(
        recovery_settings(),
    ) + kept_words(parsed.options, recovery_flags(), recovery_keys()) + Seq::<
        Seq<char>,
    >::empty().push("--"@).push(parsed.destination).push(
        quoted_line(attach_words(id, generation)),
    )
}

/// The command line for a new local terminal.
pub open spec fn recovery_line(
    recipe: SshRecipeView,
    id: Seq<char>,
    generation: Seq<char>,
) -> Result<
    Seq<char>,
    Seq<char>,
> {
    match recipe_error(recipe) {
        Some(message) => Err(message),
        None => if !is_token(id) || !is_token(generation) {
            Err("Invalid recovery workspace identity"@)
        } else {
            Ok(
                "cd -- "@ + quoted(recipe.working_directory) + " && /usr/bin/ssh "@ + quoted_line(
                    recovery_words(parsed_arguments(recipe.arguments)->Ok_0, id, generation),
                ),
            )
        },
    }
}

fn attach_words_of(id: &str, generation: &str) -> (words: Vec<String>)
    ensures
        text::texts(words@) == attach_words(id@, generation@),
{
    let session = text::joined(PREFIX, id);
    let mut attach = "set-option -t ".to_owned();
    attach.append(session.as_str());
    attach.append(" status off ; set-option -w -t =");
    attach.append(session.as_str());
    attach.append(":0 window-size latest ; attach-session -t ");
    attach.append(session.as_str());
    let words = vec![
        "tmux".to_owned(),
        "-L".to_owned(),
        SOCKET.to_owned(),
        "if-shell".to_owned(),
        "-F".to_owned(),
        "-t".to_owned(),
        target_of(id),
        guard_of(generation),
        attach,
        "display-message -p 'Workspace was removed or replaced; nothing was started'".to_owned(),
    ];
    assert(text::texts(words@) =~= attach_words(id@, generation@));
    words
}

fn master_keys_list() -> (keys: Vec<String>)
    ensures
        text::texts(keys@) == master_keys(),
{
    let keys = vec![
        "ControlMaster".to_owned(),
        "ControlPath".to_owned(),
        "ControlPersist".to_owned(),
        "RequestTTY".to_owned(),
        "SessionType".to_owned(),
        "LocalForward".to_owned(),
        "RemoteForward".to_owned(),
        "DynamicForward".to_owned(),
        "ForkAfterAuthentication".to_owned(),
        "RemoteCommand".to_owned(),
    ];
    assert(text::texts(keys@) =~= master_keys());
    keys
}

impl SshRecipe {
    /// Reads a recipe from its record.
    pub fn decode(record: &Vec<u8>) -> (r: Result<SshRecipe, LocalError>)
        ensures
            outcome(r) == decoded(record@),
    {
        if record.len() > MAX_RECIPE_BYTES || record.len() == 0 || record[record.len() - 1] != 0 {
            return Err(refuse("Incomplete or oversized SSH reconnect record"));
        }
        let contents = bytes::slice(record.as_slice(), 0, record.len() - 1);
        assert(contents@ =~= record@.drop_last());
        let pieces = bytes::split(contents.as_slice(), 0);
        let fields = decode_fields(&pieces)?;
        let ghost model = text::texts(fields@);
        assert(forall|i: int| 0 <= i < fields@.len() ==> model[i] == fields@[i]@);
        if fields.len() < 3 || !text::same(fields[0].as_str(), "EWSSH1") {
            return Err(refuse("Unknown SSH reconnect record format"));
        }
        let mut arguments: Vec<String> = Vec::new();
        let mut i: usize = 2;
        while i < fields.len()
            invariant
                model == text::texts(fields@),
                2 <= i <= fields@.len(),
                text::texts(arguments@) == model.subrange(2, i as int),
            decreases fields@.len() - i,
        {
            assert(model[i as int] == fields@[i as int]@);
            push_text(&mut arguments, fields[i].clone());
            i += 1;
            assert(text::texts(arguments@) =~= model.subrange(2, i as int));
        }
        assert(model.subrange(2, model.len() as int) =~= model.skip(2));
        let recipe = SshRecipe { working_directory: fields[1].clone(), arguments };
        recipe.validate()?;
        Ok(recipe)
    }

    /// Checks that a recipe can be used for a reconnection.
    pub fn validate(&self) -> (r: Result<(), LocalError>)
        ensures
            match recipe_error(self.deep_view()) {
                None => r is Ok,
                Some(message) => r matches Err(error) && error.deep_view() == message,
            },
    {
        assert(self.arguments@.len() == text::texts(self.arguments@).len());
        if !absolute(self.working_directory.as_str()) || !bounded_arguments(&self.arguments) {
            return Err(refuse("Invalid SSH reconnect recipe"));
        }
        parse_arguments(&self.arguments)?;
        Ok(())
    }

    pub fn working_directory(&self) -> (path: &str)
        ensures
            path@ == self.deep_view().working_directory,
    {
        self.working_directory.as_str()
    }

    pub fn copy(&self) -> (recipe: SshRecipe)
        ensures
            recipe.deep_view() == self.deep_view(),
    {
        let mut arguments: Vec<String> = Vec::new();
        let ghost model = text::texts(self.arguments@);
        let mut i: usize = 0;
        while i < self.arguments.len()
            invariant
                model == text::texts(self.arguments@),
                i <= self.arguments@.len(),
                text::texts(arguments@) == model.take(i as int),
            decreases self.arguments@.len() - i,
        {
            assert(model[i as int] == self.arguments@[i as int]@);
            push_text(&mut arguments, self.arguments[i].clone());
            i += 1;
            assert(text::texts(arguments@) =~= model.take(i as int));
        }
        assert(model.take(model.len() as int) =~= model);
        SshRecipe { working_directory: self.working_directory.clone(), arguments }
    }

    /// The command line that attaches a new local terminal to an incarnation, for
    /// when a complete native replay is no longer possible. It is never executed in
    /// the remote job.
    pub fn recovery_command(&self, id: &str, generation: &str) -> (r: Result<String, LocalError>)
        ensures
            outcome(r) == recovery_line(self.deep_view(), id@, generation@),
    {
        self.validate()?;
        if !token(id) || !token(generation) {
            return Err(refuse("Invalid recovery workspace identity"));
        }
        let parsed = parse_arguments(&self.arguments)?;
        let mut words = vec!["-tt".to_owned(), "-S".to_owned(), "none".to_owned()];
        let settings = vec![
            "ControlMaster=no".to_owned(),
            "ControlPersist=no".to_owned(),
            "ControlPath=none".to_owned(),
            "StrictHostKeyChecking=yes".to_owned(),
            "ClearAllForwardings=yes".to_owned(),
            "RequestTTY=force".to_owned(),
            "SessionType=default".to_owned(),
            "RemoteCommand=none".to_owned(),
            "ServerAliveInterval=10".to_owned(),
            "ServerAliveCountMax=2".to_owned(),
        ];
        assert(text::texts(settings@) =~= recovery_settings());
        assert(text::texts(words@) =~= Seq::<Seq<char>>::empty().push("-tt"@).push("-S"@).push(
            "none"@,
        ));
        push_settings(&mut words, &settings);
        let mut keys = master_keys_list();
        push_text(&mut keys, "StdinNull".to_owned());
        keep_options(&mut words, &parsed.options, "SMNnTtDLR", &keys);
        let ghost kept = text::texts(words@);
        let remote = attach_words_of(id, generation);
        push_text(&mut words, "--".to_owned());
        push_text(&mut words, parsed.destination);
        push_text(&mut words, quote_line(&remote));
        assert(text::texts(words@) =~= recovery_words(parsed.deep_view(), id@, generation@));
        let mut line = "cd -- ".to_owned();
        line.append(quote(self.working_directory.as_str()).as_str());
        line.append(" && /usr/bin/ssh ");
        line.append(quote_line(&words).as_str());
        Ok(line)
    }

    /// The arguments of a foreground, private, non-interactive master on a control
    /// socket. Authentication failures stay visible.
    pub fn master_arguments(&self, socket: &str) -> (r: Result<Vec<String>, LocalError>)
        ensures
            match recipe_error(self.deep_view()) {
                Some(message) => r matches Err(error) && error.deep_view() == message,
                None => if !is_absolute(socket@) {
                    r matches Err(error) && error.deep_view()
                        == "SSH control socket must be an absolute UTF-8 path"@
                } else {
                    r matches Ok(words) && text::texts(words@) == master_words(
                        parsed_arguments(self.deep_view().arguments)->Ok_0,
                        socket@,
                    )
                },
            },
    {
        self.validate()?;
        if !absolute(socket) {
            return Err(refuse("SSH control socket must be an absolute UTF-8 path"));
        }
        let parsed = parse_arguments(&self.arguments)?;
        let mut words = vec!["-N".to_owned(), "-T".to_owned()];
        let settings = vec![
            "ControlMaster=yes".to_owned(),
            "ControlPersist=no".to_owned(),
            "BatchMode=yes".to_owned(),
            "StrictHostKeyChecking=yes".to_owned(),
            "ServerAliveInterval=10".to_owned(),
            "ServerAliveCountMax=2".to_owned(),
            "ClearAllForwardings=yes".to_owned(),
            "RequestTTY=no".to_owned(),
            "SessionType=none".to_owned(),
            "ExitOnForwardFailure=yes".to_owned(),
        ];
        assert(text::texts(settings@) =~= master_settings());
        assert(text::texts(words@) =~= Seq::<Seq<char>>::empty().push("-N"@).push("-T"@));
        push_settings(&mut words, &settings);
        push_text(&mut words, "-S".to_owned());
        push_text(&mut words, socket.to_owned());
        let keys = master_keys_list();
        keep_options(&mut words, &parsed.options, "SMNTtDLR", &keys);
        push_text(&mut words, "--".to_owned());
        push_text(&mut words, parsed.destination);
        assert(text::texts(words@) =~= master_words(parsed.deep_view(), socket@));
        Ok(words)
    }
}

// ---------------------------------------------------------------------------
// The record of a recipe
// ---------------------------------------------------------------------------

/// Where the records are, seen from the local home directory.
pub const RECIPES_DIRECTORY: &'static str = ".local/state/eternalwarp/ssh-recipes";

/// The name of the record of a session's recipe.
pub fn record_name(session_id: u64) -> (name: String)
    ensures
        name@ == decimal_text(session_id as nat) + ".argv"@,
{
    text::joined(decimal(session_id).as_str(), ".argv")
}

/// Checks the directory of the records.
pub fn check_recipes_directory(entry: &LocalEntry, user: u32) -> (r: Result<(), LocalError>)
    ensures
        if entry.directory && is_private(*entry, user) {
            r is Ok
        } else {
            r matches Err(error) && error.deep_view()
                == "SSH reconnect directory is not private to the local user"@
        },
{
    if !entry.directory || !private(entry, user) {
        return Err(refuse("SSH reconnect directory is not private to the local user"));
    }
    Ok(())
}

/// Checks the file of a record before it is read.
pub fn check_recipe_record(entry: &LocalEntry, user: u32) -> (r: Result<(), LocalError>)
    ensures
        if entry.file && is_private(*entry, user) && entry.length <= MAX_RECIPE_BYTES {
            r is Ok
        } else {
            r matches Err(error) && error.deep_view()
                == "SSH reconnect record is not a private, bounded local file"@
        },
{
    if !entry.file || !private(entry, user) || entry.length > MAX_RECIPE_BYTES as u64 {
        return Err(refuse("SSH reconnect record is not a private, bounded local file"));
    }
    Ok(())
}

// ---------------------------------------------------------------------------
// Laws
// ---------------------------------------------------------------------------

/// The arguments that stand for options.
pub open spec fn words_of_options(options: Seq<SshOption>) -> Seq<Seq<char>>
    decreases options.len(),
{
    if options.len() == 0 {
        Seq::empty()
    } else {
        words_of_options(options.drop_last()) + option_words(options.last())
    }
}

/// The options that are taken over are exactly those of the user's options that are
/// not left out, in their order and with their values.
pub proof fn options_are_taken_over_or_left_out(
    options: Seq<SshOption>,
    flags: Seq<char>,
    keys: Seq<Seq<char>>,
)
    ensures
        kept_words(options, flags, keys) == words_of_options(
            options.filter(|option: SshOption| !left_out(option, flags, keys)),
        ),
    decreases options.len(),
{
    reveal(Seq::filter);
    let keep = |option: SshOption| !left_out(option, flags, keys);
    if options.len() > 0 {
        options_are_taken_over_or_left_out(options.drop_last(), flags, keys);
        let front = options.drop_last().filter(keep);
        if keep(options.last()) {
            assert(front.push(options.last()).drop_last() =~= front);
        } else {
            assert(kept_words(options.drop_last(), flags, keys) + Seq::<Seq<char>>::empty()
                =~= kept_words(options.drop_last(), flags, keys));
        }
    }
}

/// No forwarding and no control socket of the user's connection is taken over, not
/// by a master and not by a recovery.
pub proof fn forwardings_are_left_out(option: SshOption)
    requires
        "SMTtDLR"@.contains(option.0) || (option.0 == 'o' && option.1 is Some && names_setting(
            setting_key(option.1->Some_0),
            master_keys(),
        )),
    ensures
        left_out(option, master_flags(), master_keys()),
        left_out(option, recovery_flags(), recovery_keys()),
{
    reveal_strlit("SMTtDLR");
    reveal_strlit("SMNTtDLR");
    reveal_strlit("SMNnTtDLR");
    let given = "SMTtDLR"@;
    let master = "SMNTtDLR"@;
    let recovery = "SMNnTtDLR"@;
    if given.contains(option.0) {
        let k = choose|k: int| 0 <= k < given.len() && given[k] == option.0;
        let m = if k < 2 {
            k
        } else {
            k + 1
        };
        let r = if k < 2 {
            k
        } else {
            k + 2
        };
        assert(master[m] == option.0);
        assert(recovery[r] == option.0);
    } else {
        let key = setting_key(option.1->Some_0);
        let k = choose|k: int|
            0 <= k < master_keys().len() && same_ignoring_case(key, #[trigger] master_keys()[k]);
        assert(recovery_keys()[k] == master_keys()[k]);
        assert(same_ignoring_case(key, recovery_keys()[k]));
    }
}

/// A record gives only recipes that can be used.
pub proof fn decoded_recipes_are_valid(record: Seq<u8>)
    requires
        decoded(record) is Ok,
    ensures
        recipe_error(decoded(record)->Ok_0) is None,
        parsed_arguments(decoded(record)->Ok_0.arguments) is Ok,
{
}

/// A connection's destination is its last argument, and never an option. Nothing
/// behind it could be taken for a remote command.
pub proof fn destination_is_last(arguments: Seq<Seq<char>>, socket: Seq<char>)
    requires
        parsed_arguments(arguments) is Ok,
    ensures
        ({
            let parsed = parsed_arguments(arguments)->Ok_0;
            &&& parsed.destination == arguments.last()
            &&& parsed.destination.len() > 0 && parsed.destination[0] != '-'
            &&& master_words(parsed, socket).last() == parsed.destination
        }),
{
}

} // verus!
