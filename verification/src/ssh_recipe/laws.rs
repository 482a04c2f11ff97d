//! What holds of recipes as a whole: which options matter, and what a record keeps.

use crate::ssh_recipe::{
    cluster, decoded, ends_key, ends_options, field_texts, is_plain_flag, is_refused_flag,
    is_valued_flag, kept_words, left_out, lemma_cluster_used, master_flags, master_keys,
    master_words, names_setting, option_words, parsed_arguments, recipe_error, recovery_flags,
    recovery_keys, recovery_line, scan, setting_key, words_of_options, ParsedView, SshOption,
    SshRecipeView, MAX_ARGUMENTS, MAX_RECIPE_BYTES,
};
use crate::text;
use crate::workspace::sessions::is_token;
use vstd::prelude::*;
use vstd::string::*;
use vstd::utf8::{
    char_u32_cast, encode_scalar, encode_utf8, encode_utf8_decode_utf8, encode_utf8_valid_utf8,
};

verus! {

// ---------------------------------------------------------------------------
// Options in front
// ---------------------------------------------------------------------------

/// An option that arguments can give: its flag is known, and it has a value, which is
/// not empty, if and only if its flag takes one.
pub open spec fn well_formed(option: SshOption) -> bool {
    &&& !is_refused_flag(option.0)
    &&& if is_valued_flag(option.0) {
        option.1 is Some && option.1->Some_0.len() > 0
    } else {
        is_plain_flag(option.0) && option.1 is None
    }
}

/// Arguments that give an option: its value follows its flag as an argument of its
/// own, or is attached to it.
pub open spec fn spells(entry: Seq<Seq<char>>, option: SshOption) -> bool {
    ||| entry == option_words(option)
    ||| option.1 is Some && entry == Seq::<Seq<char>>::empty().push(
        "-"@.push(option.0) + option.1->Some_0,
    )
}

pub(crate) proof fn lemma_flags(flag: char)
    requires
        is_valued_flag(flag) || is_plain_flag(flag),
    ensures
        flag != '-',
{
    reveal_strlit("BbcDEeFIiJLlmopRS");
    reveal_strlit("1246AaCKkMNnqsTtXxYyvg");
    let valued = "BbcDEeFIiJLlmopRS"@;
    let plain = "1246AaCKkMNnqsTtXxYyvg"@;
    if flag == '-' {
        if is_valued_flag(flag) {
            let k = choose|k: int| 0 <= k < valued.len() && valued[k] == '-';
            assert(k < 17);
        } else {
            let k = choose|k: int| 0 <= k < plain.len() && plain[k] == '-';
            assert(k < 22);
        }
    }
}

/// What is scanned does not depend on what stands before it.
pub(crate) proof fn lemma_scan_shift(front: Seq<Seq<char>>, arguments: Seq<Seq<char>>, at: int)
    requires
        at >= 0,
    ensures
        scan(front + arguments, front.len() + at) == (match scan(arguments, at) {
            Err(message) => Err::<(Seq<SshOption>, int), Seq<char>>(message),
            Ok((options, end)) => Ok((options, front.len() + end)),
        }),
    decreases arguments.len() - at,
{
    let all = front + arguments;
    if at < arguments.len() {
        assert(all[front.len() + at] == arguments[at]);
        if arguments[at] != "--"@ && !ends_options(arguments[at]) {
            if at + 1 < arguments.len() {
                assert(all[front.len() + at + 1] == arguments[at + 1]);
            }
            lemma_scan_shift(front, arguments, at + 1);
            if at + 1 < arguments.len() {
                lemma_scan_shift(front, arguments, at + 2);
            } else {
                lemma_cluster_used(arguments[at], 1, None);
            }
        }
    }
}

/// An option in front of arguments is scanned first.
pub(crate) proof fn lemma_scan_entry(entry: Seq<Seq<char>>, option: SshOption, arguments: Seq<Seq<char>>)
    requires
        well_formed(option),
        spells(entry, option),
    ensures
        scan(entry + arguments, 0) == (match scan(arguments, 0) {
            Err(message) => Err::<(Seq<SshOption>, int), Seq<char>>(message),
            Ok((options, end)) => Ok(
                (Seq::<SshOption>::empty().push(option) + options, entry.len() + end),
            ),
        }),
{
    let all = entry + arguments;
    let flag = option.0;
    reveal_strlit("-");
    reveal_strlit("--");
    lemma_flags(flag);
    let word = all[0];
    assert(word == entry[0]);
    assert(word[0] == '-' && word[1] == flag);
    assert(word != "--"@ && word != "-"@ && !ends_options(word));
    lemma_scan_shift(entry, arguments, 0);
    let next = if 1 < all.len() {
        Some(all[1])
    } else {
        None
    };
    let one = Seq::<SshOption>::empty().push(option);
    match option.1 {
        None => {
            assert(cluster(word, 2, next) == Ok::<(Seq<SshOption>, bool), Seq<char>>(
                (Seq::empty(), false),
            ));
            assert(one + Seq::<SshOption>::empty() =~= one);
        },
        Some(value) => {
            if entry == option_words(option) {
                assert(all[1] == entry[1]);
            } else {
                assert(word.skip(2) =~= value);
            }
        },
    }
    assert(cluster(word, 1, next) == Ok::<(Seq<SshOption>, bool), Seq<char>>(
        (one, entry.len() == 2),
    ));
}

pub(crate) proof fn lemma_kept_front(
    option: SshOption,
    options: Seq<SshOption>,
    flags: Seq<char>,
    keys: Seq<Seq<char>>,
)
    ensures
        kept_words(Seq::<SshOption>::empty().push(option) + options, flags, keys) == (if left_out(
            option,
            flags,
            keys,
        ) {
            Seq::<Seq<char>>::empty()
        } else {
            option_words(option)
        }) + kept_words(options, flags, keys),
    decreases options.len(),
{
    let one = Seq::<SshOption>::empty().push(option);
    let all = one + options;
    let first = if left_out(option, flags, keys) {
        Seq::<Seq<char>>::empty()
    } else {
        option_words(option)
    };
    if options.len() == 0 {
        assert(all =~= one);
        assert(all.drop_last() =~= Seq::empty());
        assert(kept_words(all.drop_last(), flags, keys) =~= Seq::empty());
        assert(all.last() == option);
        assert(kept_words(options, flags, keys) =~= Seq::empty());
        assert(kept_words(all, flags, keys) =~= first + kept_words(options, flags, keys));
    } else {
        lemma_kept_front(option, options.drop_last(), flags, keys);
        assert(all.drop_last() =~= one + options.drop_last());
        assert(all.last() == options.last());
        assert(kept_words(all, flags, keys) =~= first + kept_words(options, flags, keys));
    }
}

/// One more option in front of a recipe's arguments that belongs to the connection that
/// is lost, and not to its destination, leaves the recovery line as it is: forwardings,
/// control sockets, terminals, sessions without a command and remote commands are not
/// taken over, in whatever way they are given.
pub proof fn recovery_does_without(
    recipe: SshRecipeView,
    entry: Seq<Seq<char>>,
    option: SshOption,
    id: Seq<char>,
    generation: Seq<char>,
)
    requires
        "SMNnTtDLR"@.contains(option.0) || (option.0 == 'o' && option.1 is Some && names_setting(
            setting_key(option.1->Some_0),
            recovery_keys(),
        )),
        well_formed(option),
        spells(entry, option),
        recipe_error(recipe) is None,
        recipe_error(SshRecipeView { arguments: entry + recipe.arguments, ..recipe }) is None,
        is_token(id),
        is_token(generation),
    ensures
        recovery_line(recipe, id, generation) is Ok,
        recovery_line(
            SshRecipeView { arguments: entry + recipe.arguments, ..recipe },
            id,
            generation,
        ) == recovery_line(recipe, id, generation),
{
    lemma_scan_entry(entry, option, recipe.arguments);
    let options = scan(recipe.arguments, 0)->Ok_0.0;
    lemma_kept_front(option, options, recovery_flags(), recovery_keys());
    let kept = kept_words(options, recovery_flags(), recovery_keys());
    assert(Seq::<Seq<char>>::empty() + kept =~= kept);
    let longer = entry + recipe.arguments;
    assert(parsed_arguments(longer)->Ok_0.destination == parsed_arguments(
        recipe.arguments,
    )->Ok_0.destination) by {
        assert(longer.last() == recipe.arguments.last());
    }
}

/// The same holds of a connection's master.
pub proof fn a_master_does_without(
    arguments: Seq<Seq<char>>,
    entry: Seq<Seq<char>>,
    option: SshOption,
    socket: Seq<char>,
)
    requires
        left_out(option, master_flags(), master_keys()),
        well_formed(option),
        spells(entry, option),
        parsed_arguments(arguments) is Ok,
        parsed_arguments(entry + arguments) is Ok,
    ensures
        master_words(parsed_arguments(entry + arguments)->Ok_0, socket) == master_words(
            parsed_arguments(arguments)->Ok_0,
            socket,
        ),
{
    lemma_scan_entry(entry, option, arguments);
    let options = scan(arguments, 0)->Ok_0.0;
    lemma_kept_front(option, options, master_flags(), master_keys());
    let kept = kept_words(options, master_flags(), master_keys());
    assert(Seq::<Seq<char>>::empty() + kept =~= kept);
    assert((entry + arguments).last() == arguments.last());
}

/// A setting is named by what stands before the first separator, in whatever case, so a
/// setting that a recovery does without can be written in any of these ways.
pub proof fn settings_are_named_by_their_keys(
    key: Seq<char>,
    separator: char,
    value: Seq<char>,
    keys: Seq<Seq<char>>,
)
    requires
        forall|i: int| 0 <= i < key.len() ==> !ends_key(#[trigger] key[i]),
        ends_key(separator),
    ensures
        setting_key(key.push(separator) + value) == key,
        names_setting(setting_key(key.push(separator) + value), keys) == names_setting(key, keys),
    decreases key.len(),
{
    let whole = key.push(separator) + value;
    if key.len() == 0 {
        assert(whole[0] == separator);
        assert(setting_key(whole) =~= key);
    } else {
        let rest = key.drop_first();
        assert(whole.drop_first() =~= rest.push(separator) + value);
        assert(whole[0] == key[0]);
        assert forall|i: int| 0 <= i < rest.len() implies !ends_key(#[trigger] rest[i]) by {
            assert(rest[i] == key[i + 1]);
        }
        settings_are_named_by_their_keys(rest, separator, value, keys);
        assert(setting_key(whole) =~= key);
    }
}

// ---------------------------------------------------------------------------
// Normalized arguments
// ---------------------------------------------------------------------------

/// Every option of the sequence is well formed.
pub open spec fn all_well_formed(options: Seq<SshOption>) -> bool {
    forall|i: int| 0 <= i < options.len() ==> well_formed(#[trigger] options[i])
}

proof fn lemma_cluster_well_formed(argument: Seq<char>, at: int, next: Option<Seq<char>>)
    ensures
        cluster(argument, at, next) matches Ok((options, _)) ==> all_well_formed(options),
    decreases argument.len() - at,
{
    if at < argument.len() {
        lemma_cluster_well_formed(argument, at + 1, next);
    }
}

proof fn lemma_scan_well_formed(arguments: Seq<Seq<char>>, at: int)
    ensures
        scan(arguments, at) matches Ok((options, _)) ==> all_well_formed(options),
    decreases arguments.len() - at,
{
    if at < arguments.len() {
        let next = if at + 1 < arguments.len() {
            Some(arguments[at + 1])
        } else {
            None
        };
        lemma_cluster_well_formed(arguments[at], 1, next);
        lemma_cluster_used(arguments[at], 1, next);
        lemma_scan_well_formed(arguments, at + 1);
        if at + 1 < arguments.len() {
            lemma_scan_well_formed(arguments, at + 2);
        }
    }
}

proof fn lemma_words_front(option: SshOption, options: Seq<SshOption>)
    ensures
        words_of_options(Seq::<SshOption>::empty().push(option) + options) == option_words(option)
            + words_of_options(options),
    decreases options.len(),
{
    let one = Seq::<SshOption>::empty().push(option);
    let all = one + options;
    if options.len() == 0 {
        assert(all.drop_last() =~= Seq::empty());
        assert(words_of_options(all.drop_last()) =~= Seq::empty());
        assert(all.last() == option);
        assert(words_of_options(options) =~= Seq::empty());
        assert(words_of_options(all) =~= option_words(option) + words_of_options(options));
    } else {
        lemma_words_front(option, options.drop_last());
        assert(all.drop_last() =~= one + options.drop_last());
        assert(all.last() == options.last());
        assert(words_of_options(all) =~= option_words(option) + words_of_options(options));
    }
}

proof fn lemma_scan_words(options: Seq<SshOption>, tail: Seq<Seq<char>>)
    requires
        all_well_formed(options),
        tail.len() > 0,
        tail[0] == "--"@,
    ensures
        scan(words_of_options(options) + tail, 0) == Ok::<(Seq<SshOption>, int), Seq<char>>(
            (options, words_of_options(options).len() as int + 1),
        ),
    decreases options.len(),
{
    if options.len() == 0 {
        assert(words_of_options(options) + tail =~= tail);
        assert(options =~= Seq::empty());
    } else {
        let rest = options.drop_first();
        let one = Seq::<SshOption>::empty().push(options[0]);
        assert forall|i: int| 0 <= i < rest.len() implies well_formed(#[trigger] rest[i]) by {
            assert(rest[i] == options[i + 1]);
        }
        lemma_scan_words(rest, tail);
        assert(one + rest =~= options);
        lemma_words_front(options[0], rest);
        lemma_scan_entry(option_words(options[0]), options[0], words_of_options(rest) + tail);
        assert(option_words(options[0]) + (words_of_options(rest) + tail) =~= words_of_options(
            options,
        ) + tail);
    }
}

/// The arguments that say the same in the plainest way: each option by itself, its value
/// behind it, and the destination behind the end of the options.
pub open spec fn normalized(parsed: ParsedView) -> Seq<Seq<char>> {
    words_of_options(parsed.options).push("--"@).push(parsed.destination)
}

/// The normalized arguments are parsed to the same options and the same destination. A
/// destination is the last argument, not empty and no option; every option has a known
/// flag, and a value that is not empty if and only if its flag takes one.
pub proof fn normalized_arguments_say_the_same(arguments: Seq<Seq<char>>)
    requires
        parsed_arguments(arguments) is Ok,
    ensures
        ({
            let parsed = parsed_arguments(arguments)->Ok_0;
            &&& normalized(parsed).len() <= MAX_ARGUMENTS ==> parsed_arguments(normalized(parsed))
                == Ok::<ParsedView, Seq<char>>(parsed)
            &&& parsed.destination == arguments.last()
            &&& parsed.destination.len() > 0 && parsed.destination[0] != '-'
            &&& all_well_formed(parsed.options)
        }),
{
    let parsed = parsed_arguments(arguments)->Ok_0;
    lemma_scan_well_formed(arguments, 0);
    let tail = Seq::<Seq<char>>::empty().push("--"@).push(parsed.destination);
    lemma_scan_words(parsed.options, tail);
    assert(words_of_options(parsed.options) + tail =~= normalized(parsed));
}

// ---------------------------------------------------------------------------
// Records
// ---------------------------------------------------------------------------

/// A record of fields: each is followed by a zero byte.
pub open spec fn record_of_fields(fields: Seq<Seq<char>>) -> Seq<u8>
    decreases fields.len(),
{
    if fields.len() == 0 {
        Seq::empty()
    } else {
        record_of_fields(fields.drop_last()) + encode_utf8(fields.last()).push(0)
    }
}

/// The record of a recipe.
pub open spec fn record_of(recipe: SshRecipeView) -> Seq<u8> {
    record_of_fields(
        Seq::<Seq<char>>::empty().push("EWSSH1"@).push(recipe.working_directory)
            + recipe.arguments,
    )
}

proof fn lemma_scalar_bytes(s: u32)
    requires
        s != 0,
    ensures
        !encode_scalar(s).contains(0),
{
    assert(s <= 0x7F ==> (s & 0x7F) as u8 != 0) by (bit_vector)
        requires
            s != 0,
    ;
    assert(0xC0u8 | ((s >> 6) & 0x1F) as u8 != 0) by (bit_vector);
    assert(0xE0u8 | ((s >> 12) & 0x0F) as u8 != 0) by (bit_vector);
    assert(0xF0u8 | ((s >> 18) & 0x07) as u8 != 0) by (bit_vector);
    assert(0x80u8 | (s & 0x3F) as u8 != 0) by (bit_vector);
    assert(0x80u8 | ((s >> 6) & 0x3F) as u8 != 0) by (bit_vector);
    assert(0x80u8 | ((s >> 12) & 0x3F) as u8 != 0) by (bit_vector);
}

/// Only the zero character is encoded with a zero byte.
proof fn lemma_no_zero(chars: Seq<char>)
    requires
        !chars.contains('\0'),
    ensures
        !encode_utf8(chars).contains(0),
        chars.len() > 0 ==> encode_utf8(chars).len() > 0,
    decreases chars.len(),
{
    if chars.len() > 0 {
        let rest = chars.drop_first();
        assert forall|i: int| 0 <= i < rest.len() implies rest[i] != '\0' by {
            assert(chars.contains(chars[i + 1]));
        }
        lemma_no_zero(rest);
        assert(chars.contains(chars[0]));
        char_u32_cast(chars[0], chars[0] as u32);
        char_u32_cast('\0', '\0' as u32);
        let first = encode_scalar(chars[0] as u32);
        lemma_scalar_bytes(chars[0] as u32);
        let all = encode_utf8(chars);
        assert forall|i: int| 0 <= i < all.len() implies all[i] != 0 by {
            if i < first.len() {
                assert(first.contains(first[i]));
            } else {
                assert(encode_utf8(rest).contains(encode_utf8(rest)[i - first.len()]));
            }
        }
    }
}

/// None of the fields holds the zero character.
pub open spec fn without_zero(fields: Seq<Seq<char>>) -> bool {
    forall|i: int| 0 <= i < fields.len() ==> !(#[trigger] fields[i]).contains('\0')
}

proof fn lemma_record_fields(fields: Seq<Seq<char>>)
    requires
        fields.len() > 0,
        without_zero(fields),
    ensures
        record_of_fields(fields).len() > 0,
        record_of_fields(fields).last() == 0,
        field_texts(text::split_by(record_of_fields(fields).drop_last(), 0u8)) == Ok::<
            Seq<Seq<char>>,
            Seq<char>,
        >(fields),
    decreases fields.len(),
{
    let front = fields.drop_last();
    let last = encode_utf8(fields.last());
    let record = record_of_fields(fields);
    lemma_no_zero(fields.last());
    encode_utf8_valid_utf8(fields.last());
    encode_utf8_decode_utf8(fields.last());
    let pieces = text::split_by(record.drop_last(), 0u8);
    if front.len() == 0 {
        assert(front =~= Seq::empty());
        assert(record_of_fields(front) =~= Seq::empty());
        assert(record.drop_last() =~= last);
        text::lemma_split_whole(last, 0u8);
        assert(pieces.drop_last() =~= Seq::empty());
        assert(field_texts(pieces.drop_last()) == Ok::<Seq<Seq<char>>, Seq<char>>(front));
    } else {
        assert forall|i: int| 0 <= i < front.len() implies !(#[trigger] front[i]).contains(
            '\0',
        ) by {
            assert(front[i] == fields[i]);
        }
        lemma_record_fields(front);
        let before = record_of_fields(front).drop_last();
        assert(record.drop_last() =~= before.push(0) + last);
        text::lemma_split_push(before, 0u8, last);
        assert(pieces.drop_last() =~= text::split_by(before, 0u8));
    }
    assert(pieces.last() == last);
    assert(front.push(fields.last()) =~= fields);
}

/// The record of a recipe that can be used gives it back, with the boundaries and the
/// spaces of its arguments. A record that lost its last byte is refused.
pub proof fn records_give_recipes_back(recipe: SshRecipeView)
    requires
        recipe_error(recipe) is None,
        !recipe.working_directory.contains('\0'),
        record_of(recipe).len() <= MAX_RECIPE_BYTES,
    ensures
        decoded(record_of(recipe)) == Ok::<SshRecipeView, Seq<char>>(recipe),
        decoded(record_of(recipe).drop_last()) is Err,
{
    reveal_strlit("EWSSH1");
    let fields = Seq::<Seq<char>>::empty().push("EWSSH1"@).push(recipe.working_directory)
        + recipe.arguments;
    assert forall|i: int| 0 <= i < fields.len() implies !(#[trigger] fields[i]).contains(
        '\0',
    ) by {
        if i >= 2 {
            assert(fields[i] == recipe.arguments[i - 2]);
        }
    }
    lemma_record_fields(fields);
    assert(fields.skip(2) =~= recipe.arguments);
    normalized_arguments_say_the_same(recipe.arguments);
    assert(fields.last() == recipe.arguments.last());
    let last = encode_utf8(fields.last());
    lemma_no_zero(fields.last());
    assert(last.contains(last.last()));
    assert(record_of(recipe).drop_last().last() == last.last());
}

} // verus!
