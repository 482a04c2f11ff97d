//! What is written in a manifest is what is read from it, and no two files of a
//! journal share a name.

use crate::host::{IoErrorView, JournalFile};
use crate::journal::{file_name_text, manifest_of, manifest_text, sound, Manifest};
use crate::number::{
    decimal_round_trip, decimal_text, hex_text, is_decimal_digit, lemma_decimal,
    lemma_hex16_injective, lemma_hex_shape,
};
use crate::text::{white, words_of, words_state};
use vstd::prelude::*;
use vstd::utf8::*;

verus! {

/// A word: characters of which none is white space.
spec fn is_word(word: Seq<char>) -> bool {
    &&& word.len() > 0
    &&& forall|i: int| 0 <= i < word.len() ==> !white(#[trigger] word[i])
}

/// A word continues the word that the text before it ends in.
proof fn lemma_words_word(text: Seq<char>, word: Seq<char>)
    requires
        forall|i: int| 0 <= i < word.len() ==> !white(#[trigger] word[i]),
    ensures
        words_state(text + word) == (words_state(text).0, words_state(text).1 + word),
    decreases word.len(),
{
    if word.len() == 0 {
        assert(text + word =~= text);
        assert(words_state(text).1 + word =~= words_state(text).1);
    } else {
        let shorter = word.drop_last();
        lemma_words_word(text, shorter);
        assert((text + word).drop_last() =~= text + shorter);
        assert(!white(word[word.len() - 1]));
        assert((words_state(text).1 + shorter).push(word.last()) =~= words_state(text).1 + word);
    }
}

/// A word and the white space behind it.
proof fn lemma_words_next(text: Seq<char>, word: Seq<char>, space: Seq<char>)
    requires
        words_state(text).1.len() == 0,
        is_word(word),
        space.len() == 1,
        white(space[0]),
    ensures
        words_state(text + word + space) == (
            words_state(text).0.push(word),
            Seq::<char>::empty(),
        ),
{
    lemma_words_word(text, word);
    assert(words_state(text).1 + word =~= word);
    assert((text + word + space).drop_last() =~= text + word);
    assert((text + word + space).last() == space[0]);
}

proof fn lemma_decimal_word(n: nat)
    ensures
        is_word(decimal_text(n)),
{
    lemma_decimal(n);
    assert forall|i: int| 0 <= i < decimal_text(n).len() implies !white(
        #[trigger] decimal_text(n)[i],
    ) by {
        assert(is_decimal_digit(decimal_text(n)[i]));
    }
}

proof fn lemma_decimal_length(n: nat, width: nat)
    requires
        width > 0,
        n < vstd::arithmetic::power::pow(10, width),
    ensures
        decimal_text(n).len() <= width,
    decreases width,
{
    reveal(vstd::arithmetic::power::pow);
    if n >= 10 {
        if width == 1 {
            reveal_with_fuel(vstd::arithmetic::power::pow, 2);
        } else {
            let power = vstd::arithmetic::power::pow(10, (width - 1) as nat);
            assert(n / 10 < power) by (nonlinear_arith)
                requires
                    n < 10 * power,
            ;
            lemma_decimal_length(n / 10, (width - 1) as nat);
        }
    }
}

proof fn lemma_field(n: u64)
    ensures
        is_word(decimal_text(n as nat)),
        decimal_text(n as nat).len() <= 20,
        is_ascii_chars(decimal_text(n as nat)),
{
    lemma_decimal_word(n as nat);
    assert(vstd::arithmetic::power::pow(10, 20) == 100_000_000_000_000_000_000) by {
        reveal_with_fuel(vstd::arithmetic::power::pow, 21);
    }
    lemma_decimal_length(n as nat, 20);
    lemma_decimal(n as nat);
    assert forall|i: int| 0 <= i < decimal_text(n as nat).len() implies #[trigger] decimal_text(
        n as nat,
    )[i] as nat <= 127 by {
        assert(is_decimal_digit(decimal_text(n as nat)[i]));
    }
}

/// The fields of a manifest.
pub open spec fn manifest_fields(m: Manifest) -> Seq<Seq<char>> {
    let fields = Seq::<Seq<char>>::empty().push(
        if m.archive {
            "EWJ2"@
        } else {
            "EWJ1"@
        },
    ).push(decimal_text(m.segment_bytes as nat)).push(
        decimal_text(m.retained_segments as nat),
    ).push(decimal_text(m.first as nat)).push(decimal_text(m.end as nat)).push(
        if m.closed {
            "1"@
        } else {
            "0"@
        },
    );
    if m.archive {
        fields.push(decimal_text(m.archived_bytes as nat))
    } else {
        fields
    }
}

/// The words of a manifest's file are its fields, and they are short.
proof fn lemma_manifest_words(m: Manifest)
    ensures
        words_of(manifest_text(m)) == manifest_fields(m),
        manifest_text(m).len() <= 256,
        is_ascii_chars(manifest_text(m)),
{
    reveal_strlit("EWJ1");
    reveal_strlit("EWJ2");
    reveal_strlit(" ");
    reveal_strlit("\n");
    reveal_strlit("0");
    reveal_strlit("1");
    lemma_field(m.segment_bytes);
    lemma_field(m.retained_segments);
    lemma_field(m.first);
    lemma_field(m.end);
    lemma_field(m.archived_bytes);
    let space = " "@;
    let w0 = if m.archive {
        "EWJ2"@
    } else {
        "EWJ1"@
    };
    let w1 = decimal_text(m.segment_bytes as nat);
    let w2 = decimal_text(m.retained_segments as nat);
    let w3 = decimal_text(m.first as nat);
    let w4 = decimal_text(m.end as nat);
    let w5 = if m.closed {
        "1"@
    } else {
        "0"@
    };
    let w6 = decimal_text(m.archived_bytes as nat);
    let none = Seq::<char>::empty();
    assert(words_state(none) == (Seq::<Seq<char>>::empty(), none));
    assert(none + w0 + space =~= w0 + space);
    lemma_words_next(none, w0, space);
    let t0 = w0 + space;
    lemma_words_next(t0, w1, space);
    let t1 = t0 + w1 + space;
    lemma_words_next(t1, w2, space);
    let t2 = t1 + w2 + space;
    lemma_words_next(t2, w3, space);
    let t3 = t2 + w3 + space;
    lemma_words_next(t3, w4, space);
    let t4 = t3 + w4 + space;
    assert(is_ascii_chars(t4));
    if m.archive {
        lemma_words_next(t4, w5, space);
        let t5 = t4 + w5 + space;
        lemma_words_next(t5, w6, "\n"@);
        assert(manifest_text(m) == t5 + w6 + "\n"@);
        assert(is_ascii_chars(manifest_text(m)));
    } else {
        lemma_words_next(t4, w5, "\n"@);
        assert(manifest_text(m) == t4 + w5 + "\n"@);
        assert(is_ascii_chars(manifest_text(m)));
    }
}

/// Reading the file of a published manifest gives the manifest back.
pub proof fn manifest_round_trip(m: Manifest)
    requires
        sound(m),
    ensures
        manifest_of(encode_utf8(manifest_text(m))) == Ok::<Manifest, IoErrorView>(m),
        encode_utf8(manifest_text(m)).len() <= 256,
{
    let text = manifest_text(m);
    lemma_manifest_words(m);
    encode_utf8_valid_utf8(text);
    encode_utf8_decode_utf8(text);
    is_ascii_chars_encode_utf8(text);
    decimal_round_trip(m.segment_bytes as nat, u64::MAX as nat);
    decimal_round_trip(m.retained_segments as nat, u64::MAX as nat);
    decimal_round_trip(m.first as nat, u64::MAX as nat);
    decimal_round_trip(m.end as nat, u64::MAX as nat);
    decimal_round_trip(m.archived_bytes as nat, u64::MAX as nat);
    reveal_strlit("0");
    reveal_strlit("1");
    assert("0"@[0] != "1"@[0]);
}

/// No two files of a journal share a name.
pub proof fn file_names_differ(a: JournalFile, b: JournalFile)
    requires
        file_name_text(a) == file_name_text(b),
    ensures
        a == b,
{
    reveal_strlit("manifest");
    reveal_strlit("manifest.pending");
    reveal_strlit("finalize.request");
    reveal_strlit(".output");
    reveal_strlit(".output.gz");
    reveal_strlit(".output.gz.pending");
    let x = file_index(a);
    let y = file_index(b);
    lemma_hex_shape(x as nat, 16);
    lemma_hex_shape(y as nat, 16);
    assert(file_name_text(a).len() == name_length(a));
    assert(file_name_text(b).len() == name_length(b));
    assert("manifest.pending"@[0] == 'm');
    assert("finalize.request"@[0] == 'f');
    assert(file_name_text(a)[0] == file_name_text(b)[0]);
    if a is Segment || a is Archive || a is ArchivePending {
        assert(file_name_text(a).take(16) =~= hex_text(x as nat, 16));
        assert(file_name_text(b).take(16) =~= hex_text(y as nat, 16));
        lemma_hex16_injective(x, y);
    }
}

spec fn name_length(file: JournalFile) -> nat {
    match file {
        JournalFile::Manifest => 8,
        JournalFile::ManifestPending => 16,
        JournalFile::FinalizeRequest => 16,
        JournalFile::Segment(_) => 23,
        JournalFile::Archive(_) => 26,
        JournalFile::ArchivePending(_) => 34,
    }
}

spec fn file_index(file: JournalFile) -> u64 {
    match file {
        JournalFile::Segment(index) => index,
        JournalFile::Archive(index) => index,
        JournalFile::ArchivePending(index) => index,
        _ => 0,
    }
}

} // verus!
