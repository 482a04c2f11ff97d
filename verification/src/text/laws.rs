//! What trimming, splitting and joining keep of a text.

use crate::text::{
    joined_by, lemma_split_nonempty, split_by, trimmed, white, without_leading_white,
    without_trailing_white,
};
use vstd::prelude::*;

verus! {

proof fn lemma_leading(text: Seq<char>) -> (start: int)
    ensures
        0 <= start <= text.len(),
        without_leading_white(text) == text.skip(start),
        forall|i: int| 0 <= i < start ==> white(#[trigger] text[i]),
        start < text.len() ==> !white(text[start]),
    decreases text.len(),
{
    if text.len() > 0 && white(text[0]) {
        let rest = text.drop_first();
        let start = lemma_leading(rest);
        assert(rest.skip(start) =~= text.skip(start + 1));
        assert forall|i: int| 0 <= i < start + 1 implies white(#[trigger] text[i]) by {
            if i > 0 {
                assert(rest[i - 1] == text[i]);
            }
        }
        start + 1
    } else {
        assert(text.skip(0) =~= text);
        0
    }
}

proof fn lemma_trailing(text: Seq<char>) -> (end: int)
    ensures
        0 <= end <= text.len(),
        without_trailing_white(text) == text.take(end),
        forall|i: int| end <= i < text.len() ==> white(#[trigger] text[i]),
        end > 0 ==> !white(text[end - 1]),
    decreases text.len(),
{
    if text.len() > 0 && white(text.last()) {
        let rest = text.drop_last();
        let end = lemma_trailing(rest);
        assert(rest.take(end) =~= text.take(end));
        assert forall|i: int| end <= i < text.len() implies white(#[trigger] text[i]) by {
            if i < rest.len() {
                assert(rest[i] == text[i]);
            }
        }
        end
    } else {
        assert(text.take(text.len() as int) =~= text);
        text.len() as int
    }
}

/// Trimming takes white space away at both ends and nothing else: what is left neither
/// begins nor ends with any.
pub proof fn trimming_takes_white_space_only(text: Seq<char>)
    ensures
        exists|start: int, end: int|
            {
                &&& 0 <= start <= end <= text.len()
                &&& trimmed(text) == #[trigger] text.subrange(start, end)
                &&& forall|i: int| 0 <= i < start ==> white(#[trigger] text[i])
                &&& forall|i: int| end <= i < text.len() ==> white(#[trigger] text[i])
            },
        trimmed(text).len() > 0 ==> !white(trimmed(text)[0]) && !white(trimmed(text).last()),
{
    let start = lemma_leading(text);
    let rest = text.skip(start);
    let length = lemma_trailing(rest);
    let end = start + length;
    assert(rest.take(length) =~= text.subrange(start, end));
    assert forall|i: int| end <= i < text.len() implies white(#[trigger] text[i]) by {
        assert(rest[i - start] == text[i]);
    }
}

/// Splitting loses nothing: the pieces with the separator between them are the text again,
/// and no piece holds the separator.
pub proof fn pieces_make_the_text(text: Seq<char>, separator: char)
    ensures
        joined_by(split_by(text, separator), Seq::empty().push(separator)) == text,
        forall|i: int|
            0 <= i < split_by(text, separator).len() ==> !(#[trigger] split_by(
                text,
                separator,
            )[i]).contains(separator),
    decreases text.len(),
{
    let between = Seq::<char>::empty().push(separator);
    let pieces = split_by(text, separator);
    if text.len() == 0 {
        assert(pieces =~= seq![Seq::<char>::empty()]);
        assert(joined_by(pieces, between) =~= text);
    } else {
        let front = text.drop_last();
        let before = split_by(front, separator);
        lemma_split_nonempty(front, separator);
        pieces_make_the_text(front, separator);
        if text.last() == separator {
            assert(pieces.drop_last() =~= before);
            assert(joined_by(pieces, between) =~= front + between + Seq::<char>::empty());
            assert(text =~= front + between + Seq::<char>::empty());
            assert forall|i: int| 0 <= i < pieces.len() implies !(
            #[trigger] pieces[i]).contains(separator) by {
                if i < before.len() {
                    assert(pieces[i] == before[i]);
                }
            }
        } else {
            let last = before.last().push(text.last());
            assert(pieces.drop_last() =~= before.drop_last());
            assert(pieces.last() == last);
            if before.len() == 1 {
                assert(joined_by(pieces, between) =~= last);
                assert(text =~= last);
            } else {
                let head = joined_by(before.drop_last(), between);
                assert(joined_by(pieces, between) =~= head + between + last);
                assert(front =~= head + between + before.last());
                assert(text =~= front.push(text.last()));
                assert(head + between + last =~= (head + between + before.last()).push(
                    text.last(),
                ));
            }
            assert forall|i: int| 0 <= i < pieces.len() implies !(
            #[trigger] pieces[i]).contains(separator) by {
                if i < before.len() - 1 {
                    assert(pieces[i] == before[i]);
                } else {
                    assert(!before[before.len() - 1].contains(separator));
                    assert forall|j: int| 0 <= j < last.len() implies last[j] != separator by {
                        if j < before.last().len() {
                            assert(before.last().contains(before.last()[j]));
                        }
                    }
                }
            }
        }
    }
}

} // verus!
