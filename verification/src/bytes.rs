//! Byte sequences: copying and comparing, and the passage from bytes to text.

use crate::text::split_by;
use vstd::prelude::*;
use vstd::string::*;
use vstd::utf8::{decode_utf8, encode_utf8, valid_utf8};

verus! {

/// The model of a vector of bytes is its sequence of bytes.
pub broadcast proof fn bytes_deep_view(bytes: Vec<u8>)
    ensures
        #[trigger] bytes.deep_view() == bytes@,
{
    assert(bytes.deep_view() =~= bytes@);
}

/// A copy of the bytes from `start` up to `end`.
pub fn slice(bytes: &[u8], start: usize, end: usize) -> (out: Vec<u8>)
    requires
        start <= end <= bytes@.len(),
    ensures
        out@ == bytes@.subrange(start as int, end as int),
{
    let mut out: Vec<u8> = Vec::new();
    append(&mut out, bytes, start, end);
    assert(out@ =~= bytes@.subrange(start as int, end as int));
    out
}

/// Appends the bytes from `start` up to `end` of `bytes`.
pub fn append(out: &mut Vec<u8>, bytes: &[u8], start: usize, end: usize)
    requires
        start <= end <= bytes@.len(),
    ensures
        final(out)@ == old(out)@ + bytes@.subrange(start as int, end as int),
{
    let ghost before = out@;
    let mut i: usize = start;
    assert(before + bytes@.subrange(start as int, start as int) =~= before);
    while i < end
        invariant
            start <= i <= end <= bytes@.len(),
            out@ == before + bytes@.subrange(start as int, i as int),
        decreases end - i,
    {
        out.push(bytes[i]);
        i += 1;
        assert(out@ =~= before + bytes@.subrange(start as int, i as int));
    }
}

/// A copy of some bytes.
pub fn copy(bytes: &[u8]) -> (out: Vec<u8>)
    ensures
        out@ == bytes@,
{
    let out = slice(bytes, 0, bytes.len());
    assert(bytes@.subrange(0, bytes@.len() as int) =~= bytes@);
    out
}

/// Whether two byte sequences are the same.
pub fn same(a: &[u8], b: &[u8]) -> (r: bool)
    ensures
        r == (a@ == b@),
{
    if a.len() != b.len() {
        return false;
    }
    let mut i: usize = 0;
    while i < a.len()
        invariant
            a@.len() == b@.len(),
            i <= a@.len(),
            forall|k: int| 0 <= k < i ==> a@[k] == b@[k],
        decreases a@.len() - i,
    {
        if a[i] != b[i] {
            assert(a@[i as int] != b@[i as int]);
            return false;
        }
        i += 1;
    }
    assert(a@ =~= b@);
    true
}

/// The pieces between the occurrences of a byte.
pub fn split(bytes: &[u8], separator: u8) -> (out: Vec<Vec<u8>>)
    ensures
        out.deep_view() == split_by(bytes@, separator),
        out@.len() > 0,
{
    let mut out: Vec<Vec<u8>> = Vec::new();
    let mut current: Vec<u8> = Vec::new();
    let mut i: usize = 0;
    assert(out.deep_view().push(current@) =~= split_by(bytes@.take(0), separator));
    while i < bytes.len()
        invariant
            i <= bytes@.len(),
            out.deep_view().push(current@) == split_by(bytes@.take(i as int), separator),
        decreases bytes@.len() - i,
    {
        let ghost before = out.deep_view().push(current@);
        let ghost held = out.deep_view();
        assert(bytes@.take(i + 1).drop_last() =~= bytes@.take(i as int));
        assert(bytes@.take(i + 1).last() == bytes@[i as int]);
        assert(before.drop_last() =~= held);
        proof {
            bytes_deep_view(current);
        }
        if bytes[i] == separator {
            out.push(current);
            assert(out.deep_view() =~= before);
            current = Vec::new();
        } else {
            current.push(bytes[i]);
        }
        i += 1;
    }
    assert(bytes@.take(bytes@.len() as int) =~= bytes@);
    let ghost whole = out.deep_view().push(current@);
    proof {
        bytes_deep_view(current);
    }
    out.push(current);
    assert(out.deep_view() =~= whole);
    out
}

/// The UTF-8 encoding of a text.
pub fn of_text(text: &str) -> (out: Vec<u8>)
    ensures
        out@ == encode_utf8(text@),
{
    copy(text.as_bytes())
}

/// What the error of `std::str::from_utf8` says of bytes that are not valid UTF-8.
pub uninterp spec fn utf8_complaint(bytes: Seq<u8>) -> Seq<char>;

/// `std::str::from_utf8`: the text that bytes encode, and its error's message unless
/// they are valid UTF-8.
#[verifier::external_body]
pub(crate) fn to_text(bytes: &[u8]) -> (r: Result<String, String>)
    ensures
        r is Ok <==> valid_utf8(bytes@),
        r matches Ok(text) ==> text@ == decode_utf8(bytes@),
        r matches Err(message) ==> message@ == utf8_complaint(bytes@),
{
    std::str::from_utf8(bytes).map(|text| text.to_owned()).map_err(|error| error.to_string())
}

/// The text that `String::from_utf8_lossy` makes of bytes.
pub uninterp spec fn lossy_text(bytes: Seq<u8>) -> Seq<char>;

/// `String::from_utf8_lossy`: the text that bytes encode, with the replacement
/// character where they are not valid UTF-8. Where they are valid, it is their text.
#[verifier::external_body]
fn to_text_lossy(bytes: &[u8]) -> (text: String)
    ensures
        text@ == lossy_text(bytes@),
        valid_utf8(bytes@) ==> text@ == decode_utf8(bytes@),
{
    String::from_utf8_lossy(bytes).into_owned()
}

/// The text of bytes: the one that they encode, and where they are not valid UTF-8 the
/// one that `String::from_utf8_lossy` makes of them.
pub open spec fn readable_text(bytes: Seq<u8>) -> Seq<char> {
    if valid_utf8(bytes) {
        decode_utf8(bytes)
    } else {
        lossy_text(bytes)
    }
}

/// The text of bytes, whatever they are.
pub fn readable(bytes: &[u8]) -> (text: String)
    ensures
        text@ == readable_text(bytes@),
{
    to_text_lossy(bytes)
}

} // verus!
