//! How a journal's files are named and written, and how its end is asked for.

use crate::host::{
    ask_done, CallView, FileActionView, IoHalt, IoKind, JournalFile, ReplyView, Transcript,
};
use crate::journal::finalization::{request_run, requested_run};
use crate::journal::{file_name_text, manifest_text, performed, sound, Manifest};
use crate::number::{decimal_text, digit_value, hex_text, value_of};
use vstd::prelude::*;
use vstd::string::*;

verus! {

proof fn lemma_hex_value(n: nat, width: nat)
    requires
        n < vstd::arithmetic::power::pow(16, width),
    ensures
        hex_text(n, width).len() == width,
        value_of(hex_text(n, width), 16) == n,
        crate::number::all_hex(hex_text(n, width)),
    decreases width,
{
    reveal(vstd::arithmetic::power::pow);
    let text = hex_text(n, width);
    if width > 0 {
        let before = hex_text(n / 16, (width - 1) as nat);
        lemma_hex_value(n / 16, (width - 1) as nat);
        assert(text.drop_last() =~= before);
        assert(digit_value(text.last()) == n % 16);
        assert forall|i: int| 0 <= i < text.len() implies crate::number::is_hex_digit(
            #[trigger] text[i],
        ) by {
            if i < before.len() {
                assert(text[i] == before[i]);
            }
        }
    }
}

/// The part of a journal's file name before its ending: sixteen digits, which denote the
/// number of the segment.
pub open spec fn numbers(digits: Seq<char>, index: u64) -> bool {
    &&& digits.len() == 16
    &&& crate::number::all_hex(digits)
    &&& value_of(digits, 16) == index
}

/// The files of a journal have these names.
pub proof fn files_are_named_so(file: JournalFile)
    ensures
        match file {
            JournalFile::Manifest => file_name_text(file) == "manifest"@,
            JournalFile::ManifestPending => file_name_text(file) == "manifest.pending"@,
            JournalFile::FinalizeRequest => file_name_text(file) == "finalize.request"@,
            JournalFile::Segment(index) => exists|digits: Seq<char>| #[trigger]
                numbers(digits, index) && file_name_text(file) == digits + ".output"@,
            JournalFile::Archive(index) => exists|digits: Seq<char>| #[trigger]
                numbers(digits, index) && file_name_text(file) == digits + ".output.gz"@,
            JournalFile::ArchivePending(index) => exists|digits: Seq<char>| #[trigger]
                numbers(digits, index) && file_name_text(file) == digits
                    + ".output.gz.pending"@,
        },
{
    let index: u64 = match file {
        JournalFile::Segment(index) => index,
        JournalFile::Archive(index) => index,
        JournalFile::ArchivePending(index) => index,
        _ => 0,
    };
    lemma_sixteen_digits(index);
}

pub(crate) proof fn lemma_sixteen_digits(n: u64)
    ensures
        numbers(hex_text(n as nat, 16), n),
{
    assert(vstd::arithmetic::power::pow(16, 16) == 0x1_0000_0000_0000_0000) by {
        reveal_with_fuel(vstd::arithmetic::power::pow, 17);
    }
    lemma_hex_value(n as nat, 16);
}

/// A manifest is one line: its version by the archive, then the size and the number of its
/// segments, where it begins and where it ends, whether it is closed, and, with an archive,
/// how many bytes that holds.
pub proof fn manifests_are_written_so(m: Manifest)
    ensures
        ({
            let numbers = " "@ + decimal_text(m.segment_bytes as nat) + " "@ + decimal_text(
                m.retained_segments as nat,
            ) + " "@ + decimal_text(m.first as nat) + " "@ + decimal_text(m.end as nat);
            let closed = if m.closed {
                " 1"@
            } else {
                " 0"@
            };
            &&& m.archive ==> manifest_text(m) == "EWJ2"@ + numbers + closed + " "@
                + decimal_text(m.archived_bytes as nat) + "\n"@
            &&& !m.archive ==> manifest_text(m) == "EWJ1"@ + numbers + closed + "\n"@
        }),
{
    reveal_strlit(" ");
    reveal_strlit("1");
    reveal_strlit("0");
    reveal_strlit(" 1");
    reveal_strlit(" 0");
    assert(" "@ + "1"@ =~= " 1"@);
    assert(" "@ + "0"@ =~= " 0"@);
    let numbers = " "@ + decimal_text(m.segment_bytes as nat) + " "@ + decimal_text(
        m.retained_segments as nat,
    ) + " "@ + decimal_text(m.first as nat) + " "@ + decimal_text(m.end as nat);
    let closed = if m.closed {
        " 1"@
    } else {
        " 0"@
    };
    if m.archive {
        assert(manifest_text(m) =~= "EWJ2"@ + numbers + closed + " "@ + decimal_text(
            m.archived_bytes as nat,
        ) + "\n"@);
    } else {
        assert(manifest_text(m) =~= "EWJ1"@ + numbers + closed + "\n"@);
    }
}

/// A manifest is sound exactly where its segments are of at most a mebibyte and at most
/// sixty-four, it begins at one of them and does not end before, no more is kept than they
/// hold, and nothing is archived without an archive.
pub proof fn sound_manifests(m: Manifest)
    ensures
        sound(m) <==> {
            &&& 1 <= m.segment_bytes <= 1024 * 1024
            &&& 1 <= m.retained_segments <= 64
            &&& m.first <= m.end
            &&& m.first % m.segment_bytes == 0
            &&& m.end - m.first <= m.segment_bytes * m.retained_segments
            &&& m.archive || m.archived_bytes == 0
        },
{
}

/// The end of a recording is asked for by making the request's file and making it last; a
/// request that is there already is as good where it is a private file.
pub proof fn the_end_is_asked_for(t: Transcript, directory: Seq<char>)
    requires
        t.replies.len() >= t.calls.len() + 3,
    ensures
        ({
            let k = t.calls.len() as int;
            let (next, r) = request_run(t, directory);
            let request = JournalFile::FinalizeRequest;
            &&& next.calls[k] == CallView::Journal(directory, FileActionView::Create(request))
            &&& t.replies[k] is Done && t.replies[k + 1] is Done && t.replies[k + 2] is Done ==> {
                &&& r is Ok
                &&& next.calls.len() == k + 3
                &&& next.calls[k + 1] == CallView::Journal(
                    directory,
                    FileActionView::SyncAll(request),
                )
                &&& next.calls[k + 2] == CallView::Journal(
                    directory,
                    FileActionView::SyncDirectory,
                )
            }
            &&& t.replies[k] is Failed && t.replies[k]->Failed_0.kind == IoKind::AlreadyExists
                && t.replies[k + 1] is Entry ==> {
                &&& next.calls[k + 1] == CallView::Journal(
                    directory,
                    FileActionView::Describe(request),
                )
                &&& r is Ok <==> t.replies[k + 1]->Entry_0.file && t.replies[k
                    + 1]->Entry_0.private
            }
        }),
{
    let request = JournalFile::FinalizeRequest;
    let actions = seq![FileActionView::SyncAll(request), FileActionView::SyncDirectory];
    let (t1, made) = ask_done(
        t,
        CallView::Journal(directory, FileActionView::Create(request)),
    );
    reveal_with_fuel(performed, 3);
    assert(actions.drop_first().len() == 1);
    assert(actions.drop_first().drop_first().len() == 0);
    assert(actions.drop_first()[0] == FileActionView::SyncDirectory);
}

/// A recorder learns that its end is asked for exactly where the request's file is there,
/// and takes no other thing for it.
pub proof fn the_request_is_seen(t: Transcript, directory: Seq<char>)
    requires
        t.replies.len() > t.calls.len(),
    ensures
        ({
            let reply = t.replies[t.calls.len() as int];
            let r = requested_run(t, directory).1;
            &&& reply matches ReplyView::Entry(entry) ==> if entry.file && entry.private {
                r == Ok::<bool, IoHalt>(true)
            } else {
                r is Err
            }
            &&& reply matches ReplyView::Failed(error) ==> if error.kind == IoKind::NotFound {
                r == Ok::<bool, IoHalt>(false)
            } else {
                r is Err
            }
        }),
{
}

} // verus!
