//! What a journal is for: the bytes that were recorded are the bytes that are
//! read, whatever the recorder was doing when it stopped.

use crate::compression::{gunzipped, gzipped, restores};
use crate::host::{
    ask, ask_bytes, ask_done, ask_number, continues, lemma_ask_continues, lemma_continues, CallView,
    FileActionView, IoHalt, IoKind, JournalFile, ReplyView, Transcript,
};
use crate::journal::recorder::{
    advanced, append_run, archive_all_run, archive_run, chunk_length, chunk_publish_run, create_run,
    empty_manifest, lemma_kept, chunk_run, chunk_write_run, chunks_run, is_archive_write,
    lemma_advanced, publish_actions, recording, remove_actions, restorable, write_actions,
    RecorderView,
};
use crate::journal::{lemma_performed_continues, manifest_text, performed, sound, Manifest};
use vstd::prelude::*;
use vstd::utf8::encode_utf8;

verus! {

// ---------------------------------------------------------------------------
// A directory and what calls do to it
// ---------------------------------------------------------------------------

/// The files of a journal directory and their contents.
pub type Directory = Map<JournalFile, Seq<u8>>;

/// What an action makes of a directory.
pub open spec fn effect(d: Directory, action: FileActionView) -> Directory {
    match action {
        FileActionView::Create(file) => d.insert(file, Seq::empty()),
        FileActionView::Write(file, bytes) => if d.contains_key(file) {
            d.insert(file, d[file] + bytes)
        } else {
            d
        },
        FileActionView::Rename(from, to) => if d.contains_key(from) {
            d.remove(from).insert(to, d[from])
        } else {
            d
        },
        FileActionView::Remove(file) => d.remove(file),
        _ => d,
    }
}

/// A reply that a file system with these files can give to an action. The length
/// of a file that can be read is a number of 64 bits.
pub open spec fn truthful(d: Directory, action: FileActionView, reply: ReplyView) -> bool {
    match (action, reply) {
        (FileActionView::Create(file), ReplyView::Done) => !d.contains_key(file),
        (FileActionView::Write(file, _), ReplyView::Done) => d.contains_key(file),
        (FileActionView::Rename(from, _), ReplyView::Done) => d.contains_key(from),
        (FileActionView::Remove(file), ReplyView::Done) => d.contains_key(file),
        (FileActionView::MakeDirectory, ReplyView::Done) => true,
        (FileActionView::SyncData(_), ReplyView::Done) => true,
        (FileActionView::SyncAll(_), ReplyView::Done) => true,
        (FileActionView::SyncDirectory, ReplyView::Done) => true,
        (FileActionView::Length(file), ReplyView::Number(n)) => d.contains_key(file) && n
            == d[file].len(),
        (FileActionView::ReadStart(file, limit), ReplyView::Bytes(bytes)) => d.contains_key(file)
            && d[file].len() <= u64::MAX && bytes == (if limit < d[file].len() {
            d[file].take(limit as int)
        } else {
            d[file]
        }),
        (FileActionView::ReadAt(file, offset, count), ReplyView::Bytes(bytes)) => d.contains_key(
            file,
        ) && offset + count <= d[file].len() && bytes == d[file].subrange(
            offset as int,
            offset + count,
        ),
        (FileActionView::Length(file), ReplyView::Failed(error)) => error.kind
            == IoKind::NotFound ==> !d.contains_key(file),
        (FileActionView::ReadStart(file, _), ReplyView::Failed(error)) => error.kind
            == IoKind::NotFound ==> !d.contains_key(file),
        (FileActionView::ReadAt(file, _, _), ReplyView::Failed(error)) => error.kind
            == IoKind::NotFound ==> !d.contains_key(file),
        (_, ReplyView::Failed(_)) => true,
        _ => false,
    }
}

/// The action of a call on this journal; other calls have no effect on it.
pub open spec fn action_of(path: Seq<char>, call: CallView) -> FileActionView {
    match call {
        CallView::Journal(directory, action) => if directory == path {
            action
        } else {
            FileActionView::SyncDirectory
        },
        _ => FileActionView::SyncDirectory,
    }
}

/// What calls that succeed make of a directory.
pub open spec fn after(d: Directory, path: Seq<char>, calls: Seq<CallView>) -> Directory
    decreases calls.len(),
{
    if calls.len() == 0 {
        d
    } else {
        effect(after(d, path, calls.drop_last()), action_of(path, calls.last()))
    }
}

/// The directory before the call at this place.
pub open spec fn directory_at(d: Directory, path: Seq<char>, t: Transcript, i: int) -> Directory {
    after(d, path, t.calls.take(i))
}

/// Every call was answered by a file system that started with these files.
pub open spec fn witnessed(d: Directory, path: Seq<char>, t: Transcript) -> bool {
    &&& t.calls.len() <= t.replies.len()
    &&& forall|i: int|
        0 <= i < t.calls.len() ==> truthful(
            #[trigger] directory_at(d, path, t, i),
            action_of(path, t.calls[i]),
            t.replies[i],
        )
}

/// `good` holds of a directory, and it still holds where the action that comes
/// next is a write of which only a part reaches the file.
pub open spec fn endures(
    d: Directory,
    action: FileActionView,
    good: spec_fn(Directory) -> bool,
) -> bool {
    &&& good(d)
    &&& action matches FileActionView::Write(file, bytes) ==> forall|n: int|
        0 <= n <= bytes.len() ==> good(
            #[trigger] effect(d, FileActionView::Write(file, bytes.take(n))),
        )
}

/// `good` holds from `t` to `next`, wherever the recorder stops in between.
pub open spec fn endured(
    d: Directory,
    path: Seq<char>,
    t: Transcript,
    next: Transcript,
    good: spec_fn(Directory) -> bool,
) -> bool {
    forall|i: int|
        t.calls.len() <= i < next.calls.len() ==> endures(
            #[trigger] directory_at(d, path, next, i),
            action_of(path, next.calls[i]),
            good,
        )
}

proof fn lemma_directory_at(d: Directory, path: Seq<char>, t: Transcript, next: Transcript, i: int)
    requires
        continues(t, next),
        0 <= i <= t.calls.len(),
    ensures
        directory_at(d, path, next, i) == directory_at(d, path, t, i),
        i < t.calls.len() ==> next.calls[i] == t.calls[i],
{
    assert(next.calls.take(i) =~= next.calls.take(t.calls.len() as int).take(i));
    if i < t.calls.len() {
        assert(next.calls.take(t.calls.len() as int)[i] == next.calls[i]);
    }
}

pub(crate) proof fn lemma_witnessed(d: Directory, path: Seq<char>, t: Transcript, next: Transcript)
    requires
        continues(t, next),
        witnessed(d, path, next),
    ensures
        witnessed(d, path, t),
{
    assert forall|i: int| 0 <= i < t.calls.len() implies truthful(
        #[trigger] directory_at(d, path, t, i),
        action_of(path, t.calls[i]),
        t.replies[i],
    ) by {
        lemma_directory_at(d, path, t, next, i);
    }
}

proof fn lemma_endured(
    d: Directory,
    path: Seq<char>,
    t: Transcript,
    next: Transcript,
    last: Transcript,
    good: spec_fn(Directory) -> bool,
)
    requires
        continues(t, next),
        continues(next, last),
        endured(d, path, t, next, good),
        endured(d, path, next, last, good),
    ensures
        endured(d, path, t, last, good),
{
    assert forall|i: int| t.calls.len() <= i < last.calls.len() implies endures(
        #[trigger] directory_at(d, path, last, i),
        action_of(path, last.calls[i]),
        good,
    ) by {
        if i < next.calls.len() {
            lemma_directory_at(d, path, next, last, i);
        }
    }
}

/// One call: what it makes of the directory, and that its reply was truthful.
proof fn lemma_ask(d: Directory, path: Seq<char>, t: Transcript, action: FileActionView)
    ensures
        ({
            let next = ask(t, CallView::Journal(path, action)).0;
            let before = after(d, path, t.calls);
            &&& continues(t, next)
            &&& next.calls.len() == t.calls.len() + 1
            &&& after(d, path, next.calls) == effect(before, action)
            &&& directory_at(d, path, next, t.calls.len() as int) == before
            &&& next.calls[t.calls.len() as int] == CallView::Journal(path, action)
            &&& witnessed(d, path, next) ==> truthful(
                before,
                action,
                t.replies[t.calls.len() as int],
            )
        }),
{
    let next = ask(t, CallView::Journal(path, action)).0;
    assert(next.calls.drop_last() =~= t.calls);
    assert(next.calls.take(t.calls.len() as int) =~= t.calls);
    if witnessed(d, path, next) {
        assert(truthful(
            directory_at(d, path, next, t.calls.len() as int),
            action_of(path, next.calls[t.calls.len() as int]),
            next.replies[t.calls.len() as int],
        ));
    }
}

/// Actions that all succeed lead from the directory before to the one after
/// through directories of which `inv` holds.
proof fn lemma_performed(
    d: Directory,
    path: Seq<char>,
    t: Transcript,
    actions: Seq<FileActionView>,
    k: int,
    inv: spec_fn(int, Directory) -> bool,
    good: spec_fn(Directory) -> bool,
)
    requires
        0 <= k <= actions.len(),
        performed(t, path, actions.skip(k)).1 is Ok,
        witnessed(d, path, performed(t, path, actions.skip(k)).0),
        inv(k, after(d, path, t.calls)),
        forall|j: int, x: Directory|
            0 <= j < actions.len() && #[trigger] inv(j, x) && truthful(
                x,
                actions[j],
                ReplyView::Done,
            ) ==> inv(j + 1, effect(x, actions[j])) && endures(x, actions[j], good),
    ensures
        ({
            let next = performed(t, path, actions.skip(k)).0;
            &&& continues(t, next)
            &&& endured(d, path, t, next, good)
            &&& inv(actions.len() as int, after(d, path, next.calls))
        }),
    decreases actions.len() - k,
{
    let rest = actions.skip(k);
    if k < actions.len() {
        let (mid, r) = ask_done(t, CallView::Journal(path, rest[0]));
        let next = performed(t, path, rest).0;
        assert(rest.drop_first() =~= actions.skip(k + 1));
        assert(rest[0] == actions[k]);
        lemma_ask(d, path, t, rest[0]);
        lemma_performed_continues(mid, path, actions.skip(k + 1));
        lemma_witnessed(d, path, mid, next);
        assert(inv(k, after(d, path, t.calls)));
        lemma_performed(d, path, mid, actions, k + 1, inv, good);
        assert forall|i: int| t.calls.len() <= i < mid.calls.len() implies endures(
            #[trigger] directory_at(d, path, mid, i),
            action_of(path, mid.calls[i]),
            good,
        ) by {}
        lemma_continues(t, mid, next);
        lemma_endured(d, path, t, mid, next, good);
    } else {
        assert(rest =~= Seq::empty());
        assert(t.calls.take(t.calls.len() as int) =~= t.calls);
    }
}

// ---------------------------------------------------------------------------
// What a directory says of the recorded bytes
// ---------------------------------------------------------------------------

/// A segment's file holds the recorded bytes from the segment's beginning on.
pub open spec fn segment_faithful(d: Directory, size: u64, history: Seq<u8>, i: u64) -> bool {
    let contents = d[JournalFile::Segment(i)];
    &&& contents.len() <= size
    &&& i * size + contents.len() <= history.len()
    &&& contents == history.subrange(i * size, i * size + contents.len())
}

/// An archive decodes to all recorded bytes of its segment.
pub open spec fn archive_faithful(d: Directory, size: u64, history: Seq<u8>, i: u64) -> bool {
    &&& i * size + size <= history.len()
    &&& gunzipped(d[JournalFile::Archive(i)], (size + 1) as u64) matches Ok(bytes) && bytes
        == history.subrange(i * size, i * size + size)
}

/// Whatever the files hold was recorded.
pub open spec fn faithful(d: Directory, size: u64, history: Seq<u8>) -> bool {
    &&& forall|i: u64| #[trigger]
        d.contains_key(JournalFile::Segment(i)) ==> segment_faithful(d, size, history, i)
    &&& forall|i: u64| #[trigger]
        d.contains_key(JournalFile::Archive(i)) ==> archive_faithful(d, size, history, i)
}

/// The segment holds published bytes that a reader may ask for.
pub open spec fn needed(m: Manifest, i: u64) -> bool {
    &&& i * m.segment_bytes < m.end
    &&& m.archive || m.first <= i * m.segment_bytes
}

/// The published bytes of a segment are in its file or, without a file, in its archive.
pub open spec fn available(d: Directory, m: Manifest, i: u64) -> bool {
    if d.contains_key(JournalFile::Segment(i)) {
        ||| d[JournalFile::Segment(i)].len() >= m.segment_bytes
        ||| i * m.segment_bytes + d[JournalFile::Segment(i)].len() >= m.end
    } else {
        m.archive && d.contains_key(JournalFile::Archive(i))
    }
}

/// A directory publishes this manifest, of a journal into which `history` was
/// written: the published bytes are the first `m.end` bytes of it.
pub open spec fn presents(d: Directory, m: Manifest, history: Seq<u8>) -> bool {
    &&& sound(m)
    &&& m.end <= history.len()
    &&& d.contains_key(JournalFile::Manifest)
    &&& d[JournalFile::Manifest] == encode_utf8(manifest_text(m))
    &&& faithful(d, m.segment_bytes, history)
    &&& forall|i: u64| #[trigger] needed(m, i) ==> available(d, m, i)
}

/// The directory has an archive of exactly the segments that left, and the manifest
/// counts what they occupy. Without archives there is nothing to count.
#[verifier::opaque]
pub open spec fn counted(d: Directory, m: Manifest, history: Seq<u8>) -> bool {
    let size = m.segment_bytes;
    let left = if m.archive {
        m.first as int / size as int
    } else {
        0
    };
    &&& forall|i: u64| #[trigger] d.contains_key(JournalFile::Archive(i)) <==> i < left
    &&& forall|i: u64|
        i < left ==> #[trigger] d[JournalFile::Archive(i)] == archive_of(history, size, i)
    &&& m.archived_bytes == archives_size(history, size, 0, left)
}

/// The directory has files of exactly the segments that are in use.
#[verifier::opaque]
pub open spec fn tidy(d: Directory, m: Manifest) -> bool {
    forall|i: u64| #[trigger]
        d.contains_key(JournalFile::Segment(i)) <==> m.first as int / m.segment_bytes as int <= i
            && i * m.segment_bytes < m.end
}

/// The directory that a recorder leaves between two writes: all of `history` is
/// published, only the segments in use have files, the segment in use ends where the next write begins, and the archives
/// are counted.
pub open spec fn kept(d: Directory, r: RecorderView, history: Seq<u8>) -> bool {
    let m = r.manifest;
    &&& recording(r)
    &&& presents(d, m, history)
    &&& counted(d, m, history)
    &&& tidy(d, m)
    &&& m.end == history.len()
    &&& m.end % m.segment_bytes != 0 ==> {
        &&& d.contains_key(JournalFile::Segment(m.end / m.segment_bytes))
        &&& d[JournalFile::Segment(m.end / m.segment_bytes)].len() == m.end % m.segment_bytes
    }
}

/// The first of two segments ends before the second begins.
proof fn lemma_segments(i: int, j: int, size: int)
    requires
        i < j,
        size > 0,
    ensures
        i * size + size <= j * size,
        i * size < j * size,
{
    assert(i * size + size <= j * size) by (nonlinear_arith)
        requires
            i + 1 <= j,
            size > 0,
    ;
}

proof fn lemma_index(m: Manifest)
    requires
        sound(m),
    ensures
        (m.end / m.segment_bytes) * m.segment_bytes + m.end % m.segment_bytes == m.end,
        0 <= m.end % m.segment_bytes < m.segment_bytes,
{
    vstd::arithmetic::div_mod::lemma_fundamental_div_mod(m.end as int, m.segment_bytes as int);
    assert((m.end / m.segment_bytes) * m.segment_bytes == m.segment_bytes * (m.end
        / m.segment_bytes)) by (nonlinear_arith);
}

/// Bytes that are added to the history make no file unfaithful.
proof fn lemma_faithful_grows(d: Directory, size: u64, history: Seq<u8>, more: Seq<u8>)
    requires
        faithful(d, size, history),
    ensures
        faithful(d, size, history + more),
{
    let longer = history + more;
    assert forall|i: u64| #[trigger] d.contains_key(JournalFile::Segment(i)) implies segment_faithful(
        d,
        size,
        longer,
        i,
    ) by {
        let n = d[JournalFile::Segment(i)].len();
        assert(0 <= i * size) by (nonlinear_arith);
        assert(longer.subrange(i * size, i * size + n) =~= history.subrange(i * size, i * size + n));
    }
    assert forall|i: u64| #[trigger] d.contains_key(JournalFile::Archive(i)) implies archive_faithful(
        d,
        size,
        longer,
        i,
    ) by {
        assert(0 <= i * size) by (nonlinear_arith);
        assert(longer.subrange(i * size, i * size + size) =~= history.subrange(
            i * size,
            i * size + size,
        ));
    }
}

/// Two directories with the same manifest, segments and archives say the same.
proof fn lemma_presents_same(d: Directory, e: Directory, m: Manifest, history: Seq<u8>)
    requires
        presents(d, m, history),
        d.contains_key(JournalFile::Manifest) == e.contains_key(JournalFile::Manifest),
        d[JournalFile::Manifest] == e[JournalFile::Manifest],
        forall|i: u64|
            d.contains_key(JournalFile::Segment(i)) == #[trigger] e.contains_key(
                JournalFile::Segment(i),
            ) && d[JournalFile::Segment(i)] == e[JournalFile::Segment(i)],
        forall|i: u64|
            d.contains_key(JournalFile::Archive(i)) == #[trigger] e.contains_key(
                JournalFile::Archive(i),
            ) && d[JournalFile::Archive(i)] == e[JournalFile::Archive(i)],
    ensures
        presents(e, m, history),
{
    assert forall|i: u64| #[trigger] e.contains_key(JournalFile::Segment(i)) implies segment_faithful(
        e,
        m.segment_bytes,
        history,
        i,
    ) by {
        assert(d.contains_key(JournalFile::Segment(i)));
    }
    assert forall|i: u64| #[trigger] e.contains_key(JournalFile::Archive(i)) implies archive_faithful(
        e,
        m.segment_bytes,
        history,
        i,
    ) by {
        assert(d.contains_key(JournalFile::Archive(i)));
    }
    assert forall|i: u64| #[trigger] needed(m, i) implies available(e, m, i) by {
        assert(available(d, m, i));
        assert(e.contains_key(JournalFile::Segment(i)) == d.contains_key(JournalFile::Segment(i)));
        assert(e.contains_key(JournalFile::Archive(i)) == d.contains_key(JournalFile::Archive(i)));
    }
}

/// Files that wait for their rename do not count.
proof fn lemma_presents_pending(
    d: Directory,
    m: Manifest,
    history: Seq<u8>,
    file: JournalFile,
    contents: Seq<u8>,
)
    requires
        presents(d, m, history),
        file is ManifestPending || file is ArchivePending,
    ensures
        presents(d.insert(file, contents), m, history),
        presents(d.remove(file), m, history),
{
    lemma_presents_same(d, d.insert(file, contents), m, history);
    lemma_presents_same(d, d.remove(file), m, history);
}

/// The recorder is about to write the bytes from `m.end` on into the segment that
/// is open, which holds `held` bytes.
pub open spec fn writing(d: Directory, m: Manifest, history: Seq<u8>, held: int) -> bool {
    let segment = JournalFile::Segment(m.end / m.segment_bytes);
    &&& presents(d, m, history)
    &&& d.contains_key(segment)
    &&& d[segment].len() == held
}

proof fn lemma_create_segment(d: Directory, m: Manifest, history: Seq<u8>)
    requires
        presents(d, m, history),
        m.end % m.segment_bytes == 0,
    ensures
        writing(
            effect(d, FileActionView::Create(JournalFile::Segment(m.end / m.segment_bytes))),
            m,
            history,
            0,
        ),
{
    let index = m.end / m.segment_bytes;
    let e = effect(d, FileActionView::Create(JournalFile::Segment(index)));
    lemma_index(m);
    assert forall|i: u64| #[trigger] e.contains_key(JournalFile::Segment(i)) implies segment_faithful(
        e,
        m.segment_bytes,
        history,
        i,
    ) by {
        if i == index {
            assert(history.subrange(m.end as int, m.end as int) =~= Seq::empty());
        } else {
            assert(d.contains_key(JournalFile::Segment(i)));
        }
    }
    assert forall|i: u64| #[trigger] e.contains_key(JournalFile::Archive(i)) implies archive_faithful(
        e,
        m.segment_bytes,
        history,
        i,
    ) by {
        assert(d.contains_key(JournalFile::Archive(i)));
    }
    assert forall|i: u64| #[trigger] needed(m, i) implies available(e, m, i) by {
        assert(available(d, m, i));
    }
}

/// A write into the open segment, or the part of it that reaches the file.
proof fn lemma_write_segment(
    d: Directory,
    m: Manifest,
    history: Seq<u8>,
    chunk: Seq<u8>,
    part: Seq<u8>,
)
    requires
        writing(d, m, history + chunk, m.end as int % m.segment_bytes as int),
        m.end == history.len(),
        chunk.len() <= m.segment_bytes - m.end % m.segment_bytes,
        part.len() <= chunk.len(),
        part == chunk.take(part.len() as int),
    ensures
        writing(
            effect(d, FileActionView::Write(JournalFile::Segment(m.end / m.segment_bytes), part)),
            m,
            history + chunk,
            m.end as int % m.segment_bytes as int + part.len(),
        ),
{
    let size = m.segment_bytes;
    let index = m.end / size;
    let segment = JournalFile::Segment(index);
    let longer = history + chunk;
    let e = effect(d, FileActionView::Write(segment, part));
    lemma_index(m);
    let lo = index * size;
    assert(e[segment] =~= longer.subrange(lo, lo + e[segment].len())) by {
        let held = d[segment].len() as int;
        assert(segment_faithful(d, size, longer, index));
        assert(d[segment] == longer.subrange(lo, lo + held));
        assert forall|k: int| 0 <= k < e[segment].len() implies e[segment][k] == longer[lo + k] by {
            if k < held {
                assert(d[segment][k] == longer.subrange(lo, lo + held)[k]);
            } else {
                assert(part[k - held] == chunk[k - held]);
            }
        }
    }
    assert forall|i: u64| #[trigger] e.contains_key(JournalFile::Segment(i)) implies segment_faithful(
        e,
        size,
        longer,
        i,
    ) by {
        if i != index {
            assert(d.contains_key(JournalFile::Segment(i)));
        }
    }
    assert forall|i: u64| #[trigger] e.contains_key(JournalFile::Archive(i)) implies archive_faithful(
        e,
        size,
        longer,
        i,
    ) by {
        assert(d.contains_key(JournalFile::Archive(i)));
    }
    assert forall|i: u64| #[trigger] needed(m, i) implies available(e, m, i) by {
        assert(available(d, m, i));
    }
}

/// A full segment's archive takes its place among the archives.
proof fn lemma_archive_rename(d: Directory, m: Manifest, history: Seq<u8>, held: int, k: u64)
    requires
        writing(d, m, history, held),
        d.contains_key(JournalFile::Segment(k)),
        d[JournalFile::Segment(k)].len() == m.segment_bytes,
        d.contains_key(JournalFile::ArchivePending(k)),
        gunzipped(d[JournalFile::ArchivePending(k)], (m.segment_bytes + 1) as u64) matches Ok(
            bytes,
        ) && bytes == d[JournalFile::Segment(k)],
    ensures
        writing(
            effect(
                d,
                FileActionView::Rename(JournalFile::ArchivePending(k), JournalFile::Archive(k)),
            ),
            m,
            history,
            held,
        ),
{
    let e = effect(
        d,
        FileActionView::Rename(JournalFile::ArchivePending(k), JournalFile::Archive(k)),
    );
    assert(segment_faithful(d, m.segment_bytes, history, k));
    assert forall|i: u64| #[trigger] e.contains_key(JournalFile::Segment(i)) implies segment_faithful(
        e,
        m.segment_bytes,
        history,
        i,
    ) by {
        assert(d.contains_key(JournalFile::Segment(i)));
    }
    assert forall|i: u64| #[trigger] e.contains_key(JournalFile::Archive(i)) implies archive_faithful(
        e,
        m.segment_bytes,
        history,
        i,
    ) by {
        if i != k {
            assert(d.contains_key(JournalFile::Archive(i)));
        }
    }
    assert forall|i: u64| #[trigger] needed(m, i) implies available(e, m, i) by {
        assert(available(d, m, i));
    }
}

// ---------------------------------------------------------------------------
// Recording
// ---------------------------------------------------------------------------

/// One call that writes nothing.
proof fn lemma_ask_endured(
    d: Directory,
    path: Seq<char>,
    t: Transcript,
    action: FileActionView,
    good: spec_fn(Directory) -> bool,
)
    requires
        good(after(d, path, t.calls)),
        !(action is Write),
    ensures
        endured(d, path, t, ask(t, CallView::Journal(path, action)).0, good),
{
    lemma_ask(d, path, t, action);
}

/// The archive of a segment of the recorded bytes.
pub open spec fn archive_of(history: Seq<u8>, size: u64, i: u64) -> Seq<u8> {
    gzipped(history.subrange(i * size, i * size + size))->Ok_0
}

/// The directories have the same archives.
pub open spec fn same_archives(d: Directory, e: Directory) -> bool {
    forall|i: u64|
        d.contains_key(JournalFile::Archive(i)) == #[trigger] e.contains_key(
            JournalFile::Archive(i),
        ) && (d.contains_key(JournalFile::Archive(i)) ==> d[JournalFile::Archive(i)]
            == e[JournalFile::Archive(i)])
}

/// The directory `e` has the archives of `d` and those of the segments from `from` up
/// to `to`.
pub open spec fn more_archives(
    d: Directory,
    e: Directory,
    history: Seq<u8>,
    size: u64,
    from: int,
    to: int,
) -> bool {
    forall|i: u64| #[trigger]
        e.contains_key(JournalFile::Archive(i)) == (from <= i < to || d.contains_key(
            JournalFile::Archive(i),
        )) && (e.contains_key(JournalFile::Archive(i)) ==> e[JournalFile::Archive(i)] == (if from
            <= i < to {
            archive_of(history, size, i)
        } else {
            d[JournalFile::Archive(i)]
        }))
}

/// The size of the archives of the segments from `from` up to `to`.
pub open spec fn archives_size(history: Seq<u8>, size: u64, from: int, to: int) -> nat
    decreases to - from,
{
    if from >= to {
        0
    } else {
        archive_of(history, size, from as u64).len() + archives_size(history, size, from + 1, to)
    }
}

/// The directories `e` and `d` differ in nothing but archives, of which `e` has more.
pub open spec fn only_archives(d: Directory, e: Directory) -> bool {
    &&& forall|i: u64|
        d.contains_key(JournalFile::Segment(i)) == #[trigger] e.contains_key(
            JournalFile::Segment(i),
        ) && d[JournalFile::Segment(i)] == e[JournalFile::Segment(i)]
    &&& forall|i: u64|
        d.contains_key(JournalFile::Archive(i)) ==> #[trigger] e.contains_key(
            JournalFile::Archive(i),
        )
}

#[verifier::rlimit(40)]
proof fn lemma_archive(
    d: Directory,
    path: Seq<char>,
    t: Transcript,
    m: Manifest,
    history: Seq<u8>,
    held: int,
    k: u64,
    good: spec_fn(Directory) -> bool,
)
    requires
        archive_run(t, path, k, m.segment_bytes).1 is Ok,
        witnessed(d, path, archive_run(t, path, k, m.segment_bytes).0),
        restorable(t, archive_run(t, path, k, m.segment_bytes).0),
        writing(after(d, path, t.calls), m, history, held),
        forall|x: Directory| #[trigger] presents(x, m, history) ==> good(x),
    ensures
        ({
            let next = archive_run(t, path, k, m.segment_bytes).0;
            let e = after(d, path, next.calls);
            &&& continues(t, next)
            &&& endured(d, path, t, next, good)
            &&& writing(e, m, history, held)
            &&& only_archives(after(d, path, t.calls), e)
            &&& e.contains_key(JournalFile::Archive(k))
            &&& more_archives(after(d, path, t.calls), e, history, m.segment_bytes, k as int, k + 1)
            &&& archive_run(t, path, k, m.segment_bytes).1->Ok_0 == archive_of(
                history,
                m.segment_bytes,
                k,
            ).len()
        }),
{
    let size = m.segment_bytes;
    let segment = JournalFile::Segment(k);
    let pending = JournalFile::ArchivePending(k);
    let next = archive_run(t, path, k, size).0;
    let a1 = FileActionView::Length(segment);
    let t1 = ask(t, CallView::Journal(path, a1)).0;
    let a2 = FileActionView::Create(pending);
    let t2 = ask(t1, CallView::Journal(path, a2)).0;
    let a3 = FileActionView::ReadStart(segment, (size + 1) as u64);
    let t3 = ask(t2, CallView::Journal(path, a3)).0;
    let contents = t.replies[t2.calls.len() as int]->Bytes_0;
    let data = gzipped(contents)->Ok_0;
    let a4 = seq![FileActionView::Write(pending, data), FileActionView::SyncAll(pending)];
    let t4 = performed(t3, path, a4).0;
    let a5 = FileActionView::Length(pending);
    let t5 = ask(t4, CallView::Journal(path, a5)).0;
    let a6 = seq![
        FileActionView::Rename(pending, JournalFile::Archive(k)),
        FileActionView::SyncDirectory,
    ];
    assert(next == performed(t5, path, a6).0);
    lemma_performed_continues(t5, path, a6);
    lemma_ask(d, path, t4, a5);
    lemma_continues(t4, t5, next);
    lemma_performed_continues(t3, path, a4);
    lemma_continues(t3, t4, next);
    lemma_ask(d, path, t2, a3);
    lemma_continues(t2, t3, next);
    lemma_ask(d, path, t1, a2);
    lemma_continues(t1, t2, next);
    lemma_ask(d, path, t, a1);
    lemma_continues(t, t1, next);
    lemma_witnessed(d, path, t1, next);
    lemma_witnessed(d, path, t2, next);
    lemma_witnessed(d, path, t3, next);
    lemma_witnessed(d, path, t4, next);
    lemma_witnessed(d, path, t5, next);
    let d0 = after(d, path, t.calls);
    // The segment is full, and it is what was read.
    assert(d0.contains_key(segment) && d0[segment].len() == size);
    lemma_ask_endured(d, path, t, a1, good);
    lemma_ask_endured(d, path, t1, a2, good);
    let d2 = after(d, path, t2.calls);
    lemma_presents_pending(d0, m, history, pending, Seq::empty());
    assert(writing(d2, m, history, held));
    lemma_ask_endured(d, path, t2, a3, good);
    assert(contents == d0[segment]);
    // The data that is written decodes to it.
    assert(restores(contents)) by {
        let i = t3.calls.len() as int;
        lemma_directory_at(d, path, t4, next, i);
        assert(t4.calls[i] == CallView::Journal(path, a4[0]));
        assert(is_archive_write(next.calls[i]));
        assert(next.replies[i - 1] == ReplyView::Bytes(contents));
    }
    let inv4 = |j: int, x: Directory|
        {
            &&& writing(x, m, history, held)
            &&& only_archives(d0, x)
            &&& same_archives(d0, x)
            &&& x.contains_key(pending)
            &&& x[pending] == (if j == 0 {
                Seq::empty()
            } else {
                data
            })
        };
    assert(a4.skip(0) =~= a4);
    assert forall|j: int, x: Directory|
        0 <= j < a4.len() && #[trigger] inv4(j, x) && truthful(
            x,
            a4[j],
            ReplyView::Done,
        ) implies inv4(j + 1, effect(x, a4[j])) && endures(x, a4[j], good) by {
        if j == 0 {
            assert(x[pending] + data =~= data);
            lemma_presents_pending(x, m, history, pending, x[pending] + data);
            assert forall|n: int| 0 <= n <= data.len() implies good(
                #[trigger] effect(x, FileActionView::Write(pending, data.take(n))),
            ) by {
                lemma_presents_pending(x, m, history, pending, x[pending] + data.take(n));
            }
        }
    }
    assert(inv4(0, after(d, path, t3.calls)));
    lemma_performed(d, path, t3, a4, 0, inv4, good);
    lemma_ask_endured(d, path, t4, a5, good);
    // The archive takes its place.
    let inv6 = |j: int, x: Directory|
        {
            &&& writing(x, m, history, held)
            &&& only_archives(d0, x)
            &&& j == 0 ==> x.contains_key(pending) && x[pending] == data && same_archives(d0, x)
            &&& j > 0 ==> x.contains_key(JournalFile::Archive(k)) && more_archives(
                d0,
                x,
                history,
                size,
                k as int,
                k + 1,
            )
        };
    assert(data == archive_of(history, size, k)) by {
        assert(segment_faithful(d0, size, history, k));
    }
    assert(a6.skip(0) =~= a6);
    assert forall|j: int, x: Directory|
        0 <= j < a6.len() && #[trigger] inv6(j, x) && truthful(
            x,
            a6[j],
            ReplyView::Done,
        ) implies inv6(j + 1, effect(x, a6[j])) && endures(x, a6[j], good) by {
        if j == 0 {
            assert(x.contains_key(segment) == d0.contains_key(segment));
            lemma_archive_rename(x, m, history, held, k);
            let y = effect(x, a6[j]);
            assert forall|i: u64| i != k implies d0.contains_key(JournalFile::Archive(i))
                == y.contains_key(JournalFile::Archive(i)) && (d0.contains_key(
                JournalFile::Archive(i),
            ) ==> d0[JournalFile::Archive(i)] == y[JournalFile::Archive(i)]) by {
                assert(d0.contains_key(JournalFile::Archive(i)) == x.contains_key(
                    JournalFile::Archive(i),
                ));
            }
        }
    }
    lemma_performed(d, path, t5, a6, 0, inv6, good);
    lemma_endured(d, path, t4, t5, next, good);
    lemma_endured(d, path, t3, t4, next, good);
    lemma_endured(d, path, t2, t3, next, good);
    lemma_endured(d, path, t1, t2, next, good);
    lemma_endured(d, path, t, t1, next, good);
}

proof fn lemma_restorable_parts(t: Transcript, next: Transcript, last: Transcript)
    requires
        continues(t, next),
        continues(next, last),
        restorable(t, last),
    ensures
        restorable(t, next),
        restorable(next, last),
{
    assert forall|i: int|
        t.calls.len() <= i < next.calls.len() && #[trigger] is_archive_write(next.calls[i]) && (i > 0
            && next.replies[i - 1] is Bytes) implies restores(next.replies[i - 1]->Bytes_0) by {
        assert(last.calls.take(next.calls.len() as int)[i] == last.calls[i]);
        assert(is_archive_write(last.calls[i]));
    }
}

proof fn lemma_archive_continues(t: Transcript, path: Seq<char>, k: u64, size: u64)
    ensures
        continues(t, archive_run(t, path, k, size).0),
{
    let segment = JournalFile::Segment(k);
    let pending = JournalFile::ArchivePending(k);
    let next = archive_run(t, path, k, size).0;
    let c1 = CallView::Journal(path, FileActionView::Length(segment));
    let (t1, r1) = ask_number(t, c1);
    lemma_ask_continues(t, c1);
    if r1 == Ok::<u64, IoHalt>(size) {
        let c2 = CallView::Journal(path, FileActionView::Create(pending));
        let (t2, r2) = ask_done(t1, c2);
        lemma_ask_continues(t1, c2);
        lemma_continues(t, t1, t2);
        if r2 is Ok {
            let c3 = CallView::Journal(
                path,
                FileActionView::ReadStart(segment, (size + 1) as u64),
            );
            let (t3, r3) = ask_bytes(t2, c3);
            lemma_ask_continues(t2, c3);
            lemma_continues(t, t2, t3);
            if r3 is Ok && r3->Ok_0.len() == size && gzipped(r3->Ok_0) is Ok {
                let a4 = seq![
                    FileActionView::Write(pending, gzipped(r3->Ok_0)->Ok_0),
                    FileActionView::SyncAll(pending),
                ];
                let (t4, r4) = performed(t3, path, a4);
                lemma_performed_continues(t3, path, a4);
                lemma_continues(t, t3, t4);
                if r4 is Ok {
                    let c5 = CallView::Journal(path, FileActionView::Length(pending));
                    let (t5, r5) = ask_number(t4, c5);
                    lemma_ask_continues(t4, c5);
                    lemma_continues(t, t4, t5);
                    if r5 is Ok {
                        let a6 = seq![
                            FileActionView::Rename(pending, JournalFile::Archive(k)),
                            FileActionView::SyncDirectory,
                        ];
                        lemma_performed_continues(t5, path, a6);
                        lemma_continues(t, t5, next);
                    }
                }
            }
        }
    }
}

proof fn lemma_archive_all_continues(
    t: Transcript,
    path: Seq<char>,
    from: u64,
    to: u64,
    size: u64,
    archived: u64,
)
    ensures
        continues(t, archive_all_run(t, path, from, to, size, archived).0),
    decreases to - from,
{
    assert(t.calls.take(t.calls.len() as int) =~= t.calls);
    if from < to {
        let (mid, r) = archive_run(t, path, from, size);
        lemma_archive_continues(t, path, from, size);
        if r is Ok && archived + r->Ok_0 <= u64::MAX {
            lemma_archive_all_continues(
                mid,
                path,
                (from + 1) as u64,
                to,
                size,
                (archived + r->Ok_0) as u64,
            );
            lemma_continues(t, mid, archive_all_run(t, path, from, to, size, archived).0);
        }
    }
}

proof fn lemma_more_archives(
    d: Directory,
    x: Directory,
    e: Directory,
    history: Seq<u8>,
    size: u64,
    from: int,
    mid: int,
    to: int,
)
    requires
        from <= mid <= to,
        more_archives(d, x, history, size, from, mid),
        more_archives(x, e, history, size, mid, to),
    ensures
        more_archives(d, e, history, size, from, to),
{
    assert forall|i: u64| #[trigger]
        e.contains_key(JournalFile::Archive(i)) == (from <= i < to || d.contains_key(
            JournalFile::Archive(i),
        )) && (e.contains_key(JournalFile::Archive(i)) ==> e[JournalFile::Archive(i)] == (if from
            <= i < to {
            archive_of(history, size, i)
        } else {
            d[JournalFile::Archive(i)]
        })) by {
        assert(x.contains_key(JournalFile::Archive(i)) == (from <= i < mid || d.contains_key(
            JournalFile::Archive(i),
        )));
    }
}

proof fn lemma_archive_all(
    d: Directory,
    path: Seq<char>,
    t: Transcript,
    m: Manifest,
    history: Seq<u8>,
    held: int,
    from: u64,
    to: u64,
    archived: u64,
    good: spec_fn(Directory) -> bool,
)
    requires
        archive_all_run(t, path, from, to, m.segment_bytes, archived).1 is Ok,
        witnessed(d, path, archive_all_run(t, path, from, to, m.segment_bytes, archived).0),
        restorable(t, archive_all_run(t, path, from, to, m.segment_bytes, archived).0),
        writing(after(d, path, t.calls), m, history, held),
        forall|x: Directory| #[trigger] presents(x, m, history) ==> good(x),
    ensures
        ({
            let next = archive_all_run(t, path, from, to, m.segment_bytes, archived).0;
            let e = after(d, path, next.calls);
            &&& continues(t, next)
            &&& endured(d, path, t, next, good)
            &&& writing(e, m, history, held)
            &&& only_archives(after(d, path, t.calls), e)
            &&& forall|k: u64| from <= k < to ==> #[trigger] e.contains_key(JournalFile::Archive(k))
            &&& more_archives(
                after(d, path, t.calls),
                e,
                history,
                m.segment_bytes,
                from as int,
                to as int,
            )
            &&& archive_all_run(t, path, from, to, m.segment_bytes, archived).1->Ok_0 == archived
                + archives_size(history, m.segment_bytes, from as int, to as int)
        }),
    decreases to - from,
{
    assert(t.calls.take(t.calls.len() as int) =~= t.calls);
    if from < to {
        let (mid, r) = archive_run(t, path, from, m.segment_bytes);
        let next = archive_all_run(t, path, from, to, m.segment_bytes, archived).0;
        let more = (archived + r->Ok_0) as u64;
        lemma_archive_continues(t, path, from, m.segment_bytes);
        lemma_archive_all_continues(mid, path, (from + 1) as u64, to, m.segment_bytes, more);
        lemma_witnessed(d, path, mid, next);
        lemma_restorable_parts(t, mid, next);
        lemma_archive(d, path, t, m, history, held, from, good);
        lemma_archive_all(d, path, mid, m, history, held, (from + 1) as u64, to, more, good);
        lemma_continues(t, mid, next);
        lemma_endured(d, path, t, mid, next, good);
        let e = after(d, path, next.calls);
        assert forall|k: u64| from <= k < to implies #[trigger] e.contains_key(
            JournalFile::Archive(k),
        ) by {
            if k == from {
                assert(after(d, path, mid.calls).contains_key(JournalFile::Archive(k)));
            }
        }
        let d0 = after(d, path, t.calls);
        let d1 = after(d, path, mid.calls);
        let size = m.segment_bytes;
        assert((from + 1) as u64 == from + 1);
        assert(archives_size(history, size, from as int, to as int) == archive_of(
            history,
            size,
            from,
        ).len() + archives_size(history, size, from + 1, to as int));
        assert(more == archived + archive_of(history, size, from).len());
        lemma_more_archives(d0, d1, e, history, size, from as int, from + 1, to as int);
    }
}

/// The directory would publish this manifest if it had it.
pub open spec fn prepared(d: Directory, m: Manifest, history: Seq<u8>) -> bool {
    presents(d.insert(JournalFile::Manifest, encode_utf8(manifest_text(m))), m, history)
}

/// How far the publication of the manifest `m2` has come, counted in actions.
spec fn publishing(
    d: Directory,
    x: Directory,
    m: Manifest,
    m2: Manifest,
    history: Seq<u8>,
    j: int,
) -> bool {
    let pending = JournalFile::ManifestPending;
    &&& only_archives(d, x)
    &&& j < 4 ==> presents(x, m, history) && prepared(x, m2, history)
    &&& j > 0 && j < 4 ==> x.contains_key(pending)
    &&& j == 1 ==> x[pending] == Seq::<u8>::empty()
    &&& j == 2 || j == 3 ==> x[pending] == encode_utf8(manifest_text(m2))
    &&& j >= 4 ==> presents(x, m2, history)
}

proof fn lemma_only_archives(d: Directory, x: Directory, y: Directory)
    requires
        only_archives(d, x),
        only_archives(x, y),
    ensures
        only_archives(d, y),
{
    assert forall|i: u64|
        d.contains_key(JournalFile::Segment(i)) == #[trigger] y.contains_key(
            JournalFile::Segment(i),
        ) && d[JournalFile::Segment(i)] == y[JournalFile::Segment(i)] by {
        assert(x.contains_key(JournalFile::Segment(i)) == y.contains_key(JournalFile::Segment(i)));
        assert(d.contains_key(JournalFile::Segment(i)) == x.contains_key(JournalFile::Segment(i)));
    }
    assert forall|i: u64| d.contains_key(JournalFile::Archive(i)) implies #[trigger] y.contains_key(
        JournalFile::Archive(i),
    ) by {
        assert(x.contains_key(JournalFile::Archive(i)));
    }
}

proof fn lemma_publish_step(
    d: Directory,
    x: Directory,
    m: Manifest,
    m2: Manifest,
    history: Seq<u8>,
    j: int,
)
    requires
        0 <= j < 5,
        publishing(d, x, m, m2, history, j),
        truthful(x, publish_actions(m2)[j], ReplyView::Done),
    ensures
        publishing(d, effect(x, publish_actions(m2)[j]), m, m2, history, j + 1),
{
    let pending = JournalFile::ManifestPending;
    let text = encode_utf8(manifest_text(m2));
    let y = effect(x, publish_actions(m2)[j]);
    let published = x.insert(JournalFile::Manifest, text);
    if j == 0 {
        lemma_presents_pending(x, m, history, pending, Seq::empty());
        lemma_presents_same(published, y.insert(JournalFile::Manifest, text), m2, history);
    } else if j == 1 {
        assert(x[pending] + text =~= text);
        lemma_presents_pending(x, m, history, pending, text);
        lemma_presents_same(published, y.insert(JournalFile::Manifest, text), m2, history);
    } else if j == 3 {
        lemma_presents_same(published, y, m2, history);
    } else {
        assert(y == x);
    }
    assert(only_archives(x, y));
    lemma_only_archives(d, x, y);
}

/// The manifest is replaced in one step: before it the directory presents the
/// old one, after it the new one.
proof fn lemma_publish(
    d: Directory,
    path: Seq<char>,
    t: Transcript,
    m: Manifest,
    m2: Manifest,
    history: Seq<u8>,
    good: spec_fn(Directory) -> bool,
)
    requires
        performed(t, path, publish_actions(m2)).1 is Ok,
        witnessed(d, path, performed(t, path, publish_actions(m2)).0),
        presents(after(d, path, t.calls), m, history),
        prepared(after(d, path, t.calls), m2, history),
        forall|x: Directory| #[trigger] presents(x, m, history) ==> good(x),
        forall|x: Directory| #[trigger] presents(x, m2, history) ==> good(x),
    ensures
        ({
            let next = performed(t, path, publish_actions(m2)).0;
            let e = after(d, path, next.calls);
            &&& continues(t, next)
            &&& endured(d, path, t, next, good)
            &&& presents(e, m2, history)
            &&& only_archives(after(d, path, t.calls), e)
        }),
{
    let actions = publish_actions(m2);
    let pending = JournalFile::ManifestPending;
    let text = encode_utf8(manifest_text(m2));
    let d0 = after(d, path, t.calls);
    let inv = |j: int, x: Directory| publishing(d0, x, m, m2, history, j);
    assert(actions.skip(0) =~= actions);
    assert forall|j: int, x: Directory|
        0 <= j < actions.len() && #[trigger] inv(j, x) && truthful(
            x,
            actions[j],
            ReplyView::Done,
        ) implies inv(j + 1, effect(x, actions[j])) && endures(x, actions[j], good) by {
        lemma_publish_step(d0, x, m, m2, history, j);
        if j == 1 {
            assert forall|n: int| 0 <= n <= text.len() implies good(
                #[trigger] effect(x, FileActionView::Write(pending, text.take(n))),
            ) by {
                lemma_presents_pending(x, m, history, pending, x[pending] + text.take(n));
            }
        }
    }
    assert(inv(0, d0));
    lemma_performed(d, path, t, actions, 0, inv, good);
}

/// A segment that no reader asks for any more, or that has an archive, can leave.
proof fn lemma_remove_segment(d: Directory, m: Manifest, history: Seq<u8>, k: u64)
    requires
        presents(d, m, history),
        k * m.segment_bytes < m.first,
        m.archive ==> d.contains_key(JournalFile::Archive(k)),
    ensures
        presents(d.remove(JournalFile::Segment(k)), m, history),
{
    let e = d.remove(JournalFile::Segment(k));
    assert forall|i: u64| #[trigger] e.contains_key(JournalFile::Segment(i)) implies segment_faithful(
        e,
        m.segment_bytes,
        history,
        i,
    ) by {
        assert(d.contains_key(JournalFile::Segment(i)));
    }
    assert forall|i: u64| #[trigger] e.contains_key(JournalFile::Archive(i)) implies archive_faithful(
        e,
        m.segment_bytes,
        history,
        i,
    ) by {
        assert(d.contains_key(JournalFile::Archive(i)));
    }
    assert forall|i: u64| #[trigger] needed(m, i) implies available(e, m, i) by {
        assert(available(d, m, i));
    }
}

/// A directory from which at least the first `from` bytes of the history can be read.
pub open spec fn recovers(d: Directory, from: int, history: Seq<u8>) -> bool {
    exists|m: Manifest| #[trigger] presents(d, m, history) && from <= m.end
}

pub open spec fn recovery(from: int, history: Seq<u8>) -> spec_fn(Directory) -> bool {
    |d: Directory| recovers(d, from, history)
}

proof fn lemma_presents_grows(d: Directory, m: Manifest, history: Seq<u8>, more: Seq<u8>)
    requires
        presents(d, m, history),
    ensures
        presents(d, m, history + more),
{
    lemma_faithful_grows(d, m.segment_bytes, history, more);
}

/// Once a chunk is written, and what leaves is archived, the manifest that
/// covers the chunk can be published.
proof fn lemma_prepared(d: Directory, r: RecorderView, history: Seq<u8>, count: nat, archived: u64)
    requires
        recording(r),
        r.manifest.end + count == history.len(),
        0 < count <= r.manifest.segment_bytes - r.manifest.end % r.manifest.segment_bytes,
        history.len() <= u64::MAX,
        !r.manifest.archive ==> archived == 0,
        writing(
            d,
            r.manifest,
            history,
            r.manifest.end as int % r.manifest.segment_bytes as int + count,
        ),
    ensures
        prepared(d, advanced(r.manifest, count, archived), history),
{
    let m = r.manifest;
    let size = m.segment_bytes;
    let index = m.end / size;
    let m2 = advanced(m, count, archived);
    lemma_advanced(r, count, archived);
    lemma_index(m);
    let e = d.insert(JournalFile::Manifest, encode_utf8(manifest_text(m2)));
    assert forall|i: u64| #[trigger] e.contains_key(JournalFile::Segment(i)) implies segment_faithful(
        e,
        size,
        history,
        i,
    ) by {
        assert(d.contains_key(JournalFile::Segment(i)));
    }
    assert forall|i: u64| #[trigger] e.contains_key(JournalFile::Archive(i)) implies archive_faithful(
        e,
        size,
        history,
        i,
    ) by {
        assert(d.contains_key(JournalFile::Archive(i)));
    }
    assert forall|i: u64| #[trigger] needed(m2, i) implies available(e, m2, i) by {
        if i < index {
            lemma_segments(i as int, index as int, size as int);
            assert(needed(m, i));
            assert(available(d, m, i));
        } else if i > index {
            lemma_segments(index as int, i as int, size as int);
        }
    }
}

/// The segments that leave after a chunk lie before the first one that is kept,
/// and that one is no later than the segment in use.
proof fn lemma_leaving(r: RecorderView, count: nat, archived: u64, k: int)
    requires
        recording(r),
        0 < count <= r.manifest.segment_bytes - r.manifest.end % r.manifest.segment_bytes,
        r.manifest.end + count <= u64::MAX,
        !r.manifest.archive ==> archived == 0,
        k < advanced(r.manifest, count, archived).first / r.manifest.segment_bytes,
    ensures
        k * r.manifest.segment_bytes < advanced(r.manifest, count, archived).first,
        k < r.manifest.end / r.manifest.segment_bytes,
{
    let m = r.manifest;
    let size = m.segment_bytes as int;
    let first = advanced(m, count, archived).first as int;
    lemma_advanced(r, count, archived);
    vstd::arithmetic::div_mod::lemma_fundamental_div_mod(first, size);
    assert(k * size < first) by (nonlinear_arith)
        requires
            first == size * (first / size) + first % size,
            first % size >= 0,
            k < first / size,
            size > 0,
    ;
    vstd::arithmetic::div_mod::lemma_div_is_ordered(first, m.end as int, size);
}

/// Where the next write goes after a chunk.
proof fn lemma_next_write(m: Manifest, count: nat)
    requires
        sound(m),
        0 < count <= m.segment_bytes - m.end % m.segment_bytes,
    ensures
        (m.end + count) % (m.segment_bytes as int) != 0 ==> {
            &&& (m.end + count) / (m.segment_bytes as int) == m.end / m.segment_bytes
            &&& (m.end + count) % (m.segment_bytes as int) == m.end % m.segment_bytes + count
        },
{
    let size = m.segment_bytes as int;
    let index = m.end as int / size;
    let filled = m.end as int % size + count;
    lemma_index(m);
    assert(m.end + count == size * index + filled) by (nonlinear_arith)
        requires
            m.end == index * size + m.end as int % size,
            filled == m.end as int % size + count,
    ;
    if filled == size {
        assert(m.end + count == size * (index + 1)) by (nonlinear_arith)
            requires
                m.end + count == size * index + size,
        ;
        vstd::arithmetic::div_mod::lemma_mod_multiples_basic(index + 1, size);
        assert((index + 1) * size == size * (index + 1)) by (nonlinear_arith);
    } else {
        vstd::arithmetic::div_mod::lemma_fundamental_div_mod_converse(
            m.end + count,
            size,
            index,
            filled,
        );
    }
}

/// An action that leaves the archives alone.
pub open spec fn is_quiet(action: FileActionView) -> bool {
    match action {
        FileActionView::Create(file) => !(file is Archive),
        FileActionView::Write(file, _) => !(file is Archive),
        FileActionView::Rename(from, to) => !(from is Archive) && !(to is Archive),
        FileActionView::Remove(file) => !(file is Archive),
        _ => true,
    }
}

/// Calls whose actions leave the archives alone keep them.
proof fn lemma_quiet(d: Directory, path: Seq<char>, t: Transcript, next: Transcript, n: int)
    requires
        continues(t, next),
        t.calls.len() <= n <= next.calls.len(),
        forall|i: int|
            t.calls.len() <= i < next.calls.len() ==> is_quiet(
                action_of(path, #[trigger] next.calls[i]),
            ),
    ensures
        same_archives(after(d, path, t.calls), after(d, path, next.calls.take(n))),
    decreases n,
{
    if n > t.calls.len() {
        lemma_quiet(d, path, t, next, n - 1);
        assert(next.calls.take(n).drop_last() =~= next.calls.take(n - 1));
        assert(next.calls.take(n).last() == next.calls[n - 1]);
        let d0 = after(d, path, t.calls);
        let x = after(d, path, next.calls.take(n - 1));
        let y = after(d, path, next.calls.take(n));
        assert forall|i: u64|
            d0.contains_key(JournalFile::Archive(i)) == #[trigger] y.contains_key(
                JournalFile::Archive(i),
            ) && (d0.contains_key(JournalFile::Archive(i)) ==> d0[JournalFile::Archive(i)]
                == y[JournalFile::Archive(i)]) by {
            assert(d0.contains_key(JournalFile::Archive(i)) == x.contains_key(
                JournalFile::Archive(i),
            ));
        }
    }
}

/// Actions that leave the archives alone keep them.
proof fn lemma_performed_quiet(
    d: Directory,
    path: Seq<char>,
    t: Transcript,
    actions: Seq<FileActionView>,
)
    requires
        forall|j: int| 0 <= j < actions.len() ==> is_quiet(#[trigger] actions[j]),
    ensures
        same_archives(
            after(d, path, t.calls),
            after(d, path, performed(t, path, actions).0.calls),
        ),
{
    let next = performed(t, path, actions).0;
    lemma_performed_continues(t, path, actions);
    assert forall|i: int| t.calls.len() <= i < next.calls.len() implies is_quiet(
        action_of(path, #[trigger] next.calls[i]),
    ) by {
        assert(is_quiet(actions[i - t.calls.len()]));
    }
    lemma_quiet(d, path, t, next, next.calls.len() as int);
    assert(next.calls.take(next.calls.len() as int) =~= next.calls);
}

proof fn lemma_counted_same(d: Directory, e: Directory, m: Manifest, history: Seq<u8>)
    requires
        counted(d, m, history),
        same_archives(d, e),
    ensures
        counted(e, m, history),
{
    reveal(counted);
    let left = if m.archive {
        m.first as int / m.segment_bytes as int
    } else {
        0
    };
    assert forall|i: u64| i < left implies #[trigger] e[JournalFile::Archive(i)] == archive_of(
        history,
        m.segment_bytes,
        i,
    ) by {
        assert(d.contains_key(JournalFile::Archive(i)));
        assert(e.contains_key(JournalFile::Archive(i)));
        assert(d[JournalFile::Archive(i)] == archive_of(history, m.segment_bytes, i));
    }
    assert forall|i: u64| #[trigger] e.contains_key(JournalFile::Archive(i)) <==> i < left by {
        assert(d.contains_key(JournalFile::Archive(i)) <==> i < left);
    }
}

/// The archives of a part of the recorded bytes do not change when more is recorded.
proof fn lemma_archives_grow(
    history: Seq<u8>,
    more: Seq<u8>,
    size: u64,
    from: int,
    to: int,
)
    requires
        0 <= from,
        size > 0,
        to * size <= history.len() <= u64::MAX,
    ensures
        archives_size(history + more, size, from, to) == archives_size(history, size, from, to),
        forall|i: u64|
            i < to ==> #[trigger] archive_of(history + more, size, i) == archive_of(
                history,
                size,
                i,
            ),
    decreases to - from,
{
    assert forall|i: u64| i < to implies #[trigger] archive_of(history + more, size, i)
        == archive_of(history, size, i) by {
        lemma_segments(i as int, to, size as int);
        assert((history + more).subrange(i * size, i * size + size) =~= history.subrange(
            i * size,
            i * size + size,
        ));
    }
    if from < to {
        lemma_archives_grow(history, more, size, from + 1, to);
        assert(from <= u64::MAX) by (nonlinear_arith)
            requires
                from < to,
                size > 0,
                to * size <= u64::MAX,
        ;
        assert(archive_of(history + more, size, from as u64) == archive_of(
            history,
            size,
            from as u64,
        ));
    }
}

proof fn lemma_archives_split(history: Seq<u8>, size: u64, from: int, mid: int, to: int)
    requires
        from <= mid <= to,
    ensures
        archives_size(history, size, from, to) == archives_size(history, size, from, mid)
            + archives_size(history, size, mid, to),
    decreases mid - from,
{
    if from < mid {
        lemma_archives_split(history, size, from + 1, mid, to);
    }
}

/// What was archived for a chunk is counted.
proof fn lemma_counted(
    d: Directory,
    e: Directory,
    r: RecorderView,
    history: Seq<u8>,
    chunk: Seq<u8>,
    stored: u64,
)
    requires
        recording(r),
        counted(d, r.manifest, history),
        r.manifest.end == history.len(),
        0 < chunk.len() <= r.manifest.segment_bytes - r.manifest.end % r.manifest.segment_bytes,
        r.manifest.end + chunk.len() <= u64::MAX,
        ({
            let m = r.manifest;
            let size = m.segment_bytes;
            let from = m.first as int / size as int;
            let to = advanced(m, 0, 0).first as int / size as int;
            if m.archive {
                &&& more_archives(d, e, history + chunk, size, from, to)
                &&& stored == m.archived_bytes + archives_size(history + chunk, size, from, to)
            } else {
                same_archives(d, e) && stored == m.archived_bytes
            }
        }),
    ensures
        counted(e, advanced(r.manifest, chunk.len(), stored), history + chunk),
{
    let m = r.manifest;
    let size = m.segment_bytes;
    let longer = history + chunk;
    let m2 = advanced(m, chunk.len(), stored);
    reveal(counted);
    lemma_advanced(r, chunk.len(), 0);
    if m.archive {
        let from = m.first as int / size as int;
        let to = m2.first as int / size as int;
        vstd::arithmetic::div_mod::lemma_div_is_ordered(m.first as int, m2.first as int, size as int);
        vstd::arithmetic::div_mod::lemma_fundamental_div_mod(m.first as int, size as int);
        assert(from * size <= history.len()) by (nonlinear_arith)
            requires
                m.first == size * from + m.first as int % size as int,
                m.first as int % size as int >= 0,
                m.first <= history.len(),
        ;
        assert(from >= 0) by {
            vstd::arithmetic::div_mod::lemma_div_pos_is_pos(m.first as int, size as int);
        }
        lemma_archives_grow(history, chunk, size, 0, from);
        lemma_archives_split(longer, size, 0, from, to);
        assert forall|i: u64| #[trigger] e.contains_key(JournalFile::Archive(i)) <==> i < to by {
            assert(d.contains_key(JournalFile::Archive(i)) <==> i < from);
        }
        assert forall|i: u64| i < to implies #[trigger] e[JournalFile::Archive(i)] == archive_of(
            longer,
            size,
            i,
        ) by {
            assert(d.contains_key(JournalFile::Archive(i)) <==> i < from);
            assert(e.contains_key(JournalFile::Archive(i)));
            if i < from {
                assert(d[JournalFile::Archive(i)] == archive_of(history, size, i));
                assert(archive_of(longer, size, i) == archive_of(history, size, i));
            }
        }
    } else {
        assert forall|i: u64| !#[trigger] e.contains_key(JournalFile::Archive(i)) by {
            assert(d.contains_key(JournalFile::Archive(i)) <==> i < 0);
        }
    }
}

/// The directory has files of exactly the segments from `from` on, up to the segment
/// in use.
#[verifier::opaque]
pub open spec fn removed_up_to(d: Directory, m: Manifest, from: int) -> bool {
    forall|i: u64| #[trigger]
        d.contains_key(JournalFile::Segment(i)) <==> from <= i <= m.end / m.segment_bytes
}

/// The directory has files of exactly the segments that were in use before a chunk, and
/// of the one that the chunk goes into.
pub open spec fn untidy(d: Directory, m: Manifest) -> bool {
    removed_up_to(d, m, m.first as int / m.segment_bytes as int)
}

proof fn lemma_untidy(d: Directory, e: Directory, m: Manifest)
    requires
        untidy(d, m),
        only_archives(d, e),
    ensures
        untidy(e, m),
{
    reveal(removed_up_to);
    assert forall|i: u64| #[trigger] e.contains_key(JournalFile::Segment(i)) <==> m.first as int
        / m.segment_bytes as int <= i <= m.end / m.segment_bytes by {
        assert(d.contains_key(JournalFile::Segment(i)) == e.contains_key(JournalFile::Segment(i)));
    }
}

proof fn lemma_removed(d: Directory, m: Manifest, k: u64)
    requires
        removed_up_to(d, m, k as int),
    ensures
        removed_up_to(
            effect(d, FileActionView::Remove(JournalFile::Segment(k))),
            m,
            k + 1,
        ),
{
    reveal(removed_up_to);
    let e = effect(d, FileActionView::Remove(JournalFile::Segment(k)));
    assert forall|i: u64| #[trigger] e.contains_key(JournalFile::Segment(i)) <==> k + 1 <= i
        <= m.end / m.segment_bytes by {
        if i != k {
            assert(d.contains_key(JournalFile::Segment(i)) == e.contains_key(
                JournalFile::Segment(i),
            ));
        }
    }
}

/// The segment of the chunk has a file: it was created, or was there.
proof fn lemma_opened(d: Directory, e: Directory, m: Manifest)
    requires
        sound(m),
        tidy(d, m),
        if m.end % m.segment_bytes == 0 {
            e == effect(
                d,
                FileActionView::Create(JournalFile::Segment(m.end / m.segment_bytes)),
            )
        } else {
            e == d
        },
    ensures
        untidy(e, m),
{
    reveal(tidy);
    reveal(removed_up_to);
    let size = m.segment_bytes as int;
    let index = m.end as int / size;
    lemma_index(m);
    vstd::arithmetic::div_mod::lemma_div_is_ordered(m.first as int, m.end as int, size);
    assert forall|i: u64| #[trigger] e.contains_key(JournalFile::Segment(i)) <==> m.first as int
        / size <= i <= m.end / m.segment_bytes by {
        assert(d.contains_key(JournalFile::Segment(i)) <==> m.first as int / size <= i && i * size
            < m.end);
        if i < index {
            lemma_segments(i as int, index, size);
        } else if i > index {
            lemma_segments(index, i as int, size);
        }
    }
}

/// Writing to a file that is there makes no file.
proof fn lemma_written_untidy(d: Directory, e: Directory, m: Manifest)
    requires
        untidy(d, m),
        e.dom() == d.dom(),
    ensures
        untidy(e, m),
{
    reveal(removed_up_to);
    assert forall|i: u64| #[trigger] e.contains_key(JournalFile::Segment(i)) <==> m.first as int
        / m.segment_bytes as int <= i <= m.end / m.segment_bytes by {
        assert(d.contains_key(JournalFile::Segment(i)) == e.dom().contains(
            JournalFile::Segment(i),
        ));
    }
}

/// After what leaves was removed, the segments in use are left.
proof fn lemma_tidied(d: Directory, r: RecorderView, count: nat, archived: u64)
    requires
        recording(r),
        0 < count <= r.manifest.segment_bytes - r.manifest.end % r.manifest.segment_bytes,
        r.manifest.end + count <= u64::MAX,
        !r.manifest.archive ==> archived == 0,
        removed_up_to(
            d,
            r.manifest,
            r.manifest.first as int / r.manifest.segment_bytes as int + remove_actions(
                r.manifest.first / r.manifest.segment_bytes,
                advanced(r.manifest, count, archived).first / r.manifest.segment_bytes,
            ).len(),
        ),
    ensures
        tidy(d, advanced(r.manifest, count, archived)),
{
    reveal(tidy);
    reveal(removed_up_to);
    let m = r.manifest;
    let m2 = advanced(m, count, archived);
    let size = m.segment_bytes as int;
    let index = m.end as int / size;
    lemma_advanced(r, count, archived);
    lemma_index(m);
    vstd::arithmetic::div_mod::lemma_div_is_ordered(m.first as int, m2.first as int, size);
    assert((index + 1) * size == index * size + size) by (nonlinear_arith);
    assert forall|i: u64| #[trigger] d.contains_key(JournalFile::Segment(i)) <==> m2.first as int
        / size <= i && i * size < m2.end by {
        if i < index {
            lemma_segments(i as int, index, size);
        } else if i > index {
            lemma_segments(index, i as int, size);
        }
    }
}

#[verifier::rlimit(60)]
proof fn lemma_chunk_publish(
    d: Directory,
    path: Seq<char>,
    t: Transcript,
    r: RecorderView,
    count: nat,
    archived: u64,
    history: Seq<u8>,
    good: spec_fn(Directory) -> bool,
)
    requires
        recording(r),
        r.open,
        r.directory == path,
        r.manifest.end + count == history.len(),
        0 < count <= r.manifest.segment_bytes - r.manifest.end % r.manifest.segment_bytes,
        history.len() <= u64::MAX,
        !r.manifest.archive ==> archived == 0,
        writing(
            after(d, path, t.calls),
            r.manifest,
            history,
            r.manifest.end as int % r.manifest.segment_bytes as int + count,
        ),
        ({
            let m2 = advanced(r.manifest, count, archived);
            let (next, r2, result) = chunk_publish_run(t, r, m2, count);
            &&& result is Ok
            &&& witnessed(d, path, next)
            &&& forall|x: Directory| #[trigger] presents(x, m2, history) ==> good(x)
            &&& r.manifest.archive ==> forall|k: u64|
                r.manifest.first / r.manifest.segment_bytes <= k < m2.first
                    / r.manifest.segment_bytes ==> #[trigger] after(d, path, t.calls).contains_key(
                    JournalFile::Archive(k),
                )
            &&& counted(after(d, path, t.calls), m2, history)
            &&& untidy(after(d, path, t.calls), r.manifest)
        }),
        forall|x: Directory| #[trigger] presents(x, r.manifest, history) ==> good(x),
    ensures
        ({
            let m2 = advanced(r.manifest, count, archived);
            let (next, r2, result) = chunk_publish_run(t, r, m2, count);
            &&& continues(t, next)
            &&& endured(d, path, t, next, good)
            &&& kept(after(d, path, next.calls), r2, history)
        }),
{
    let m = r.manifest;
    let size = m.segment_bytes;
    let index = m.end / size;
    let m2 = advanced(m, count, archived);
    let (next, r2, result) = chunk_publish_run(t, r, m2, count);
    let d0 = after(d, path, t.calls);
    let mid = performed(t, path, publish_actions(m2)).0;
    let removals = remove_actions(m.first / size, m2.first / size);
    assert(next == performed(mid, path, removals).0);
    lemma_performed_continues(mid, path, removals);
    lemma_witnessed(d, path, mid, next);
    lemma_prepared(d0, r, history, count, archived);
    lemma_publish(d, path, t, m, m2, history, good);
    lemma_advanced(r, count, archived);
    let held = m.end as int % size as int + count;
    let inv = |j: int, x: Directory|
        {
            &&& presents(x, m2, history)
            &&& x.contains_key(JournalFile::Segment(index))
            &&& x[JournalFile::Segment(index)].len() == held
            &&& m.archive ==> forall|k: u64|
                m.first / size <= k < m2.first / size ==> #[trigger] x.contains_key(
                    JournalFile::Archive(k),
                )
            &&& removed_up_to(x, m, m.first / size + j)
        };
    assert(removals.skip(0) =~= removals);
    let d1 = after(d, path, mid.calls);
    assert(inv(0, d1)) by {
        assert(d1.contains_key(JournalFile::Segment(index)));
        lemma_untidy(d0, d1, m);
        if m.archive {
            assert forall|k: u64| m.first / size <= k < m2.first / size implies #[trigger] d1.contains_key(
                JournalFile::Archive(k),
            ) by {
                assert(d0.contains_key(JournalFile::Archive(k)));
            }
        }
    }
    assert forall|j: int, x: Directory|
        0 <= j < removals.len() && #[trigger] inv(j, x) && truthful(
            x,
            removals[j],
            ReplyView::Done,
        ) implies inv(j + 1, effect(x, removals[j])) && endures(x, removals[j], good) by {
        let k = (m.first / size + j) as u64;
        assert(removals[j] == FileActionView::Remove(JournalFile::Segment(k)));
        lemma_leaving(r, count, archived, k as int);
        if m.archive {
            assert(x.contains_key(JournalFile::Archive(k)));
        }
        lemma_remove_segment(x, m2, history, k);
        lemma_removed(x, m, k);
        let y = effect(x, removals[j]);
        if m.archive {
            assert forall|i: u64| m.first / size <= i < m2.first / size implies #[trigger] y.contains_key(
                JournalFile::Archive(i),
            ) by {
                assert(x.contains_key(JournalFile::Archive(i)));
            }
        }
    }
    lemma_performed(d, path, mid, removals, 0, inv, good);
    lemma_continues(t, mid, next);
    lemma_endured(d, path, t, mid, next, good);
    lemma_next_write(m, count);
    lemma_performed_quiet(d, path, t, publish_actions(m2));
    lemma_performed_quiet(d, path, mid, removals);
    lemma_counted_same(d0, d1, m2, history);
    lemma_counted_same(d1, after(d, path, next.calls), m2, history);
    lemma_tidied(after(d, path, next.calls), r, count, archived);
}

/// The transcript after the segment for a chunk was opened.
pub open spec fn chunk_opened(t: Transcript, r: RecorderView) -> Transcript {
    let m = r.manifest;
    if m.end % m.segment_bytes == 0 {
        ask(
            t,
            CallView::Journal(
                r.directory,
                FileActionView::Create(JournalFile::Segment(m.end / m.segment_bytes)),
            ),
        ).0
    } else {
        t
    }
}

/// The transcript after a chunk was written.
pub open spec fn chunk_written(t: Transcript, r: RecorderView, chunk: Seq<u8>) -> Transcript {
    performed(t, r.directory, write_actions(r.manifest, chunk)).0
}

/// The transcript after the segments that leave were archived.
pub open spec fn chunk_archived(t: Transcript, r: RecorderView) -> Transcript {
    let m = r.manifest;
    if m.archive {
        archive_all_run(
            t,
            r.directory,
            m.first / m.segment_bytes,
            advanced(m, 0, 0).first / m.segment_bytes,
            m.segment_bytes,
            m.archived_bytes,
        ).0
    } else {
        t
    }
}

proof fn lemma_chunk_publish_continues(t: Transcript, r: RecorderView, m: Manifest, count: nat)
    requires
        chunk_publish_run(t, r, m, count).2 is Ok,
    ensures
        continues(t, chunk_publish_run(t, r, m, count).0),
{
    let published = performed(t, r.directory, publish_actions(m)).0;
    let removals = remove_actions(r.manifest.first / m.segment_bytes, m.first / m.segment_bytes);
    lemma_performed_continues(t, r.directory, publish_actions(m));
    lemma_performed_continues(published, r.directory, removals);
    lemma_continues(t, published, chunk_publish_run(t, r, m, count).0);
}

proof fn lemma_chunk_write_continues(t: Transcript, r: RecorderView, chunk: Seq<u8>)
    requires
        chunk_write_run(t, r, chunk).2 is Ok,
    ensures
        ({
            let written = chunk_written(t, r, chunk);
            let archived = chunk_archived(written, r);
            let next = chunk_write_run(t, r, chunk).0;
            &&& continues(t, written)
            &&& continues(written, archived)
            &&& continues(archived, next)
            &&& continues(written, next)
            &&& continues(t, archived)
            &&& continues(t, next)
        }),
{
    let m = r.manifest;
    let size = m.segment_bytes;
    let written = chunk_written(t, r, chunk);
    let archived = chunk_archived(written, r);
    let next = chunk_write_run(t, r, chunk).0;
    lemma_performed_continues(t, r.directory, write_actions(m, chunk));
    lemma_ask_continues(written, CallView::Clock);
    let first = advanced(m, 0, 0).first;
    lemma_archive_all_continues(
        written,
        r.directory,
        m.first / size,
        first / size,
        size,
        m.archived_bytes,
    );
    let stored = if m.archive {
        archive_all_run(
            written,
            r.directory,
            m.first / size,
            first / size,
            size,
            m.archived_bytes,
        ).1->Ok_0
    } else {
        m.archived_bytes
    };
    lemma_chunk_publish_continues(archived, r, advanced(m, chunk.len(), stored), chunk.len());
    lemma_continues(t, written, archived);
    lemma_continues(written, archived, next);
    lemma_continues(t, archived, next);
}

pub(crate) proof fn lemma_chunk_continues(t: Transcript, r: RecorderView, bytes: Seq<u8>)
    requires
        chunk_run(t, r, bytes).2 is Ok,
    ensures
        ({
            let opened = chunk_opened(t, r);
            let r1 = RecorderView {
                open: r.open || r.manifest.end % r.manifest.segment_bytes == 0,
                ..r
            };
            let chunk = bytes.take(chunk_length(r.manifest, bytes.len()) as int);
            let next = chunk_run(t, r, bytes).0;
            &&& chunk_write_run(opened, r1, chunk) == chunk_run(t, r, bytes)
            &&& continues(t, opened)
            &&& continues(opened, next)
            &&& continues(t, next)
        }),
{
    let m = r.manifest;
    let opened = chunk_opened(t, r);
    let r1 = RecorderView { open: r.open || m.end % m.segment_bytes == 0, ..r };
    let chunk = bytes.take(chunk_length(m, bytes.len()) as int);
    let next = chunk_run(t, r, bytes).0;
    lemma_ask_continues(
        t,
        CallView::Journal(
            r.directory,
            FileActionView::Create(JournalFile::Segment(m.end / m.segment_bytes)),
        ),
    );
    lemma_chunk_write_continues(opened, r1, chunk);
    lemma_continues(t, opened, next);
}

#[verifier::rlimit(60)]
proof fn lemma_chunk(
    d: Directory,
    path: Seq<char>,
    t: Transcript,
    r: RecorderView,
    history: Seq<u8>,
    bytes: Seq<u8>,
    from: int,
)
    requires
        kept(after(d, path, t.calls), r, history),
        r.directory == path,
        bytes.len() > 0,
        from <= history.len(),
        chunk_run(t, r, bytes).2 is Ok,
        witnessed(d, path, chunk_run(t, r, bytes).0),
        restorable(t, chunk_run(t, r, bytes).0),
    ensures
        ({
            let (next, r2, result) = chunk_run(t, r, bytes);
            let n = result->Ok_0;
            &&& 0 < n <= bytes.len()
            &&& continues(t, next)
            &&& endured(d, path, t, next, recovery(from, history + bytes))
            &&& kept(after(d, path, next.calls), r2, history + bytes.take(n as int))
            &&& r2.directory == path
        }),
{
    let m = r.manifest;
    let size = m.segment_bytes;
    let index = m.end / size;
    let segment = JournalFile::Segment(index);
    let n = chunk_length(m, bytes.len());
    let chunk = bytes.take(n as int);
    let longer = history + chunk;
    let good = recovery(from, history + bytes);
    let path = r.directory;
    let r1 = RecorderView { open: true, ..r };
    assert(r1 == RecorderView { open: r.open || m.end % size == 0, ..r });
    let opened = chunk_opened(t, r);
    let written = chunk_written(opened, r1, chunk);
    let archived = chunk_archived(written, r1);
    let (next, r2, result) = chunk_run(t, r, bytes);
    lemma_chunk_continues(t, r, bytes);
    lemma_chunk_write_continues(opened, r1, chunk);
    lemma_continues(t, opened, written);
    lemma_continues(t, opened, archived);
    lemma_witnessed(d, path, opened, next);
    lemma_witnessed(d, path, written, next);
    lemma_witnessed(d, path, archived, next);
    lemma_restorable_parts(t, written, next);
    lemma_restorable_parts(written, archived, next);
    lemma_index(m);
    let d0 = after(d, path, t.calls);
    lemma_presents_grows(d0, m, history, chunk);
    assert(longer + bytes.skip(n as int) =~= history + bytes);
    assert forall|x: Directory| #[trigger] presents(x, m, longer) implies good(x) by {
        lemma_presents_grows(x, m, longer, bytes.skip(n as int));
    }
    // The segment is open.
    let d1 = after(d, path, opened.calls);
    let offset = m.end as int % size as int;
    if offset == 0 {
        lemma_ask(d, path, t, FileActionView::Create(segment));
        lemma_ask_endured(d, path, t, FileActionView::Create(segment), good);
        lemma_create_segment(d0, m, longer);
    }
    assert(writing(d1, m, longer, offset));
    assert(endured(d, path, t, opened, good));
    // The chunk is written.
    let actions = write_actions(m, chunk);
    lemma_opened(d0, d1, m);
    let inv = |j: int, x: Directory|
        writing(
            x,
            m,
            longer,
            if j == 0 {
                offset
            } else {
                offset + n
            },
        ) && untidy(x, m);
    assert(actions.skip(0) =~= actions);
    assert forall|j: int, x: Directory|
        0 <= j < actions.len() && #[trigger] inv(j, x) && truthful(
            x,
            actions[j],
            ReplyView::Done,
        ) implies inv(j + 1, effect(x, actions[j])) && endures(x, actions[j], good) by {
        if j == 0 {
            assert(chunk.take(chunk.len() as int) =~= chunk);
            lemma_write_segment(x, m, history, chunk, chunk);
            assert(effect(x, actions[j]).dom() =~= x.dom());
            lemma_written_untidy(x, effect(x, actions[j]), m);
            assert forall|k: int| 0 <= k <= chunk.len() implies good(
                #[trigger] effect(x, FileActionView::Write(segment, chunk.take(k))),
            ) by {
                lemma_write_segment(x, m, history, chunk, chunk.take(k));
            }
        }
    }
    lemma_performed(d, path, opened, actions, 0, inv, good);
    lemma_endured(d, path, t, opened, written, good);
    // What leaves is archived.
    let d2 = after(d, path, written.calls);
    assert(inv(2, d2));
    let first = advanced(m, 0, 0).first;
    let stored = if m.archive {
        archive_all_run(
            written,
            path,
            m.first / size,
            first / size,
            size,
            m.archived_bytes,
        ).1->Ok_0
    } else {
        m.archived_bytes
    };
    if m.archive {
        lemma_archive_all(
            d,
            path,
            written,
            m,
            longer,
            offset + n,
            m.first / size,
            first / size,
            m.archived_bytes,
            good,
        );
        lemma_endured(d, path, t, written, archived, good);
    }
    // The manifest is published, and what leaves is removed.
    let m2 = advanced(m, n, stored);
    assert forall|x: Directory| #[trigger] presents(x, m2, longer) implies good(x) by {
        lemma_presents_grows(x, m2, longer, bytes.skip(n as int));
    }
    lemma_untidy(d2, after(d, path, archived.calls), m);
    lemma_performed_quiet(d, path, opened, actions);
    lemma_counted_same(d0, d1, m, history);
    lemma_counted_same(d1, d2, m, history);
    lemma_counted(d2, after(d, path, archived.calls), r1, history, chunk, stored);
    lemma_chunk_publish(d, path, archived, r1, n, stored, longer, good);
    lemma_endured(d, path, t, archived, next, good);
}

pub(crate) proof fn lemma_chunks_continues(t: Transcript, r: RecorderView, bytes: Seq<u8>)
    requires
        chunks_run(t, r, bytes).2 is Ok,
    ensures
        continues(t, chunks_run(t, r, bytes).0),
    decreases bytes.len(),
{
    lemma_ask_continues(t, CallView::Clock);
    if bytes.len() > 0 {
        let (mid, r1, recorded) = chunk_run(t, r, bytes);
        lemma_chunk_continues(t, r, bytes);
        let count = recorded->Ok_0;
        if 0 < count <= bytes.len() {
            lemma_chunks_continues(mid, r1, bytes.skip(count as int));
            lemma_continues(t, mid, chunks_run(t, r, bytes).0);
        }
    }
}

#[verifier::rlimit(60)]
proof fn lemma_chunks(
    d: Directory,
    path: Seq<char>,
    t: Transcript,
    r: RecorderView,
    history: Seq<u8>,
    bytes: Seq<u8>,
    from: int,
)
    requires
        kept(after(d, path, t.calls), r, history),
        r.directory == path,
        from <= history.len(),
        chunks_run(t, r, bytes).2 is Ok,
        witnessed(d, path, chunks_run(t, r, bytes).0),
        restorable(t, chunks_run(t, r, bytes).0),
    ensures
        ({
            let (next, r2, result) = chunks_run(t, r, bytes);
            &&& continues(t, next)
            &&& endured(d, path, t, next, recovery(from, history + bytes))
            &&& kept(after(d, path, next.calls), r2, history + bytes)
            &&& r2.directory == path
        }),
    decreases bytes.len(),
{
    let next = chunks_run(t, r, bytes).0;
    lemma_chunks_continues(t, r, bytes);
    if bytes.len() == 0 {
        assert(history + bytes =~= history);
    } else {
        let (mid, r1, recorded) = chunk_run(t, r, bytes);
        let n = recorded->Ok_0 as int;
        lemma_chunk_continues(t, r, bytes);
        lemma_index(r.manifest);
        let rest = bytes.skip(n);
        lemma_chunks_continues(mid, r1, rest);
        lemma_witnessed(d, path, mid, next);
        lemma_restorable_parts(t, mid, next);
        lemma_chunk(d, path, t, r, history, bytes, from);
        assert((history + bytes.take(n)) + rest =~= history + bytes);
        lemma_chunks(d, path, mid, r1, history + bytes.take(n), rest, from);
        lemma_endured(d, path, t, mid, next, recovery(from, history + bytes));
    }
}

/// An append that succeeds on a faithful file system adds exactly its bytes to
/// what is recorded and published. And wherever the recorder stops in between,
/// even within a write, the directory still gives back at least everything that
/// was recorded before, and nothing that was not written.
pub proof fn append_records(
    d: Directory,
    t: Transcript,
    r: RecorderView,
    history: Seq<u8>,
    bytes: Seq<u8>,
)
    requires
        kept(after(d, r.directory, t.calls), r, history),
        append_run(t, r, bytes).2 is Ok,
        witnessed(d, r.directory, append_run(t, r, bytes).0),
        restorable(t, append_run(t, r, bytes).0),
    ensures
        ({
            let (next, r2, result) = append_run(t, r, bytes);
            &&& kept(after(d, r.directory, next.calls), r2, history + bytes)
            &&& endured(
                d,
                r.directory,
                t,
                next,
                recovery(history.len() as int, history + bytes),
            )
        }),
{
    lemma_chunks(d, r.directory, t, r, history, bytes, history.len() as int);
}

/// A journal that was created in a directory without files is empty, and nothing
/// but its manifest is in it.
pub proof fn create_records_nothing(
    t: Transcript,
    directory: Seq<char>,
    d: Directory,
    segment_bytes: u64,
    retained: u64,
    archive: bool,
)
    requires
        after(d, directory, t.calls) == Map::<JournalFile, Seq<u8>>::empty(),
        create_run(t, directory, segment_bytes, retained, archive).1 is Ok,
        witnessed(d, directory, create_run(t, directory, segment_bytes, retained, archive).0),
    ensures
        ({
            let (next, r) = create_run(t, directory, segment_bytes, retained, archive);
            let e = after(d, directory, next.calls);
            &&& kept(e, r->Ok_0, Seq::empty())
            &&& forall|file: JournalFile| #[trigger] e.contains_key(file) ==> file is Manifest
        }),
{
    let m = empty_manifest(segment_bytes, retained, archive);
    let text = encode_utf8(manifest_text(m));
    let pending = JournalFile::ManifestPending;
    let actions = Seq::<FileActionView>::empty().push(FileActionView::MakeDirectory)
        + publish_actions(m);
    let (next, r) = create_run(t, directory, segment_bytes, retained, archive);
    let good = |x: Directory| true;
    let inv = |j: int, x: Directory|
        {
            &&& j < 2 ==> forall|file: JournalFile| !#[trigger] x.contains_key(file)
            &&& j >= 2 && j < 5 ==> forall|file: JournalFile| #[trigger]
                x.contains_key(file) <==> file == pending
            &&& j == 2 ==> x[pending] == Seq::<u8>::empty()
            &&& j == 3 || j == 4 ==> x[pending] == text
            &&& j >= 5 ==> x[JournalFile::Manifest] == text
            &&& j >= 5 ==> forall|file: JournalFile| #[trigger]
                x.contains_key(file) <==> file is Manifest
        };
    assert(actions.skip(0) =~= actions);
    assert forall|j: int, x: Directory|
        0 <= j < actions.len() && #[trigger] inv(j, x) && truthful(
            x,
            actions[j],
            ReplyView::Done,
        ) implies inv(j + 1, effect(x, actions[j])) && endures(x, actions[j], good) by {
        let y = effect(x, actions[j]);
        if j > 0 {
            assert(actions[j] == publish_actions(m)[j - 1]);
        }
        if j == 2 {
            assert(Seq::<u8>::empty() + text =~= text);
        }
        assert(inv(j + 1, y));
    }
    lemma_performed(d, directory, t, actions, 0, inv, good);
    let e = after(d, directory, next.calls);
    assert(e.contains_key(JournalFile::Manifest));
    assert(0 <= segment_bytes * retained) by (nonlinear_arith);
    lemma_kept(m, 0);
    assert(tidy(e, m)) by {
        reveal(tidy);
        assert forall|i: u64| !#[trigger] e.contains_key(JournalFile::Segment(i)) && 0 <= i
            * segment_bytes by {
            assert(0 <= i * segment_bytes) by (nonlinear_arith);
        }
    }
    assert(counted(e, m, Seq::empty())) by {
        reveal(counted);
        assert(m.first as int / segment_bytes as int == 0) by (nonlinear_arith)
            requires
                m.first == 0,
                segment_bytes > 0,
        ;
        assert forall|i: u64| !#[trigger] e.contains_key(JournalFile::Archive(i)) by {}
    }
    assert forall|i: u64| #[trigger] needed(m, i) implies available(e, m, i) by {
        assert(0 <= i * segment_bytes) by (nonlinear_arith);
    }
}

/// Closing publishes the end of the stream and changes nothing of what was recorded.
pub proof fn close_publishes_the_end(
    d: Directory,
    t: Transcript,
    r: RecorderView,
    history: Seq<u8>,
)
    requires
        kept(after(d, r.directory, t.calls), r, history),
        ({
            let m = Manifest { closed: true, ..r.manifest };
            let (next, result) = performed(t, r.directory, publish_actions(m));
            result is Ok && witnessed(d, r.directory, next)
        }),
    ensures
        ({
            let m = Manifest { closed: true, ..r.manifest };
            let next = performed(t, r.directory, publish_actions(m)).0;
            &&& presents(after(d, r.directory, next.calls), m, history)
            &&& endured(
                d,
                r.directory,
                t,
                next,
                recovery(history.len() as int, history),
            )
        }),
{
    let m = Manifest { closed: true, ..r.manifest };
    let d0 = after(d, r.directory, t.calls);
    let good = recovery(history.len() as int, history);
    let e = d0.insert(JournalFile::Manifest, encode_utf8(manifest_text(m)));
    assert(prepared(d0, m, history)) by {
        assert forall|i: u64| #[trigger] e.contains_key(JournalFile::Segment(i)) implies segment_faithful(
            e,
            m.segment_bytes,
            history,
            i,
        ) by {
            assert(d0.contains_key(JournalFile::Segment(i)));
        }
        assert forall|i: u64| #[trigger] e.contains_key(JournalFile::Archive(i)) implies archive_faithful(
            e,
            m.segment_bytes,
            history,
            i,
        ) by {
            assert(d0.contains_key(JournalFile::Archive(i)));
        }
        assert forall|i: u64| #[trigger] needed(m, i) implies available(e, m, i) by {
            assert(needed(r.manifest, i));
            assert(available(d0, r.manifest, i));
        }
    }
    assert forall|x: Directory| #[trigger] presents(x, m, history) implies good(x) by {}
    assert forall|x: Directory| #[trigger] presents(x, r.manifest, history) implies good(x) by {}
    lemma_publish(d, r.directory, t, r.manifest, m, history, good);
}

/// Recorded output is kept within bounds: not more than the retained segments
/// hold is in use, and all of the output, or more than all of them but one hold, can
/// be read from them. What is kept begins with a segment.
pub proof fn recent_output_is_kept(r: RecorderView)
    requires
        recording(r),
    ensures
        ({
            let m = r.manifest;
            &&& m.first % m.segment_bytes == 0
            &&& m.end - m.first <= m.segment_bytes * m.retained_segments
            &&& m.first > 0 ==> m.end - m.first > m.segment_bytes * (m.retained_segments - 1)
        }),
{
    let m = r.manifest;
    let size = m.segment_bytes as int;
    let spared = m.retained_segments - 1;
    if m.first > 0 {
        let index = (m.end - 1) / size;
        vstd::arithmetic::div_mod::lemma_fundamental_div_mod(m.end - 1, size);
        assert(m.end - (index - spared) * size > size * spared) by (nonlinear_arith)
            requires
                m.end - 1 == size * index + (m.end - 1) % size,
                (m.end - 1) % size >= 0,
        ;
    }
}

/// A journal whose end was published takes nothing more: an append fails and makes
/// no call.
pub proof fn a_closed_journal_takes_nothing(t: Transcript, r: RecorderView, bytes: Seq<u8>)
    requires
        r.manifest.closed,
    ensures
        append_run(t, r, bytes).0 == t,
        append_run(t, r, bytes).1 == r,
        append_run(t, r, bytes).2 is Err,
{
}

} // verus!
