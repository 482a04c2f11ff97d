//! What a journal occupies and what is kept of it, however its bytes were handed in.

use crate::host::{
    ask, continues, lemma_ask_continues, lemma_continues, CallView, FileActionView, IoHalt,
    JournalFile, Transcript,
};
use crate::journal::format_laws::manifest_round_trip;
use crate::journal::laws::{
    action_of, after, append_records, archive_of, archives_size, counted, kept, available,
    lemma_chunk_continues, lemma_chunks_continues, lemma_witnessed, needed, presents,
    segment_faithful, tidy, recent_output_is_kept, truthful, witnessed, Directory,
};
use crate::journal::reader::{
    attempts_run, copy_run, page_end, page_of, page_start, part_run, read_archive_run, read_run,
};
use crate::journal::reading_laws::{
    answered, lemma_answered, lemma_answered_ask, lemma_attempts_continues, lemma_copy,
    lemma_copy_continues, lemma_part_continues, legible, published_history_is_readable, observed,
    overheard,
};
use crate::journal::recorder::{
    append_run, chunk_run, chunks_run, first_kept, restorable, RecorderView,
};
use crate::journal::{
    manifest_run, not_found, retained_storage_run, Manifest, OutputPageView, MAX_PAGE_BYTES,
};
use vstd::prelude::*;

verus! {

// ---------------------------------------------------------------------------
// What is counted
// ---------------------------------------------------------------------------

/// The size of the archives of the first `n` segments in a directory.
pub open spec fn stored_archives(d: Directory, n: int) -> nat
    decreases n,
{
    if n <= 0 {
        0
    } else {
        stored_archives(d, n - 1) + d[JournalFile::Archive((n - 1) as u64)].len()
    }
}

proof fn lemma_archives_last(history: Seq<u8>, size: u64, from: int, to: int)
    requires
        from < to,
    ensures
        archives_size(history, size, from, to) == archives_size(history, size, from, to - 1)
            + archive_of(history, size, (to - 1) as u64).len(),
    decreases to - from,
{
    if from + 1 < to {
        lemma_archives_last(history, size, from + 1, to);
    } else {
        assert(archives_size(history, size, to, to) == 0);
        assert(archives_size(history, size, from, from) == 0);
    }
}

proof fn lemma_stored(d: Directory, history: Seq<u8>, size: u64, n: int)
    requires
        n <= u64::MAX,
        forall|i: u64| i < n ==> #[trigger] d[JournalFile::Archive(i)] == archive_of(history, size, i),
    ensures
        stored_archives(d, n) == archives_size(history, size, 0, n),
    decreases n,
{
    if n > 0 {
        lemma_stored(d, history, size, n - 1);
        lemma_archives_last(history, size, 0, n);
        assert(d[JournalFile::Archive((n - 1) as u64)] == archive_of(
            history,
            size,
            (n - 1) as u64,
        ));
    }
}

/// A journal that keeps everything has an archive of exactly each segment that has
/// left, and its manifest counts what these archives occupy. One that does not has no
/// archives and counts none.
pub proof fn archives_are_counted(d: Directory, r: RecorderView, history: Seq<u8>)
    requires
        kept(d, r, history),
    ensures
        ({
            let m = r.manifest;
            let left = if m.archive {
                m.first as int / m.segment_bytes as int
            } else {
                0
            };
            &&& forall|i: u64| #[trigger] d.contains_key(JournalFile::Archive(i)) <==> i < left
            &&& m.archived_bytes == stored_archives(d, left)
        }),
{
    reveal(counted);
    let m = r.manifest;
    if m.archive {
        vstd::arithmetic::div_mod::lemma_div_is_ordered_by_denominator(
            m.first as int,
            1,
            m.segment_bytes as int,
        );
        lemma_stored(d, history, m.segment_bytes, m.first as int / m.segment_bytes as int);
    }
}

/// A manifest that is read from a directory is the one that it presents.
proof fn lemma_manifest(
    d: Directory,
    m: Manifest,
    history: Seq<u8>,
    path: Seq<char>,
    t: Transcript,
    last: Transcript,
)
    requires
        presents(d, m, history),
        continues(manifest_run(t, path).0, last),
        answered(d, path, t, last),
    ensures
        manifest_run(t, path).1 == Ok::<Manifest, IoHalt>(m),
{
    let action = FileActionView::ReadStart(JournalFile::Manifest, 257);
    lemma_answered_ask(d, path, t, action, last);
    manifest_round_trip(m);
}

/// The storage that is reported is that of the archives and of the published output
/// that is not archived.
pub proof fn the_storage_counter_is_exact(
    d: Directory,
    r: RecorderView,
    history: Seq<u8>,
    path: Seq<char>,
    t: Transcript,
)
    requires
        kept(d, r, history),
        answered(d, path, t, retained_storage_run(t, path).0),
    ensures
        ({
            let m = r.manifest;
            let left = if m.archive {
                m.first as int / m.segment_bytes as int
            } else {
                0
            };
            let total = stored_archives(d, left) + (history.len() - m.first);
            match retained_storage_run(t, path).1 {
                Ok(bytes) => bytes == total,
                Err(_) => total > u64::MAX,
            }
        }),
{
    let last = retained_storage_run(t, path).0;
    lemma_ask_continues(last, CallView::Clock);
    lemma_manifest(d, r.manifest, history, path, t, last);
    archives_are_counted(d, r, history);
}

// ---------------------------------------------------------------------------
// What is read
// ---------------------------------------------------------------------------

proof fn lemma_read_once(
    d: Directory,
    m: Manifest,
    history: Seq<u8>,
    path: Seq<char>,
    t: Transcript,
    cursor: u64,
    limit: usize,
    attempts: nat,
)
    requires
        presents(d, m, history),
        0 < limit,
        answered(d, path, t, attempts_run(t, path, cursor, limit, attempts).0),
        attempts_run(t, path, cursor, limit, attempts).1 is Ok,
    ensures
        cursor <= m.end,
        attempts_run(t, path, cursor, limit, attempts).1->Ok_0 == page_of(
            m,
            cursor,
            history.subrange(page_start(m, cursor) as int, page_end(m, cursor, limit)),
        ),
    decreases attempts,
{
    let last = attempts_run(t, path, cursor, limit, attempts).0;
    let (t1, r) = manifest_run(t, path);
    let x = r->Ok_0;
    let start = page_start(x, cursor) as int;
    let end = page_end(x, cursor, limit);
    let (t2, copied) = copy_run(t1, path, x, start, end, Seq::empty());
    lemma_ask_continues(
        t,
        CallView::Journal(path, FileActionView::ReadStart(JournalFile::Manifest, 257)),
    );
    lemma_copy_continues(t1, path, x, start, end, Seq::empty());
    lemma_attempts_continues(t2, path, cursor, limit, (attempts - 1) as nat);
    lemma_ask_continues(t2, CallView::Clock);
    lemma_continues(t1, t2, last);
    lemma_continues(t, t1, t2);
    lemma_manifest(d, m, history, path, t, last);
    assert(x == m);
    lemma_answered(d, path, t, t1, last);
    lemma_answered(d, path, t1, t2, last);
    if copied->Ok_0 is Some {
        assert(overheard(m.segment_bytes, history, path, t1, t2)) by {
            assert forall|i: int|
                t1.calls.len() <= i < t2.calls.len() && i < t2.replies.len() implies observed(
                m.segment_bytes,
                history,
                action_of(path, #[trigger] t2.calls[i]),
                t2.replies[i],
            ) by {
                assert(presents(d, m, history) && truthful(
                    d,
                    action_of(path, t2.calls[i]),
                    t2.replies[i],
                ));
            }
        }
        assert(history.subrange(start, start) =~= Seq::empty());
        lemma_copy(m.segment_bytes, history, path, t1, m, start, start, end, Seq::empty());
    } else {
        lemma_read_once(d, m, history, path, t2, cursor, limit, (attempts - 1) as nat);
    }
}

/// A page that is read from a directory is determined by the manifest that it presents
/// and the bytes that were recorded. A cursor behind the end is refused.
pub proof fn pages_are_determined(
    d: Directory,
    m: Manifest,
    history: Seq<u8>,
    path: Seq<char>,
    t: Transcript,
    cursor: u64,
    limit: usize,
)
    requires
        presents(d, m, history),
        answered(d, path, t, read_run(t, path, cursor, limit).0),
    ensures
        read_run(t, path, cursor, limit).1 matches Ok(page) ==> cursor <= m.end && page == page_of(
            m,
            cursor,
            history.subrange(page_start(m, cursor) as int, page_end(m, cursor, limit)),
        ),
        cursor > m.end ==> read_run(t, path, cursor, limit).1 is Err,
{
    if read_run(t, path, cursor, limit).1 is Ok {
        lemma_read_once(d, m, history, path, t, cursor, limit, 3);
    }
}

/// What is read after an append: the page tells the whole length that was recorded. A
/// journal that keeps everything has no gap and begins at the start, however much was
/// written. One that does not begins with a segment, keeps no more than its segments
/// hold, and if anything has left, more than all of them but one hold.
pub proof fn pages_tell_what_is_kept(
    d: Directory,
    t: Transcript,
    r: RecorderView,
    history: Seq<u8>,
    bytes: Seq<u8>,
    reading: Transcript,
    cursor: u64,
    limit: usize,
)
    requires
        kept(after(d, r.directory, t.calls), r, history),
        append_run(t, r, bytes).2 is Ok,
        witnessed(d, r.directory, append_run(t, r, bytes).0),
        restorable(t, append_run(t, r, bytes).0),
        answered(
            after(d, r.directory, append_run(t, r, bytes).0.calls),
            r.directory,
            reading,
            read_run(reading, r.directory, cursor, limit).0,
        ),
        read_run(reading, r.directory, cursor, limit).1 is Ok,
    ensures
        ({
            let page = read_run(reading, r.directory, cursor, limit).1->Ok_0;
            let m = r.manifest;
            let size = m.segment_bytes as int;
            let in_use = page.high_watermark - page.earliest_cursor;
            &&& page.high_watermark == history.len() + bytes.len()
            &&& m.archive ==> page.earliest_cursor == 0 && !page.history_gap
            &&& !m.archive ==> {
                &&& page.earliest_cursor as int % size == 0
                &&& in_use <= size * m.retained_segments
                &&& page.earliest_cursor > 0 ==> in_use > size * (m.retained_segments - 1)
            }
        }),
{
    append_records(d, t, r, history, bytes);
    let (next, r2, result) = append_run(t, r, bytes);
    lemma_configuration(t, r, bytes);
    recent_output_is_kept(r2);
    pages_are_determined(
        after(d, r.directory, next.calls),
        r2.manifest,
        history + bytes,
        r.directory,
        reading,
        cursor,
        limit,
    );
}

/// Output that is not archived can always be read, whatever the archives are like: all
/// that a journal without archives keeps, and the most recent output of any other. The
/// page begins at the cursor, or where what is kept begins, and reaches as far as the
/// limit and the output do.
pub proof fn recent_output_is_readable(
    d: Directory,
    r: RecorderView,
    history: Seq<u8>,
    path: Seq<char>,
    t: Transcript,
    cursor: u64,
    limit: usize,
)
    requires
        kept(d, r, history),
        r.manifest.archive ==> r.manifest.first <= cursor,
        cursor <= history.len(),
        0 < limit <= MAX_PAGE_BYTES,
        answered(d, path, t, read_run(t, path, cursor, limit).0),
    ensures
        ({
            let m = r.manifest;
            read_run(t, path, cursor, limit).1 == Ok::<OutputPageView, IoHalt>(
                page_of(
                    m,
                    cursor,
                    history.subrange(page_start(m, cursor) as int, page_end(m, cursor, limit)),
                ),
            )
        }),
{
    let m = r.manifest;
    let size = m.segment_bytes as int;
    let start = page_start(m, cursor) as int;
    assert(legible(d, m.segment_bytes, start, page_end(m, cursor, limit))) by {
        reveal(tidy);
        vstd::arithmetic::div_mod::lemma_div_is_ordered(m.first as int, start, size);
        assert forall|i: u64|
            start / size <= i && i * size < page_end(m, cursor, limit) && #[trigger] d.contains_key(
                JournalFile::Archive(i),
            ) implies d.contains_key(JournalFile::Segment(i)) by {}
    }
    published_history_is_readable(d, m, history, path, t, cursor, limit);
}

// ---------------------------------------------------------------------------
// However the bytes were handed in
// ---------------------------------------------------------------------------

/// Two manifests of journals that were made alike.
pub open spec fn alike(a: Manifest, b: Manifest) -> bool {
    &&& a.segment_bytes == b.segment_bytes
    &&& a.retained_segments == b.retained_segments
    &&& a.archive == b.archive
    &&& a.closed == b.closed
}

/// Appending keeps how a journal was made.
proof fn lemma_configuration(t: Transcript, r: RecorderView, bytes: Seq<u8>)
    requires
        append_run(t, r, bytes).2 is Ok,
    ensures
        alike(append_run(t, r, bytes).1.manifest, r.manifest),
        append_run(t, r, bytes).1.directory == r.directory,
        continues(t, append_run(t, r, bytes).0),
{
    lemma_chunks_configuration(t, r, bytes);
    lemma_chunks_continues(t, r, bytes);
}

proof fn lemma_chunks_configuration(t: Transcript, r: RecorderView, bytes: Seq<u8>)
    requires
        chunks_run(t, r, bytes).2 is Ok,
    ensures
        alike(chunks_run(t, r, bytes).1.manifest, r.manifest),
        chunks_run(t, r, bytes).1.directory == r.directory,
    decreases bytes.len(),
{
    if bytes.len() > 0 {
        let (mid, r1, recorded) = chunk_run(t, r, bytes);
        lemma_chunk_continues(t, r, bytes);
        let count = recorded->Ok_0;
        if 0 < count <= bytes.len() {
            lemma_chunks_configuration(mid, r1, bytes.skip(count as int));
        }
    }
}

/// The manifest of a journal is determined by how it was made and by what was recorded.
pub proof fn manifests_are_determined(
    d1: Directory,
    r1: RecorderView,
    d2: Directory,
    r2: RecorderView,
    history: Seq<u8>,
)
    requires
        kept(d1, r1, history),
        kept(d2, r2, history),
        alike(r1.manifest, r2.manifest),
    ensures
        r1.manifest == r2.manifest,
{
    reveal(counted);
    assert(first_kept(r1.manifest) == first_kept(r2.manifest));
}

/// Two appends leave a journal that reads like the one that an append of the joined
/// bytes leaves: both hold the same bytes under the same manifest, in the same files. So
/// for every cursor and limit both reads give the same page or both fail in the same
/// way, and the same storage is reported.
pub proof fn two_appends_are_one(
    d1: Directory,
    t1: Transcript,
    r1: RecorderView,
    d2: Directory,
    t2: Transcript,
    r2: RecorderView,
    history: Seq<u8>,
    x: Seq<u8>,
    y: Seq<u8>,
    u1: Transcript,
    u2: Transcript,
    cursor: u64,
    limit: usize,
)
    requires
        kept(after(d1, r1.directory, t1.calls), r1, history),
        kept(after(d2, r2.directory, t2.calls), r2, history),
        alike(r1.manifest, r2.manifest),
        append_run(t1, r1, x).2 is Ok,
        ({
            let (mid, ra, _) = append_run(t1, r1, x);
            let (next, rb, second) = append_run(mid, ra, y);
            &&& second is Ok
            &&& witnessed(d1, r1.directory, next)
            &&& restorable(t1, mid)
            &&& restorable(mid, next)
        }),
        append_run(t2, r2, x + y).2 is Ok,
        witnessed(d2, r2.directory, append_run(t2, r2, x + y).0),
        restorable(t2, append_run(t2, r2, x + y).0),
    ensures
        ({
            let (mid, ra, _) = append_run(t1, r1, x);
            let (next1, one, _) = append_run(mid, ra, y);
            let (next2, two, _) = append_run(t2, r2, x + y);
            let e1 = after(d1, r1.directory, next1.calls);
            let e2 = after(d2, r2.directory, next2.calls);
            &&& kept(e1, one, history + (x + y))
            &&& kept(e2, two, history + (x + y))
            &&& one.manifest == two.manifest
            &&& same_files(e1, e2)
            &&& answered(e1, r1.directory, u1, read_run(u1, r1.directory, cursor, limit).0)
                && answered(e2, r2.directory, u2, read_run(u2, r2.directory, cursor, limit).0)
                ==> read_run(u1, r1.directory, cursor, limit).1 == read_run(
                u2,
                r2.directory,
                cursor,
                limit,
            ).1
            &&& answered(e1, r1.directory, u1, retained_storage_run(u1, r1.directory).0)
                && answered(e2, r2.directory, u2, retained_storage_run(u2, r2.directory).0)
                ==> retained_storage_run(u1, r1.directory).1 == retained_storage_run(
                u2,
                r2.directory,
            ).1
        }),
{
    let (mid, ra, _) = append_run(t1, r1, x);
    let next = append_run(mid, ra, y).0;
    lemma_configuration(t1, r1, x);
    lemma_configuration(mid, ra, y);
    lemma_configuration(t2, r2, x + y);
    lemma_witnessed(d1, r1.directory, mid, next);
    append_records(d1, t1, r1, history, x);
    append_records(d1, mid, ra, history + x, y);
    append_records(d2, t2, r2, history, x + y);
    assert((history + x) + y =~= history + (x + y));
    manifests_are_determined(
        after(d1, r1.directory, next.calls),
        append_run(mid, ra, y).1,
        after(d2, r2.directory, append_run(t2, r2, x + y).0.calls),
        append_run(t2, r2, x + y).1,
        history + (x + y),
    );
    let e1 = after(d1, r1.directory, next.calls);
    let e2 = after(d2, r2.directory, append_run(t2, r2, x + y).0.calls);
    let one = append_run(mid, ra, y).1;
    let two = append_run(t2, r2, x + y).1;
    files_are_determined(e1, one, e2, two, history + (x + y));
    equal_journals_read_alike(e1, one, u1, e2, two, u2, history + (x + y), cursor, limit);
}

/// The directories have the same manifest, segments and archives.
pub open spec fn same_files(a: Directory, b: Directory) -> bool {
    &&& a.contains_key(JournalFile::Manifest) && b.contains_key(JournalFile::Manifest)
    &&& a[JournalFile::Manifest] == b[JournalFile::Manifest]
    &&& forall|i: u64| #[trigger]
        a.contains_key(JournalFile::Segment(i)) == b.contains_key(JournalFile::Segment(i)) && (
        a.contains_key(JournalFile::Segment(i)) ==> a[JournalFile::Segment(i)]
            == b[JournalFile::Segment(i)])
    &&& forall|i: u64| #[trigger]
        a.contains_key(JournalFile::Archive(i)) == b.contains_key(JournalFile::Archive(i)) && (
        a.contains_key(JournalFile::Archive(i)) ==> a[JournalFile::Archive(i)]
            == b[JournalFile::Archive(i)])
}

/// The files of a journal are determined by how it was made and by what was recorded.
pub proof fn files_are_determined(
    d1: Directory,
    r1: RecorderView,
    d2: Directory,
    r2: RecorderView,
    history: Seq<u8>,
)
    requires
        kept(d1, r1, history),
        kept(d2, r2, history),
        alike(r1.manifest, r2.manifest),
    ensures
        same_files(d1, d2),
{
    manifests_are_determined(d1, r1, d2, r2, history);
    let m = r1.manifest;
    let size = m.segment_bytes as int;
    assert forall|i: u64| #[trigger] d1.contains_key(JournalFile::Segment(i)) == d2.contains_key(
        JournalFile::Segment(i),
    ) && (d1.contains_key(JournalFile::Segment(i)) ==> d1[JournalFile::Segment(i)]
        == d2[JournalFile::Segment(i)]) by {
        reveal(tidy);
        assert(d1.contains_key(JournalFile::Segment(i)) == d2.contains_key(
            JournalFile::Segment(i),
        ));
        if d1.contains_key(JournalFile::Segment(i)) {
            let from = m.first as int / size;
            vstd::arithmetic::div_mod::lemma_fundamental_div_mod(m.first as int, size);
            assert(m.first <= i * size) by (nonlinear_arith)
                requires
                    m.first == size * from,
                    from <= i,
                    size > 0,
            ;
            assert(needed(m, i));
            assert(available(d1, m, i) && available(d2, m, i));
            assert(segment_faithful(d1, m.segment_bytes, history, i));
            assert(segment_faithful(d2, m.segment_bytes, history, i));
            assert(d1[JournalFile::Segment(i)].len() == d2[JournalFile::Segment(i)].len());
        }
    }
    assert forall|i: u64| #[trigger] d1.contains_key(JournalFile::Archive(i)) == d2.contains_key(
        JournalFile::Archive(i),
    ) && (d1.contains_key(JournalFile::Archive(i)) ==> d1[JournalFile::Archive(i)]
        == d2[JournalFile::Archive(i)]) by {
        reveal(counted);
        if d1.contains_key(JournalFile::Archive(i)) {
            assert(d1[JournalFile::Archive(i)] == archive_of(history, m.segment_bytes, i));
            assert(d2[JournalFile::Archive(i)] == archive_of(history, m.segment_bytes, i));
        }
        assert(d2.contains_key(JournalFile::Archive(i)) == d1.contains_key(
            JournalFile::Archive(i),
        ));
    }
}

proof fn lemma_archive_alike(
    d1: Directory,
    path1: Seq<char>,
    t1: Transcript,
    d2: Directory,
    path2: Seq<char>,
    t2: Transcript,
    index: u64,
    size: u64,
)
    requires
        same_files(d1, d2),
        answered(d1, path1, t1, read_archive_run(t1, path1, index, size).0),
        answered(d2, path2, t2, read_archive_run(t2, path2, index, size).0),
    ensures
        ({
            let a = read_archive_run(t1, path1, index, size).1;
            let b = read_archive_run(t2, path2, index, size).1;
            ||| a == b
            ||| a is Err && b is Err && not_found(a->Err_0) && not_found(b->Err_0)
        }),
{
    let file = JournalFile::Archive(index);
    let length = FileActionView::Length(file);
    let whole = FileActionView::ReadStart(file, u64::MAX);
    let last1 = read_archive_run(t1, path1, index, size).0;
    let last2 = read_archive_run(t2, path2, index, size).0;
    let u1 = ask(t1, CallView::Journal(path1, length)).0;
    let u2 = ask(t2, CallView::Journal(path2, length)).0;
    lemma_ask_continues(u1, CallView::Journal(path1, whole));
    lemma_ask_continues(u2, CallView::Journal(path2, whole));
    lemma_answered_ask(d1, path1, t1, length, last1);
    lemma_answered_ask(d2, path2, t2, length, last2);
    assert(d1.contains_key(file) == d2.contains_key(file));
    if d1.contains_key(file) && d1[file].len() <= size * 2 + 512 {
        let v1 = ask(u1, CallView::Journal(path1, whole)).0;
        let v2 = ask(u2, CallView::Journal(path2, whole)).0;
        assert(last1 == v1 && last2 == v2);
        lemma_ask_continues(v1, CallView::Clock);
        lemma_ask_continues(v2, CallView::Clock);
        lemma_answered_ask(d1, path1, u1, whole, last1);
        lemma_answered_ask(d2, path2, u2, whole, last2);
    }
}

proof fn lemma_part_alike(
    d1: Directory,
    path1: Seq<char>,
    t1: Transcript,
    d2: Directory,
    path2: Seq<char>,
    t2: Transcript,
    m: Manifest,
    index: u64,
    offset: u64,
    count: u64,
)
    requires
        same_files(d1, d2),
        answered(d1, path1, t1, part_run(t1, path1, m, index, offset, count).0),
        answered(d2, path2, t2, part_run(t2, path2, m, index, offset, count).0),
    ensures
        part_run(t1, path1, m, index, offset, count).1 == part_run(
            t2,
            path2,
            m,
            index,
            offset,
            count,
        ).1,
{
    let file = JournalFile::Segment(index);
    let action = FileActionView::ReadAt(file, offset, count);
    let last1 = part_run(t1, path1, m, index, offset, count).0;
    let last2 = part_run(t2, path2, m, index, offset, count).0;
    let u1 = ask(t1, CallView::Journal(path1, action)).0;
    let u2 = ask(t2, CallView::Journal(path2, action)).0;
    lemma_ask_continues(u1, CallView::Clock);
    lemma_ask_continues(u2, CallView::Clock);
    lemma_archive_read_continues(u1, path1, index, m.segment_bytes);
    lemma_archive_read_continues(u2, path2, index, m.segment_bytes);
    lemma_answered_ask(d1, path1, t1, action, last1);
    lemma_answered_ask(d2, path2, t2, action, last2);
    assert(d1.contains_key(file) == d2.contains_key(file));
    if !d1.contains_key(file) && m.archive {
        lemma_archive_alike(d1, path1, u1, d2, path2, u2, index, m.segment_bytes);
    }
}

proof fn lemma_archive_read_continues(t: Transcript, path: Seq<char>, index: u64, size: u64)
    ensures
        continues(t, read_archive_run(t, path, index, size).0),
{
    let length = CallView::Journal(path, FileActionView::Length(JournalFile::Archive(index)));
    let whole = CallView::Journal(
        path,
        FileActionView::ReadStart(JournalFile::Archive(index), u64::MAX),
    );
    let u = ask(t, length).0;
    lemma_ask_continues(t, length);
    lemma_ask_continues(u, whole);
    lemma_continues(t, u, ask(u, whole).0);
}

proof fn lemma_copy_alike(
    d1: Directory,
    path1: Seq<char>,
    t1: Transcript,
    d2: Directory,
    path2: Seq<char>,
    t2: Transcript,
    m: Manifest,
    at: int,
    end: int,
    before: Seq<u8>,
)
    requires
        same_files(d1, d2),
        answered(d1, path1, t1, copy_run(t1, path1, m, at, end, before).0),
        answered(d2, path2, t2, copy_run(t2, path2, m, at, end, before).0),
    ensures
        copy_run(t1, path1, m, at, end, before).1 == copy_run(t2, path2, m, at, end, before).1,
    decreases end - at,
{
    if !(at >= end || at < 0 || m.segment_bytes == 0) {
        let size = m.segment_bytes as int;
        let offset = at % size;
        let count = if end - at < size - offset {
            end - at
        } else {
            size - offset
        };
        let index = (at / size) as u64;
        let last1 = copy_run(t1, path1, m, at, end, before).0;
        let last2 = copy_run(t2, path2, m, at, end, before).0;
        let (u1, r1) = part_run(t1, path1, m, index, offset as u64, count as u64);
        let (u2, r2) = part_run(t2, path2, m, index, offset as u64, count as u64);
        lemma_part_continues(t1, path1, m, index, offset as u64, count as u64);
        lemma_part_continues(t2, path2, m, index, offset as u64, count as u64);
        lemma_ask_continues(u1, CallView::Clock);
        lemma_ask_continues(u2, CallView::Clock);
        if let Ok(Some(bytes)) = r1 {
            lemma_copy_continues(u1, path1, m, at + count, end, before + bytes);
        }
        if let Ok(Some(bytes)) = r2 {
            lemma_copy_continues(u2, path2, m, at + count, end, before + bytes);
        }
        lemma_answered(d1, path1, t1, u1, last1);
        lemma_answered(d2, path2, t2, u2, last2);
        lemma_part_alike(d1, path1, t1, d2, path2, t2, m, index, offset as u64, count as u64);
        if let Ok(Some(bytes)) = r1 {
            lemma_copy_alike(
                d1,
                path1,
                u1,
                d2,
                path2,
                u2,
                m,
                at + count,
                end,
                before + bytes,
            );
        }
    }
}

/// An attempt begins with the manifest, goes on with the copy, and ends with the
/// attempts that follow.
proof fn lemma_attempt_parts(
    t: Transcript,
    path: Seq<char>,
    cursor: u64,
    limit: usize,
    attempts: nat,
)
    requires
        attempts > 0,
    ensures
        ({
            let last = attempts_run(t, path, cursor, limit, attempts).0;
            let (u, r) = manifest_run(t, path);
            &&& continues(t, u)
            &&& continues(u, last)
            &&& r is Ok && cursor <= r->Ok_0.end ==> {
                let m = r->Ok_0;
                let v = copy_run(
                    u,
                    path,
                    m,
                    page_start(m, cursor) as int,
                    page_end(m, cursor, limit),
                    Seq::empty(),
                ).0;
                continues(u, v) && continues(v, last)
            }
        }),
{
    let last = attempts_run(t, path, cursor, limit, attempts).0;
    let (u, r) = manifest_run(t, path);
    lemma_ask_continues(
        t,
        CallView::Journal(path, FileActionView::ReadStart(JournalFile::Manifest, 257)),
    );
    lemma_ask_continues(u, CallView::Clock);
    if r is Ok && cursor <= r->Ok_0.end {
        let m = r->Ok_0;
        let start = page_start(m, cursor) as int;
        let end = page_end(m, cursor, limit);
        let v = copy_run(u, path, m, start, end, Seq::empty()).0;
        lemma_copy_continues(u, path, m, start, end, Seq::empty());
        lemma_ask_continues(v, CallView::Clock);
        lemma_attempts_continues(v, path, cursor, limit, (attempts - 1) as nat);
        lemma_continues(u, v, last);
    }
}

proof fn lemma_attempts_alike(
    d1: Directory,
    path1: Seq<char>,
    t1: Transcript,
    d2: Directory,
    path2: Seq<char>,
    t2: Transcript,
    m: Manifest,
    history: Seq<u8>,
    cursor: u64,
    limit: usize,
    attempts: nat,
)
    requires
        same_files(d1, d2),
        presents(d1, m, history),
        presents(d2, m, history),
        answered(d1, path1, t1, attempts_run(t1, path1, cursor, limit, attempts).0),
        answered(d2, path2, t2, attempts_run(t2, path2, cursor, limit, attempts).0),
    ensures
        attempts_run(t1, path1, cursor, limit, attempts).1 == attempts_run(
            t2,
            path2,
            cursor,
            limit,
            attempts,
        ).1,
    decreases attempts,
{
    if attempts > 0 {
        let last1 = attempts_run(t1, path1, cursor, limit, attempts).0;
        let last2 = attempts_run(t2, path2, cursor, limit, attempts).0;
        lemma_attempt_parts(t1, path1, cursor, limit, attempts);
        lemma_attempt_parts(t2, path2, cursor, limit, attempts);
        lemma_manifest(d1, m, history, path1, t1, last1);
        lemma_manifest(d2, m, history, path2, t2, last2);
        let u1 = manifest_run(t1, path1).0;
        let u2 = manifest_run(t2, path2).0;
        lemma_answered(d1, path1, t1, u1, last1);
        lemma_answered(d2, path2, t2, u2, last2);
        if cursor <= m.end {
            let start = page_start(m, cursor) as int;
            let end = page_end(m, cursor, limit);
            let v1 = copy_run(u1, path1, m, start, end, Seq::empty()).0;
            let v2 = copy_run(u2, path2, m, start, end, Seq::empty()).0;
            lemma_answered(d1, path1, u1, v1, last1);
            lemma_answered(d2, path2, u2, v2, last2);
            lemma_copy_alike(d1, path1, u1, d2, path2, u2, m, start, end, Seq::empty());
            if copy_run(u1, path1, m, start, end, Seq::empty()).1 == Ok::<
                Option<Seq<u8>>,
                IoHalt,
            >(None) {
                lemma_attempts_alike(
                    d1,
                    path1,
                    v1,
                    d2,
                    path2,
                    v2,
                    m,
                    history,
                    cursor,
                    limit,
                    (attempts - 1) as nat,
                );
            }
        }
    }
}

/// Journals that were made alike, and into which the same was recorded, read alike: for
/// every cursor and limit both reads give the same page, or both fail in the same way.
/// The same storage is reported of them.
pub proof fn equal_journals_read_alike(
    d1: Directory,
    r1: RecorderView,
    t1: Transcript,
    d2: Directory,
    r2: RecorderView,
    t2: Transcript,
    history: Seq<u8>,
    cursor: u64,
    limit: usize,
)
    requires
        kept(d1, r1, history),
        kept(d2, r2, history),
        alike(r1.manifest, r2.manifest),
    ensures
        answered(d1, r1.directory, t1, read_run(t1, r1.directory, cursor, limit).0) && answered(
            d2,
            r2.directory,
            t2,
            read_run(t2, r2.directory, cursor, limit).0,
        ) ==> read_run(t1, r1.directory, cursor, limit).1 == read_run(
            t2,
            r2.directory,
            cursor,
            limit,
        ).1,
        answered(d1, r1.directory, t1, retained_storage_run(t1, r1.directory).0) && answered(
            d2,
            r2.directory,
            t2,
            retained_storage_run(t2, r2.directory).0,
        ) ==> retained_storage_run(t1, r1.directory).1 == retained_storage_run(
            t2,
            r2.directory,
        ).1,
{
    manifests_are_determined(d1, r1, d2, r2, history);
    files_are_determined(d1, r1, d2, r2, history);
    let m = r1.manifest;
    if answered(d1, r1.directory, t1, read_run(t1, r1.directory, cursor, limit).0) && answered(
        d2,
        r2.directory,
        t2,
        read_run(t2, r2.directory, cursor, limit).0,
    ) && 0 < limit <= MAX_PAGE_BYTES {
        lemma_attempts_alike(
            d1,
            r1.directory,
            t1,
            d2,
            r2.directory,
            t2,
            m,
            history,
            cursor,
            limit,
            3,
        );
    }
    let last1 = retained_storage_run(t1, r1.directory).0;
    let last2 = retained_storage_run(t2, r2.directory).0;
    lemma_ask_continues(last1, CallView::Clock);
    lemma_ask_continues(last2, CallView::Clock);
    if answered(d1, r1.directory, t1, last1) && answered(d2, r2.directory, t2, last2) {
        lemma_manifest(d1, m, history, r1.directory, t1, last1);
        lemma_manifest(d2, m, history, r2.directory, t2, last2);
    }
}

/// An append of nothing succeeds and does nothing.
pub proof fn an_empty_append_does_nothing(t: Transcript, r: RecorderView, bytes: Seq<u8>)
    requires
        bytes.len() == 0,
        !r.manifest.closed,
    ensures
        append_run(t, r, bytes) == (t, r, Ok::<(), IoHalt>(())),
{
}

} // verus!
