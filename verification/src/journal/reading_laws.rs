//! What a reader is given: exactly the recorded bytes, whatever the recorder does
//! meanwhile.

use crate::host::{
    ask, ask_bytes, ask_number, continues, lemma_ask_continues, lemma_continues, CallView,
    FileActionView, IoHalt, IoKind, JournalFile, ReplyView, Transcript,
};
use crate::journal::format_laws::manifest_round_trip;
use crate::journal::laws::{
    action_of, archive_faithful, available, needed, presents, segment_faithful, truthful, Directory,
};
use crate::journal::reader::{
    attempts_run, copy_run, earliest, page_end, page_of, page_start, part_run, read_archive_run,
    read_run,
};
use crate::journal::{manifest_run, sound, Manifest, OutputPageView, MAX_PAGE_BYTES};
use vstd::prelude::*;

verus! {

/// A reply that tells the state of the journal at some moment: of a directory
/// that presents what was recorded, with segments of this size.
pub open spec fn observed(
    size: u64,
    history: Seq<u8>,
    action: FileActionView,
    reply: ReplyView,
) -> bool {
    exists|d: Directory, m: Manifest| #[trigger]
        presents(d, m, history) && m.segment_bytes == size && #[trigger] truthful(d, action, reply)
}

/// Every reply from `t` to `next` tells the state of the journal at some moment,
/// each at its own.
pub open spec fn overheard(
    size: u64,
    history: Seq<u8>,
    path: Seq<char>,
    t: Transcript,
    next: Transcript,
) -> bool {
    forall|i: int|
        t.calls.len() <= i < next.calls.len() && i < next.replies.len() ==> observed(
            size,
            history,
            action_of(path, #[trigger] next.calls[i]),
            next.replies[i],
        )
}

proof fn lemma_overheard(
    size: u64,
    history: Seq<u8>,
    path: Seq<char>,
    t: Transcript,
    next: Transcript,
    last: Transcript,
)
    requires
        continues(t, next),
        continues(next, last),
        overheard(size, history, path, t, last),
    ensures
        overheard(size, history, path, t, next),
        overheard(size, history, path, next, last),
{
    assert forall|i: int|
        t.calls.len() <= i < next.calls.len() && i < next.replies.len() implies observed(
        size,
        history,
        action_of(path, #[trigger] next.calls[i]),
        next.replies[i],
    ) by {
        assert(last.calls.take(next.calls.len() as int)[i] == last.calls[i]);
    }
}

/// The reply to one call of a reader.
proof fn lemma_overheard_ask(
    size: u64,
    history: Seq<u8>,
    path: Seq<char>,
    t: Transcript,
    action: FileActionView,
    last: Transcript,
)
    requires
        continues(ask(t, CallView::Journal(path, action)).0, last),
        overheard(size, history, path, t, last),
    ensures
        t.calls.len() < t.replies.len() ==> observed(
            size,
            history,
            action,
            t.replies[t.calls.len() as int],
        ),
        overheard(size, history, path, ask(t, CallView::Journal(path, action)).0, last),
{
    let next = ask(t, CallView::Journal(path, action)).0;
    lemma_ask_continues(t, CallView::Journal(path, action));
    lemma_overheard(size, history, path, t, next, last);
    assert(next.calls[t.calls.len() as int] == CallView::Journal(path, action));
}

proof fn lemma_read_archive_continues(t: Transcript, path: Seq<char>, index: u64, size: u64)
    ensures
        continues(t, read_archive_run(t, path, index, size).0),
{
    let c1 = CallView::Journal(path, FileActionView::Length(JournalFile::Archive(index)));
    let (t1, r1) = ask_number(t, c1);
    let c2 = CallView::Journal(
        path,
        FileActionView::ReadStart(JournalFile::Archive(index), u64::MAX),
    );
    lemma_ask_continues(t, c1);
    lemma_ask_continues(t1, c2);
    lemma_continues(t, t1, ask(t1, c2).0);
}

pub(crate) proof fn lemma_part_continues(
    t: Transcript,
    path: Seq<char>,
    m: Manifest,
    index: u64,
    offset: u64,
    count: u64,
)
    ensures
        continues(t, part_run(t, path, m, index, offset, count).0),
{
    let c1 = CallView::Journal(
        path,
        FileActionView::ReadAt(JournalFile::Segment(index), offset, count),
    );
    let t1 = ask_bytes(t, c1).0;
    lemma_ask_continues(t, c1);
    lemma_read_archive_continues(t1, path, index, m.segment_bytes);
    lemma_continues(t, t1, read_archive_run(t1, path, index, m.segment_bytes).0);
}

pub(crate) proof fn lemma_copy_continues(
    t: Transcript,
    path: Seq<char>,
    m: Manifest,
    at: int,
    end: int,
    before: Seq<u8>,
)
    ensures
        continues(t, copy_run(t, path, m, at, end, before).0),
    decreases end - at,
{
    lemma_ask_continues(t, CallView::Clock);
    if !(at >= end || at < 0 || m.segment_bytes == 0) {
        let size = m.segment_bytes as int;
        let offset = at % size;
        let count = if end - at < size - offset {
            end - at
        } else {
            size - offset
        };
        let (t1, r) = part_run(t, path, m, (at / size) as u64, offset as u64, count as u64);
        lemma_part_continues(t, path, m, (at / size) as u64, offset as u64, count as u64);
        if r is Ok && r->Ok_0 is Some {
            let bytes = r->Ok_0->Some_0;
            lemma_copy_continues(t1, path, m, at + count, end, before + bytes);
            lemma_continues(t, t1, copy_run(t, path, m, at, end, before).0);
        }
    }
}

/// A part of a segment that a reader is given was recorded there.
proof fn lemma_part(
    size: u64,
    history: Seq<u8>,
    path: Seq<char>,
    t: Transcript,
    m: Manifest,
    index: u64,
    offset: u64,
    count: u64,
)
    requires
        m.segment_bytes == size,
        0 < size < u64::MAX,
        offset + count <= size,
        overheard(size, history, path, t, part_run(t, path, m, index, offset, count).0),
        part_run(t, path, m, index, offset, count).1 is Ok,
        part_run(t, path, m, index, offset, count).1->Ok_0 is Some,
    ensures
        index * size + offset + count <= history.len(),
        part_run(t, path, m, index, offset, count).1->Ok_0->Some_0 == history.subrange(
            index * size + offset,
            index * size + offset + count,
        ),
{
    let (next, r) = part_run(t, path, m, index, offset, count);
    let bytes = r->Ok_0->Some_0;
    let lo = index * size;
    assert(0 <= lo) by (nonlinear_arith)
        requires
            lo == index * size,
    ;
    let a1 = FileActionView::ReadAt(JournalFile::Segment(index), offset, count);
    let t1 = ask(t, CallView::Journal(path, a1)).0;
    lemma_ask_continues(t, CallView::Journal(path, a1));
    lemma_read_archive_continues(t1, path, index, size);
    lemma_ask_continues(t1, CallView::Clock);
    lemma_overheard_ask(size, history, path, t, a1, next);
    let reply = t.replies[t.calls.len() as int];
    if reply is Bytes {
        let (d, published) = choose|d: Directory, published: Manifest| #[trigger]
            presents(d, published, history) && published.segment_bytes == size
                && #[trigger] truthful(d, a1, reply);
        assert(d.contains_key(JournalFile::Segment(index)));
        assert(segment_faithful(d, size, history, index));
        assert(bytes =~= history.subrange(lo + offset, lo + offset + count));
    } else {
        let a2 = FileActionView::Length(JournalFile::Archive(index));
        let t2 = ask(t1, CallView::Journal(path, a2)).0;
        let a3 = FileActionView::ReadStart(JournalFile::Archive(index), u64::MAX);
        let t3 = ask(t2, CallView::Journal(path, a3)).0;
        lemma_ask_continues(t1, CallView::Journal(path, a2));
        lemma_ask_continues(t2, CallView::Journal(path, a3));
        lemma_ask_continues(t3, CallView::Clock);
        lemma_overheard_ask(size, history, path, t1, a2, next);
        lemma_overheard_ask(size, history, path, t2, a3, next);
        let data = t2.replies[t2.calls.len() as int];
        let (d, published) = choose|d: Directory, published: Manifest| #[trigger]
            presents(d, published, history) && published.segment_bytes == size
                && #[trigger] truthful(d, a3, data);
        assert(d.contains_key(JournalFile::Archive(index)));
        assert(archive_faithful(d, size, history, index));
        assert(bytes =~= history.subrange(lo + offset, lo + offset + count));
    }
}

/// What a reader copies was recorded.
pub(crate) proof fn lemma_copy(
    size: u64,
    history: Seq<u8>,
    path: Seq<char>,
    t: Transcript,
    m: Manifest,
    start: int,
    at: int,
    end: int,
    before: Seq<u8>,
)
    requires
        m.segment_bytes == size,
        0 < size < u64::MAX,
        0 <= start <= at <= end <= u64::MAX,
        at <= history.len(),
        before == history.subrange(start, at),
        overheard(size, history, path, t, copy_run(t, path, m, at, end, before).0),
        copy_run(t, path, m, at, end, before).1 is Ok,
        copy_run(t, path, m, at, end, before).1->Ok_0 is Some,
    ensures
        end <= history.len(),
        copy_run(t, path, m, at, end, before).1->Ok_0->Some_0 == history.subrange(start, end),
    decreases end - at,
{
    if at < end {
        let s = size as int;
        let offset = at % s;
        let count = if end - at < s - offset {
            end - at
        } else {
            s - offset
        };
        let index = at / s;
        vstd::arithmetic::div_mod::lemma_fundamental_div_mod(at, s);
        assert(index * s + offset == at) by (nonlinear_arith)
            requires
                at == s * index + offset,
        ;
        assert(0 <= index <= at) by {
            vstd::arithmetic::div_mod::lemma_div_pos_is_pos(at, s);
            vstd::arithmetic::div_mod::lemma_div_is_ordered_by_denominator(at, 1, s);
            vstd::arithmetic::div_mod::lemma_div_basics(at);
        }
        let (t1, r) = part_run(t, path, m, index as u64, offset as u64, count as u64);
        let bytes = r->Ok_0->Some_0;
        let last = copy_run(t, path, m, at, end, before).0;
        lemma_part_continues(t, path, m, index as u64, offset as u64, count as u64);
        lemma_copy_continues(t1, path, m, at + count, end, before + bytes);
        lemma_overheard(size, history, path, t, t1, last);
        lemma_part(size, history, path, t, m, index as u64, offset as u64, count as u64);
        assert(before + bytes =~= history.subrange(start, at + count));
        lemma_copy(size, history, path, t1, m, start, at + count, end, before + bytes);
    }
}

proof fn lemma_manifest_read(size: u64, history: Seq<u8>, path: Seq<char>, t: Transcript)
    requires
        overheard(size, history, path, t, manifest_run(t, path).0),
        manifest_run(t, path).1 is Ok,
    ensures
        continues(t, manifest_run(t, path).0),
        exists|d: Directory| #[trigger]
            presents(d, manifest_run(t, path).1->Ok_0, history) && manifest_run(
                t,
                path,
            ).1->Ok_0.segment_bytes == size,
{
    let action = FileActionView::ReadStart(JournalFile::Manifest, 257);
    let (next, r) = manifest_run(t, path);
    lemma_ask_continues(t, CallView::Journal(path, action));
    lemma_ask_continues(next, CallView::Clock);
    lemma_overheard_ask(size, history, path, t, action, next);
    let reply = t.replies[t.calls.len() as int];
    let (d, m) = choose|d: Directory, m: Manifest| #[trigger]
        presents(d, m, history) && m.segment_bytes == size && #[trigger] truthful(d, action, reply);
    manifest_round_trip(m);
    assert(presents(d, r->Ok_0, history));
}

pub proof fn lemma_attempts_continues(
    t: Transcript,
    path: Seq<char>,
    cursor: u64,
    limit: usize,
    attempts: nat,
)
    ensures
        continues(t, attempts_run(t, path, cursor, limit, attempts).0),
    decreases attempts,
{
    lemma_ask_continues(
        t,
        CallView::Journal(path, FileActionView::ReadStart(JournalFile::Manifest, 257)),
    );
    if attempts > 0 {
        let last = attempts_run(t, path, cursor, limit, attempts).0;
        let (t1, r) = manifest_run(t, path);
        if r is Ok && cursor <= r->Ok_0.end {
            let m = r->Ok_0;
            let start = page_start(m, cursor) as int;
            let end = page_end(m, cursor, limit);
            let (t2, copied) = copy_run(t1, path, m, start, end, Seq::empty());
            lemma_copy_continues(t1, path, m, start, end, Seq::empty());
            lemma_continues(t, t1, t2);
            if copied is Ok && copied->Ok_0 is None {
                lemma_attempts_continues(t2, path, cursor, limit, (attempts - 1) as nat);
                lemma_continues(t, t2, last);
            }
        }
    }
}

/// A page is read only where every call for it was answered.
pub proof fn lemma_attempts_progress(
    t: Transcript,
    path: Seq<char>,
    cursor: u64,
    limit: usize,
    attempts: nat,
)
    ensures
        attempts_run(t, path, cursor, limit, attempts).1 is Ok ==> attempts_run(
            t,
            path,
            cursor,
            limit,
            attempts,
        ).0.calls.len() <= t.replies.len(),
    decreases attempts,
{
    if attempts > 0 {
        let (t1, r) = manifest_run(t, path);
        if r is Ok && cursor <= r->Ok_0.end {
            let m = r->Ok_0;
            let start = page_start(m, cursor) as int;
            let end = page_end(m, cursor, limit);
            let (t2, copied) = copy_run(t1, path, m, start, end, Seq::empty());
            lemma_copy_continues(t1, path, m, start, end, Seq::empty());
            lemma_copy_progress(t1, path, m, start, end, Seq::empty());
            lemma_attempts_progress(t2, path, cursor, limit, (attempts - 1) as nat);
        }
    }
}

proof fn lemma_copy_progress(
    t: Transcript,
    path: Seq<char>,
    m: Manifest,
    at: int,
    end: int,
    before: Seq<u8>,
)
    requires
        t.calls.len() <= t.replies.len(),
    ensures
        copy_run(t, path, m, at, end, before).1 is Ok ==> copy_run(
            t,
            path,
            m,
            at,
            end,
            before,
        ).0.calls.len() <= t.replies.len(),
    decreases end - at,
{
    if !(at >= end || at < 0 || m.segment_bytes == 0) {
        let size = m.segment_bytes as int;
        let offset = at % size;
        let count = if end - at < size - offset {
            end - at
        } else {
            size - offset
        };
        let (t1, r) = part_run(t, path, m, (at / size) as u64, offset as u64, count as u64);
        lemma_part_continues(t, path, m, (at / size) as u64, offset as u64, count as u64);
        assert(r is Ok ==> t1.calls.len() <= t.replies.len());
        if r is Ok && r->Ok_0 is Some {
            let bytes = r->Ok_0->Some_0;
            lemma_copy_progress(t1, path, m, at + count, end, before + bytes);
        }
    }
}

/// A page that is cut from the recorded bytes at a manifest that was published.
pub open spec fn page_of_history(
    page: OutputPageView,
    m: Manifest,
    history: Seq<u8>,
    cursor: u64,
    limit: usize,
) -> bool {
    &&& sound(m)
    &&& cursor <= m.end <= history.len()
    &&& page == page_of(
        m,
        cursor,
        history.subrange(page_start(m, cursor) as int, page_end(m, cursor, limit)),
    )
}

proof fn lemma_attempts(
    size: u64,
    history: Seq<u8>,
    path: Seq<char>,
    t: Transcript,
    cursor: u64,
    limit: usize,
    attempts: nat,
)
    requires
        0 < limit,
        overheard(size, history, path, t, attempts_run(t, path, cursor, limit, attempts).0),
        attempts_run(t, path, cursor, limit, attempts).1 is Ok,
    ensures
        exists|m: Manifest| #[trigger]
            page_of_history(
                attempts_run(t, path, cursor, limit, attempts).1->Ok_0,
                m,
                history,
                cursor,
                limit,
            ),
    decreases attempts,
{
    let last = attempts_run(t, path, cursor, limit, attempts).0;
    let page = attempts_run(t, path, cursor, limit, attempts).1->Ok_0;
    let (t1, r) = manifest_run(t, path);
    let m = r->Ok_0;
    let start = page_start(m, cursor) as int;
    let end = page_end(m, cursor, limit);
    let (t2, copied) = copy_run(t1, path, m, start, end, Seq::empty());
    lemma_ask_continues(
        t,
        CallView::Journal(path, FileActionView::ReadStart(JournalFile::Manifest, 257)),
    );
    lemma_copy_continues(t1, path, m, start, end, Seq::empty());
    lemma_continues(t, t1, t2);
    lemma_attempts_continues(t2, path, cursor, limit, (attempts - 1) as nat);
    lemma_ask_continues(t2, CallView::Clock);
    lemma_continues(t1, t2, last);
    lemma_overheard(size, history, path, t, t1, last);
    lemma_overheard(size, history, path, t1, t2, last);
    lemma_manifest_read(size, history, path, t);
    let d = choose|d: Directory| #[trigger] presents(d, m, history) && m.segment_bytes == size;
    if copied->Ok_0 is Some {
        assert(history.subrange(start, start) =~= Seq::empty());
        lemma_copy(size, history, path, t1, m, start, start, end, Seq::empty());
        assert(page_of_history(page, m, history, cursor, limit));
    } else {
        lemma_attempts(size, history, path, t2, cursor, limit, (attempts - 1) as nat);
    }
}

/// A page that is read while a recorder goes on is cut from the recorded bytes:
/// it begins at the cursor, or where the history that is left begins, and holds
/// what was recorded from there on. Published bytes never change, and none that
/// was not published is seen. Each reply may come from another moment of the
/// recording.
pub proof fn read_gives_recorded_bytes(
    size: u64,
    history: Seq<u8>,
    path: Seq<char>,
    t: Transcript,
    cursor: u64,
    limit: usize,
)
    requires
        overheard(size, history, path, t, read_run(t, path, cursor, limit).0),
        read_run(t, path, cursor, limit).1 is Ok,
    ensures
        exists|m: Manifest| #[trigger]
            page_of_history(
                read_run(t, path, cursor, limit).1->Ok_0,
                m,
                history,
                cursor,
                limit,
            ),
        ({
            let page = read_run(t, path, cursor, limit).1->Ok_0;
            &&& page.bytes == history.subrange(page.start_cursor as int, page.next_cursor as int)
            &&& page.start_cursor == cursor || page.history_gap
            &&& page.start_cursor <= page.next_cursor <= page.high_watermark <= history.len()
        }),
{
    lemma_attempts(size, history, path, t, cursor, limit, 3);
    let page = read_run(t, path, cursor, limit).1->Ok_0;
    let m = choose|m: Manifest| #[trigger] page_of_history(page, m, history, cursor, limit);
}

/// Every call from `t` to `next` was answered from this one directory, and the
/// only failures are of files that are not there.
pub open spec fn answered(d: Directory, path: Seq<char>, t: Transcript, next: Transcript) -> bool {
    &&& next.calls.len() <= next.replies.len()
    &&& forall|i: int|
        t.calls.len() <= i < next.calls.len() ==> {
            &&& truthful(d, action_of(path, #[trigger] next.calls[i]), next.replies[i])
            &&& next.replies[i] matches ReplyView::Failed(error) ==> error.kind == IoKind::NotFound
        }
}

/// An archive of a segment without a file, if a byte from `from` up to `end` lies in it,
/// is within the size that a reader accepts.
pub open spec fn legible(d: Directory, size: u64, from: int, end: int) -> bool {
    forall|i: u64|
        from / (size as int) <= i && i * size < end && !d.contains_key(JournalFile::Segment(i))
            && #[trigger] d.contains_key(JournalFile::Archive(i)) ==> d[JournalFile::Archive(
            i,
        )].len() <= size * 2 + 512
}

pub(crate) proof fn lemma_answered(
    d: Directory,
    path: Seq<char>,
    t: Transcript,
    next: Transcript,
    last: Transcript,
)
    requires
        continues(t, next),
        continues(next, last),
        answered(d, path, t, last),
    ensures
        answered(d, path, t, next),
        answered(d, path, next, last),
{
    assert forall|i: int| t.calls.len() <= i < next.calls.len() implies {
        &&& truthful(d, action_of(path, #[trigger] next.calls[i]), next.replies[i])
        &&& next.replies[i] matches ReplyView::Failed(error) ==> error.kind == IoKind::NotFound
    } by {
        assert(last.calls.take(next.calls.len() as int)[i] == last.calls[i]);
    }
}

pub(crate) proof fn lemma_answered_ask(
    d: Directory,
    path: Seq<char>,
    t: Transcript,
    action: FileActionView,
    last: Transcript,
)
    requires
        continues(ask(t, CallView::Journal(path, action)).0, last),
        answered(d, path, t, last),
    ensures
        t.calls.len() < t.replies.len(),
        truthful(d, action, t.replies[t.calls.len() as int]),
        t.replies[t.calls.len() as int] matches ReplyView::Failed(error) ==> error.kind
            == IoKind::NotFound,
        answered(d, path, ask(t, CallView::Journal(path, action)).0, last),
{
    let next = ask(t, CallView::Journal(path, action)).0;
    lemma_ask_continues(t, CallView::Journal(path, action));
    lemma_answered(d, path, t, next, last);
    assert(next.calls[t.calls.len() as int] == CallView::Journal(path, action));
}

proof fn lemma_part_found(
    d: Directory,
    history: Seq<u8>,
    path: Seq<char>,
    t: Transcript,
    m: Manifest,
    index: u64,
    offset: u64,
    count: u64,
)
    requires
        presents(d, m, history),
        !d.contains_key(JournalFile::Segment(index)) && d.contains_key(JournalFile::Archive(index))
            ==> d[JournalFile::Archive(index)].len() <= m.segment_bytes * 2 + 512,
        needed(m, index),
        offset + count <= m.segment_bytes,
        index * m.segment_bytes + offset + count <= m.end,
        answered(d, path, t, part_run(t, path, m, index, offset, count).0),
    ensures
        part_run(t, path, m, index, offset, count).1 is Ok,
        part_run(t, path, m, index, offset, count).1->Ok_0 is Some,
{
    let size = m.segment_bytes;
    let next = part_run(t, path, m, index, offset, count).0;
    let a1 = FileActionView::ReadAt(JournalFile::Segment(index), offset, count);
    let t1 = ask(t, CallView::Journal(path, a1)).0;
    lemma_ask_continues(t, CallView::Journal(path, a1));
    lemma_read_archive_continues(t1, path, index, size);
    lemma_ask_continues(t1, CallView::Clock);
    lemma_answered_ask(d, path, t, a1, next);
    assert(available(d, m, index));
    if !d.contains_key(JournalFile::Segment(index)) {
        let a2 = FileActionView::Length(JournalFile::Archive(index));
        let t2 = ask(t1, CallView::Journal(path, a2)).0;
        let a3 = FileActionView::ReadStart(JournalFile::Archive(index), u64::MAX);
        let t3 = ask(t2, CallView::Journal(path, a3)).0;
        lemma_ask_continues(t1, CallView::Journal(path, a2));
        lemma_ask_continues(t2, CallView::Journal(path, a3));
        lemma_ask_continues(t2, CallView::Clock);
        lemma_ask_continues(t3, CallView::Clock);
        assert(d.contains_key(JournalFile::Archive(index)));
        assert(next == read_archive_run(t1, path, index, size).0);
        lemma_answered_ask(d, path, t1, a2, next);
        lemma_answered_ask(d, path, t2, a3, next);
        assert(archive_faithful(d, size, history, index));
    }
}

proof fn lemma_copy_found(
    d: Directory,
    history: Seq<u8>,
    path: Seq<char>,
    t: Transcript,
    m: Manifest,
    at: int,
    end: int,
    before: Seq<u8>,
)
    requires
        presents(d, m, history),
        legible(d, m.segment_bytes, at, end),
        earliest(m) <= at <= end <= m.end,
        answered(d, path, t, copy_run(t, path, m, at, end, before).0),
    ensures
        copy_run(t, path, m, at, end, before).1 is Ok,
        copy_run(t, path, m, at, end, before).1->Ok_0 is Some,
    decreases end - at,
{
    if at < end {
        let s = m.segment_bytes as int;
        let offset = at % s;
        let count = if end - at < s - offset {
            end - at
        } else {
            s - offset
        };
        let index = at / s;
        vstd::arithmetic::div_mod::lemma_fundamental_div_mod(at, s);
        assert(index * s + offset == at) by (nonlinear_arith)
            requires
                at == s * index + offset,
        ;
        assert(0 <= index <= at) by {
            vstd::arithmetic::div_mod::lemma_div_pos_is_pos(at, s);
            vstd::arithmetic::div_mod::lemma_div_is_ordered_by_denominator(at, 1, s);
            vstd::arithmetic::div_mod::lemma_div_basics(at);
        }
        // The first segment that is kept begins at a multiple of the size.
        assert(m.archive || m.first <= index * s) by {
            if !m.archive {
                let first = m.first as int;
                vstd::arithmetic::div_mod::lemma_fundamental_div_mod(first, s);
                vstd::arithmetic::div_mod::lemma_div_is_ordered(first, at, s);
                assert(first <= index * s) by (nonlinear_arith)
                    requires
                        first == s * (first / s) + first % s,
                        first % s == 0,
                        first / s <= index,
                        s > 0,
                ;
            }
        }
        let (t1, r) = part_run(t, path, m, index as u64, offset as u64, count as u64);
        let bytes = r->Ok_0->Some_0;
        let last = copy_run(t, path, m, at, end, before).0;
        lemma_part_continues(t, path, m, index as u64, offset as u64, count as u64);
        lemma_copy_continues(t1, path, m, at + count, end, before + bytes);
        lemma_ask_continues(t1, CallView::Clock);
        lemma_answered(d, path, t, t1, last);
        assert(needed(m, index as u64));
        assert(legible(d, m.segment_bytes, at + count, end)) by {
            vstd::arithmetic::div_mod::lemma_div_is_ordered(at, at + count, s);
        }
        lemma_part_found(
            d,
            history,
            path,
            t,
            m,
            index as u64,
            offset as u64,
            count as u64,
        );
        lemma_copy_found(d, history, path, t1, m, at + count, end, before + bytes);
    }
}

/// Every page of the published history is there to be read: a request within it
/// is answered, from the cursor on, as far as the limit and the history reach. Of what
/// only an archive holds, this is said only where the archive is no larger than a reader
/// accepts; how much the compressor writes is not stated.
pub proof fn published_history_is_readable(
    d: Directory,
    m: Manifest,
    history: Seq<u8>,
    path: Seq<char>,
    t: Transcript,
    cursor: u64,
    limit: usize,
)
    requires
        presents(d, m, history),
        legible(
            d,
            m.segment_bytes,
            page_start(m, cursor) as int,
            page_end(m, cursor, limit),
        ),
        cursor <= m.end,
        0 < limit <= MAX_PAGE_BYTES,
        answered(d, path, t, read_run(t, path, cursor, limit).0),
    ensures
        read_run(t, path, cursor, limit).1 is Ok,
        read_run(t, path, cursor, limit).1->Ok_0 == page_of(
            m,
            cursor,
            history.subrange(page_start(m, cursor) as int, page_end(m, cursor, limit)),
        ),
{
    let last = read_run(t, path, cursor, limit).0;
    let action = FileActionView::ReadStart(JournalFile::Manifest, 257);
    let t1 = ask(t, CallView::Journal(path, action)).0;
    lemma_ask_continues(t, CallView::Journal(path, action));
    lemma_ask_continues(t1, CallView::Clock);
    lemma_attempts_continues(t, path, cursor, limit, 3);
    let start = page_start(m, cursor) as int;
    let end = page_end(m, cursor, limit);
    lemma_copy_continues(t1, path, m, start, end, Seq::empty());
    manifest_round_trip(m);
    let t2 = copy_run(t1, path, m, start, end, Seq::empty()).0;
    lemma_attempts_continues(t2, path, cursor, limit, 2);
    lemma_ask_continues(t2, CallView::Clock);
    assert(continues(t1, last)) by {
        if manifest_run(t, path).1 == Ok::<Manifest, IoHalt>(m) {
            lemma_continues(t1, t2, last);
        } else {
            let r = manifest_run(t, path).1;
            if r is Ok && cursor <= r->Ok_0.end {
                let x = r->Ok_0;
                let a = page_start(x, cursor) as int;
                let b = page_end(x, cursor, limit);
                let t3 = copy_run(t1, path, x, a, b, Seq::empty()).0;
                lemma_copy_continues(t1, path, x, a, b, Seq::empty());
                lemma_attempts_continues(t3, path, cursor, limit, 2);
                lemma_ask_continues(t3, CallView::Clock);
                lemma_continues(t1, t3, last);
            }
        }
    }
    lemma_answered_ask(d, path, t, action, last);
    assert(manifest_run(t, path).1 == Ok::<Manifest, IoHalt>(m));
    lemma_answered(d, path, t1, t2, last);
    lemma_copy_found(d, history, path, t1, m, start, end, Seq::empty());
    assert(overheard(m.segment_bytes, history, path, t1, t2)) by {
        assert forall|i: int|
            t1.calls.len() <= i < t2.calls.len() && i < t2.replies.len() implies observed(
            m.segment_bytes,
            history,
            action_of(path, #[trigger] t2.calls[i]),
            t2.replies[i],
        ) by {
            assert(presents(d, m, history) && truthful(
                d,
                action_of(path, t2.calls[i]),
                t2.replies[i],
            ));
        }
    }
    assert(history.subrange(start, start) =~= Seq::empty());
    lemma_copy(
        m.segment_bytes,
        history,
        path,
        t1,
        m,
        start,
        start,
        end,
        Seq::empty(),
    );
}

} // verus!
