//! The process that writes a journal.

use crate::bytes;
use crate::compression::{gzip, gzipped, restores};
use crate::host::{
    ask, ask_bytes, ask_done, ask_number, continues, lemma_ask_continues, lemma_continues, outcome,
    Call, CallView, FileAction, FileActionView, Halt, IoError, IoHalt, JournalFile, ReplyView,
    Script, Transcript,
};
use crate::journal::{
    format_manifest, invalid, invalid_data, lemma_performed_continues, manifest_text, perform,
    performed, sound, Manifest, RetentionPolicy, RETAINED_SEGMENTS, SEGMENT_BYTES,
};
use vstd::prelude::*;
use vstd::utf8::encode_utf8;

verus! {

pub open spec fn is_archive_write(call: CallView) -> bool {
    call matches CallView::Journal(_, FileActionView::Write(file, _)) && file is ArchivePending
}

/// The compressed data that was written from `t` to `next` can be restored: it
/// came of the bytes in the reply before it, and decodes to them.
pub open spec fn restorable(t: Transcript, next: Transcript) -> bool {
    &&& continues(t, next)
    &&& forall|i: int|
        t.calls.len() <= i < next.calls.len() && #[trigger] is_archive_write(next.calls[i]) && (i > 0
            && next.replies[i - 1] is Bytes) ==> restores(next.replies[i - 1]->Bytes_0)
}

proof fn lemma_restorable(t: Transcript, next: Transcript, last: Transcript)
    requires
        restorable(t, next),
        restorable(next, last),
    ensures
        restorable(t, last),
{
    lemma_continues(t, next, last);
    assert forall|i: int|
        t.calls.len() <= i < last.calls.len() && #[trigger] is_archive_write(last.calls[i]) && (i > 0
            && last.replies[i - 1] is Bytes) implies restores(last.replies[i - 1]->Bytes_0) by {
        if i < next.calls.len() {
            assert(last.calls.take(next.calls.len() as int)[i] == next.calls[i]);
            assert(is_archive_write(next.calls[i]));
        }
    }
}

proof fn lemma_restorable_ask(t: Transcript, call: CallView)
    requires
        !is_archive_write(call),
    ensures
        restorable(t, ask(t, call).0),
        restorable(t, t),
{
    lemma_ask_continues(t, call);
}

proof fn lemma_restorable_performed(
    t: Transcript,
    directory: Seq<char>,
    actions: Seq<FileActionView>,
)
    requires
        forall|j: int|
            0 <= j < actions.len() ==> !is_archive_write(
                CallView::Journal(directory, #[trigger] actions[j]),
            ),
    ensures
        restorable(t, performed(t, directory, actions).0),
{
    lemma_performed_continues(t, directory, actions);
}

/// The actions that publish a manifest: it is written apart, made durable, and
/// put in place by a rename, so that a reader finds the old one or the new one.
pub open spec fn publish_actions(m: Manifest) -> Seq<FileActionView> {
    seq![
        FileActionView::Create(JournalFile::ManifestPending),
        FileActionView::Write(JournalFile::ManifestPending, encode_utf8(manifest_text(m))),
        FileActionView::SyncAll(JournalFile::ManifestPending),
        FileActionView::Rename(JournalFile::ManifestPending, JournalFile::Manifest),
        FileActionView::SyncDirectory,
    ]
}

fn publish(script: &mut Script, directory: &str, m: &Manifest) -> (r: Result<(), Halt<IoError>>)
    ensures
        (final(script).deep_view(), outcome(r)) == performed(
            old(script).deep_view(),
            directory@,
            publish_actions(*m),
        ),
        restorable(old(script).deep_view(), final(script).deep_view()),
{
    proof {
        lemma_restorable_performed(script.deep_view(), directory@, publish_actions(*m));
    }
    let contents = bytes::of_text(format_manifest(m).as_str());
    let actions = vec![
        FileAction::Create(JournalFile::ManifestPending),
        FileAction::Write(JournalFile::ManifestPending, contents),
        FileAction::SyncAll(JournalFile::ManifestPending),
        FileAction::Rename(JournalFile::ManifestPending, JournalFile::Manifest),
        FileAction::SyncDirectory,
    ];
    assert(actions.deep_view() =~= publish_actions(*m));
    perform(script, directory, actions)
}

/// Compresses a full segment into its archive. Gives the size of the archive.
pub open spec fn archive_run(t: Transcript, directory: Seq<char>, index: u64, size: u64) -> (
    Transcript,
    Result<u64, IoHalt>,
) {
    let (t, r) = ask_number(
        t,
        CallView::Journal(directory, FileActionView::Length(JournalFile::Segment(index))),
    );
    match r {
        Err(halt) => (t, Err(halt)),
        Ok(length) => if length != size {
            (
                t,
                Err(Halt::Failed(invalid_data("Incomplete journal segment cannot be archived"@))),
            )
        } else {
            let (t, r) = ask_done(
                t,
                CallView::Journal(
                    directory,
                    FileActionView::Create(JournalFile::ArchivePending(index)),
                ),
            );
            match r {
                Err(halt) => (t, Err(halt)),
                Ok(_) => archive_contents_run(t, directory, index, size),
            }
        },
    }
}

/// The part of `archive_run` after the archive's pending file was created.
pub open spec fn archive_contents_run(
    t: Transcript,
    directory: Seq<char>,
    index: u64,
    size: u64,
) -> (Transcript, Result<u64, IoHalt>) {
    let (t, r) = ask_bytes(
        t,
        CallView::Journal(
            directory,
            FileActionView::ReadStart(JournalFile::Segment(index), (size + 1) as u64),
        ),
    );
    match r {
        Err(halt) => (t, Err(halt)),
        Ok(contents) => if contents.len() != size {
            (t, Err(Halt::Failed(invalid_data("Journal segment changed while archiving"@))))
        } else {
            match gzipped(contents) {
                Err(error) => (t, Err(Halt::Failed(error))),
                Ok(data) => archive_store_run(t, directory, index, data),
            }
        },
    }
}

/// The part of `archive_run` that stores the compressed segment.
pub open spec fn archive_store_run(
    t: Transcript,
    directory: Seq<char>,
    index: u64,
    data: Seq<u8>,
) -> (Transcript, Result<u64, IoHalt>) {
    let pending = JournalFile::ArchivePending(index);
    let (t, r) = performed(
        t,
        directory,
        seq![FileActionView::Write(pending, data), FileActionView::SyncAll(pending)],
    );
    match r {
        Err(halt) => (t, Err(halt)),
        Ok(_) => {
            let (t, r) = ask_number(
                t,
                CallView::Journal(directory, FileActionView::Length(pending)),
            );
            match r {
                Err(halt) => (t, Err(halt)),
                Ok(stored) => {
                    let (t, r) = performed(
                        t,
                        directory,
                        seq![
                            FileActionView::Rename(pending, JournalFile::Archive(index)),
                            FileActionView::SyncDirectory,
                        ],
                    );
                    match r {
                        Err(halt) => (t, Err(halt)),
                        Ok(_) => (t, Ok(stored)),
                    }
                },
            }
        },
    }
}

fn archive_segment(script: &mut Script, directory: &str, index: u64, size: u64) -> (r: Result<
    u64,
    Halt<IoError>,
>)
    requires
        size <= SEGMENT_BYTES,
    ensures
        (final(script).deep_view(), outcome(r)) == archive_run(
            old(script).deep_view(),
            directory@,
            index,
            size,
        ),
        restorable(old(script).deep_view(), final(script).deep_view()),
{
    broadcast use bytes::bytes_deep_view;

    let ghost start = script.deep_view();
    proof {
        lemma_restorable_ask(
            start,
            CallView::Journal(directory@, FileActionView::Length(JournalFile::Segment(index))),
        );
    }
    let length = script.number(
        Call::Journal(directory.to_owned(), FileAction::Length(JournalFile::Segment(index))),
    )?;
    if length != size {
        return Err(Halt::Failed(invalid("Incomplete journal segment cannot be archived")));
    }
    let pending = JournalFile::ArchivePending(index);
    proof {
        let call = CallView::Journal(directory@, FileActionView::Create(pending));
        lemma_restorable_ask(script.deep_view(), call);
        lemma_restorable(start, script.deep_view(), ask(script.deep_view(), call).0);
    }
    script.done(Call::Journal(directory.to_owned(), FileAction::Create(pending)))?;
    proof {
        let call = CallView::Journal(
            directory@,
            FileActionView::ReadStart(JournalFile::Segment(index), (size + 1) as u64),
        );
        lemma_restorable_ask(script.deep_view(), call);
        lemma_restorable(start, script.deep_view(), ask(script.deep_view(), call).0);
    }
    let contents = script.bytes(
        Call::Journal(
            directory.to_owned(),
            FileAction::ReadStart(JournalFile::Segment(index), size + 1),
        ),
    )?;
    if contents.len() as u64 != size {
        return Err(Halt::Failed(invalid("Journal segment changed while archiving")));
    }
    let data = match gzip(contents.as_slice()) {
        Ok(data) => data,
        Err(error) => return Err(Halt::Failed(error)),
    };
    let ghost read = script.deep_view();
    let actions = vec![FileAction::Write(pending, data), FileAction::SyncAll(pending)];
    let ghost model = seq![FileActionView::Write(pending, data@), FileActionView::SyncAll(pending)];
    assert(actions.deep_view() =~= model);
    proof {
        assert(restores(contents@));
        assert(read.replies[read.calls.len() - 1] == ReplyView::Bytes(contents@));
        lemma_performed_continues(read, directory@, model);
        lemma_restorable(start, read, performed(read, directory@, model).0);
    }
    perform(script, directory, actions)?;
    proof {
        let call = CallView::Journal(directory@, FileActionView::Length(pending));
        lemma_restorable_ask(script.deep_view(), call);
        lemma_restorable(start, script.deep_view(), ask(script.deep_view(), call).0);
    }
    let stored = script.number(
        Call::Journal(directory.to_owned(), FileAction::Length(pending)),
    )?;
    let actions = vec![
        FileAction::Rename(pending, JournalFile::Archive(index)),
        FileAction::SyncDirectory,
    ];
    let ghost model = seq![
        FileActionView::Rename(pending, JournalFile::Archive(index)),
        FileActionView::SyncDirectory,
    ];
    assert(actions.deep_view() =~= model);
    proof {
        lemma_restorable_performed(script.deep_view(), directory@, model);
        lemma_restorable(
            start,
            script.deep_view(),
            performed(script.deep_view(), directory@, model).0,
        );
    }
    perform(script, directory, actions)?;
    Ok(stored)
}

/// Archives the segments from `from` up to `to`. Gives the size of all archives.
pub open spec fn archive_all_run(
    t: Transcript,
    directory: Seq<char>,
    from: u64,
    to: u64,
    size: u64,
    archived: u64,
) -> (Transcript, Result<u64, IoHalt>)
    decreases to - from,
{
    if from >= to {
        (t, Ok(archived))
    } else {
        let (t, r) = archive_run(t, directory, from, size);
        match r {
            Err(halt) => (t, Err(halt)),
            Ok(stored) => if archived + stored > u64::MAX {
                (t, Err(Halt::Failed(invalid_data("Journal storage size overflow"@))))
            } else {
                archive_all_run(
                    t,
                    directory,
                    (from + 1) as u64,
                    to,
                    size,
                    (archived + stored) as u64,
                )
            },
        }
    }
}

fn archive_all(
    script: &mut Script,
    directory: &str,
    from: u64,
    to: u64,
    size: u64,
    archived: u64,
) -> (r: Result<u64, Halt<IoError>>)
    requires
        size <= SEGMENT_BYTES,
    ensures
        (final(script).deep_view(), outcome(r)) == archive_all_run(
            old(script).deep_view(),
            directory@,
            from,
            to,
            size,
            archived,
        ),
        restorable(old(script).deep_view(), final(script).deep_view()),
{
    let mut index: u64 = from;
    let mut total: u64 = archived;
    proof {
        lemma_restorable_ask(script.deep_view(), CallView::Clock);
    }
    while index < to
        invariant
            size <= SEGMENT_BYTES,
            restorable(old(script).deep_view(), script.deep_view()),
            archive_all_run(old(script).deep_view(), directory@, from, to, size, archived)
                == archive_all_run(script.deep_view(), directory@, index, to, size, total),
        decreases to - index,
    {
        let ghost before = script.deep_view();
        let archived_segment = archive_segment(script, directory, index, size);
        proof {
            lemma_restorable(old(script).deep_view(), before, script.deep_view());
        }
        let stored = archived_segment?;
        total = match total.checked_add(stored) {
            Some(sum) => sum,
            None => return Err(Halt::Failed(invalid("Journal storage size overflow"))),
        };
        index += 1;
    }
    Ok(total)
}

/// The actions that remove the segments from `from` up to `to`.
pub open spec fn remove_actions(from: u64, to: u64) -> Seq<FileActionView> {
    Seq::new(
        if from < to {
            (to - from) as nat
        } else {
            0
        },
        |i: int| FileActionView::Remove(JournalFile::Segment((from + i) as u64)),
    )
}

fn remove_segments(script: &mut Script, directory: &str, from: u64, to: u64) -> (r: Result<
    (),
    Halt<IoError>,
>)
    ensures
        (final(script).deep_view(), outcome(r)) == performed(
            old(script).deep_view(),
            directory@,
            remove_actions(from, to),
        ),
        restorable(old(script).deep_view(), final(script).deep_view()),
{
    proof {
        lemma_restorable_performed(script.deep_view(), directory@, remove_actions(from, to));
    }
    let mut actions: Vec<FileAction> = Vec::new();
    let mut index: u64 = from;
    while index < to
        invariant
            from <= index,
            from < to ==> index <= to,
            from >= to ==> index == from,
            actions.deep_view() == Seq::new(
                (index - from) as nat,
                |i: int| FileActionView::Remove(JournalFile::Segment((from + i) as u64)),
            ),
        decreases to - index,
    {
        let ghost before = actions;
        actions.push(FileAction::Remove(JournalFile::Segment(index)));
        assert(actions.deep_view() =~= before.deep_view().push(
            FileActionView::Remove(JournalFile::Segment(index)),
        ));
        index += 1;
        assert(actions.deep_view() =~= Seq::new(
            (index - from) as nat,
            |i: int| FileActionView::Remove(JournalFile::Segment((from + i) as u64)),
        ));
    }
    assert(actions.deep_view() =~= remove_actions(from, to));
    perform(script, directory, actions)
}

/// The process that writes a journal.
#[derive(Debug)]
pub struct Recorder {
    directory: String,
    manifest: Manifest,
    open: bool,
}

/// The model of a recorder: `open` tells whether it has a segment open for writing.
#[verifier::ext_equal]
pub struct RecorderView {
    pub directory: Seq<char>,
    pub manifest: Manifest,
    pub open: bool,
}

impl DeepView for Recorder {
    type V = RecorderView;

    closed spec fn deep_view(&self) -> RecorderView {
        RecorderView { directory: self.directory@, manifest: self.manifest, open: self.open }
    }
}

/// Where the oldest segment begins that is kept while the segment `index` is written.
pub open spec fn kept_from(m: Manifest, index: int) -> int {
    if index >= m.retained_segments - 1 {
        (index - (m.retained_segments - 1)) * m.segment_bytes
    } else {
        0
    }
}

/// Where the oldest segment begins that is kept: that is decided while the segment of
/// the last byte is written.
pub open spec fn first_kept(m: Manifest) -> int {
    if m.end == 0 {
        0
    } else {
        kept_from(m, (m.end - 1) / m.segment_bytes as int)
    }
}

/// What holds of every recorder.
pub open spec fn recording(r: RecorderView) -> bool {
    let m = r.manifest;
    &&& sound(m)
    &&& m.first == first_kept(m)
    &&& m.end % m.segment_bytes != 0 ==> r.open
}

/// A new journal's manifest.
pub open spec fn empty_manifest(
    segment_bytes: u64,
    retained_segments: u64,
    archive: bool,
) -> Manifest {
    Manifest {
        segment_bytes,
        retained_segments,
        first: 0,
        end: 0,
        closed: false,
        archive,
        archived_bytes: 0,
    }
}

/// Creates a journal directory and publishes an empty manifest in it.
pub open spec fn create_run(
    t: Transcript,
    directory: Seq<char>,
    segment_bytes: u64,
    retained: u64,
    archive: bool,
) -> (Transcript, Result<RecorderView, IoHalt>) {
    if segment_bytes == 0 || segment_bytes > SEGMENT_BYTES || retained == 0 || retained
        > RETAINED_SEGMENTS {
        (t, Err(Halt::Failed(invalid_data("Invalid journal retention configuration"@))))
    } else {
        let m = empty_manifest(segment_bytes, retained, archive);
        let (t, r) = performed(
            t,
            directory,
            Seq::<FileActionView>::empty().push(FileActionView::MakeDirectory) + publish_actions(m),
        );
        (
            t,
            match r {
                Err(halt) => Err(halt),
                Ok(_) => Ok(RecorderView { directory, manifest: m, open: false }),
            },
        )
    }
}

/// How much of `available` bytes goes into the segment that is being written.
pub open spec fn chunk_length(m: Manifest, available: nat) -> nat {
    let room = (m.segment_bytes - m.end % m.segment_bytes) as nat;
    if available < room {
        available
    } else {
        room
    }
}

/// The manifest after `count` more bytes went into one segment.
pub open spec fn advanced(m: Manifest, count: nat, archived_bytes: u64) -> Manifest {
    Manifest {
        end: (m.end + count) as u64,
        first: kept_from(m, m.end as int / m.segment_bytes as int) as u64,
        archived_bytes,
        ..m
    }
}

/// Records the first bytes of `bytes`, as far as they go into one segment. Gives
/// their number. Old segments leave only after the manifest that does without
/// them was published.
pub open spec fn chunk_run(t: Transcript, r: RecorderView, bytes: Seq<u8>) -> (
    Transcript,
    RecorderView,
    Result<nat, IoHalt>,
) {
    let m = r.manifest;
    let index = m.end / m.segment_bytes;
    let (t, opened) = if m.end % m.segment_bytes == 0 {
        ask_done(
            t,
            CallView::Journal(r.directory, FileActionView::Create(JournalFile::Segment(index))),
        )
    } else {
        (t, Ok(()))
    };
    match opened {
        Err(halt) => (t, r, Err(halt)),
        Ok(_) => {
            let r = RecorderView { open: r.open || m.end % m.segment_bytes == 0, ..r };
            let count = chunk_length(m, bytes.len());
            if m.end + count > u64::MAX {
                (t, r, Err(Halt::Failed(invalid_data("Journal cursor overflow"@))))
            } else if !r.open {
                (t, r, Err(Halt::Failed(invalid_data("Missing journal segment"@))))
            } else {
                chunk_write_run(t, r, bytes.take(count as int))
            }
        },
    }
}

/// The actions that write a chunk to the segment in use.
pub open spec fn write_actions(m: Manifest, chunk: Seq<u8>) -> Seq<FileActionView> {
    let segment = JournalFile::Segment(m.end / m.segment_bytes);
    seq![FileActionView::Write(segment, chunk), FileActionView::SyncData(segment)]
}

/// The part of `chunk_run` that writes the bytes of the chunk.
pub open spec fn chunk_write_run(t: Transcript, r: RecorderView, chunk: Seq<u8>) -> (
    Transcript,
    RecorderView,
    Result<nat, IoHalt>,
) {
    let m = r.manifest;
    let size = m.segment_bytes;
    let (t, written) = performed(t, r.directory, write_actions(m, chunk));
    match written {
        Err(halt) => (t, r, Err(halt)),
        Ok(_) => {
            let first = advanced(m, 0, 0).first;
            let (t, archived) = if m.archive {
                archive_all_run(t, r.directory, m.first / size, first / size, size, m.archived_bytes)
            } else {
                (t, Ok(m.archived_bytes))
            };
            match archived {
                Err(halt) => (t, r, Err(halt)),
                Ok(archived_bytes) => chunk_publish_run(
                    t,
                    r,
                    advanced(m, chunk.len(), archived_bytes),
                    chunk.len(),
                ),
            }
        },
    }
}

/// The part of `chunk_run` that publishes the new manifest and removes what it
/// does without.
pub open spec fn chunk_publish_run(t: Transcript, r: RecorderView, m: Manifest, count: nat) -> (
    Transcript,
    RecorderView,
    Result<nat, IoHalt>,
) {
    let after = RecorderView { manifest: m, ..r };
    let (t, published) = performed(t, r.directory, publish_actions(m));
    match published {
        Err(halt) => (t, after, Err(halt)),
        Ok(_) => {
            let (t, removed) = performed(
                t,
                r.directory,
                remove_actions(
                    r.manifest.first / m.segment_bytes,
                    m.first / m.segment_bytes,
                ),
            );
            match removed {
                Err(halt) => (t, after, Err(halt)),
                Ok(_) => (t, after, Ok(count)),
            }
        },
    }
}

/// Records bytes segment by segment.
pub open spec fn chunks_run(t: Transcript, r: RecorderView, bytes: Seq<u8>) -> (
    Transcript,
    RecorderView,
    Result<(), IoHalt>,
)
    decreases bytes.len(),
{
    if bytes.len() == 0 {
        (t, r, Ok(()))
    } else {
        let (t, r, recorded) = chunk_run(t, r, bytes);
        match recorded {
            Err(halt) => (t, r, Err(halt)),
            Ok(count) => if 0 < count <= bytes.len() {
                chunks_run(t, r, bytes.skip(count as int))
            } else {
                (t, r, Ok(()))
            },
        }
    }
}

/// Records bytes, unless the journal was closed.
pub open spec fn append_run(t: Transcript, r: RecorderView, bytes: Seq<u8>) -> (
    Transcript,
    RecorderView,
    Result<(), IoHalt>,
) {
    if r.manifest.closed {
        (t, r, Err(Halt::Failed(invalid_data("Cannot append after journal EOF"@))))
    } else {
        chunks_run(t, r, bytes)
    }
}

pub proof fn lemma_kept(m: Manifest, index: int)
    requires
        sound(m),
        index >= 0,
    ensures
        0 <= kept_from(m, index) <= index * m.segment_bytes,
        kept_from(m, index) % (m.segment_bytes as int) == 0,
        (index + 1) * m.segment_bytes - kept_from(m, index) <= m.segment_bytes
            * m.retained_segments,
{
    let size = m.segment_bytes as int;
    let kept = index - (m.retained_segments - 1);
    if kept >= 0 {
        assert(kept * size <= index * size) by (nonlinear_arith)
            requires
                kept <= index,
                size > 0,
        ;
        assert(0 <= kept * size) by (nonlinear_arith)
            requires
                0 <= kept,
                size > 0,
        ;
        vstd::arithmetic::div_mod::lemma_mod_multiples_basic(kept, size);
        assert((index + 1) * size - kept * size == size * (index + 1 - kept)) by (nonlinear_arith);
    } else {
        assert(0 <= index * size) by (nonlinear_arith)
            requires
                0 <= index,
                size > 0,
        ;
        assert((index + 1) * size <= size * m.retained_segments) by (nonlinear_arith)
            requires
                index + 1 <= m.retained_segments,
                size > 0,
        ;
    }
}

/// Recording a chunk keeps what holds of every recorder.
pub proof fn lemma_advanced(r: RecorderView, count: nat, archived_bytes: u64)
    requires
        recording(r),
        0 < count <= r.manifest.segment_bytes - r.manifest.end % r.manifest.segment_bytes,
        r.manifest.end + count <= u64::MAX,
        !r.manifest.archive ==> archived_bytes == 0,
    ensures
        r.manifest.first <= kept_from(
            r.manifest,
            r.manifest.end as int / r.manifest.segment_bytes as int,
        ) <= r.manifest.end,
        recording(
            RecorderView {
                manifest: advanced(r.manifest, count, archived_bytes),
                open: true,
                ..r
            },
        ),
{
    let m = r.manifest;
    let size = m.segment_bytes as int;
    let end = m.end as int;
    let index = end / size;
    let next = advanced(m, count, archived_bytes);
    lemma_kept(m, index);
    vstd::arithmetic::div_mod::lemma_fundamental_div_mod(end, size);
    assert(index * size <= end) by (nonlinear_arith)
        requires
            end == size * index + end % size,
            end % size >= 0,
    ;
    assert(end + count <= (index + 1) * size) by (nonlinear_arith)
        requires
            end == size * index + end % size,
            count <= size - end % size,
    ;
    if end > 0 {
        vstd::arithmetic::div_mod::lemma_div_is_ordered(end - 1, end, size);
        lemma_kept_grows(m, (end - 1) / size, index);
    }
    vstd::arithmetic::div_mod::lemma_fundamental_div_mod_converse(
        end + count - 1,
        size,
        index,
        end % size + count - 1,
    );
    assert(kept_from(next, index) == kept_from(m, index));
}

/// What is kept begins no earlier while a later segment is written.
pub proof fn lemma_kept_grows(m: Manifest, index: int, later: int)
    requires
        sound(m),
        0 <= index <= later,
    ensures
        kept_from(m, index) <= kept_from(m, later),
{
    lemma_kept(m, later);
    assert((index - (m.retained_segments - 1)) * m.segment_bytes <= (later - (m.retained_segments
        - 1)) * m.segment_bytes) by (nonlinear_arith)
        requires
            index <= later,
            m.segment_bytes > 0,
    ;
}

impl Recorder {
    /// What holds of every recorder.
    pub open spec fn valid(&self) -> bool {
        recording(self.deep_view())
    }

    /// Creates a journal that keeps all output. Creation is exclusive: output
    /// emitted while a recorder was down cannot be reconstructed faithfully.
    pub fn create(script: &mut Script, directory: &str) -> (r: Result<Recorder, Halt<IoError>>)
        ensures
            (final(script).deep_view(), outcome(r)) == create_run(
                old(script).deep_view(),
                directory@,
                SEGMENT_BYTES,
                RETAINED_SEGMENTS,
                true,
            ),
            r matches Ok(recorder) ==> recorder.valid(),
    {
        Self::create_with_policy(script, directory, RetentionPolicy::default())
    }

    /// Creates a journal with this policy.
    pub fn create_with_policy(
        script: &mut Script,
        directory: &str,
        policy: RetentionPolicy,
    ) -> (r: Result<Recorder, Halt<IoError>>)
        ensures
            (final(script).deep_view(), outcome(r)) == create_run(
                old(script).deep_view(),
                directory@,
                SEGMENT_BYTES,
                RETAINED_SEGMENTS,
                policy == RetentionPolicy::UntilWorkspaceDeleted,
            ),
            r matches Ok(recorder) ==> recorder.valid(),
    {
        Self::with_configuration(
            script,
            directory,
            SEGMENT_BYTES,
            RETAINED_SEGMENTS,
            policy == RetentionPolicy::UntilWorkspaceDeleted,
        )
    }

    /// Creates a journal that keeps so many segments of this size and no archive.
    pub fn with_retention(
        script: &mut Script,
        directory: &str,
        segment_bytes: u64,
        retained: u64,
    ) -> (r: Result<Recorder, Halt<IoError>>)
        ensures
            (final(script).deep_view(), outcome(r)) == create_run(
                old(script).deep_view(),
                directory@,
                segment_bytes,
                retained,
                false,
            ),
            r matches Ok(recorder) ==> recorder.valid(),
    {
        Self::with_configuration(script, directory, segment_bytes, retained, false)
    }

    /// Creates a journal with so many segments of this size that are not compressed.
    pub fn with_configuration(
        script: &mut Script,
        directory: &str,
        segment_bytes: u64,
        retained: u64,
        archive: bool,
    ) -> (r: Result<Recorder, Halt<IoError>>)
        ensures
            (final(script).deep_view(), outcome(r)) == create_run(
                old(script).deep_view(),
                directory@,
                segment_bytes,
                retained,
                archive,
            ),
            r matches Ok(recorder) ==> recorder.valid(),
    {
        if segment_bytes == 0 || segment_bytes > SEGMENT_BYTES || retained == 0 || retained
            > RETAINED_SEGMENTS {
            return Err(Halt::Failed(invalid("Invalid journal retention configuration")));
        }
        let m = Manifest {
            segment_bytes,
            retained_segments: retained,
            first: 0,
            end: 0,
            closed: false,
            archive,
            archived_bytes: 0,
        };
        let contents = bytes::of_text(format_manifest(&m).as_str());
        let actions = vec![
            FileAction::MakeDirectory,
            FileAction::Create(JournalFile::ManifestPending),
            FileAction::Write(JournalFile::ManifestPending, contents),
            FileAction::SyncAll(JournalFile::ManifestPending),
            FileAction::Rename(JournalFile::ManifestPending, JournalFile::Manifest),
            FileAction::SyncDirectory,
        ];
        assert(actions.deep_view() =~= seq![FileActionView::MakeDirectory] + publish_actions(m));
        perform(script, directory, actions)?;
        proof {
            assert(0 <= segment_bytes * retained) by (nonlinear_arith);
            lemma_kept(m, 0);
        }
        Ok(Recorder { directory: directory.to_owned(), manifest: m, open: false })
    }

    /// The published state that this recorder continues.
    pub fn manifest(&self) -> (m: Manifest)
        ensures
            m == self.deep_view().manifest,
    {
        self.manifest
    }

    fn copy(&self) -> (r: Recorder)
        ensures
            r.deep_view() == self.deep_view(),
    {
        Recorder { directory: self.directory.clone(), manifest: self.manifest, open: self.open }
    }

    /// Records the first bytes from `start` on that go into one segment.
    fn append_chunk(&mut self, script: &mut Script, data: &[u8], start: usize) -> (r: Result<
        usize,
        Halt<IoError>,
    >)
        requires
            old(self).valid(),
            start < data@.len(),
        ensures
            ({
                let (t, after, model) = chunk_run(
                    old(script).deep_view(),
                    old(self).deep_view(),
                    data@.skip(start as int),
                );
                &&& final(script).deep_view() == t
                &&& final(self).deep_view() == after
                &&& match (r, model) {
                    (Ok(count), Ok(n)) => count == n && 0 < count <= data@.len() - start,
                    (Err(halt), Err(h)) => halt.deep_view() == h,
                    _ => false,
                }
            }),
            restorable(old(script).deep_view(), final(script).deep_view()),
            final(self).valid(),
    {
        let m = self.manifest;
        let ghost before = self.deep_view();
        let size: u64 = m.segment_bytes;
        let index: u64 = m.end / size;
        let offset: u64 = m.end % size;
        let ghost begun = script.deep_view();
        proof {
            lemma_restorable_ask(
                begun,
                CallView::Journal(
                    before.directory,
                    FileActionView::Create(JournalFile::Segment(index)),
                ),
            );
        }
        if offset == 0 {
            script.done(
                Call::Journal(
                    self.directory.clone(),
                    FileAction::Create(JournalFile::Segment(index)),
                ),
            )?;
            self.open = true;
        }
        let room: usize = (size - offset) as usize;
        let count: usize = if data.len() - start < room {
            data.len() - start
        } else {
            room
        };
        if m.end.checked_add(count as u64).is_none() {
            return Err(Halt::Failed(invalid("Journal cursor overflow")));
        }
        if !self.open {
            return Err(Halt::Failed(invalid("Missing journal segment")));
        }
        let chunk = bytes::slice(data, start, start + count);
        assert(chunk@ =~= data@.skip(start as int).take(count as int));
        proof {
            lemma_advanced(before, count as nat, 0);
        }
        let ghost opened = script.deep_view();
        let written = self.write_chunk(script, chunk);
        proof {
            lemma_restorable(begun, opened, script.deep_view());
        }
        written?;
        Ok(count)
    }

    /// Writes the bytes of a chunk to the segment that is open and publishes them.
    fn write_chunk(&mut self, script: &mut Script, chunk: Vec<u8>) -> (r: Result<
        (),
        Halt<IoError>,
    >)
        requires
            old(self).valid(),
            old(self).deep_view().open,
            0 < chunk@.len() <= old(self).deep_view().manifest.segment_bytes - old(
                self,
            ).deep_view().manifest.end % old(self).deep_view().manifest.segment_bytes,
            old(self).deep_view().manifest.end + chunk@.len() <= u64::MAX,
        ensures
            ({
                let (t, after, model) = chunk_write_run(
                    old(script).deep_view(),
                    old(self).deep_view(),
                    chunk@,
                );
                &&& final(script).deep_view() == t
                &&& final(self).deep_view() == after
                &&& match (r, model) {
                    (Ok(_), Ok(n)) => n == chunk@.len(),
                    (Err(halt), Err(h)) => halt.deep_view() == h,
                    _ => false,
                }
            }),
            restorable(old(script).deep_view(), final(script).deep_view()),
            final(self).valid(),
    {
        let m = self.manifest;
        let ghost before = self.deep_view();
        let size: u64 = m.segment_bytes;
        let index: u64 = m.end / size;
        let count: u64 = chunk.len() as u64;
        let actions = vec![
            FileAction::Write(JournalFile::Segment(index), chunk),
            FileAction::SyncData(JournalFile::Segment(index)),
        ];
        let ghost model = write_actions(m, chunk@);
        assert(actions.deep_view() =~= model);
        let ghost begun = script.deep_view();
        proof {
            lemma_restorable_performed(begun, before.directory, model);
        }
        perform(script, self.directory.as_str(), actions)?;
        let ghost wrote = script.deep_view();
        proof {
            lemma_advanced(before, count as nat, 0);
        }
        let first: u64 = if index >= m.retained_segments - 1 {
            (index - (m.retained_segments - 1)) * size
        } else {
            0
        };
        let archived = if m.archive {
            archive_all(
                script,
                self.directory.as_str(),
                m.first / size,
                first / size,
                size,
                m.archived_bytes,
            )
        } else {
            Ok(m.archived_bytes)
        };
        proof {
            lemma_restorable_ask(wrote, CallView::Clock);
            lemma_restorable(begun, wrote, script.deep_view());
        }
        let archived_bytes: u64 = archived?;
        proof {
            lemma_advanced(before, count as nat, archived_bytes);
        }
        self.manifest.end = m.end + count;
        self.manifest.first = first;
        self.manifest.archived_bytes = archived_bytes;
        assert(self.manifest == advanced(m, count as nat, archived_bytes));
        let ghost settled = script.deep_view();
        let published = publish(script, self.directory.as_str(), &self.manifest);
        proof {
            lemma_restorable(begun, settled, script.deep_view());
        }
        published?;
        let ghost settled = script.deep_view();
        let removed = remove_segments(
            script,
            self.directory.as_str(),
            m.first / size,
            first / size,
        );
        proof {
            lemma_restorable(begun, settled, script.deep_view());
        }
        removed
    }

    /// Records bytes. Each segment is published before the next one is begun, so
    /// that a large write cannot evade retention for a while, nor leave readers
    /// with a segment that was removed. After a failure the recorder is what the
    /// failed step left of it; while it waits it is unchanged.
    pub fn append(&mut self, script: &mut Script, bytes: &Vec<u8>) -> (r: Result<(), Halt<IoError>>)
        requires
            old(self).valid(),
        ensures
            ({
                let (t, after, model) = append_run(
                    old(script).deep_view(),
                    old(self).deep_view(),
                    bytes@,
                );
                &&& final(script).deep_view() == t
                &&& outcome(r) == model
                &&& final(self).deep_view() == (if model == Err::<(), IoHalt>(Halt::Waiting) {
                    old(self).deep_view()
                } else {
                    after
                })
            }),
            restorable(old(script).deep_view(), final(script).deep_view()),
            final(self).valid(),
    {
        proof {
            lemma_restorable_ask(script.deep_view(), CallView::Clock);
        }
        if self.manifest.closed {
            return Err(Halt::Failed(invalid("Cannot append after journal EOF")));
        }
        let mut state = self.copy();
        let mut start: usize = 0;
        assert(bytes@.skip(0) =~= bytes@);
        while start < bytes.len()
            invariant
                start <= bytes@.len(),
                state.valid(),
                restorable(old(script).deep_view(), script.deep_view()),
                self.deep_view() == old(self).deep_view(),
                old(self).valid(),
                !old(self).deep_view().manifest.closed,
                chunks_run(old(script).deep_view(), old(self).deep_view(), bytes@) == chunks_run(
                    script.deep_view(),
                    state.deep_view(),
                    bytes@.skip(start as int),
                ),
            decreases bytes@.len() - start,
        {
            let ghost before = script.deep_view();
            let recorded = state.append_chunk(script, bytes.as_slice(), start);
            proof {
                lemma_restorable(old(script).deep_view(), before, script.deep_view());
            }
            match recorded {
                Ok(count) => {
                    assert(bytes@.skip(start as int).skip(count as int) =~= bytes@.skip(
                        start + count,
                    ));
                    start += count;
                },
                Err(Halt::Waiting) => return Err(Halt::Waiting),
                Err(halt) => {
                    *self = state;
                    return Err(halt);
                },
            }
        }
        *self = state;
        Ok(())
    }

    /// Publishes the clean end of the recorded stream. Nothing can be recorded after
    /// it; while it waits the recorder is unchanged.
    pub fn close(&mut self, script: &mut Script) -> (r: Result<(), Halt<IoError>>)
        ensures
            ({
                let before = old(self).deep_view();
                let m = Manifest { closed: true, ..before.manifest };
                let (t, model) = performed(
                    old(script).deep_view(),
                    before.directory,
                    publish_actions(m),
                );
                &&& final(script).deep_view() == t
                &&& outcome(r) == model
                &&& final(self).deep_view() == (if model == Err::<(), IoHalt>(Halt::Waiting) {
                    before
                } else {
                    RecorderView { manifest: m, ..before }
                })
            }),
            old(self).valid() ==> final(self).valid(),
    {
        let mut m = self.manifest;
        m.closed = true;
        let r = publish(script, self.directory.as_str(), &m);
        match &r {
            Err(Halt::Waiting) => {},
            _ => {
                self.manifest = m;
            },
        }
        r
    }
}

} // verus!
