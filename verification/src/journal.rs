//! Connection-independent terminal journal with bounded hot storage and optional
//! compressed history.
//!
//! A multiplexer's pipe owns the recorder process. The daemon only reads
//! snapshots. A cursor is a byte offset within one workspace incarnation.
//! Published bytes are immutable; a reader never observes an uncommitted tail.

use crate::bytes;
use crate::host::{
    ask_bytes, ask_done, continues, lemma_ask_continues, lemma_continues, outcome, Call, CallView,
    FileAction, FileActionView, Halt, IoError, IoErrorView, IoHalt, IoKind, JournalFile, Script,
    Transcript,
};
use crate::number::{decimal, decimal_text, hex, hex_text, parse, parsed};
use crate::text;
use vstd::prelude::*;
use vstd::string::*;
use vstd::utf8::{decode_utf8, valid_utf8};

pub mod finalization;
pub mod format_laws;
pub mod laws;
pub mod naming_laws;
pub mod reading_laws;
pub mod reader;
pub mod recorder;
pub mod storage_laws;

verus! {

pub const RECORDER_ARGUMENT: &'static str = "--persistent-workspace-recorder";

pub const SEGMENT_BYTES: u64 = 1024 * 1024;

pub const RETAINED_SEGMENTS: u64 = 64;

pub const MAX_PAGE_BYTES: usize = 256 * 1024;

/// How long the output of a workspace is kept.
#[derive(Clone, Copy, PartialEq, Eq, Structural, Debug)]
pub enum RetentionPolicy {
    UntilWorkspaceDeleted,
    Rolling,
}

impl Default for RetentionPolicy {
    fn default() -> (policy: Self)
        ensures
            policy == RetentionPolicy::UntilWorkspaceDeleted,
    {
        RetentionPolicy::UntilWorkspaceDeleted
    }
}

impl DeepView for RetentionPolicy {
    type V = RetentionPolicy;

    open spec fn deep_view(&self) -> RetentionPolicy {
        *self
    }
}

/// The published state of a journal.
#[derive(Clone, Copy, PartialEq, Eq, Structural, Debug)]
pub struct Manifest {
    pub segment_bytes: u64,
    pub retained_segments: u64,
    /// Where the first segment that is not compressed begins.
    pub first: u64,
    /// How many bytes were recorded.
    pub end: u64,
    /// The recorded stream has ended cleanly.
    pub closed: bool,
    /// Old segments are compressed, not dropped.
    pub archive: bool,
    pub archived_bytes: u64,
}

impl DeepView for Manifest {
    type V = Manifest;

    open spec fn deep_view(&self) -> Manifest {
        *self
    }
}

/// A page of recorded output. `closed` means that the recorded stream has ended
/// cleanly, not that the shell is idle or has exited.
#[derive(Debug)]
pub struct OutputPage {
    pub start_cursor: u64,
    pub next_cursor: u64,
    pub earliest_cursor: u64,
    pub high_watermark: u64,
    pub history_gap: bool,
    pub closed: bool,
    pub bytes: Vec<u8>,
}

#[verifier::ext_equal]
pub struct OutputPageView {
    pub start_cursor: u64,
    pub next_cursor: u64,
    pub earliest_cursor: u64,
    pub high_watermark: u64,
    pub history_gap: bool,
    pub closed: bool,
    pub bytes: Seq<u8>,
}

impl DeepView for OutputPage {
    type V = OutputPageView;

    open spec fn deep_view(&self) -> OutputPageView {
        OutputPageView {
            start_cursor: self.start_cursor,
            next_cursor: self.next_cursor,
            earliest_cursor: self.earliest_cursor,
            high_watermark: self.high_watermark,
            history_gap: self.history_gap,
            closed: self.closed,
            bytes: self.bytes@,
        }
    }
}

// ---------------------------------------------------------------------------
// Files
// ---------------------------------------------------------------------------

/// The name of a file within the journal directory.
pub open spec fn file_name_text(file: JournalFile) -> Seq<char> {
    match file {
        JournalFile::Manifest => "manifest"@,
        JournalFile::ManifestPending => "manifest.pending"@,
        JournalFile::FinalizeRequest => "finalize.request"@,
        JournalFile::Segment(index) => hex_text(index as nat, 16) + ".output"@,
        JournalFile::Archive(index) => hex_text(index as nat, 16) + ".output.gz"@,
        JournalFile::ArchivePending(index) => hex_text(index as nat, 16) + ".output.gz.pending"@,
    }
}

/// The name of a file within the journal directory.
pub fn file_name(file: JournalFile) -> (name: String)
    ensures
        name@ == file_name_text(file),
{
    match file {
        JournalFile::Manifest => "manifest".to_owned(),
        JournalFile::ManifestPending => "manifest.pending".to_owned(),
        JournalFile::FinalizeRequest => "finalize.request".to_owned(),
        JournalFile::Segment(index) => text::joined(hex(index, 16).as_str(), ".output"),
        JournalFile::Archive(index) => text::joined(hex(index, 16).as_str(), ".output.gz"),
        JournalFile::ArchivePending(index) => text::joined(
            hex(index, 16).as_str(),
            ".output.gz.pending",
        ),
    }
}

pub(crate) fn invalid(message: &str) -> (error: IoError)
    ensures
        error.deep_view() == invalid_data(message@),
{
    IoError::new(IoKind::InvalidData, message)
}

pub open spec fn invalid_data(message: Seq<char>) -> IoErrorView {
    IoErrorView { kind: IoKind::InvalidData, message }
}

pub open spec fn invalid_input(message: Seq<char>) -> IoErrorView {
    IoErrorView { kind: IoKind::InvalidInput, message }
}

/// The file is not there.
pub open spec fn not_found(halt: IoHalt) -> bool {
    halt matches Halt::Failed(error) && error.kind == IoKind::NotFound
}

pub(crate) fn is_not_found(halt: &Halt<IoError>) -> (r: bool)
    ensures
        r == not_found(halt.deep_view()),
{
    match halt {
        Halt::Failed(error) => error.kind == IoKind::NotFound,
        Halt::Waiting => false,
    }
}

/// Carries out actions on a journal's files in order, up to the first that fails.
pub open spec fn performed(
    t: Transcript,
    directory: Seq<char>,
    actions: Seq<FileActionView>,
) -> (Transcript, Result<(), IoHalt>)
    decreases actions.len(),
{
    if actions.len() == 0 {
        (t, Ok(()))
    } else {
        let (next, r) = ask_done(t, CallView::Journal(directory, actions[0]));
        match r {
            Ok(_) => performed(next, directory, actions.drop_first()),
            Err(halt) => (next, Err(halt)),
        }
    }
}

/// Actions continue what came before them, and ask for nothing else.
pub proof fn lemma_performed_continues(
    t: Transcript,
    directory: Seq<char>,
    actions: Seq<FileActionView>,
)
    ensures
        ({
            let next = performed(t, directory, actions).0;
            &&& continues(t, next)
            &&& next.calls.len() <= t.calls.len() + actions.len()
            &&& forall|i: int|
                t.calls.len() <= i < next.calls.len() ==> #[trigger] next.calls[i]
                    == CallView::Journal(directory, actions[i - t.calls.len()])
        }),
    decreases actions.len(),
{
    assert(t.calls.take(t.calls.len() as int) =~= t.calls);
    if actions.len() > 0 {
        let (mid, r) = ask_done(t, CallView::Journal(directory, actions[0]));
        lemma_ask_continues(t, CallView::Journal(directory, actions[0]));
        if r is Ok {
            let next = performed(t, directory, actions).0;
            lemma_performed_continues(mid, directory, actions.drop_first());
            lemma_continues(t, mid, next);
            assert forall|i: int| t.calls.len() <= i < next.calls.len() implies #[trigger] next.calls[i]
                == CallView::Journal(directory, actions[i - t.calls.len()]) by {
                if i == t.calls.len() {
                    assert(next.calls[i] == mid.calls.last());
                } else {
                    assert(actions.drop_first()[i - mid.calls.len()] == actions[i
                        - t.calls.len()]);
                }
            }
        }
    }
}

pub(crate) fn perform(script: &mut Script, directory: &str, actions: Vec<FileAction>) -> (r: Result<
    (),
    Halt<IoError>,
>)
    ensures
        (final(script).deep_view(), outcome(r)) == performed(
            old(script).deep_view(),
            directory@,
            actions.deep_view(),
        ),
{
    let ghost start = script.deep_view();
    let ghost model = actions.deep_view();
    let ghost mut done: int = 0;
    assert(model.skip(0) =~= model);
    for action in it: actions
        invariant
            start == old(script).deep_view(),
            it.seq() == actions@,
            done == it.index(),
            model == actions.deep_view(),
            performed(start, directory@, model) == performed(
                script.deep_view(),
                directory@,
                model.skip(done),
            ),
    {
        assert(model.skip(done)[0] == action.deep_view());
        assert(model.skip(done).drop_first() =~= model.skip(done + 1));
        script.done(Call::Journal(directory.to_owned(), action))?;
        proof {
            done = done + 1;
        }
    }
    assert(model.skip(done) =~= Seq::empty());
    Ok(())
}

// ---------------------------------------------------------------------------
// Manifest
// ---------------------------------------------------------------------------

/// What a journal's manifest has to satisfy.
pub open spec fn sound(m: Manifest) -> bool {
    &&& 0 < m.segment_bytes <= SEGMENT_BYTES
    &&& 0 < m.retained_segments <= RETAINED_SEGMENTS
    &&& m.first <= m.end
    &&& m.first % m.segment_bytes == 0
    &&& m.end - m.first <= m.segment_bytes * m.retained_segments
    &&& !m.archive ==> m.archived_bytes == 0
}

/// The contents of a manifest's file.
pub open spec fn manifest_text(m: Manifest) -> Seq<char> {
    let fields = (if m.archive {
        "EWJ2"@
    } else {
        "EWJ1"@
    }) + " "@ + decimal_text(m.segment_bytes as nat) + " "@ + decimal_text(
        m.retained_segments as nat,
    ) + " "@ + decimal_text(m.first as nat) + " "@ + decimal_text(m.end as nat) + " "@ + (
    if m.closed {
        "1"@
    } else {
        "0"@
    });
    (if m.archive {
        fields + " "@ + decimal_text(m.archived_bytes as nat)
    } else {
        fields
    }) + "\n"@
}

pub(crate) fn format_manifest(m: &Manifest) -> (out: String)
    ensures
        out@ == manifest_text(*m),
{
    let mut out = if m.archive {
        "EWJ2".to_owned()
    } else {
        "EWJ1".to_owned()
    };
    out.append(" ");
    out.append(decimal(m.segment_bytes).as_str());
    out.append(" ");
    out.append(decimal(m.retained_segments).as_str());
    out.append(" ");
    out.append(decimal(m.first).as_str());
    out.append(" ");
    out.append(decimal(m.end).as_str());
    out.append(" ");
    out.append(
        if m.closed {
            "1"
        } else {
            "0"
        },
    );
    if m.archive {
        out.append(" ");
        out.append(decimal(m.archived_bytes).as_str());
    }
    out.append("\n");
    out
}

/// The manifest that the words of a file denote, or what is wrong with them.
pub open spec fn manifest_of_words(fields: Seq<Seq<char>>) -> Result<Manifest, IoErrorView> {
    let archive = fields.len() == 7 && fields[0] == "EWJ2"@;
    let rolling = fields.len() == 6 && fields[0] == "EWJ1"@;
    if !archive && !rolling {
        Err(invalid_data("Invalid journal manifest"@))
    } else {
        match (
            parsed(fields[1], u64::MAX as nat),
            parsed(fields[2], u64::MAX as nat),
            parsed(fields[3], u64::MAX as nat),
            parsed(fields[4], u64::MAX as nat),
        ) {
            (Some(segment_bytes), Some(retained_segments), Some(first), Some(end)) => {
                if fields[5] != "0"@ && fields[5] != "1"@ {
                    Err(invalid_data("Invalid journal EOF"@))
                } else if archive && parsed(fields[6], u64::MAX as nat) is None {
                    Err(invalid_data("Invalid journal cursor"@))
                } else {
                    let m = Manifest {
                        segment_bytes: segment_bytes as u64,
                        retained_segments: retained_segments as u64,
                        first: first as u64,
                        end: end as u64,
                        closed: fields[5] != "0"@,
                        archive,
                        archived_bytes: if archive {
                            parsed(fields[6], u64::MAX as nat)->0 as u64
                        } else {
                            0
                        },
                    };
                    if sound(m) {
                        Ok(m)
                    } else {
                        Err(invalid_data("Inconsistent journal manifest"@))
                    }
                }
            },
            _ => Err(invalid_data("Invalid journal cursor"@)),
        }
    }
}

/// The manifest that the first bytes of a file denote, or what is wrong with them.
pub open spec fn manifest_of(contents: Seq<u8>) -> Result<Manifest, IoErrorView> {
    if !valid_utf8(contents) {
        Err(invalid_data("stream did not contain valid UTF-8"@))
    } else if contents.len() > 256 {
        Err(invalid_data("Oversized journal manifest"@))
    } else {
        manifest_of_words(text::words_of(decode_utf8(contents)))
    }
}

fn parse_fields(fields: &Vec<String>) -> (r: Result<Manifest, IoError>)
    ensures
        outcome(r) == manifest_of_words(text::texts(fields@)),
{
    let ghost model = text::texts(fields@);
    assert(forall|i: int| 0 <= i < fields@.len() ==> model[i] == fields@[i]@);
    let archive = fields.len() == 7 && text::same(fields[0].as_str(), "EWJ2");
    let rolling = fields.len() == 6 && text::same(fields[0].as_str(), "EWJ1");
    if !archive && !rolling {
        return Err(invalid("Invalid journal manifest"));
    }
    match (
        parse(fields[1].as_str(), u64::MAX),
        parse(fields[2].as_str(), u64::MAX),
        parse(fields[3].as_str(), u64::MAX),
        parse(fields[4].as_str(), u64::MAX),
    ) {
        (Some(segment_bytes), Some(retained_segments), Some(first), Some(end)) => {
            let open = text::same(fields[5].as_str(), "0");
            if !open && !text::same(fields[5].as_str(), "1") {
                return Err(invalid("Invalid journal EOF"));
            }
            let archived_bytes: u64 = if archive {
                match parse(fields[6].as_str(), u64::MAX) {
                    Some(count) => count,
                    None => return Err(invalid("Invalid journal cursor")),
                }
            } else {
                0
            };
            let m = Manifest {
                segment_bytes,
                retained_segments,
                first,
                end,
                closed: !open,
                archive,
                archived_bytes,
            };
            if segment_bytes == 0 || segment_bytes > SEGMENT_BYTES || retained_segments == 0
                || retained_segments > RETAINED_SEGMENTS {
                return Err(invalid("Inconsistent journal manifest"));
            }
            assert(segment_bytes * retained_segments <= 1024 * 1024 * 64) by (nonlinear_arith)
                requires
                    segment_bytes <= 1024 * 1024,
                    retained_segments <= 64,
            ;
            if first > end || first % segment_bytes != 0 || end - first > segment_bytes
                * retained_segments {
                return Err(invalid("Inconsistent journal manifest"));
            }
            Ok(m)
        },
        _ => Err(invalid("Invalid journal cursor")),
    }
}

/// Reads the manifest that the first bytes of a file denote.
pub fn parse_manifest(contents: &Vec<u8>) -> (r: Result<Manifest, IoError>)
    ensures
        outcome(r) == manifest_of(contents@),
{
    match bytes::to_text(contents.as_slice()) {
        Err(_) => Err(invalid("stream did not contain valid UTF-8")),
        Ok(contents_text) => {
            if contents.len() > 256 {
                return Err(invalid("Oversized journal manifest"));
            }
            parse_fields(&text::words(contents_text.as_str()))
        },
    }
}

/// The published manifest of a journal directory.
pub open spec fn manifest_run(t: Transcript, directory: Seq<char>) -> (
    Transcript,
    Result<Manifest, IoHalt>,
) {
    let (next, r) = ask_bytes(
        t,
        CallView::Journal(directory, FileActionView::ReadStart(JournalFile::Manifest, 257)),
    );
    (
        next,
        match r {
            Err(halt) => Err(halt),
            Ok(contents) => match manifest_of(contents) {
                Ok(m) => Ok(m),
                Err(error) => Err(Halt::Failed(error)),
            },
        },
    )
}

pub(crate) fn manifest(script: &mut Script, directory: &str) -> (r: Result<Manifest, Halt<IoError>>)
    ensures
        (final(script).deep_view(), outcome(r)) == manifest_run(
            old(script).deep_view(),
            directory@,
        ),
        r matches Ok(m) ==> sound(m),
{
    broadcast use bytes::bytes_deep_view;

    let contents = script.bytes(
        Call::Journal(directory.to_owned(), FileAction::ReadStart(JournalFile::Manifest, 257)),
    )?;
    match parse_manifest(&contents) {
        Ok(m) => Ok(m),
        Err(error) => Err(Halt::Failed(error)),
    }
}

/// How many bytes a journal occupies, archived and not.
pub open spec fn retained_storage_run(t: Transcript, directory: Seq<char>) -> (
    Transcript,
    Result<u64, IoHalt>,
) {
    let (next, r) = manifest_run(t, directory);
    (
        next,
        match r {
            Err(halt) => Err(halt),
            Ok(m) => if m.archived_bytes + (m.end - m.first) <= u64::MAX {
                Ok((m.archived_bytes + (m.end - m.first)) as u64)
            } else {
                Err(Halt::Failed(invalid_data("Journal storage size overflow"@)))
            },
        },
    )
}

/// How many bytes a journal occupies: its archived segments and those in use.
pub fn retained_storage_bytes(script: &mut Script, directory: &str) -> (r: Result<
    u64,
    Halt<IoError>,
>)
    ensures
        (final(script).deep_view(), outcome(r)) == retained_storage_run(
            old(script).deep_view(),
            directory@,
        ),
{
    let snapshot = manifest(script, directory)?;
    match snapshot.archived_bytes.checked_add(snapshot.end - snapshot.first) {
        Some(total) => Ok(total),
        None => Err(Halt::Failed(invalid("Journal storage size overflow"))),
    }
}

} // verus!
