//! The end of a recorded stream, and how a recorder is started.

use crate::host::{
    ask_done, ask_entry, outcome, Call, CallView, FileAction, FileActionView, Halt, IoError,
    IoErrorView, IoHalt, IoKind, JournalFile, Script, Transcript,
};
use crate::journal::{
    invalid, invalid_data, is_not_found, not_found, perform, performed, RetentionPolicy,
    RECORDER_ARGUMENT,
};
use crate::text;
use vstd::prelude::*;

verus! {

/// Whether the end of the recorded stream was requested.
pub open spec fn requested_run(t: Transcript, directory: Seq<char>) -> (
    Transcript,
    Result<bool, IoHalt>,
) {
    let (t, r) = ask_entry(
        t,
        CallView::Journal(directory, FileActionView::Describe(JournalFile::FinalizeRequest)),
    );
    (
        t,
        match r {
            Ok(entry) => if entry.file && entry.private {
                Ok(true)
            } else {
                Err(Halt::Failed(invalid_data("Invalid recorder finalization request"@)))
            },
            Err(halt) => if not_found(halt) {
                Ok(false)
            } else {
                Err(halt)
            },
        },
    )
}

/// Whether the end of the recorded stream was requested.
pub fn finalization_requested(script: &mut Script, directory: &str) -> (r: Result<
    bool,
    Halt<IoError>,
>)
    ensures
        (final(script).deep_view(), outcome(r)) == requested_run(
            old(script).deep_view(),
            directory@,
        ),
{
    match script.entry(
        Call::Journal(directory.to_owned(), FileAction::Describe(JournalFile::FinalizeRequest)),
    ) {
        Ok(entry) => {
            if entry.file && entry.private {
                Ok(true)
            } else {
                Err(Halt::Failed(invalid("Invalid recorder finalization request")))
            }
        },
        Err(halt) => {
            if is_not_found(&halt) {
                Ok(false)
            } else {
                Err(halt)
            }
        },
    }
}

pub open spec fn already_exists(halt: IoHalt) -> bool {
    halt matches Halt::Failed(error) && error.kind == IoKind::AlreadyExists
}

/// Requests the end of the recorded stream; a request that is there already is enough.
pub open spec fn request_run(t: Transcript, directory: Seq<char>) -> (
    Transcript,
    Result<(), IoHalt>,
) {
    let (t, r) = ask_done(
        t,
        CallView::Journal(directory, FileActionView::Create(JournalFile::FinalizeRequest)),
    );
    match r {
        Ok(_) => performed(
            t,
            directory,
            seq![
                FileActionView::SyncAll(JournalFile::FinalizeRequest),
                FileActionView::SyncDirectory,
            ],
        ),
        Err(halt) => if already_exists(halt) {
            let (t, r) = requested_run(t, directory);
            (
                t,
                match r {
                    Ok(_) => Ok(()),
                    Err(halt) => Err(halt),
                },
            )
        } else {
            (t, Err(halt))
        },
    }
}

/// Requests the end of the recorded stream. The caller must first verify that the
/// pane that owns the recorder has exited.
pub fn request_finalization(script: &mut Script, directory: &str) -> (r: Result<(), Halt<IoError>>)
    ensures
        (final(script).deep_view(), outcome(r)) == request_run(
            old(script).deep_view(),
            directory@,
        ),
{
    match script.done(
        Call::Journal(directory.to_owned(), FileAction::Create(JournalFile::FinalizeRequest)),
    ) {
        Ok(()) => {
            let actions = vec![
                FileAction::SyncAll(JournalFile::FinalizeRequest),
                FileAction::SyncDirectory,
            ];
            assert(actions.deep_view() =~= seq![
                FileActionView::SyncAll(JournalFile::FinalizeRequest),
                FileActionView::SyncDirectory,
            ]);
            perform(script, directory, actions)
        },
        Err(Halt::Failed(error)) => {
            if error.kind == IoKind::AlreadyExists {
                finalization_requested(script, directory)?;
                Ok(())
            } else {
                Err(Halt::Failed(error))
            }
        },
        Err(Halt::Waiting) => Err(Halt::Waiting),
    }
}

/// What came of an attempt to read the recorded stream.
#[derive(Debug)]
pub enum InputEvent {
    /// Bytes, or the end of the stream if there are none.
    Bytes(Vec<u8>),
    Failed(IoError),
}

/// What the recorder does after an attempt to read the recorded stream.
#[derive(Debug)]
pub enum DrainStep {
    /// Try again.
    Read,
    /// End if the end was requested, and try again if not.
    CheckFinalization,
    Append(Vec<u8>),
    Finish,
    Fail(IoError),
}

/// Decides what follows an attempt to read the recorded stream. The end of the
/// stream is requested only after the multiplexer has drained the dead pane, so
/// every pending byte is consumed before the request is looked at.
pub fn drain_step(event: InputEvent) -> (step: DrainStep)
    ensures
        match event {
            InputEvent::Bytes(bytes) => if bytes@.len() == 0 {
                step is Finish
            } else {
                step == DrainStep::Append(bytes)
            },
            InputEvent::Failed(error) => match error.kind {
                IoKind::Interrupted => step is Read,
                IoKind::WouldBlock | IoKind::TimedOut => step is CheckFinalization,
                _ => step == DrainStep::Fail(error),
            },
        },
{
    match event {
        InputEvent::Bytes(bytes) => {
            if bytes.len() == 0 {
                DrainStep::Finish
            } else {
                DrainStep::Append(bytes)
            }
        },
        InputEvent::Failed(error) => match error.kind {
            IoKind::Interrupted => DrainStep::Read,
            IoKind::WouldBlock | IoKind::TimedOut => DrainStep::CheckFinalization,
            _ => DrainStep::Fail(error),
        },
    }
}

/// The journal directory and the policy that a recorder's arguments ask for;
/// nothing if the program was not started as a recorder.
pub open spec fn recorder_request(arguments: Seq<Seq<char>>) -> Option<
    Result<(Seq<char>, RetentionPolicy), IoErrorView>,
> {
    if arguments.len() == 0 || arguments[0] != RECORDER_ARGUMENT@ {
        None
    } else if arguments.len() == 1 {
        Some(Err(invalid_data("Missing journal path"@)))
    } else if arguments.len() > 2 && arguments[2] != "--bounded-history"@ {
        Some(Err(invalid_data("Unknown journal retention policy"@)))
    } else if arguments.len() > 3 || !text::begins_with(arguments[1], "/"@) {
        Some(
            Err(
                invalid_data(
                    "Expected an absolute journal path and optional retention policy"@,
                ),
            ),
        )
    } else if arguments.len() == 3 {
        Some(Ok((arguments[1], RetentionPolicy::Rolling)))
    } else {
        Some(Ok((arguments[1], RetentionPolicy::UntilWorkspaceDeleted)))
    }
}

/// The journal directory and the policy that a program's arguments ask for, if
/// the program was started as a recorder.
pub fn recorder_arguments(arguments: &Vec<String>) -> (r: Option<
    Result<(String, RetentionPolicy), IoError>,
>)
    ensures
        match (r, recorder_request(text::texts(arguments@))) {
            (None, None) => true,
            (Some(Ok((directory, policy))), Some(Ok(model))) => (directory@, policy) == model,
            (Some(Err(error)), Some(Err(model))) => error.deep_view() == model,
            _ => false,
        },
{
    let ghost model = text::texts(arguments@);
    assert(forall|i: int| 0 <= i < arguments@.len() ==> model[i] == arguments@[i]@);
    if arguments.len() == 0 || !text::same(arguments[0].as_str(), RECORDER_ARGUMENT) {
        return None;
    }
    if arguments.len() == 1 {
        return Some(Err(invalid("Missing journal path")));
    }
    if arguments.len() > 2 && !text::same(arguments[2].as_str(), "--bounded-history") {
        return Some(Err(invalid("Unknown journal retention policy")));
    }
    if arguments.len() > 3 || !text::starts_with(arguments[1].as_str(), "/") {
        return Some(
            Err(invalid("Expected an absolute journal path and optional retention policy")),
        );
    }
    let policy = if arguments.len() == 3 {
        RetentionPolicy::Rolling
    } else {
        RetentionPolicy::UntilWorkspaceDeleted
    };
    Some(Ok((arguments[1].clone(), policy)))
}

} // verus!
