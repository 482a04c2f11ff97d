//! The output of workspaces and their input. Commands are sent to tmux by the
//! library itself; nothing is typed into the user's shell.

use crate::host::{
    ask_done, ask_entry, ask_flag, ask_number, outcome, Call, CallView, Entry, Halt, IoError,
    IoHalt, IoKind, PathAction, Script, Transcript,
};
use crate::journal::finalization::{request_finalization, request_run};
use crate::journal::reader::{read, read_run};
use crate::journal::reading_laws::{lemma_attempts_continues, lemma_attempts_progress};
use crate::journal::{
    is_not_found, not_found, OutputPage, OutputPageView, RetentionPolicy, MAX_PAGE_BYTES,
    RECORDER_ARGUMENT,
};
use crate::number;
use crate::paths::{absolute, is_absolute, join, path_in, quote, quoted};
use crate::shell::{startup_directory, startup_path};
use crate::text;
use crate::workspace::command::{command_run, deadline_after};
use crate::workspace::sessions::{
    has_kind, is_kind, is_token, on_incarnation_run, resolve_run, token, token_failure, token_halt,
    Workspace, WorkspaceView,
};
use crate::workspace::{fail, failed, Backend, BackendView, Error, ErrorKind, WorkspaceHalt};
use vstd::prelude::*;
use vstd::string::*;

verus! {

/// Two seconds, in nanoseconds.
pub const GRACE: u64 = 2_000_000_000;

/// A failure of the journal or of the files around it.
pub open spec fn journal_failure(halt: IoHalt) -> WorkspaceHalt {
    match halt {
        Halt::Waiting => Halt::Waiting,
        Halt::Failed(error) => failed(
            ErrorKind::Failed,
            "Workspace journal: "@ + error.message,
        ),
    }
}

fn journal_halt(halt: Halt<IoError>) -> (r: Halt<Error>)
    ensures
        r.deep_view() == journal_failure(halt.deep_view()),
{
    match halt {
        Halt::Waiting => Halt::Waiting,
        Halt::Failed(error) => fail(
            ErrorKind::Failed,
            text::joined("Workspace journal: ", error.message.as_str()).as_str(),
        ),
    }
}

// ---------------------------------------------------------------------------
// Files
// ---------------------------------------------------------------------------

/// The journal directory of an incarnation.
pub open spec fn journal_directory(root: Seq<char>, id: Seq<char>, generation: Seq<char>) -> Seq<
    char,
> {
    path_in(root, id + "-"@ + generation)
}

/// The journal directory of an incarnation.
pub fn journal_name(root: &str, id: &str, generation: &str) -> (path: String)
    ensures
        path@ == journal_directory(root@, id@, generation@),
{
    let mut name = id.to_owned();
    name.append("-");
    name.append(generation);
    join(root, name.as_str())
}

/// The journal directory of an incarnation, if the request for it is sound.
pub open spec fn journal_path(id: Seq<char>, generation: Seq<char>, root: Seq<char>) -> Result<
    Seq<char>,
    WorkspaceHalt,
> {
    if !is_token(id) || !is_token(generation) {
        Err(token_failure())
    } else if !is_absolute(root) {
        Err(failed(ErrorKind::InvalidRequest, "Journal root must be an absolute UTF-8 path"@))
    } else {
        Ok(journal_directory(root, id, generation))
    }
}

fn checked_journal_path(id: &str, generation: &str, root: &str) -> (r: Result<
    String,
    Halt<Error>,
>)
    ensures
        outcome(r) == journal_path(id@, generation@, root@),
{
    if !token(id) || !token(generation) {
        return Err(token_halt());
    }
    if !absolute(root) {
        return Err(
            fail(ErrorKind::InvalidRequest, "Journal root must be an absolute UTF-8 path"),
        );
    }
    Ok(journal_name(root, id, generation))
}

/// A directory that only the user can read.
pub open spec fn is_private_directory(entry: Entry) -> bool {
    entry.directory && entry.private
}

/// Makes sure that the root of all journals is there and private: it must neither
/// expose recorded secrets nor be a link.
pub open spec fn journal_root_run(t: Transcript, root: Seq<char>) -> (
    Transcript,
    Result<(), WorkspaceHalt>,
) {
    let (t, made) = ask_done(t, CallView::Path(PathAction::MakeDirectories, root));
    match made {
        Err(halt) if !crate::journal::finalization::already_exists(halt) => (
            t,
            Err(journal_failure(halt)),
        ),
        _ => {
            let (t, described) = ask_entry(t, CallView::Path(PathAction::Describe, root));
            (
                t,
                match described {
                    Err(halt) => Err(journal_failure(halt)),
                    Ok(entry) => if is_private_directory(entry) {
                        Ok(())
                    } else {
                        Err(
                            failed(
                                ErrorKind::Failed,
                                "Journal root must be a private directory (mode 0700)"@,
                            ),
                        )
                    },
                },
            )
        },
    }
}

fn prepare_journal_root(script: &mut Script, root: &str) -> (r: Result<(), Halt<Error>>)
    ensures
        (final(script).deep_view(), outcome(r)) == journal_root_run(
            old(script).deep_view(),
            root@,
        ),
{
    match script.path_done(PathAction::MakeDirectories, root) {
        Ok(()) => {},
        Err(halt) => {
            let exists = match &halt {
                Halt::Failed(error) => error.kind == IoKind::AlreadyExists,
                Halt::Waiting => false,
            };
            if !exists {
                return Err(journal_halt(halt));
            }
        },
    }
    match script.entry(Call::Path(PathAction::Describe, root.to_owned())) {
        Err(halt) => Err(journal_halt(halt)),
        Ok(entry) => {
            if !entry.directory || !entry.private {
                return Err(
                    fail(
                        ErrorKind::Failed,
                        "Journal root must be a private directory (mode 0700)",
                    ),
                );
            }
            Ok(())
        },
    }
}

// ---------------------------------------------------------------------------
// The recorder
// ---------------------------------------------------------------------------

pub open spec fn pipe_command(pane: Seq<char>) -> Seq<Seq<char>> {
    Seq::<Seq<char>>::empty().push("display-message"@).push("-p"@).push("-t"@).push(pane).push(
        "#{pane_pipe}"@,
    )
}

/// Whether the pane's output still goes to a recorder.
pub open spec fn recorder_connected_run(
    t: Transcript,
    backend: BackendView,
    id: Seq<char>,
    generation: Seq<char>,
) -> (Transcript, Result<bool, WorkspaceHalt>) {
    let (t, r) = resolve_run(t, backend, id, generation);
    match r {
        Err(halt) => (t, Err(halt)),
        Ok(workspace) => {
            let (t, r) = command_run(t, backend, pipe_command(workspace.pane_id));
            (
                t,
                match r {
                    Err(halt) => Err(halt),
                    Ok(output) => Ok(text::trimmed(output) == "1"@),
                },
            )
        },
    }
}

/// The command line of a recorder. tmux expands formats even within quotes, so a
/// hash is doubled.
pub open spec fn recorder_line(
    executable: Seq<char>,
    journal: Seq<char>,
    retention: RetentionPolicy,
) -> Seq<char> {
    text::replaced_char(
        "exec "@ + quoted(executable) + " "@ + RECORDER_ARGUMENT@ + " "@ + quoted(journal) + (
        match retention {
            RetentionPolicy::UntilWorkspaceDeleted => ""@,
            RetentionPolicy::Rolling => " --bounded-history"@,
        }),
        '#',
        "##"@,
    )
}

fn recorder_command_line(executable: &str, journal: &str, retention: RetentionPolicy) -> (out:
    String)
    ensures
        out@ == recorder_line(executable@, journal@, retention),
{
    let mut line = "exec ".to_owned();
    line.append(quote(executable).as_str());
    line.append(" ");
    line.append(RECORDER_ARGUMENT);
    line.append(" ");
    line.append(quote(journal).as_str());
    line.append(
        match retention {
            RetentionPolicy::UntilWorkspaceDeleted => "",
            RetentionPolicy::Rolling => " --bounded-history",
        },
    );
    text::replace_char(line.as_str(), '#', "##")
}

/// The tmux command that keeps a dead pane and starts its recorder, once.
pub open spec fn record_command(workspace: WorkspaceView, line: Seq<char>) -> Seq<char> {
    "set-option -w -t "@ + workspace.window_id + " remain-on-exit on ; pipe-pane -O -o -t "@
        + workspace.pane_id + " "@ + quoted(line)
}

fn record_command_of(workspace: &Workspace, line: &str) -> (out: String)
    ensures
        out@ == record_command(workspace.deep_view(), line@),
{
    let mut out = "set-option -w -t ".to_owned();
    out.append(workspace.window_id.as_str());
    out.append(" remain-on-exit on ; pipe-pane -O -o -t ");
    out.append(workspace.pane_id.as_str());
    out.append(" ");
    out.append(quote(line).as_str());
    out
}

/// Waits until a recorder has published its journal.
pub open spec fn await_journal_run(t: Transcript, journal: Seq<char>, deadline: u64) -> (
    Transcript,
    Result<(), WorkspaceHalt>,
)
    decreases t.replies.len() - t.calls.len(),
{
    let (t1, r) = read_run(t, journal, 0, 1);
    proof {
        lemma_attempts_continues(t, journal, 0, 1, 3);
    }
    match r {
        Ok(_) => (t1, Ok(())),
        Err(halt) => if !not_found(halt) {
            (t1, Err(journal_failure(halt)))
        } else {
            let (t2, clock) = ask_number(t1, CallView::Clock);
            match clock {
                Err(clock_halt) => (t2, Err(journal_failure(clock_halt))),
                Ok(now) => if now >= deadline {
                    (t2, Err(journal_failure(halt)))
                } else {
                    let (t3, slept) = ask_done(t2, CallView::Sleep(10));
                    match slept {
                        Err(sleep_halt) => (t3, Err(journal_failure(sleep_halt))),
                        Ok(_) => await_journal_run(t3, journal, deadline),
                    }
                },
            }
        },
    }
}

fn await_journal(script: &mut Script, journal: &str, deadline: u64) -> (r: Result<(), Halt<Error>>)
    ensures
        (final(script).deep_view(), outcome(r)) == await_journal_run(
            old(script).deep_view(),
            journal@,
            deadline,
        ),
{
    loop
        invariant
            await_journal_run(old(script).deep_view(), journal@, deadline) == await_journal_run(
                script.deep_view(),
                journal@,
                deadline,
            ),
        decreases script.deep_view().replies.len() - script.deep_view().calls.len(),
    {
        proof {
            lemma_attempts_continues(script.deep_view(), journal@, 0, 1, 3);
        }
        let halt = match read(script, journal, 0, 1) {
            Ok(_) => return Ok(()),
            Err(halt) => halt,
        };
        if !is_not_found(&halt) {
            return Err(journal_halt(halt));
        }
        let now = match script.number(Call::Clock) {
            Ok(now) => now,
            Err(clock_halt) => return Err(journal_halt(clock_halt)),
        };
        if now >= deadline {
            return Err(journal_halt(halt));
        }
        match script.done(Call::Sleep(10)) {
            Ok(()) => {},
            Err(sleep_halt) => return Err(journal_halt(sleep_halt)),
        }
    }
}

pub open spec fn executable_failure() -> WorkspaceHalt {
    failed(
        ErrorKind::InvalidRequest,
        "Recorder executable must be an existing absolute UTF-8 path"@,
    )
}

/// Checks that a recorder can be launched from this path.
pub open spec fn executable_run(t: Transcript, executable: Seq<char>) -> (
    Transcript,
    Result<(), WorkspaceHalt>,
) {
    if !is_absolute(executable) {
        (t, Err(executable_failure()))
    } else {
        let (t, r) = ask_flag(t, CallView::Path(PathAction::IsFile, executable));
        (
            t,
            match r {
                Ok(true) => Ok(()),
                Ok(false) => Err(executable_failure()),
                Err(halt) => Err(journal_failure(halt)),
            },
        )
    }
}

/// Starts a recorder that is not there, and waits for its journal.
pub open spec fn new_recorder_run(
    t: Transcript,
    backend: BackendView,
    workspace: WorkspaceView,
    executable: Seq<char>,
    journal: Seq<char>,
    retention: RetentionPolicy,
) -> (Transcript, Result<(), WorkspaceHalt>) {
    let (t, checked) = executable_run(t, executable);
    match checked {
        Err(halt) => (t, Err(halt)),
        Ok(_) => {
            let (t, piped) = on_incarnation_run(
                t,
                backend,
                workspace.id,
                workspace.generation,
                record_command(workspace, recorder_line(executable, journal, retention)),
                "Workspace incarnation changed before terminal operation"@,
            );
            match piped {
                Err(halt) => (t, Err(halt)),
                Ok(_) => {
                    let (t, clock) = ask_number(t, CallView::Clock);
                    match clock {
                        Err(halt) => (t, Err(journal_failure(halt))),
                        Ok(now) => await_journal_run(t, journal, deadline_after(now, GRACE)),
                    }
                },
            }
        },
    }
}

/// Checks a recorder that was started before: it is only observed, never replaced.
pub open spec fn old_recorder_run(
    t: Transcript,
    backend: BackendView,
    workspace: WorkspaceView,
    journal: Seq<char>,
) -> (Transcript, Result<(), WorkspaceHalt>) {
    let (t, page) = read_run(t, journal, 0, 1);
    match page {
        Err(halt) => (t, Err(journal_failure(halt))),
        Ok(_) => if workspace.exited {
            (t, Ok(()))
        } else {
            let (t, connected) = recorder_connected_run(
                t,
                backend,
                workspace.id,
                workspace.generation,
            );
            (
                t,
                match connected {
                    Err(halt) => Err(halt),
                    Ok(true) => Ok(()),
                    Ok(false) => Err(
                        failed(
                            ErrorKind::Failed,
                            "Recorder disconnected; refusing to conceal an output gap"@,
                        ),
                    ),
                },
            )
        },
    }
}

/// Starts exactly one recorder for an incarnation.
pub open spec fn start_recording_run(
    t: Transcript,
    backend: BackendView,
    id: Seq<char>,
    generation: Seq<char>,
    executable: Seq<char>,
    root: Seq<char>,
    retention: RetentionPolicy,
) -> (Transcript, Result<(), WorkspaceHalt>) {
    let (t, resolved) = resolve_run(t, backend, id, generation);
    match resolved {
        Err(halt) => (t, Err(halt)),
        Ok(workspace) => match journal_path(id, generation, root) {
            Err(halt) => (t, Err(halt)),
            Ok(journal) => {
                let (t, prepared) = journal_root_run(t, root);
                match prepared {
                    Err(halt) => (t, Err(halt)),
                    Ok(_) => {
                        let (t, exists) = ask_flag(
                            t,
                            CallView::Path(PathAction::Exists, journal),
                        );
                        match exists {
                            Err(halt) => (t, Err(journal_failure(halt))),
                            Ok(true) => old_recorder_run(t, backend, workspace, journal),
                            Ok(false) => new_recorder_run(
                                t,
                                backend,
                                workspace,
                                executable,
                                journal,
                                retention,
                            ),
                        }
                    },
                }
            },
        },
    }
}

impl Backend {
    /// Whether the pane's output still goes to a recorder.
    pub fn recorder_connected(&self, script: &mut Script, id: &str, generation: &str) -> (r: Result<
        bool,
        Halt<Error>,
    >)
        ensures
            (final(script).deep_view(), outcome(r)) == recorder_connected_run(
                old(script).deep_view(),
                self.deep_view(),
                id@,
                generation@,
            ),
    {
        let workspace = self.resolve(script, id, generation)?;
        let command = vec![
            "display-message".to_owned(),
            "-p".to_owned(),
            "-t".to_owned(),
            workspace.pane_id,
            "#{pane_pipe}".to_owned(),
        ];
        assert(text::texts(command@) =~= pipe_command(workspace.deep_view().pane_id));
        let output = self.run(script, command)?;
        Ok(text::same(text::trim(output.as_str()).as_str(), "1"))
    }

    /// Starts exactly one recorder that tmux owns. Calling this again only observes
    /// the recorder that is there.
    pub fn start_recording(
        &self,
        script: &mut Script,
        id: &str,
        generation: &str,
        executable: &str,
        root: &str,
    ) -> (r: Result<(), Halt<Error>>)
        ensures
            (final(script).deep_view(), outcome(r)) == start_recording_run(
                old(script).deep_view(),
                self.deep_view(),
                id@,
                generation@,
                executable@,
                root@,
                RetentionPolicy::UntilWorkspaceDeleted,
            ),
    {
        self.start_recording_with_retention(
            script,
            id,
            generation,
            executable,
            root,
            RetentionPolicy::default(),
        )
    }

    /// Starts exactly one recorder with this policy. A recorder that was started
    /// before needs no executable that can still be launched by its path.
    pub fn start_recording_with_retention(
        &self,
        script: &mut Script,
        id: &str,
        generation: &str,
        executable: &str,
        root: &str,
        retention: RetentionPolicy,
    ) -> (r: Result<(), Halt<Error>>)
        ensures
            (final(script).deep_view(), outcome(r)) == start_recording_run(
                old(script).deep_view(),
                self.deep_view(),
                id@,
                generation@,
                executable@,
                root@,
                retention,
            ),
    {
        let workspace = self.resolve(script, id, generation)?;
        let journal = checked_journal_path(id, generation, root)?;
        prepare_journal_root(script, root)?;
        match script.path_flag(PathAction::Exists, journal.as_str()) {
            Err(halt) => Err(journal_halt(halt)),
            Ok(true) => self.check_recorder(script, &workspace, journal.as_str()),
            Ok(false) => self.new_recorder(
                script,
                &workspace,
                executable,
                journal.as_str(),
                retention,
            ),
        }
    }

    fn check_recorder(&self, script: &mut Script, workspace: &Workspace, journal: &str) -> (r:
        Result<(), Halt<Error>>)
        ensures
            (final(script).deep_view(), outcome(r)) == old_recorder_run(
                old(script).deep_view(),
                self.deep_view(),
                workspace.deep_view(),
                journal@,
            ),
    {
        match read(script, journal, 0, 1) {
            Ok(_) => {},
            Err(halt) => return Err(journal_halt(halt)),
        }
        if !workspace.exited && !self.recorder_connected(
            script,
            workspace.id.as_str(),
            workspace.generation.as_str(),
        )? {
            return Err(
                fail(
                    ErrorKind::Failed,
                    "Recorder disconnected; refusing to conceal an output gap",
                ),
            );
        }
        Ok(())
    }

    fn new_recorder(
        &self,
        script: &mut Script,
        workspace: &Workspace,
        executable: &str,
        journal: &str,
        retention: RetentionPolicy,
    ) -> (r: Result<(), Halt<Error>>)
        ensures
            (final(script).deep_view(), outcome(r)) == new_recorder_run(
                old(script).deep_view(),
                self.deep_view(),
                workspace.deep_view(),
                executable@,
                journal@,
                retention,
            ),
    {
        let launchable = if absolute(executable) {
            match script.path_flag(PathAction::IsFile, executable) {
                Ok(launchable) => launchable,
                Err(halt) => return Err(journal_halt(halt)),
            }
        } else {
            false
        };
        if !launchable {
            return Err(
                fail(
                    ErrorKind::InvalidRequest,
                    "Recorder executable must be an existing absolute UTF-8 path",
                ),
            );
        }
        let line = recorder_command_line(executable, journal, retention);
        let command = record_command_of(workspace, line.as_str());
        self.on_incarnation(
            script,
            workspace.id.as_str(),
            workspace.generation.as_str(),
            command.as_str(),
            "Workspace incarnation changed before terminal operation",
        )?;
        let now = match script.number(Call::Clock) {
            Ok(now) => now,
            Err(halt) => return Err(journal_halt(halt)),
        };
        await_journal(script, journal, now.saturating_add(GRACE))
    }
}

// ---------------------------------------------------------------------------
// Output
// ---------------------------------------------------------------------------

pub open spec fn unfinished_failure() -> WorkspaceHalt {
    failed(
        ErrorKind::Failed,
        "Shell exited, but its output recorder did not finalize; output may be incomplete"@,
    )
}

/// Reads a page again and again until the end of the stream was published.
pub open spec fn await_end_run(
    t: Transcript,
    journal: Seq<char>,
    cursor: u64,
    deadline: u64,
    page: OutputPageView,
) -> (Transcript, Result<OutputPageView, WorkspaceHalt>)
    decreases t.replies.len() - t.calls.len(),
{
    if page.closed {
        (t, Ok(page))
    } else {
        let (t1, clock) = ask_number(t, CallView::Clock);
        match clock {
            Err(halt) => (t1, Err(journal_failure(halt))),
            Ok(now) => if now >= deadline {
                (t1, Err(unfinished_failure()))
            } else {
                let (t2, slept) = ask_done(t1, CallView::Sleep(10));
                match slept {
                    Err(halt) => (t2, Err(journal_failure(halt))),
                    Ok(_) => {
                        let (t3, r) = read_run(t2, journal, cursor, MAX_PAGE_BYTES);
                        proof {
                            lemma_attempts_continues(t2, journal, cursor, MAX_PAGE_BYTES, 3);
                            lemma_attempts_progress(t2, journal, cursor, MAX_PAGE_BYTES, 3);
                        }
                        match r {
                            Err(halt) => (t3, Err(journal_failure(halt))),
                            Ok(page) => await_end_run(t3, journal, cursor, deadline, page),
                        }
                    },
                }
            },
        }
    }
}

/// Reads a page of an incarnation's output. If its shell has exited, the page is
/// given only after the recorder has published the end of the stream.
pub open spec fn read_output_run(
    t: Transcript,
    backend: BackendView,
    id: Seq<char>,
    generation: Seq<char>,
    root: Seq<char>,
    cursor: u64,
) -> (Transcript, Result<OutputPageView, WorkspaceHalt>) {
    let (t, resolved) = resolve_run(t, backend, id, generation);
    match resolved {
        Err(halt) => (t, Err(halt)),
        Ok(workspace) => match journal_path(id, generation, root) {
            Err(halt) => (t, Err(halt)),
            Ok(journal) => {
                let (t, r) = read_run(t, journal, cursor, MAX_PAGE_BYTES);
                match r {
                    Err(halt) => (t, Err(journal_failure(halt))),
                    Ok(page) => if !workspace.exited || page.closed {
                        (t, Ok(page))
                    } else {
                        let (t, requested) = request_run(t, journal);
                        match requested {
                            Err(halt) => (t, Err(journal_failure(halt))),
                            Ok(_) => {
                                let (t, clock) = ask_number(t, CallView::Clock);
                                match clock {
                                    Err(halt) => (t, Err(journal_failure(halt))),
                                    Ok(now) => await_end_run(
                                        t,
                                        journal,
                                        cursor,
                                        deadline_after(now, GRACE),
                                        page,
                                    ),
                                }
                            },
                        }
                    },
                }
            },
        },
    }
}

// ---------------------------------------------------------------------------
// Deletion
// ---------------------------------------------------------------------------

/// Removes a directory of the history; what is not a directory is left alone.
pub open spec fn remove_run(t: Transcript, path: Seq<char>) -> (
    Transcript,
    Result<(), WorkspaceHalt>,
) {
    let (t, described) = ask_entry(t, CallView::Path(PathAction::Describe, path));
    match described {
        Ok(entry) => if entry.directory {
            let (t, removed) = ask_done(t, CallView::Path(PathAction::RemoveTree, path));
            (
                t,
                match removed {
                    Ok(_) => Ok(()),
                    Err(halt) => Err(journal_failure(halt)),
                },
            )
        } else {
            (t, Err(failed(ErrorKind::Failed, "Refusing to follow a history symlink"@)))
        },
        Err(halt) => if not_found(halt) {
            (t, Ok(()))
        } else {
            (t, Err(journal_failure(halt)))
        },
    }
}

fn remove_history(script: &mut Script, path: &str) -> (r: Result<(), Halt<Error>>)
    ensures
        (final(script).deep_view(), outcome(r)) == remove_run(old(script).deep_view(), path@),
{
    match script.entry(Call::Path(PathAction::Describe, path.to_owned())) {
        Ok(entry) => {
            if !entry.directory {
                return Err(fail(ErrorKind::Failed, "Refusing to follow a history symlink"));
            }
            match script.path_done(PathAction::RemoveTree, path) {
                Ok(()) => Ok(()),
                Err(halt) => Err(journal_halt(halt)),
            }
        },
        Err(halt) => {
            if is_not_found(&halt) {
                Ok(())
            } else {
                Err(journal_halt(halt))
            }
        },
    }
}

/// Removes the journal and the startup files of an incarnation that is gone.
pub open spec fn delete_history_run(
    t: Transcript,
    backend: BackendView,
    id: Seq<char>,
    generation: Seq<char>,
    root: Seq<char>,
) -> (Transcript, Result<(), WorkspaceHalt>) {
    match journal_path(id, generation, root) {
        Err(halt) => (t, Err(halt)),
        Ok(journal) => {
            let (t, resolved) = resolve_run(t, backend, id, generation);
            match resolved {
                Ok(_) => (
                    t,
                    Err(
                        failed(
                            ErrorKind::Failed,
                            "Terminate the workspace before deleting its history"@,
                        ),
                    ),
                ),
                Err(halt) => if !is_kind(halt, ErrorKind::NotFound) && !is_kind(
                    halt,
                    ErrorKind::Stale,
                ) {
                    (t, Err(halt))
                } else {
                    let (t, described) = ask_entry(
                        t,
                        CallView::Path(PathAction::Describe, root),
                    );
                    match described {
                        Err(halt) => if not_found(halt) {
                            (t, Ok(()))
                        } else {
                            (t, Err(journal_failure(halt)))
                        },
                        Ok(entry) => if !is_private_directory(entry) {
                            (
                                t,
                                Err(
                                    failed(
                                        ErrorKind::Failed,
                                        "History root must be a private directory"@,
                                    ),
                                ),
                            )
                        } else {
                            let (t, removed) = remove_run(t, journal);
                            match removed {
                                Err(halt) => (t, Err(halt)),
                                Ok(_) => remove_run(t, startup_directory(root, id, generation)),
                            }
                        },
                    }
                },
            }
        },
    }
}

// ---------------------------------------------------------------------------
// Input
// ---------------------------------------------------------------------------

/// Sends bytes to an incarnation's pane, as they are.
pub open spec fn send_input_run(
    t: Transcript,
    backend: BackendView,
    id: Seq<char>,
    generation: Seq<char>,
    bytes: Seq<u8>,
) -> (Transcript, Result<(), WorkspaceHalt>) {
    if bytes.len() == 0 || bytes.len() > 4096 {
        (t, Err(failed(ErrorKind::InvalidRequest, "Input must contain 1..4096 bytes"@)))
    } else {
        let (t, resolved) = resolve_run(t, backend, id, generation);
        match resolved {
            Err(halt) => (t, Err(halt)),
            Ok(workspace) => if workspace.exited {
                (t, Err(failed(ErrorKind::Failed, "The workspace shell has exited"@)))
            } else {
                on_incarnation_run(
                    t,
                    backend,
                    id,
                    generation,
                    "send-keys -H -t "@ + workspace.pane_id + " "@ + number::hex_bytes_text(
                        bytes,
                        " "@,
                    ),
                    "Workspace incarnation changed before terminal operation"@,
                )
            },
        }
    }
}

/// The tmux command that gives a window these dimensions.
pub open spec fn resize_command(window: Seq<char>, columns: u32, rows: u32) -> Seq<char> {
    "set-option -w -t "@ + window + " window-size manual ; resize-window -t "@ + window + " -x "@
        + number::decimal_text(columns as nat) + " -y "@ + number::decimal_text(rows as nat)
}

/// Gives an incarnation's window these dimensions.
pub open spec fn resize_run(
    t: Transcript,
    backend: BackendView,
    id: Seq<char>,
    generation: Seq<char>,
    columns: u32,
    rows: u32,
) -> (Transcript, Result<(), WorkspaceHalt>) {
    if !(2 <= columns <= 1000) || !(2 <= rows <= 1000) {
        (t, Err(failed(ErrorKind::InvalidRequest, "Terminal dimensions must be in 2..1000"@)))
    } else {
        let (t, resolved) = resolve_run(t, backend, id, generation);
        match resolved {
            Err(halt) => (t, Err(halt)),
            Ok(workspace) => on_incarnation_run(
                t,
                backend,
                id,
                generation,
                resize_command(workspace.window_id, columns, rows),
                "Workspace incarnation changed before terminal operation"@,
            ),
        }
    }
}

impl Backend {
    /// Removes the journal and the startup files of an incarnation that is gone.
    pub fn delete_retained_history(
        &self,
        script: &mut Script,
        id: &str,
        generation: &str,
        root: &str,
    ) -> (r: Result<(), Halt<Error>>)
        ensures
            (final(script).deep_view(), outcome(r)) == delete_history_run(
                old(script).deep_view(),
                self.deep_view(),
                id@,
                generation@,
                root@,
            ),
    {
        let journal = checked_journal_path(id, generation, root)?;
        match self.resolve(script, id, generation) {
            Ok(_) => {
                return Err(
                    fail(
                        ErrorKind::Failed,
                        "Terminate the workspace before deleting its history",
                    ),
                );
            },
            Err(halt) => {
                if !has_kind(&halt, ErrorKind::NotFound) && !has_kind(&halt, ErrorKind::Stale) {
                    return Err(halt);
                }
            },
        }
        match script.entry(Call::Path(PathAction::Describe, root.to_owned())) {
            Ok(entry) => {
                if !entry.directory || !entry.private {
                    return Err(
                        fail(ErrorKind::Failed, "History root must be a private directory"),
                    );
                }
            },
            Err(halt) => {
                if is_not_found(&halt) {
                    return Ok(());
                }
                return Err(journal_halt(halt));
            },
        }
        remove_history(script, journal.as_str())?;
        remove_history(script, startup_path(root, id, generation).as_str())
    }

    /// Reads a page of an incarnation's output.
    pub fn read_output(
        &self,
        script: &mut Script,
        id: &str,
        generation: &str,
        root: &str,
        cursor: u64,
    ) -> (r: Result<OutputPage, Halt<Error>>)
        ensures
            (final(script).deep_view(), outcome(r)) == read_output_run(
                old(script).deep_view(),
                self.deep_view(),
                id@,
                generation@,
                root@,
                cursor,
            ),
    {
        let workspace = self.resolve(script, id, generation)?;
        let journal = checked_journal_path(id, generation, root)?;
        let page = match read(script, journal.as_str(), cursor, MAX_PAGE_BYTES) {
            Ok(page) => page,
            Err(halt) => return Err(journal_halt(halt)),
        };
        if !workspace.exited || page.closed {
            return Ok(page);
        }
        match request_finalization(script, journal.as_str()) {
            Ok(()) => {},
            Err(halt) => return Err(journal_halt(halt)),
        }
        let now = match script.number(Call::Clock) {
            Ok(now) => now,
            Err(halt) => return Err(journal_halt(halt)),
        };
        await_end(script, journal.as_str(), cursor, now.saturating_add(GRACE), page)
    }

    /// Sends bytes to an incarnation's pane. A request that failed must never be
    /// repeated by itself: a lost acknowledgement does not imply that the keystrokes
    /// were not delivered.
    pub fn send_input(
        &self,
        script: &mut Script,
        id: &str,
        generation: &str,
        bytes: &Vec<u8>,
    ) -> (r:
        Result<(), Halt<Error>>)
        ensures
            (final(script).deep_view(), outcome(r)) == send_input_run(
                old(script).deep_view(),
                self.deep_view(),
                id@,
                generation@,
                bytes@,
            ),
    {
        if bytes.len() == 0 || bytes.len() > 4096 {
            return Err(fail(ErrorKind::InvalidRequest, "Input must contain 1..4096 bytes"));
        }
        let workspace = self.resolve(script, id, generation)?;
        if workspace.exited {
            return Err(fail(ErrorKind::Failed, "The workspace shell has exited"));
        }
        let mut command = "send-keys -H -t ".to_owned();
        command.append(workspace.pane_id.as_str());
        command.append(" ");
        command.append(number::hex_bytes(bytes.as_slice(), " ").as_str());
        self.on_incarnation(
            script,
            id,
            generation,
            command.as_str(),
            "Workspace incarnation changed before terminal operation",
        )
    }

    /// Gives an incarnation's window these dimensions.
    pub fn resize(
        &self,
        script: &mut Script,
        id: &str,
        generation: &str,
        columns: u32,
        rows: u32,
    ) -> (r:
        Result<(), Halt<Error>>)
        ensures
            (final(script).deep_view(), outcome(r)) == resize_run(
                old(script).deep_view(),
                self.deep_view(),
                id@,
                generation@,
                columns,
                rows,
            ),
    {
        if columns < 2 || columns > 1000 || rows < 2 || rows > 1000 {
            return Err(
                fail(ErrorKind::InvalidRequest, "Terminal dimensions must be in 2..1000"),
            );
        }
        let workspace = self.resolve(script, id, generation)?;
        let window = workspace.window_id.as_str();
        let mut command = "set-option -w -t ".to_owned();
        command.append(window);
        command.append(" window-size manual ; resize-window -t ");
        command.append(window);
        command.append(" -x ");
        command.append(number::decimal(columns as u64).as_str());
        command.append(" -y ");
        command.append(number::decimal(rows as u64).as_str());
        self.on_incarnation(
            script,
            id,
            generation,
            command.as_str(),
            "Workspace incarnation changed before terminal operation",
        )
    }
}

fn await_end(
    script: &mut Script,
    journal: &str,
    cursor: u64,
    deadline: u64,
    first: OutputPage,
) -> (r:
    Result<OutputPage, Halt<Error>>)
    ensures
        (final(script).deep_view(), outcome(r)) == await_end_run(
            old(script).deep_view(),
            journal@,
            cursor,
            deadline,
            first.deep_view(),
        ),
{
    let mut page = first;
    while !page.closed
        invariant
            await_end_run(
                old(script).deep_view(),
                journal@,
                cursor,
                deadline,
                first.deep_view(),
            ) == await_end_run(script.deep_view(), journal@, cursor, deadline, page.deep_view()),
        decreases script.deep_view().replies.len() - script.deep_view().calls.len(),
    {
        let now = match script.number(Call::Clock) {
            Ok(now) => now,
            Err(halt) => return Err(journal_halt(halt)),
        };
        if now >= deadline {
            return Err(
                fail(
                    ErrorKind::Failed,
                    "Shell exited, but its output recorder did not finalize; output may be incomplete",
                ),
            );
        }
        match script.done(Call::Sleep(10)) {
            Ok(()) => {},
            Err(halt) => return Err(journal_halt(halt)),
        }
        proof {
            lemma_attempts_continues(script.deep_view(), journal@, cursor, MAX_PAGE_BYTES, 3);
            lemma_attempts_progress(script.deep_view(), journal@, cursor, MAX_PAGE_BYTES, 3);
        }
        page = match read(script, journal, cursor, MAX_PAGE_BYTES) {
            Ok(page) => page,
            Err(halt) => return Err(journal_halt(halt)),
        };
    }
    Ok(page)
}

} // verus!
