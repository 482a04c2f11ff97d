//! One command of the tmux client: started, watched and, past its deadline or its
//! output limit, killed.

use crate::bytes;
use crate::host::{
    ask, ask_bytes, ask_done, ask_exit, ask_number, outcome, Call, CallView, Halt, IoError,
    IoErrorView, IoHalt, IoKind, ProcessAction, Script, Transcript,
};
use crate::text;
use crate::workspace::{
    fail, failed, Backend, BackendView, Error, ErrorKind, ErrorView, WorkspaceHalt,
};
use vstd::prelude::*;
use vstd::string::*;

verus! {

/// How many bytes of output, and of diagnostics, a command may write.
pub const MAX_OUTPUT: usize = 1024 * 1024;

/// A failure of the system around a command.
pub open spec fn system_failure(halt: IoHalt) -> WorkspaceHalt {
    match halt {
        Halt::Waiting => Halt::Waiting,
        Halt::Failed(error) => failed(ErrorKind::Failed, error.message),
    }
}

pub(crate) fn system_halt(halt: Halt<IoError>) -> (r: Halt<Error>)
    ensures
        r.deep_view() == system_failure(halt.deep_view()),
{
    match halt {
        Halt::Waiting => Halt::Waiting,
        Halt::Failed(error) => Halt::Failed(
            Error { kind: ErrorKind::Failed, message: error.message },
        ),
    }
}

/// Why tmux could not be started.
pub open spec fn start_failure(error: IoErrorView) -> ErrorView {
    ErrorView {
        kind: ErrorKind::Unavailable,
        message: "Could not start tmux: "@ + error.message + (if error.kind == IoKind::NotFound {
            "; install tmux 3.2 or newer and make it available on the remote SSH PATH"@
        } else {
            ""@
        }),
    }
}

fn start_error(error: &IoError) -> (r: Error)
    ensures
        r.deep_view() == start_failure(error.deep_view()),
{
    let mut message = "Could not start tmux: ".to_owned();
    message.append(error.message.as_str());
    message.append(
        if error.kind == IoKind::NotFound {
            "; install tmux 3.2 or newer and make it available on the remote SSH PATH"
        } else {
            ""
        },
    );
    Error { kind: ErrorKind::Unavailable, message }
}

/// Reads what is there of a stream, behind what was read before.
pub open spec fn drain_run(t: Transcript, action: ProcessAction, before: Seq<u8>) -> (
    Transcript,
    Result<Seq<u8>, WorkspaceHalt>,
)
    decreases t.replies.len() - t.calls.len(),
{
    let (next, r) = ask_bytes(t, CallView::Process(action));
    match r {
        Ok(bytes) => if bytes.len() == 0 {
            (next, Ok(before))
        } else if before.len() + bytes.len() > MAX_OUTPUT {
            (next, Err(failed(ErrorKind::Failed, "tmux output exceeded the safety limit"@)))
        } else {
            drain_run(next, action, before + bytes)
        },
        Err(Halt::Failed(error)) => if error.kind == IoKind::WouldBlock {
            (next, Ok(before))
        } else if error.kind == IoKind::Interrupted {
            drain_run(next, action, before)
        } else {
            (next, Err(failed(ErrorKind::Failed, error.message)))
        },
        Err(Halt::Waiting) => (next, Err(Halt::Waiting)),
    }
}

fn drain(script: &mut Script, action: ProcessAction, before: Vec<u8>) -> (r: Result<
    Vec<u8>,
    Halt<Error>,
>)
    requires
        before@.len() <= MAX_OUTPUT,
    ensures
        (final(script).deep_view(), outcome(r)) == drain_run(
            old(script).deep_view(),
            action,
            before@,
        ),
        r matches Ok(bytes) ==> bytes@.len() <= MAX_OUTPUT,
{
    broadcast use bytes::bytes_deep_view;

    let mut out: Vec<u8> = before;
    loop
        invariant
            out@.len() <= MAX_OUTPUT,
            drain_run(old(script).deep_view(), action, before@) == drain_run(
                script.deep_view(),
                action,
                out@,
            ),
        decreases script.deep_view().replies.len() - script.deep_view().calls.len(),
    {
        let ghost held = out@;
        match script.bytes(Call::Process(action)) {
            Ok(part) => {
                proof {
                    bytes::bytes_deep_view(part);
                    bytes::bytes_deep_view(out);
                }
                if part.len() == 0 {
                    return Ok(out);
                }
                if part.len() > MAX_OUTPUT - out.len() {
                    return Err(fail(ErrorKind::Failed, "tmux output exceeded the safety limit"));
                }
                bytes::append(&mut out, part.as_slice(), 0, part.len());
                assert(out@ =~= held + part@);
            },
            Err(Halt::Failed(error)) => {
                proof {
                    bytes::bytes_deep_view(out);
                }
                if error.kind == IoKind::WouldBlock {
                    return Ok(out);
                }
                if error.kind != IoKind::Interrupted {
                    return Err(fail(ErrorKind::Failed, error.message.as_str()));
                }
            },
            Err(Halt::Waiting) => return Err(Halt::Waiting),
        }
    }
}

/// Draining uses up calls and leaves the replies as they are.
pub proof fn lemma_drain(t: Transcript, action: ProcessAction, before: Seq<u8>)
    ensures
        drain_run(t, action, before).0.replies == t.replies,
        drain_run(t, action, before).0.calls.len() > t.calls.len(),
    decreases t.replies.len() - t.calls.len(),
{
    let (next, r) = ask_bytes(t, CallView::Process(action));
    match r {
        Ok(bytes) => {
            if bytes.len() > 0 && before.len() + bytes.len() <= MAX_OUTPUT {
                lemma_drain(next, action, before + bytes);
            }
        },
        Err(Halt::Failed(error)) => {
            if error.kind == IoKind::Interrupted {
                lemma_drain(next, action, before);
            }
        },
        Err(Halt::Waiting) => {},
    }
}

/// What a command wrote, and whether it exited successfully.
pub type Finished = (bool, Seq<u8>, Seq<u8>);

/// Watches a command until it exits. Its exit is observed before its streams are
/// drained, so that all bytes that it wrote itself are read, without waiting for
/// descendants that inherited its output.
pub open spec fn watch_run(t: Transcript, deadline: u64, output: Seq<u8>, diagnostics: Seq<u8>) -> (
    Transcript,
    Result<Finished, WorkspaceHalt>,
)
    decreases t.replies.len() - t.calls.len(),
{
    let (t1, polled) = ask_exit(t, CallView::Process(ProcessAction::Poll));
    match polled {
        Err(halt) => (t1, Err(system_failure(halt))),
        Ok(status) => {
            let (t2, out) = drain_run(t1, ProcessAction::ReadOutput, output);
            proof {
                lemma_drain(t1, ProcessAction::ReadOutput, output);
            }
            match out {
                Err(halt) => (t2, Err(halt)),
                Ok(output) => {
                    let (t3, err) = drain_run(t2, ProcessAction::ReadDiagnostics, diagnostics);
                    proof {
                        lemma_drain(t2, ProcessAction::ReadDiagnostics, diagnostics);
                    }
                    match err {
                        Err(halt) => (t3, Err(halt)),
                        Ok(diagnostics) => match status {
                            Some(success) => (t3, Ok((success, output, diagnostics))),
                            None => {
                                let (t4, clock) = ask_number(t3, CallView::Clock);
                                match clock {
                                    Err(halt) => (t4, Err(system_failure(halt))),
                                    Ok(now) => if now >= deadline {
                                        (
                                            t4,
                                            Err(
                                                failed(
                                                    ErrorKind::Timeout,
                                                    "tmux did not respond within the command deadline"@,
                                                ),
                                            ),
                                        )
                                    } else {
                                        let (t5, slept) = ask_done(t4, CallView::Sleep(10));
                                        match slept {
                                            Err(halt) => (t5, Err(system_failure(halt))),
                                            Ok(_) => watch_run(t5, deadline, output, diagnostics),
                                        }
                                    },
                                }
                            },
                        },
                    }
                },
            }
        },
    }
}

fn watch(script: &mut Script, deadline: u64) -> (r: Result<(bool, Vec<u8>, Vec<u8>), Halt<Error>>)
    ensures
        ({
            let (t, model) = watch_run(
                old(script).deep_view(),
                deadline,
                Seq::empty(),
                Seq::empty(),
            );
            &&& final(script).deep_view() == t
            &&& match (r, model) {
                (Ok((success, output, diagnostics)), Ok(finished)) => (
                    success,
                    output@,
                    diagnostics@,
                ) == finished,
                (Err(halt), Err(h)) => halt.deep_view() == h,
                _ => false,
            }
        }),
{
    let mut output: Vec<u8> = Vec::new();
    let mut diagnostics: Vec<u8> = Vec::new();
    assert(output@ =~= Seq::empty() && diagnostics@ =~= Seq::empty());
    loop
        invariant
            output@.len() <= MAX_OUTPUT,
            diagnostics@.len() <= MAX_OUTPUT,
            watch_run(old(script).deep_view(), deadline, Seq::empty(), Seq::empty()) == watch_run(
                script.deep_view(),
                deadline,
                output@,
                diagnostics@,
            ),
        decreases script.deep_view().replies.len() - script.deep_view().calls.len(),
    {
        let ghost before = script.deep_view();
        let status = match script.exit(Call::Process(ProcessAction::Poll)) {
            Ok(status) => status,
            Err(halt) => return Err(system_halt(halt)),
        };
        let ghost polled = script.deep_view();
        let ghost held = output@;
        output = drain(script, ProcessAction::ReadOutput, output)?;
        proof {
            bytes::bytes_deep_view(output);
            lemma_drain(polled, ProcessAction::ReadOutput, held);
        }
        let ghost drained = script.deep_view();
        let ghost held = diagnostics@;
        diagnostics = drain(script, ProcessAction::ReadDiagnostics, diagnostics)?;
        proof {
            bytes::bytes_deep_view(diagnostics);
            lemma_drain(drained, ProcessAction::ReadDiagnostics, held);
        }
        if let Some(success) = status {
            return Ok((success, output, diagnostics));
        }
        let now = match script.number(Call::Clock) {
            Ok(now) => now,
            Err(halt) => return Err(system_halt(halt)),
        };
        if now >= deadline {
            return Err(
                fail(
                    ErrorKind::Timeout,
                    "tmux did not respond within the command deadline",
                ),
            );
        }
        match script.done(Call::Sleep(10)) {
            Ok(()) => {},
            Err(halt) => return Err(system_halt(halt)),
        }
    }
}

/// Starts the clock and watches a command until it exits.
pub open spec fn timed_run(t: Transcript, timeout: u64) -> (
    Transcript,
    Result<Finished, WorkspaceHalt>,
) {
    let (t, clock) = ask_number(t, CallView::Clock);
    match clock {
        Err(halt) => (t, Err(system_failure(halt))),
        Ok(now) => watch_run(t, deadline_after(now, timeout), Seq::empty(), Seq::empty()),
    }
}

/// The moment after a span of time.
pub open spec fn deadline_after(now: u64, span: u64) -> u64 {
    if now + span > u64::MAX {
        u64::MAX
    } else {
        (now + span) as u64
    }
}

/// Kills a command that failed, and waits for its end.
pub open spec fn stopped_run(t: Transcript, error: ErrorView) -> (
    Transcript,
    Result<Finished, WorkspaceHalt>,
) {
    let (t, killed) = ask(t, CallView::Process(ProcessAction::Kill));
    if killed is None {
        (t, Err(Halt::Waiting))
    } else {
        let (t, reaped) = ask(t, CallView::Process(ProcessAction::Reap));
        if reaped is None {
            (t, Err(Halt::Waiting))
        } else {
            (t, Err(Halt::Failed(error)))
        }
    }
}

/// Watches a command until it exits, or stops it.
pub open spec fn supervised_run(t: Transcript, timeout: u64) -> (
    Transcript,
    Result<Finished, WorkspaceHalt>,
) {
    let (t, r) = timed_run(t, timeout);
    match r {
        Err(Halt::Failed(error)) => stopped_run(t, error),
        _ => (t, r),
    }
}

fn supervise(script: &mut Script, timeout: u64) -> (r: Result<
    (bool, Vec<u8>, Vec<u8>),
    Halt<Error>,
>)
    ensures
        ({
            let (t, model) = supervised_run(old(script).deep_view(), timeout);
            &&& final(script).deep_view() == t
            &&& match (r, model) {
                (Ok((success, output, diagnostics)), Ok(finished)) => (
                    success,
                    output@,
                    diagnostics@,
                ) == finished,
                (Err(halt), Err(h)) => halt.deep_view() == h,
                _ => false,
            }
        }),
{
    let watched = match script.number(Call::Clock) {
        Err(halt) => Err(system_halt(halt)),
        Ok(now) => watch(script, now.saturating_add(timeout)),
    };
    match watched {
        Err(Halt::Failed(error)) => {
            if !script.attempt(Call::Process(ProcessAction::Kill)) {
                return Err(Halt::Waiting);
            }
            if !script.attempt(Call::Process(ProcessAction::Reap)) {
                return Err(Halt::Waiting);
            }
            Err(Halt::Failed(error))
        },
        finished => finished,
    }
}

/// The diagnostics say that the workspace, or the whole server, is not there.
pub open spec fn tells_absence(diagnostics: Seq<char>) -> bool {
    ||| text::has_text(diagnostics, "can't find session"@)
    ||| text::has_text(diagnostics, "can't find pane"@)
    ||| text::has_text(diagnostics, "can't find window"@)
    ||| text::has_text(diagnostics, "no server running"@)
    ||| text::has_text(diagnostics, "No such file or directory"@)
}

/// What a command that did not succeed means.
pub open spec fn exit_failure(diagnostics: Seq<char>) -> ErrorView {
    ErrorView {
        kind: if tells_absence(diagnostics) {
            ErrorKind::NotFound
        } else {
            ErrorKind::Failed
        },
        message: if text::trimmed(diagnostics).len() == 0 {
            "tmux failed without a diagnostic; check that it is installed and executable"@
        } else {
            text::trimmed(diagnostics)
        },
    }
}

fn exit_error(diagnostics: &str) -> (r: Error)
    ensures
        r.deep_view() == exit_failure(diagnostics@),
{
    let kind = if text::contains(diagnostics, "can't find session") || text::contains(
        diagnostics,
        "can't find pane",
    ) || text::contains(diagnostics, "can't find window") || text::contains(
        diagnostics,
        "no server running",
    ) || text::contains(diagnostics, "No such file or directory") {
        ErrorKind::NotFound
    } else {
        ErrorKind::Failed
    };
    let message = text::trim(diagnostics);
    if message.as_str().is_empty() {
        return Error::new(
            kind,
            "tmux failed without a diagnostic; check that it is installed and executable",
        );
    }
    Error { kind, message }
}

/// The result of a command that exited.
pub open spec fn command_result(finished: Finished) -> Result<Seq<char>, WorkspaceHalt> {
    if finished.0 {
        Ok(bytes::readable_text(finished.1))
    } else {
        Err(Halt::Failed(exit_failure(bytes::readable_text(finished.2))))
    }
}

/// The result of a command that exited: its output, or what its diagnostics mean.
pub fn finish_command(success: bool, output: &Vec<u8>, diagnostics: &Vec<u8>) -> (r: Result<
    String,
    Halt<Error>,
>)
    ensures
        outcome(r) == command_result((success, output@, diagnostics@)),
{
    if success {
        Ok(bytes::readable(output.as_slice()))
    } else {
        Err(
            Halt::Failed(exit_error(bytes::readable(diagnostics.as_slice()).as_str())),
        )
    }
}

/// The client's arguments for a command on this socket.
pub open spec fn client_arguments(socket: Seq<char>, command: Seq<Seq<char>>) -> Seq<Seq<char>> {
    Seq::<Seq<char>>::empty().push("-L"@).push(socket).push("-f"@).push("/dev/null"@) + command
}

/// Runs one command of the tmux client.
pub open spec fn command_run(t: Transcript, backend: BackendView, command: Seq<Seq<char>>) -> (
    Transcript,
    Result<Seq<char>, WorkspaceHalt>,
) {
    let (t, streams) = ask_done(t, CallView::Process(ProcessAction::Streams));
    match streams {
        Err(halt) => (t, Err(system_failure(halt))),
        Ok(_) => {
            let (t, started) = ask_done(
                t,
                CallView::Spawn(backend.executable, client_arguments(backend.socket, command)),
            );
            match started {
                Err(Halt::Waiting) => (t, Err(Halt::Waiting)),
                Err(Halt::Failed(error)) => (t, Err(Halt::Failed(start_failure(error)))),
                Ok(_) => {
                    let (t, finished) = supervised_run(t, backend.timeout);
                    match finished {
                        Err(halt) => (t, Err(halt)),
                        Ok(finished) => (t, command_result(finished)),
                    }
                },
            }
        },
    }
}

impl Backend {
    /// Runs one command of the tmux client.
    pub fn run(&self, script: &mut Script, command: Vec<String>) -> (r: Result<
        String,
        Halt<Error>,
    >)
        ensures
            (final(script).deep_view(), outcome(r)) == command_run(
                old(script).deep_view(),
                self.deep_view(),
                text::texts(command@),
            ),
    {
        match script.done(Call::Process(ProcessAction::Streams)) {
            Ok(()) => {},
            Err(halt) => return Err(system_halt(halt)),
        }
        let mut arguments: Vec<String> = vec![
            "-L".to_owned(),
            self.socket().to_owned(),
            "-f".to_owned(),
            "/dev/null".to_owned(),
        ];
        let mut rest: Vec<String> = command;
        arguments.append(&mut rest);
        assert(arguments.deep_view() =~= client_arguments(
            self.deep_view().socket,
            text::texts(command@),
        ));
        match script.done(Call::Spawn(self.executable().to_owned(), arguments)) {
            Ok(()) => {},
            Err(Halt::Waiting) => return Err(Halt::Waiting),
            Err(Halt::Failed(error)) => return Err(Halt::Failed(start_error(&error))),
        }
        let (success, output, diagnostics) = supervise(script, self.timeout())?;
        finish_command(success, &output, &diagnostics)
    }
}

} // verus!
