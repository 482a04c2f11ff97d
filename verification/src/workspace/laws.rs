//! What the operations on workspaces never do.
//!
//! Each law speaks of the calls that an operation adds to a transcript, whatever
//! the host replies.

use crate::host::{
    ask, ask_bytes, ask_done, ask_exit, ask_number, continues, lemma_ask_continues, lemma_continues,
    CallView, Halt, ProcessAction, Transcript,
};
use crate::number;
use crate::workspace::command::{
    client_arguments, command_run, deadline_after, drain_run, lemma_drain, supervised_run,
    timed_run, watch_run, MAX_OUTPUT,
};
use crate::workspace::recording::{resize_command, resize_run, send_input_run};
use crate::workspace::sessions::{
    collect_run, guarded_command, is_token, list_run, lookup_command, lookup_run, managed_id,
    on_incarnation_run, refresh_command, resolve_run, sessions_command, terminate_run,
};
use crate::workspace::BackendView;
use vstd::prelude::*;
use vstd::string::*;

verus! {

/// A set of calls.
pub type Calls = spec_fn(CallView) -> bool;

/// `next` continues `t`, and only by calls that are allowed.
pub open spec fn adds_only(t: Transcript, next: Transcript, allowed: Calls) -> bool {
    &&& continues(t, next)
    &&& forall|i: int| t.calls.len() <= i < next.calls.len() ==> allowed(#[trigger] next.calls[i])
}

/// A call that watches over a command that was started, or waits.
pub open spec fn is_watching(call: CallView) -> bool {
    call is Process || call is Clock || call is Sleep
}

/// The call that starts a command of the tmux client.
pub open spec fn client_call(backend: BackendView, command: Seq<Seq<char>>) -> CallView {
    CallView::Spawn(backend.executable, client_arguments(backend.socket, command))
}

/// A call that looks the workspace `id` up, or makes its server look after the
/// children that have exited.
pub open spec fn is_lookup(backend: BackendView, id: Seq<char>, call: CallView) -> bool {
    ||| is_watching(call)
    ||| call == client_call(backend, lookup_command(id))
    ||| call == client_call(backend, refresh_command(id))
}

pub(crate) proof fn lemma_ask_adds(t: Transcript, call: CallView, allowed: Calls)
    requires
        allowed(call),
    ensures
        adds_only(t, ask(t, call).0, allowed),
{
    lemma_ask_continues(t, call);
}

pub(crate) proof fn lemma_same_adds(t: Transcript, allowed: Calls)
    ensures
        adds_only(t, t, allowed),
{
    lemma_ask_continues(t, CallView::Clock);
}

pub(crate) proof fn lemma_adds(t: Transcript, next: Transcript, last: Transcript, allowed: Calls)
    requires
        adds_only(t, next, allowed),
        adds_only(next, last, allowed),
    ensures
        adds_only(t, last, allowed),
{
    lemma_continues(t, next, last);
    assert forall|i: int| t.calls.len() <= i < last.calls.len() implies allowed(
        #[trigger] last.calls[i],
    ) by {
        if i < next.calls.len() {
            assert(last.calls.take(next.calls.len() as int)[i] == next.calls[i]);
        }
    }
}

pub(crate) proof fn lemma_drain_adds(
    t: Transcript,
    action: ProcessAction,
    before: Seq<u8>,
    allowed: Calls,
)
    requires
        forall|call: CallView| is_watching(call) ==> #[trigger] allowed(call),
    ensures
        adds_only(t, drain_run(t, action, before).0, allowed),
    decreases t.replies.len() - t.calls.len(),
{
    let (next, r) = ask_bytes(t, CallView::Process(action));
    lemma_ask_adds(t, CallView::Process(action), allowed);
    match r {
        Ok(bytes) => {
            if bytes.len() > 0 && before.len() + bytes.len() <= MAX_OUTPUT {
                lemma_drain_adds(next, action, before + bytes, allowed);
                lemma_adds(t, next, drain_run(next, action, before + bytes).0, allowed);
            }
        },
        Err(Halt::Failed(error)) => {
            if error.kind == crate::host::IoKind::Interrupted {
                lemma_drain_adds(next, action, before, allowed);
                lemma_adds(t, next, drain_run(next, action, before).0, allowed);
            }
        },
        Err(Halt::Waiting) => {},
    }
}

pub(crate) proof fn lemma_watch_adds(
    t: Transcript,
    deadline: u64,
    output: Seq<u8>,
    diagnostics: Seq<u8>,
    allowed: Calls,
)
    requires
        forall|call: CallView| is_watching(call) ==> #[trigger] allowed(call),
    ensures
        adds_only(t, watch_run(t, deadline, output, diagnostics).0, allowed),
    decreases t.replies.len() - t.calls.len(),
{
    let poll = CallView::Process(ProcessAction::Poll);
    let (t1, polled) = ask_exit(t, poll);
    lemma_ask_adds(t, poll, allowed);
    if polled is Ok {
        let (t2, out) = drain_run(t1, ProcessAction::ReadOutput, output);
        lemma_drain(t1, ProcessAction::ReadOutput, output);
        lemma_drain_adds(t1, ProcessAction::ReadOutput, output, allowed);
        lemma_adds(t, t1, t2, allowed);
        if let Ok(output) = out {
            let (t3, err) = drain_run(t2, ProcessAction::ReadDiagnostics, diagnostics);
            lemma_drain(t2, ProcessAction::ReadDiagnostics, diagnostics);
            lemma_drain_adds(t2, ProcessAction::ReadDiagnostics, diagnostics, allowed);
            lemma_adds(t, t2, t3, allowed);
            if let Ok(diagnostics) = err {
                let (t4, clock) = ask_number(t3, CallView::Clock);
                lemma_ask_adds(t3, CallView::Clock, allowed);
                lemma_adds(t, t3, t4, allowed);
                let (t5, slept) = ask_done(t4, CallView::Sleep(10));
                lemma_ask_adds(t4, CallView::Sleep(10), allowed);
                lemma_adds(t, t4, t5, allowed);
                if slept is Ok {
                    lemma_watch_adds(t5, deadline, output, diagnostics, allowed);
                    lemma_adds(
                        t,
                        t5,
                        watch_run(t5, deadline, output, diagnostics).0,
                        allowed,
                    );
                }
            }
        }
    }
}

pub(crate) proof fn lemma_supervised_adds(t: Transcript, timeout: u64, allowed: Calls)
    requires
        forall|call: CallView| is_watching(call) ==> #[trigger] allowed(call),
    ensures
        adds_only(t, supervised_run(t, timeout).0, allowed),
{
    let (t1, clock) = ask_number(t, CallView::Clock);
    lemma_ask_adds(t, CallView::Clock, allowed);
    let (t2, r) = timed_run(t, timeout);
    if let Ok(now) = clock {
        lemma_watch_adds(
            t1,
            deadline_after(now, timeout),
            Seq::empty(),
            Seq::empty(),
            allowed,
        );
        lemma_adds(t, t1, t2, allowed);
    }
    if let Err(Halt::Failed(error)) = r {
        let kill = CallView::Process(ProcessAction::Kill);
        let reap = CallView::Process(ProcessAction::Reap);
        let t3 = ask(t2, kill).0;
        lemma_ask_adds(t2, kill, allowed);
        lemma_ask_adds(t3, reap, allowed);
        lemma_adds(t, t2, t3, allowed);
        lemma_adds(t, t3, ask(t3, reap).0, allowed);
    }
}

/// A command of the client is started at most once: by the second call, and every
/// other call watches over it.
pub(crate) proof fn lemma_command_adds(
    t: Transcript,
    backend: BackendView,
    command: Seq<Seq<char>>,
    allowed: Calls,
)
    requires
        forall|call: CallView| is_watching(call) ==> #[trigger] allowed(call),
        allowed(client_call(backend, command)),
    ensures
        adds_only(t, command_run(t, backend, command).0, allowed),
{
    let streams = CallView::Process(ProcessAction::Streams);
    let (t1, made) = ask_done(t, streams);
    lemma_ask_adds(t, streams, allowed);
    if made is Ok {
        let start = client_call(backend, command);
        let (t2, started) = ask_done(t1, start);
        lemma_ask_adds(t1, start, allowed);
        lemma_adds(t, t1, t2, allowed);
        if started is Ok {
            lemma_supervised_adds(t2, backend.timeout, allowed);
            lemma_adds(t, t2, supervised_run(t2, backend.timeout).0, allowed);
        }
    }
}

pub(crate) proof fn lemma_lookup_adds(
    t: Transcript,
    backend: BackendView,
    id: Seq<char>,
    refresh: bool,
    allowed: Calls,
)
    requires
        forall|call: CallView| is_lookup(backend, id, call) ==> #[trigger] allowed(call),
    ensures
        adds_only(t, lookup_run(t, backend, id, refresh).0, allowed),
    decreases
            (if refresh {
                1int
            } else {
                0
            }),
{
    if is_token(id) {
        let t1 = command_run(t, backend, lookup_command(id)).0;
        lemma_command_adds(t, backend, lookup_command(id), allowed);
        if refresh {
            let t2 = command_run(t1, backend, refresh_command(id)).0;
            lemma_command_adds(t1, backend, refresh_command(id), allowed);
            lemma_adds(t, t1, t2, allowed);
            lemma_lookup_adds(t2, backend, id, false, allowed);
            lemma_adds(t, t2, lookup_run(t2, backend, id, false).0, allowed);
        }
    } else {
        lemma_same_adds(t, allowed);
    }
}

pub(crate) proof fn lemma_resolve_adds(
    t: Transcript,
    backend: BackendView,
    id: Seq<char>,
    generation: Seq<char>,
    allowed: Calls,
)
    requires
        forall|call: CallView| is_lookup(backend, id, call) ==> #[trigger] allowed(call),
    ensures
        adds_only(t, resolve_run(t, backend, id, generation).0, allowed),
{
    lemma_same_adds(t, allowed);
    lemma_lookup_adds(t, backend, id, true, allowed);
}

// ---------------------------------------------------------------------------
// One incarnation
// ---------------------------------------------------------------------------

pub(crate) proof fn lemma_lookup_identity(
    t: Transcript,
    backend: BackendView,
    id: Seq<char>,
    refresh: bool,
)
    ensures
        lookup_run(t, backend, id, refresh).1 matches Ok(workspace) ==> workspace.id == id
            && is_token(workspace.generation) && (workspace.exit_code matches Some(code) ==>
            workspace.exited && 0 <= code <= 255),
    decreases
            (if refresh {
                1int
            } else {
                0
            }),
{
    if refresh {
        let t1 = command_run(t, backend, lookup_command(id)).0;
        lemma_lookup_identity(
            command_run(t1, backend, refresh_command(id)).0,
            backend,
            id,
            false,
        );
    }
}

/// What is resolved is the incarnation that was asked for. Its exit code is known
/// only after its exit, and is one that a process can have.
pub proof fn the_incarnation_is_exact(
    t: Transcript,
    backend: BackendView,
    id: Seq<char>,
    generation: Seq<char>,
)
    ensures
        resolve_run(t, backend, id, generation).1 matches Ok(workspace) ==> workspace.id == id
            && workspace.generation == generation && (workspace.exit_code matches Some(code) ==>
            workspace.exited && 0 <= code <= 255),
{
    lemma_lookup_identity(t, backend, id, true);
}

/// Looking a workspace up starts nothing but the lookup: it creates, changes and
/// ends nothing.
pub proof fn resolving_only_looks(
    t: Transcript,
    backend: BackendView,
    id: Seq<char>,
    generation: Seq<char>,
)
    ensures
        adds_only(
            t,
            resolve_run(t, backend, id, generation).0,
            |call: CallView| is_lookup(backend, id, call),
        ),
{
    let allowed = |call: CallView| is_lookup(backend, id, call);
    lemma_resolve_adds(t, backend, id, generation, allowed);
}

/// A call of the listing: it asks for the sessions, or looks one up.
pub open spec fn is_listing(backend: BackendView, call: CallView) -> bool {
    ||| is_watching(call)
    ||| call == client_call(backend, sessions_command())
    ||| exists|id: Seq<char>| #[trigger] is_lookup(backend, id, call)
}

pub(crate) proof fn lemma_collect_adds(
    t: Transcript,
    backend: BackendView,
    names: Seq<Seq<char>>,
    found: Seq<crate::workspace::sessions::WorkspaceView>,
    allowed: Calls,
)
    requires
        forall|call: CallView| is_listing(backend, call) ==> #[trigger] allowed(call),
    ensures
        adds_only(t, collect_run(t, backend, names, found).0, allowed),
    decreases names.len(),
{
    lemma_same_adds(t, allowed);
    if names.len() > 0 {
        match managed_id(names[0]) {
            None => lemma_collect_adds(t, backend, names.drop_first(), found, allowed),
            Some(id) => {
                let (t1, r) = lookup_run(t, backend, id, true);
                lemma_lookup_adds(t, backend, id, true, allowed);
                let now_found = match r {
                    Ok(workspace) => found.push(workspace),
                    Err(_) => found,
                };
                lemma_collect_adds(t1, backend, names.drop_first(), now_found, allowed);
                lemma_adds(
                    t,
                    t1,
                    collect_run(t1, backend, names.drop_first(), now_found).0,
                    allowed,
                );
            },
        }
    }
}

/// Listing the workspaces creates, changes and ends none.
pub proof fn listing_only_looks(t: Transcript, backend: BackendView)
    ensures
        adds_only(t, list_run(t, backend).0, |call: CallView| is_listing(backend, call)),
{
    let allowed = |call: CallView| is_listing(backend, call);
    lemma_command_adds(t, backend, sessions_command(), allowed);
    let (t1, r) = command_run(t, backend, sessions_command());
    if let Ok(output) = r {
        let names = crate::text::lines_of(output);
        lemma_collect_adds(t1, backend, names, Seq::empty(), allowed);
        lemma_adds(t, t1, collect_run(t1, backend, names, Seq::empty()).0, allowed);
    }
}

/// A request for an incarnation whose identity is not one of this library, or for
/// input or dimensions out of range, makes no call at all.
pub proof fn unsound_requests_make_no_call(
    t: Transcript,
    backend: BackendView,
    id: Seq<char>,
    generation: Seq<char>,
    input: Seq<u8>,
    columns: u32,
    rows: u32,
)
    ensures
        !is_token(id) || !is_token(generation) ==> {
            &&& resolve_run(t, backend, id, generation).0 == t
            &&& resolve_run(t, backend, id, generation).1 is Err
            &&& terminate_run(t, backend, id, generation).0 == t
            &&& terminate_run(t, backend, id, generation).1 is Err
        },
        !is_token(id) || !is_token(generation) || !(1 <= input.len() <= 4096) ==> {
            &&& send_input_run(t, backend, id, generation, input).0 == t
            &&& send_input_run(t, backend, id, generation, input).1 is Err
        },
        !is_token(id) || !is_token(generation) || !(2 <= columns <= 1000) || !(2 <= rows <= 1000)
            ==> {
            &&& resize_run(t, backend, id, generation, columns, rows).0 == t
            &&& resize_run(t, backend, id, generation, columns, rows).1 is Err
        },
{
}

pub(crate) proof fn lemma_on_incarnation(
    t: Transcript,
    backend: BackendView,
    id: Seq<char>,
    generation: Seq<char>,
    command: Seq<char>,
    stale: Seq<char>,
)
    ensures
        ({
            let (next, r) = on_incarnation_run(t, backend, id, generation, command, stale);
            &&& continues(t, next)
            &&& forall|i: int|
                t.calls.len() <= i < next.calls.len() && i != t.calls.len() + 1 ==> is_watching(
                    #[trigger] next.calls[i],
                )
            &&& next.calls.len() > t.calls.len() + 1 ==> next.calls[t.calls.len() as int + 1]
                == client_call(backend, guarded_command(id, generation, command))
            &&& r is Ok ==> next.calls.len() > t.calls.len() + 1
        }),
{
    let watching = |call: CallView| is_watching(call);
    let streams = CallView::Process(ProcessAction::Streams);
    let (t1, made) = ask_done(t, streams);
    lemma_ask_continues(t, streams);
    if made is Ok {
        let start = client_call(backend, guarded_command(id, generation, command));
        let (t2, started) = ask_done(t1, start);
        lemma_ask_continues(t1, start);
        lemma_continues(t, t1, t2);
        if started is Ok {
            lemma_supervised_adds(t2, backend.timeout, watching);
            let t3 = supervised_run(t2, backend.timeout).0;
            lemma_continues(t, t2, t3);
            assert(t3.calls[t2.calls.len() - 1] == start);
            assert(t3.calls.take(t2.calls.len() as int)[t.calls.len() as int]
                == t2.calls[t.calls.len() as int]);
            assert forall|i: int|
                t.calls.len() <= i < t3.calls.len() && i != t.calls.len()
                    + 1 implies is_watching(#[trigger] t3.calls[i]) by {
                if i > t.calls.len() + 1 {
                    assert(watching(t3.calls[i]));
                }
            }
        }
    }
}

/// The calls of an operation that looks an incarnation up and then runs a command
/// on it.
pub open spec fn acts_once(
    t: Transcript,
    next: Transcript,
    backend: BackendView,
    id: Seq<char>,
    generation: Seq<char>,
    command: Seq<char>,
) -> bool {
    let found = resolve_run(t, backend, id, generation).0;
    let at = found.calls.len() + 1;
    &&& continues(t, next)
    &&& at < next.calls.len() ==> next.calls[at as int] == client_call(
        backend,
        guarded_command(id, generation, command),
    )
    &&& forall|i: int|
        t.calls.len() <= i < next.calls.len() && i != at ==> is_lookup(
            backend,
            id,
            #[trigger] next.calls[i],
        )
}

pub(crate) proof fn lemma_acts_once(
    t: Transcript,
    backend: BackendView,
    id: Seq<char>,
    generation: Seq<char>,
    command: Seq<char>,
    stale: Seq<char>,
)
    ensures
        ({
            let found = resolve_run(t, backend, id, generation).0;
            let (next, r) = on_incarnation_run(found, backend, id, generation, command, stale);
            &&& acts_once(t, next, backend, id, generation, command)
            &&& r is Ok ==> found.calls.len() + 1 < next.calls.len()
        }),
{
    let allowed = |call: CallView| is_lookup(backend, id, call);
    let found = resolve_run(t, backend, id, generation).0;
    lemma_resolve_adds(t, backend, id, generation, allowed);
    let next = on_incarnation_run(found, backend, id, generation, command, stale).0;
    lemma_on_incarnation(found, backend, id, generation, command, stale);
    lemma_continues(t, found, next);
    let at = found.calls.len() + 1;
    assert forall|i: int| t.calls.len() <= i < next.calls.len() && i != at implies is_lookup(
        backend,
        id,
        #[trigger] next.calls[i],
    ) by {
        if i < found.calls.len() {
            assert(next.calls.take(found.calls.len() as int)[i] == found.calls[i]);
            assert(allowed(found.calls[i]));
        }
    }
}

/// The operation that ends a workspace ends exactly the incarnation that was asked
/// for: it is looked up, and if it is there, one command is started, which tmux
/// runs only on this generation. Where it is not there nothing is ended.
pub proof fn termination_is_guarded(
    t: Transcript,
    backend: BackendView,
    id: Seq<char>,
    generation: Seq<char>,
)
    ensures
        ({
            let (found, resolved) = resolve_run(t, backend, id, generation);
            let (next, r) = terminate_run(t, backend, id, generation);
            match resolved {
                Ok(workspace) => {
                    &&& acts_once(
                        t,
                        next,
                        backend,
                        id,
                        generation,
                        "kill-session -t "@ + workspace.session_id,
                    )
                    &&& r is Ok ==> found.calls.len() + 1 < next.calls.len()
                },
                Err(halt) => next == found && r == Err::<(), _>(halt),
            }
        }),
{
    if let Ok(workspace) = resolve_run(t, backend, id, generation).1 {
        lemma_acts_once(
            t,
            backend,
            id,
            generation,
            "kill-session -t "@ + workspace.session_id,
            "Workspace incarnation changed before deletion"@,
        );
    }
}

/// Input is handed to tmux at most once, whatever comes back, and only for exactly
/// the incarnation that was asked for; a shell that has exited gets none. What was
/// acknowledged was handed over.
pub proof fn input_is_handed_over_once(
    t: Transcript,
    backend: BackendView,
    id: Seq<char>,
    generation: Seq<char>,
    input: Seq<u8>,
)
    requires
        1 <= input.len() <= 4096,
    ensures
        ({
            let (found, resolved) = resolve_run(t, backend, id, generation);
            let (next, r) = send_input_run(t, backend, id, generation, input);
            match resolved {
                Ok(workspace) => if workspace.exited {
                    next == found && r is Err
                } else {
                    &&& acts_once(
                        t,
                        next,
                        backend,
                        id,
                        generation,
                        "send-keys -H -t "@ + workspace.pane_id + " "@ + number::hex_bytes_text(
                            input,
                            " "@,
                        ),
                    )
                    &&& r is Ok ==> found.calls.len() + 1 < next.calls.len()
                },
                Err(halt) => next == found && r == Err::<(), _>(halt),
            }
        }),
{
    if let Ok(workspace) = resolve_run(t, backend, id, generation).1 {
        lemma_acts_once(
            t,
            backend,
            id,
            generation,
            "send-keys -H -t "@ + workspace.pane_id + " "@ + number::hex_bytes_text(input, " "@),
            "Workspace incarnation changed before terminal operation"@,
        );
    }
}

/// The dimensions of a window are changed only for exactly the incarnation that was
/// asked for.
pub proof fn resizing_is_guarded(
    t: Transcript,
    backend: BackendView,
    id: Seq<char>,
    generation: Seq<char>,
    columns: u32,
    rows: u32,
)
    requires
        2 <= columns <= 1000,
        2 <= rows <= 1000,
    ensures
        ({
            let (found, resolved) = resolve_run(t, backend, id, generation);
            let (next, r) = resize_run(t, backend, id, generation, columns, rows);
            match resolved {
                Ok(workspace) => {
                    &&& acts_once(
                        t,
                        next,
                        backend,
                        id,
                        generation,
                        resize_command(workspace.window_id, columns, rows),
                    )
                    &&& r is Ok ==> found.calls.len() + 1 < next.calls.len()
                },
                Err(halt) => next == found && r == Err::<(), _>(halt),
            }
        }),
{
    if let Ok(workspace) = resolve_run(t, backend, id, generation).1 {
        lemma_acts_once(
            t,
            backend,
            id,
            generation,
            resize_command(workspace.window_id, columns, rows),
            "Workspace incarnation changed before terminal operation"@,
        );
    }
}

} // verus!
