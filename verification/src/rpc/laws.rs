//! What the daemon's answers say: of whom, and what.

use crate::host::{CallView, FileActionView, Halt, JournalFile, PathAction, ReplyView, Transcript};
use crate::journal::format_laws::manifest_round_trip;
use crate::journal::{manifest_text, sound, Manifest, RetentionPolicy};
use crate::proto::{
    PersistentTerminalRequestView, PersistentWorkspaceRequestView, PersistentWorkspaceResponseView,
    PersistentWorkspaceView,
};
use crate::rpc::{checked_operation, describe_all_run, describe_run, execute_run, handle_run};
use crate::workspace::recording::{
    delete_history_run, read_output_run, recorder_connected_run, resize_run, send_input_run,
    start_recording_run,
};
use crate::workspace::sessions::{
    create_run, is_token, list_run, probe_run, resolve_run, terminate_run, WorkspaceView,
};
use crate::workspace::startup::{create_initialized_run, BootstrapProfileView, CreationView};
use crate::workspace::{BackendView, ErrorKind, ErrorView, WorkspaceHalt};
use vstd::prelude::*;
use vstd::string::*;
use vstd::utf8::{encode_utf8, encode_utf8_decode_utf8, encode_utf8_valid_utf8};

verus! {

/// The server of all managed workspaces: its own socket, apart from the user's sessions.
pub open spec fn server() -> BackendView {
    BackendView {
        socket: "eternalwarp-workspaces-v1"@,
        executable: "tmux"@,
        timeout: 5_000_000_000,
    }
}

// ---------------------------------------------------------------------------
// Descriptions
// ---------------------------------------------------------------------------

/// The description is of this workspace: it carries its identity, its generation, where
/// it is, and the state of its shell, all unchanged.
pub open spec fn is_description(d: PersistentWorkspaceView, w: WorkspaceView) -> bool {
    &&& d.workspace_id == w.id
    &&& d.generation == w.generation
    &&& d.session_id == w.session_id
    &&& d.window_id == w.window_id
    &&& d.pane_id == w.pane_id
    &&& d.shell_pid == w.shell_pid
    &&& d.exited == w.exited
    &&& d.exit_code == w.exit_code
}

/// The descriptions stand one for one for the workspaces.
pub open spec fn are_descriptions(
    list: Seq<PersistentWorkspaceView>,
    workspaces: Seq<WorkspaceView>,
) -> bool {
    &&& list.len() == workspaces.len()
    &&& forall|i: int| 0 <= i < list.len() ==> is_description(#[trigger] list[i], workspaces[i])
}

proof fn lemma_describe_all(
    t: Transcript,
    workspaces: Seq<WorkspaceView>,
    described: Seq<PersistentWorkspaceView>,
)
    ensures
        describe_all_run(t, workspaces, described).1 matches Some(list) ==> {
            &&& list.len() == described.len() + workspaces.len()
            &&& forall|i: int| 0 <= i < described.len() ==> #[trigger] list[i] == described[i]
            &&& forall|i: int|
                described.len() <= i < list.len() ==> is_description(
                    #[trigger] list[i],
                    workspaces[i - described.len()],
                )
        },
    decreases workspaces.len(),
{
    if workspaces.len() > 0 {
        let (next, one) = describe_run(t, workspaces[0]);
        if let Some(description) = one {
            let more = described.push(description);
            lemma_describe_all(next, workspaces.drop_first(), more);
            if let Some(list) = describe_all_run(t, workspaces, described).1 {
                assert forall|i: int| 0 <= i < described.len() implies #[trigger] list[i]
                    == described[i] by {
                    assert(list[i] == more[i]);
                }
                assert forall|i: int| described.len() <= i < list.len() implies is_description(
                    #[trigger] list[i],
                    workspaces[i - described.len()],
                ) by {
                    if i == described.len() {
                        assert(list[i] == more[i]);
                    } else {
                        assert(workspaces.drop_first()[i - more.len()] == workspaces[i
                            - described.len()]);
                    }
                }
            }
        }
    }
}

/// The workspaces in a response without an error.
pub open spec fn told(response: PersistentWorkspaceResponseView, workspaces: Seq<WorkspaceView>) -> bool {
    response.error is None && are_descriptions(response.workspaces, workspaces)
}

/// The response reports this failure, by the code of its kind and its message, and tells
/// of no workspace.
pub open spec fn reports(response: PersistentWorkspaceResponseView, error: ErrorView) -> bool {
    &&& response.workspaces.len() == 0
    &&& response.error matches Some(e)
    &&& e.message == error.message
    &&& e.code == (match error.kind {
        ErrorKind::InvalidRequest => "invalid_request"@,
        ErrorKind::Unavailable => "tmux_unavailable"@,
        ErrorKind::NotFound => "workspace_not_found"@,
        ErrorKind::Stale => "stale_workspace"@,
        ErrorKind::Failed => "tmux_failed"@,
        ErrorKind::Timeout => "tmux_timeout"@,
    })
}

/// What became of an operation that gives workspaces is what the response tells; while
/// the host has not answered there is no response.
pub open spec fn tells(
    response: Option<PersistentWorkspaceResponseView>,
    outcome: Result<Seq<WorkspaceView>, WorkspaceHalt>,
) -> bool {
    match outcome {
        Err(Halt::Waiting) => response is None,
        Err(Halt::Failed(error)) => response matches Some(r) && reports(r, error),
        Ok(workspaces) => response matches Some(r) ==> told(r, workspaces),
    }
}

/// The outcome of an operation on one workspace.
pub open spec fn one(r: Result<WorkspaceView, WorkspaceHalt>) -> Result<
    Seq<WorkspaceView>,
    WorkspaceHalt,
> {
    match r {
        Ok(w) => Ok(Seq::empty().push(w)),
        Err(halt) => Err(halt),
    }
}

/// The outcome of an operation that gives no workspace.
pub open spec fn none(r: Result<(), WorkspaceHalt>) -> Result<Seq<WorkspaceView>, WorkspaceHalt> {
    match r {
        Ok(_) => Ok(Seq::empty()),
        Err(halt) => Err(halt),
    }
}

/// A request is refused by its form, or carried out: the list, one incarnation, the probe,
/// and a creation without scripts give what these operations give on the server, and the
/// response describes it one for one.
pub proof fn answers_tell_what_the_operations_give(
    t: Transcript,
    request: PersistentWorkspaceRequestView,
)
    requires
        checked_operation(request) is Ok,
    ensures
        ({
            let response = handle_run(t, request).1;
            let id = request.workspace_id;
            &&& request.operation == 0 ==> tells(response, none(probe_run(t, server()).1))
            &&& request.operation == 1 && request.bootstrap is None ==> tells(
                response,
                one(create_run(t, server(), id, request.working_directory, None, None).1),
            )
            &&& request.operation == 2 ==> tells(response, list_run(t, server()).1)
            &&& request.operation == 3 ==> tells(
                response,
                one(resolve_run(t, server(), id, request.generation).1),
            )
            &&& response matches Some(r) ==> request.operation != 5 ==> r.terminal_output is None
        }),
{
    lemma_executed(t, request);
}

proof fn lemma_executed(t: Transcript, request: PersistentWorkspaceRequestView)
    ensures
        ({
            let (next, output, r) = execute_run(t, request);
            let response = handle_run(t, request).1;
            match r {
                Err(Halt::Waiting) => response is None,
                Err(Halt::Failed(error)) => response matches Some(a) && a.error == Some(error)
                    && a.workspaces.len() == 0 && a.terminal_output == output,
                Ok(workspaces) => response matches Some(a) ==> told(a, workspaces)
                    && a.terminal_output == output,
            }
        }),
{
    let (next, output, r) = execute_run(t, request);
    if let Ok(workspaces) = r {
        lemma_describe_all(next, workspaces, Seq::empty());
    }
}

/// A creation with scripts initializes a shell with exactly the scripts, the shell, the
/// directory and the retention of the request, in the daemon's own state directory, and
/// tells of the incarnation that was made or found.
pub proof fn creations_take_the_request_over(
    t: Transcript,
    request: PersistentWorkspaceRequestView,
    executable: Seq<char>,
    home: Seq<char>,
)
    requires
        checked_operation(request) is Ok,
        request.operation == 1,
        request.bootstrap is Some,
        t.replies.len() > t.calls.len() + 1,
        t.replies[t.calls.len() as int] == ReplyView::Text(executable),
        t.replies[t.calls.len() as int + 1] == ReplyView::Text(home),
        home.len() > 0,
        home.last() != '/',
    ensures
        ({
            let profile = request.bootstrap->Some_0;
            let asked = Transcript {
                calls: t.calls.push(CallView::CurrentExecutable).push(
                    CallView::Variable("HOME"@),
                ),
                ..t
            };
            tells(
                handle_run(t, request).1,
                one(
                    create_initialized_run(
                        asked,
                        server(),
                        CreationView {
                            id: request.workspace_id,
                            directory: request.working_directory,
                            profile: BootstrapProfileView {
                                shell: profile.shell,
                                init_script: profile.init_script,
                                bootstrap_script: profile.bootstrap_script,
                            },
                            executable,
                            root: home + "/.local/state/warp/persistent-output-v1"@,
                            retention: if request.history_retention == Some(1i32) {
                                RetentionPolicy::Rolling
                            } else {
                                RetentionPolicy::UntilWorkspaceDeleted
                            },
                        },
                    ).1,
                ),
            )
        }),
{
    lemma_executed(t, request);
    lemma_state_root(home);
}

proof fn lemma_state_root(home: Seq<char>)
    requires
        home.len() > 0,
        home.last() != '/',
    ensures
        crate::paths::path_in(home, crate::shell::STATE_DIRECTORY@) == home
            + "/.local/state/warp/persistent-output-v1"@,
{
    reveal_strlit(".local/state/warp/persistent-output-v1");
    reveal_strlit("/.local/state/warp/persistent-output-v1");
    reveal_strlit("/");
    assert(crate::paths::path_in(home, crate::shell::STATE_DIRECTORY@) =~= home
        + "/.local/state/warp/persistent-output-v1"@);
}

/// Ending a workspace ends the incarnation of the request, and then deletes its history;
/// what fails is reported, and the history stays where the end failed.
pub proof fn ending_ends_and_deletes(
    t: Transcript,
    request: PersistentWorkspaceRequestView,
    home: Seq<char>,
)
    requires
        checked_operation(request) is Ok,
        request.operation == 4,
        home.len() > 0,
        home.last() != '/',
    ensures
        ({
            let (ended, r) = terminate_run(t, server(), request.workspace_id, request.generation);
            let response = handle_run(t, request).1;
            let at = ended.calls.len();
            &&& r is Err ==> tells(response, none(r)) && handle_run(t, request).0 == ended
            &&& r is Ok && at < ended.replies.len() && ended.replies[at as int] == ReplyView::Text(
                home,
            ) ==> tells(
                response,
                none(
                    delete_history_run(
                        Transcript { calls: ended.calls.push(CallView::Variable("HOME"@)), ..ended },
                        server(),
                        request.workspace_id,
                        request.generation,
                        home + "/.local/state/warp/persistent-output-v1"@,
                    ).1,
                ),
            )
        }),
{
    lemma_executed(t, request);
    lemma_state_root(home);
}

// ---------------------------------------------------------------------------
// Terminals
// ---------------------------------------------------------------------------

/// A terminal request brings what its operation takes: input to be written, dimensions to be
/// set, or a cursor to read from.
pub open spec fn brings_its_own(p: PersistentTerminalRequestView) -> bool {
    &&& 0 <= p.operation <= 3
    &&& p.input.len() > 0 ==> p.operation == 2
    &&& p.columns != 0 || p.rows != 0 ==> p.operation == 3
    &&& p.cursor != 0 ==> p.operation == 0 || p.operation == 1
}

/// A terminal request that brings anything else is refused as it is, and nothing is done.
pub proof fn unsound_terminal_requests_are_refused(
    t: Transcript,
    request: PersistentWorkspaceRequestView,
    p: PersistentTerminalRequestView,
)
    requires
        checked_operation(request) is Ok,
        request.operation == 5,
        request.terminal == Some(p),
        !brings_its_own(p),
    ensures
        handle_run(t, request).0 == t,
        handle_run(t, request).1 matches Some(a) && a.workspaces.len() == 0 && a.terminal_output
            is None && (a.error matches Some(e) && e.code == "invalid_request"@),
{
    lemma_executed(t, request);
}

/// Input and new dimensions are handed to exactly the incarnation of the request, as they
/// are; what fails is reported. Then the incarnation is described.
#[verifier::spinoff_prover]
pub proof fn terminals_are_written_and_resized(
    t: Transcript,
    request: PersistentWorkspaceRequestView,
    p: PersistentTerminalRequestView,
)
    requires
        checked_operation(request) is Ok,
        request.operation == 5,
        request.terminal == Some(p),
        p.operation == 2 && p.columns == 0 && p.rows == 0 && p.cursor == 0 || p.operation == 3
            && p.input.len() == 0 && p.cursor == 0,
    ensures
        ({
            let id = request.workspace_id;
            let generation = request.generation;
            let response = handle_run(t, request).1;
            let (done, r) = if p.operation == 2 {
                send_input_run(t, server(), id, generation, p.input)
            } else {
                resize_run(t, server(), id, generation, p.columns, p.rows)
            };
            &&& r is Err ==> tells(response, none(r)) && handle_run(t, request).0 == done
            &&& r is Ok ==> tells(response, one(resolve_run(done, server(), id, generation).1))
            &&& response matches Some(a) ==> a.terminal_output is None
        }),
{
    lemma_executed(t, request);
}

/// The response gives the page that the journal of the incarnation gives for the cursor,
/// every field as it is, and whether its recorder is connected, once everything was made
/// ready for that; what fails before that is reported.
pub open spec fn gives_the_page(
    response: Option<PersistentWorkspaceResponseView>,
    ready: Transcript,
    started: Result<(), WorkspaceHalt>,
    id: Seq<char>,
    generation: Seq<char>,
    root: Seq<char>,
    cursor: u64,
) -> bool {
    let (read, page) = read_output_run(ready, server(), id, generation, root, cursor);
    let (asked, connected) = recorder_connected_run(read, server(), id, generation);
    let resolved = resolve_run(asked, server(), id, generation).1;
    if started is Err {
        tells(response, none(started))
    } else if page is Err || connected is Err {
        response matches Some(a) ==> a.terminal_output is None && a.workspaces.len() == 0
            && a.error is Some
    } else {
        &&& tells(response, one(resolved))
        &&& response matches Some(a) ==> (a.terminal_output matches Some(o) && {
            let given = page->Ok_0;
            &&& o.start_cursor == given.start_cursor
            &&& o.next_cursor == given.next_cursor
            &&& o.earliest_cursor == given.earliest_cursor
            &&& o.high_watermark == given.high_watermark
            &&& o.history_gap == given.history_gap
            &&& o.closed == given.closed
            &&& o.output == given.bytes
            &&& o.recorder_connected == connected->Ok_0
        })
    }
}

/// A read gives the page that the journal of the incarnation gives for the cursor.
#[verifier::spinoff_prover]
pub proof fn terminals_are_read(
    t: Transcript,
    request: PersistentWorkspaceRequestView,
    p: PersistentTerminalRequestView,
    home: Seq<char>,
)
    requires
        checked_operation(request) is Ok,
        request.operation == 5,
        request.terminal == Some(p),
        p.operation == 1,
        p.input.len() == 0,
        p.columns == 0 && p.rows == 0,
        t.replies.len() > t.calls.len(),
        t.replies[t.calls.len() as int] == ReplyView::Text(home),
        home.len() > 0,
        home.last() != '/',
    ensures
        gives_the_page(
            handle_run(t, request).1,
            Transcript { calls: t.calls.push(CallView::Variable("HOME"@)), ..t },
            Ok(()),
            request.workspace_id,
            request.generation,
            home + "/.local/state/warp/persistent-output-v1"@,
            p.cursor,
        ),
{
    lemma_executed(t, request);
    lemma_state_root(home);
}

/// An attachment first makes sure that there is a recorder, and then gives the page that the
/// journal of the incarnation gives for the cursor.
#[verifier::spinoff_prover]
pub proof fn terminals_are_attached(
    t: Transcript,
    request: PersistentWorkspaceRequestView,
    p: PersistentTerminalRequestView,
    home: Seq<char>,
    executable: Seq<char>,
)
    requires
        checked_operation(request) is Ok,
        request.operation == 5,
        request.terminal == Some(p),
        p.operation == 0,
        p.input.len() == 0,
        p.columns == 0 && p.rows == 0,
        t.replies.len() > t.calls.len() + 1,
        t.replies[t.calls.len() as int] == ReplyView::Text(home),
        t.replies[t.calls.len() as int + 1] == ReplyView::Text(executable),
        home.len() > 0,
        home.last() != '/',
    ensures
        ({
            let root = home + "/.local/state/warp/persistent-output-v1"@;
            let t1 = Transcript { calls: t.calls.push(CallView::Variable("HOME"@)), ..t };
            let t2 = Transcript { calls: t1.calls.push(CallView::CurrentExecutable), ..t1 };
            let (ready, started) = start_recording_run(
                t2,
                server(),
                request.workspace_id,
                request.generation,
                executable,
                root,
                RetentionPolicy::UntilWorkspaceDeleted,
            );
            gives_the_page(
                handle_run(t, request).1,
                ready,
                started,
                request.workspace_id,
                request.generation,
                root,
                p.cursor,
            )
        }),
{
    lemma_executed(t, request);
    lemma_state_root(home);
}

// ---------------------------------------------------------------------------
// What is stored
// ---------------------------------------------------------------------------

/// What a description says beyond what tmux knows comes from the incarnation's own files:
/// its shell, its execution state, and the storage that its journal counts.
pub proof fn descriptions_tell_what_is_stored(
    t: Transcript,
    w: WorkspaceView,
    home: Seq<char>,
    m: Manifest,
    shell: Seq<char>,
    activity: Seq<char>,
)
    requires
        is_token(w.id),
        is_token(w.generation),
        home.len() > 0,
        home.last() != '/',
        sound(m),
        m.archived_bytes + (m.end - m.first) <= u64::MAX,
        shell == "bash"@ || shell == "zsh"@ || shell == "fish"@,
        activity == "starting"@ || activity == "running"@ || activity == "idle"@,
        t.replies.len() >= t.calls.len() + 6,
        ({
            let k = t.calls.len() as int;
            &&& t.replies[k] == ReplyView::Text(home)
            &&& t.replies[k + 1] == ReplyView::Bytes(encode_utf8(manifest_text(m)))
            &&& t.replies[k + 2] == ReplyView::Text(home)
            &&& t.replies[k + 3] == ReplyView::Bytes(encode_utf8(shell))
            &&& t.replies[k + 4] == ReplyView::Text(home)
            &&& t.replies[k + 5] == ReplyView::Bytes(encode_utf8(activity + "\n"@))
        }),
    ensures
        ({
            let (next, description) = describe_run(t, w);
            let k = t.calls.len() as int;
            let incarnation = home + "/.local/state/warp/persistent-output-v1"@ + "/"@ + w.id + "-"@
                + w.generation;
            &&& description matches Some(d) && {
                &&& is_description(d, w)
                &&& d.shell == Some(shell)
                &&& d.activity == Some(activity)
                &&& d.history_storage_bytes == Some(
                    (m.archived_bytes + (m.end - m.first)) as u64,
                )
            }
            &&& next.calls == t.calls.push(CallView::Variable("HOME"@)).push(
                CallView::Journal(
                    incarnation,
                    FileActionView::ReadStart(JournalFile::Manifest, 257),
                ),
            ).push(CallView::Variable("HOME"@)).push(
                CallView::Path(PathAction::Read, incarnation + ".shell/shell"@),
            ).push(CallView::Variable("HOME"@)).push(
                CallView::ReadStart(incarnation + ".shell/activity"@, 16),
            )
        }),
{
    lemma_state_root(home);
    manifest_round_trip(m);
    lemma_stored_names(home, w);
    encode_utf8_valid_utf8(shell);
    encode_utf8_decode_utf8(shell);
    lemma_activity(activity);
    lemma_session(w.id);
    lemma_session(w.generation);
}

proof fn lemma_session(value: Seq<char>)
    requires
        is_token(value),
    ensures
        crate::shell::session_number(value) is Some,
{
}

proof fn lemma_activity(activity: Seq<char>)
    requires
        activity == "starting"@ || activity == "running"@ || activity == "idle"@,
    ensures
        crate::shell::activity_named(encode_utf8(activity + "\n"@)) == Some(activity),
{
    reveal_strlit("starting");
    reveal_strlit("running");
    reveal_strlit("idle");
    reveal_strlit("starting\n");
    reveal_strlit("running\n");
    reveal_strlit("idle\n");
    reveal_strlit("\n");
    assert("starting"@ + "\n"@ =~= "starting\n"@);
    assert("running"@ + "\n"@ =~= "running\n"@);
    assert("idle"@ + "\n"@ =~= "idle\n"@);
    encode_utf8_decode_utf8("starting\n"@);
    encode_utf8_decode_utf8("running\n"@);
    encode_utf8_decode_utf8("idle\n"@);
    assert("starting\n"@.len() == 9 && "running\n"@.len() == 8 && "idle\n"@.len() == 5);
}

proof fn lemma_stored_names(home: Seq<char>, w: WorkspaceView)
    requires
        home.len() > 0,
        is_token(w.id),
    ensures
        ({
            let root = home + "/.local/state/warp/persistent-output-v1"@;
            let incarnation = root + "/"@ + w.id + "-"@ + w.generation;
            let startup = crate::shell::startup_directory(root, w.id, w.generation);
            &&& crate::workspace::recording::journal_directory(root, w.id, w.generation)
                == incarnation
            &&& crate::paths::path_in(startup, "shell"@) == incarnation + ".shell/shell"@
            &&& crate::paths::path_in(startup, "activity"@) == incarnation + ".shell/activity"@
        }),
{
    let root = home + "/.local/state/warp/persistent-output-v1"@;
    assert(root.len() > 0 && root.last() == '1') by {
        reveal_strlit("/.local/state/warp/persistent-output-v1");
    }
    lemma_names_under(root, w.id, w.generation);
}

proof fn lemma_names_under(root: Seq<char>, id: Seq<char>, generation: Seq<char>)
    requires
        root.len() > 0,
        root.last() != '/',
        is_token(id),
    ensures
        ({
            let incarnation = root + "/"@ + id + "-"@ + generation;
            let startup = crate::shell::startup_directory(root, id, generation);
            &&& crate::workspace::recording::journal_directory(root, id, generation)
                == incarnation
            &&& crate::paths::path_in(startup, "shell"@) == incarnation + ".shell/shell"@
            &&& crate::paths::path_in(startup, "activity"@) == incarnation + ".shell/activity"@
        }),
{
    let incarnation = root + "/"@ + id + "-"@ + generation;
    let startup = crate::shell::startup_directory(root, id, generation);
    assert(crate::number::is_hex_digit(id[0]));
    assert(root + "/"@ + (id + "-"@ + generation) =~= incarnation);
    assert(root + "/"@ + (id + "-"@ + generation + ".shell"@) =~= incarnation + ".shell"@);
    assert(startup == incarnation + ".shell"@);
    lemma_file_under(incarnation, "shell"@, ".shell/shell"@);
    lemma_file_under(incarnation, "activity"@, ".shell/activity"@);
}

proof fn lemma_file_under(incarnation: Seq<char>, name: Seq<char>, end: Seq<char>)
    requires
        name == "shell"@ && end == ".shell/shell"@ || name == "activity"@ && end
            == ".shell/activity"@,
    ensures
        crate::paths::path_in(incarnation + ".shell"@, name) == incarnation + end,
{
    reveal_strlit("/");
    reveal_strlit(".shell");
    reveal_strlit("shell");
    reveal_strlit("activity");
    reveal_strlit(".shell/shell");
    reveal_strlit(".shell/activity");
    let startup = incarnation + ".shell"@;
    assert(startup.last() == 'l');
    assert(end =~= ".shell"@ + "/"@ + name);
    assert(startup + "/"@ + name =~= incarnation + (".shell"@ + "/"@ + name));
}

// ---------------------------------------------------------------------------
// The form of requests
// ---------------------------------------------------------------------------

/// A request is accepted exactly where it speaks the first version of the protocol, names
/// an operation, and brings what this operation takes and nothing else.
pub proof fn requests_bring_what_their_operation_takes(request: PersistentWorkspaceRequestView)
    ensures
        checked_operation(request) is Ok <==> {
            &&& request.protocol_version == 1
            &&& 0 <= request.operation <= 5
            &&& request.bootstrap is Some ==> request.operation == 1
            &&& request.history_retention is Some ==> {
                &&& request.operation == 1
                &&& request.bootstrap is Some
                &&& request.history_retention == Some(0i32) || request.history_retention == Some(
                    1i32,
                )
            }
            &&& request.terminal is Some <==> request.operation == 5
            &&& request.operation == 0 || request.operation == 2 ==> request.workspace_id.len()
                == 0 && request.generation.len() == 0 && request.working_directory is None
            &&& request.operation == 1 ==> request.generation.len() == 0
            &&& request.operation >= 3 ==> request.working_directory is None
        },
        checked_operation(request) matches Err(error) ==> error.code == (
        if request.protocol_version == 1 {
            "invalid_request"@
        } else {
            "unsupported_version"@
        }),
{
}

} // verus!
