//! The daemon's answer to a request: the request is checked, carried out and
//! answered. Every response says which protocol it speaks and what is supported.

use crate::host::{
    ask_text, ask_variable, outcome, Call, CallView, Halt, IoHalt, Script, Transcript,
};
use crate::journal::{retained_storage_bytes, retained_storage_run, RetentionPolicy};
use crate::paths::{join, path_in};
use crate::proto::{
    operation_numbered, retention_numbered, terminal_operation_numbered, HistoryRetention,
    PersistentTerminalOutput, PersistentTerminalOutputView, PersistentTerminalRequest,
    PersistentTerminalRequestView, PersistentWorkspace, PersistentWorkspaceError,
    PersistentWorkspaceErrorView, PersistentWorkspaceOperation, PersistentWorkspaceRequest,
    PersistentWorkspaceRequestView, PersistentWorkspaceResponse, PersistentWorkspaceResponseView,
    PersistentWorkspaceView, TerminalOperation,
};
use crate::replay::message_of;
use crate::shell::{activity, activity_run, stored_shell, stored_shell_run, STATE_DIRECTORY};
use crate::bytes;
use crate::text;
use crate::workspace::command::{system_failure, system_halt};
use crate::workspace::recording::{
    delete_history_run, journal_directory, journal_name, read_output_run, recorder_connected_run,
    resize_run, send_input_run, start_recording_run,
};
use crate::workspace::sessions::{
    create_run, list_run, probe_run, resolve_run, terminate_run, Workspace, WorkspaceView,
};
use crate::workspace::startup::{
    create_initialized_run, BootstrapProfile, BootstrapProfileView, CreationView,
};
use crate::workspace::{
    fail, failed, socket_name, Backend, BackendView, Error, ErrorKind, WorkspaceHalt, SOCKET,
};
use vstd::prelude::*;
use vstd::string::*;

pub mod laws;

verus! {

pub const PROTOCOL_VERSION: u32 = 1;

pub type ResponseHalt = Halt<PersistentWorkspaceErrorView>;

// ---------------------------------------------------------------------------
// The check of a request
// ---------------------------------------------------------------------------

pub open spec fn invalid_request(message: Seq<char>) -> PersistentWorkspaceErrorView {
    PersistentWorkspaceErrorView { code: "invalid_request"@, message }
}

/// The operation of a request, or what is wrong with the request.
pub open spec fn checked_operation(request: PersistentWorkspaceRequestView) -> Result<
    PersistentWorkspaceOperation,
    PersistentWorkspaceErrorView,
> {
    if request.protocol_version != PROTOCOL_VERSION {
        Err(
            PersistentWorkspaceErrorView {
                code: "unsupported_version"@,
                message: "Persistent-workspace protocol version 1 is required"@,
            },
        )
    } else {
        match operation_numbered(request.operation) {
            None => Err(invalid_request("Unknown workspace operation"@)),
            Some(operation) => match parameter_error(operation, request) {
                Some(message) => Err(invalid_request(message)),
                None => Ok(operation),
            },
        }
    }
}

/// What is wrong with the parameters of a request for an operation, if anything.
pub open spec fn parameter_error(
    operation: PersistentWorkspaceOperation,
    request: PersistentWorkspaceRequestView,
) -> Option<Seq<char>> {
    if !(operation is Create) && request.bootstrap is Some {
        Some("Bootstrap assets are valid only on workspace creation"@)
    } else if request.history_retention is Some && (!(operation is Create)
        || request.bootstrap is None || retention_numbered(
        request.history_retention->Some_0,
    ) is None) {
        Some("History retention requires initialized workspace creation and a known policy"@)
    } else if (operation is Terminal) != (request.terminal is Some) {
        Some("Terminal operation requires terminal parameters exclusively"@)
    } else {
        match operation {
            PersistentWorkspaceOperation::Probe | PersistentWorkspaceOperation::List => {
                if request.workspace_id.len() > 0 || request.generation.len() > 0
                    || request.working_directory is Some {
                    Some("Probe/list must not target a workspace"@)
                } else {
                    None
                }
            },
            PersistentWorkspaceOperation::Create => if request.generation.len() > 0 {
                Some("Create must not supply a generation"@)
            } else {
                None
            },
            _ => if request.working_directory is Some {
                Some("Resolve/terminate cannot change the working directory"@)
            } else {
                None
            },
        }
    }
}

fn invalid(message: &str) -> (error: PersistentWorkspaceError)
    ensures
        error.deep_view() == invalid_request(message@),
{
    PersistentWorkspaceError { code: "invalid_request".to_owned(), message: message.to_owned() }
}

impl DeepView for PersistentWorkspaceOperation {
    type V = PersistentWorkspaceOperation;

    open spec fn deep_view(&self) -> PersistentWorkspaceOperation {
        *self
    }
}

/// The operation of a request, or what is wrong with the request.
pub fn check_request(request: &PersistentWorkspaceRequest) -> (r: Result<
    PersistentWorkspaceOperation,
    PersistentWorkspaceError,
>)
    ensures
        outcome(r) == checked_operation(request.deep_view()),
{
    if request.protocol_version != PROTOCOL_VERSION {
        return Err(
            PersistentWorkspaceError {
                code: "unsupported_version".to_owned(),
                message: "Persistent-workspace protocol version 1 is required".to_owned(),
            },
        );
    }
    let operation = match PersistentWorkspaceOperation::from_number(request.operation) {
        Some(operation) => operation,
        None => return Err(invalid("Unknown workspace operation")),
    };
    let create = operation == PersistentWorkspaceOperation::Create;
    if !create && request.bootstrap.is_some() {
        return Err(invalid("Bootstrap assets are valid only on workspace creation"));
    }
    if let Some(policy) = request.history_retention {
        if !create || request.bootstrap.is_none() || HistoryRetention::from_number(
            policy,
        ).is_none() {
            return Err(
                invalid(
                    "History retention requires initialized workspace creation and a known policy",
                ),
            );
        }
    }
    if (operation == PersistentWorkspaceOperation::Terminal) != request.terminal.is_some() {
        return Err(invalid("Terminal operation requires terminal parameters exclusively"));
    }
    match operation {
        PersistentWorkspaceOperation::Probe | PersistentWorkspaceOperation::List => {
            if !request.workspace_id.as_str().is_empty() || !request.generation.as_str().is_empty()
                || request.working_directory.is_some() {
                return Err(invalid("Probe/list must not target a workspace"));
            }
        },
        PersistentWorkspaceOperation::Create => {
            if !request.generation.as_str().is_empty() {
                return Err(invalid("Create must not supply a generation"));
            }
        },
        PersistentWorkspaceOperation::Resolve | PersistentWorkspaceOperation::Terminate
        | PersistentWorkspaceOperation::Terminal => {
            if request.working_directory.is_some() {
                return Err(invalid("Resolve/terminate cannot change the working directory"));
            }
        },
    }
    Ok(operation)
}

/// An error of an operation, as it stands in a response.
pub open spec fn response_error(halt: WorkspaceHalt) -> ResponseHalt {
    match halt {
        Halt::Waiting => Halt::Waiting,
        Halt::Failed(error) => Halt::Failed(
            PersistentWorkspaceErrorView { code: error.kind.code_text(), message: error.message },
        ),
    }
}

fn response_halt(halt: Halt<Error>) -> (r: Halt<PersistentWorkspaceError>)
    ensures
        r.deep_view() == response_error(halt.deep_view()),
{
    match halt {
        Halt::Waiting => Halt::Waiting,
        Halt::Failed(error) => Halt::Failed(
            PersistentWorkspaceError {
                code: error.kind.code().to_owned(),
                message: error.message,
            },
        ),
    }
}

// ---------------------------------------------------------------------------
// The environment of the daemon
// ---------------------------------------------------------------------------

/// The root of all state, under the home directory if there is one.
pub open spec fn state_root_run(t: Transcript) -> (
    Transcript,
    Result<Option<Seq<char>>, WorkspaceHalt>,
) {
    let (t, r) = ask_variable(t, CallView::Variable("HOME"@));
    (
        t,
        match r {
            Err(halt) => Err(system_failure(halt)),
            Ok(None) => Ok(None),
            Ok(Some(home)) => Ok(Some(path_in(home, STATE_DIRECTORY@))),
        },
    )
}

fn state_root(script: &mut Script) -> (r: Result<Option<String>, Halt<Error>>)
    ensures
        (final(script).deep_view(), outcome(r)) == state_root_run(old(script).deep_view()),
{
    match script.variable("HOME") {
        Err(halt) => Err(system_halt(halt)),
        Ok(None) => Ok(None),
        Ok(Some(home)) => Ok(Some(join(home.as_str(), STATE_DIRECTORY))),
    }
}

/// The executable of the daemon.
pub open spec fn executable_run(t: Transcript) -> (Transcript, Result<Seq<char>, WorkspaceHalt>) {
    let (t, r) = ask_text(t, CallView::CurrentExecutable);
    (
        t,
        match r {
            Err(halt) => Err(system_failure(halt)),
            Ok(path) => Ok(path),
        },
    )
}

fn current_executable(script: &mut Script) -> (r: Result<String, Halt<Error>>)
    ensures
        (final(script).deep_view(), outcome(r)) == executable_run(old(script).deep_view()),
{
    match script.text(Call::CurrentExecutable) {
        Err(halt) => Err(system_halt(halt)),
        Ok(path) => Ok(path),
    }
}

// ---------------------------------------------------------------------------
// Terminals
// ---------------------------------------------------------------------------

/// The operation of a terminal request, or what is wrong with the request.
pub open spec fn checked_terminal(terminal: Option<PersistentTerminalRequestView>) -> Result<
    TerminalOperation,
    Seq<char>,
> {
    match terminal {
        None => Err("Missing terminal parameters"@),
        Some(params) => match terminal_operation_numbered(params.operation) {
            None => Err("Unknown terminal operation"@),
            Some(operation) => {
                let sends = operation is Input;
                let resizes = operation is Resize;
                if (!sends && params.input.len() > 0) || (!resizes && (params.columns != 0
                    || params.rows != 0)) || ((sends || resizes) && params.cursor != 0) {
                    Err("Unexpected parameters for terminal operation"@)
                } else {
                    Ok(operation)
                }
            },
        },
    }
}

fn check_terminal(params: &PersistentTerminalRequest) -> (r: Result<TerminalOperation, Halt<Error>>)
    ensures
        match (r, checked_terminal(Some(params.deep_view()))) {
            (Ok(operation), Ok(model)) => operation == model,
            (Err(halt), Err(message)) => halt.deep_view() == failed(
                ErrorKind::InvalidRequest,
                message,
            ),
            _ => false,
        },
{
    let operation = match TerminalOperation::from_number(params.operation) {
        Some(operation) => operation,
        None => return Err(fail(ErrorKind::InvalidRequest, "Unknown terminal operation")),
    };
    let sends = operation == TerminalOperation::Input;
    let resizes = operation == TerminalOperation::Resize;
    if (!sends && params.input.len() > 0) || (!resizes && (params.columns != 0 || params.rows
        != 0)) || ((sends || resizes) && params.cursor != 0) {
        return Err(
            fail(ErrorKind::InvalidRequest, "Unexpected parameters for terminal operation"),
        );
    }
    Ok(operation)
}

/// Attaches to a terminal: a recorder is started unless one is there.
pub open spec fn attach_run(
    t: Transcript,
    backend: BackendView,
    id: Seq<char>,
    generation: Seq<char>,
    root: Seq<char>,
) -> (Transcript, Result<(), WorkspaceHalt>) {
    let (t, executable) = executable_run(t);
    match executable {
        Err(halt) => (t, Err(halt)),
        Ok(executable) => start_recording_run(
            t,
            backend,
            id,
            generation,
            executable,
            root,
            RetentionPolicy::UntilWorkspaceDeleted,
        ),
    }
}

/// Reads a page of a terminal's output, with the state of its recorder.
pub open spec fn page_run(
    t: Transcript,
    backend: BackendView,
    id: Seq<char>,
    generation: Seq<char>,
    root: Seq<char>,
    cursor: u64,
) -> (Transcript, Result<PersistentTerminalOutputView, WorkspaceHalt>) {
    let (t, page) = read_output_run(t, backend, id, generation, root, cursor);
    match page {
        Err(halt) => (t, Err(halt)),
        Ok(page) => {
            let (t, connected) = recorder_connected_run(t, backend, id, generation);
            (
                t,
                match connected {
                    Err(halt) => Err(halt),
                    Ok(connected) => Ok(message_of(page, connected)),
                },
            )
        },
    }
}

/// Carries out a terminal request. Only attaching and reading give output.
pub open spec fn terminal_run(
    t: Transcript,
    backend: BackendView,
    request: PersistentWorkspaceRequestView,
) -> (Transcript, Result<Option<PersistentTerminalOutputView>, WorkspaceHalt>) {
    let id = request.workspace_id;
    let generation = request.generation;
    match checked_terminal(request.terminal) {
        Err(message) => (t, Err(failed(ErrorKind::InvalidRequest, message))),
        Ok(operation) => {
            let params = request.terminal->Some_0;
            match operation {
                TerminalOperation::Input => {
                    let (t, r) = send_input_run(t, backend, id, generation, params.input);
                    (
                        t,
                        match r {
                            Err(halt) => Err(halt),
                            Ok(_) => Ok(None),
                        },
                    )
                },
                TerminalOperation::Resize => {
                    let (t, r) = resize_run(
                        t,
                        backend,
                        id,
                        generation,
                        params.columns,
                        params.rows,
                    );
                    (
                        t,
                        match r {
                            Err(halt) => Err(halt),
                            Ok(_) => Ok(None),
                        },
                    )
                },
                _ => {
                    let (t, root) = state_root_run(t);
                    match root {
                        Err(halt) => (t, Err(halt)),
                        Ok(None) => (
                            t,
                            Err(failed(ErrorKind::InvalidRequest, "Remote HOME is not set"@)),
                        ),
                        Ok(Some(root)) => {
                            let (t, attached) = if operation is Attach {
                                attach_run(t, backend, id, generation, root)
                            } else {
                                (t, Ok(()))
                            };
                            match attached {
                                Err(halt) => (t, Err(halt)),
                                Ok(_) => {
                                    let (t, page) = page_run(
                                        t,
                                        backend,
                                        id,
                                        generation,
                                        root,
                                        params.cursor,
                                    );
                                    match page {
                                        Err(halt) => (t, Err(halt)),
                                        Ok(output) => (t, Ok(Some(output))),
                                    }
                                },
                            }
                        },
                    }
                },
            }
        },
    }
}

fn terminal(backend: &Backend, script: &mut Script, request: &PersistentWorkspaceRequest) -> (r:
    Result<Option<PersistentTerminalOutput>, Halt<Error>>)
    ensures
        (final(script).deep_view(), outcome(r)) == terminal_run(
            old(script).deep_view(),
            backend.deep_view(),
            request.deep_view(),
        ),
{
    let id = request.workspace_id.as_str();
    let generation = request.generation.as_str();
    let params = match &request.terminal {
        Some(params) => params,
        None => return Err(fail(ErrorKind::InvalidRequest, "Missing terminal parameters")),
    };
    let operation = check_terminal(params)?;
    match operation {
        TerminalOperation::Input => {
            backend.send_input(script, id, generation, &params.input)?;
            return Ok(None);
        },
        TerminalOperation::Resize => {
            backend.resize(script, id, generation, params.columns, params.rows)?;
            return Ok(None);
        },
        TerminalOperation::Attach | TerminalOperation::Read => {},
    }
    let root = match state_root(script)? {
        Some(root) => root,
        None => return Err(fail(ErrorKind::InvalidRequest, "Remote HOME is not set")),
    };
    if operation == TerminalOperation::Attach {
        let executable = current_executable(script)?;
        backend.start_recording(script, id, generation, executable.as_str(), root.as_str())?;
    }
    let page = backend.read_output(script, id, generation, root.as_str(), params.cursor)?;
    let recorder_connected = backend.recorder_connected(script, id, generation)?;
    let output = PersistentTerminalOutput {
        start_cursor: page.start_cursor,
        next_cursor: page.next_cursor,
        earliest_cursor: page.earliest_cursor,
        high_watermark: page.high_watermark,
        history_gap: page.history_gap,
        closed: page.closed,
        output: page.bytes,
        recorder_connected,
    };
    assert(output.deep_view() == message_of(page.deep_view(), recorder_connected));
    Ok(Some(output))
}

// ---------------------------------------------------------------------------
// Workspaces
// ---------------------------------------------------------------------------

/// The policy of a request's history.
pub open spec fn requested_policy(history_retention: Option<i32>) -> RetentionPolicy {
    match history_retention {
        Some(n) => if retention_numbered(n) == Some(HistoryRetention::Rolling) {
            RetentionPolicy::Rolling
        } else {
            RetentionPolicy::UntilWorkspaceDeleted
        },
        None => RetentionPolicy::UntilWorkspaceDeleted,
    }
}

/// Creates a workspace, with an initialized shell if the request brings its scripts.
pub open spec fn create_workspace_run(
    t: Transcript,
    backend: BackendView,
    request: PersistentWorkspaceRequestView,
) -> (Transcript, Result<WorkspaceView, WorkspaceHalt>) {
    match request.bootstrap {
        None => create_run(
            t,
            backend,
            request.workspace_id,
            request.working_directory,
            None,
            None,
        ),
        Some(bootstrap) => {
            let (t, executable) = executable_run(t);
            match executable {
                Err(halt) => (t, Err(halt)),
                Ok(executable) => {
                    let (t, root) = state_root_run(t);
                    match root {
                        Err(halt) => (t, Err(halt)),
                        Ok(None) => (t, Err(failed(ErrorKind::Failed, "Remote HOME is not set"@))),
                        Ok(Some(root)) => create_initialized_run(
                            t,
                            backend,
                            CreationView {
                                id: request.workspace_id,
                                directory: request.working_directory,
                                profile: BootstrapProfileView {
                                    shell: bootstrap.shell,
                                    init_script: bootstrap.init_script,
                                    bootstrap_script: bootstrap.bootstrap_script,
                                },
                                executable,
                                root,
                                retention: requested_policy(request.history_retention),
                            },
                        ),
                    }
                },
            }
        },
    }
}

fn as_text(value: &Option<String>) -> (r: Option<&str>)
    ensures
        r.deep_view() == value.deep_view(),
{
    match value {
        Some(text) => Some(text.as_str()),
        None => None,
    }
}

fn create_workspace(
    backend: &Backend,
    script: &mut Script,
    request: &PersistentWorkspaceRequest,
) -> (r: Result<Workspace, Halt<Error>>)
    ensures
        (final(script).deep_view(), outcome(r)) == create_workspace_run(
            old(script).deep_view(),
            backend.deep_view(),
            request.deep_view(),
        ),
{
    let id = request.workspace_id.as_str();
    let directory = as_text(&request.working_directory);
    let bootstrap = match &request.bootstrap {
        Some(bootstrap) => bootstrap,
        None => return backend.create(script, id, directory),
    };
    let executable = current_executable(script)?;
    let root = match state_root(script)? {
        Some(root) => root,
        None => return Err(fail(ErrorKind::Failed, "Remote HOME is not set")),
    };
    let retention = match request.history_retention {
        Some(n) => match HistoryRetention::from_number(n) {
            Some(HistoryRetention::Rolling) => RetentionPolicy::Rolling,
            _ => RetentionPolicy::UntilWorkspaceDeleted,
        },
        None => RetentionPolicy::UntilWorkspaceDeleted,
    };
    let profile = BootstrapProfile {
        shell: bootstrap.shell.clone(),
        init_script: bytes::copy(bootstrap.init_script.as_slice()),
        bootstrap_script: bytes::copy(bootstrap.bootstrap_script.as_slice()),
    };
    backend.create_initialized_with_retention(
        script,
        id,
        directory,
        &profile,
        executable.as_str(),
        root.as_str(),
        retention,
    )
}

/// Ends a workspace, and removes its history if there is a home directory.
pub open spec fn terminate_workspace_run(
    t: Transcript,
    backend: BackendView,
    id: Seq<char>,
    generation: Seq<char>,
) -> (Transcript, Result<(), WorkspaceHalt>) {
    let (t, terminated) = terminate_run(t, backend, id, generation);
    match terminated {
        Err(halt) => (t, Err(halt)),
        Ok(_) => {
            let (t, root) = state_root_run(t);
            match root {
                Err(halt) => (t, Err(halt)),
                Ok(None) => (t, Ok(())),
                Ok(Some(root)) => delete_history_run(t, backend, id, generation, root),
            }
        },
    }
}

fn terminate_workspace(backend: &Backend, script: &mut Script, id: &str, generation: &str) -> (r:
    Result<(), Halt<Error>>)
    ensures
        (final(script).deep_view(), outcome(r)) == terminate_workspace_run(
            old(script).deep_view(),
            backend.deep_view(),
            id@,
            generation@,
        ),
{
    backend.terminate(script, id, generation)?;
    match state_root(script)? {
        None => Ok(()),
        Some(root) => backend.delete_retained_history(script, id, generation, root.as_str()),
    }
}

/// The backend of all managed workspaces.
pub open spec fn managed_backend() -> BackendView {
    BackendView { socket: SOCKET@, executable: "tmux"@, timeout: 5_000_000_000 }
}

proof fn lemma_socket()
    ensures
        socket_name(SOCKET@),
{
    reveal_strlit("eternalwarp-workspaces-v1");
}

/// The workspaces that an operation gives.
pub open spec fn workspaces_run(
    t: Transcript,
    operation: PersistentWorkspaceOperation,
    request: PersistentWorkspaceRequestView,
) -> (Transcript, Result<Seq<WorkspaceView>, WorkspaceHalt>) {
    let backend = managed_backend();
    let id = request.workspace_id;
    let generation = request.generation;
    match operation {
        PersistentWorkspaceOperation::Probe => {
            let (t, r) = probe_run(t, backend);
            (
                t,
                match r {
                    Err(halt) => Err(halt),
                    Ok(_) => Ok(Seq::empty()),
                },
            )
        },
        PersistentWorkspaceOperation::Create => {
            let (t, r) = create_workspace_run(t, backend, request);
            (
                t,
                match r {
                    Err(halt) => Err(halt),
                    Ok(workspace) => Ok(Seq::empty().push(workspace)),
                },
            )
        },
        PersistentWorkspaceOperation::List => list_run(t, backend),
        PersistentWorkspaceOperation::Terminate => {
            let (t, r) = terminate_workspace_run(t, backend, id, generation);
            (
                t,
                match r {
                    Err(halt) => Err(halt),
                    Ok(_) => Ok(Seq::empty()),
                },
            )
        },
        _ => {
            let (t, r) = resolve_run(t, backend, id, generation);
            (
                t,
                match r {
                    Err(halt) => Err(halt),
                    Ok(workspace) => Ok(Seq::empty().push(workspace)),
                },
            )
        },
    }
}

/// Carries out a request: the terminal output that it gives, and the workspaces.
pub open spec fn execute_run(t: Transcript, request: PersistentWorkspaceRequestView) -> (
    Transcript,
    Option<PersistentTerminalOutputView>,
    Result<Seq<WorkspaceView>, ResponseHalt>,
) {
    match checked_operation(request) {
        Err(error) => (t, None, Err(Halt::Failed(error))),
        Ok(operation) => {
            let (t, output) = if operation is Terminal {
                terminal_run(t, managed_backend(), request)
            } else {
                (t, Ok(None))
            };
            match output {
                Err(halt) => (t, None, Err(response_error(halt))),
                Ok(output) => {
                    let (t, r) = workspaces_run(t, operation, request);
                    (
                        t,
                        output,
                        match r {
                            Err(halt) => Err(response_error(halt)),
                            Ok(workspaces) => Ok(workspaces),
                        },
                    )
                },
            }
        },
    }
}

fn single(workspace: Workspace) -> (list: Vec<Workspace>)
    ensures
        list.deep_view() == Seq::empty().push(workspace.deep_view()),
{
    let mut list: Vec<Workspace> = Vec::new();
    list.push(workspace);
    assert(list.deep_view() =~= Seq::empty().push(workspace.deep_view()));
    list
}

fn no_workspaces() -> (list: Vec<Workspace>)
    ensures
        list.deep_view() == Seq::<WorkspaceView>::empty(),
{
    let list: Vec<Workspace> = Vec::new();
    assert(list.deep_view() =~= Seq::empty());
    list
}

fn workspaces(
    backend: &Backend,
    script: &mut Script,
    operation: PersistentWorkspaceOperation,
    request: &PersistentWorkspaceRequest,
) -> (r: Result<Vec<Workspace>, Halt<Error>>)
    requires
        backend.deep_view() == managed_backend(),
    ensures
        (final(script).deep_view(), outcome(r)) == workspaces_run(
            old(script).deep_view(),
            operation,
            request.deep_view(),
        ),
{
    let id = request.workspace_id.as_str();
    let generation = request.generation.as_str();
    match operation {
        PersistentWorkspaceOperation::Probe => {
            backend.probe(script)?;
            Ok(no_workspaces())
        },
        PersistentWorkspaceOperation::Create => {
            let workspace = create_workspace(backend, script, request)?;
            Ok(single(workspace))
        },
        PersistentWorkspaceOperation::List => backend.list(script),
        PersistentWorkspaceOperation::Terminate => {
            terminate_workspace(backend, script, id, generation)?;
            Ok(no_workspaces())
        },
        PersistentWorkspaceOperation::Resolve | PersistentWorkspaceOperation::Terminal => {
            let workspace = backend.resolve(script, id, generation)?;
            Ok(single(workspace))
        },
    }
}

fn execute(script: &mut Script, request: &PersistentWorkspaceRequest) -> (r: (
    Option<PersistentTerminalOutput>,
    Result<Vec<Workspace>, Halt<PersistentWorkspaceError>>,
))
    ensures
        (final(script).deep_view(), r.0.deep_view(), outcome(r.1)) == execute_run(
            old(script).deep_view(),
            request.deep_view(),
        ),
{
    let operation = match check_request(request) {
        Ok(operation) => operation,
        Err(error) => return (None, Err(Halt::Failed(error))),
    };
    proof {
        lemma_socket();
    }
    let backend = match Backend::new(SOCKET) {
        Ok(backend) => backend,
        Err(error) => return (None, Err(response_halt(Halt::Failed(error)))),
    };
    let output = if operation == PersistentWorkspaceOperation::Terminal {
        match terminal(&backend, script, request) {
            Ok(output) => output,
            Err(halt) => return (None, Err(response_halt(halt))),
        }
    } else {
        None
    };
    match workspaces(&backend, script, operation, request) {
        Ok(list) => (output, Ok(list)),
        Err(halt) => (output, Err(response_halt(halt))),
    }
}

// ---------------------------------------------------------------------------
// The response
// ---------------------------------------------------------------------------

/// What is not known is left out of a description, not reported as an error.
pub open spec fn known<T>(r: Result<T, IoHalt>) -> Result<Option<T>, IoHalt> {
    match r {
        Ok(value) => Ok(Some(value)),
        Err(Halt::Failed(_)) => Ok(None),
        Err(Halt::Waiting) => Err(Halt::Waiting),
    }
}

/// How much an incarnation's history occupies, if that is known.
pub open spec fn storage_run(t: Transcript, workspace: WorkspaceView) -> (
    Transcript,
    Result<Option<u64>, IoHalt>,
) {
    let (t, root) = state_root_run(t);
    match root {
        Err(Halt::Waiting) => (t, Err(Halt::Waiting)),
        Ok(Some(root)) => {
            let (t, r) = retained_storage_run(
                t,
                journal_directory(root, workspace.id, workspace.generation),
            );
            (t, known(r))
        },
        _ => (t, Ok(None)),
    }
}

/// The shell of an incarnation, if that is known.
pub open spec fn shell_run(t: Transcript, workspace: WorkspaceView) -> (
    Transcript,
    Result<Option<Seq<char>>, IoHalt>,
) {
    let (t, r) = stored_shell_run(t, workspace.id, workspace.generation);
    (
        t,
        match known(r) {
            Ok(Some(shell)) => Ok(shell),
            Ok(None) => Ok(None),
            Err(halt) => Err(halt),
        },
    )
}

/// The execution state of an incarnation's shell, if that is known.
pub open spec fn state_run(t: Transcript, workspace: WorkspaceView) -> (
    Transcript,
    Result<Option<Seq<char>>, IoHalt>,
) {
    let (t, root) = state_root_run(t);
    match root {
        Err(Halt::Waiting) => (t, Err(Halt::Waiting)),
        Ok(Some(root)) => {
            let (t, r) = activity_run(t, root, workspace.id, workspace.generation);
            (
                t,
                match known(r) {
                    Ok(Some(activity)) => Ok(activity),
                    Ok(None) => Ok(None),
                    Err(halt) => Err(halt),
                },
            )
        },
        _ => (t, Ok(None)),
    }
}

/// Describes a workspace.
pub open spec fn describe_run(t: Transcript, workspace: WorkspaceView) -> (
    Transcript,
    Option<PersistentWorkspaceView>,
) {
    let (t, storage) = storage_run(t, workspace);
    match storage {
        Err(_) => (t, None),
        Ok(history_storage_bytes) => {
            let (t, shell) = shell_run(t, workspace);
            match shell {
                Err(_) => (t, None),
                Ok(shell) => {
                    let (t, activity) = state_run(t, workspace);
                    match activity {
                        Err(_) => (t, None),
                        Ok(activity) => (
                            t,
                            Some(
                                PersistentWorkspaceView {
                                    workspace_id: workspace.id,
                                    generation: workspace.generation,
                                    session_id: workspace.session_id,
                                    window_id: workspace.window_id,
                                    pane_id: workspace.pane_id,
                                    shell_pid: workspace.shell_pid,
                                    exited: workspace.exited,
                                    exit_code: workspace.exit_code,
                                    shell,
                                    activity,
                                    history_storage_bytes,
                                },
                            ),
                        ),
                    }
                },
            }
        },
    }
}

fn storage(script: &mut Script, workspace: &Workspace) -> (r: Option<Option<u64>>)
    ensures
        ({
            let (t, model) = storage_run(old(script).deep_view(), workspace.deep_view());
            final(script).deep_view() == t && match (r, model) {
                (Some(bytes), Ok(m)) => bytes == m,
                (None, Err(_)) => true,
                _ => false,
            }
        }),
{
    let root = match state_root(script) {
        Ok(Some(root)) => root,
        Err(Halt::Waiting) => return None,
        _ => return Some(None),
    };
    let journal = journal_name(
        root.as_str(),
        workspace.id.as_str(),
        workspace.generation.as_str(),
    );
    match retained_storage_bytes(script, journal.as_str()) {
        Ok(bytes) => Some(Some(bytes)),
        Err(Halt::Waiting) => None,
        Err(Halt::Failed(_)) => Some(None),
    }
}

fn shell_of(script: &mut Script, workspace: &Workspace) -> (r: Option<Option<String>>)
    ensures
        ({
            let (t, model) = shell_run(old(script).deep_view(), workspace.deep_view());
            final(script).deep_view() == t && match (r, model) {
                (Some(shell), Ok(m)) => shell.deep_view() == m,
                (None, Err(_)) => true,
                _ => false,
            }
        }),
{
    match stored_shell(script, workspace.id.as_str(), workspace.generation.as_str()) {
        Ok(shell) => Some(shell),
        Err(Halt::Waiting) => None,
        Err(Halt::Failed(_)) => Some(None),
    }
}

fn state_of(script: &mut Script, workspace: &Workspace) -> (r: Option<Option<String>>)
    ensures
        ({
            let (t, model) = state_run(old(script).deep_view(), workspace.deep_view());
            final(script).deep_view() == t && match (r, model) {
                (Some(state), Ok(m)) => state.deep_view() == m,
                (None, Err(_)) => true,
                _ => false,
            }
        }),
{
    let root = match state_root(script) {
        Ok(Some(root)) => root,
        Err(Halt::Waiting) => return None,
        _ => return Some(None),
    };
    match activity(
        script,
        root.as_str(),
        workspace.id.as_str(),
        workspace.generation.as_str(),
    ) {
        Ok(Some(state)) => Some(Some(state.to_owned())),
        Ok(None) => Some(None),
        Err(Halt::Waiting) => None,
        Err(Halt::Failed(_)) => Some(None),
    }
}

fn to_proto(script: &mut Script, workspace: Workspace) -> (r: Option<PersistentWorkspace>)
    ensures
        (final(script).deep_view(), r.deep_view()) == describe_run(
            old(script).deep_view(),
            workspace.deep_view(),
        ),
{
    let history_storage_bytes = match storage(script, &workspace) {
        Some(bytes) => bytes,
        None => return None,
    };
    let shell = match shell_of(script, &workspace) {
        Some(shell) => shell,
        None => return None,
    };
    let state = match state_of(script, &workspace) {
        Some(state) => state,
        None => return None,
    };
    Some(
        PersistentWorkspace {
            workspace_id: workspace.id,
            generation: workspace.generation,
            session_id: workspace.session_id,
            window_id: workspace.window_id,
            pane_id: workspace.pane_id,
            shell_pid: workspace.shell_pid,
            exited: workspace.exited,
            exit_code: workspace.exit_code,
            shell,
            activity: state,
            history_storage_bytes,
        },
    )
}

/// Describes workspaces one after the other, behind those that were described.
pub open spec fn describe_all_run(
    t: Transcript,
    workspaces: Seq<WorkspaceView>,
    described: Seq<PersistentWorkspaceView>,
) -> (Transcript, Option<Seq<PersistentWorkspaceView>>)
    decreases workspaces.len(),
{
    if workspaces.len() == 0 {
        (t, Some(described))
    } else {
        let (t, one) = describe_run(t, workspaces[0]);
        match one {
            None => (t, None),
            Some(description) => describe_all_run(
                t,
                workspaces.drop_first(),
                described.push(description),
            ),
        }
    }
}

fn describe_all(script: &mut Script, workspaces: Vec<Workspace>) -> (r: Option<
    Vec<PersistentWorkspace>,
>)
    ensures
        (final(script).deep_view(), r.deep_view()) == describe_all_run(
            old(script).deep_view(),
            workspaces.deep_view(),
            Seq::empty(),
        ),
{
    let ghost start = script.deep_view();
    let ghost model = workspaces.deep_view();
    let ghost mut done: int = 0;
    let mut described: Vec<PersistentWorkspace> = Vec::new();
    assert(described.deep_view() =~= Seq::empty());
    assert(model.skip(0) =~= model);
    for workspace in it: workspaces
        invariant
            start == old(script).deep_view(),
            it.seq() == workspaces@,
            done == it.index(),
            model == workspaces.deep_view(),
            describe_all_run(start, model, Seq::empty()) == describe_all_run(
                script.deep_view(),
                model.skip(done),
                described.deep_view(),
            ),
    {
        assert(model.skip(done)[0] == workspace.deep_view());
        assert(model.skip(done).drop_first() =~= model.skip(done + 1));
        let ghost held = described.deep_view();
        match to_proto(script, workspace) {
            None => return None,
            Some(description) => {
                described.push(description);
                assert(described.deep_view() =~= held.push(description.deep_view()));
            },
        }
        proof {
            done = done + 1;
        }
    }
    assert(model.skip(done) =~= Seq::empty());
    Some(described)
}

/// A response with these contents.
pub open spec fn response(
    workspaces: Seq<PersistentWorkspaceView>,
    error: Option<PersistentWorkspaceErrorView>,
    terminal_output: Option<PersistentTerminalOutputView>,
) -> PersistentWorkspaceResponseView {
    PersistentWorkspaceResponseView {
        protocol_version: PROTOCOL_VERSION,
        management_supported: true,
        terminal_transport_supported: true,
        block_replay_supported: true,
        workspaces,
        error,
        terminal_output,
    }
}

/// Answers a request. There is no response while a reply of the host is missing.
pub open spec fn handle_run(t: Transcript, request: PersistentWorkspaceRequestView) -> (
    Transcript,
    Option<PersistentWorkspaceResponseView>,
) {
    let (t, output, r) = execute_run(t, request);
    match r {
        Err(Halt::Waiting) => (t, None),
        Err(Halt::Failed(error)) => (t, Some(response(Seq::empty(), Some(error), output))),
        Ok(workspaces) => {
            let (t, described) = describe_all_run(t, workspaces, Seq::empty());
            match described {
                None => (t, None),
                Some(described) => (t, Some(response(described, None, output))),
            }
        },
    }
}

/// Answers a request. There is no response while a reply of the host is missing.
pub fn handle(script: &mut Script, request: &PersistentWorkspaceRequest) -> (r: Option<
    PersistentWorkspaceResponse,
>)
    ensures
        (final(script).deep_view(), r.deep_view()) == handle_run(
            old(script).deep_view(),
            request.deep_view(),
        ),
{
    let (terminal_output, result) = execute(script, request);
    let (list, error) = match result {
        Err(Halt::Waiting) => return None,
        Err(Halt::Failed(error)) => {
            let none: Vec<PersistentWorkspace> = Vec::new();
            assert(none.deep_view() =~= Seq::empty());
            (none, Some(error))
        },
        Ok(found) => match describe_all(script, found) {
            None => return None,
            Some(described) => (described, None),
        },
    };
    Some(
        PersistentWorkspaceResponse {
            protocol_version: PROTOCOL_VERSION,
            management_supported: true,
            terminal_transport_supported: true,
            block_replay_supported: true,
            workspaces: list,
            error,
            terminal_output,
        },
    )
}

// ---------------------------------------------------------------------------
// Laws
// ---------------------------------------------------------------------------

/// A request that is refused by its form is answered without a single call: no
/// process is started and no file is touched.
pub proof fn refused_requests_have_no_effect(
    t: Transcript,
    request: PersistentWorkspaceRequestView,
)
    requires
        checked_operation(request) is Err,
    ensures
        handle_run(t, request) == (
            t,
            Some(response(Seq::empty(), Some(checked_operation(request)->Err_0), None)),
        ),
{
}

/// Every response speaks this protocol and advertises what is supported.
pub proof fn every_response_advertises_support(
    t: Transcript,
    request: PersistentWorkspaceRequestView,
)
    ensures
        handle_run(t, request).1 matches Some(r) ==> {
            &&& r.protocol_version == PROTOCOL_VERSION
            &&& r.management_supported && r.terminal_transport_supported
                && r.block_replay_supported
            &&& r.error is Some ==> r.workspaces.len() == 0
        },
{
}

} // verus!
