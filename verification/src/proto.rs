//! The messages between the client and the daemon on the remote host.

use vstd::prelude::*;

verus! {

/// A page of a workspace's output, with the state of its recorder.
#[derive(Debug)]
pub struct PersistentTerminalOutput {
    pub start_cursor: u64,
    pub next_cursor: u64,
    pub earliest_cursor: u64,
    pub high_watermark: u64,
    pub history_gap: bool,
    pub closed: bool,
    pub output: Vec<u8>,
    pub recorder_connected: bool,
}

#[verifier::ext_equal]
pub struct PersistentTerminalOutputView {
    pub start_cursor: u64,
    pub next_cursor: u64,
    pub earliest_cursor: u64,
    pub high_watermark: u64,
    pub history_gap: bool,
    pub closed: bool,
    pub output: Seq<u8>,
    pub recorder_connected: bool,
}

impl DeepView for PersistentTerminalOutput {
    type V = PersistentTerminalOutputView;

    open spec fn deep_view(&self) -> PersistentTerminalOutputView {
        PersistentTerminalOutputView {
            start_cursor: self.start_cursor,
            next_cursor: self.next_cursor,
            earliest_cursor: self.earliest_cursor,
            high_watermark: self.high_watermark,
            history_gap: self.history_gap,
            closed: self.closed,
            output: self.output@,
            recorder_connected: self.recorder_connected,
        }
    }
}

impl Default for PersistentTerminalOutput {
    fn default() -> (output: Self)
        ensures
            output.deep_view() == (PersistentTerminalOutputView {
                start_cursor: 0,
                next_cursor: 0,
                earliest_cursor: 0,
                high_watermark: 0,
                history_gap: false,
                closed: false,
                output: Seq::empty(),
                recorder_connected: false,
            }),
    {
        PersistentTerminalOutput {
            start_cursor: 0,
            next_cursor: 0,
            earliest_cursor: 0,
            high_watermark: 0,
            history_gap: false,
            closed: false,
            output: Vec::new(),
            recorder_connected: false,
        }
    }
}

/// What a client asks the daemon to do.
#[derive(Clone, Copy, PartialEq, Eq, Structural, Debug)]
pub enum PersistentWorkspaceOperation {
    Probe,
    Create,
    List,
    Resolve,
    Terminate,
    Terminal,
}

/// The operation with this number, if there is one.
pub open spec fn operation_numbered(n: i32) -> Option<PersistentWorkspaceOperation> {
    if n == 0 {
        Some(PersistentWorkspaceOperation::Probe)
    } else if n == 1 {
        Some(PersistentWorkspaceOperation::Create)
    } else if n == 2 {
        Some(PersistentWorkspaceOperation::List)
    } else if n == 3 {
        Some(PersistentWorkspaceOperation::Resolve)
    } else if n == 4 {
        Some(PersistentWorkspaceOperation::Terminate)
    } else if n == 5 {
        Some(PersistentWorkspaceOperation::Terminal)
    } else {
        None
    }
}

impl PersistentWorkspaceOperation {
    /// The number of this operation in a message.
    pub fn to_number(self) -> (n: i32)
        ensures
            operation_numbered(n) == Some(self),
    {
        match self {
            PersistentWorkspaceOperation::Probe => 0,
            PersistentWorkspaceOperation::Create => 1,
            PersistentWorkspaceOperation::List => 2,
            PersistentWorkspaceOperation::Resolve => 3,
            PersistentWorkspaceOperation::Terminate => 4,
            PersistentWorkspaceOperation::Terminal => 5,
        }
    }

    /// The operation with this number, if there is one.
    pub fn from_number(n: i32) -> (r: Option<PersistentWorkspaceOperation>)
        ensures
            r == operation_numbered(n),
    {
        match n {
            0 => Some(PersistentWorkspaceOperation::Probe),
            1 => Some(PersistentWorkspaceOperation::Create),
            2 => Some(PersistentWorkspaceOperation::List),
            3 => Some(PersistentWorkspaceOperation::Resolve),
            4 => Some(PersistentWorkspaceOperation::Terminate),
            5 => Some(PersistentWorkspaceOperation::Terminal),
            _ => None,
        }
    }
}

/// What is asked of a workspace's terminal.
#[derive(Clone, Copy, PartialEq, Eq, Structural, Debug)]
pub enum TerminalOperation {
    Attach,
    Read,
    Input,
    Resize,
}

/// The terminal operation with this number, if there is one.
pub open spec fn terminal_operation_numbered(n: i32) -> Option<TerminalOperation> {
    if n == 0 {
        Some(TerminalOperation::Attach)
    } else if n == 1 {
        Some(TerminalOperation::Read)
    } else if n == 2 {
        Some(TerminalOperation::Input)
    } else if n == 3 {
        Some(TerminalOperation::Resize)
    } else {
        None
    }
}

impl TerminalOperation {
    /// The number of this operation in a message.
    pub fn to_number(self) -> (n: i32)
        ensures
            terminal_operation_numbered(n) == Some(self),
    {
        match self {
            TerminalOperation::Attach => 0,
            TerminalOperation::Read => 1,
            TerminalOperation::Input => 2,
            TerminalOperation::Resize => 3,
        }
    }

    /// The operation with this number, if there is one.
    pub fn from_number(n: i32) -> (r: Option<TerminalOperation>)
        ensures
            r == terminal_operation_numbered(n),
    {
        match n {
            0 => Some(TerminalOperation::Attach),
            1 => Some(TerminalOperation::Read),
            2 => Some(TerminalOperation::Input),
            3 => Some(TerminalOperation::Resize),
            _ => None,
        }
    }
}

/// How long the history of a workspace is to be kept.
#[derive(Clone, Copy, PartialEq, Eq, Structural, Debug)]
pub enum HistoryRetention {
    UntilWorkspaceDeleted,
    Rolling,
}

/// The retention with this number, if there is one.
pub open spec fn retention_numbered(n: i32) -> Option<HistoryRetention> {
    if n == 0 {
        Some(HistoryRetention::UntilWorkspaceDeleted)
    } else if n == 1 {
        Some(HistoryRetention::Rolling)
    } else {
        None
    }
}

impl HistoryRetention {
    /// The number of this retention in a message.
    pub fn to_number(self) -> (n: i32)
        ensures
            retention_numbered(n) == Some(self),
    {
        match self {
            HistoryRetention::UntilWorkspaceDeleted => 0,
            HistoryRetention::Rolling => 1,
        }
    }

    /// The retention with this number, if there is one.
    pub fn from_number(n: i32) -> (r: Option<HistoryRetention>)
        ensures
            r == retention_numbered(n),
    {
        match n {
            0 => Some(HistoryRetention::UntilWorkspaceDeleted),
            1 => Some(HistoryRetention::Rolling),
            _ => None,
        }
    }
}

/// The scripts that initialize a shell.
#[derive(Debug)]
pub struct PersistentShellBootstrap {
    pub shell: String,
    pub init_script: Vec<u8>,
    pub bootstrap_script: Vec<u8>,
}

#[verifier::ext_equal]
pub struct PersistentShellBootstrapView {
    pub shell: Seq<char>,
    pub init_script: Seq<u8>,
    pub bootstrap_script: Seq<u8>,
}

impl DeepView for PersistentShellBootstrap {
    type V = PersistentShellBootstrapView;

    open spec fn deep_view(&self) -> PersistentShellBootstrapView {
        PersistentShellBootstrapView {
            shell: self.shell@,
            init_script: self.init_script@,
            bootstrap_script: self.bootstrap_script@,
        }
    }
}

impl Default for PersistentShellBootstrap {
    fn default() -> (bootstrap: Self)
        ensures
            bootstrap.deep_view() == (PersistentShellBootstrapView {
                shell: Seq::empty(),
                init_script: Seq::empty(),
                bootstrap_script: Seq::empty(),
            }),
    {
        PersistentShellBootstrap {
            shell: String::new(),
            init_script: Vec::new(),
            bootstrap_script: Vec::new(),
        }
    }
}

/// A request to a workspace's terminal.
#[derive(Debug)]
pub struct PersistentTerminalRequest {
    pub operation: i32,
    pub cursor: u64,
    pub input: Vec<u8>,
    pub columns: u32,
    pub rows: u32,
}

#[verifier::ext_equal]
pub struct PersistentTerminalRequestView {
    pub operation: i32,
    pub cursor: u64,
    pub input: Seq<u8>,
    pub columns: u32,
    pub rows: u32,
}

impl DeepView for PersistentTerminalRequest {
    type V = PersistentTerminalRequestView;

    open spec fn deep_view(&self) -> PersistentTerminalRequestView {
        PersistentTerminalRequestView {
            operation: self.operation,
            cursor: self.cursor,
            input: self.input@,
            columns: self.columns,
            rows: self.rows,
        }
    }
}

impl Default for PersistentTerminalRequest {
    fn default() -> (request: Self)
        ensures
            request.deep_view() == (PersistentTerminalRequestView {
                operation: 0,
                cursor: 0,
                input: Seq::empty(),
                columns: 0,
                rows: 0,
            }),
    {
        PersistentTerminalRequest {
            operation: 0,
            cursor: 0,
            input: Vec::new(),
            columns: 0,
            rows: 0,
        }
    }
}

/// A request to the daemon.
#[derive(Debug)]
pub struct PersistentWorkspaceRequest {
    pub protocol_version: u32,
    pub operation: i32,
    pub workspace_id: String,
    pub generation: String,
    pub working_directory: Option<String>,
    pub bootstrap: Option<PersistentShellBootstrap>,
    pub history_retention: Option<i32>,
    pub terminal: Option<PersistentTerminalRequest>,
}

#[verifier::ext_equal]
pub struct PersistentWorkspaceRequestView {
    pub protocol_version: u32,
    pub operation: i32,
    pub workspace_id: Seq<char>,
    pub generation: Seq<char>,
    pub working_directory: Option<Seq<char>>,
    pub bootstrap: Option<PersistentShellBootstrapView>,
    pub history_retention: Option<i32>,
    pub terminal: Option<PersistentTerminalRequestView>,
}

impl DeepView for PersistentWorkspaceRequest {
    type V = PersistentWorkspaceRequestView;

    open spec fn deep_view(&self) -> PersistentWorkspaceRequestView {
        PersistentWorkspaceRequestView {
            protocol_version: self.protocol_version,
            operation: self.operation,
            workspace_id: self.workspace_id@,
            generation: self.generation@,
            working_directory: self.working_directory.deep_view(),
            bootstrap: self.bootstrap.deep_view(),
            history_retention: self.history_retention,
            terminal: self.terminal.deep_view(),
        }
    }
}

impl Default for PersistentWorkspaceRequest {
    fn default() -> (request: Self)
        ensures
            request.deep_view() == (PersistentWorkspaceRequestView {
                protocol_version: 0,
                operation: 0,
                workspace_id: Seq::empty(),
                generation: Seq::empty(),
                working_directory: None,
                bootstrap: None,
                history_retention: None,
                terminal: None,
            }),
    {
        PersistentWorkspaceRequest {
            protocol_version: 0,
            operation: 0,
            workspace_id: String::new(),
            generation: String::new(),
            working_directory: None,
            bootstrap: None,
            history_retention: None,
            terminal: None,
        }
    }
}

/// A workspace as the daemon describes it.
#[derive(Debug)]
pub struct PersistentWorkspace {
    pub workspace_id: String,
    pub generation: String,
    pub session_id: String,
    pub window_id: String,
    pub pane_id: String,
    pub shell_pid: u32,
    pub exited: bool,
    pub exit_code: Option<i32>,
    pub shell: Option<String>,
    pub activity: Option<String>,
    pub history_storage_bytes: Option<u64>,
}

#[verifier::ext_equal]
pub struct PersistentWorkspaceView {
    pub workspace_id: Seq<char>,
    pub generation: Seq<char>,
    pub session_id: Seq<char>,
    pub window_id: Seq<char>,
    pub pane_id: Seq<char>,
    pub shell_pid: u32,
    pub exited: bool,
    pub exit_code: Option<i32>,
    pub shell: Option<Seq<char>>,
    pub activity: Option<Seq<char>>,
    pub history_storage_bytes: Option<u64>,
}

impl DeepView for PersistentWorkspace {
    type V = PersistentWorkspaceView;

    open spec fn deep_view(&self) -> PersistentWorkspaceView {
        PersistentWorkspaceView {
            workspace_id: self.workspace_id@,
            generation: self.generation@,
            session_id: self.session_id@,
            window_id: self.window_id@,
            pane_id: self.pane_id@,
            shell_pid: self.shell_pid,
            exited: self.exited,
            exit_code: self.exit_code,
            shell: self.shell.deep_view(),
            activity: self.activity.deep_view(),
            history_storage_bytes: self.history_storage_bytes,
        }
    }
}

/// Why the daemon did not do what was asked.
#[derive(Debug)]
pub struct PersistentWorkspaceError {
    pub code: String,
    pub message: String,
}

#[verifier::ext_equal]
pub struct PersistentWorkspaceErrorView {
    pub code: Seq<char>,
    pub message: Seq<char>,
}

impl DeepView for PersistentWorkspaceError {
    type V = PersistentWorkspaceErrorView;

    open spec fn deep_view(&self) -> PersistentWorkspaceErrorView {
        PersistentWorkspaceErrorView { code: self.code@, message: self.message@ }
    }
}

/// The daemon's response.
#[derive(Debug)]
pub struct PersistentWorkspaceResponse {
    pub protocol_version: u32,
    pub management_supported: bool,
    pub terminal_transport_supported: bool,
    pub block_replay_supported: bool,
    pub workspaces: Vec<PersistentWorkspace>,
    pub error: Option<PersistentWorkspaceError>,
    pub terminal_output: Option<PersistentTerminalOutput>,
}

#[verifier::ext_equal]
pub struct PersistentWorkspaceResponseView {
    pub protocol_version: u32,
    pub management_supported: bool,
    pub terminal_transport_supported: bool,
    pub block_replay_supported: bool,
    pub workspaces: Seq<PersistentWorkspaceView>,
    pub error: Option<PersistentWorkspaceErrorView>,
    pub terminal_output: Option<PersistentTerminalOutputView>,
}

impl DeepView for PersistentWorkspaceResponse {
    type V = PersistentWorkspaceResponseView;

    open spec fn deep_view(&self) -> PersistentWorkspaceResponseView {
        PersistentWorkspaceResponseView {
            protocol_version: self.protocol_version,
            management_supported: self.management_supported,
            terminal_transport_supported: self.terminal_transport_supported,
            block_replay_supported: self.block_replay_supported,
            workspaces: self.workspaces.deep_view(),
            error: self.error.deep_view(),
            terminal_output: self.terminal_output.deep_view(),
        }
    }
}

impl Default for PersistentWorkspace {
    fn default() -> (workspace: Self)
        ensures
            workspace.deep_view() == (PersistentWorkspaceView {
                workspace_id: Seq::empty(),
                generation: Seq::empty(),
                session_id: Seq::empty(),
                window_id: Seq::empty(),
                pane_id: Seq::empty(),
                shell_pid: 0,
                exited: false,
                exit_code: None,
                shell: None,
                activity: None,
                history_storage_bytes: None,
            }),
    {
        PersistentWorkspace {
            workspace_id: String::new(),
            generation: String::new(),
            session_id: String::new(),
            window_id: String::new(),
            pane_id: String::new(),
            shell_pid: 0,
            exited: false,
            exit_code: None,
            shell: None,
            activity: None,
            history_storage_bytes: None,
        }
    }
}

impl Default for PersistentWorkspaceResponse {
    fn default() -> (response: Self)
        ensures
            response.deep_view() == (PersistentWorkspaceResponseView {
                protocol_version: 0,
                management_supported: false,
                terminal_transport_supported: false,
                block_replay_supported: false,
                workspaces: Seq::empty(),
                error: None,
                terminal_output: None,
            }),
    {
        let response = PersistentWorkspaceResponse {
            protocol_version: 0,
            management_supported: false,
            terminal_transport_supported: false,
            block_replay_supported: false,
            workspaces: Vec::new(),
            error: None,
            terminal_output: None,
        };
        assert(response.workspaces.deep_view() =~= Seq::empty());
        response
    }
}

} // verus!
