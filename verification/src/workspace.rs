//! Managed tmux workspaces, independent of SSH and of the daemon's lifetime.

use crate::host::Halt;
use crate::text;
use vstd::prelude::*;
use vstd::string::*;

pub mod command;
pub mod command_laws;
pub mod laws;
pub mod lifecycle_laws;
pub mod lookup_laws;
pub mod recording;
pub mod server_laws;
pub mod sessions;
pub mod startup;
pub mod startup_laws;
pub mod supervision_laws;

verus! {

pub const SOCKET: &'static str = "eternalwarp-workspaces-v1";

#[derive(Clone, Copy, PartialEq, Eq, Structural, Debug)]
pub enum ErrorKind {
    InvalidRequest,
    Unavailable,
    NotFound,
    Stale,
    Failed,
    Timeout,
}

impl ErrorKind {
    /// The code that names this kind in a response.
    pub open spec fn code_text(self) -> Seq<char> {
        match self {
            ErrorKind::InvalidRequest => "invalid_request"@,
            ErrorKind::Unavailable => "tmux_unavailable"@,
            ErrorKind::NotFound => "workspace_not_found"@,
            ErrorKind::Stale => "stale_workspace"@,
            ErrorKind::Failed => "tmux_failed"@,
            ErrorKind::Timeout => "tmux_timeout"@,
        }
    }

    /// The code that names this kind in a response.
    pub fn code(self) -> (code: &'static str)
        ensures
            code@ == self.code_text(),
    {
        match self {
            ErrorKind::InvalidRequest => "invalid_request",
            ErrorKind::Unavailable => "tmux_unavailable",
            ErrorKind::NotFound => "workspace_not_found",
            ErrorKind::Stale => "stale_workspace",
            ErrorKind::Failed => "tmux_failed",
            ErrorKind::Timeout => "tmux_timeout",
        }
    }
}

/// Why an operation on workspaces failed.
#[derive(Debug)]
pub struct Error {
    pub kind: ErrorKind,
    pub message: String,
}

#[verifier::ext_equal]
pub struct ErrorView {
    pub kind: ErrorKind,
    pub message: Seq<char>,
}

impl DeepView for Error {
    type V = ErrorView;

    open spec fn deep_view(&self) -> ErrorView {
        ErrorView { kind: self.kind, message: self.message@ }
    }
}

pub type WorkspaceHalt = Halt<ErrorView>;

/// A failure of this kind with this message.
pub open spec fn failed(kind: ErrorKind, message: Seq<char>) -> WorkspaceHalt {
    Halt::Failed(ErrorView { kind, message })
}

impl Error {
    pub fn new(kind: ErrorKind, message: &str) -> (error: Error)
        ensures
            error.deep_view() == (ErrorView { kind, message: message@ }),
    {
        Error { kind, message: message.to_owned() }
    }

    /// The error in one line: its code and its message.
    pub fn to_line(&self) -> (line: String)
        ensures
            line@ == self.kind.code_text() + ": "@ + self.message@,
    {
        let mut line = self.kind.code().to_owned();
        line.append(": ");
        line.append(self.message.as_str());
        line
    }
}

pub(crate) fn fail(kind: ErrorKind, message: &str) -> (halt: Halt<Error>)
    ensures
        halt.deep_view() == failed(kind, message@),
{
    Halt::Failed(Error::new(kind, message))
}

/// The tmux server that holds the managed workspaces.
#[derive(Debug)]
pub struct Backend {
    socket: String,
    executable: String,
    timeout: u64,
}

/// The model of a backend; the timeout is in nanoseconds.
#[verifier::ext_equal]
pub struct BackendView {
    pub socket: Seq<char>,
    pub executable: Seq<char>,
    pub timeout: u64,
}

impl DeepView for Backend {
    type V = BackendView;

    closed spec fn deep_view(&self) -> BackendView {
        BackendView {
            socket: self.socket@,
            executable: self.executable@,
            timeout: self.timeout,
        }
    }
}

/// A letter or a digit of ASCII.
pub open spec fn is_alphanumeric(c: char) -> bool {
    '0' <= c <= '9' || 'a' <= c <= 'z' || 'A' <= c <= 'Z'
}

/// A name that is safe as a file's name and as an argument.
pub open spec fn socket_name(name: Seq<char>) -> bool {
    &&& 0 < name.len() <= 80
    &&& forall|i: int| 0 <= i < name.len() ==> is_alphanumeric(#[trigger] name[i]) || name[i] == '-'
}

fn is_socket_name(name: &str) -> (r: bool)
    ensures
        r == socket_name(name@),
{
    let c = text::characters(name);
    if c.len() == 0 || c.len() > 80 {
        return false;
    }
    let mut i: usize = 0;
    while i < c.len()
        invariant
            c@ == name@,
            i <= c@.len(),
            forall|k: int| 0 <= k < i ==> is_alphanumeric(#[trigger] c@[k]) || c@[k] == '-',
        decreases c@.len() - i,
    {
        let x = c[i];
        if !(('0' <= x && x <= '9') || ('a' <= x && x <= 'z') || ('A' <= x && x <= 'Z') || x
            == '-') {
            assert(!(is_alphanumeric(name@[i as int]) || name@[i as int] == '-'));
            return false;
        }
        i += 1;
    }
    true
}

impl Backend {
    /// A backend on this socket, with five seconds for each command.
    pub fn new(socket: &str) -> (r: Result<Backend, Error>)
        ensures
            match r {
                Ok(backend) => {
                    &&& socket_name(socket@)
                    &&& backend.deep_view() == (BackendView {
                        socket: socket@,
                        executable: "tmux"@,
                        timeout: 5_000_000_000,
                    })
                },
                Err(error) => {
                    &&& !socket_name(socket@)
                    &&& error.deep_view() == (ErrorView {
                        kind: ErrorKind::InvalidRequest,
                        message: "Invalid managed socket name"@,
                    })
                },
            },
    {
        if !is_socket_name(socket) {
            return Err(Error::new(ErrorKind::InvalidRequest, "Invalid managed socket name"));
        }
        Ok(
            Backend {
                socket: socket.to_owned(),
                executable: "tmux".to_owned(),
                timeout: 5_000_000_000,
            },
        )
    }

    /// The same backend with another executable and another time for each command.
    pub fn with_client(self, executable: &str, timeout: u64) -> (backend: Backend)
        ensures
            backend.deep_view() == (BackendView {
                executable: executable@,
                timeout,
                ..self.deep_view()
            }),
    {
        Backend { socket: self.socket, executable: executable.to_owned(), timeout }
    }

    pub fn socket(&self) -> (socket: &str)
        ensures
            socket@ == self.deep_view().socket,
    {
        self.socket.as_str()
    }

    pub fn executable(&self) -> (executable: &str)
        ensures
            executable@ == self.deep_view().executable,
    {
        self.executable.as_str()
    }

    pub fn timeout(&self) -> (timeout: u64)
        ensures
            timeout == self.deep_view().timeout,
    {
        self.timeout
    }
}

} // verus!
