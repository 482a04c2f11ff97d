//! A native terminal that is attached to one incarnation of a workspace.

use crate::bootstrap::{shell_name, ShellType};
use crate::local::{refuse, LocalError};
use crate::shell::{session_id, session_number};
use crate::transport::{detached, paused, TransportHandle};
use vstd::prelude::*;
use vstd::string::*;

verus! {

/// The session of an attached terminal and the name of its shell.
pub fn attached_session(generation: &str, shell_type: ShellType) -> (r: Result<
    (u64, &'static str),
    LocalError,
>)
    ensures
        match (session_number(generation@), shell_name(shell_type)) {
            (None, _) => r matches Err(error) && error.deep_view()
                == "Invalid workspace incarnation"@,
            (Some(_), None) => r matches Err(error) && error.deep_view()
                == "Persistent Unix workspaces do not support PowerShell"@,
            (Some(session), Some(name)) => r matches Ok((id, shell)) && id == session && shell@
                == name,
        },
{
    let id = match session_id(generation) {
        Some(id) => id,
        None => return Err(refuse("Invalid workspace incarnation")),
    };
    match shell_type.name() {
        Some(shell) => Ok((id, shell)),
        None => Err(refuse("Persistent Unix workspaces do not support PowerShell")),
    }
}

/// Why a terminal's view left its pane.
#[derive(Clone, Copy, PartialEq, Eq, Structural, Debug)]
pub enum DetachType {
    Closed,
    /// Closed, but the user may undo that.
    HiddenForClose,
    Moved,
}

/// What becomes of a transport when its terminal's view leaves its pane.
pub fn on_view_detached(handle: &mut TransportHandle, detach_type: DetachType)
    ensures
        final(handle).deep_view() == (match detach_type {
            DetachType::Closed => detached(old(handle).deep_view()),
            DetachType::HiddenForClose => paused(old(handle).deep_view()),
            DetachType::Moved => old(handle).deep_view(),
        }),
{
    match detach_type {
        DetachType::Closed => handle.detach(),
        DetachType::HiddenForClose => handle.pause(),
        DetachType::Moved => {},
    }
}

} // verus!
