//! The scripts that a new workspace's shell is initialized with.

use crate::local::{refuse, LocalError};
use crate::proto::{PersistentShellBootstrap, PersistentShellBootstrapView};
use vstd::prelude::*;
use vstd::string::*;

verus! {

#[derive(Clone, Copy, PartialEq, Eq, Structural, Debug)]
pub enum ShellType {
    Bash,
    Zsh,
    Fish,
    PowerShell,
}

/// The name of a shell that can be persistent.
pub open spec fn shell_name(shell_type: ShellType) -> Option<Seq<char>> {
    match shell_type {
        ShellType::Bash => Some("bash"@),
        ShellType::Zsh => Some("zsh"@),
        ShellType::Fish => Some("fish"@),
        ShellType::PowerShell => None,
    }
}

impl ShellType {
    /// The name of a shell that can be persistent.
    pub fn name(self) -> (name: Option<&'static str>)
        ensures
            name.deep_view() == shell_name(self),
    {
        match self {
            ShellType::Bash => Some("bash"),
            ShellType::Zsh => Some("zsh"),
            ShellType::Fish => Some("fish"),
            ShellType::PowerShell => None,
        }
    }

    /// The bundled script that initializes a shell that can be persistent.
    pub fn init_asset(self) -> (path: Option<&'static str>)
        ensures
            path.deep_view() == (match self {
                ShellType::Bash => Some("bundled/bootstrap/bash_init_shell.sh"@),
                ShellType::Zsh => Some("bundled/bootstrap/zsh_init_shell.sh"@),
                ShellType::Fish => Some("bundled/bootstrap/fish_init_shell.sh"@),
                ShellType::PowerShell => None,
            }),
    {
        match self {
            ShellType::Bash => Some("bundled/bootstrap/bash_init_shell.sh"),
            ShellType::Zsh => Some("bundled/bootstrap/zsh_init_shell.sh"),
            ShellType::Fish => Some("bundled/bootstrap/fish_init_shell.sh"),
            ShellType::PowerShell => None,
        }
    }
}

/// The scripts that are sent with the creation of a workspace: the bundled ones of
/// its shell. The remote side fills in the session and sources them once, after its
/// recorder is ready.
pub fn profile_for_shell(
    shell_type: ShellType,
    init_script: Vec<u8>,
    bootstrap_script: Vec<u8>,
) -> (r: Result<PersistentShellBootstrap, LocalError>)
    ensures
        match shell_name(shell_type) {
            Some(shell) => r matches Ok(profile) && profile.deep_view() == (
            PersistentShellBootstrapView {
                shell,
                init_script: init_script@,
                bootstrap_script: bootstrap_script@,
            }),
            None => r matches Err(error) && error.deep_view()
                == "Persistent Unix workspaces do not support PowerShell"@,
        },
{
    match shell_type.name() {
        Some(shell) => Ok(
            PersistentShellBootstrap { shell: shell.to_owned(), init_script, bootstrap_script },
        ),
        None => Err(refuse("Persistent Unix workspaces do not support PowerShell")),
    }
}

} // verus!
