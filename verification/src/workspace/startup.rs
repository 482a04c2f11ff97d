//! Workspaces whose shell is initialized once and recorded from its first byte:
//! the shell waits until its recorder has been started, independently of SSH.

use crate::bytes;
use crate::host::{
    ask_bytes, ask_done, ask_entry, ask_flag, ask_number, outcome, Call, CallView, Halt, IoError,
    IoHalt, PathAction, Script, Transcript,
};
use crate::journal::{is_not_found, not_found, RetentionPolicy};
use crate::number;
use crate::paths::{absolute, is_absolute, join, path_in, quote, quoted};
use crate::shell::{
    find_shell, find_shell_run, is_supported, session_id, session_number, startup_directory,
    startup_path, supported_shell, SHELL_ARGUMENT,
};
use crate::text;
use crate::workspace::command::deadline_after;
use crate::workspace::recording::{is_private_directory, start_recording_run};
use crate::workspace::sessions::{
    create_run, has_kind, is_kind, is_token, lookup_run, random_token, random_token_run, token,
    token_failure, token_halt, Workspace, WorkspaceView,
};
use crate::workspace::{fail, failed, Backend, BackendView, Error, ErrorKind, WorkspaceHalt};
use vstd::prelude::*;
use vstd::string::*;
use vstd::utf8::{decode_utf8, encode_utf8, valid_utf8};

verus! {

/// How a workspace's shell is initialized: its name, an init script that keeps the
/// placeholder of the session, and the script that does the rest.
#[derive(Debug)]
pub struct BootstrapProfile {
    pub shell: String,
    pub init_script: Vec<u8>,
    pub bootstrap_script: Vec<u8>,
}

#[verifier::ext_equal]
pub struct BootstrapProfileView {
    pub shell: Seq<char>,
    pub init_script: Seq<u8>,
    pub bootstrap_script: Seq<u8>,
}

impl DeepView for BootstrapProfile {
    type V = BootstrapProfileView;

    open spec fn deep_view(&self) -> BootstrapProfileView {
        BootstrapProfileView {
            shell: self.shell@,
            init_script: self.init_script@,
            bootstrap_script: self.bootstrap_script@,
        }
    }
}

/// A failure of the system while a shell is started.
pub open spec fn startup_failure(halt: IoHalt) -> WorkspaceHalt {
    match halt {
        Halt::Waiting => Halt::Waiting,
        Halt::Failed(error) => failed(
            ErrorKind::Failed,
            "Persistent shell startup: "@ + error.message,
        ),
    }
}

fn startup_halt(halt: Halt<IoError>) -> (r: Halt<Error>)
    ensures
        r.deep_view() == startup_failure(halt.deep_view()),
{
    match halt {
        Halt::Waiting => Halt::Waiting,
        Halt::Failed(error) => fail(
            ErrorKind::Failed,
            text::joined("Persistent shell startup: ", error.message.as_str()).as_str(),
        ),
    }
}

/// Something is done at a path while a shell is started.
pub open spec fn step_run(
    t: Transcript,
    call: CallView,
) -> (Transcript, Result<(), WorkspaceHalt>) {
    let (t, r) = ask_done(t, call);
    (
        t,
        match r {
            Ok(_) => Ok(()),
            Err(halt) => Err(startup_failure(halt)),
        },
    )
}

fn step(script: &mut Script, call: Call) -> (r: Result<(), Halt<Error>>)
    ensures
        (final(script).deep_view(), outcome(r)) == step_run(
            old(script).deep_view(),
            call.deep_view(),
        ),
{
    match script.done(call) {
        Ok(()) => Ok(()),
        Err(halt) => Err(startup_halt(halt)),
    }
}

// ---------------------------------------------------------------------------
// The request
// ---------------------------------------------------------------------------

/// What is wrong with a request for an initialized workspace, if anything.
pub open spec fn request_error(
    profile: BootstrapProfileView,
    executable: Seq<char>,
    root: Seq<char>,
) -> Option<Seq<char>> {
    if !is_supported(profile.shell) || profile.init_script.len() == 0 || profile.init_script.len()
        > 64 * 1024 || profile.bootstrap_script.len() == 0 || profile.bootstrap_script.len() > 1024
        * 1024 || !is_absolute(root) || !is_absolute(executable) {
        Some("Invalid persistent shell profile"@)
    } else if !valid_utf8(profile.init_script) {
        Some("Shell init must be UTF-8"@)
    } else if !text::has_text(decode_utf8(profile.init_script), "@@WARP_SESSION_ID@@"@) {
        Some("Shell init is missing its session token placeholder"@)
    } else {
        None
    }
}

/// The init script of a request that is sound, or what is wrong with it.
fn check_request(profile: &BootstrapProfile, executable: &str, root: &str) -> (r: Result<
    String,
    Halt<Error>,
>)
    ensures
        match request_error(profile.deep_view(), executable@, root@) {
            None => r matches Ok(init) && init@ == decode_utf8(profile.init_script@),
            Some(message) => r matches Err(halt) && halt.deep_view() == failed(
                ErrorKind::InvalidRequest,
                message,
            ),
        },
{
    if !supported_shell(profile.shell.as_str()) || profile.init_script.len() == 0
        || profile.init_script.len() > 64 * 1024 || profile.bootstrap_script.len() == 0
        || profile.bootstrap_script.len() > 1024 * 1024 || !absolute(root) || !absolute(
        executable,
    ) {
        return Err(fail(ErrorKind::InvalidRequest, "Invalid persistent shell profile"));
    }
    match bytes::to_text(profile.init_script.as_slice()) {
        Err(_) => Err(fail(ErrorKind::InvalidRequest, "Shell init must be UTF-8")),
        Ok(init) => {
            if !text::contains(init.as_str(), "@@WARP_SESSION_ID@@") {
                return Err(
                    fail(
                        ErrorKind::InvalidRequest,
                        "Shell init is missing its session token placeholder",
                    ),
                );
            }
            Ok(init)
        },
    }
}

/// Makes sure that the root of the startup files is there and private.
pub open spec fn state_root_run(t: Transcript, root: Seq<char>) -> (
    Transcript,
    Result<(), WorkspaceHalt>,
) {
    let (t, made) = step_run(t, CallView::Path(PathAction::MakeDirectories, root));
    match made {
        Err(halt) => (t, Err(halt)),
        Ok(_) => {
            let (t, described) = ask_entry(t, CallView::Path(PathAction::Describe, root));
            (
                t,
                match described {
                    Err(halt) => Err(startup_failure(halt)),
                    Ok(entry) => if is_private_directory(entry) {
                        Ok(())
                    } else {
                        Err(
                            failed(
                                ErrorKind::Failed,
                                "Shell state root must be private (0700)"@,
                            ),
                        )
                    },
                },
            )
        },
    }
}

fn prepare_state_root(script: &mut Script, root: &str) -> (r: Result<(), Halt<Error>>)
    ensures
        (final(script).deep_view(), outcome(r)) == state_root_run(
            old(script).deep_view(),
            root@,
        ),
{
    step(script, Call::Path(PathAction::MakeDirectories, root.to_owned()))?;
    match script.entry(Call::Path(PathAction::Describe, root.to_owned())) {
        Err(halt) => Err(startup_halt(halt)),
        Ok(entry) => {
            if !entry.directory || !entry.private {
                return Err(
                    fail(ErrorKind::Failed, "Shell state root must be private (0700)"),
                );
            }
            Ok(())
        },
    }
}

// ---------------------------------------------------------------------------
// The lock
// ---------------------------------------------------------------------------

/// Tries to take a lock until the deadline.
pub open spec fn await_lock_run(t: Transcript, path: Seq<char>, deadline: u64) -> (
    Transcript,
    Result<(), WorkspaceHalt>,
)
    decreases t.replies.len() - t.calls.len(),
{
    let (t1, locked) = ask_flag(t, CallView::Path(PathAction::TryLock, path));
    match locked {
        Err(halt) => (t1, Err(startup_failure(halt))),
        Ok(true) => (t1, Ok(())),
        Ok(false) => {
            let (t2, clock) = ask_number(t1, CallView::Clock);
            match clock {
                Err(halt) => (t2, Err(startup_failure(halt))),
                Ok(now) => if now >= deadline {
                    (
                        t2,
                        Err(
                            failed(
                                ErrorKind::Timeout,
                                "Workspace initialization is still in progress"@,
                            ),
                        ),
                    )
                } else {
                    let (t3, slept) = step_run(t2, CallView::Sleep(10));
                    match slept {
                        Err(halt) => (t3, Err(halt)),
                        Ok(_) => await_lock_run(t3, path, deadline),
                    }
                },
            }
        },
    }
}

/// Takes the lock of a workspace's identity. The system releases it even where the
/// daemon crashes.
pub open spec fn lock_run(t: Transcript, path: Seq<char>, timeout: u64) -> (
    Transcript,
    Result<(), WorkspaceHalt>,
) {
    let (t, opened) = step_run(t, CallView::Path(PathAction::OpenLock, path));
    match opened {
        Err(halt) => (t, Err(halt)),
        Ok(_) => {
            let (t, clock) = ask_number(t, CallView::Clock);
            match clock {
                Err(halt) => (t, Err(startup_failure(halt))),
                Ok(now) => await_lock_run(t, path, deadline_after(now, timeout)),
            }
        },
    }
}

fn lock(script: &mut Script, path: &str, timeout: u64) -> (r: Result<(), Halt<Error>>)
    ensures
        (final(script).deep_view(), outcome(r)) == lock_run(
            old(script).deep_view(),
            path@,
            timeout,
        ),
{
    step(script, Call::Path(PathAction::OpenLock, path.to_owned()))?;
    let now = match script.number(Call::Clock) {
        Ok(now) => now,
        Err(halt) => return Err(startup_halt(halt)),
    };
    await_lock(script, path, now.saturating_add(timeout))
}

fn await_lock(script: &mut Script, path: &str, deadline: u64) -> (r: Result<(), Halt<Error>>)
    ensures
        (final(script).deep_view(), outcome(r)) == await_lock_run(
            old(script).deep_view(),
            path@,
            deadline,
        ),
{
    loop
        invariant
            await_lock_run(old(script).deep_view(), path@, deadline) == await_lock_run(
                script.deep_view(),
                path@,
                deadline,
            ),
        decreases script.deep_view().replies.len() - script.deep_view().calls.len(),
    {
        match script.path_flag(PathAction::TryLock, path) {
            Err(halt) => return Err(startup_halt(halt)),
            Ok(true) => return Ok(()),
            Ok(false) => {},
        }
        let now = match script.number(Call::Clock) {
            Ok(now) => now,
            Err(halt) => return Err(startup_halt(halt)),
        };
        if now >= deadline {
            return Err(
                fail(ErrorKind::Timeout, "Workspace initialization is still in progress"),
            );
        }
        step(script, Call::Sleep(10))?;
    }
}

// ---------------------------------------------------------------------------
// The startup files
// ---------------------------------------------------------------------------

/// What the startup script sets before anything else: where the shell's hooks write
/// its execution state, and its session.
pub open spec fn script_prefix(shell: Seq<char>, startup: Seq<char>, session: u64) -> Seq<char> {
    let path = quoted(path_in(startup, "activity"@));
    let number = number::decimal_text(session as nat);
    if shell == "fish"@ {
        "set -gx WARP_PERSISTENT_ACTIVITY_PATH "@ + path
            + "\nset -gx WARP_PERSISTENT_ROOT_SESSION "@ + number + "\n"@
    } else {
        "export WARP_PERSISTENT_ACTIVITY_PATH="@ + path
            + "\nexport WARP_PERSISTENT_ROOT_SESSION="@ + number + "\n"@
    }
}

fn script_prefix_of(shell: &str, startup: &str, session: u64) -> (out: String)
    ensures
        out@ == script_prefix(shell@, startup@, session),
{
    let path = quote(join(startup, "activity").as_str());
    let session_text = number::decimal(session);
    if text::same(shell, "fish") {
        let mut out = "set -gx WARP_PERSISTENT_ACTIVITY_PATH ".to_owned();
        out.append(path.as_str());
        out.append("\nset -gx WARP_PERSISTENT_ROOT_SESSION ");
        out.append(session_text.as_str());
        out.append("\n");
        out
    } else {
        let mut out = "export WARP_PERSISTENT_ACTIVITY_PATH=".to_owned();
        out.append(path.as_str());
        out.append("\nexport WARP_PERSISTENT_ROOT_SESSION=");
        out.append(session_text.as_str());
        out.append("\n");
        out
    }
}

/// The init script of a session.
pub open spec fn session_init(init: Seq<char>, session: u64) -> Seq<char> {
    text::replaced(
        text::replaced(init, "@@WARP_SESSION_ID@@"@, number::decimal_text(session as nat)),
        "@@USING_CON_PTY_BOOLEAN@@"@,
        "false"@,
    )
}

/// The whole startup script.
pub open spec fn startup_script(
    profile: BootstrapProfileView,
    init: Seq<char>,
    startup: Seq<char>,
    session: u64,
) -> Seq<u8> {
    (encode_utf8(script_prefix(profile.shell, startup, session)) + encode_utf8(
        session_init(init, session),
    )).push(10) + profile.bootstrap_script + Seq::empty().push(10u8)
}

fn startup_script_of(profile: &BootstrapProfile, init: &str, startup: &str, session: u64) -> (out:
    Vec<u8>)
    ensures
        out@ == startup_script(profile.deep_view(), init@, startup@, session),
{
    proof {
        reveal_strlit("@@WARP_SESSION_ID@@");
        reveal_strlit("@@USING_CON_PTY_BOOLEAN@@");
    }
    let prefix = script_prefix_of(profile.shell.as_str(), startup, session);
    let numbered = text::replace(
        init,
        "@@WARP_SESSION_ID@@",
        number::decimal(session).as_str(),
    );
    let ready = text::replace(numbered.as_str(), "@@USING_CON_PTY_BOOLEAN@@", "false");
    let mut out = bytes::of_text(prefix.as_str());
    let body = bytes::of_text(ready.as_str());
    bytes::append(&mut out, body.as_slice(), 0, body.len());
    out.push(10);
    bytes::append(&mut out, profile.bootstrap_script.as_slice(), 0, profile.bootstrap_script.len());
    out.push(10);
    assert(body@.subrange(0, body@.len() as int) =~= body@);
    assert(profile.bootstrap_script@.subrange(0, profile.bootstrap_script@.len() as int)
        =~= profile.bootstrap_script@);
    assert(out@ =~= startup_script(profile.deep_view(), init@, startup@, session));
    out
}

/// What zsh does before the startup script: it gets its own startup directory back.
pub open spec fn zsh_prefix() -> Seq<char> {
    "if [[ -n $WARP_PERSISTENT_HAD_ZDOTDIR ]]; then ZDOTDIR=$WARP_PERSISTENT_ORIGINAL_ZDOTDIR; else unset ZDOTDIR; fi\nunset WARP_PERSISTENT_HAD_ZDOTDIR WARP_PERSISTENT_ORIGINAL_ZDOTDIR\n"@
}

pub open spec fn retention_text(retention: RetentionPolicy) -> Seq<char> {
    match retention {
        RetentionPolicy::UntilWorkspaceDeleted => "archive\n"@,
        RetentionPolicy::Rolling => "rolling\n"@,
    }
}

/// The files that a new incarnation's shell starts from, in the order in which
/// they are written.
pub open spec fn startup_files(
    profile: BootstrapProfileView,
    init: Seq<char>,
    startup: Seq<char>,
    session: u64,
    retention: RetentionPolicy,
) -> Seq<(Seq<char>, Seq<u8>)> {
    let script = startup_script(profile, init, startup, session);
    let files = Seq::<(Seq<char>, Seq<u8>)>::empty().push(("startup"@, script)).push(
        ("shell"@, encode_utf8(profile.shell)),
    ).push(("activity"@, encode_utf8("starting\n"@))).push(
        ("retention"@, encode_utf8(retention_text(retention))),
    );
    if profile.shell == "zsh"@ {
        files.push((".zshrc"@, encode_utf8(zsh_prefix()) + script))
    } else {
        files
    }
}

/// Writes files into a directory.
pub open spec fn write_run(
    t: Transcript,
    directory: Seq<char>,
    files: Seq<(Seq<char>, Seq<u8>)>,
) -> (
    Transcript,
    Result<(), WorkspaceHalt>,
)
    decreases files.len(),
{
    if files.len() == 0 {
        (t, Ok(()))
    } else {
        let (t, written) = step_run(
            t,
            CallView::WriteNew(path_in(directory, files[0].0), files[0].1),
        );
        match written {
            Err(halt) => (t, Err(halt)),
            Ok(_) => write_run(t, directory, files.drop_first()),
        }
    }
}

fn write_files(script: &mut Script, directory: &str, files: Vec<(String, Vec<u8>)>) -> (r: Result<
    (),
    Halt<Error>,
>)
    ensures
        (final(script).deep_view(), outcome(r)) == write_run(
            old(script).deep_view(),
            directory@,
            files.deep_view(),
        ),
{
    let ghost start = script.deep_view();
    let ghost model = files.deep_view();
    let ghost mut done: int = 0;
    assert(model.skip(0) =~= model);
    for file in it: files
        invariant
            start == old(script).deep_view(),
            it.seq() == files@,
            done == it.index(),
            model == files.deep_view(),
            write_run(start, directory@, model) == write_run(
                script.deep_view(),
                directory@,
                model.skip(done),
            ),
    {
        assert(model.skip(done)[0] == file.deep_view());
        assert(model.skip(done).drop_first() =~= model.skip(done + 1));
        let (name, contents) = file;
        proof {
            bytes::bytes_deep_view(contents);
        }
        step(script, Call::WriteNew(join(directory, name.as_str()), contents))?;
        proof {
            done = done + 1;
        }
    }
    assert(model.skip(done) =~= Seq::empty());
    Ok(())
}

// ---------------------------------------------------------------------------
// Releasing the shell
// ---------------------------------------------------------------------------

/// The policy that was stored for an incarnation.
pub open spec fn stored_policy(contents: Seq<u8>) -> Option<RetentionPolicy> {
    if contents == encode_utf8("rolling\n"@) {
        Some(RetentionPolicy::Rolling)
    } else if contents == encode_utf8("archive\n"@) {
        Some(RetentionPolicy::UntilWorkspaceDeleted)
    } else {
        None
    }
}

pub open spec fn policy_run(t: Transcript, startup: Seq<char>) -> (
    Transcript,
    Result<RetentionPolicy, WorkspaceHalt>,
) {
    let (t, r) = ask_bytes(t, CallView::Path(PathAction::Read, path_in(startup, "retention"@)));
    (
        t,
        match r {
            Ok(contents) => match stored_policy(contents) {
                Some(policy) => Ok(policy),
                None => Err(failed(ErrorKind::Failed, "Invalid saved history retention policy"@)),
            },
            Err(halt) => if not_found(halt) {
                Ok(RetentionPolicy::UntilWorkspaceDeleted)
            } else {
                Err(startup_failure(halt))
            },
        },
    )
}

fn read_policy(script: &mut Script, startup: &str) -> (r: Result<RetentionPolicy, Halt<Error>>)
    ensures
        (final(script).deep_view(), outcome(r)) == policy_run(
            old(script).deep_view(),
            startup@,
        ),
{
    broadcast use bytes::bytes_deep_view;

    match script.bytes(Call::Path(PathAction::Read, join(startup, "retention"))) {
        Ok(contents) => {
            if bytes::same(contents.as_slice(), "rolling\n".as_bytes()) {
                Ok(RetentionPolicy::Rolling)
            } else if bytes::same(contents.as_slice(), "archive\n".as_bytes()) {
                Ok(RetentionPolicy::UntilWorkspaceDeleted)
            } else {
                Err(fail(ErrorKind::Failed, "Invalid saved history retention policy"))
            }
        },
        Err(halt) => {
            if is_not_found(&halt) {
                Ok(RetentionPolicy::default())
            } else {
                Err(startup_halt(halt))
            }
        },
    }
}

/// Starts the recorder of an incarnation and then releases its shell. Where the
/// shell was released before, nothing is done: initialization never runs again.
pub open spec fn finish_run(
    t: Transcript,
    backend: BackendView,
    workspace: WorkspaceView,
    executable: Seq<char>,
    root: Seq<char>,
    startup: Seq<char>,
) -> (Transcript, Result<(), WorkspaceHalt>) {
    let ready = path_in(startup, "ready"@);
    let (t, released) = ask_flag(t, CallView::Path(PathAction::IsFile, ready));
    match released {
        Err(halt) => (t, Err(startup_failure(halt))),
        Ok(true) => (t, Ok(())),
        Ok(false) => {
            let (t, policy) = policy_run(t, startup);
            match policy {
                Err(halt) => (t, Err(halt)),
                Ok(retention) => {
                    let (t, recording) = start_recording_run(
                        t,
                        backend,
                        workspace.id,
                        workspace.generation,
                        executable,
                        root,
                        retention,
                    );
                    match recording {
                        Err(halt) => (t, Err(halt)),
                        Ok(_) => {
                            let (t, released) = step_run(
                                t,
                                CallView::WriteNew(ready, encode_utf8("ready\n"@)),
                            );
                            match released {
                                Err(halt) => (t, Err(halt)),
                                Ok(_) => step_run(
                                    t,
                                    CallView::Path(PathAction::SyncDirectory, startup),
                                ),
                            }
                        },
                    }
                },
            }
        },
    }
}

/// The command line of the launcher that waits for its release.
pub open spec fn launcher_line(
    executable: Seq<char>,
    startup: Seq<char>,
    name: Seq<char>,
    shell: Seq<char>,
) -> Seq<char> {
    "exec "@ + quoted(executable) + " "@ + SHELL_ARGUMENT@ + " "@ + quoted(startup) + " "@ + quoted(
        name,
    ) + " "@ + quoted(shell)
}

fn launcher_command_line(executable: &str, startup: &str, name: &str, shell: &str) -> (out: String)
    ensures
        out@ == launcher_line(executable@, startup@, name@, shell@),
{
    let mut out = "exec ".to_owned();
    out.append(quote(executable).as_str());
    out.append(" ");
    out.append(SHELL_ARGUMENT);
    out.append(" ");
    out.append(quote(startup).as_str());
    out.append(" ");
    out.append(quote(name).as_str());
    out.append(" ");
    out.append(quote(shell).as_str());
    out
}

/// Everything that a new incarnation is made of.
pub struct CreationView {
    pub id: Seq<char>,
    pub directory: Option<Seq<char>>,
    pub profile: BootstrapProfileView,
    pub executable: Seq<char>,
    pub root: Seq<char>,
    pub retention: RetentionPolicy,
}

/// Creates the session of a new incarnation whose startup files are there.
pub open spec fn launch_run(
    t: Transcript,
    backend: BackendView,
    c: CreationView,
    generation: Seq<char>,
) -> (Transcript, Result<WorkspaceView, WorkspaceHalt>) {
    let startup = startup_directory(c.root, c.id, generation);
    let (t, found) = find_shell_run(t, c.profile.shell);
    match found {
        Err(halt) => (t, Err(startup_failure(halt))),
        Ok(shell) => {
            let (t, created) = create_run(
                t,
                backend,
                c.id,
                c.directory,
                Some(generation),
                Some(launcher_line(c.executable, startup, c.profile.shell, shell)),
            );
            match created {
                Err(halt) => (t, Err(halt)),
                Ok(workspace) => {
                    let (t, finished) = finish_run(
                        t,
                        backend,
                        workspace,
                        c.executable,
                        c.root,
                        startup,
                    );
                    match finished {
                        Err(halt) => (t, Err(halt)),
                        Ok(_) => (t, Ok(workspace)),
                    }
                },
            }
        },
    }
}

/// Creates a new incarnation: its generation, its startup files and its session.
pub open spec fn new_incarnation_run(t: Transcript, backend: BackendView, c: CreationView) -> (
    Transcript,
    Result<WorkspaceView, WorkspaceHalt>,
) {
    let (t, chosen) = random_token_run(t);
    match chosen {
        Err(halt) => (t, Err(halt)),
        Ok(generation) => {
            let startup = startup_directory(c.root, c.id, generation);
            let (t, made) = step_run(t, CallView::Path(PathAction::MakeDirectory, startup));
            match made {
                Err(halt) => (t, Err(halt)),
                Ok(_) => {
                    let (t, written) = write_run(
                        t,
                        startup,
                        startup_files(
                            c.profile,
                            decode_utf8(c.profile.init_script),
                            startup,
                            session_number(generation)->Some_0,
                            c.retention,
                        ),
                    );
                    match written {
                        Err(halt) => (t, Err(halt)),
                        Ok(_) => launch_run(t, backend, c, generation),
                    }
                },
            }
        },
    }
}

/// Goes on with an incarnation that is there, if it was made by this library.
pub open spec fn old_incarnation_run(
    t: Transcript,
    backend: BackendView,
    c: CreationView,
    workspace: WorkspaceView,
) -> (Transcript, Result<WorkspaceView, WorkspaceHalt>) {
    let startup = startup_directory(c.root, c.id, workspace.generation);
    let (t, durable) = ask_flag(
        t,
        CallView::Path(PathAction::IsFile, path_in(startup, "startup"@)),
    );
    match durable {
        Err(halt) => (t, Err(startup_failure(halt))),
        Ok(false) => (
            t,
            Err(
                failed(
                    ErrorKind::Failed,
                    "Existing workspace was not created with durable shell integration"@,
                ),
            ),
        ),
        Ok(true) => {
            let (t, finished) = finish_run(t, backend, workspace, c.executable, c.root, startup);
            match finished {
                Err(halt) => (t, Err(halt)),
                Ok(_) => (t, Ok(workspace)),
            }
        },
    }
}

/// Creates a workspace with an initialized and recorded shell, or goes on with the
/// one that is there.
pub open spec fn create_initialized_run(t: Transcript, backend: BackendView, c: CreationView) -> (
    Transcript,
    Result<WorkspaceView, WorkspaceHalt>,
) {
    if !is_token(c.id) {
        (t, Err(token_failure()))
    } else {
        match request_error(c.profile, c.executable, c.root) {
            Some(message) => (t, Err(failed(ErrorKind::InvalidRequest, message))),
            None => {
                let (t, prepared) = state_root_run(t, c.root);
                match prepared {
                    Err(halt) => (t, Err(halt)),
                    Ok(_) => {
                        let (t, locked) = lock_run(
                            t,
                            path_in(c.root, c.id + ".lock"@),
                            backend.timeout,
                        );
                        match locked {
                            Err(halt) => (t, Err(halt)),
                            Ok(_) => {
                                let (t, found) = lookup_run(t, backend, c.id, true);
                                match found {
                                    Ok(workspace) => old_incarnation_run(
                                        t,
                                        backend,
                                        c,
                                        workspace,
                                    ),
                                    Err(halt) => if is_kind(halt, ErrorKind::NotFound) {
                                        new_incarnation_run(t, backend, c)
                                    } else {
                                        (t, Err(halt))
                                    },
                                }
                            },
                        }
                    },
                }
            },
        }
    }
}

fn startup_files_of(
    profile: &BootstrapProfile,
    init: &str,
    startup: &str,
    session: u64,
    retention: RetentionPolicy,
) -> (files: Vec<(String, Vec<u8>)>)
    ensures
        files.deep_view() == startup_files(
            profile.deep_view(),
            init@,
            startup@,
            session,
            retention,
        ),
{
    let script = startup_script_of(profile, init, startup, session);
    let zsh = if text::same(profile.shell.as_str(), "zsh") {
        let mut contents = bytes::of_text(
            "if [[ -n $WARP_PERSISTENT_HAD_ZDOTDIR ]]; then ZDOTDIR=$WARP_PERSISTENT_ORIGINAL_ZDOTDIR; else unset ZDOTDIR; fi\nunset WARP_PERSISTENT_HAD_ZDOTDIR WARP_PERSISTENT_ORIGINAL_ZDOTDIR\n",
        );
        bytes::append(&mut contents, script.as_slice(), 0, script.len());
        assert(script@.subrange(0, script@.len() as int) =~= script@);
        Some(contents)
    } else {
        None
    };
    let policy = bytes::of_text(
        match retention {
            RetentionPolicy::UntilWorkspaceDeleted => "archive\n",
            RetentionPolicy::Rolling => "rolling\n",
        },
    );
    let mut files: Vec<(String, Vec<u8>)> = vec![
        ("startup".to_owned(), script),
        ("shell".to_owned(), bytes::of_text(profile.shell.as_str())),
        ("activity".to_owned(), bytes::of_text("starting\n")),
        ("retention".to_owned(), policy),
    ];
    if let Some(contents) = zsh {
        files.push((".zshrc".to_owned(), contents));
    }
    assert(files.deep_view() =~= startup_files(
        profile.deep_view(),
        init@,
        startup@,
        session,
        retention,
    )) by {
        broadcast use bytes::bytes_deep_view;

    }
    files
}

impl Backend {
    /// Creates a workspace with an initialized shell whose output is all kept.
    pub fn create_initialized(
        &self,
        script: &mut Script,
        id: &str,
        directory: Option<&str>,
        profile: &BootstrapProfile,
        executable: &str,
        root: &str,
    ) -> (r: Result<Workspace, Halt<Error>>)
        ensures
            (final(script).deep_view(), outcome(r)) == create_initialized_run(
                old(script).deep_view(),
                self.deep_view(),
                CreationView {
                    id: id@,
                    directory: directory.deep_view(),
                    profile: profile.deep_view(),
                    executable: executable@,
                    root: root@,
                    retention: RetentionPolicy::UntilWorkspaceDeleted,
                },
            ),
    {
        self.create_initialized_with_retention(
            script,
            id,
            directory,
            profile,
            executable,
            root,
            RetentionPolicy::default(),
        )
    }

    /// Creates a workspace with an initialized and recorded shell, or goes on with
    /// the one that is there.
    pub fn create_initialized_with_retention(
        &self,
        script: &mut Script,
        id: &str,
        directory: Option<&str>,
        profile: &BootstrapProfile,
        executable: &str,
        root: &str,
        retention: RetentionPolicy,
    ) -> (r: Result<Workspace, Halt<Error>>)
        ensures
            (final(script).deep_view(), outcome(r)) == create_initialized_run(
                old(script).deep_view(),
                self.deep_view(),
                CreationView {
                    id: id@,
                    directory: directory.deep_view(),
                    profile: profile.deep_view(),
                    executable: executable@,
                    root: root@,
                    retention,
                },
            ),
    {
        if !token(id) {
            return Err(token_halt());
        }
        let init = check_request(profile, executable, root)?;
        prepare_state_root(script, root)?;
        let lock_path = join(root, text::joined(id, ".lock").as_str());
        lock(script, lock_path.as_str(), self.timeout())?;
        match self.lookup(script, id, true) {
            Ok(workspace) => {
                let startup = startup_path(root, id, workspace.generation.as_str());
                let durable = match script.path_flag(
                    PathAction::IsFile,
                    join(startup.as_str(), "startup").as_str(),
                ) {
                    Ok(durable) => durable,
                    Err(halt) => return Err(startup_halt(halt)),
                };
                if !durable {
                    return Err(
                        fail(
                            ErrorKind::Failed,
                            "Existing workspace was not created with durable shell integration",
                        ),
                    );
                }
                self.finish_startup(script, &workspace, executable, root, startup.as_str())?;
                return Ok(workspace);
            },
            Err(halt) => {
                if !has_kind(&halt, ErrorKind::NotFound) {
                    return Err(halt);
                }
            },
        }
        self.new_incarnation(
            script,
            id,
            directory,
            profile,
            init.as_str(),
            executable,
            root,
            retention,
        )
    }

    fn new_incarnation(
        &self,
        script: &mut Script,
        id: &str,
        directory: Option<&str>,
        profile: &BootstrapProfile,
        init: &str,
        executable: &str,
        root: &str,
        retention: RetentionPolicy,
    ) -> (r: Result<Workspace, Halt<Error>>)
        requires
            init@ == decode_utf8(profile.init_script@),
        ensures
            (final(script).deep_view(), outcome(r)) == new_incarnation_run(
                old(script).deep_view(),
                self.deep_view(),
                CreationView {
                    id: id@,
                    directory: directory.deep_view(),
                    profile: profile.deep_view(),
                    executable: executable@,
                    root: root@,
                    retention,
                },
            ),
    {
        let generation = random_token(script)?;
        let startup = startup_path(root, id, generation.as_str());
        step(script, Call::Path(PathAction::MakeDirectory, startup.clone()))?;
        let session: u64 = match session_id(generation.as_str()) {
            Some(session) => session,
            None => 0,
        };
        let files = startup_files_of(profile, init, startup.as_str(), session, retention);
        write_files(script, startup.as_str(), files)?;
        let shell = match find_shell(script, profile.shell.as_str()) {
            Ok(shell) => shell,
            Err(halt) => return Err(startup_halt(halt)),
        };
        let command = launcher_command_line(
            executable,
            startup.as_str(),
            profile.shell.as_str(),
            shell.as_str(),
        );
        let workspace = self.create_with_startup(
            script,
            id,
            directory,
            Some(generation.as_str()),
            Some(command.as_str()),
        )?;
        self.finish_startup(script, &workspace, executable, root, startup.as_str())?;
        Ok(workspace)
    }

    fn finish_startup(
        &self,
        script: &mut Script,
        workspace: &Workspace,
        executable: &str,
        root: &str,
        startup: &str,
    ) -> (r: Result<(), Halt<Error>>)
        ensures
            (final(script).deep_view(), outcome(r)) == finish_run(
                old(script).deep_view(),
                self.deep_view(),
                workspace.deep_view(),
                executable@,
                root@,
                startup@,
            ),
    {
        let ready = join(startup, "ready");
        match script.path_flag(PathAction::IsFile, ready.as_str()) {
            Err(halt) => return Err(startup_halt(halt)),
            Ok(true) => return Ok(()),
            Ok(false) => {},
        }
        let retention = read_policy(script, startup)?;
        self.start_recording_with_retention(
            script,
            workspace.id.as_str(),
            workspace.generation.as_str(),
            executable,
            root,
            retention,
        )?;
        step(script, Call::WriteNew(ready, bytes::of_text("ready\n")))?;
        step(script, Call::Path(PathAction::SyncDirectory, startup.to_owned()))
    }
}

} // verus!
