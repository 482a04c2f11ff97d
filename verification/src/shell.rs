//! A shell launcher that tmux owns and that waits for the recorder. Reattachment
//! never runs it.

use crate::bytes;
use crate::host::{
    ask_bytes, ask_done, ask_flag, ask_text, ask_variable, outcome, Call, CallView, Halt, IoError,
    IoErrorView, IoHalt, IoKind, PathAction, Script, Transcript,
};
use crate::number;
use crate::paths::{absolute, is_absolute, join, path_in, quote, quoted};
use crate::text;
use crate::workspace::sessions::{is_token, token};
use vstd::prelude::*;
use vstd::string::*;
use vstd::utf8::{decode_utf8, encode_utf8, valid_utf8};

pub mod laws;

verus! {

pub const SHELL_ARGUMENT: &'static str = "--persistent-workspace-shell";

/// Where the daemon keeps its state, seen from the home directory.
pub const STATE_DIRECTORY: &'static str = ".local/state/warp/persistent-output-v1";

/// The session of a generation: the number of its first sixteen digits, but not zero.
pub open spec fn session_number(generation: Seq<char>) -> Option<u64> {
    if !is_token(generation) {
        None
    } else {
        let n = number::value_of(generation.take(16), 16);
        Some(
            if n == 0 {
                1
            } else {
                n as u64
            },
        )
    }
}

/// The session of a generation.
pub fn session_id(generation: &str) -> (r: Option<u64>)
    ensures
        r == session_number(generation@),
        r is Some <==> is_token(generation@),
{
    if !token(generation) {
        return None;
    }
    let c = text::characters(generation);
    let mut first: Vec<char> = Vec::new();
    let mut i: usize = 0;
    while i < 16
        invariant
            c@ == generation@,
            is_token(generation@),
            i <= 16,
            first@ == c@.take(i as int),
        decreases 16 - i,
    {
        first.push(c[i]);
        i += 1;
        assert(first@ =~= c@.take(i as int));
    }
    assert forall|k: int| 0 <= k < first@.len() implies number::is_hex_digit(
        #[trigger] first@[k],
    ) by {
        assert(number::is_hex_digit(generation@[k]));
    }
    let n = number::parse_hex16(first.as_slice());
    if n == 0 {
        Some(1)
    } else {
        Some(n)
    }
}

pub open spec fn is_supported(shell: Seq<char>) -> bool {
    shell == "bash"@ || shell == "zsh"@ || shell == "fish"@
}

/// Whether a shell can be persistent.
pub fn supported_shell(shell: &str) -> (r: bool)
    ensures
        r == is_supported(shell@),
{
    text::same(shell, "bash") || text::same(shell, "zsh") || text::same(shell, "fish")
}

/// The directory of a workspace's shell startup files.
pub open spec fn startup_directory(root: Seq<char>, id: Seq<char>, generation: Seq<char>) -> Seq<
    char,
> {
    path_in(root, id + "-"@ + generation + ".shell"@)
}

pub(crate) fn startup_path(root: &str, id: &str, generation: &str) -> (path: String)
    ensures
        path@ == startup_directory(root@, id@, generation@),
{
    let mut name = id.to_owned();
    name.append("-");
    name.append(generation);
    name.append(".shell");
    join(root, name.as_str())
}

// ---------------------------------------------------------------------------
// Finding a shell
// ---------------------------------------------------------------------------

/// Tries the directories one after the other.
pub open spec fn search_run(t: Transcript, directories: Seq<Seq<char>>, shell: Seq<char>) -> (
    Transcript,
    Result<Seq<char>, IoHalt>,
)
    decreases directories.len(),
{
    if directories.len() == 0 {
        (
            t,
            Err(
                Halt::Failed(
                    IoErrorView {
                        kind: IoKind::NotFound,
                        message: "Remote shell "@ + shell + " is not installed"@,
                    },
                ),
            ),
        )
    } else {
        let candidate = path_in(directories[0], shell);
        if !is_absolute(candidate) {
            search_run(t, directories.drop_first(), shell)
        } else {
            let (t, r) = ask_flag(t, CallView::Path(PathAction::IsFile, candidate));
            match r {
                Err(halt) => (t, Err(halt)),
                Ok(false) => search_run(t, directories.drop_first(), shell),
                Ok(true) => ask_text(t, CallView::Path(PathAction::Canonical, candidate)),
            }
        }
    }
}

/// The directories in which a shell is looked for.
pub open spec fn search_path(path: Seq<char>) -> Seq<Seq<char>> {
    text::split_by(path, ':').push("/bin"@).push("/usr/bin"@)
}

/// Finds a shell by its name.
pub open spec fn find_shell_run(t: Transcript, shell: Seq<char>) -> (
    Transcript,
    Result<Seq<char>, IoHalt>,
) {
    if !is_supported(shell) {
        (
            t,
            Err(
                Halt::Failed(
                    IoErrorView {
                        kind: IoKind::InvalidInput,
                        message: "Unsupported persistent shell"@,
                    },
                ),
            ),
        )
    } else {
        let (t, r) = ask_variable(t, CallView::Variable("PATH"@));
        match r {
            Err(halt) => (t, Err(halt)),
            Ok(path) => search_run(
                t,
                search_path(
                    match path {
                        Some(path) => path,
                        None => Seq::empty(),
                    },
                ),
                shell,
            ),
        }
    }
}

/// Finds a shell by its name, in the search path and in the usual places.
pub fn find_shell(script: &mut Script, shell: &str) -> (r: Result<String, Halt<IoError>>)
    ensures
        (final(script).deep_view(), outcome(r)) == find_shell_run(
            old(script).deep_view(),
            shell@,
        ),
{
    if !supported_shell(shell) {
        return Err(
            Halt::Failed(IoError::new(IoKind::InvalidInput, "Unsupported persistent shell")),
        );
    }
    let path = match script.variable("PATH")? {
        Some(path) => path,
        None => String::new(),
    };
    let mut directories = text::split(path.as_str(), ':');
    directories.push("/bin".to_owned());
    directories.push("/usr/bin".to_owned());
    assert(text::texts(directories@) =~= search_path(path@));
    search(script, &directories, shell)
}

fn search(script: &mut Script, directories: &Vec<String>, shell: &str) -> (r: Result<
    String,
    Halt<IoError>,
>)
    ensures
        (final(script).deep_view(), outcome(r)) == search_run(
            old(script).deep_view(),
            text::texts(directories@),
            shell@,
        ),
{
    let ghost model = text::texts(directories@);
    let mut i: usize = 0;
    assert(model.skip(0) =~= model);
    while i < directories.len()
        invariant
            model == text::texts(directories@),
            i <= directories@.len(),
            search_run(old(script).deep_view(), model, shell@) == search_run(
                script.deep_view(),
                model.skip(i as int),
                shell@,
            ),
        decreases directories@.len() - i,
    {
        assert(model.skip(i as int)[0] == directories@[i as int]@);
        assert(model.skip(i as int).drop_first() =~= model.skip(i + 1));
        let candidate = join(directories[i].as_str(), shell);
        if absolute(candidate.as_str()) && script.path_flag(
            PathAction::IsFile,
            candidate.as_str(),
        )? {
            return script.text(Call::Path(PathAction::Canonical, candidate));
        }
        i += 1;
    }
    let mut message = "Remote shell ".to_owned();
    message.append(shell);
    message.append(" is not installed");
    Err(Halt::Failed(IoError { kind: IoKind::NotFound, message }))
}

// ---------------------------------------------------------------------------
// What a workspace's shell left behind
// ---------------------------------------------------------------------------

/// The shell that a file's contents name, if it can be persistent.
pub open spec fn shell_named(contents: Seq<u8>) -> Option<Seq<char>> {
    if valid_utf8(contents) && is_supported(decode_utf8(contents)) {
        Some(decode_utf8(contents))
    } else {
        None
    }
}

/// The shell that was stored for a workspace, if it can be read.
pub open spec fn stored_shell_run(t: Transcript, id: Seq<char>, generation: Seq<char>) -> (
    Transcript,
    Result<Option<Seq<char>>, IoHalt>,
) {
    let (t, r) = ask_variable(t, CallView::Variable("HOME"@));
    match r {
        Err(halt) => (t, Err(halt)),
        Ok(None) => (t, Ok(None)),
        Ok(Some(home)) => {
            let directory = startup_directory(path_in(home, STATE_DIRECTORY@), id, generation);
            let (t, r) = ask_bytes(
                t,
                CallView::Path(PathAction::Read, path_in(directory, "shell"@)),
            );
            (
                t,
                match r {
                    Err(Halt::Waiting) => Err(Halt::Waiting),
                    Err(Halt::Failed(_)) => Ok(None),
                    Ok(contents) => Ok(shell_named(contents)),
                },
            )
        },
    }
}

/// The shell that was stored for a workspace, if it can be read.
pub fn stored_shell(script: &mut Script, id: &str, generation: &str) -> (r: Result<
    Option<String>,
    Halt<IoError>,
>)
    ensures
        (final(script).deep_view(), outcome(r)) == stored_shell_run(
            old(script).deep_view(),
            id@,
            generation@,
        ),
{
    broadcast use bytes::bytes_deep_view;

    let home = match script.variable("HOME")? {
        Some(home) => home,
        None => return Ok(None),
    };
    let root = join(home.as_str(), STATE_DIRECTORY);
    let directory = startup_path(root.as_str(), id, generation);
    match script.bytes(Call::Path(PathAction::Read, join(directory.as_str(), "shell"))) {
        Err(Halt::Waiting) => Err(Halt::Waiting),
        Err(Halt::Failed(_)) => Ok(None),
        Ok(contents) => match bytes::to_text(contents.as_slice()) {
            Ok(shell) => {
                if supported_shell(shell.as_str()) {
                    Ok(Some(shell))
                } else {
                    Ok(None)
                }
            },
            Err(_) => Ok(None),
        },
    }
}

/// The execution state that the first bytes of a file name.
pub open spec fn activity_named(contents: Seq<u8>) -> Option<Seq<char>> {
    if contents == encode_utf8("starting\n"@) {
        Some("starting"@)
    } else if contents == encode_utf8("running\n"@) {
        Some("running"@)
    } else if contents == encode_utf8("idle\n"@) {
        Some("idle"@)
    } else {
        None
    }
}

/// The execution state that a workspace's root shell has written.
pub open spec fn activity_run(
    t: Transcript,
    root: Seq<char>,
    id: Seq<char>,
    generation: Seq<char>,
) -> (Transcript, Result<Option<Seq<char>>, IoHalt>) {
    if !is_token(id) || !is_token(generation) {
        (t, Ok(None))
    } else {
        let path = path_in(startup_directory(root, id, generation), "activity"@);
        let (t, r) = ask_bytes(t, CallView::ReadStart(path, 16));
        (
            t,
            match r {
                Err(Halt::Waiting) => Err(Halt::Waiting),
                Err(Halt::Failed(_)) => Ok(None),
                Ok(contents) => Ok(activity_named(contents)),
            },
        )
    }
}

/// The execution state that the root shell's hooks have written. Idleness is never
/// inferred from a process: builtins of a shell can run indefinitely too.
pub fn activity(script: &mut Script, root: &str, id: &str, generation: &str) -> (r: Result<
    Option<&'static str>,
    Halt<IoError>,
>)
    ensures
        (final(script).deep_view(), outcome(r)) == activity_run(
            old(script).deep_view(),
            root@,
            id@,
            generation@,
        ),
{
    broadcast use bytes::bytes_deep_view;

    if session_id(id).is_none() || session_id(generation).is_none() {
        return Ok(None);
    }
    let path = join(startup_path(root, id, generation).as_str(), "activity");
    match script.bytes(Call::ReadStart(path, 16)) {
        Err(Halt::Waiting) => Err(Halt::Waiting),
        Err(Halt::Failed(_)) => Ok(None),
        Ok(contents) => {
            if bytes::same(contents.as_slice(), "starting\n".as_bytes()) {
                Ok(Some("starting"))
            } else if bytes::same(contents.as_slice(), "running\n".as_bytes()) {
                Ok(Some("running"))
            } else if bytes::same(contents.as_slice(), "idle\n".as_bytes()) {
                Ok(Some("idle"))
            } else {
                Ok(None)
            }
        },
    }
}

// ---------------------------------------------------------------------------
// Launching a shell
// ---------------------------------------------------------------------------

/// What a launcher was asked to start: the directory of the startup files, the
/// shell's name and its executable.
#[derive(Debug)]
pub struct ShellRequest {
    pub directory: String,
    pub shell: String,
    pub executable: String,
}

#[verifier::ext_equal]
pub struct ShellRequestView {
    pub directory: Seq<char>,
    pub shell: Seq<char>,
    pub executable: Seq<char>,
}

impl DeepView for ShellRequest {
    type V = ShellRequestView;

    open spec fn deep_view(&self) -> ShellRequestView {
        ShellRequestView {
            directory: self.directory@,
            shell: self.shell@,
            executable: self.executable@,
        }
    }
}

pub open spec fn invalid_launch() -> IoErrorView {
    IoErrorView { kind: IoKind::InvalidInput, message: "Invalid persistent shell launch"@ }
}

/// What a program's arguments ask a launcher to start; nothing if the program was
/// not started as a launcher.
pub open spec fn shell_request(arguments: Seq<Seq<char>>) -> Option<
    Result<ShellRequestView, IoErrorView>,
> {
    if arguments.len() == 0 || arguments[0] != SHELL_ARGUMENT@ {
        None
    } else if arguments.len() != 4 || !is_absolute(arguments[1]) || !is_supported(arguments[2])
        || !is_absolute(arguments[3]) {
        Some(Err(invalid_launch()))
    } else {
        Some(
            Ok(
                ShellRequestView {
                    directory: arguments[1],
                    shell: arguments[2],
                    executable: arguments[3],
                },
            ),
        )
    }
}

/// What a program's arguments ask a launcher to start, if it was started as one.
pub fn shell_arguments(arguments: &Vec<String>) -> (r: Option<Result<ShellRequest, IoError>>)
    ensures
        match (r, shell_request(text::texts(arguments@))) {
            (None, None) => true,
            (Some(request), Some(model)) => outcome(request) == model,
            _ => false,
        },
{
    let ghost model = text::texts(arguments@);
    assert(forall|i: int| 0 <= i < arguments@.len() ==> model[i] == arguments@[i]@);
    if arguments.len() == 0 || !text::same(arguments[0].as_str(), SHELL_ARGUMENT) {
        return None;
    }
    if arguments.len() != 4 || !absolute(arguments[1].as_str()) || !supported_shell(
        arguments[2].as_str(),
    ) || !absolute(arguments[3].as_str()) {
        return Some(
            Err(IoError::new(IoKind::InvalidInput, "Invalid persistent shell launch")),
        );
    }
    Some(
        Ok(
            ShellRequest {
                directory: arguments[1].clone(),
                shell: arguments[2].clone(),
                executable: arguments[3].clone(),
            },
        ),
    )
}

/// Waits until the recorder was started and the shell was released.
pub open spec fn await_ready_run(t: Transcript, directory: Seq<char>) -> (
    Transcript,
    Result<(), IoHalt>,
)
    decreases t.replies.len() - t.calls.len(),
{
    let (t1, r) = ask_flag(t, CallView::Path(PathAction::IsFile, path_in(directory, "ready"@)));
    match r {
        Err(halt) => (t1, Err(halt)),
        Ok(true) => (t1, Ok(())),
        Ok(false) => {
            let (t2, r) = ask_done(t1, CallView::Sleep(20));
            match r {
                Err(halt) => (t2, Err(halt)),
                Ok(_) => await_ready_run(t2, directory),
            }
        },
    }
}

/// Waits until the recorder was started and the shell was released. Only a new
/// pane waits here.
pub fn await_ready(script: &mut Script, directory: &str) -> (r: Result<(), Halt<IoError>>)
    ensures
        (final(script).deep_view(), outcome(r)) == await_ready_run(
            old(script).deep_view(),
            directory@,
        ),
{
    let ready = join(directory, "ready");
    while !script.path_flag(PathAction::IsFile, ready.as_str())?
        invariant
            ready@ == path_in(directory@, "ready"@),
            await_ready_run(old(script).deep_view(), directory@) == await_ready_run(
                script.deep_view(),
                directory@,
            ),
        decreases script.deep_view().replies.len() - script.deep_view().calls.len(),
    {
        script.done(Call::Sleep(20))?;
    }
    Ok(())
}

/// A program to put in place of the launcher. A variable without a value is taken
/// out of the environment.
#[derive(Debug)]
pub struct Launch {
    pub executable: String,
    pub arguments: Vec<String>,
    pub environment: Vec<(String, Option<String>)>,
}

#[verifier::ext_equal]
pub struct LaunchView {
    pub executable: Seq<char>,
    pub arguments: Seq<Seq<char>>,
    pub environment: Seq<(Seq<char>, Option<Seq<char>>)>,
}

impl DeepView for Launch {
    type V = LaunchView;

    open spec fn deep_view(&self) -> LaunchView {
        LaunchView {
            executable: self.executable@,
            arguments: self.arguments.deep_view(),
            environment: self.environment.deep_view(),
        }
    }
}

/// The changes of the environment that every shell gets.
pub open spec fn common_environment() -> Seq<(Seq<char>, Option<Seq<char>>)> {
    Seq::<(Seq<char>, Option<Seq<char>>)>::empty().push(
        ("TERM_PROGRAM"@, Some("WarpTerminal"@)),
    ).push(("WARP_PERSISTENT_WORKSPACE"@, Some("1"@))).push(("WARP_BOOTSTRAPPED"@, None)).push(
        ("WARP_SESSION_ID"@, None),
    ).push(("BASH_ENV"@, None)).push(("ENV"@, None))
}

/// The changes of the environment that zsh gets: its startup files are found by
/// `ZDOTDIR`, whose value before is kept for them to restore.
pub open spec fn zsh_environment(directory: Seq<char>, original: Option<Seq<char>>) -> Seq<
    (Seq<char>, Option<Seq<char>>),
> {
    let had: Option<Seq<char>> = match original {
        Some(_) => Some("1"@),
        None => None,
    };
    common_environment().push(("WARP_PERSISTENT_ORIGINAL_ZDOTDIR"@, original)).push(
        ("WARP_PERSISTENT_HAD_ZDOTDIR"@, had),
    ).push(("ZDOTDIR"@, Some(directory)))
}

/// How a shell is started; `zdotdir` is that variable's value before.
pub open spec fn launched(request: ShellRequestView, zdotdir: Option<Seq<char>>) -> LaunchView {
    let startup = path_in(request.directory, "startup"@);
    if request.shell == "bash"@ {
        LaunchView {
            executable: request.executable,
            arguments: Seq::<Seq<char>>::empty().push("--noprofile"@).push("--rcfile"@).push(
                startup,
            ).push("-i"@),
            environment: common_environment(),
        }
    } else if request.shell == "zsh"@ {
        LaunchView {
            executable: request.executable,
            arguments: Seq::<Seq<char>>::empty().push("-i"@),
            environment: zsh_environment(request.directory, zdotdir),
        }
    } else {
        LaunchView {
            executable: request.executable,
            arguments: Seq::<Seq<char>>::empty().push("--no-config"@).push("--interactive"@).push(
                "--init-command"@,
            ).push("source "@ + quoted(startup)),
            environment: common_environment(),
        }
    }
}

fn set(name: &str, value: &str) -> (r: (String, Option<String>))
    ensures
        r.deep_view() == (name@, Some(value@)),
{
    (name.to_owned(), Some(value.to_owned()))
}

fn unset(name: &str) -> (r: (String, Option<String>))
    ensures
        r.deep_view() == (name@, None::<Seq<char>>),
{
    (name.to_owned(), None)
}

/// How a shell is started.
pub fn launch(request: &ShellRequest, zdotdir: Option<&str>) -> (launch: Launch)
    requires
        is_supported(request.shell@),
    ensures
        launch.deep_view() == launched(request.deep_view(), zdotdir.deep_view()),
{
    let startup = join(request.directory.as_str(), "startup");
    let mut environment = vec![
        set("TERM_PROGRAM", "WarpTerminal"),
        set("WARP_PERSISTENT_WORKSPACE", "1"),
        unset("WARP_BOOTSTRAPPED"),
        unset("WARP_SESSION_ID"),
        unset("BASH_ENV"),
        unset("ENV"),
    ];
    assert(environment.deep_view() =~= common_environment());
    let ghost common = environment.deep_view();
    let arguments = if text::same(request.shell.as_str(), "bash") {
        vec!["--noprofile".to_owned(), "--rcfile".to_owned(), startup, "-i".to_owned()]
    } else if text::same(request.shell.as_str(), "zsh") {
        match zdotdir {
            Some(original) => {
                environment.push(set("WARP_PERSISTENT_ORIGINAL_ZDOTDIR", original));
                environment.push(set("WARP_PERSISTENT_HAD_ZDOTDIR", "1"));
            },
            None => {
                environment.push(unset("WARP_PERSISTENT_ORIGINAL_ZDOTDIR"));
                environment.push(unset("WARP_PERSISTENT_HAD_ZDOTDIR"));
            },
        }
        environment.push(set("ZDOTDIR", request.directory.as_str()));
        assert(environment.deep_view() =~= zsh_environment(
            request.directory@,
            zdotdir.deep_view(),
        ));
        vec!["-i".to_owned()]
    } else {
        vec![
            "--no-config".to_owned(),
            "--interactive".to_owned(),
            "--init-command".to_owned(),
            text::joined("source ", quote(startup.as_str()).as_str()),
        ]
    };
    let launch = Launch { executable: request.executable.clone(), arguments, environment };
    assert(launch.arguments.deep_view() =~= launched(
        request.deep_view(),
        zdotdir.deep_view(),
    ).arguments);
    launch
}

} // verus!
