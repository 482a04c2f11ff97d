use persistent_workspaces::host::{
    Call, Entry, FileAction, Halt, IoError, IoKind, JournalFile, PathAction, ProcessAction, Reply,
    Script,
};
use persistent_workspaces::journal::recorder::Recorder;
use persistent_workspaces::journal::{file_name, RetentionPolicy};
use persistent_workspaces::proto::{
    PersistentShellBootstrap, PersistentTerminalRequest, PersistentWorkspaceOperation as Op,
    PersistentWorkspaceRequest, PersistentWorkspaceResponse, TerminalOperation,
};
use persistent_workspaces::rpc::handle;
use persistent_workspaces::shell::{
    activity, await_ready, find_shell, launch, session_id, shell_arguments, stored_shell,
    supported_shell, ShellRequest, SHELL_ARGUMENT,
};
use persistent_workspaces::workspace::command::finish_command;
use persistent_workspaces::workspace::sessions::{numeric_id, supports_workspaces};
use persistent_workspaces::workspace::startup::BootstrapProfile;
use persistent_workspaces::workspace::{Backend, Error, ErrorKind};
use std::collections::{BTreeMap, BTreeSet};

type Command = (Vec<String>, bool, Vec<u8>, Vec<u8>);

/// A remote host in memory. tmux is a function of its arguments.
struct Host {
    /// What the client answers: success, output, diagnostics.
    tmux: Box<dyn FnMut(&[String]) -> (bool, String, String)>,
    missing_tmux: bool,
    files: BTreeMap<String, Vec<u8>>,
    directories: BTreeSet<String>,
    public: BTreeSet<String>,
    variables: BTreeMap<String, String>,
    clock: u64,
    /// Polls before a process exits.
    delay: u32,
    running: Option<(Command, u32, bool, bool)>,
    commands: Vec<Vec<String>>,
    killed: u32,
    locked: u32,
    calls: usize,
}

impl Host {
    fn new(tmux: impl FnMut(&[String]) -> (bool, String, String) + 'static) -> Self {
        let mut variables = BTreeMap::new();
        variables.insert("HOME".to_owned(), "/home/user".to_owned());
        variables.insert("PATH".to_owned(), "relative:/opt/bin:/usr/local/bin".to_owned());
        let mut files = BTreeMap::new();
        files.insert("/usr/bin/zsh".to_owned(), Vec::new());
        files.insert("/opt/daemon".to_owned(), Vec::new());
        Host {
            tmux: Box::new(tmux),
            missing_tmux: false,
            files,
            directories: BTreeSet::from(["/work".to_owned()]),
            public: BTreeSet::new(),
            variables,
            clock: 1_000,
            delay: 0,
            running: None,
            commands: Vec::new(),
            killed: 0,
            locked: 0,
            calls: 0,
        }
    }

    fn io(kind: IoKind, message: &str) -> Reply {
        Reply::Failed(IoError { kind, message: message.to_owned() })
    }

    fn perform(&mut self, call: &Call) -> Reply {
        self.calls += 1;
        match call {
            Call::Process(ProcessAction::Streams) => Reply::Done,
            Call::Spawn(executable, arguments) => {
                if self.missing_tmux {
                    return Self::io(IoKind::NotFound, "No such file or directory (os error 2)");
                }
                assert_eq!(executable, "tmux");
                assert_eq!(arguments[0], "-L");
                assert_eq!(arguments[2..4], ["-f", "/dev/null"]);
                let command = arguments[4..].to_vec();
                self.commands.push(command.clone());
                let (success, output, diagnostics) = (self.tmux)(&command);
                self.running = Some((
                    (command, success, output.into_bytes(), diagnostics.into_bytes()),
                    self.delay,
                    false,
                    false,
                ));
                Reply::Done
            }
            Call::Process(ProcessAction::Poll) => {
                let running = self.running.as_mut().unwrap();
                if running.1 > 0 {
                    running.1 -= 1;
                    return Reply::Running;
                }
                Reply::Exited(running.0 .1)
            }
            Call::Process(ProcessAction::ReadOutput) => {
                let running = self.running.as_mut().unwrap();
                if running.1 > 0 {
                    return Self::io(IoKind::WouldBlock, "");
                }
                if running.2 {
                    return Reply::Bytes(Vec::new());
                }
                running.2 = true;
                Reply::Bytes(running.0 .2.clone())
            }
            Call::Process(ProcessAction::ReadDiagnostics) => {
                let running = self.running.as_mut().unwrap();
                if running.1 > 0 {
                    return Self::io(IoKind::WouldBlock, "");
                }
                if running.3 {
                    return Reply::Bytes(Vec::new());
                }
                running.3 = true;
                Reply::Bytes(running.0 .3.clone())
            }
            Call::Process(ProcessAction::Kill) => {
                self.killed += 1;
                Reply::Done
            }
            Call::Process(ProcessAction::Reap) => Reply::Done,
            Call::Clock => Reply::Number(self.clock),
            Call::Sleep(milliseconds) => {
                self.clock += milliseconds * 1_000_000;
                Reply::Done
            }
            Call::RandomBytes => Reply::Bytes((0..16u8).collect()),
            Call::Variable(name) => match self.variables.get(name) {
                Some(value) => Reply::Text(value.clone()),
                None => Reply::Unset,
            },
            Call::CurrentExecutable => Reply::Text("/opt/daemon".to_owned()),
            Call::Path(action, path) => self.path(*action, path),
            Call::WriteNew(path, bytes) => {
                if self.files.insert(path.clone(), bytes.clone()).is_some() {
                    return Self::io(IoKind::AlreadyExists, "File exists");
                }
                Reply::Done
            }
            Call::ReadStart(path, limit) => match self.files.get(path) {
                Some(contents) => {
                    Reply::Bytes(contents[..contents.len().min(*limit as usize)].to_vec())
                }
                None => Self::io(IoKind::NotFound, "No such file"),
            },
            Call::Journal(directory, action) => self.journal(directory, action),
        }
    }

    fn path(&mut self, action: PathAction, path: &str) -> Reply {
        match action {
            PathAction::IsFile => Reply::Flag(self.files.contains_key(path)),
            PathAction::IsDirectory => Reply::Flag(self.directories.contains(path)),
            PathAction::Exists => {
                Reply::Flag(self.files.contains_key(path) || self.directories.contains(path))
            }
            PathAction::Describe => {
                if self.directories.contains(path) || self.files.contains_key(path) {
                    return Reply::Entry(Entry {
                        directory: self.directories.contains(path),
                        file: self.files.contains_key(path),
                        private: !self.public.contains(path),
                    });
                }
                Self::io(IoKind::NotFound, "No such file")
            }
            PathAction::MakeDirectories => {
                self.directories.insert(path.to_owned());
                Reply::Done
            }
            PathAction::MakeDirectory => {
                if !self.directories.insert(path.to_owned()) {
                    return Self::io(IoKind::AlreadyExists, "File exists");
                }
                Reply::Done
            }
            PathAction::OpenLock => Reply::Done,
            PathAction::TryLock => {
                if self.locked > 0 {
                    self.locked -= 1;
                    return Reply::Flag(false);
                }
                Reply::Flag(true)
            }
            PathAction::Read => match self.files.get(path) {
                Some(contents) => Reply::Bytes(contents.clone()),
                None => Self::io(IoKind::NotFound, "No such file"),
            },
            PathAction::SyncDirectory => Reply::Done,
            PathAction::RemoveTree => {
                self.directories.remove(path);
                let prefix = format!("{path}/");
                self.files.retain(|name, _| !name.starts_with(&prefix));
                Reply::Done
            }
            PathAction::Canonical => Reply::Text(path.to_owned()),
        }
    }

    fn journal(&mut self, directory: &str, action: &FileAction) -> Reply {
        let name = |file: JournalFile| format!("{directory}/{}", file_name(file));
        match action {
            FileAction::MakeDirectory => {
                self.directories.insert(directory.to_owned());
                Reply::Done
            }
            FileAction::Create(file) => {
                if self.files.insert(name(*file), Vec::new()).is_some() {
                    return Self::io(IoKind::AlreadyExists, "File exists");
                }
                Reply::Done
            }
            FileAction::Write(file, bytes) => {
                self.files.get_mut(&name(*file)).unwrap().extend_from_slice(bytes);
                Reply::Done
            }
            FileAction::Rename(from, to) => {
                let contents = self.files.remove(&name(*from)).unwrap();
                self.files.insert(name(*to), contents);
                Reply::Done
            }
            FileAction::ReadStart(file, limit) => match self.files.get(&name(*file)) {
                Some(contents) => {
                    Reply::Bytes(contents[..contents.len().min(*limit as usize)].to_vec())
                }
                None => Self::io(IoKind::NotFound, "No such file"),
            },
            FileAction::ReadAt(file, offset, count) => match self.files.get(&name(*file)) {
                Some(contents) => Reply::Bytes(
                    contents[*offset as usize..(*offset + *count) as usize].to_vec(),
                ),
                None => Self::io(IoKind::NotFound, "No such file"),
            },
            FileAction::Describe(_) => Self::io(IoKind::NotFound, "No such file"),
            _ => Reply::Done,
        }
    }
}

fn drive<T, E>(
    host: &mut Host,
    mut operation: impl FnMut(&mut Script) -> Result<T, Halt<E>>,
) -> Result<T, E> {
    let mut script = Script::new();
    loop {
        match operation(&mut script) {
            Ok(value) => return Ok(value),
            Err(Halt::Failed(error)) => return Err(error),
            Err(Halt::Waiting) => {
                let reply = host.perform(script.call(script.len() - 1));
                script.answer(reply);
            }
        }
    }
}

fn answer(host: &mut Host, request: PersistentWorkspaceRequest) -> PersistentWorkspaceResponse {
    let mut script = Script::new();
    loop {
        match handle(&mut script, &request) {
            Some(response) => return response,
            None => {
                let reply = host.perform(script.call(script.len() - 1));
                script.answer(reply);
            }
        }
    }
}

fn backend() -> Backend {
    Backend::new("ew-test").unwrap()
}

const ID: &str = "0123456789abcdef0123456789abcdef";
const GENERATION: &str = "000102030405060708090a0b0c0d0e0f";

fn found(state: &str) -> String {
    format!("ew-{ID}|{GENERATION}|$1|@2|%3|4242|{state}\n")
}

/// A server with one workspace in this state.
fn one_workspace(state: &'static str) -> Host {
    Host::new(move |command| match command[0].as_str() {
        "-V" => (true, "tmux 3.4\n".to_owned(), String::new()),
        "display-message" if command.last().unwrap() == "#{pane_pipe}" => {
            (true, "1\n".to_owned(), String::new())
        }
        "display-message" => (true, found(state), String::new()),
        "list-sessions" => {
            (true, format!("other\new-{ID}\new-nothex\n"), String::new())
        }
        _ => (true, String::new(), String::new()),
    })
}

#[test]
fn rejects_unsafe_ids_before_invoking_tmux() {
    let backend = Backend::new("ew-test-invalid").unwrap();
    for id in [
        "",
        "@1",
        "$(touch /tmp/bad)",
        "a; kill-server",
        "../a",
        "AAAAAAAAAAAAAAAAAAAAAAAAAAAAAAAA",
    ] {
        let mut script = Script::new();
        let error = backend.create(&mut script, id, None).unwrap_err();
        assert!(matches!(error, Halt::Failed(Error { kind: ErrorKind::InvalidRequest, .. })));
        let error = backend.terminate(&mut script, id, id).unwrap_err();
        assert!(matches!(error, Halt::Failed(Error { kind: ErrorKind::InvalidRequest, .. })));
        assert_eq!(script.len(), 0);
    }
}

#[test]
fn rejects_unsafe_socket_names() {
    for socket in ["", "../warp", "/tmp/warp", "x y", "x;y"] {
        assert!(Backend::new(socket).is_err());
    }
    assert!(Backend::new(&"x".repeat(80)).is_ok());
    assert_eq!(
        Backend::new(&"x".repeat(81)).unwrap_err().to_line(),
        "invalid_request: Invalid managed socket name"
    );
}

#[test]
fn missing_tmux_is_not_an_empty_workspace_list() {
    let mut host = one_workspace("0||");
    host.missing_tmux = true;
    let error = drive(&mut host, |script| backend().list(script)).unwrap_err();
    assert_eq!(error.kind, ErrorKind::Unavailable, "{error:?}");
}

#[test]
fn missing_tmux_in_path_is_actionable() {
    let mut host = one_workspace("0||");
    host.missing_tmux = true;
    let error = drive(&mut host, |script| backend().list(script)).unwrap_err();
    assert_eq!(error.kind, ErrorKind::Unavailable, "{error:?}");
    assert!(error.message.contains("tmux 3.2"));
    assert!(error.message.contains("remote SSH PATH"));
}

#[test]
fn silent_tmux_failure_has_an_actionable_diagnostic() {
    let mut host = Host::new(|_| (false, String::new(), String::new()));
    let error = drive(&mut host, |script| backend().list(script)).unwrap_err();
    assert_eq!(error.kind, ErrorKind::Failed, "{error:?}");
    assert!(error.message.contains("without a diagnostic"));
    assert!(error.message.contains("installed and executable"));
}

#[test]
fn validates_tmux_numeric_identifiers() {
    assert!(numeric_id("$123", '$'));
    for value in ["", "$", "$1;kill-server", "@2", "$-1"] {
        assert!(!numeric_id(value, '$'));
    }
}

#[test]
fn inherited_output_does_not_wait_for_daemon_eof() {
    let mut host = Host::new(|_| (true, "complete".to_owned(), String::new()));
    host.delay = 3;
    let output = drive(&mut host, |script| backend().run(script, vec![])).unwrap();
    assert_eq!(output, "complete");
    assert_eq!(host.clock, 1_000 + 3 * 10_000_000);
    assert_eq!(host.killed, 0);
}

#[test]
fn stalled_command_obeys_deadline_without_output_eof() {
    let mut host = Host::new(|_| (true, String::new(), String::new()));
    host.delay = u32::MAX;
    let backend = backend().with_client("tmux", 100_000_000);
    let error = drive(&mut host, |script| backend.run(script, vec![])).unwrap_err();
    assert_eq!(error.kind, ErrorKind::Timeout);
    assert_eq!(host.clock, 1_000 + 100_000_000);
    assert_eq!(host.killed, 1);
}

#[test]
fn a_command_that_writes_too_much_is_killed() {
    let mut host = Host::new(|_| (true, "x".repeat(1024 * 1024 + 1), String::new()));
    let error = drive(&mut host, |script| backend().run(script, vec![])).unwrap_err();
    assert_eq!(error.message, "tmux output exceeded the safety limit");
    assert_eq!(host.killed, 1);
    let mut host = Host::new(|_| (true, "x".repeat(1024 * 1024), String::new()));
    assert!(drive(&mut host, |script| backend().run(script, vec![])).is_ok());
}

#[test]
fn diagnostics_tell_what_is_absent() {
    for text in [
        "can't find session: x",
        "can't find pane",
        "can't find window",
        "no server running on /tmp/x",
        "error connecting (No such file or directory)",
    ] {
        let error = finish_command(false, &vec![], &format!(" {text}\n").into_bytes());
        assert!(matches!(error, Err(Halt::Failed(Error { kind: ErrorKind::NotFound, message }))
            if message == text));
    }
    let error = finish_command(false, &vec![], &b"server exited\n".to_vec());
    assert!(matches!(error, Err(Halt::Failed(Error { kind: ErrorKind::Failed, message }))
        if message == "server exited"));
    assert_eq!(finish_command(true, &b"a\xffb".to_vec(), &vec![]).unwrap(), "a\u{fffd}b");
}

#[test]
fn a_workspace_is_looked_up_by_exactly_this_command() {
    let mut host = one_workspace("1|7|");
    let workspace =
        drive(&mut host, |script| backend().resolve(script, ID, GENERATION)).unwrap();
    assert_eq!(workspace.id, ID);
    assert_eq!(workspace.generation, GENERATION);
    assert_eq!(workspace.session_id, "$1");
    assert_eq!(workspace.window_id, "@2");
    assert_eq!(workspace.pane_id, "%3");
    assert_eq!(workspace.shell_pid, 4242);
    assert!(workspace.exited);
    assert_eq!(workspace.exit_code, Some(7));
    assert_eq!(host.commands.len(), 1);
    assert_eq!(host.commands[0][..3], ["display-message", "-p", "-t"]);
    assert_eq!(host.commands[0][3], format!("=ew-{ID}:0.0"));
}

#[test]
fn malformed_metadata_is_never_adopted() {
    for (output, kind, message) in [
        ("\n".to_owned(), ErrorKind::NotFound, "Workspace no longer exists"),
        (
            found("0||").replace(GENERATION, ""),
            ErrorKind::Failed,
            "Workspace metadata is missing or malformed; refusing to adopt it",
        ),
        (
            found("0||").replace("ew-0", "ew-1"),
            ErrorKind::Failed,
            "Workspace metadata is missing or malformed; refusing to adopt it",
        ),
        (
            found("0||more|"),
            ErrorKind::Failed,
            "Workspace metadata is missing or malformed; refusing to adopt it",
        ),
        (found("0||").replace("4242", "x"), ErrorKind::Failed, "Invalid shell PID"),
        (
            found("0||").replace("4242", "4294967296"),
            ErrorKind::Failed,
            "Invalid shell PID",
        ),
        (found("2||"), ErrorKind::Failed, "Invalid pane state"),
        (found("1|256|"), ErrorKind::Failed, "Invalid shell exit status"),
        (found("1|-1|"), ErrorKind::Failed, "Invalid shell exit status"),
    ] {
        let mut host = Host::new(move |_| (true, output.clone(), String::new()));
        let error =
            drive(&mut host, |script| backend().resolve(script, ID, GENERATION)).unwrap_err();
        assert_eq!(error.kind, kind);
        assert_eq!(error.message, message);
    }
}

#[test]
fn an_exit_without_a_status_is_refreshed_once() {
    let mut host = one_workspace("1||");
    let workspace =
        drive(&mut host, |script| backend().resolve(script, ID, GENERATION)).unwrap();
    assert!(workspace.exited);
    assert_eq!(workspace.exit_code, None);
    assert_eq!(host.commands.len(), 3);
    assert_eq!(host.commands[1][0], "run-shell");
    assert_eq!(host.commands[1][3], "kill -CHLD #{pid}");
    // A signal is a known status.
    let mut host = one_workspace("1||9");
    drive(&mut host, |script| backend().resolve(script, ID, GENERATION)).unwrap();
    assert_eq!(host.commands.len(), 1);
}

#[test]
fn a_stale_generation_cannot_be_resolved_or_ended() {
    let mut host = one_workspace("0||");
    let stale = "f".repeat(32);
    let error = drive(&mut host, |script| backend().resolve(script, ID, &stale)).unwrap_err();
    assert_eq!(error.kind, ErrorKind::Stale);
    let error = drive(&mut host, |script| backend().terminate(script, ID, &stale)).unwrap_err();
    assert_eq!(error.kind, ErrorKind::Stale);
    assert!(host.commands.iter().all(|command| command[0] == "display-message"));
}

#[test]
fn ending_checks_the_incarnation_once_more() {
    let mut host = one_workspace("0||");
    drive(&mut host, |script| backend().terminate(script, ID, GENERATION)).unwrap();
    let command = host.commands.last().unwrap();
    assert_eq!(command[..3], ["if-shell", "-F", "-t"]);
    assert_eq!(command[3], format!("=ew-{ID}:0.0"));
    assert_eq!(command[4], format!("#{{==:#{{WARP_WORKSPACE_GENERATION}},{GENERATION}}}"));
    assert_eq!(command[5], "kill-session -t $1");
    assert_eq!(command[6], "display-message -p STALE_WORKSPACE");
    let mut host = Host::new(|command| match command[0].as_str() {
        "if-shell" => (true, "STALE_WORKSPACE\n".to_owned(), String::new()),
        _ => (true, found("0||"), String::new()),
    });
    let error =
        drive(&mut host, |script| backend().terminate(script, ID, GENERATION)).unwrap_err();
    assert_eq!(error.to_line(), "stale_workspace: Workspace incarnation changed before deletion");
}

#[test]
fn workspaces_are_listed_in_order_and_others_are_left_out() {
    let other = "ffffffffffffffffffffffffffffffff";
    let mut host = Host::new(move |command| match command[0].as_str() {
        "list-sessions" => (true, format!("ew-{other}\r\nuser\new-{ID}\n"), String::new()),
        _ if command[3].contains(other) => {
            (true, found("0||").replace(ID, other), String::new())
        }
        _ => (true, found("0||"), String::new()),
    });
    let list = drive(&mut host, |script| backend().list(script)).unwrap();
    assert_eq!(list.len(), 2);
    assert_eq!(list[0].id, ID);
    assert_eq!(list[1].id, other);
    let mut host =
        Host::new(|_| (false, String::new(), "no server running on /tmp".to_owned()));
    assert!(drive(&mut host, |script| backend().list(script)).unwrap().is_empty());
}

#[test]
fn versions_before_3_2_are_refused() {
    for output in ["tmux 3.2", "tmux 3.2a\n", "tmux 3.10", "tmux 4.0"] {
        assert!(supports_workspaces(output), "{output}");
    }
    for output in ["tmux 3.1c", "tmux 2.9", "tmux next-3.4", "3.4", "", "tmux 3"] {
        assert!(!supports_workspaces(output), "{output}");
    }
    let mut host = Host::new(|_| (true, "tmux 3.1\n".to_owned(), String::new()));
    let error = drive(&mut host, |script| backend().probe(script)).unwrap_err();
    assert_eq!(error.kind, ErrorKind::Unavailable);
}

#[test]
fn a_new_workspace_is_created_in_one_command() {
    let mut created = false;
    let mut host = Host::new(move |command| match command[0].as_str() {
        "-V" => (true, "tmux 3.4\n".to_owned(), String::new()),
        "new-session" => {
            created = true;
            (true, String::new(), String::new())
        }
        _ if created => (true, found("0||"), String::new()),
        _ => (false, String::new(), "no server running".to_owned()),
    });
    let workspace =
        drive(&mut host, |script| backend().create(script, ID, Some("/work"))).unwrap();
    assert_eq!(workspace.generation, GENERATION);
    assert_eq!(
        host.commands[2],
        [
            "new-session",
            "-d",
            "-s",
            &format!("ew-{ID}"),
            "-x",
            "120",
            "-y",
            "35",
            "-e",
            &format!("WARP_WORKSPACE_GENERATION={GENERATION}"),
            "-c",
            "/work",
        ]
    );
    // A retry gives the workspace that is there.
    let count = host.commands.len();
    drive(&mut host, |script| backend().create(script, ID, None)).unwrap();
    assert_eq!(host.commands.len(), count + 1);
    for directory in ["work", "/missing"] {
        let error =
            drive(&mut host, |script| backend().create(script, ID, Some(directory))).unwrap_err();
        assert_eq!(
            error.message,
            "Working directory must be an existing absolute UTF-8 path"
        );
    }
}

#[test]
fn the_loser_of_a_creation_gets_the_winners_workspace() {
    let mut lookups = 0;
    let mut host = Host::new(move |command| match command[0].as_str() {
        "-V" => (true, "tmux 3.4\n".to_owned(), String::new()),
        "new-session" => (false, String::new(), "duplicate session".to_owned()),
        _ => {
            lookups += 1;
            if lookups == 1 {
                (false, String::new(), "can't find session".to_owned())
            } else {
                (true, found("0||"), String::new())
            }
        }
    });
    assert_eq!(drive(&mut host, |script| backend().create(script, ID, None)).unwrap().id, ID);
}

#[test]
fn input_and_dimensions_are_sent_to_exactly_this_incarnation() {
    let mut host = one_workspace("0||");
    drive(&mut host, |script| {
        backend().send_input(script, ID, GENERATION, &b"\x03a\n".to_vec())
    })
    .unwrap();
    assert_eq!(host.commands.last().unwrap()[5], "send-keys -H -t %3 03 61 0a");
    drive(&mut host, |script| backend().resize(script, ID, GENERATION, 80, 24)).unwrap();
    assert_eq!(
        host.commands.last().unwrap()[5],
        "set-option -w -t @2 window-size manual ; resize-window -t @2 -x 80 -y 24"
    );
    for bytes in [vec![], vec![0; 4097]] {
        let error = drive(&mut host, |script| {
            backend().send_input(script, ID, GENERATION, &bytes)
        })
        .unwrap_err();
        assert_eq!(error.message, "Input must contain 1..4096 bytes");
    }
    for (columns, rows) in [(1, 24), (80, 1001)] {
        let error = drive(&mut host, |script| {
            backend().resize(script, ID, GENERATION, columns, rows)
        })
        .unwrap_err();
        assert_eq!(error.message, "Terminal dimensions must be in 2..1000");
    }
    let mut host = one_workspace("1|0|");
    let error = drive(&mut host, |script| {
        backend().send_input(script, ID, GENERATION, &b"x".to_vec())
    })
    .unwrap_err();
    assert_eq!(error.message, "The workspace shell has exited");
}

fn record(host: &mut Host, journal: &str, bytes: &[u8], closed: bool) {
    let mut recorder = drive(host, |script| Recorder::create(script, journal)).unwrap();
    drive(host, |script| recorder.append(script, &bytes.to_vec())).unwrap();
    if closed {
        drive(host, |script| recorder.close(script)).unwrap();
    }
}

fn journal(root: &str) -> String {
    format!("{root}/{ID}-{GENERATION}")
}

#[test]
fn a_recorder_is_started_once() {
    let mut host = one_workspace("0||");
    let start = |host: &mut Host, executable: &str| {
        drive(host, |script| {
            backend().start_recording_with_retention(
                script,
                ID,
                GENERATION,
                executable,
                "/state",
                RetentionPolicy::Rolling,
            )
        })
    };
    // Nobody publishes a journal: the start fails after its grace.
    let error = start(&mut host, "/opt/daemon").unwrap_err();
    assert_eq!(error.message, "Workspace journal: No such file");
    let command = host
        .commands
        .iter()
        .find(|command| command[0] == "if-shell")
        .unwrap();
    assert_eq!(
        command[5],
        format!(
            "set-option -w -t @2 remain-on-exit on ; pipe-pane -O -o -t %3 'exec \
             '\\''/opt/daemon'\\'' --persistent-workspace-recorder \
             '\\''/state/{ID}-{GENERATION}'\\'' --bounded-history'"
        )
    );
    // A recorder that is there is only observed, even without an executable.
    record(&mut host, &journal("/state"), b"output", false);
    host.commands.clear();
    start(&mut host, "relative").unwrap();
    assert!(host.commands.iter().all(|command| command[0] == "display-message"));
    // One that was lost is not replaced.
    let mut host = Host::new(|command| {
        if command.last().unwrap() == "#{pane_pipe}" {
            (true, "0\n".to_owned(), String::new())
        } else {
            (true, found("0||"), String::new())
        }
    });
    record(&mut host, &journal("/state"), b"output", false);
    assert_eq!(
        start(&mut host, "/opt/daemon").unwrap_err().message,
        "Recorder disconnected; refusing to conceal an output gap"
    );
    // A public root exposes nothing.
    host.public.insert("/state".to_owned());
    assert_eq!(
        start(&mut host, "/opt/daemon").unwrap_err().message,
        "Journal root must be a private directory (mode 0700)"
    );
    let error = drive(&mut host, |script| {
        backend().start_recording(script, ID, GENERATION, "/opt/daemon", "state")
    })
    .unwrap_err();
    assert_eq!(error.message, "Journal root must be an absolute UTF-8 path");
    let mut host = one_workspace("0||");
    assert_eq!(
        start(&mut host, "/missing").unwrap_err().message,
        "Recorder executable must be an existing absolute UTF-8 path"
    );
}

#[test]
fn output_of_an_exited_shell_is_given_when_it_is_complete() {
    let mut host = one_workspace("1|0|");
    record(&mut host, &journal("/state"), b"all of it", true);
    let page = drive(&mut host, |script| {
        backend().read_output(script, ID, GENERATION, "/state", 4)
    })
    .unwrap();
    assert_eq!(page.bytes, b"of it");
    assert!(page.closed);
    let mut host = one_workspace("1|0|");
    record(&mut host, &journal("/state"), b"not all", false);
    let error = drive(&mut host, |script| {
        backend().read_output(script, ID, GENERATION, "/state", 0)
    })
    .unwrap_err();
    assert_eq!(
        error.message,
        "Shell exited, but its output recorder did not finalize; output may be incomplete"
    );
    assert!(host.files.contains_key(&format!("{}/finalize.request", journal("/state"))));
    let mut host = one_workspace("0||");
    record(&mut host, &journal("/state"), b"so far", false);
    let page = drive(&mut host, |script| {
        backend().read_output(script, ID, GENERATION, "/state", 0)
    })
    .unwrap();
    assert_eq!(page.bytes, b"so far");
}

#[test]
fn history_is_deleted_only_after_its_workspace() {
    let mut host = one_workspace("0||");
    let delete = |host: &mut Host| {
        drive(host, |script| {
            backend().delete_retained_history(script, ID, GENERATION, "/state")
        })
    };
    assert_eq!(
        delete(&mut host).unwrap_err().message,
        "Terminate the workspace before deleting its history"
    );
    let mut host =
        Host::new(|_| (false, String::new(), "can't find session".to_owned()));
    delete(&mut host).unwrap();
    host.directories.insert("/state".to_owned());
    record(&mut host, &journal("/state"), b"secret", true);
    delete(&mut host).unwrap();
    assert!(!host.directories.contains(&journal("/state")));
    assert!(!host.files.keys().any(|name| name.starts_with("/state/")));
    host.files.insert(journal("/state"), Vec::new());
    assert_eq!(
        delete(&mut host).unwrap_err().message,
        "Refusing to follow a history symlink"
    );
    host.public.insert("/state".to_owned());
    assert_eq!(
        delete(&mut host).unwrap_err().message,
        "History root must be a private directory"
    );
}

fn profile(shell: &str) -> BootstrapProfile {
    BootstrapProfile {
        shell: shell.to_owned(),
        init_script: b"init @@WARP_SESSION_ID@@ @@USING_CON_PTY_BOOLEAN@@".to_vec(),
        bootstrap_script: b"bootstrap".to_vec(),
    }
}

fn creating_host() -> Host {
    let mut created = false;
    Host::new(move |command| match command[0].as_str() {
        "-V" => (true, "tmux 3.4\n".to_owned(), String::new()),
        "new-session" => {
            created = true;
            (true, String::new(), String::new())
        }
        "display-message" if created => (true, found("0||"), String::new()),
        "if-shell" => (true, String::new(), String::new()),
        _ => (false, String::new(), "no server running".to_owned()),
    })
}

#[test]
fn startup_files_are_written_before_the_shell_starts() {
    let mut host = creating_host();
    let error = drive(&mut host, |script| {
        backend().create_initialized_with_retention(
            script,
            ID,
            None,
            &profile("zsh"),
            "/opt/daemon",
            "/state",
            RetentionPolicy::Rolling,
        )
    })
    .unwrap_err();
    // No recorder publishes a journal here, so the shell is not released.
    assert_eq!(error.message, "Workspace journal: No such file");
    let startup = format!("/state/{ID}-{GENERATION}.shell");
    assert!(!host.files.contains_key(&format!("{startup}/ready")));
    let script = format!(
        "export WARP_PERSISTENT_ACTIVITY_PATH='{startup}/activity'\nexport \
         WARP_PERSISTENT_ROOT_SESSION=283686952306183\ninit 283686952306183 false\nbootstrap\n"
    );
    assert_eq!(host.files[&format!("{startup}/startup")], script.as_bytes());
    assert_eq!(host.files[&format!("{startup}/shell")], b"zsh");
    assert_eq!(host.files[&format!("{startup}/activity")], b"starting\n");
    assert_eq!(host.files[&format!("{startup}/retention")], b"rolling\n");
    let zshrc = String::from_utf8(host.files[&format!("{startup}/.zshrc")].clone()).unwrap();
    assert!(zshrc.starts_with("if [[ -n $WARP_PERSISTENT_HAD_ZDOTDIR ]]"));
    assert!(zshrc.ends_with(&script));
    let command = host.commands.iter().find(|command| command[0] == "new-session").unwrap();
    assert_eq!(
        command.last().unwrap(),
        &format!(
            "exec '/opt/daemon' --persistent-workspace-shell '{startup}' 'zsh' '/usr/bin/zsh'"
        )
    );
    // The journal appears, and the retry releases the shell without another startup.
    record(&mut host, &journal("/state"), b"", false);
    host.commands.clear();
    let mut host2 = one_workspace("0||");
    host2.files = host.files.clone();
    host2.directories = host.directories.clone();
    let workspace = drive(&mut host2, |script| {
        backend().create_initialized(script, ID, None, &profile("zsh"), "/opt/daemon", "/state")
    })
    .unwrap();
    assert_eq!(workspace.id, ID);
    assert_eq!(host2.files[&format!("{startup}/ready")], b"ready\n");
    assert!(!host2.commands.iter().any(|command| command[0] == "new-session"));
    // Once released, nothing is done any more.
    host2.commands.clear();
    drive(&mut host2, |script| {
        backend().create_initialized(script, ID, None, &profile("zsh"), "/opt/daemon", "/state")
    })
    .unwrap();
    assert_eq!(host2.commands.len(), 1);
}

#[test]
fn requests_for_initialized_workspaces_are_checked() {
    let create = |host: &mut Host, profile: &BootstrapProfile, root: &str| {
        drive(host, |script| {
            backend().create_initialized(script, ID, None, profile, "/opt/daemon", root)
        })
        .unwrap_err()
        .message
    };
    let mut host = creating_host();
    assert_eq!(create(&mut host, &profile("tcsh"), "/state"), "Invalid persistent shell profile");
    assert_eq!(create(&mut host, &profile("bash"), "state"), "Invalid persistent shell profile");
    let mut wrong = profile("bash");
    wrong.init_script = vec![0xff];
    assert_eq!(create(&mut host, &wrong, "/state"), "Shell init must be UTF-8");
    wrong.init_script = b"init".to_vec();
    assert_eq!(
        create(&mut host, &wrong, "/state"),
        "Shell init is missing its session token placeholder"
    );
    assert_eq!(host.calls, 0);
    host.locked = u32::MAX;
    assert_eq!(
        create(&mut host, &profile("bash"), "/state"),
        "Workspace initialization is still in progress"
    );
    host.locked = 2;
    assert_eq!(
        create(&mut host, &profile("bash"), "/state"),
        "Persistent shell startup: Remote shell bash is not installed"
    );
    host.public.insert("/state".to_owned());
    assert_eq!(
        create(&mut host, &profile("bash"), "/state"),
        "Shell state root must be private (0700)"
    );
    let mut host = one_workspace("0||");
    assert_eq!(
        create(&mut host, &profile("bash"), "/state"),
        "Existing workspace was not created with durable shell integration"
    );
    let startup = format!("/state/{ID}-{GENERATION}.shell");
    host.files.insert(format!("{startup}/startup"), Vec::new());
    host.files.insert(format!("{startup}/retention"), b"forever\n".to_vec());
    assert_eq!(
        create(&mut host, &profile("bash"), "/state"),
        "Invalid saved history retention policy"
    );
}

#[test]
fn shells_are_found_and_launched() {
    assert!(supported_shell("fish") && !supported_shell("sh"));
    let mut host = one_workspace("0||");
    assert_eq!(drive(&mut host, |script| find_shell(script, "zsh")).unwrap(), "/usr/bin/zsh");
    host.files.insert("/opt/bin/zsh".to_owned(), Vec::new());
    assert_eq!(drive(&mut host, |script| find_shell(script, "zsh")).unwrap(), "/opt/bin/zsh");
    let error = drive(&mut host, |script| find_shell(script, "tcsh")).unwrap_err();
    assert_eq!(error.kind, IoKind::InvalidInput);
    let error = drive(&mut host, |script| find_shell(script, "bash")).unwrap_err();
    assert_eq!(error.message, "Remote shell bash is not installed");
    let arguments = |list: &[&str]| {
        let list: Vec<String> = list.iter().map(|item| (*item).to_owned()).collect();
        shell_arguments(&list)
    };
    assert!(arguments(&["--version"]).is_none());
    for list in [
        &[SHELL_ARGUMENT][..],
        &[SHELL_ARGUMENT, "dir", "zsh", "/bin/zsh"],
        &[SHELL_ARGUMENT, "/dir", "tcsh", "/bin/tcsh"],
        &[SHELL_ARGUMENT, "/dir", "zsh", "zsh"],
        &[SHELL_ARGUMENT, "/dir", "zsh", "/bin/zsh", "more"],
    ] {
        assert_eq!(
            arguments(list).unwrap().unwrap_err().message,
            "Invalid persistent shell launch"
        );
    }
    let request = arguments(&[SHELL_ARGUMENT, "/di'r", "fish", "/bin/fish"]).unwrap().unwrap();
    let plan = launch(&request, None);
    assert_eq!(plan.executable, "/bin/fish");
    assert_eq!(
        plan.arguments,
        ["--no-config", "--interactive", "--init-command", "source '/di'\\''r/startup'"]
    );
    assert_eq!(plan.environment[0], ("TERM_PROGRAM".into(), Some("WarpTerminal".into())));
    assert_eq!(plan.environment[5], ("ENV".into(), None));
    let request = ShellRequest {
        directory: "/dir".into(),
        shell: "bash".into(),
        executable: "/bin/bash".into(),
    };
    assert_eq!(
        launch(&request, None).arguments,
        ["--noprofile", "--rcfile", "/dir/startup", "-i"]
    );
    let request = ShellRequest { shell: "zsh".into(), ..request };
    let plan = launch(&request, Some("/home/user/.zsh"));
    assert_eq!(plan.arguments, ["-i"]);
    assert_eq!(
        plan.environment[6..],
        [
            ("WARP_PERSISTENT_ORIGINAL_ZDOTDIR".into(), Some("/home/user/.zsh".into())),
            ("WARP_PERSISTENT_HAD_ZDOTDIR".into(), Some("1".into())),
            ("ZDOTDIR".into(), Some("/dir".into())),
        ]
    );
    assert_eq!(launch(&request, None).environment[7].1, None);
    let mut host = one_workspace("0||");
    host.files.insert("/dir/ready".to_owned(), Vec::new());
    drive(&mut host, |script| await_ready(script, "/dir")).unwrap();
}

#[test]
fn sessions_are_numbered_by_their_generation() {
    assert_eq!(session_id(GENERATION), Some(0x0001020304050607));
    assert_eq!(session_id(&"f".repeat(32)), Some(u64::MAX));
    assert_eq!(session_id(&"0".repeat(32)), Some(1));
    assert_eq!(session_id("F"), None);
    assert_eq!(session_id(&"F".repeat(32)), None);
}

#[test]
fn what_a_shell_left_behind_is_read() {
    let mut host = one_workspace("0||");
    let root = "/home/user/.local/state/warp/persistent-output-v1";
    let startup = format!("{root}/{ID}-{GENERATION}.shell");
    assert_eq!(drive(&mut host, |script| stored_shell(script, ID, GENERATION)).unwrap(), None);
    host.files.insert(format!("{startup}/shell"), b"fish".to_vec());
    assert_eq!(
        drive(&mut host, |script| stored_shell(script, ID, GENERATION)).unwrap(),
        Some("fish".to_owned())
    );
    for (contents, state) in [
        (&b"starting\n"[..], Some("starting")),
        (b"running\n", Some("running")),
        (b"idle\n", Some("idle")),
        (b"idle", None),
        (b"", None),
    ] {
        host.files.insert(format!("{startup}/activity"), contents.to_vec());
        assert_eq!(
            drive(&mut host, |script| activity(script, root, ID, GENERATION)).unwrap(),
            state
        );
    }
    assert_eq!(drive(&mut host, |script| activity(script, root, "x", GENERATION)).unwrap(), None);
}

fn request(operation: Op) -> PersistentWorkspaceRequest {
    PersistentWorkspaceRequest {
        protocol_version: 1,
        operation: operation.to_number(),
        ..Default::default()
    }
}

/// The response to a request that must not reach the host.
fn refused(request: PersistentWorkspaceRequest) -> PersistentWorkspaceResponse {
    let mut script = Script::new();
    let response = handle(&mut script, &request).expect("answered without a call");
    assert_eq!(script.len(), 0);
    response
}

#[test]
fn an_old_or_future_protocol_cannot_create_workspaces() {
    for version in [0, 2, u32::MAX] {
        let response = refused(PersistentWorkspaceRequest {
            protocol_version: version,
            ..request(Op::Create)
        });
        assert_eq!(response.error.unwrap().code, "unsupported_version");
        assert!(response.workspaces.is_empty());
    }
}

#[test]
fn rejects_unknown_operations_and_ambiguous_parameters() {
    let response = refused(PersistentWorkspaceRequest { operation: 99, ..request(Op::Probe) });
    assert_eq!(response.error.unwrap().code, "invalid_request");
    for operation in [Op::Probe, Op::List] {
        let response = refused(PersistentWorkspaceRequest {
            workspace_id: "unexpected".into(),
            ..request(operation)
        });
        assert_eq!(response.error.unwrap().code, "invalid_request");
    }
    let response = refused(PersistentWorkspaceRequest {
        generation: "unexpected".into(),
        ..request(Op::Create)
    });
    assert_eq!(response.error.unwrap().code, "invalid_request");
}

#[test]
fn retention_is_only_accepted_for_initialized_creation() {
    for (operation, policy, bootstrap) in [
        (Op::List, 0, None),
        (Op::Create, 1, None),
        (Op::Create, 99, Some(PersistentShellBootstrap::default())),
    ] {
        let response = refused(PersistentWorkspaceRequest {
            history_retention: Some(policy),
            bootstrap,
            ..request(operation)
        });
        assert_eq!(response.error.unwrap().code, "invalid_request");
    }
}

#[test]
fn terminal_requests_reject_unknown_or_cross_operation_parameters() {
    for terminal in [
        None,
        Some(PersistentTerminalRequest { operation: 99, ..Default::default() }),
        Some(PersistentTerminalRequest { operation: 0, input: vec![3], ..Default::default() }),
        Some(PersistentTerminalRequest { operation: 1, columns: 80, ..Default::default() }),
        Some(PersistentTerminalRequest { operation: 2, cursor: 7, ..Default::default() }),
    ] {
        let response = refused(PersistentWorkspaceRequest { terminal, ..request(Op::Terminal) });
        assert_eq!(response.error.unwrap().code, "invalid_request");
    }
    let response = refused(PersistentWorkspaceRequest {
        terminal: Some(PersistentTerminalRequest::default()),
        ..request(Op::List)
    });
    assert_eq!(response.error.unwrap().code, "invalid_request");
}

#[test]
fn native_transport_and_block_replay_capabilities_are_advertised() {
    let response = answer(&mut one_workspace("0||"), request(Op::Probe));
    assert!(response.error.is_none());
    assert!(response.terminal_transport_supported);
    assert!(response.block_replay_supported);
    assert!(response.management_supported);
    assert_eq!(response.protocol_version, 1);
}

#[test]
fn workspaces_are_described_with_what_is_known() {
    let mut host = one_workspace("0||");
    let root = "/home/user/.local/state/warp/persistent-output-v1";
    record(&mut host, &journal(root), b"12345", false);
    host.files.insert(format!("{root}/{ID}-{GENERATION}.shell/shell"), b"bash".to_vec());
    host.files.insert(format!("{root}/{ID}-{GENERATION}.shell/activity"), b"idle\n".to_vec());
    let response = answer(&mut host, request(Op::List));
    assert!(response.error.is_none());
    let workspace = &response.workspaces[0];
    assert_eq!(workspace.workspace_id, ID);
    assert_eq!(workspace.history_storage_bytes, Some(5));
    assert_eq!(workspace.shell.as_deref(), Some("bash"));
    assert_eq!(workspace.activity.as_deref(), Some("idle"));
    host.variables.remove("HOME");
    let response = answer(&mut host, request(Op::List));
    let workspace = &response.workspaces[0];
    assert_eq!(workspace.history_storage_bytes, None);
    assert_eq!(workspace.shell, None);
    assert_eq!(workspace.activity, None);
}

#[test]
fn a_terminal_is_read_and_written_through_the_daemon() {
    let mut host = one_workspace("0||");
    let root = "/home/user/.local/state/warp/persistent-output-v1";
    record(&mut host, &journal(root), b"output", false);
    let terminal = |operation: TerminalOperation, cursor, input: &[u8]| PersistentWorkspaceRequest {
        workspace_id: ID.into(),
        generation: GENERATION.into(),
        terminal: Some(PersistentTerminalRequest {
            operation: operation.to_number(),
            cursor,
            input: input.to_vec(),
            ..Default::default()
        }),
        ..request(Op::Terminal)
    };
    for operation in [TerminalOperation::Attach, TerminalOperation::Read] {
        let response = answer(&mut host, terminal(operation, 3, b""));
        assert!(response.error.is_none(), "{:?}", response.error);
        let output = response.terminal_output.unwrap();
        assert_eq!(output.output, b"put");
        assert_eq!(output.start_cursor, 3);
        assert_eq!(output.high_watermark, 6);
        assert!(output.recorder_connected);
        assert_eq!(response.workspaces.len(), 1);
    }
    let response = answer(&mut host, terminal(TerminalOperation::Input, 0, b"x"));
    assert!(response.error.is_none() && response.terminal_output.is_none());
    assert!(host.commands.iter().any(|command| command.contains(&"send-keys -H -t %3 78".into())));
    let response = answer(&mut host, terminal(TerminalOperation::Read, 9, b""));
    assert_eq!(
        response.error.unwrap().message,
        "Workspace journal: Cursor is ahead of this journal"
    );
    host.variables.remove("HOME");
    let response = answer(&mut host, terminal(TerminalOperation::Read, 0, b""));
    assert_eq!(response.error.unwrap().message, "Remote HOME is not set");
}

#[test]
fn termination_deletes_the_history() {
    let mut ended = false;
    let mut host = Host::new(move |command| match command[0].as_str() {
        "if-shell" => {
            ended = true;
            (true, String::new(), String::new())
        }
        _ if ended => (false, String::new(), "can't find session".to_owned()),
        _ => (true, found("0||"), String::new()),
    });
    let root = "/home/user/.local/state/warp/persistent-output-v1";
    host.directories.insert(root.to_owned());
    record(&mut host, &journal(root), b"output", false);
    let response = answer(
        &mut host,
        PersistentWorkspaceRequest {
            workspace_id: ID.into(),
            generation: GENERATION.into(),
            ..request(Op::Terminate)
        },
    );
    assert!(response.error.is_none() && response.workspaces.is_empty());
    assert!(!host.directories.contains(&journal(root)));
}

#[test]
fn an_unexpected_reply_of_the_host_is_an_error() {
    let mut script = Script::new();
    assert!(matches!(backend().probe(&mut script), Err(Halt::Waiting)));
    script.answer(Reply::Number(7));
    assert!(matches!(backend().probe(&mut script),
        Err(Halt::Failed(Error { kind: ErrorKind::Failed, message }))
        if message == "Unexpected reply from the host"));
}

#[test]
fn a_retried_creation_changes_no_list() {
    for state in ["0||", "1|7|", "1||9"] {
        let mut host = one_workspace(state);
        let list = |host: &mut Host| {
            let found = drive(host, |script| backend().list(script)).unwrap();
            found.iter().map(|w| format!("{w:?}")).collect::<Vec<_>>()
        };
        let before = list(&mut host);
        assert_eq!(before.len(), 1);
        for name in ["ew-test", "ew-other"] {
            let backend = Backend::new(name).unwrap();
            let again = drive(&mut host, |script| backend.create(script, ID, Some("/work")));
            assert_eq!(format!("{:?}", again.unwrap()), before[0]);
        }
        assert!(host.commands.iter().all(|command| command[0] != "new-session"));
        assert_eq!(list(&mut host), before);
    }
}
