//! Creating, finding and ending workspaces. A workspace is one tmux session; its
//! generation tells its incarnations apart.

use crate::host::{
    ask_bytes, ask_flag, outcome, Call, CallView, Halt, PathAction, Script, Transcript,
};
use crate::number;
use crate::paths::{absolute, is_absolute};
use crate::text;
use crate::workspace::command::{command_run, system_failure, system_halt};
use crate::workspace::{fail, failed, Backend, BackendView, Error, ErrorKind, WorkspaceHalt};
use vstd::prelude::*;
use vstd::string::*;

verus! {

pub const PREFIX: &'static str = "ew-";

/// What is asked of tmux about a workspace, field by field.
pub const FORMAT: &'static str = "#{session_name}|#{WARP_WORKSPACE_GENERATION}|#{session_id}|#{window_id}|#{pane_id}|#{pane_pid}|#{pane_dead}|#{pane_dead_status}|#{pane_dead_signal}";

/// One incarnation of a workspace.
#[derive(Debug)]
pub struct Workspace {
    pub id: String,
    pub generation: String,
    pub session_id: String,
    pub window_id: String,
    pub pane_id: String,
    pub shell_pid: u32,
    pub exited: bool,
    pub exit_code: Option<i32>,
}

#[verifier::ext_equal]
pub struct WorkspaceView {
    pub id: Seq<char>,
    pub generation: Seq<char>,
    pub session_id: Seq<char>,
    pub window_id: Seq<char>,
    pub pane_id: Seq<char>,
    pub shell_pid: u32,
    pub exited: bool,
    pub exit_code: Option<i32>,
}

impl DeepView for Workspace {
    type V = WorkspaceView;

    open spec fn deep_view(&self) -> WorkspaceView {
        WorkspaceView {
            id: self.id@,
            generation: self.generation@,
            session_id: self.session_id@,
            window_id: self.window_id@,
            pane_id: self.pane_id@,
            shell_pid: self.shell_pid,
            exited: self.exited,
            exit_code: self.exit_code,
        }
    }
}

// ---------------------------------------------------------------------------
// Identifiers
// ---------------------------------------------------------------------------

/// An identity: 32 lowercase hexadecimal digits.
pub open spec fn is_token(value: Seq<char>) -> bool {
    value.len() == 32 && number::all_hex(value)
}

/// Whether a text is an identity.
pub fn token(value: &str) -> (r: bool)
    ensures
        r == is_token(value@),
{
    let c = text::characters(value);
    if c.len() != 32 {
        return false;
    }
    let mut i: usize = 0;
    while i < c.len()
        invariant
            c@ == value@,
            i <= c@.len(),
            forall|k: int| 0 <= k < i ==> number::is_hex_digit(#[trigger] c@[k]),
        decreases c@.len() - i,
    {
        let x = c[i];
        if !(('0' <= x && x <= '9') || ('a' <= x && x <= 'f')) {
            assert(!number::is_hex_digit(value@[i as int]));
            return false;
        }
        i += 1;
    }
    true
}

pub open spec fn token_failure() -> WorkspaceHalt {
    failed(
        ErrorKind::InvalidRequest,
        "Workspace IDs and generations must be 32 lowercase hex characters"@,
    )
}

pub(crate) fn token_halt() -> (halt: Halt<Error>)
    ensures
        halt.deep_view() == token_failure(),
{
    fail(
        ErrorKind::InvalidRequest,
        "Workspace IDs and generations must be 32 lowercase hex characters",
    )
}

/// A number that tmux gives to a session, a window or a pane.
pub open spec fn is_numeric_id(value: Seq<char>, prefix: char) -> bool {
    &&& value.len() > 1
    &&& value[0] == prefix
    &&& number::all_decimal(value.drop_first())
}

/// Whether a text is such a number.
pub fn numeric_id(value: &str, prefix: char) -> (r: bool)
    ensures
        r == is_numeric_id(value@, prefix),
{
    let c = text::characters(value);
    if c.len() < 2 || c[0] != prefix {
        return false;
    }
    let ghost digits = value@.drop_first();
    let mut i: usize = 1;
    while i < c.len()
        invariant
            c@ == value@,
            digits == value@.drop_first(),
            1 <= i <= c@.len(),
            forall|k: int| 0 <= k < i - 1 ==> number::is_decimal_digit(#[trigger] digits[k]),
        decreases c@.len() - i,
    {
        let x = c[i];
        assert(digits[i - 1] == x);
        if !('0' <= x && x <= '9') {
            return false;
        }
        i += 1;
    }
    true
}

/// The name of a workspace's session.
pub open spec fn session_name(id: Seq<char>) -> Seq<char> {
    PREFIX@ + id
}

/// The target of commands on a workspace: exactly this session's only pane.
pub open spec fn target(id: Seq<char>) -> Seq<char> {
    "="@ + PREFIX@ + id + ":0.0"@
}

pub(crate) fn target_of(id: &str) -> (out: String)
    ensures
        out@ == target(id@),
{
    let mut out = "=".to_owned();
    out.append(PREFIX);
    out.append(id);
    out.append(":0.0");
    out
}

/// A format that is true of exactly this incarnation.
pub open spec fn generation_guard(generation: Seq<char>) -> Seq<char> {
    "#{==:#{WARP_WORKSPACE_GENERATION},"@ + generation + "}"@
}

pub(crate) fn guard_of(generation: &str) -> (out: String)
    ensures
        out@ == generation_guard(generation@),
{
    let mut out = "#{==:#{WARP_WORKSPACE_GENERATION},".to_owned();
    out.append(generation);
    out.append("}");
    out
}

// ---------------------------------------------------------------------------
// Lookup
// ---------------------------------------------------------------------------

pub open spec fn lookup_command(id: Seq<char>) -> Seq<Seq<char>> {
    Seq::<Seq<char>>::empty().push("display-message"@).push("-p"@).push("-t"@).push(
        target(id),
    ).push(FORMAT@)
}

/// A command that makes this server look after its children once.
pub open spec fn refresh_command(id: Seq<char>) -> Seq<Seq<char>> {
    Seq::<Seq<char>>::empty().push("run-shell"@).push("-t"@).push(target(id)).push(
        "kill -CHLD #{pid}"@,
    )
}

/// What the fields that tmux gives for a workspace say.
pub enum LookupView {
    Found(WorkspaceView),
    /// The shell has exited, and its exit status is not known yet.
    Unreaped(WorkspaceView),
    Absent,
    Malformed(Seq<char>),
}

/// Reads the fields that tmux gives for the workspace `id`.
pub open spec fn lookup_fields(id: Seq<char>, fields: Seq<Seq<char>>) -> LookupView {
    if fields[0].len() == 0 {
        LookupView::Absent
    } else if fields.len() != 9 || fields[0] != session_name(id) || !is_token(fields[1])
        || !is_numeric_id(fields[2], '$') || !is_numeric_id(fields[3], '@') || !is_numeric_id(
        fields[4],
        '%',
    ) {
        LookupView::Malformed("Workspace metadata is missing or malformed; refusing to adopt it"@)
    } else {
        match number::parsed(fields[5], u32::MAX as nat) {
            None => LookupView::Malformed("Invalid shell PID"@),
            Some(pid) => if fields[6] != "0"@ && fields[6] != "1"@ {
                LookupView::Malformed("Invalid pane state"@)
            } else {
                let exited = fields[6] != "0"@;
                let workspace = WorkspaceView {
                    id,
                    generation: fields[1],
                    session_id: fields[2],
                    window_id: fields[3],
                    pane_id: fields[4],
                    shell_pid: pid as u32,
                    exited,
                    exit_code: None,
                };
                if exited && fields[7].len() == 0 && fields[8].len() == 0 {
                    LookupView::Unreaped(workspace)
                } else if exited && fields[7].len() > 0 {
                    match number::parsed_signed(fields[7]) {
                        Some(code) => if 0 <= code <= 255 {
                            LookupView::Found(
                                WorkspaceView { exit_code: Some(code as i32), ..workspace },
                            )
                        } else {
                            LookupView::Malformed("Invalid shell exit status"@)
                        },
                        None => LookupView::Malformed("Invalid shell exit status"@),
                    }
                } else {
                    LookupView::Found(workspace)
                }
            },
        }
    }
}

/// What tmux's output says of the workspace `id`.
pub open spec fn lookup_output(id: Seq<char>, output: Seq<char>) -> LookupView {
    lookup_fields(id, text::split_by(text::without_line_end(output), '|'))
}

/// What tmux's output says of a workspace.
#[derive(Debug)]
pub enum Lookup {
    Found(Workspace),
    Unreaped(Workspace),
    Absent,
    Malformed(String),
}

impl DeepView for Lookup {
    type V = LookupView;

    open spec fn deep_view(&self) -> LookupView {
        match *self {
            Lookup::Found(workspace) => LookupView::Found(workspace.deep_view()),
            Lookup::Unreaped(workspace) => LookupView::Unreaped(workspace.deep_view()),
            Lookup::Absent => LookupView::Absent,
            Lookup::Malformed(message) => LookupView::Malformed(message@),
        }
    }
}

/// Reads what tmux says of the workspace `id`.
pub fn parse_lookup(id: &str, output: &str) -> (lookup: Lookup)
    ensures
        lookup.deep_view() == lookup_output(id@, output@),
{
    let line = text::trim_line_end(output);
    let fields = text::split(line.as_str(), '|');
    let ghost model = text::split_by(line@, '|');
    assert(forall|i: int| 0 <= i < fields@.len() ==> model[i] == fields@[i]@);
    assert(model.len() == fields@.len());
    if fields[0].as_str().is_empty() {
        return Lookup::Absent;
    }
    let name = text::joined(PREFIX, id);
    if fields.len() != 9 || !text::same(fields[0].as_str(), name.as_str()) || !token(
        fields[1].as_str(),
    ) || !numeric_id(fields[2].as_str(), '$') || !numeric_id(fields[3].as_str(), '@')
        || !numeric_id(fields[4].as_str(), '%') {
        return Lookup::Malformed(
            "Workspace metadata is missing or malformed; refusing to adopt it".to_owned(),
        );
    }
    let shell_pid: u32 = match number::parse(fields[5].as_str(), u32::MAX as u64) {
        Some(pid) => pid as u32,
        None => return Lookup::Malformed("Invalid shell PID".to_owned()),
    };
    let running = text::same(fields[6].as_str(), "0");
    if !running && !text::same(fields[6].as_str(), "1") {
        return Lookup::Malformed("Invalid pane state".to_owned());
    }
    let mut workspace = Workspace {
        id: id.to_owned(),
        generation: fields[1].clone(),
        session_id: fields[2].clone(),
        window_id: fields[3].clone(),
        pane_id: fields[4].clone(),
        shell_pid,
        exited: !running,
        exit_code: None,
    };
    if running {
        return Lookup::Found(workspace);
    }
    if fields[7].as_str().is_empty() {
        if fields[8].as_str().is_empty() {
            return Lookup::Unreaped(workspace);
        }
        return Lookup::Found(workspace);
    }
    match number::parse_signed(fields[7].as_str()) {
        Some(code) => {
            if code < 0 || code > 255 {
                return Lookup::Malformed("Invalid shell exit status".to_owned());
            }
            workspace.exit_code = Some(code);
            Lookup::Found(workspace)
        },
        None => Lookup::Malformed("Invalid shell exit status".to_owned()),
    }
}

/// Looks a workspace up. If its shell has exited without a known status, the
/// server is asked once to look after its children, and the lookup is repeated.
pub open spec fn lookup_run(t: Transcript, backend: BackendView, id: Seq<char>, refresh: bool) -> (
    Transcript,
    Result<WorkspaceView, WorkspaceHalt>,
)
    decreases
            (if refresh {
                1int
            } else {
                0
            }),
{
    if !is_token(id) {
        (t, Err(token_failure()))
    } else {
        let (t, r) = command_run(t, backend, lookup_command(id));
        match r {
            Err(halt) => (t, Err(halt)),
            Ok(output) => match lookup_output(id, output) {
                LookupView::Absent => (
                    t,
                    Err(failed(ErrorKind::NotFound, "Workspace no longer exists"@)),
                ),
                LookupView::Malformed(message) => (t, Err(failed(ErrorKind::Failed, message))),
                LookupView::Found(workspace) => (t, Ok(workspace)),
                LookupView::Unreaped(workspace) => if refresh {
                    let (t, r) = command_run(t, backend, refresh_command(id));
                    match r {
                        Err(halt) => (t, Err(halt)),
                        Ok(_) => lookup_run(t, backend, id, false),
                    }
                } else {
                    (t, Ok(workspace))
                },
            },
        }
    }
}

impl Backend {
    pub(crate) fn lookup(&self, script: &mut Script, id: &str, refresh: bool) -> (r: Result<
        Workspace,
        Halt<Error>,
    >)
        ensures
            (final(script).deep_view(), outcome(r)) == lookup_run(
                old(script).deep_view(),
                self.deep_view(),
                id@,
                refresh,
            ),
        decreases
                (if refresh {
                    1int
                } else {
                    0
                }),
    {
        if !token(id) {
            return Err(token_halt());
        }
        let command = vec![
            "display-message".to_owned(),
            "-p".to_owned(),
            "-t".to_owned(),
            target_of(id),
            FORMAT.to_owned(),
        ];
        assert(text::texts(command@) =~= lookup_command(id@));
        let output = self.run(script, command)?;
        match parse_lookup(id, output.as_str()) {
            Lookup::Absent => Err(fail(ErrorKind::NotFound, "Workspace no longer exists")),
            Lookup::Malformed(message) => Err(fail(ErrorKind::Failed, message.as_str())),
            Lookup::Found(workspace) => Ok(workspace),
            Lookup::Unreaped(workspace) => {
                if !refresh {
                    return Ok(workspace);
                }
                let command = vec![
                    "run-shell".to_owned(),
                    "-t".to_owned(),
                    target_of(id),
                    "kill -CHLD #{pid}".to_owned(),
                ];
                assert(text::texts(command@) =~= refresh_command(id@));
                self.run(script, command)?;
                self.lookup(script, id, false)
            },
        }
    }
}

// ---------------------------------------------------------------------------
// The version of tmux
// ---------------------------------------------------------------------------

/// The digits that a text begins with.
pub open spec fn leading_digits(s: Seq<char>) -> Seq<char>
    decreases s.len(),
{
    if s.len() > 0 && number::is_decimal_digit(s[0]) {
        Seq::empty().push(s[0]) + leading_digits(s.drop_first())
    } else {
        Seq::empty()
    }
}

fn digits_at_start(s: &str) -> (out: String)
    ensures
        out@ == leading_digits(s@),
{
    let c = text::characters(s);
    let mut out: String = String::new();
    let mut i: usize = 0;
    assert(c@.skip(0) =~= c@);
    assert(out@ + leading_digits(c@) =~= leading_digits(c@));
    while i < c.len() && '0' <= c[i] && c[i] <= '9'
        invariant
            i <= c@.len(),
            leading_digits(c@) == out@ + leading_digits(c@.skip(i as int)),
        decreases c@.len() - i,
    {
        let ghost held = out@;
        assert(c@.skip(i as int)[0] == c@[i as int]);
        assert(c@.skip(i as int).drop_first() =~= c@.skip(i + 1));
        out.push(c[i]);
        assert(held + (Seq::empty().push(c@[i as int]) + leading_digits(c@.skip(i + 1))) =~= out@
            + leading_digits(c@.skip(i + 1)));
        i += 1;
    }
    assert(out@ + Seq::<char>::empty() =~= out@);
    out
}

/// A number that is zero where a text denotes none.
pub open spec fn number_or_zero(s: Seq<char>) -> nat {
    match number::parsed(s, u32::MAX as nat) {
        Some(n) => n,
        None => 0,
    }
}

/// The major and the minor version in tmux's output.
pub open spec fn version_of(output: Seq<char>) -> (nat, nat) {
    let line = text::trimmed(output);
    let version = if text::begins_with(line, "tmux "@) {
        line.skip("tmux "@.len() as int)
    } else {
        Seq::empty()
    };
    let parts = text::split_by(version, '.');
    (
        number_or_zero(parts[0]),
        if parts.len() > 1 {
            number_or_zero(leading_digits(parts[1]))
        } else {
            0
        },
    )
}

/// A version of tmux that persistent workspaces work with.
pub open spec fn supported_version(version: (nat, nat)) -> bool {
    version.0 > 3 || (version.0 == 3 && version.1 >= 2)
}

/// Whether tmux's output names a version that persistent workspaces work with.
pub fn supports_workspaces(output: &str) -> (r: bool)
    ensures
        r == supported_version(version_of(output@)),
{
    let line = text::trim(output);
    let version = match text::strip_prefix(line.as_str(), "tmux ") {
        Some(rest) => {
            assert(line@.skip("tmux "@.len() as int) =~= rest@);
            assert(text::begins_with(line@, "tmux "@)) by {
                assert(line@.take("tmux "@.len() as int) =~= "tmux "@);
            }
            rest
        },
        None => String::new(),
    };
    assert(version@ =~= (if text::begins_with(line@, "tmux "@) {
        line@.skip("tmux "@.len() as int)
    } else {
        Seq::empty()
    }));
    let parts = text::split(version.as_str(), '.');
    let ghost model = text::split_by(version@, '.');
    assert(forall|i: int| 0 <= i < parts@.len() ==> model[i] == parts@[i]@);
    assert(model.len() == parts@.len());
    let major: u64 = match number::parse(parts[0].as_str(), u32::MAX as u64) {
        Some(n) => n,
        None => 0,
    };
    let minor: u64 = if parts.len() > 1 {
        match number::parse(digits_at_start(parts[1].as_str()).as_str(), u32::MAX as u64) {
            Some(n) => n,
            None => 0,
        }
    } else {
        0
    };
    major > 3 || (major == 3 && minor >= 2)
}

pub open spec fn version_command() -> Seq<Seq<char>> {
    Seq::<Seq<char>>::empty().push("-V"@)
}

/// Checks that tmux is there and recent enough.
pub open spec fn probe_run(t: Transcript, backend: BackendView) -> (
    Transcript,
    Result<(), WorkspaceHalt>,
) {
    let (t, r) = command_run(t, backend, version_command());
    (
        t,
        match r {
            Err(halt) => Err(halt),
            Ok(output) => if supported_version(version_of(output)) {
                Ok(())
            } else {
                Err(
                    failed(
                        ErrorKind::Unavailable,
                        "Persistent workspaces require tmux 3.2 or newer"@,
                    ),
                )
            },
        },
    )
}

// ---------------------------------------------------------------------------
// Creation
// ---------------------------------------------------------------------------

/// The hexadecimal form of random bytes.
pub open spec fn token_text(bytes: Seq<u8>) -> Seq<char> {
    number::hex_bytes_text(bytes, ""@)
}

/// A new identity, of sixteen random bytes.
pub open spec fn random_token_run(t: Transcript) -> (Transcript, Result<Seq<char>, WorkspaceHalt>) {
    let (t, r) = ask_bytes(t, CallView::RandomBytes);
    (
        t,
        match r {
            Ok(bytes) => if bytes.len() == 16 {
                Ok(token_text(bytes))
            } else {
                Err(
                    failed(
                        ErrorKind::Failed,
                        "Could not generate workspace identity: failed to fill whole buffer"@,
                    ),
                )
            },
            Err(Halt::Waiting) => Err(Halt::Waiting),
            Err(Halt::Failed(error)) => Err(
                failed(
                    ErrorKind::Failed,
                    "Could not generate workspace identity: "@ + error.message,
                ),
            ),
        },
    )
}

pub(crate) fn random_token(script: &mut Script) -> (r: Result<String, Halt<Error>>)
    ensures
        (final(script).deep_view(), outcome(r)) == random_token_run(old(script).deep_view()),
        r matches Ok(value) ==> is_token(value@),
{
    broadcast use crate::bytes::bytes_deep_view;

    match script.bytes(Call::RandomBytes) {
        Ok(data) => {
            if data.len() != 16 {
                return Err(
                    fail(
                        ErrorKind::Failed,
                        "Could not generate workspace identity: failed to fill whole buffer",
                    ),
                );
            }
            proof {
                lemma_token_text(data@);
            }
            Ok(number::hex_bytes(data.as_slice(), ""))
        },
        Err(Halt::Waiting) => Err(Halt::Waiting),
        Err(Halt::Failed(error)) => Err(
            fail(
                ErrorKind::Failed,
                text::joined(
                    "Could not generate workspace identity: ",
                    error.message.as_str(),
                ).as_str(),
            ),
        ),
    }
}

/// The hexadecimal form of bytes has two digits for each.
pub proof fn lemma_token_text(bytes: Seq<u8>)
    ensures
        token_text(bytes).len() == 2 * bytes.len(),
        number::all_hex(token_text(bytes)),
    decreases bytes.len(),
{
    reveal_strlit("");
    if bytes.len() > 0 {
        number::lemma_hex_shape(bytes.last() as nat, 2);
        if bytes.len() > 1 {
            lemma_token_text(bytes.drop_last());
        }
    }
}

/// The command that creates a session with its environment and shell in one step:
/// a retry never finds a workspace that waits for a second command.
pub open spec fn create_command(
    id: Seq<char>,
    generation: Seq<char>,
    directory: Option<Seq<char>>,
    command: Option<Seq<char>>,
) -> Seq<Seq<char>> {
    let base = Seq::<Seq<char>>::empty().push("new-session"@).push("-d"@).push("-s"@).push(
        session_name(id),
    ).push("-x"@).push("120"@).push("-y"@).push("35"@).push("-e"@).push(
        "WARP_WORKSPACE_GENERATION="@ + generation,
    );
    let placed = match directory {
        Some(path) => base.push("-c"@).push(path),
        None => base,
    };
    match command {
        Some(command) => placed.push(command),
        None => placed,
    }
}

pub open spec fn directory_failure() -> WorkspaceHalt {
    failed(
        ErrorKind::InvalidRequest,
        "Working directory must be an existing absolute UTF-8 path"@,
    )
}

/// Checks the directory in which a workspace is to start.
pub open spec fn directory_run(t: Transcript, directory: Option<Seq<char>>) -> (
    Transcript,
    Result<(), WorkspaceHalt>,
) {
    match directory {
        None => (t, Ok(())),
        Some(path) => if !is_absolute(path) {
            (t, Err(directory_failure()))
        } else {
            let (t, r) = ask_flag(t, CallView::Path(PathAction::IsDirectory, path));
            (
                t,
                match r {
                    Ok(true) => Ok(()),
                    Ok(false) => Err(directory_failure()),
                    Err(halt) => Err(system_failure(halt)),
                },
            )
        },
    }
}

pub(crate) fn check_directory(script: &mut Script, directory: Option<&str>) -> (r: Result<
    (),
    Halt<Error>,
>)
    ensures
        (final(script).deep_view(), outcome(r)) == directory_run(
            old(script).deep_view(),
            directory.deep_view(),
        ),
{
    if let Some(path) = directory {
        let exists = if absolute(path) {
            match script.path_flag(PathAction::IsDirectory, path) {
                Ok(exists) => exists,
                Err(halt) => return Err(system_halt(halt)),
            }
        } else {
            false
        };
        if !exists {
            return Err(
                fail(
                    ErrorKind::InvalidRequest,
                    "Working directory must be an existing absolute UTF-8 path",
                ),
            );
        }
    }
    Ok(())
}

pub open spec fn is_kind(halt: WorkspaceHalt, kind: ErrorKind) -> bool {
    halt matches Halt::Failed(error) && error.kind == kind
}

pub(crate) fn has_kind(halt: &Halt<Error>, kind: ErrorKind) -> (r: bool)
    ensures
        r == is_kind(halt.deep_view(), kind),
{
    match halt {
        Halt::Failed(error) => error.kind == kind,
        Halt::Waiting => false,
    }
}

/// The generation of a new workspace: the given one, or a random one.
pub open spec fn generation_run(t: Transcript, generation: Option<Seq<char>>) -> (
    Transcript,
    Result<Seq<char>, WorkspaceHalt>,
) {
    match generation {
        Some(value) => if is_token(value) {
            (t, Ok(value))
        } else {
            (t, Err(token_failure()))
        },
        None => random_token_run(t),
    }
}

/// Creates a session that was not there. If that fails, another creation of the
/// same workspace may have come first: then that one counts.
pub open spec fn new_session_run(
    t: Transcript,
    backend: BackendView,
    id: Seq<char>,
    command: Seq<Seq<char>>,
) -> (Transcript, Result<WorkspaceView, WorkspaceHalt>) {
    let (t, created) = command_run(t, backend, command);
    match created {
        Ok(_) => lookup_run(t, backend, id, true),
        Err(Halt::Waiting) => (t, Err(Halt::Waiting)),
        Err(Halt::Failed(error)) => {
            let (t, found) = lookup_run(t, backend, id, true);
            match found {
                Ok(workspace) => (t, Ok(workspace)),
                Err(Halt::Waiting) => (t, Err(Halt::Waiting)),
                Err(Halt::Failed(_)) => (t, Err(Halt::Failed(error))),
            }
        },
    }
}

/// Creates a workspace, or gives the one that is there.
pub open spec fn create_run(
    t: Transcript,
    backend: BackendView,
    id: Seq<char>,
    directory: Option<Seq<char>>,
    generation: Option<Seq<char>>,
    command: Option<Seq<char>>,
) -> (Transcript, Result<WorkspaceView, WorkspaceHalt>) {
    if !is_token(id) {
        (t, Err(token_failure()))
    } else {
        let (t, checked) = directory_run(t, directory);
        match checked {
            Err(halt) => (t, Err(halt)),
            Ok(_) => {
                let (t, found) = lookup_run(t, backend, id, true);
                match found {
                    Ok(workspace) => (t, Ok(workspace)),
                    Err(halt) => if !is_kind(halt, ErrorKind::NotFound) {
                        (t, Err(halt))
                    } else {
                        let (t, probed) = probe_run(t, backend);
                        match probed {
                            Err(halt) => (t, Err(halt)),
                            Ok(_) => {
                                let (t, chosen) = generation_run(t, generation);
                                match chosen {
                                    Err(halt) => (t, Err(halt)),
                                    Ok(generation) => new_session_run(
                                        t,
                                        backend,
                                        id,
                                        create_command(id, generation, directory, command),
                                    ),
                                }
                            },
                        }
                    },
                }
            },
        }
    }
}

impl Backend {
    /// Checks that tmux is there and recent enough.
    pub fn probe(&self, script: &mut Script) -> (r: Result<(), Halt<Error>>)
        ensures
            (final(script).deep_view(), outcome(r)) == probe_run(
                old(script).deep_view(),
                self.deep_view(),
            ),
    {
        let command = vec!["-V".to_owned()];
        assert(text::texts(command@) =~= version_command());
        let output = self.run(script, command)?;
        if !supports_workspaces(output.as_str()) {
            return Err(
                fail(
                    ErrorKind::Unavailable,
                    "Persistent workspaces require tmux 3.2 or newer",
                ),
            );
        }
        Ok(())
    }

    /// Creates a workspace with a random generation, or gives the one that is there.
    pub fn create(&self, script: &mut Script, id: &str, directory: Option<&str>) -> (r: Result<
        Workspace,
        Halt<Error>,
    >)
        ensures
            (final(script).deep_view(), outcome(r)) == create_run(
                old(script).deep_view(),
                self.deep_view(),
                id@,
                directory.deep_view(),
                None,
                None,
            ),
    {
        self.create_with_startup(script, id, directory, None, None)
    }

    pub(crate) fn create_with_startup(
        &self,
        script: &mut Script,
        id: &str,
        directory: Option<&str>,
        generation: Option<&str>,
        command: Option<&str>,
    ) -> (r: Result<Workspace, Halt<Error>>)
        ensures
            (final(script).deep_view(), outcome(r)) == create_run(
                old(script).deep_view(),
                self.deep_view(),
                id@,
                directory.deep_view(),
                generation.deep_view(),
                command.deep_view(),
            ),
    {
        if !token(id) {
            return Err(token_halt());
        }
        check_directory(script, directory)?;
        match self.lookup(script, id, true) {
            Ok(workspace) => return Ok(workspace),
            Err(halt) => {
                if !has_kind(&halt, ErrorKind::NotFound) {
                    return Err(halt);
                }
            },
        }
        self.probe(script)?;
        let chosen = match generation {
            Some(value) => {
                if !token(value) {
                    return Err(token_halt());
                }
                value.to_owned()
            },
            None => random_token(script)?,
        };
        let mut arguments = vec![
            "new-session".to_owned(),
            "-d".to_owned(),
            "-s".to_owned(),
            text::joined(PREFIX, id),
            "-x".to_owned(),
            "120".to_owned(),
            "-y".to_owned(),
            "35".to_owned(),
            "-e".to_owned(),
            text::joined("WARP_WORKSPACE_GENERATION=", chosen.as_str()),
        ];
        if let Some(path) = directory {
            arguments.push("-c".to_owned());
            arguments.push(path.to_owned());
        }
        if let Some(command_line) = command {
            arguments.push(command_line.to_owned());
        }
        assert(text::texts(arguments@) =~= create_command(
            id@,
            chosen@,
            directory.deep_view(),
            command.deep_view(),
        ));
        match self.run(script, arguments) {
            Ok(_) => self.lookup(script, id, true),
            Err(Halt::Waiting) => Err(Halt::Waiting),
            Err(Halt::Failed(error)) => match self.lookup(script, id, true) {
                Ok(workspace) => Ok(workspace),
                Err(Halt::Waiting) => Err(Halt::Waiting),
                Err(Halt::Failed(_)) => Err(Halt::Failed(error)),
            },
        }
    }
}

// ---------------------------------------------------------------------------
// The list of workspaces
// ---------------------------------------------------------------------------

/// Puts a workspace into a list that is ordered by identity, behind its equals.
pub open spec fn inserted(list: Seq<WorkspaceView>, workspace: WorkspaceView) -> Seq<WorkspaceView>
    decreases list.len(),
{
    if list.len() == 0 || !text::precedes(workspace.id, list.last().id) {
        list.push(workspace)
    } else {
        inserted(list.drop_last(), workspace).push(list.last())
    }
}

/// The workspaces in the order of their identities.
pub open spec fn ordered(list: Seq<WorkspaceView>) -> Seq<WorkspaceView>
    decreases list.len(),
{
    if list.len() == 0 {
        list
    } else {
        inserted(ordered(list.drop_last()), list.last())
    }
}

pub open spec fn is_ordered(list: Seq<WorkspaceView>) -> bool {
    forall|i: int, j: int|
        0 <= i < j < list.len() ==> !text::precedes(
            (#[trigger] list[j]).id,
            (#[trigger] list[i]).id,
        )
}

proof fn lemma_inserted(list: Seq<WorkspaceView>, workspace: WorkspaceView)
    requires
        is_ordered(list),
    ensures
        is_ordered(inserted(list, workspace)),
        inserted(list, workspace).to_multiset() == list.to_multiset().insert(workspace),
        inserted(list, workspace).len() == list.len() + 1,
        forall|i: int|
            0 <= i < inserted(list, workspace).len() ==> (#[trigger] inserted(list, workspace)[i]
                == workspace || list.contains(inserted(list, workspace)[i])),
    decreases list.len(),
{
    broadcast use vstd::seq_lib::group_to_multiset_ensures;

    if list.len() == 0 || !text::precedes(workspace.id, list.last().id) {
        assert forall|i: int, j: int| 0 <= i < j < list.push(workspace).len() implies !text::precedes(
            (#[trigger] list.push(workspace)[j]).id,
            (#[trigger] list.push(workspace)[i]).id,
        ) by {
            if j == list.len() && i < list.len() - 1 {
                // What is not after the last one is not after those before it.
                let a = list[i].id;
                let b = list.last().id;
                let c = workspace.id;
                text::lemma_precedes_total(a, b);
                text::lemma_precedes_total(b, c);
                if text::precedes(c, a) {
                    if a == b {
                    } else if b == c {
                        assert(!text::precedes(b, a));
                    } else {
                        text::lemma_precedes_transitive(c, a, b);
                    }
                }
            }
        }
    } else {
        let shorter = list.drop_last();
        let last = list.last();
        lemma_inserted(shorter, workspace);
        let out = inserted(shorter, workspace);
        assert(list =~= shorter.push(last));
        assert forall|i: int, j: int| 0 <= i < j < out.push(last).len() implies !text::precedes(
            (#[trigger] out.push(last)[j]).id,
            (#[trigger] out.push(last)[i]).id,
        ) by {
            if j == out.len() {
                if out[i] == workspace {
                    text::lemma_precedes_total(workspace.id, last.id);
                } else {
                    let k = choose|k: int| 0 <= k < shorter.len() && shorter[k] == out[i];
                    assert(list[k] == out[i]);
                    assert(list[list.len() - 1] == last);
                }
            }
        }
        assert(out.push(last).to_multiset() =~= list.to_multiset().insert(workspace));
        assert forall|i: int| 0 <= i < out.push(last).len() implies (#[trigger] out.push(last)[i]
            == workspace || list.contains(out.push(last)[i])) by {
            if i < out.len() {
                if out[i] != workspace {
                    let k = choose|k: int| 0 <= k < shorter.len() && shorter[k] == out[i];
                    assert(list[k] == out[i]);
                }
            } else {
                assert(list[list.len() - 1] == last);
            }
        }
    }
}

/// The list of workspaces is in the order of their identities, and holds each as
/// often as it was found.
pub proof fn listing_is_ordered(list: Seq<WorkspaceView>)
    ensures
        is_ordered(ordered(list)),
        ordered(list).to_multiset() == list.to_multiset(),
    decreases list.len(),
{
    broadcast use vstd::seq_lib::group_to_multiset_ensures;

    if list.len() > 0 {
        listing_is_ordered(list.drop_last());
        lemma_inserted(ordered(list.drop_last()), list.last());
        assert(list =~= list.drop_last().push(list.last()));
    }
}

fn insert_ordered(list: &mut Vec<Workspace>, workspace: Workspace)
    ensures
        final(list).deep_view() == inserted(old(list).deep_view(), workspace.deep_view()),
{
    let ghost model = list.deep_view();
    let ghost item = workspace.deep_view();
    let mut at: usize = list.len();
    assert(model.take(model.len() as int) =~= model);
    assert(inserted(model, item) =~= inserted(model, item) + model.skip(model.len() as int));
    while at > 0 && text::before(workspace.id.as_str(), list[at - 1].id.as_str())
        invariant
            at <= list@.len(),
            model == list.deep_view(),
            item == workspace.deep_view(),
            inserted(model, item) == inserted(model.take(at as int), item) + model.skip(
                at as int,
            ),
        decreases at,
    {
        let ghost front = model.take(at as int);
        assert(front.last() == model[at - 1]);
        assert(front.drop_last() =~= model.take(at - 1));
        assert(inserted(front, item) == inserted(model.take(at - 1), item).push(model[at - 1]));
        assert(inserted(model.take(at - 1), item).push(model[at - 1]) + model.skip(at as int)
            =~= inserted(model.take(at - 1), item) + model.skip(at - 1));
        at -= 1;
    }
    let ghost front = model.take(at as int);
    assert(at > 0 ==> front.last() == model[at - 1]);
    assert(inserted(front, item) == front.push(item));
    list.insert(at, workspace);
    assert(list.deep_view() =~= front.push(item) + model.skip(at as int));
}

fn put_in_order(found: Vec<Workspace>) -> (list: Vec<Workspace>)
    ensures
        list.deep_view() == ordered(found.deep_view()),
{
    let ghost model = found.deep_view();
    let mut list: Vec<Workspace> = Vec::new();
    let ghost mut done: int = 0;
    assert(list.deep_view() =~= ordered(model.take(0)));
    for workspace in it: found
        invariant
            it.seq() == found@,
            done == it.index(),
            model == found.deep_view(),
            list.deep_view() == ordered(model.take(done)),
    {
        assert(model.take(done + 1).drop_last() =~= model.take(done));
        assert(model.take(done + 1).last() == workspace.deep_view());
        insert_ordered(&mut list, workspace);
        proof {
            done = done + 1;
        }
    }
    assert(model.take(done) =~= model);
    list
}

pub open spec fn sessions_command() -> Seq<Seq<char>> {
    Seq::<Seq<char>>::empty().push("list-sessions"@).push("-F"@).push("#{session_name}"@)
}

/// The identity of the workspace whose session has this name, if it is one.
pub open spec fn managed_id(name: Seq<char>) -> Option<Seq<char>> {
    if text::begins_with(name, PREFIX@) && is_token(name.skip(PREFIX@.len() as int)) {
        Some(name.skip(PREFIX@.len() as int))
    } else {
        None
    }
}

fn id_of_session(name: &str) -> (r: Option<String>)
    ensures
        r.deep_view() == managed_id(name@),
{
    match text::strip_prefix(name, PREFIX) {
        None => None,
        Some(id) => {
            assert(name@.skip(PREFIX@.len() as int) =~= id@);
            assert(name@.take(PREFIX@.len() as int) =~= PREFIX@);
            if token(id.as_str()) {
                Some(id)
            } else {
                None
            }
        },
    }
}

/// Looks up the workspaces among these sessions, behind those that were found.
pub open spec fn collect_run(
    t: Transcript,
    backend: BackendView,
    names: Seq<Seq<char>>,
    found: Seq<WorkspaceView>,
) -> (Transcript, Result<Seq<WorkspaceView>, WorkspaceHalt>)
    decreases names.len(),
{
    if names.len() == 0 {
        (t, Ok(found))
    } else {
        match managed_id(names[0]) {
            None => collect_run(t, backend, names.drop_first(), found),
            Some(id) => {
                let (t, r) = lookup_run(t, backend, id, true);
                match r {
                    Ok(workspace) => if found.len() >= 1024 {
                        (t, Err(failed(ErrorKind::Failed, "Too many managed workspaces"@)))
                    } else {
                        collect_run(t, backend, names.drop_first(), found.push(workspace))
                    },
                    Err(halt) => if is_kind(halt, ErrorKind::NotFound) {
                        collect_run(t, backend, names.drop_first(), found)
                    } else {
                        (t, Err(halt))
                    },
                }
            },
        }
    }
}

/// Lists the workspaces. Without a server there are none; without tmux it is an error.
pub open spec fn list_run(t: Transcript, backend: BackendView) -> (
    Transcript,
    Result<Seq<WorkspaceView>, WorkspaceHalt>,
) {
    let (t, r) = command_run(t, backend, sessions_command());
    match r {
        Err(halt) => if is_kind(halt, ErrorKind::NotFound) {
            (t, Ok(Seq::empty()))
        } else {
            (t, Err(halt))
        },
        Ok(output) => {
            let (t, r) = collect_run(t, backend, text::lines_of(output), Seq::empty());
            (
                t,
                match r {
                    Ok(found) => Ok(ordered(found)),
                    Err(halt) => Err(halt),
                },
            )
        },
    }
}

// ---------------------------------------------------------------------------
// One incarnation
// ---------------------------------------------------------------------------

/// Finds exactly this incarnation of a workspace.
pub open spec fn resolve_run(
    t: Transcript,
    backend: BackendView,
    id: Seq<char>,
    generation: Seq<char>,
) -> (Transcript, Result<WorkspaceView, WorkspaceHalt>) {
    if !is_token(id) || !is_token(generation) {
        (t, Err(token_failure()))
    } else {
        let (t, r) = lookup_run(t, backend, id, true);
        (
            t,
            match r {
                Err(halt) => Err(halt),
                Ok(workspace) => if workspace.generation != generation {
                    Err(
                        failed(
                            ErrorKind::Stale,
                            "The workspace was replaced; refresh the workspace list"@,
                        ),
                    )
                } else {
                    Ok(workspace)
                },
            },
        )
    }
}

/// A command that runs `command` on exactly this incarnation: tmux checks the
/// generation on the same connection that runs it.
pub open spec fn guarded_command(
    id: Seq<char>,
    generation: Seq<char>,
    command: Seq<char>,
) -> Seq<Seq<char>> {
    Seq::<Seq<char>>::empty().push("if-shell"@).push("-F"@).push("-t"@).push(target(id)).push(
        generation_guard(generation),
    ).push(command).push("display-message -p STALE_WORKSPACE"@)
}

/// Runs a command on exactly this incarnation.
pub open spec fn on_incarnation_run(
    t: Transcript,
    backend: BackendView,
    id: Seq<char>,
    generation: Seq<char>,
    command: Seq<char>,
    stale: Seq<char>,
) -> (Transcript, Result<(), WorkspaceHalt>) {
    let (t, r) = command_run(t, backend, guarded_command(id, generation, command));
    (
        t,
        match r {
            Err(halt) => Err(halt),
            Ok(response) => if text::has_text(response, "STALE_WORKSPACE"@) {
                Err(failed(ErrorKind::Stale, stale))
            } else {
                Ok(())
            },
        },
    )
}

/// Ends exactly this incarnation of a workspace.
pub open spec fn terminate_run(
    t: Transcript,
    backend: BackendView,
    id: Seq<char>,
    generation: Seq<char>,
) -> (Transcript, Result<(), WorkspaceHalt>) {
    let (t, r) = resolve_run(t, backend, id, generation);
    match r {
        Err(halt) => (t, Err(halt)),
        Ok(workspace) => on_incarnation_run(
            t,
            backend,
            id,
            generation,
            "kill-session -t "@ + workspace.session_id,
            "Workspace incarnation changed before deletion"@,
        ),
    }
}

impl Backend {
    /// Lists the workspaces in the order of their identities.
    pub fn list(&self, script: &mut Script) -> (r: Result<Vec<Workspace>, Halt<Error>>)
        ensures
            (final(script).deep_view(), outcome(r)) == list_run(
                old(script).deep_view(),
                self.deep_view(),
            ),
    {
        let command = vec![
            "list-sessions".to_owned(),
            "-F".to_owned(),
            "#{session_name}".to_owned(),
        ];
        assert(text::texts(command@) =~= sessions_command());
        let output = match self.run(script, command) {
            Ok(output) => output,
            Err(halt) => {
                if has_kind(&halt, ErrorKind::NotFound) {
                    let none: Vec<Workspace> = Vec::new();
                    assert(none.deep_view() =~= Seq::empty());
                    return Ok(none);
                }
                return Err(halt);
            },
        };
        let names = text::lines(output.as_str());
        let found = self.collect(script, &names)?;
        Ok(put_in_order(found))
    }

    fn collect(&self, script: &mut Script, names: &Vec<String>) -> (r: Result<
        Vec<Workspace>,
        Halt<Error>,
    >)
        ensures
            (final(script).deep_view(), outcome(r)) == collect_run(
                old(script).deep_view(),
                self.deep_view(),
                text::texts(names@),
                Seq::empty(),
            ),
    {
        let ghost model = text::texts(names@);
        let mut found: Vec<Workspace> = Vec::new();
        let mut i: usize = 0;
        assert(found.deep_view() =~= Seq::empty());
        assert(model.skip(0) =~= model);
        while i < names.len()
            invariant
                model == text::texts(names@),
                i <= names@.len(),
                collect_run(old(script).deep_view(), self.deep_view(), model, Seq::empty())
                    == collect_run(
                    script.deep_view(),
                    self.deep_view(),
                    model.skip(i as int),
                    found.deep_view(),
                ),
            decreases names@.len() - i,
        {
            assert(model.skip(i as int)[0] == names@[i as int]@);
            assert(model.skip(i as int).drop_first() =~= model.skip(i + 1));
            if let Some(id) = id_of_session(names[i].as_str()) {
                let ghost held = found.deep_view();
                match self.lookup(script, id.as_str(), true) {
                    Ok(workspace) => {
                        if found.len() >= 1024 {
                            return Err(fail(ErrorKind::Failed, "Too many managed workspaces"));
                        }
                        found.push(workspace);
                        assert(found.deep_view() =~= held.push(workspace.deep_view()));
                    },
                    Err(halt) => {
                        if !has_kind(&halt, ErrorKind::NotFound) {
                            return Err(halt);
                        }
                    },
                }
            }
            i += 1;
        }
        Ok(found)
    }

    /// Finds exactly this incarnation of a workspace.
    pub fn resolve(&self, script: &mut Script, id: &str, generation: &str) -> (r: Result<
        Workspace,
        Halt<Error>,
    >)
        ensures
            (final(script).deep_view(), outcome(r)) == resolve_run(
                old(script).deep_view(),
                self.deep_view(),
                id@,
                generation@,
            ),
    {
        if !token(id) || !token(generation) {
            return Err(token_halt());
        }
        let workspace = self.lookup(script, id, true)?;
        if !text::same(workspace.generation.as_str(), generation) {
            return Err(
                fail(
                    ErrorKind::Stale,
                    "The workspace was replaced; refresh the workspace list",
                ),
            );
        }
        Ok(workspace)
    }

    /// Ends exactly this incarnation of a workspace.
    pub fn terminate(&self, script: &mut Script, id: &str, generation: &str) -> (r: Result<
        (),
        Halt<Error>,
    >)
        ensures
            (final(script).deep_view(), outcome(r)) == terminate_run(
                old(script).deep_view(),
                self.deep_view(),
                id@,
                generation@,
            ),
    {
        let workspace = self.resolve(script, id, generation)?;
        let kill = text::joined("kill-session -t ", workspace.session_id.as_str());
        self.on_incarnation(
            script,
            id,
            generation,
            kill.as_str(),
            "Workspace incarnation changed before deletion",
        )
    }

    pub(crate) fn on_incarnation(
        &self,
        script: &mut Script,
        id: &str,
        generation: &str,
        command: &str,
        stale: &str,
    ) -> (r: Result<(), Halt<Error>>)
        ensures
            (final(script).deep_view(), outcome(r)) == on_incarnation_run(
                old(script).deep_view(),
                self.deep_view(),
                id@,
                generation@,
                command@,
                stale@,
            ),
    {
        let arguments = vec![
            "if-shell".to_owned(),
            "-F".to_owned(),
            "-t".to_owned(),
            target_of(id),
            guard_of(generation),
            command.to_owned(),
            "display-message -p STALE_WORKSPACE".to_owned(),
        ];
        assert(text::texts(arguments@) =~= guarded_command(id@, generation@, command@));
        let response = self.run(script, arguments)?;
        if text::contains(response.as_str(), "STALE_WORKSPACE") {
            return Err(fail(ErrorKind::Stale, stale));
        }
        Ok(())
    }
}

} // verus!
