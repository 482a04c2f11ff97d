//! The commands that the tmux client is given, word for word, and what its answers mean.

use crate::bytes;
use crate::host::{ask_done, continues, CallView, ProcessAction, Transcript};
use crate::journal::RetentionPolicy;
use crate::journal::finalization::recorder_request;
use crate::number;
use crate::paths::quoted;
use crate::text;
use crate::workspace::command::{command_result, command_run};
use crate::workspace::laws::{lemma_command_adds, Calls};
use crate::workspace::lifecycle_laws::lemma_await_journal_adds;
use crate::workspace::recording::{executable_run, new_recorder_run, resize_run, send_input_run};
use crate::workspace::sessions::{
    create_run, directory_run, is_kind, is_token, lookup_run, on_incarnation_run, probe_run,
    resolve_run, supported_version, terminate_run, version_of, WorkspaceView,
};
use crate::workspace::{BackendView, ErrorKind};
use vstd::prelude::*;
use vstd::string::*;

verus! {

/// The words of a command line.
pub open spec fn line_of(a: Seq<char>, b: Seq<char>, c: Seq<char>, d: Seq<char>) -> Seq<
    Seq<char>,
> {
    Seq::<Seq<char>>::empty().push(a).push(b).push(c).push(d)
}

/// What comes after `t` begins by running this command line of the backend's tmux, on its
/// socket and with no configuration.
pub open spec fn runs(
    t: Transcript,
    next: Transcript,
    backend: BackendView,
    words: Seq<Seq<char>>,
) -> bool {
    let k = t.calls.len() as int;
    &&& next.calls.len() > k
    &&& next.calls[k] == CallView::Process(ProcessAction::Streams)
    &&& k < t.replies.len() && t.replies[k] is Done ==> next.calls.len() > k + 1 && next.calls[k
        + 1] == CallView::Spawn(
        backend.executable,
        line_of("-L"@, backend.socket, "-f"@, "/dev/null"@) + words,
    )
}

proof fn lemma_runs(t: Transcript, backend: BackendView, words: Seq<Seq<char>>)
    ensures
        runs(t, command_run(t, backend, words).0, backend, words),
        continues(t, command_run(t, backend, words).0),
{
    let any: Calls = |call: CallView| true;
    lemma_command_adds(t, backend, words, any);
    let next = command_run(t, backend, words).0;
    let (t1, made) = ask_done(t, CallView::Process(ProcessAction::Streams));
    if made is Ok {
        let start = CallView::Spawn(
            backend.executable,
            crate::workspace::command::client_arguments(backend.socket, words),
        );
        let (t2, started) = ask_done(t1, start);
        if started is Ok {
            crate::workspace::laws::lemma_supervised_adds(t2, backend.timeout, any);
            let end = crate::workspace::command::supervised_run(t2, backend.timeout).0;
            assert(end.calls.take(t2.calls.len() as int)[t.calls.len() as int]
                == end.calls[t.calls.len() as int]);
            assert(end.calls.take(t2.calls.len() as int)[t.calls.len() as int + 1]
                == end.calls[t.calls.len() as int + 1]);
        }
    }
}

/// What continues a beginning runs what the beginning ran.
proof fn lemma_runs_on(
    t: Transcript,
    next: Transcript,
    last: Transcript,
    backend: BackendView,
    words: Seq<Seq<char>>,
)
    requires
        runs(t, next, backend, words),
        continues(next, last),
    ensures
        runs(t, last, backend, words),
{
    let k = t.calls.len() as int;
    assert(last.calls.take(next.calls.len() as int)[k] == last.calls[k]);
    if next.calls.len() > k + 1 {
        assert(last.calls.take(next.calls.len() as int)[k + 1] == last.calls[k + 1]);
    }
}

/// A workspace is looked up by its name, in exactly its session's only pane, and every field
/// of its description is asked for.
pub proof fn lookups_ask_for_every_field(
    t: Transcript,
    backend: BackendView,
    id: Seq<char>,
    refresh: bool,
)
    requires
        is_token(id),
    ensures
        runs(
            t,
            lookup_run(t, backend, id, refresh).0,
            backend,
            line_of("display-message"@, "-p"@, "-t"@, "=ew-"@ + id + ":0.0"@).push(
                "#{session_name}|#{WARP_WORKSPACE_GENERATION}|#{session_id}|#{window_id}|#{pane_id}|#{pane_pid}|#{pane_dead}|#{pane_dead_status}|#{pane_dead_signal}"@,
            ),
        ),
{
    reveal_strlit("=");
    reveal_strlit("ew-");
    reveal_strlit("=ew-");
    let target = "=ew-"@ + id + ":0.0"@;
    assert(crate::workspace::sessions::target(id) =~= target);
    let words = crate::workspace::sessions::lookup_command(id);
    lemma_runs(t, backend, words);
    let any: Calls = |call: CallView| true;
    let t1 = command_run(t, backend, words).0;
    crate::host::lemma_ask_continues(t1, CallView::Clock);
    let refreshing = crate::workspace::sessions::refresh_command(id);
    lemma_command_adds(t1, backend, refreshing, any);
    let t2 = command_run(t1, backend, refreshing).0;
    crate::workspace::laws::lemma_lookup_adds(t2, backend, id, false, any);
    crate::host::lemma_continues(t1, t2, lookup_run(t2, backend, id, false).0);
    lemma_runs_on(t, t1, lookup_run(t, backend, id, refresh).0, backend, words);
}

/// A session that is not there is created under the workspace's name and in its directory,
/// it keeps the generation in its environment, and its pane runs the command.
pub proof fn sessions_are_created_as_asked(
    t: Transcript,
    backend: BackendView,
    id: Seq<char>,
    directory: Option<Seq<char>>,
    generation: Seq<char>,
    command: Option<Seq<char>>,
)
    requires
        is_token(id),
        is_token(generation),
        directory_run(t, directory).1 is Ok,
        lookup_run(directory_run(t, directory).0, backend, id, true).1 matches Err(halt)
            && is_kind(halt, ErrorKind::NotFound),
        probe_run(lookup_run(directory_run(t, directory).0, backend, id, true).0, backend).1 is Ok,
    ensures
        ({
            let absent = lookup_run(directory_run(t, directory).0, backend, id, true).0;
            let base = line_of("new-session"@, "-d"@, "-s"@, "ew-"@ + id) + line_of(
                "-x"@,
                "120"@,
                "-y"@,
                "35"@,
            ).push("-e"@).push("WARP_WORKSPACE_GENERATION="@ + generation);
            let placed = match directory {
                Some(path) => base.push("-c"@).push(path),
                None => base,
            };
            runs(
                probe_run(absent, backend).0,
                create_run(t, backend, id, directory, Some(generation), command).0,
                backend,
                match command {
                    Some(command) => placed.push(command),
                    None => placed,
                },
            )
        }),
{
    let absent = lookup_run(directory_run(t, directory).0, backend, id, true).0;
    let u = probe_run(absent, backend).0;
    let words = crate::workspace::sessions::create_command(id, generation, directory, command);
    lemma_runs(u, backend, words);
    let t1 = command_run(u, backend, words).0;
    let any: Calls = |call: CallView| true;
    crate::workspace::laws::lemma_lookup_adds(t1, backend, id, true, any);
    crate::host::lemma_ask_continues(t1, CallView::Clock);
    lemma_runs_on(
        u,
        t1,
        create_run(t, backend, id, directory, Some(generation), command).0,
        backend,
        words,
    );
    let base = line_of("new-session"@, "-d"@, "-s"@, "ew-"@ + id) + line_of(
        "-x"@,
        "120"@,
        "-y"@,
        "35"@,
    ).push("-e"@).push("WARP_WORKSPACE_GENERATION="@ + generation);
    let placed = match directory {
        Some(path) => base.push("-c"@).push(path),
        None => base,
    };
    assert(words =~= match command {
        Some(command) => placed.push(command),
        None => placed,
    });
}

/// The words that run a command in exactly this incarnation of a workspace.
pub open spec fn only_in(id: Seq<char>, generation: Seq<char>, command: Seq<char>) -> Seq<
    Seq<char>,
> {
    line_of("if-shell"@, "-F"@, "-t"@, "=ew-"@ + id + ":0.0"@) + line_of(
        "#{==:#{WARP_WORKSPACE_GENERATION},"@ + generation + "}"@,
        command,
        "display-message -p STALE_WORKSPACE"@,
        ""@,
    ).drop_last()
}

proof fn lemma_only_in(
    t: Transcript,
    backend: BackendView,
    id: Seq<char>,
    generation: Seq<char>,
    command: Seq<char>,
    stale: Seq<char>,
)
    ensures
        runs(
            t,
            on_incarnation_run(t, backend, id, generation, command, stale).0,
            backend,
            only_in(id, generation, command),
        ),
{
    reveal_strlit("=");
    reveal_strlit("ew-");
    reveal_strlit("=ew-");
    assert(crate::workspace::sessions::target(id) =~= "=ew-"@ + id + ":0.0"@);
    let words = crate::workspace::sessions::guarded_command(id, generation, command);
    assert(words =~= only_in(id, generation, command));
    lemma_runs(t, backend, words);
}

/// The digits of bytes: two for each of them, with a space between one byte and the next.
pub open spec fn are_spaced_digits(text: Seq<char>, bytes: Seq<u8>) -> bool {
    &&& bytes.len() > 0 ==> text.len() == 3 * bytes.len() - 1
    &&& forall|i: int|
        0 <= i < bytes.len() ==> #[trigger] bytes[i] == 16 * number::digit_value(text[3 * i])
            + number::digit_value(text[3 * i + 1])
    &&& forall|i: int| 0 <= i < bytes.len() - 1 ==> #[trigger] text[3 * i + 2] == ' '
}

proof fn lemma_spaced_digits(bytes: Seq<u8>)
    ensures
        are_spaced_digits(number::hex_bytes_text(bytes, " "@), bytes),
    decreases bytes.len(),
{
    reveal_strlit(" ");
    if bytes.len() > 0 {
        let front = bytes.drop_last();
        let before = number::hex_bytes_text(front, " "@);
        lemma_spaced_digits(front);
        let two = number::hex_text(bytes.last() as nat, 2);
        crate::workspace::startup_laws::lemma_two_digits(bytes.last());
        let whole = number::hex_bytes_text(bytes, " "@);
        if bytes.len() > 1 {
            assert(whole =~= before + " "@ + two);
        }
        assert forall|i: int| 0 <= i < bytes.len() implies #[trigger] bytes[i] == 16
            * number::digit_value(whole[3 * i]) + number::digit_value(whole[3 * i + 1]) by {
            if i < front.len() {
                assert(front[i] == bytes[i]);
                assert(whole[3 * i] == before[3 * i]);
                assert(whole[3 * i + 1] == before[3 * i + 1]);
            } else {
                assert(whole[3 * i] == two[0]);
                assert(whole[3 * i + 1] == two[1]);
            }
        }
        assert forall|i: int| 0 <= i < bytes.len() - 1 implies #[trigger] whole[3 * i + 2]
            == ' ' by {
            if i < front.len() - 1 {
                assert(whole[3 * i + 2] == before[3 * i + 2]);
            }
        }
    }
}

/// Input goes to the workspace's pane, each of its bytes in two digits, in its order.
pub proof fn input_goes_to_the_pane(
    t: Transcript,
    backend: BackendView,
    id: Seq<char>,
    generation: Seq<char>,
    input: Seq<u8>,
)
    requires
        1 <= input.len() <= 4096,
        resolve_run(t, backend, id, generation).1 is Ok,
        !resolve_run(t, backend, id, generation).1->Ok_0.exited,
    ensures
        ({
            let (found, resolved) = resolve_run(t, backend, id, generation);
            exists|digits: Seq<char>|
                {
                    &&& #[trigger] are_spaced_digits(digits, input)
                    &&& runs(
                        found,
                        send_input_run(t, backend, id, generation, input).0,
                        backend,
                        only_in(
                            id,
                            generation,
                            "send-keys -H -t "@ + resolved->Ok_0.pane_id + " "@ + digits,
                        ),
                    )
                }
        }),
{
    let (found, resolved) = resolve_run(t, backend, id, generation);
    let digits = number::hex_bytes_text(input, " "@);
    lemma_spaced_digits(input);
    lemma_only_in(
        found,
        backend,
        id,
        generation,
        "send-keys -H -t "@ + resolved->Ok_0.pane_id + " "@ + digits,
        "Workspace incarnation changed before terminal operation"@,
    );
}

/// A window gets the dimensions that were asked for, the columns as its width.
pub proof fn windows_get_their_dimensions(
    t: Transcript,
    backend: BackendView,
    id: Seq<char>,
    generation: Seq<char>,
    columns: u32,
    rows: u32,
)
    requires
        2 <= columns <= 1000,
        2 <= rows <= 1000,
        resolve_run(t, backend, id, generation).1 is Ok,
    ensures
        ({
            let (found, resolved) = resolve_run(t, backend, id, generation);
            let window = resolved->Ok_0.window_id;
            runs(
                found,
                resize_run(t, backend, id, generation, columns, rows).0,
                backend,
                only_in(
                    id,
                    generation,
                    "set-option -w -t "@ + window + " window-size manual ; resize-window -t "@
                        + window + " -x "@ + number::decimal_text(columns as nat) + " -y "@
                        + number::decimal_text(rows as nat),
                ),
            )
        }),
{
    let (found, resolved) = resolve_run(t, backend, id, generation);
    let window = resolved->Ok_0.window_id;
    lemma_only_in(
        found,
        backend,
        id,
        generation,
        "set-option -w -t "@ + window + " window-size manual ; resize-window -t "@ + window
            + " -x "@ + number::decimal_text(columns as nat) + " -y "@ + number::decimal_text(
            rows as nat,
        ),
        "Workspace incarnation changed before terminal operation"@,
    );
}

/// A workspace is ended by ending the session that it was found to have.
pub proof fn the_session_is_ended(
    t: Transcript,
    backend: BackendView,
    id: Seq<char>,
    generation: Seq<char>,
)
    requires
        resolve_run(t, backend, id, generation).1 is Ok,
    ensures
        ({
            let (found, resolved) = resolve_run(t, backend, id, generation);
            runs(
                found,
                terminate_run(t, backend, id, generation).0,
                backend,
                only_in(id, generation, "kill-session -t "@ + resolved->Ok_0.session_id),
            )
        }),
{
    let (found, resolved) = resolve_run(t, backend, id, generation);
    lemma_only_in(
        found,
        backend,
        id,
        generation,
        "kill-session -t "@ + resolved->Ok_0.session_id,
        "Workspace incarnation changed before deletion"@,
    );
}

/// A text stands somewhere in another one.
pub open spec fn stands_in(whole: Seq<char>, part: Seq<char>) -> bool {
    exists|before: Seq<char>, after: Seq<char>| whole == #[trigger] (before + part + after)
}

pub(crate) proof fn lemma_stands_in(whole: Seq<char>, part: Seq<char>)
    ensures
        stands_in(whole, part) <==> text::has_text(whole, part),
{
    if text::has_text(whole, part) {
        let at = choose|at: int| #[trigger] text::occurs_at(whole, part, at);
        let before = whole.take(at);
        let after = whole.skip(at + part.len());
        assert(whole =~= before + part + after);
    }
    if stands_in(whole, part) {
        let (before, after) = choose|before: Seq<char>, after: Seq<char>|
            whole == #[trigger] (before + part + after);
        assert(whole.subrange(before.len() as int, before.len() as int + part.len()) =~= part);
        assert(text::occurs_at(whole, part, before.len() as int));
    }
}

/// A command that succeeded gives its output. One that failed tells its diagnostics, or that
/// there are none; it means that the workspace is not there exactly where tmux says that it
/// found no such session, window, pane or server.
pub proof fn answers_mean_what_they_say(output: Seq<u8>, diagnostics: Seq<u8>)
    ensures
        command_result((true, output, diagnostics)) == Ok::<
            Seq<char>,
            crate::workspace::WorkspaceHalt,
        >(bytes::readable_text(output)),
        ({
            let told = bytes::readable_text(diagnostics);
            let r = command_result((false, output, diagnostics));
            &&& r is Err
            &&& r->Err_0 is Failed
            &&& r->Err_0->Failed_0.kind is NotFound <==> stands_in(told, "can't find session"@)
                || stands_in(told, "can't find pane"@) || stands_in(told, "can't find window"@)
                || stands_in(told, "no server running"@) || stands_in(
                told,
                "No such file or directory"@,
            )
            &&& r->Err_0->Failed_0.kind is NotFound || r->Err_0->Failed_0.kind is Failed
            &&& text::trimmed(told).len() > 0 ==> r->Err_0->Failed_0.message == text::trimmed(told)
            &&& text::trimmed(told).len() == 0 ==> r->Err_0->Failed_0.message
                == "tmux failed without a diagnostic; check that it is installed and executable"@
        }),
{
    let told = bytes::readable_text(diagnostics);
    lemma_stands_in(told, "can't find session"@);
    lemma_stands_in(told, "can't find pane"@);
    lemma_stands_in(told, "can't find window"@);
    lemma_stands_in(told, "no server running"@);
    lemma_stands_in(told, "No such file or directory"@);
}

/// A command on an incarnation fails as stale exactly where tmux says so in its answer.
pub proof fn stale_answers_are_told(
    t: Transcript,
    backend: BackendView,
    id: Seq<char>,
    generation: Seq<char>,
    command: Seq<char>,
    stale: Seq<char>,
)
    ensures
        ({
            let words = only_in(id, generation, command);
            let (next, answer) = command_run(t, backend, words);
            let (last, r) = on_incarnation_run(t, backend, id, generation, command, stale);
            &&& last == next
            &&& answer matches Ok(told) ==> if stands_in(told, "STALE_WORKSPACE"@) {
                r is Err && is_kind(r->Err_0, ErrorKind::Stale)
            } else {
                r is Ok
            }
            &&& answer matches Err(halt) ==> r is Err && r->Err_0 == halt
        }),
{
    reveal_strlit("=");
    reveal_strlit("ew-");
    reveal_strlit("=ew-");
    assert(crate::workspace::sessions::target(id) =~= "=ew-"@ + id + ":0.0"@);
    let words = crate::workspace::sessions::guarded_command(id, generation, command);
    assert(words =~= only_in(id, generation, command));
    if let Ok(told) = command_run(t, backend, words).1 {
        lemma_stands_in(told, "STALE_WORKSPACE"@);
    }
}

/// Persistent workspaces work with tmux from version 3.2 on, whatever letters follow its
/// number.
pub proof fn versions_are_compared(
    output: Seq<char>,
    major: u32,
    minor: u32,
    suffix: Seq<char>,
)
    requires
        suffix.len() > 0 ==> !('0' <= suffix[0] <= '9'),
        !suffix.contains('.'),
        text::trimmed(output) == "tmux "@ + number::decimal_text(major as nat) + "."@
            + number::decimal_text(minor as nat) + suffix,
    ensures
        supported_version(version_of(output)) <==> major > 3 || major == 3 && minor >= 2,
{
    reveal_strlit("tmux ");
    reveal_strlit(".");
    let a = number::decimal_text(major as nat);
    let b = number::decimal_text(minor as nat);
    number::lemma_decimal(major as nat);
    number::lemma_decimal(minor as nat);
    number::decimal_round_trip(major as nat, u32::MAX as nat);
    number::decimal_round_trip(minor as nat, u32::MAX as nat);
    let line = text::trimmed(output);
    let version = a + "."@ + (b + suffix);
    assert(line =~= "tmux "@ + version);
    assert(line.take(5) =~= "tmux "@);
    assert(line.skip(5) =~= version);
    lemma_no_point(a);
    lemma_no_point(b);
    text::lemma_split_whole(a, '.');
    let head = a.push('.');
    assert(a + "."@ =~= head);
    let rest = b + suffix;
    assert(!rest.contains('.')) by {
        assert forall|i: int| 0 <= i < rest.len() implies rest[i] != '.' by {
            if i < b.len() {
                assert(b.contains(b[i]));
            } else {
                assert(suffix.contains(suffix[i - b.len()]));
            }
        }
    }
    assert(head.drop_last() =~= a);
    text::lemma_split_append(head, '.', rest);
    let parts = text::split_by(version, '.');
    assert(text::split_by(head, '.') =~= Seq::<Seq<char>>::empty().push(a).push(Seq::empty()));
    assert(parts[0] == a);
    assert(parts[1] =~= rest);
    lemma_leading(b, suffix);
}

proof fn lemma_no_point(digits: Seq<char>)
    requires
        number::all_decimal(digits),
    ensures
        !digits.contains('.'),
{
    assert forall|i: int| 0 <= i < digits.len() implies digits[i] != '.' by {
        assert(number::is_decimal_digit(digits[i]));
    }
}

proof fn lemma_leading(digits: Seq<char>, suffix: Seq<char>)
    requires
        number::all_decimal(digits),
        suffix.len() > 0 ==> !('0' <= suffix[0] <= '9'),
    ensures
        crate::workspace::sessions::leading_digits(digits + suffix) == digits,
    decreases digits.len(),
{
    let whole = digits + suffix;
    if digits.len() == 0 {
        assert(whole =~= suffix);
        assert(crate::workspace::sessions::leading_digits(suffix) =~= digits);
    } else {
        let rest = digits.drop_first();
        assert(number::is_decimal_digit(digits[0]));
        assert(number::all_decimal(rest)) by {
            assert forall|i: int| 0 <= i < rest.len() implies number::is_decimal_digit(
                #[trigger] rest[i],
            ) by {
                assert(number::is_decimal_digit(digits[i + 1]));
            }
        }
        assert(whole.drop_first() =~= rest + suffix);
        lemma_leading(rest, suffix);
        assert(Seq::empty().push(digits[0]) + rest =~= digits);
    }
}

/// The command line of a recorder.
pub open spec fn plain_line(
    executable: Seq<char>,
    journal: Seq<char>,
    retention: RetentionPolicy,
) -> Seq<char> {
    let told = "exec "@ + quoted(executable) + " --persistent-workspace-recorder "@ + quoted(
        journal,
    );
    if retention is Rolling {
        told + " --bounded-history"@
    } else {
        told
    }
}

/// A recorder is started for the pane of the incarnation, once, and in the pane's window an
/// exited shell is kept; it records into the incarnation's journal, and under the policy
/// that was asked for. Every hash of its command line is doubled.
pub proof fn recorders_record_the_pane(
    t: Transcript,
    backend: BackendView,
    workspace: WorkspaceView,
    executable: Seq<char>,
    journal: Seq<char>,
    retention: RetentionPolicy,
)
    requires
        executable_run(t, executable).1 is Ok,
    ensures
        ({
            let plain = plain_line(executable, journal, retention);
            exists|line: Seq<char>|
                {
                    &&& #[trigger] is_doubled(line, plain, '#')
                    &&& runs(
                        executable_run(t, executable).0,
                        new_recorder_run(t, backend, workspace, executable, journal, retention).0,
                        backend,
                        only_in(
                            workspace.id,
                            workspace.generation,
                            "set-option -w -t "@ + workspace.window_id
                                + " remain-on-exit on ; pipe-pane -O -o -t "@ + workspace.pane_id
                                + " "@ + quoted(line),
                        ),
                    )
                }
        }),
{
    reveal_strlit(" ");
    reveal_strlit("--persistent-workspace-recorder");
    reveal_strlit(" --persistent-workspace-recorder ");
    reveal_strlit("##");
    reveal_strlit("");
    let plain = plain_line(executable, journal, retention);
    let line = crate::workspace::recording::recorder_line(executable, journal, retention);
    let long = "exec "@ + quoted(executable) + " "@ + crate::journal::RECORDER_ARGUMENT@ + " "@
        + quoted(journal) + (if retention is Rolling {
        " --bounded-history"@
    } else {
        ""@
    });
    assert(" "@ + crate::journal::RECORDER_ARGUMENT@ + " "@
        =~= " --persistent-workspace-recorder "@);
    assert(long =~= plain);
    assert(line == text::replaced_char(plain, '#', "##"@));
    lemma_doubled(plain, '#', "##"@);
    let u = executable_run(t, executable).0;
    let command = "set-option -w -t "@ + workspace.window_id
        + " remain-on-exit on ; pipe-pane -O -o -t "@ + workspace.pane_id + " "@ + quoted(line);
    let stale = "Workspace incarnation changed before terminal operation"@;
    lemma_only_in(u, backend, workspace.id, workspace.generation, command, stale);
    let (v, piped) = on_incarnation_run(
        u,
        backend,
        workspace.id,
        workspace.generation,
        command,
        stale,
    );
    let last = new_recorder_run(t, backend, workspace, executable, journal, retention).0;
    crate::host::lemma_ask_continues(v, CallView::Clock);
    if piped is Ok {
        let (w, clock) = crate::host::ask_number(v, CallView::Clock);
        if let Ok(now) = clock {
            let any: Calls = |call: CallView| true;
            let deadline = crate::workspace::command::deadline_after(
                now,
                crate::workspace::recording::GRACE,
            );
            lemma_await_journal_adds(w, journal, deadline, any);
            crate::host::lemma_continues(v, w, last);
        }
    }
    lemma_runs_on(
        u,
        v,
        last,
        backend,
        only_in(workspace.id, workspace.generation, command),
    );
    assert(is_doubled(line, plain, '#'));
}

/// A text with one of its characters doubled everywhere.
pub open spec fn is_doubled(text: Seq<char>, plain: Seq<char>, c: char) -> bool
    decreases plain.len(),
{
    if plain.len() == 0 {
        text.len() == 0
    } else if plain.last() == c {
        text.len() >= 2 && text.last() == c && text[text.len() - 2] == c && is_doubled(
            text.drop_last().drop_last(),
            plain.drop_last(),
            c,
        )
    } else {
        text.len() >= 1 && text.last() == plain.last() && is_doubled(
            text.drop_last(),
            plain.drop_last(),
            c,
        )
    }
}

proof fn lemma_doubled(plain: Seq<char>, c: char, two: Seq<char>)
    requires
        two.len() == 2,
        two[0] == c,
        two[1] == c,
    ensures
        is_doubled(text::replaced_char(plain, c, two), plain, c),
    decreases plain.len(),
{
    if plain.len() > 0 {
        let front = plain.drop_last();
        lemma_doubled(front, c, two);
        let before = text::replaced_char(front, c, two);
        let whole = text::replaced_char(plain, c, two);
        if plain.last() == c {
            assert(whole =~= before + two);
            assert(whole.drop_last().drop_last() =~= before);
        } else {
            assert(whole =~= before.push(plain.last()));
            assert(whole.drop_last() =~= before);
        }
    }
}

/// A recorder that is told a journal by its full path records into exactly that one, rolling
/// where it is told to bound the history; told anything else it records nothing; and a
/// program whose first argument is another one is no recorder.
pub proof fn recorders_record_what_they_are_told(arguments: Seq<Seq<char>>)
    ensures
        recorder_request(arguments) is Some <==> arguments.len() > 0 && arguments[0]
            == "--persistent-workspace-recorder"@,
        recorder_request(arguments) matches Some(r) ==> {
            &&& r is Ok <==> {
                &&& arguments.len() == 2 || arguments.len() == 3 && arguments[2]
                    == "--bounded-history"@
                &&& arguments[1].len() > 0 && arguments[1][0] == '/'
            }
            &&& r matches Ok((journal, policy)) ==> journal == arguments[1] && (policy is Rolling
                <==> arguments.len() == 3)
        },
{
    reveal_strlit("/");
    if arguments.len() > 1 {
        let path = arguments[1];
        if path.len() > 0 && path[0] == '/' {
            assert(path.take(1) =~= "/"@);
        }
        if text::begins_with(path, "/"@) {
            assert(path.take(1)[0] == path[0]);
        }
    }
}

} // verus!
