//! What holds of the workspaces on a tmux server that does what tmux documents: it
//! answers lookups from its sessions, and runs a guarded command only on the generation
//! that the guard names.

use crate::host::{CallView, PathAction, Transcript};
use crate::number;
use crate::text;
use crate::workspace::command::command_run;
use crate::workspace::laws::{adds_only, is_lookup, lemma_resolve_adds};
use crate::workspace::lifecycle_laws::an_existing_workspace_is_kept;
use crate::workspace::sessions::{
    collect_run, create_command, create_run, directory_run, generation_run, guarded_command,
    is_kind, is_numeric_id, is_ordered, is_token, list_run, listing_is_ordered, lookup_command,
    lookup_output, lookup_run, managed_id, ordered, probe_run, resolve_run, session_name,
    sessions_command, terminate_run, LookupView, WorkspaceView, PREFIX,
};
use crate::workspace::{BackendView, ErrorKind, WorkspaceHalt};
use vstd::prelude::*;
use vstd::string::*;

verus! {

/// What tmux can know of a workspace: its shell runs, or has exited with a code or by a
/// signal.
pub open spec fn is_known(w: WorkspaceView) -> bool {
    &&& is_token(w.id)
    &&& is_token(w.generation)
    &&& is_numeric_id(w.session_id, '$')
    &&& is_numeric_id(w.window_id, '@')
    &&& is_numeric_id(w.pane_id, '%')
    &&& w.exit_code matches Some(code) ==> w.exited && 0 <= code <= 255
}

/// What tmux says of a workspace, without the end of the line; `signal` is what it says
/// of the signal that ended the shell.
pub open spec fn described(w: WorkspaceView, signal: Seq<char>) -> Seq<char> {
    let named = session_name(w.id).push('|') + w.generation;
    let placed = named.push('|') + w.session_id;
    let window = placed.push('|') + w.window_id;
    let pane = window.push('|') + w.pane_id;
    let shell = pane.push('|') + number::decimal_text(w.shell_pid as nat);
    let state = shell.push('|') + state_text(w);
    let code = state.push('|') + code_text(w);
    code.push('|') + signal
}

pub open spec fn state_text(w: WorkspaceView) -> Seq<char> {
    if w.exited {
        "1"@
    } else {
        "0"@
    }
}

pub open spec fn code_text(w: WorkspaceView) -> Seq<char> {
    match w.exit_code {
        Some(code) => number::decimal_text(code as nat),
        None => Seq::empty(),
    }
}

/// A signal that tmux can name for a workspace: one without a code that has exited was
/// ended by some signal.
pub open spec fn is_signal(w: WorkspaceView, signal: Seq<char>) -> bool {
    &&& !signal.contains('|')
    &&& !signal.contains('\n')
    &&& !signal.contains('\r')
    &&& w.exited && w.exit_code is None ==> signal.len() > 0
}

/// The answer is what tmux says of the workspace.
pub open spec fn says(w: WorkspaceView, answer: Seq<char>) -> bool {
    exists|signal: Seq<char>|
        is_signal(w, signal) && answer == (#[trigger] described(w, signal)).push('\n')
}

/// The workspaces of a server, by their identities.
pub type Sessions = Map<Seq<char>, WorkspaceView>;

pub open spec fn all_known(s: Sessions) -> bool {
    forall|id: Seq<char>| #[trigger]
        s.contains_key(id) ==> s[id].id == id && is_known(s[id])
}

/// What came of a lookup is the answer of a server with these sessions.
pub open spec fn answers_lookup(
    s: Sessions,
    id: Seq<char>,
    answer: Result<Seq<char>, WorkspaceHalt>,
) -> bool {
    if s.contains_key(id) {
        answer matches Ok(output) && says(s[id], output)
    } else {
        answer matches Err(halt) && is_kind(halt, ErrorKind::NotFound)
    }
}

/// What came of a guarded command is the answer of a server with these sessions.
pub open spec fn answers_guarded(
    s: Sessions,
    id: Seq<char>,
    generation: Seq<char>,
    answer: Result<Seq<char>, WorkspaceHalt>,
) -> bool {
    if !s.contains_key(id) {
        answer matches Err(halt) && is_kind(halt, ErrorKind::NotFound)
    } else {
        answer matches Ok(output) && text::has_text(output, "STALE_WORKSPACE"@) == (
        s[id].generation != generation)
    }
}

/// The sessions after a guarded command that kills the session.
pub open spec fn ended(s: Sessions, id: Seq<char>, generation: Seq<char>) -> Sessions {
    if s.contains_key(id) && s[id].generation == generation {
        s.remove(id)
    } else {
        s
    }
}

proof fn lemma_hex_plain(value: Seq<char>)
    requires
        number::all_hex(value),
    ensures
        !value.contains('|'),
{
    assert forall|i: int| 0 <= i < value.len() implies value[i] != '|' by {
        assert(number::is_hex_digit(value[i]));
    }
}

proof fn lemma_decimal_plain(value: Seq<char>)
    requires
        number::all_decimal(value),
    ensures
        !value.contains('|'),
{
    assert forall|i: int| 0 <= i < value.len() implies value[i] != '|' by {
        assert(number::is_decimal_digit(value[i]));
    }
}

proof fn lemma_numeric_plain(value: Seq<char>, prefix: char)
    requires
        is_numeric_id(value, prefix),
        prefix != '|',
    ensures
        !value.contains('|'),
{
    assert forall|i: int| 0 <= i < value.len() implies value[i] != '|' by {
        if i > 0 {
            assert(value.drop_first()[i - 1] == value[i]);
            assert(number::is_decimal_digit(value.drop_first()[i - 1]));
        }
    }
}

/// What tmux says of a workspace is read as that workspace.
pub proof fn descriptions_are_read_back(w: WorkspaceView, signal: Seq<char>)
    requires
        is_known(w),
        is_signal(w, signal),
    ensures
        lookup_output(w.id, described(w, signal).push('\n')) == LookupView::Found(w),
{
    reveal_strlit("ew-");
    reveal_strlit("0");
    reveal_strlit("1");
    let pid = number::decimal_text(w.shell_pid as nat);
    number::lemma_decimal(w.shell_pid as nat);
    number::decimal_round_trip(w.shell_pid as nat, u32::MAX as nat);
    lemma_hex_plain(w.id);
    lemma_hex_plain(w.generation);
    lemma_numeric_plain(w.session_id, '$');
    lemma_numeric_plain(w.window_id, '@');
    lemma_numeric_plain(w.pane_id, '%');
    lemma_decimal_plain(pid);
    let state = state_text(w);
    let code = code_text(w);
    assert("0"@[0] == '0' && "1"@[0] == '1');
    assert(!state.contains('|'));
    if let Some(c) = w.exit_code {
        number::lemma_decimal(c as nat);
        lemma_decimal_plain(code);
        assert(number::is_decimal_digit(code[0]));
        assert(number::parsed_signed(code) == Some(c as int));
    }
    let name = session_name(w.id);
    assert forall|i: int| 0 <= i < name.len() implies name[i] != '|' by {
        if i >= PREFIX@.len() {
            assert(name[i] == w.id[i - PREFIX@.len()]);
            assert(w.id.contains(w.id[i - PREFIX@.len()]));
        }
    }
    let s1 = name.push('|') + w.generation;
    let s2 = s1.push('|') + w.session_id;
    let s3 = s2.push('|') + w.window_id;
    let s4 = s3.push('|') + w.pane_id;
    let s5 = s4.push('|') + pid;
    let s6 = s5.push('|') + state;
    let s7 = s6.push('|') + code;
    let s8 = s7.push('|') + signal;
    text::lemma_split_whole(name, '|');
    text::lemma_split_push(name, '|', w.generation);
    text::lemma_split_push(s1, '|', w.session_id);
    text::lemma_split_push(s2, '|', w.window_id);
    text::lemma_split_push(s3, '|', w.pane_id);
    text::lemma_split_push(s4, '|', pid);
    text::lemma_split_push(s5, '|', state);
    text::lemma_split_push(s6, '|', code);
    text::lemma_split_push(s7, '|', signal);
    assert(described(w, signal) == s8);
    let line = s8.push('\n');
    assert(line.drop_last() =~= s8);
    assert(s8.last() != '\n' && s8.last() != '\r') by {
        if signal.len() > 0 {
            assert(signal.contains(signal.last()));
            assert(s8.last() == signal.last());
        } else {
            assert(s8.last() == '|');
        }
    }
    assert(text::without_line_end(s8) == s8);
    assert(text::without_line_end(line) == s8);
    let fields = text::split_by(s8, '|');
    assert(fields.len() == 9);
    assert(fields[0] == name && fields[1] == w.generation && fields[2] == w.session_id);
    assert(fields[3] == w.window_id && fields[4] == w.pane_id && fields[5] == pid);
    assert(fields[6] == state && fields[7] == code && fields[8] == signal);
}

/// What tmux answers of a workspace is read as that workspace.
proof fn lemma_says(w: WorkspaceView, answer: Seq<char>)
    requires
        is_known(w),
        says(w, answer),
    ensures
        lookup_output(w.id, answer) == LookupView::Found(w),
{
    let signal = choose|signal: Seq<char>|
        is_signal(w, signal) && answer == (#[trigger] described(w, signal)).push('\n');
    descriptions_are_read_back(w, signal);
}

/// On a server that answers truthfully, a workspace is resolved by its identity and
/// its generation, and nothing else is.
pub proof fn workspaces_are_resolved(
    s: Sessions,
    t: Transcript,
    backend: BackendView,
    id: Seq<char>,
    generation: Seq<char>,
)
    requires
        all_known(s),
        is_token(id),
        is_token(generation),
        answers_lookup(s, id, command_run(t, backend, lookup_command(id)).1),
    ensures
        ({
            let r = resolve_run(t, backend, id, generation).1;
            if !s.contains_key(id) {
                r matches Err(halt) && is_kind(halt, ErrorKind::NotFound)
            } else if s[id].generation != generation {
                r matches Err(halt) && is_kind(halt, ErrorKind::Stale)
            } else {
                r == Ok::<WorkspaceView, WorkspaceHalt>(s[id])
            }
        }),
{
    if s.contains_key(id) {
        lemma_says(s[id], command_run(t, backend, lookup_command(id)).1->Ok_0);
    }
}

/// Ending a workspace ends exactly that one: the request succeeds, afterwards the
/// workspace is not found, and every other one is resolved as before.
pub proof fn termination_ends_one_workspace(
    s: Sessions,
    t: Transcript,
    backend: BackendView,
    w: WorkspaceView,
    u: WorkspaceView,
    later: Transcript,
    other: Transcript,
)
    requires
        all_known(s),
        s.contains_key(w.id) && s[w.id] == w,
        s.contains_key(u.id) && s[u.id] == u,
        w.id != u.id,
        answers_lookup(s, w.id, command_run(t, backend, lookup_command(w.id)).1),
        answers_guarded(
            s,
            w.id,
            w.generation,
            command_run(
                resolve_run(t, backend, w.id, w.generation).0,
                backend,
                guarded_command(w.id, w.generation, "kill-session -t "@ + w.session_id),
            ).1,
        ),
        answers_lookup(
            ended(s, w.id, w.generation),
            w.id,
            command_run(later, backend, lookup_command(w.id)).1,
        ),
        answers_lookup(
            ended(s, w.id, w.generation),
            u.id,
            command_run(other, backend, lookup_command(u.id)).1,
        ),
    ensures
        terminate_run(t, backend, w.id, w.generation).1 is Ok,
        resolve_run(later, backend, w.id, w.generation).1 matches Err(halt) && is_kind(
            halt,
            ErrorKind::NotFound,
        ),
        resolve_run(other, backend, u.id, u.generation).1 == Ok::<WorkspaceView, WorkspaceHalt>(u),
{
    let left = ended(s, w.id, w.generation);
    assert forall|id: Seq<char>| #[trigger] left.contains_key(id) implies left[id].id == id
        && is_known(left[id]) by {
        assert(s.contains_key(id));
    }
    workspaces_are_resolved(s, t, backend, w.id, w.generation);
    workspaces_are_resolved(left, later, backend, w.id, w.generation);
    workspaces_are_resolved(left, other, backend, u.id, u.generation);
}

/// A request to end another generation of a workspace is refused as stale, and
/// nothing but lookups reaches the server: its sessions stay as they are.
pub proof fn stale_requests_end_nothing(
    s: Sessions,
    t: Transcript,
    backend: BackendView,
    id: Seq<char>,
    generation: Seq<char>,
)
    requires
        all_known(s),
        s.contains_key(id),
        is_token(generation),
        s[id].generation != generation,
        answers_lookup(s, id, command_run(t, backend, lookup_command(id)).1),
    ensures
        terminate_run(t, backend, id, generation).1 matches Err(halt) && is_kind(
            halt,
            ErrorKind::Stale,
        ),
        adds_only(
            t,
            terminate_run(t, backend, id, generation).0,
            |call: CallView| is_lookup(backend, id, call),
        ),
{
    workspaces_are_resolved(s, t, backend, id, generation);
    lemma_resolve_adds(
        t,
        backend,
        id,
        generation,
        |call: CallView| is_lookup(backend, id, call),
    );
}

// ---------------------------------------------------------------------------
// Listing
// ---------------------------------------------------------------------------

/// The names of all sessions of a server whose workspaces are these, in whatever
/// order: each once, and among those of managed workspaces exactly theirs.
pub open spec fn names_sessions(s: Sessions, names: Seq<Seq<char>>) -> bool {
    &&& names.no_duplicates()
    &&& forall|i: int| 0 <= i < names.len() ==> !(#[trigger] names[i]).contains('\n')
    &&& forall|i: int| 0 <= i < names.len() ==> !(#[trigger] names[i]).contains('\r')
    &&& forall|i: int|
        0 <= i < names.len() ==> (managed_id(#[trigger] names[i]) matches Some(id)
            ==> s.contains_key(id))
    &&& forall|id: Seq<char>| #[trigger]
        s.contains_key(id) ==> names.contains(session_name(id))
}

/// What came of a request for the sessions is the answer of a server that has sessions of
/// these names. A server without any is not there.
pub open spec fn answers_listing(
    names: Seq<Seq<char>>,
    answer: Result<Seq<char>, WorkspaceHalt>,
) -> bool {
    ||| answer == Ok::<Seq<char>, WorkspaceHalt>(text::listing(names))
    ||| names.len() == 0 && (answer matches Err(halt) && is_kind(halt, ErrorKind::NotFound))
}

/// The lookups that follow, of the workspaces of these names, are answered by a server
/// with these sessions.
pub open spec fn answers_lookups(
    s: Sessions,
    t: Transcript,
    backend: BackendView,
    names: Seq<Seq<char>>,
) -> bool
    decreases names.len(),
{
    names.len() == 0 || match managed_id(names[0]) {
        None => answers_lookups(s, t, backend, names.drop_first()),
        Some(id) => {
            &&& answers_lookup(s, id, command_run(t, backend, lookup_command(id)).1)
            &&& answers_lookups(
                s,
                lookup_run(t, backend, id, true).0,
                backend,
                names.drop_first(),
            )
        },
    }
}

/// The workspaces of these names, in that order.
pub open spec fn workspaces_named(s: Sessions, names: Seq<Seq<char>>) -> Seq<WorkspaceView>
    decreases names.len(),
{
    if names.len() == 0 {
        Seq::empty()
    } else {
        let rest = workspaces_named(s, names.drop_first());
        match managed_id(names[0]) {
            None => rest,
            Some(id) => Seq::<WorkspaceView>::empty().push(s[id]) + rest,
        }
    }
}

/// The list holds exactly these workspaces, each once, in the order of their identities.
pub open spec fn lists_exactly(s: Sessions, list: Seq<WorkspaceView>) -> bool {
    &&& is_ordered(list)
    &&& forall|i: int|
        0 <= i < list.len() ==> s.contains_key((#[trigger] list[i]).id) && s[list[i].id] == list[i]
    &&& forall|id: Seq<char>| #[trigger] s.contains_key(id) ==> list.contains(s[id])
    &&& forall|i: int, j: int|
        0 <= i < j < list.len() ==> (#[trigger] list[i]).id != (#[trigger] list[j]).id
}

proof fn lemma_managed(name: Seq<char>)
    ensures
        managed_id(name) matches Some(id) ==> name == session_name(id),
{
    if managed_id(name) is Some {
        let id = managed_id(name)->Some_0;
        assert(name =~= session_name(id));
    }
}

proof fn lemma_session_managed(id: Seq<char>)
    requires
        is_token(id),
    ensures
        managed_id(session_name(id)) == Some(id),
{
    let name = session_name(id);
    assert(name.take(PREFIX@.len() as int) =~= PREFIX@);
    assert(name.skip(PREFIX@.len() as int) =~= id);
}

proof fn lemma_collect(
    s: Sessions,
    t: Transcript,
    backend: BackendView,
    names: Seq<Seq<char>>,
    found: Seq<WorkspaceView>,
)
    requires
        all_known(s),
        forall|i: int|
            0 <= i < names.len() ==> (managed_id(#[trigger] names[i]) matches Some(id)
                ==> s.contains_key(id)),
        answers_lookups(s, t, backend, names),
        found.len() + workspaces_named(s, names).len() <= 1024,
    ensures
        collect_run(t, backend, names, found).1 == Ok::<Seq<WorkspaceView>, WorkspaceHalt>(
            found + workspaces_named(s, names),
        ),
    decreases names.len(),
{
    if names.len() == 0 {
        assert(found + workspaces_named(s, names) =~= found);
    } else {
        let rest = names.drop_first();
        assert forall|i: int| 0 <= i < rest.len() implies (managed_id(#[trigger] rest[i]) matches Some(
            id,
        ) ==> s.contains_key(id)) by {
            assert(rest[i] == names[i + 1]);
        }
        match managed_id(names[0]) {
            None => lemma_collect(s, t, backend, rest, found),
            Some(id) => {
                assert(s.contains_key(id));
                lemma_says(s[id], command_run(t, backend, lookup_command(id)).1->Ok_0);
                let next = lookup_run(t, backend, id, true).0;
                lemma_collect(s, next, backend, rest, found.push(s[id]));
                assert(found.push(s[id]) + workspaces_named(s, rest) =~= found
                    + workspaces_named(s, names));
            },
        }
    }
}

/// The workspaces that are found by these names.
proof fn lemma_named(s: Sessions, names: Seq<Seq<char>>)
    requires
        all_known(s),
        names.no_duplicates(),
        forall|i: int|
            0 <= i < names.len() ==> (managed_id(#[trigger] names[i]) matches Some(id)
                ==> s.contains_key(id)),
    ensures
        ({
            let list = workspaces_named(s, names);
            &&& forall|i: int|
                0 <= i < list.len() ==> s.contains_key((#[trigger] list[i]).id) && s[list[i].id]
                    == list[i] && names.contains(session_name(list[i].id))
            &&& forall|id: Seq<char>|
                s.contains_key(id) && #[trigger] names.contains(session_name(id)) ==> list.contains(
                    s[id],
                )
            &&& list.no_duplicates()
        }),
    decreases names.len(),
{
    let list = workspaces_named(s, names);
    if names.len() > 0 {
        let rest = names.drop_first();
        let tail = workspaces_named(s, rest);
        assert forall|i: int| 0 <= i < rest.len() implies (managed_id(#[trigger] rest[i]) matches Some(
            id,
        ) ==> s.contains_key(id)) by {
            assert(rest[i] == names[i + 1]);
        }
        assert forall|i: int, j: int|
            0 <= i < rest.len() && 0 <= j < rest.len() && i != j implies rest[i] != rest[j] by {
            assert(names[i + 1] != names[j + 1]);
        }
        lemma_named(s, rest);
        lemma_managed(names[0]);
        let shift: int = if managed_id(names[0]) is Some {
            1
        } else {
            0
        };
        assert forall|i: int| 0 <= i < list.len() implies s.contains_key((#[trigger] list[i]).id)
            && s[list[i].id] == list[i] && names.contains(session_name(list[i].id)) by {
            if i < shift {
                assert(list[i] == s[managed_id(names[0])->Some_0]);
                assert(names[0] == session_name(list[i].id));
            } else {
                let w = tail[i - shift];
                assert(list[i] == w);
                let k = choose|k: int| 0 <= k < rest.len() && rest[k] == session_name(w.id);
                assert(names[k + 1] == session_name(w.id));
            }
        }
        assert forall|id: Seq<char>|
            s.contains_key(id) && #[trigger] names.contains(
                session_name(id),
            ) implies list.contains(s[id]) by {
            let k = choose|k: int| 0 <= k < names.len() && names[k] == session_name(id);
            lemma_session_managed(id);
            if k == 0 {
                assert(list[0] == s[id]);
            } else {
                assert(rest[k - 1] == session_name(id));
                assert(rest.contains(session_name(id)));
                let j = choose|j: int| 0 <= j < tail.len() && tail[j] == s[id];
                assert(list[j + shift] == s[id]);
            }
        }
        assert forall|i: int, j: int|
            0 <= i < list.len() && 0 <= j < list.len() && i != j implies list[i] != list[j] by {
            if i >= shift && j >= shift {
                assert(tail[i - shift] != tail[j - shift]);
            } else {
                let other = if i < shift {
                    tail[j - shift]
                } else {
                    tail[i - shift]
                };
                let k = choose|k: int| 0 <= k < rest.len() && rest[k] == session_name(other.id);
                assert(names[k + 1] != names[0]);
            }
        }
    }
}

/// Ordering a list of workspaces that are known by their identities keeps them.
proof fn lemma_ordered_exactly(s: Sessions, found: Seq<WorkspaceView>)
    requires
        found.no_duplicates(),
        forall|i: int|
            0 <= i < found.len() ==> s.contains_key((#[trigger] found[i]).id) && s[found[i].id]
                == found[i],
        forall|id: Seq<char>| #[trigger] s.contains_key(id) ==> found.contains(s[id]),
    ensures
        lists_exactly(s, ordered(found)),
{
    broadcast use vstd::seq_lib::group_to_multiset_ensures;

    let list = ordered(found);
    listing_is_ordered(found);
    found.lemma_multiset_has_no_duplicates();
    list.lemma_multiset_has_no_duplicates_conv();
    assert forall|w: WorkspaceView| list.contains(w) == found.contains(w) by {
        assert(list.contains(w) <==> list.to_multiset().count(w) > 0);
        assert(found.contains(w) <==> found.to_multiset().count(w) > 0);
    }
    assert forall|i: int| 0 <= i < list.len() implies s.contains_key((#[trigger] list[i]).id)
        && s[list[i].id] == list[i] by {
        assert(list.contains(list[i]));
        let k = choose|k: int| 0 <= k < found.len() && found[k] == list[i];
        assert(s.contains_key(found[k].id));
    }
    assert forall|i: int, j: int| 0 <= i < j < list.len() implies (#[trigger] list[i]).id != (
    #[trigger] list[j]).id by {
        assert(list[i] != list[j]);
        assert(s[list[i].id] == list[i] && s[list[j].id] == list[j]);
    }
}

/// Listing the workspaces of a server gives exactly those that it has, each once,
/// in the order of their identities; sessions that are not managed are left out.
pub proof fn listings_are_exact(
    s: Sessions,
    names: Seq<Seq<char>>,
    t: Transcript,
    backend: BackendView,
)
    requires
        all_known(s),
        names_sessions(s, names),
        workspaces_named(s, names).len() <= 1024,
        answers_listing(names, command_run(t, backend, sessions_command()).1),
        answers_lookups(s, command_run(t, backend, sessions_command()).0, backend, names),
    ensures
        list_run(t, backend).1 matches Ok(list) && lists_exactly(s, list),
{
    let (next, answer) = command_run(t, backend, sessions_command());
    lemma_named(s, names);
    let found = workspaces_named(s, names);
    lemma_ordered_exactly(s, found);
    if answer is Ok {
        text::lemma_listing(names);
        lemma_collect(s, next, backend, names, Seq::empty());
        assert(Seq::<WorkspaceView>::empty() + found =~= found);
    } else {
        assert(found =~= Seq::empty());
        assert(ordered(found) =~= Seq::empty());
    }
}

/// Two listings of the same workspaces are equal, in whatever order tmux names them.
pub proof fn listings_agree(s: Sessions, a: Seq<WorkspaceView>, b: Seq<WorkspaceView>)
    requires
        lists_exactly(s, a),
        lists_exactly(s, b),
    ensures
        a == b,
{
    assert forall|w: WorkspaceView| a.contains(w) == b.contains(w) by {
        if a.contains(w) {
            let k = choose|k: int| 0 <= k < a.len() && a[k] == w;
            assert(s.contains_key(a[k].id));
            assert(b.contains(s[a[k].id]));
        }
        if b.contains(w) {
            let k = choose|k: int| 0 <= k < b.len() && b[k] == w;
            assert(s.contains_key(b[k].id));
            assert(a.contains(s[b[k].id]));
        }
    }
    lemma_same_order(a, b);
}

proof fn lemma_same_order(a: Seq<WorkspaceView>, b: Seq<WorkspaceView>)
    requires
        is_ordered(a),
        is_ordered(b),
        forall|i: int, j: int|
            0 <= i < j < a.len() ==> (#[trigger] a[i]).id != (#[trigger] a[j]).id,
        forall|i: int, j: int|
            0 <= i < j < b.len() ==> (#[trigger] b[i]).id != (#[trigger] b[j]).id,
        forall|w: WorkspaceView| a.contains(w) == b.contains(w),
    ensures
        a == b,
    decreases a.len(),
{
    if a.len() == 0 {
        if b.len() > 0 {
            assert(b.contains(b[0]));
            assert(a.contains(b[0]));
        }
        assert(a =~= b);
    } else {
        assert(a.contains(a.last()));
        assert(b.contains(a.last()));
        let k = choose|k: int| 0 <= k < b.len() && b[k] == a.last();
        assert(b.contains(b.last()));
        assert(a.contains(b.last()));
        let j = choose|j: int| 0 <= j < a.len() && a[j] == b.last();
        if k < b.len() - 1 {
            assert(b[k].id != b[b.len() - 1].id);
            assert(j < a.len() - 1);
            assert(!text::precedes(a[a.len() - 1].id, a[j].id));
            assert(!text::precedes(b[b.len() - 1].id, b[k].id));
            text::lemma_precedes_total(a.last().id, b.last().id);
        }
        assert(a.last() == b.last());
        let x = a.drop_last();
        let y = b.drop_last();
        assert forall|w: WorkspaceView| x.contains(w) == y.contains(w) by {
            if x.contains(w) {
                let i = choose|i: int| 0 <= i < x.len() && x[i] == w;
                assert(a[i] == w && a[i].id != a[a.len() - 1].id);
                assert(b.contains(w));
                let n = choose|n: int| 0 <= n < b.len() && b[n] == w;
                assert(y[n] == w);
            }
            if y.contains(w) {
                let i = choose|i: int| 0 <= i < y.len() && y[i] == w;
                assert(b[i] == w && b[i].id != b[b.len() - 1].id);
                assert(a.contains(w));
                let n = choose|n: int| 0 <= n < a.len() && a[n] == w;
                assert(x[n] == w);
            }
        }
        assert(is_ordered(x)) by {
            assert forall|i: int, n: int| 0 <= i < n < x.len() implies !text::precedes(
                (#[trigger] x[n]).id,
                (#[trigger] x[i]).id,
            ) by {
                assert(!text::precedes(a[n].id, a[i].id));
            }
        }
        assert(is_ordered(y)) by {
            assert forall|i: int, n: int| 0 <= i < n < y.len() implies !text::precedes(
                (#[trigger] y[n]).id,
                (#[trigger] y[i]).id,
            ) by {
                assert(!text::precedes(b[n].id, b[i].id));
            }
        }
        assert forall|i: int, n: int| 0 <= i < n < x.len() implies (#[trigger] x[i]).id != (
        #[trigger] x[n]).id by {
            assert(a[i].id != a[n].id);
        }
        assert forall|i: int, n: int| 0 <= i < n < y.len() implies (#[trigger] y[i]).id != (
        #[trigger] y[n]).id by {
            assert(b[i].id != b[n].id);
        }
        lemma_same_order(x, y);
        assert(x.push(a.last()) =~= a);
        assert(y.push(b.last()) =~= b);
    }
}

// ---------------------------------------------------------------------------
// Creation
// ---------------------------------------------------------------------------

/// Creating a workspace that is not there adds exactly the incarnation that was asked
/// for: the session is started with the chosen generation, and what the server then has
/// under the identity is what is given.
pub proof fn creation_adds_one_workspace(
    s: Sessions,
    t: Transcript,
    backend: BackendView,
    id: Seq<char>,
    directory: Option<Seq<char>>,
    generation: Option<Seq<char>>,
    command: Option<Seq<char>>,
    w: WorkspaceView,
)
    requires
        all_known(s),
        !s.contains_key(id),
        is_known(w),
        w.id == id,
        directory_run(t, directory).1 is Ok,
        ({
            let t1 = directory_run(t, directory).0;
            let t2 = lookup_run(t1, backend, id, true).0;
            let (t3, probed) = probe_run(t2, backend);
            let (t4, chosen) = generation_run(t3, generation);
            let (t5, created) = command_run(
                t4,
                backend,
                create_command(id, w.generation, directory, command),
            );
            &&& answers_lookup(s, id, command_run(t1, backend, lookup_command(id)).1)
            &&& probed is Ok
            &&& chosen == Ok::<Seq<char>, WorkspaceHalt>(w.generation)
            &&& created is Ok
            &&& answers_lookup(
                s.insert(id, w),
                id,
                command_run(t5, backend, lookup_command(id)).1,
            )
        }),
    ensures
        create_run(t, backend, id, directory, generation, command).1 == Ok::<
            WorkspaceView,
            WorkspaceHalt,
        >(w),
        all_known(s.insert(id, w)),
{
    let more = s.insert(id, w);
    let t1 = directory_run(t, directory).0;
    let t2 = lookup_run(t1, backend, id, true).0;
    let t4 = generation_run(probe_run(t2, backend).0, generation).0;
    let t5 = command_run(
        t4,
        backend,
        create_command(id, w.generation, directory, command),
    ).0;
    lemma_says(w, command_run(t5, backend, lookup_command(id)).1->Ok_0);
    assert forall|x: Seq<char>| #[trigger] more.contains_key(x) implies more[x].id == x && is_known(
        more[x],
    ) by {
        if x != id {
            assert(s.contains_key(x));
        }
    }
}

/// Creating a workspace again gives the same incarnation, from whatever backend it is
/// asked for, and nothing but lookups reaches the server: no session is started.
pub proof fn a_retried_creation_gives_the_same(
    s: Sessions,
    t: Transcript,
    backend: BackendView,
    id: Seq<char>,
    directory: Option<Seq<char>>,
    generation: Option<Seq<char>>,
    command: Option<Seq<char>>,
)
    requires
        all_known(s),
        s.contains_key(id),
        directory_run(t, directory).1 is Ok,
        answers_lookup(
            s,
            id,
            command_run(directory_run(t, directory).0, backend, lookup_command(id)).1,
        ),
    ensures
        create_run(t, backend, id, directory, generation, command).1 == Ok::<
            WorkspaceView,
            WorkspaceHalt,
        >(s[id]),
        adds_only(
            t,
            create_run(t, backend, id, directory, generation, command).0,
            |call: CallView|
                is_lookup(backend, id, call) || call matches CallView::Path(
                    PathAction::IsDirectory,
                    _,
                ),
        ),
{
    lemma_says(
        s[id],
        command_run(directory_run(t, directory).0, backend, lookup_command(id)).1->Ok_0,
    );
    an_existing_workspace_is_kept(t, backend, id, directory, generation, command);
}

/// Listing before and after a creation that is retried gives the same: with the workspace
/// in it exactly once.
pub proof fn a_retried_creation_is_listed_once(
    s: Sessions,
    id: Seq<char>,
    names: Seq<Seq<char>>,
    before: Transcript,
    later_names: Seq<Seq<char>>,
    later: Transcript,
    backend: BackendView,
    later_backend: BackendView,
)
    requires
        all_known(s),
        s.contains_key(id),
        names_sessions(s, names),
        workspaces_named(s, names).len() <= 1024,
        answers_listing(names, command_run(before, backend, sessions_command()).1),
        answers_lookups(s, command_run(before, backend, sessions_command()).0, backend, names),
        names_sessions(s, later_names),
        workspaces_named(s, later_names).len() <= 1024,
        answers_listing(
            later_names,
            command_run(later, later_backend, sessions_command()).1,
        ),
        answers_lookups(
            s,
            command_run(later, later_backend, sessions_command()).0,
            later_backend,
            later_names,
        ),
    ensures
        list_run(before, backend).1 == list_run(later, later_backend).1,
        list_run(before, backend).1 is Ok,
        ({
            let list = list_run(before, backend).1->Ok_0;
            &&& list.contains(s[id])
            &&& forall|i: int, j: int|
                0 <= i < list.len() && 0 <= j < list.len() && (#[trigger] list[i]).id == id && (
                #[trigger] list[j]).id == id ==> i == j
        }),
{
    listings_are_exact(s, names, before, backend);
    listings_are_exact(s, later_names, later, later_backend);
    listings_agree(
        s,
        list_run(before, backend).1->Ok_0,
        list_run(later, later_backend).1->Ok_0,
    );
}

} // verus!
