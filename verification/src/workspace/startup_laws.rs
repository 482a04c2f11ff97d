//! What a new workspace's shell starts from, and how it is launched.

use crate::host::{
    ask_bytes, ask_done, ask_flag, ask_text, ask_variable, continues, lemma_ask_continues,
    lemma_continues, CallView, IoHalt, PathAction, ReplyView, Transcript,
};
use crate::journal::RetentionPolicy;
use crate::number;
use crate::paths::{is_absolute, path_in, quoted};
use crate::shell::{
    find_shell_run, is_supported, search_path, search_run, session_number, startup_directory,
    SHELL_ARGUMENT,
};
use crate::text;
use crate::workspace::command::command_run;
use crate::workspace::laws::{
    adds_only, lemma_adds, lemma_ask_adds, lemma_command_adds, lemma_lookup_adds, lemma_same_adds,
    Calls,
};
use crate::workspace::lifecycle_laws::{lemma_recording_adds, locked};
use crate::workspace::recording::start_recording_run;
use crate::workspace::sessions::{
    create_command, create_run, directory_run, is_kind, is_token, lemma_token_text, lookup_run,
    probe_run, random_token_run, version_command, WorkspaceView,
};
use crate::workspace::startup::{
    create_initialized_run, finish_run, launch_run, launcher_line, lock_run, new_incarnation_run,
    policy_run, request_error, startup_files, startup_script, state_root_run, write_run,
    BootstrapProfileView, CreationView,
};
use crate::workspace::{BackendView, ErrorKind};
use vstd::arithmetic::power::pow;
use vstd::prelude::*;
use vstd::string::*;
use vstd::utf8::{decode_utf8, encode_utf8};

verus! {

// ---------------------------------------------------------------------------
// Placeholders
// ---------------------------------------------------------------------------

/// A text put together of pieces, with another one between them.
pub open spec fn with_between(pieces: Seq<Seq<char>>, between: Seq<char>) -> Seq<char>
    decreases pieces.len(),
{
    if pieces.len() == 0 {
        Seq::empty()
    } else if pieces.len() == 1 {
        pieces[0]
    } else {
        pieces[0] + between + with_between(pieces.drop_first(), between)
    }
}

/// A piece in which a placeholder begins nowhere, not even where one follows it.
pub open spec fn free_of(piece: Seq<char>, placeholder: Seq<char>) -> bool {
    forall|i: int|
        0 <= i < piece.len() ==> !(#[trigger] (piece + placeholder).subrange(
            i,
            i + placeholder.len(),
        ) == placeholder)
}

proof fn lemma_replaced_free(piece: Seq<char>, rest: Seq<char>, from: Seq<char>, with: Seq<char>)
    requires
        from.len() > 0,
        free_of(piece, from),
        rest.len() == 0 || rest.len() >= from.len() && rest.take(from.len() as int) == from,
    ensures
        text::replaced(piece + rest, from, with) == piece + text::replaced(rest, from, with),
    decreases piece.len(),
{
    let whole = piece + rest;
    if piece.len() == 0 {
        assert(whole =~= rest);
        assert(piece + text::replaced(rest, from, with) =~= text::replaced(rest, from, with));
    } else {
        let more = piece.drop_first();
        assert(!text::occurs_at(whole, from, 0)) by {
            if text::occurs_at(whole, from, 0) {
                assert(whole.subrange(0, from.len() as int) == from);
                let model = piece + from;
                assert(model.subrange(0, from.len() as int) =~= from) by {
                    assert forall|k: int| 0 <= k < from.len() implies model[k] == from[k] by {
                        assert(whole.subrange(0, from.len() as int)[k] == from[k]);
                        if k >= piece.len() {
                            let at = k - piece.len();
                            assert(rest.len() > at);
                            assert(rest.take(from.len() as int)[at] == from[at]);
                            assert(whole[k] == rest[at]);
                        }
                    }
                }
                assert(model.subrange(0int, 0int + from.len()) == from);
            }
        }
        assert forall|i: int| 0 <= i < more.len() implies !(#[trigger] (more + from).subrange(
            i,
            i + from.len(),
        ) == from) by {
            assert((more + from).subrange(i, i + from.len()) =~= (piece + from).subrange(
                i + 1,
                i + 1 + from.len(),
            ));
        }
        lemma_replaced_free(more, rest, from, with);
        assert(whole.drop_first() =~= more + rest);
        assert(seq![whole[0]] + (more + text::replaced(rest, from, with)) =~= piece
            + text::replaced(rest, from, with));
    }
}

/// Filling a placeholder in puts the value in the place of every placeholder and leaves
/// everything between them as it is.
pub proof fn placeholders_are_filled_in(
    pieces: Seq<Seq<char>>,
    placeholder: Seq<char>,
    value: Seq<char>,
)
    requires
        placeholder.len() > 0,
        pieces.len() > 0,
        forall|i: int| 0 <= i < pieces.len() ==> free_of(#[trigger] pieces[i], placeholder),
    ensures
        text::replaced(with_between(pieces, placeholder), placeholder, value) == with_between(
            pieces,
            value,
        ),
    decreases pieces.len(),
{
    let none = Seq::<char>::empty();
    if pieces.len() == 1 {
        lemma_replaced_free(pieces[0], none, placeholder, value);
        assert(pieces[0] + none =~= pieces[0]);
        assert(pieces[0] + text::replaced(none, placeholder, value) =~= pieces[0]);
    } else {
        let rest = pieces.drop_first();
        assert forall|i: int| 0 <= i < rest.len() implies free_of(
            #[trigger] rest[i],
            placeholder,
        ) by {
            assert(rest[i] == pieces[i + 1]);
        }
        placeholders_are_filled_in(rest, placeholder, value);
        let tail = placeholder + with_between(rest, placeholder);
        assert(tail.take(placeholder.len() as int) =~= placeholder);
        lemma_replaced_free(pieces[0], tail, placeholder, value);
        assert(pieces[0] + placeholder + with_between(rest, placeholder) =~= pieces[0] + tail);
        assert(tail.subrange(0, placeholder.len() as int) =~= placeholder);
        assert(text::occurs_at(tail, placeholder, 0));
        assert(tail.skip(placeholder.len() as int) =~= with_between(rest, placeholder));
        assert(pieces[0] + (value + with_between(rest, value)) =~= pieces[0] + value
            + with_between(rest, value));
    }
}

// ---------------------------------------------------------------------------
// The startup files
// ---------------------------------------------------------------------------

/// What is exported before everything else: where the hooks write the execution state of
/// the shell, and the number of its session.
pub open spec fn exports(shell: Seq<char>, startup: Seq<char>, session: Seq<char>) -> Seq<char> {
    let activity = quoted(startup + "/activity"@);
    if shell == "fish"@ {
        "set -gx WARP_PERSISTENT_ACTIVITY_PATH "@ + activity
            + "\nset -gx WARP_PERSISTENT_ROOT_SESSION "@ + session + "\n"@
    } else {
        "export WARP_PERSISTENT_ACTIVITY_PATH="@ + activity
            + "\nexport WARP_PERSISTENT_ROOT_SESSION="@ + session + "\n"@
    }
}

/// The init script with its placeholders filled in.
pub open spec fn filled(init: Seq<char>, session: Seq<char>) -> Seq<char> {
    text::replaced(
        text::replaced(init, "@@WARP_SESSION_ID@@"@, session),
        "@@USING_CON_PTY_BOOLEAN@@"@,
        "false"@,
    )
}

/// The startup file of a shell: some exports, the init script with its placeholders filled
/// in, a line feed, and then the bootstrap script, byte for byte, and a line feed.
pub open spec fn is_startup_file(
    contents: Seq<u8>,
    profile: BootstrapProfileView,
    startup: Seq<char>,
    session: Seq<char>,
) -> bool {
    contents == encode_utf8(exports(profile.shell, startup, session)) + encode_utf8(
        filled(decode_utf8(profile.init_script), session),
    ) + Seq::empty().push(10u8) + profile.bootstrap_script + Seq::empty().push(10u8)
}

/// The files of a new shell are these, in this order: for every shell the startup file,
/// the name of the shell, its execution state at the start, and the retention; and for
/// zsh the startup file once more, behind what gives it its own directory back.
pub open spec fn are_startup_files(
    files: Seq<(Seq<char>, Seq<u8>)>,
    profile: BootstrapProfileView,
    startup: Seq<char>,
    session: Seq<char>,
    retention: RetentionPolicy,
) -> bool {
    &&& files.len() == (if profile.shell == "zsh"@ {
        5int
    } else {
        4
    })
    &&& files[0].0 == "startup"@
    &&& is_startup_file(files[0].1, profile, startup, session)
    &&& files[1] == ("shell"@, encode_utf8(profile.shell))
    &&& files[2] == ("activity"@, encode_utf8("starting\n"@))
    &&& files[3].0 == "retention"@
    &&& retention is Rolling ==> files[3].1 == encode_utf8("rolling\n"@)
    &&& retention is UntilWorkspaceDeleted ==> files[3].1 == encode_utf8("archive\n"@)
    &&& profile.shell == "zsh"@ ==> {
        &&& files[4].0 == ".zshrc"@
        &&& files[4].1 == encode_utf8(
            "if [[ -n $WARP_PERSISTENT_HAD_ZDOTDIR ]]; then ZDOTDIR=$WARP_PERSISTENT_ORIGINAL_ZDOTDIR; else unset ZDOTDIR; fi\nunset WARP_PERSISTENT_HAD_ZDOTDIR WARP_PERSISTENT_ORIGINAL_ZDOTDIR\n"@,
        ) + files[0].1
    }
}

proof fn lemma_files(
    profile: BootstrapProfileView,
    startup: Seq<char>,
    session: u64,
    retention: RetentionPolicy,
)
    requires
        startup.len() > 0,
        startup.last() != '/',
    ensures
        are_startup_files(
            startup_files(
                profile,
                decode_utf8(profile.init_script),
                startup,
                session,
                retention,
            ),
            profile,
            startup,
            number::decimal_text(session as nat),
            retention,
        ),
{
    reveal_strlit("activity");
    reveal_strlit("/activity");
    reveal_strlit("/");
    let init = decode_utf8(profile.init_script);
    let digits = number::decimal_text(session as nat);
    assert(path_in(startup, "activity"@) =~= startup + "/activity"@);
    let script = startup_script(profile, init, startup, session);
    assert(script =~= encode_utf8(exports(profile.shell, startup, digits)) + encode_utf8(
        filled(init, digits),
    ) + Seq::empty().push(10u8) + profile.bootstrap_script + Seq::empty().push(10u8));
}

proof fn lemma_kept(t: Transcript, next: Transcript, i: int)
    requires
        continues(t, next),
        0 <= i < t.calls.len(),
    ensures
        next.calls[i] == t.calls[i],
{
    assert(next.calls.take(t.calls.len() as int)[i] == next.calls[i]);
}

/// Files are written one after the other, as long as each was written.
proof fn lemma_written(
    t: Transcript,
    directory: Seq<char>,
    files: Seq<(Seq<char>, Seq<u8>)>,
    n: int,
)
    requires
        0 <= n < files.len(),
        t.replies.len() >= t.calls.len() + n,
        forall|j: int|
            0 <= j < n ==> t.replies[t.calls.len() + j] == #[trigger] done_reply(j),
    ensures
        ({
            let next = write_run(t, directory, files).0;
            &&& next.calls.len() > t.calls.len() + n
            &&& next.calls[t.calls.len() + n] == CallView::WriteNew(
                path_in(directory, files[n].0),
                files[n].1,
            )
            &&& continues(t, next)
        }),
    decreases files.len(),
{
    let call = CallView::WriteNew(path_in(directory, files[0].0), files[0].1);
    let (u, r) = ask_done(t, call);
    lemma_ask_continues(t, call);
    let rest = files.drop_first();
    let next = write_run(t, directory, files).0;
    if n == 0 {
        if r is Ok {
            lemma_write_continues(u, directory, rest);
            lemma_continues(t, u, next);
        }
    } else {
        assert(t.replies[t.calls.len() + 0int] == done_reply(0));
        assert forall|j: int| 0 <= j < n - 1 implies u.replies[u.calls.len() + j]
            == #[trigger] done_reply(j) by {
            assert(t.replies[t.calls.len() + (j + 1)] == done_reply(j + 1));
        }
        lemma_written(u, directory, rest, n - 1);
        assert(rest[n - 1] == files[n]);
        lemma_continues(t, u, next);
    }
}

/// The reply to something that was done.
pub open spec fn done_reply(_j: int) -> ReplyView {
    ReplyView::Done
}

proof fn lemma_write_continues(
    t: Transcript,
    directory: Seq<char>,
    files: Seq<(Seq<char>, Seq<u8>)>,
)
    ensures
        continues(t, write_run(t, directory, files).0),
    decreases files.len(),
{
    lemma_ask_continues(t, CallView::Clock);
    if files.len() > 0 {
        let call = CallView::WriteNew(path_in(directory, files[0].0), files[0].1);
        let (u, r) = ask_done(t, call);
        lemma_ask_continues(t, call);
        if r is Ok {
            lemma_write_continues(u, directory, files.drop_first());
            lemma_continues(t, u, write_run(t, directory, files).0);
        }
    }
}

/// What was written without a failure was replied to, file by file.
proof fn lemma_all_written(t: Transcript, directory: Seq<char>, files: Seq<(Seq<char>, Seq<u8>)>)
    requires
        write_run(t, directory, files).1 is Ok,
    ensures
        t.replies.len() >= t.calls.len() + files.len() || files.len() == 0,
        forall|j: int|
            0 <= j < files.len() ==> t.replies[t.calls.len() + j] == #[trigger] done_reply(j),
    decreases files.len(),
{
    if files.len() > 0 {
        let call = CallView::WriteNew(path_in(directory, files[0].0), files[0].1);
        let u = ask_done(t, call).0;
        lemma_all_written(u, directory, files.drop_first());
        assert forall|j: int| 0 <= j < files.len() implies t.replies[t.calls.len() + j]
            == #[trigger] done_reply(j) by {
            if j > 0 {
                assert(u.replies[u.calls.len() + (j - 1)] == done_reply(j - 1));
            }
        }
    }
}

/// The transcript in which a creation has found that there is no such workspace yet.
pub open spec fn vacant(t: Transcript, backend: BackendView, c: CreationView) -> Transcript {
    lookup_run(locked(t, backend, c), backend, c.id, true).0
}

/// A creation that may be carried out, and for which there is no workspace yet.
pub open spec fn is_vacant(t: Transcript, backend: BackendView, c: CreationView) -> bool {
    &&& is_token(c.id)
    &&& request_error(c.profile, c.executable, c.root) is None
    &&& state_root_run(t, c.root).1 is Ok
    &&& lock_run(
        state_root_run(t, c.root).0,
        path_in(c.root, c.id + ".lock"@),
        backend.timeout,
    ).1 is Ok
    &&& lookup_run(locked(t, backend, c), backend, c.id, true).1 matches Err(halt) && is_kind(
        halt,
        ErrorKind::NotFound,
    )
}

/// The digits of sixteen bytes: two for each of them, the greater one first.
pub open spec fn are_digits(text: Seq<char>, bytes: Seq<u8>) -> bool {
    &&& text.len() == 2 * bytes.len()
    &&& forall|i: int|
        0 <= i < bytes.len() ==> #[trigger] bytes[i] == 16 * number::digit_value(text[2 * i])
            + number::digit_value(text[2 * i + 1])
    &&& forall|i: int|
        0 <= i < text.len() ==> '0' <= #[trigger] text[i] <= '9' || 'a' <= text[i] <= 'f'
}

pub(crate) proof fn lemma_two_digits(byte: u8)
    ensures
        ({
            let two = number::hex_text(byte as nat, 2);
            &&& two.len() == 2
            &&& byte == 16 * number::digit_value(two[0]) + number::digit_value(two[1])
            &&& '0' <= two[0] <= '9' || 'a' <= two[0] <= 'f'
            &&& '0' <= two[1] <= '9' || 'a' <= two[1] <= 'f'
        }),
{
    reveal_with_fuel(number::hex_text, 3);
    let high = number::digit(((byte as nat / 16) % 16) as int);
    let low = number::digit((byte as nat % 16) as int);
    assert(number::hex_text(byte as nat, 2) =~= Seq::empty().push(high).push(low));
}

pub(crate) proof fn lemma_digits(bytes: Seq<u8>)
    ensures
        are_digits(number::hex_bytes_text(bytes, ""@), bytes),
    decreases bytes.len(),
{
    reveal_strlit("");
    if bytes.len() > 0 {
        let front = bytes.drop_last();
        let before = number::hex_bytes_text(front, ""@);
        lemma_digits(front);
        let two = number::hex_text(bytes.last() as nat, 2);
        lemma_two_digits(bytes.last());
        let whole = number::hex_bytes_text(bytes, ""@);
        if bytes.len() == 1 {
            assert(whole == two);
            assert(before.len() == 0);
        }
        assert(whole =~= before + two);
        assert forall|i: int| 0 <= i < bytes.len() implies #[trigger] bytes[i] == 16
            * number::digit_value(whole[2 * i]) + number::digit_value(whole[2 * i + 1]) by {
            if i < front.len() {
                assert(front[i] == bytes[i]);
                assert(whole[2 * i] == before[2 * i]);
                assert(whole[2 * i + 1] == before[2 * i + 1]);
            } else {
                assert(whole[2 * i] == two[0]);
                assert(whole[2 * i + 1] == two[1]);
            }
        }
        assert forall|i: int| 0 <= i < whole.len() implies '0' <= #[trigger] whole[i] <= '9'
            || 'a' <= whole[i] <= 'f' by {
            if i < before.len() {
                assert(whole[i] == before[i]);
            }
        }
    }
}

/// The calls from the `k`-th on start a shell: the first draws the bytes of its generation,
/// the second makes its directory, and the one `n` places on writes its `n`-th file.
pub open spec fn starts_shell(
    t: Transcript,
    k: int,
    n: int,
    c: CreationView,
    drawn: Seq<u8>,
    generation: Seq<char>,
    session: Seq<char>,
    files: Seq<(Seq<char>, Seq<u8>)>,
) -> bool {
    let startup = c.root + "/"@ + c.id + "-"@ + generation + ".shell"@;
    &&& are_digits(generation, drawn)
    &&& is_session(session, generation)
    &&& are_startup_files(files, c.profile, startup, session, c.retention)
    &&& t.calls[k] == CallView::RandomBytes
    &&& t.calls[k + 1] == CallView::Path(PathAction::MakeDirectory, startup)
    &&& 1 <= n <= files.len() ==> t.calls[k + 1 + n] == CallView::WriteNew(
        startup + "/"@ + files[n - 1].0,
        files[n - 1].1,
    )
}

/// A creation for which there is no workspace yet draws sixteen bytes for the generation,
/// makes the directory of the new shell under the state root and writes into it, one file
/// after the other as long as each is written, what the shell is to start from: the
/// request's init script with the session's number filled in, a line feed, and the request's
/// bootstrap script as it was given, whichever shell was asked for; the name of that shell;
/// that it is starting; and the retention that was asked for.
pub proof fn a_new_shell_starts_from_the_request(
    t: Transcript,
    backend: BackendView,
    c: CreationView,
    drawn: Seq<u8>,
    n: int,
)
    requires
        is_vacant(t, backend, c),
        c.root.last() != '/',
        vacant(t, backend, c).replies.len() > vacant(t, backend, c).calls.len() + 1 + n,
        vacant(t, backend, c).replies[vacant(t, backend, c).calls.len() as int]
            == ReplyView::Bytes(drawn),
        drawn.len() == 16,
        0 <= n <= 5,
        forall|j: int|
            0 <= j < n ==> vacant(t, backend, c).replies[vacant(t, backend, c).calls.len() + 1 + j]
                == #[trigger] done_reply(j),
    ensures
        ({
            let u = vacant(t, backend, c);
            let next = create_initialized_run(t, backend, c).0;
            let k = u.calls.len() as int;
            exists|generation: Seq<char>, session: Seq<char>, files: Seq<(Seq<char>, Seq<u8>)>|
                #[trigger] starts_shell(next, k, n, c, drawn, generation, session, files)
        }),
{
    let u = vacant(t, backend, c);
    assert(create_initialized_run(t, backend, c) == new_incarnation_run(u, backend, c));
    lemma_starts(u, backend, c, drawn, n);
}

/// A creation that gives a new workspace has written every one of these files.
pub proof fn a_created_shell_has_its_files(
    t: Transcript,
    backend: BackendView,
    c: CreationView,
    n: int,
)
    requires
        is_vacant(t, backend, c),
        c.root.last() != '/',
        create_initialized_run(t, backend, c).1 is Ok,
        0 <= n <= 4 || n == 5 && c.profile.shell == "zsh"@,
    ensures
        ({
            let next = create_initialized_run(t, backend, c).0;
            let k = vacant(t, backend, c).calls.len() as int;
            exists|
                drawn: Seq<u8>,
                generation: Seq<char>,
                session: Seq<char>,
                files: Seq<(Seq<char>, Seq<u8>)>,
            |
                #[trigger] starts_shell(next, k, n, c, drawn, generation, session, files)
                    && drawn.len() == 16
        }),
{
    let u = vacant(t, backend, c);
    assert(create_initialized_run(t, backend, c) == new_incarnation_run(u, backend, c));
    lemma_started(u, backend, c, n);
}

proof fn lemma_started(u: Transcript, backend: BackendView, c: CreationView, n: int)
    requires
        is_token(c.id),
        c.root.len() > 0,
        c.root.last() != '/',
        new_incarnation_run(u, backend, c).1 is Ok,
        0 <= n <= 4 || n == 5 && c.profile.shell == "zsh"@,
    ensures
        exists|
            drawn: Seq<u8>,
            generation: Seq<char>,
            session: Seq<char>,
            files: Seq<(Seq<char>, Seq<u8>)>,
        |
            #[trigger] starts_shell(
                new_incarnation_run(u, backend, c).0,
                u.calls.len() as int,
                n,
                c,
                drawn,
                generation,
                session,
                files,
            ) && drawn.len() == 16,
{
    let drawn = ask_bytes(u, CallView::RandomBytes).1->Ok_0;
    let (v, chosen) = random_token_run(u);
    let generation = chosen->Ok_0;
    let startup = startup_directory(c.root, c.id, generation);
    let w = ask_done(v, CallView::Path(PathAction::MakeDirectory, startup)).0;
    let files = startup_files(
        c.profile,
        decode_utf8(c.profile.init_script),
        startup,
        session_number(generation)->Some_0,
        c.retention,
    );
    assert(files.len() == 4 || files.len() == 5 && c.profile.shell == "zsh"@);
    assert(n <= files.len());
    lemma_all_written(w, startup, files);
    assert forall|j: int| 0 <= j < n implies u.replies[u.calls.len() + 1 + j]
        == #[trigger] done_reply(j) by {
        if j > 0 {
            assert(w.replies[w.calls.len() + (j - 1)] == done_reply(j - 1));
        }
    }
    lemma_starts(u, backend, c, drawn, n);
    let (generation, session, files) = choose|
        generation: Seq<char>,
        session: Seq<char>,
        files: Seq<(Seq<char>, Seq<u8>)>,
    |
        #[trigger] starts_shell(
            new_incarnation_run(u, backend, c).0,
            u.calls.len() as int,
            n,
            c,
            drawn,
            generation,
            session,
            files,
        );
    assert(starts_shell(
        new_incarnation_run(u, backend, c).0,
        u.calls.len() as int,
        n,
        c,
        drawn,
        generation,
        session,
        files,
    ));
}

/// The pane of a new workspace runs the launcher: the executable of the request, told the
/// directory of the shell's files, the name of the shell and where it was found. It runs in
/// the directory of the request, under the generation of those files.
pub proof fn the_pane_runs_the_launcher(
    t: Transcript,
    backend: BackendView,
    c: CreationView,
    generation: Seq<char>,
)
    requires
        is_token(c.id),
        c.root.len() > 0,
        c.root.last() != '/',
        find_shell_run(t, c.profile.shell).1 is Ok,
    ensures
        ({
            let (found, shell) = find_shell_run(t, c.profile.shell);
            let startup = c.root + "/"@ + c.id + "-"@ + generation + ".shell"@;
            let line = "exec "@ + quoted(c.executable) + " --persistent-workspace-shell "@
                + quoted(startup) + " "@ + quoted(c.profile.shell) + " "@ + quoted(shell->Ok_0);
            let (made, created) = create_run(
                found,
                backend,
                c.id,
                c.directory,
                Some(generation),
                Some(line),
            );
            let (next, r) = launch_run(t, backend, c, generation);
            &&& continues(made, next)
            &&& created is Err ==> next == made && r == created
            &&& r is Ok ==> r == created
        }),
{
    reveal_strlit(" ");
    reveal_strlit("--persistent-workspace-shell");
    reveal_strlit(" --persistent-workspace-shell ");
    let (found, shell) = find_shell_run(t, c.profile.shell);
    let startup = c.root + "/"@ + c.id + "-"@ + generation + ".shell"@;
    lemma_startup_path(c.root, c.id, generation);
    assert(" "@ + SHELL_ARGUMENT@ + " "@ =~= " --persistent-workspace-shell "@);
    let line = "exec "@ + quoted(c.executable) + " --persistent-workspace-shell "@ + quoted(startup)
        + " "@ + quoted(c.profile.shell) + " "@ + quoted(shell->Ok_0);
    assert(launcher_line(c.executable, startup, c.profile.shell, shell->Ok_0) =~= line);
    let (made, created) = create_run(
        found,
        backend,
        c.id,
        c.directory,
        Some(generation),
        Some(line),
    );
    lemma_ask_continues(made, CallView::Clock);
    if let Ok(workspace) = created {
        lemma_finish_adds(made, backend, c, workspace, startup, |call: CallView| true);
    }
}

#[verifier::spinoff_prover]
proof fn lemma_starts(u: Transcript, backend: BackendView, c: CreationView, drawn: Seq<u8>, n: int)
    requires
        is_token(c.id),
        c.root.len() > 0,
        c.root.last() != '/',
        u.replies.len() > u.calls.len() + 1 + n,
        u.replies[u.calls.len() as int] == ReplyView::Bytes(drawn),
        drawn.len() == 16,
        0 <= n <= 5,
        forall|j: int|
            0 <= j < n ==> u.replies[u.calls.len() + 1 + j] == #[trigger] done_reply(j),
    ensures
        exists|generation: Seq<char>, session: Seq<char>, files: Seq<(Seq<char>, Seq<u8>)>|
            #[trigger] starts_shell(
                new_incarnation_run(u, backend, c).0,
                u.calls.len() as int,
                n,
                c,
                drawn,
                generation,
                session,
                files,
            ),
{
    let k = u.calls.len() as int;
    let next = new_incarnation_run(u, backend, c).0;
    let (v, chosen) = random_token_run(u);
    let generation = chosen->Ok_0;
    lemma_digits(drawn);
    lemma_token_text(drawn);
    let number = session_number(generation)->Some_0;
    let session = number::decimal_text(number as nat);
    number::lemma_decimal(number as nat);
    lemma_first_digits(generation);
    let startup = c.root + "/"@ + c.id + "-"@ + generation + ".shell"@;
    lemma_startup_path(c.root, c.id, generation);
    let files = startup_files(
        c.profile,
        decode_utf8(c.profile.init_script),
        startup,
        number,
        c.retention,
    );
    reveal_strlit(".shell");
    lemma_files(c.profile, startup, number, c.retention);
    let make = CallView::Path(PathAction::MakeDirectory, startup);
    let (w, made) = ask_done(v, make);
    lemma_new_incarnation(u, backend, c, drawn);
    if n >= 1 {
        assert(u.replies[k + 1 + 0] == done_reply(0));
        assert(made is Ok);
        if n <= files.len() {
            assert forall|j: int| 0 <= j < n - 1 implies w.replies[w.calls.len() + j]
                == #[trigger] done_reply(j) by {
                assert(u.replies[u.calls.len() + 1 + (j + 1)] == done_reply(j + 1));
            }
            lemma_written(w, startup, files, n - 1);
            let written = write_run(w, startup, files).0;
            lemma_kept(written, next, k + 1 + n);
            lemma_file_path(startup, files, n - 1, c.profile, session, c.retention);
        }
    }
    assert(is_session(session, generation));
    assert(are_startup_files(files, c.profile, startup, session, c.retention));
    assert(next.calls[k] == CallView::RandomBytes);
    assert(next.calls[k + 1] == make);
    assert(starts_shell(next, k, n, c, drawn, generation, session, files));
}

proof fn lemma_first_digits(generation: Seq<char>)
    requires
        is_token(generation),
    ensures
        number::value_of(generation.take(16), 16) <= u64::MAX,
{
    let first = generation.take(16);
    assert forall|i: int| 0 <= i < first.len() implies number::is_hex_digit(
        #[trigger] first[i],
    ) by {
        assert(number::is_hex_digit(generation[i]));
    }
    number::lemma_hex_bound(first);
    assert(pow(16, 16) == 0x1_0000_0000_0000_0000) by {
        reveal_with_fuel(pow, 17);
    }
}

proof fn lemma_startup_path(root: Seq<char>, id: Seq<char>, generation: Seq<char>)
    requires
        is_token(id),
        root.len() > 0,
        root.last() != '/',
    ensures
        startup_directory(root, id, generation) == root + "/"@ + id + "-"@ + generation
            + ".shell"@,
{
    assert(number::is_hex_digit(id[0]));
    assert(root + "/"@ + (id + "-"@ + generation + ".shell"@) =~= root + "/"@ + id + "-"@
        + generation + ".shell"@);
}

proof fn lemma_file_path(
    startup: Seq<char>,
    files: Seq<(Seq<char>, Seq<u8>)>,
    n: int,
    profile: BootstrapProfileView,
    session: Seq<char>,
    retention: RetentionPolicy,
)
    requires
        are_startup_files(files, profile, startup, session, retention),
        0 <= n < files.len(),
        startup.len() > 0,
        startup.last() != '/',
    ensures
        path_in(startup, files[n].0) == startup + "/"@ + files[n].0,
{
    reveal_strlit("startup");
    reveal_strlit("shell");
    reveal_strlit("activity");
    reveal_strlit("retention");
    reveal_strlit(".zshrc");
}

/// A call that writes no new file but the one that releases the shell.
pub open spec fn writes_only(ready: Seq<char>, call: CallView) -> bool {
    call is WriteNew ==> call == CallView::WriteNew(ready, encode_utf8("ready\n"@))
}

proof fn lemma_search_adds(
    t: Transcript,
    directories: Seq<Seq<char>>,
    shell: Seq<char>,
    allowed: Calls,
)
    requires
        forall|call: CallView| call !is WriteNew ==> #[trigger] allowed(call),
    ensures
        adds_only(t, search_run(t, directories, shell).0, allowed),
    decreases directories.len(),
{
    if directories.len() == 0 {
        lemma_same_adds(t, allowed);
    } else {
        let candidate = path_in(directories[0], shell);
        let rest = directories.drop_first();
        if !is_absolute(candidate) {
            lemma_search_adds(t, rest, shell, allowed);
        } else {
            let look = CallView::Path(PathAction::IsFile, candidate);
            let (u, r) = ask_flag(t, look);
            lemma_ask_adds(t, look, allowed);
            if r == Ok::<bool, IoHalt>(false) {
                lemma_search_adds(u, rest, shell, allowed);
                lemma_adds(t, u, search_run(u, rest, shell).0, allowed);
            } else {
                let canonical = CallView::Path(PathAction::Canonical, candidate);
                lemma_ask_adds(u, canonical, allowed);
                lemma_adds(t, u, ask_text(u, canonical).0, allowed);
            }
        }
    }
}

proof fn lemma_create_adds(
    t: Transcript,
    backend: BackendView,
    c: CreationView,
    generation: Seq<char>,
    command: Seq<char>,
    allowed: Calls,
)
    requires
        forall|call: CallView| call !is WriteNew ==> #[trigger] allowed(call),
    ensures
        adds_only(
            t,
            create_run(t, backend, c.id, c.directory, Some(generation), Some(command)).0,
            allowed,
        ),
{
    lemma_same_adds(t, allowed);
    if is_token(c.id) {
        let (t1, checked) = directory_run(t, c.directory);
        if let Some(path) = c.directory {
            lemma_ask_adds(t, CallView::Path(PathAction::IsDirectory, path), allowed);
        }
        assert(adds_only(t, t1, allowed));
        let (t2, found) = lookup_run(t1, backend, c.id, true);
        lemma_lookup_adds(t1, backend, c.id, true, allowed);
        lemma_adds(t, t1, t2, allowed);
        let (t3, probed) = probe_run(t2, backend);
        lemma_command_adds(t2, backend, version_command(), allowed);
        lemma_adds(t, t2, t3, allowed);
        let line = create_command(c.id, generation, c.directory, Some(command));
        let t4 = command_run(t3, backend, line).0;
        lemma_command_adds(t3, backend, line, allowed);
        lemma_adds(t, t3, t4, allowed);
        lemma_lookup_adds(t4, backend, c.id, true, allowed);
        lemma_adds(t, t4, lookup_run(t4, backend, c.id, true).0, allowed);
    }
}

/// Finishing a shell writes no new file but the one that releases it.
proof fn lemma_finish_adds(
    t: Transcript,
    backend: BackendView,
    c: CreationView,
    workspace: WorkspaceView,
    startup: Seq<char>,
    allowed: Calls,
)
    requires
        forall|call: CallView|
            writes_only(path_in(startup, "ready"@), call) ==> #[trigger] allowed(call),
    ensures
        adds_only(
            t,
            finish_run(t, backend, workspace, c.executable, c.root, startup).0,
            allowed,
        ),
{
    let ready = path_in(startup, "ready"@);
    let look = CallView::Path(PathAction::IsFile, ready);
    let t3 = ask_flag(t, look).0;
    lemma_ask_adds(t, look, allowed);
        let read = CallView::Path(PathAction::Read, path_in(startup, "retention"@));
    let (t4, policy) = policy_run(t3, startup);
    lemma_ask_adds(t3, read, allowed);
    lemma_adds(t, t3, t4, allowed);
    if let Ok(retention) = policy {
        let t5 = start_recording_run(
            t4,
            backend,
            workspace.id,
            workspace.generation,
            c.executable,
            c.root,
            retention,
        ).0;
        lemma_recording_adds(
            t4,
            backend,
            workspace.id,
            workspace.generation,
            c.executable,
            c.root,
            retention,
            allowed,
        );
        lemma_adds(t, t4, t5, allowed);
        let write = CallView::WriteNew(ready, encode_utf8("ready\n"@));
        let t6 = ask_done(t5, write).0;
        lemma_ask_adds(t5, write, allowed);
        lemma_adds(t, t5, t6, allowed);
        let sync = CallView::Path(PathAction::SyncDirectory, startup);
        lemma_ask_adds(t6, sync, allowed);
        lemma_adds(t, t6, ask_done(t6, sync).0, allowed);
    }
}

/// Launching a shell writes no new file but the one that releases it.
proof fn lemma_launch_adds(
    t: Transcript,
    backend: BackendView,
    c: CreationView,
    generation: Seq<char>,
    allowed: Calls,
)
    requires
        forall|call: CallView|
            writes_only(
                path_in(startup_directory(c.root, c.id, generation), "ready"@),
                call,
            ) ==> #[trigger] allowed(call),
    ensures
        adds_only(t, launch_run(t, backend, c, generation).0, allowed),
{
    let startup = startup_directory(c.root, c.id, generation);
    let (t1, found) = find_shell_run(t, c.profile.shell);
    lemma_same_adds(t, allowed);
    if is_supported(c.profile.shell) {
        let variable = CallView::Variable("PATH"@);
        let (t0, r) = ask_variable(t, variable);
        lemma_ask_adds(t, variable, allowed);
        if let Ok(path) = r {
            let directories = search_path(
                match path {
                    Some(path) => path,
                    None => Seq::empty(),
                },
            );
            lemma_search_adds(t0, directories, c.profile.shell, allowed);
            lemma_adds(t, t0, t1, allowed);
        }
    }
    if let Ok(shell) = found {
        let line = launcher_line(c.executable, startup, c.profile.shell, shell);
        let (t2, created) = create_run(
            t1,
            backend,
            c.id,
            c.directory,
            Some(generation),
            Some(line),
        );
        lemma_create_adds(t1, backend, c, generation, line, allowed);
        lemma_adds(t, t1, t2, allowed);
        if let Ok(workspace) = created {
            lemma_finish_adds(t2, backend, c, workspace, startup, allowed);
            lemma_adds(
                t,
                t2,
                finish_run(t2, backend, workspace, c.executable, c.root, startup).0,
                allowed,
            );
        }
    }
}

/// What a new incarnation goes on from: the random bytes, its directory and its files.
proof fn lemma_new_incarnation(
    u: Transcript,
    backend: BackendView,
    c: CreationView,
    drawn: Seq<u8>,
)
    requires
        u.replies.len() > u.calls.len(),
        u.replies[u.calls.len() as int] == ReplyView::Bytes(drawn),
        drawn.len() == 16,
    ensures
        ({
            let v = random_token_run(u).0;
            let generation = random_token_run(u).1->Ok_0;
            let startup = startup_directory(c.root, c.id, generation);
            let (w, made) = ask_done(v, CallView::Path(PathAction::MakeDirectory, startup));
            let files = startup_files(
                c.profile,
                decode_utf8(c.profile.init_script),
                startup,
                session_number(generation)->Some_0,
                c.retention,
            );
            let next = new_incarnation_run(u, backend, c).0;
            &&& random_token_run(u).1 is Ok
            &&& v == ask_bytes(u, CallView::RandomBytes).0
            &&& next.calls.len() >= u.calls.len() + 2
            &&& next.calls[u.calls.len() as int] == CallView::RandomBytes
            &&& next.calls[u.calls.len() as int + 1] == CallView::Path(
                PathAction::MakeDirectory,
                startup,
            )
            &&& w.calls.len() == u.calls.len() + 2
            &&& w.replies == u.replies
            &&& made is Ok ==> continues(write_run(w, startup, files).0, next)
        }),
{
    let v = random_token_run(u).0;
    let generation = random_token_run(u).1->Ok_0;
    let startup = startup_directory(c.root, c.id, generation);
    let (w, made) = ask_done(v, CallView::Path(PathAction::MakeDirectory, startup));
    let files = startup_files(
        c.profile,
        decode_utf8(c.profile.init_script),
        startup,
        session_number(generation)->Some_0,
        c.retention,
    );
    lemma_ask_continues(w, CallView::Clock);
    assert(w.calls =~= u.calls.push(CallView::RandomBytes).push(
        CallView::Path(PathAction::MakeDirectory, startup),
    ));
    if made is Ok {
        let (x, written) = write_run(w, startup, files);
        lemma_write_continues(w, startup, files);
        lemma_ask_continues(x, CallView::Clock);
        if written is Ok {
            lemma_launch_adds(x, backend, c, generation, |call: CallView| true);
            lemma_continues(w, x, launch_run(x, backend, c, generation).0);
        }
    }
    let next = new_incarnation_run(u, backend, c).0;
    assert(continues(w, next));
    lemma_kept(w, next, u.calls.len() as int);
    lemma_kept(w, next, u.calls.len() as int + 1);
}

/// The number of a generation's session, in decimal digits: that of its first sixteen
/// digits, but not zero.
pub open spec fn is_session(text: Seq<char>, generation: Seq<char>) -> bool {
    let n = number::value_of(generation.take(16), 16);
    &&& number::all_decimal(text)
    &&& text.len() > 0
    &&& number::value_of(text, 10) == (if n == 0 {
        1
    } else {
        n
    })
}

/// A call that writes one of these files, or the one that releases the shell, or none.
pub open spec fn writes_its_own(
    startup: Seq<char>,
    files: Seq<(Seq<char>, Seq<u8>)>,
    call: CallView,
) -> bool {
    call matches CallView::WriteNew(path, contents) ==> {
        ||| path == path_in(startup, "ready"@) && contents == encode_utf8("ready\n"@)
        ||| exists|n: int|
            0 <= n < files.len() && path == path_in(startup, (#[trigger] files[n]).0) && contents
                == files[n].1
    }
}

proof fn lemma_write_adds(
    t: Transcript,
    directory: Seq<char>,
    files: Seq<(Seq<char>, Seq<u8>)>,
    allowed: Calls,
)
    requires
        forall|n: int|
            0 <= n < files.len() ==> allowed(
                CallView::WriteNew(path_in(directory, (#[trigger] files[n]).0), files[n].1),
            ),
    ensures
        adds_only(t, write_run(t, directory, files).0, allowed),
    decreases files.len(),
{
    lemma_same_adds(t, allowed);
    if files.len() > 0 {
        let call = CallView::WriteNew(path_in(directory, files[0].0), files[0].1);
        let (u, r) = ask_done(t, call);
        lemma_ask_adds(t, call, allowed);
        if r is Ok {
            let rest = files.drop_first();
            assert forall|n: int| 0 <= n < rest.len() implies allowed(
                CallView::WriteNew(path_in(directory, (#[trigger] rest[n]).0), rest[n].1),
            ) by {
                assert(rest[n] == files[n + 1]);
            }
            lemma_write_adds(u, directory, rest, allowed);
            lemma_adds(t, u, write_run(u, directory, rest).0, allowed);
        }
    }
}

/// A new incarnation writes no file but those that its shell starts from and, in the end,
/// the one that releases the shell.
pub proof fn no_other_file_is_written(
    u: Transcript,
    backend: BackendView,
    c: CreationView,
    drawn: Seq<u8>,
)
    requires
        is_token(c.id),
        c.root.len() > 0,
        c.root.last() != '/',
        u.replies.len() > u.calls.len(),
        u.replies[u.calls.len() as int] == ReplyView::Bytes(drawn),
        drawn.len() == 16,
    ensures
        exists|generation: Seq<char>, session: Seq<char>, files: Seq<(Seq<char>, Seq<u8>)>|
            {
                &&& are_digits(generation, drawn)
                &&& is_session(session, generation)
                &&& #[trigger] is_written_only(
                    u,
                    new_incarnation_run(u, backend, c).0,
                    c,
                    generation,
                    session,
                    files,
                )
            },
{
    let (v, chosen) = random_token_run(u);
    let generation = chosen->Ok_0;
    lemma_digits(drawn);
    lemma_token_text(drawn);
    let number = session_number(generation)->Some_0;
    let session = number::decimal_text(number as nat);
    number::lemma_decimal(number as nat);
    lemma_first_digits(generation);
    let startup = c.root + "/"@ + c.id + "-"@ + generation + ".shell"@;
    lemma_startup_path(c.root, c.id, generation);
    let files = startup_files(
        c.profile,
        decode_utf8(c.profile.init_script),
        startup,
        number,
        c.retention,
    );
    reveal_strlit(".shell");
    lemma_files(c.profile, startup, number, c.retention);
    let allowed: Calls = |call: CallView| writes_its_own(startup, files, call);
    let make = CallView::Path(PathAction::MakeDirectory, startup);
    let (w, made) = ask_done(v, make);
    lemma_ask_adds(u, CallView::RandomBytes, allowed);
    lemma_ask_adds(v, make, allowed);
    lemma_adds(u, v, w, allowed);
    if made is Ok {
        let (x, written) = write_run(w, startup, files);
        lemma_write_adds(w, startup, files, allowed);
        lemma_adds(u, w, x, allowed);
        if written is Ok {
            lemma_launch_adds(x, backend, c, generation, allowed);
            lemma_adds(u, x, launch_run(x, backend, c, generation).0, allowed);
        }
    }
    let next = new_incarnation_run(u, backend, c).0;
    assert(adds_only(u, next, allowed));
    assert forall|i: int| u.calls.len() <= i < next.calls.len() implies writes_its_own(
        startup,
        files,
        #[trigger] next.calls[i],
    ) by {
        assert(allowed(next.calls[i]));
    }
    assert(is_session(session, generation));
    assert(is_written_only(u, next, c, generation, session, files));
}

/// From `t` to `next` nothing is written but these files, which are those of the request.
pub open spec fn is_written_only(
    t: Transcript,
    next: Transcript,
    c: CreationView,
    generation: Seq<char>,
    session: Seq<char>,
    files: Seq<(Seq<char>, Seq<u8>)>,
) -> bool {
    let startup = c.root + "/"@ + c.id + "-"@ + generation + ".shell"@;
    &&& are_startup_files(files, c.profile, startup, session, c.retention)
    &&& forall|i: int|
        t.calls.len() <= i < next.calls.len() ==> writes_its_own(
            startup,
            files,
            #[trigger] next.calls[i],
        )
}

} // verus!
