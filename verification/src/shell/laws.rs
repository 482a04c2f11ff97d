//! What a workspace's shell is started with, where it is found, and what it left behind.

use crate::host::{ask_flag, ask_variable, CallView, IoHalt, PathAction, ReplyView, Transcript};
use crate::paths::{literal, path_in, quoting_is_literal, Quoting};
use crate::shell::{
    activity_run, await_ready_run, find_shell_run, launched, search_run, shell_request,
    stored_shell_run, ShellRequestView,
};
use crate::text;
use crate::workspace::sessions::is_token;
use vstd::prelude::*;
use vstd::string::*;
use vstd::utf8::{encode_utf8, encode_utf8_decode_utf8, encode_utf8_valid_utf8};

verus! {

/// The shells that can be persistent.
pub open spec fn is_known(shell: Seq<char>) -> bool {
    shell == "bash"@ || shell == "zsh"@ || shell == "fish"@
}

/// A launcher that is told a directory, a known shell and an executable, both by their full
/// paths, starts exactly those; told anything else it starts nothing; and a program whose
/// first argument is another one is no launcher.
pub proof fn launchers_start_what_they_are_told(arguments: Seq<Seq<char>>)
    ensures
        shell_request(arguments) is Some <==> arguments.len() > 0 && arguments[0]
            == "--persistent-workspace-shell"@,
        shell_request(arguments) matches Some(r) ==> {
            &&& r is Ok <==> {
                &&& arguments.len() == 4
                &&& arguments[1].len() > 0 && arguments[1][0] == '/'
                &&& is_known(arguments[2])
                &&& arguments[3].len() > 0 && arguments[3][0] == '/'
            }
            &&& r matches Ok(request) ==> request.directory == arguments[1] && request.shell
                == arguments[2] && request.executable == arguments[3]
            &&& r matches Err(error) ==> error.kind is InvalidInput && error.message
                == "Invalid persistent shell launch"@
        },
{
}

/// The changes of the environment give a variable this value, and no other one after it. A
/// change without a value takes the variable away.
pub open spec fn gives(
    environment: Seq<(Seq<char>, Option<Seq<char>>)>,
    name: Seq<char>,
    value: Option<Seq<char>>,
) -> bool {
    exists|i: int|
        {
            &&& 0 <= i < environment.len()
            &&& #[trigger] environment[i] == (name, value)
            &&& forall|j: int| i < j < environment.len() ==> #[trigger] environment[j].0 != name
        }
}

/// Every shell is the executable that was asked for and is started interactively; it reads
/// the startup file of its directory and none of its usual ones: bash by its options, fish
/// by its first command, and zsh by the directory of its files, the one before being kept
/// for it.
pub proof fn shells_read_their_startup_file(
    request: ShellRequestView,
    zdotdir: Option<Seq<char>>,
)
    requires
        is_known(request.shell),
        request.directory.len() > 0,
        request.directory.last() != '/',
    ensures
        ({
            let launch = launched(request, zdotdir);
            let startup = request.directory + "/startup"@;
            &&& launch.executable == request.executable
            &&& request.shell == "bash"@ ==> {
                &&& launch.arguments.len() == 4
                &&& launch.arguments[0] == "--noprofile"@
                &&& launch.arguments[1] == "--rcfile"@
                &&& launch.arguments[2] == startup
                &&& launch.arguments[3] == "-i"@
            }
            &&& request.shell == "zsh"@ ==> {
                &&& launch.arguments.len() == 1
                &&& launch.arguments[0] == "-i"@
                &&& gives(launch.environment, "ZDOTDIR"@, Some(request.directory))
                &&& gives(launch.environment, "WARP_PERSISTENT_ORIGINAL_ZDOTDIR"@, zdotdir)
                &&& gives(
                    launch.environment,
                    "WARP_PERSISTENT_HAD_ZDOTDIR"@,
                    if zdotdir is Some {
                        Some("1"@)
                    } else {
                        None
                    },
                )
            }
            &&& request.shell == "fish"@ ==> {
                &&& launch.arguments.len() == 4
                &&& launch.arguments[0] == "--no-config"@
                &&& launch.arguments[1] == "--interactive"@
                &&& launch.arguments[2] == "--init-command"@
                &&& launch.arguments[3].len() > 7 && launch.arguments[3].take(7) == "source "@
                &&& literal(launch.arguments[3].skip(7)) == Some((startup, Quoting::Plain))
            }
            &&& request.shell != "zsh"@ ==> forall|i: int|
                0 <= i < launch.environment.len() ==> #[trigger] launch.environment[i].0
                    != "ZDOTDIR"@
            &&& gives(launch.environment, "TERM_PROGRAM"@, Some("WarpTerminal"@))
            &&& gives(launch.environment, "WARP_PERSISTENT_WORKSPACE"@, Some("1"@))
            &&& gives(launch.environment, "WARP_BOOTSTRAPPED"@, None)
            &&& gives(launch.environment, "WARP_SESSION_ID"@, None)
            &&& gives(launch.environment, "BASH_ENV"@, None)
            &&& gives(launch.environment, "ENV"@, None)
        }),
{
    reveal_strlit("startup");
    reveal_strlit("/startup");
    reveal_strlit("/");
    reveal_strlit("source ");
    reveal_strlit("bash");
    reveal_strlit("zsh");
    reveal_strlit("fish");
    assert("bash"@.len() == 4 && "zsh"@.len() == 3 && "fish"@.len() == 4);
    assert("bash"@[0] == 'b' && "fish"@[0] == 'f');
    let startup = request.directory + "/startup"@;
    assert(path_in(request.directory, "startup"@) =~= startup);
    quoting_is_literal(startup);
    let word = crate::paths::quoted(startup);
    assert(("source "@ + word).take(7) =~= "source "@);
    assert(("source "@ + word).skip(7) =~= word);
    lemma_names();
    let launch = launched(request, zdotdir);
    let environment = launch.environment;
    let none = None::<Seq<char>>;
    assert(environment[0] == ("TERM_PROGRAM"@, Some("WarpTerminal"@)));
    assert(environment[1] == ("WARP_PERSISTENT_WORKSPACE"@, Some("1"@)));
    assert(environment[2] == ("WARP_BOOTSTRAPPED"@, none));
    assert(environment[3] == ("WARP_SESSION_ID"@, none));
    assert(environment[4] == ("BASH_ENV"@, none));
    assert(environment[5] == ("ENV"@, none));
    if request.shell == "zsh"@ {
        assert(environment[6] == ("WARP_PERSISTENT_ORIGINAL_ZDOTDIR"@, zdotdir));
        assert(environment[7].0 == "WARP_PERSISTENT_HAD_ZDOTDIR"@);
        assert(environment[8] == ("ZDOTDIR"@, Some(request.directory)));
    }
}

/// The names of the variables differ.
proof fn lemma_names()
    ensures
        "ZDOTDIR"@.len() == 7,
        "WARP_PERSISTENT_ORIGINAL_ZDOTDIR"@.len() == 32,
        "WARP_PERSISTENT_HAD_ZDOTDIR"@.len() == 27,
        "TERM_PROGRAM"@.len() == 12,
        "WARP_PERSISTENT_WORKSPACE"@.len() == 25,
        "WARP_BOOTSTRAPPED"@.len() == 17,
        "WARP_SESSION_ID"@.len() == 15,
        "BASH_ENV"@.len() == 8,
        "ENV"@.len() == 3,
{
    reveal_strlit("ZDOTDIR");
    reveal_strlit("WARP_PERSISTENT_ORIGINAL_ZDOTDIR");
    reveal_strlit("WARP_PERSISTENT_HAD_ZDOTDIR");
    reveal_strlit("TERM_PROGRAM");
    reveal_strlit("WARP_PERSISTENT_WORKSPACE");
    reveal_strlit("WARP_BOOTSTRAPPED");
    reveal_strlit("WARP_SESSION_ID");
    reveal_strlit("BASH_ENV");
    reveal_strlit("ENV");
}

/// A shell is looked for in the directories of the search path, one after the other: it is
/// the one of the first directory that holds a file of its name.
pub proof fn the_first_shell_is_taken(
    t: Transcript,
    before: Seq<Seq<char>>,
    directory: Seq<char>,
    after: Seq<Seq<char>>,
    shell: Seq<char>,
)
    requires
        directory.len() > 0,
        directory[0] == '/',
        directory.last() != '/',
        shell.len() > 0,
        shell[0] != '/',
        forall|i: int|
            0 <= i < before.len() ==> (#[trigger] before[i]).len() > 0 && before[i][0] == '/',
        t.replies.len() > t.calls.len() + before.len(),
        forall|i: int|
            0 <= i < before.len() ==> t.replies[t.calls.len() + i] == #[trigger] answer(i, false),
        t.replies[t.calls.len() + before.len() as int] == answer(before.len() as int, true),
    ensures
        ({
            let (next, r) = search_run(t, before.push(directory) + after, shell);
            let k = t.calls.len() + before.len() as int;
            &&& next.calls.len() == k + 2
            &&& next.calls[k] == CallView::Path(
                PathAction::IsFile,
                directory + "/"@ + shell,
            )
            &&& next.calls[k + 1] == CallView::Path(
                PathAction::Canonical,
                directory + "/"@ + shell,
            )
            &&& k + 1 < t.replies.len() && t.replies[k + 1] is Text ==> r == Ok::<_, IoHalt>(
                t.replies[k + 1]->Text_0,
            )
        }),
    decreases before.len(),
{
    let whole = before.push(directory) + after;
    if before.len() == 0 {
        assert(whole[0] == directory);
        assert(t.replies[t.calls.len() as int] == answer(0, true));
    } else {
        let rest = before.drop_first();
        assert(whole[0] == before[0]);
        assert(whole.drop_first() =~= rest.push(directory) + after);
        let candidate = path_in(before[0], shell);
        assert(candidate[0] == '/');
        let u = ask_flag(t, CallView::Path(PathAction::IsFile, candidate)).0;
        assert(t.replies[t.calls.len() + 0int] == answer(0, false));
        assert forall|i: int| 0 <= i < rest.len() implies u.replies[u.calls.len() + i]
            == #[trigger] answer(i, false) by {
            assert(t.replies[t.calls.len() + (i + 1)] == answer(i + 1, false));
        }
        assert forall|i: int| 0 <= i < rest.len() implies (#[trigger] rest[i]).len() > 0
            && rest[i][0] == '/' by {
            assert(rest[i] == before[i + 1]);
        }
        the_first_shell_is_taken(u, rest, directory, after, shell);
    }
}

/// The answer to a question.
pub open spec fn answer(_i: int, flag: bool) -> ReplyView {
    ReplyView::Flag(flag)
}

/// A known shell is looked for in the search path of the daemon, and after that in `/bin`
/// and in `/usr/bin`; another one is not looked for.
pub proof fn known_shells_are_looked_for(t: Transcript, shell: Seq<char>)
    ensures
        !is_known(shell) ==> find_shell_run(t, shell).0 == t && find_shell_run(t, shell).1 is Err,
        is_known(shell) ==> {
            let (u, r) = ask_variable(t, CallView::Variable("PATH"@));
            &&& r matches Ok(path) ==> exists|directories: Seq<Seq<char>>|
                {
                    &&& directories.len() >= 2
                    &&& directories[directories.len() - 2] == "/bin"@
                    &&& directories.last() == "/usr/bin"@
                    &&& directories.drop_last().drop_last() == text::split_by(
                        match path {
                            Some(path) => path,
                            None => ""@,
                        },
                        ':',
                    )
                    &&& find_shell_run(t, shell) == #[trigger] search_run(u, directories, shell)
                }
        },
{
    reveal_strlit("");
    let (u, r) = ask_variable(t, CallView::Variable("PATH"@));
    if is_known(shell) {
        if let Ok(path) = r {
            let value = match path {
                Some(path) => path,
                None => ""@,
            };
            assert(""@ =~= Seq::empty());
            let parts = text::split_by(value, ':');
            let directories = parts.push("/bin"@).push("/usr/bin"@);
            assert(directories.drop_last().drop_last() =~= parts);
        }
    }
}

/// The state of a workspace's shell is what its hooks have written into the file that was
/// made with it, and it is known only where that is one of the three states.
pub proof fn the_state_is_what_the_hooks_wrote(
    t: Transcript,
    root: Seq<char>,
    id: Seq<char>,
    generation: Seq<char>,
    state: Seq<char>,
)
    requires
        is_token(id),
        is_token(generation),
        root.len() > 0,
        root.last() != '/',
        t.replies.len() > t.calls.len(),
        t.replies[t.calls.len() as int] == ReplyView::Bytes(encode_utf8(state + "\n"@)),
    ensures
        ({
            let (next, r) = activity_run(t, root, id, generation);
            let known = state == "starting"@ || state == "running"@ || state == "idle"@;
            &&& next.calls == t.calls.push(
                CallView::ReadStart(
                    root + "/"@ + id + "-"@ + generation + ".shell/activity"@,
                    16,
                ),
            )
            &&& known ==> r == Ok::<_, IoHalt>(Some(state))
            &&& !known ==> r == Ok::<_, IoHalt>(None::<Seq<char>>)
        }),
{
    reveal_strlit("\n");
    reveal_strlit("/");
    reveal_strlit(".shell");
    reveal_strlit("activity");
    reveal_strlit(".shell/activity");
    assert(crate::number::is_hex_digit(id[0]));
    let startup = crate::shell::startup_directory(root, id, generation);
    assert(startup.last() == 'l');
    assert(path_in(startup, "activity"@) =~= root + "/"@ + id + "-"@ + generation
        + ".shell/activity"@);
    reveal_strlit("starting");
    reveal_strlit("running");
    reveal_strlit("idle");
    reveal_strlit("starting\n");
    reveal_strlit("running\n");
    reveal_strlit("idle\n");
    assert("starting\n"@ =~= "starting"@ + "\n"@);
    assert("running\n"@ =~= "running"@ + "\n"@);
    assert("idle\n"@ =~= "idle"@ + "\n"@);
    lemma_line(state, "starting"@, "starting\n"@);
    lemma_line(state, "running"@, "running\n"@);
    lemma_line(state, "idle"@, "idle\n"@);
}

/// A line tells one word only.
proof fn lemma_line(state: Seq<char>, word: Seq<char>, line: Seq<char>)
    requires
        line == word + "\n"@,
    ensures
        encode_utf8(state + "\n"@) == encode_utf8(line) <==> state == word,
{
    reveal_strlit("\n");
    encode_utf8_decode_utf8(state + "\n"@);
    encode_utf8_decode_utf8(line);
    if state + "\n"@ == line {
        assert(state =~= line.drop_last());
        assert(word =~= line.drop_last());
    }
}

/// The shell of a workspace is the one that was stored with it, where that is a known one;
/// it is looked for under the state directory of the home directory.
pub proof fn the_stored_shell_is_given(
    t: Transcript,
    id: Seq<char>,
    generation: Seq<char>,
    home: Seq<char>,
    shell: Seq<char>,
)
    requires
        is_token(id),
        home.len() > 0,
        home.last() != '/',
        t.replies.len() > t.calls.len() + 1,
        t.replies[t.calls.len() as int] == ReplyView::Text(home),
        t.replies[t.calls.len() as int + 1] == ReplyView::Bytes(encode_utf8(shell)),
    ensures
        ({
            let (next, r) = stored_shell_run(t, id, generation);
            &&& next.calls == t.calls.push(CallView::Variable("HOME"@)).push(
                CallView::Path(
                    PathAction::Read,
                    home + "/.local/state/warp/persistent-output-v1/"@ + id + "-"@ + generation
                        + ".shell/shell"@,
                ),
            )
            &&& is_known(shell) ==> r == Ok::<_, IoHalt>(Some(shell))
            &&& !is_known(shell) ==> r == Ok::<_, IoHalt>(None::<Seq<char>>)
        }),
{
    reveal_strlit(".local/state/warp/persistent-output-v1");
    reveal_strlit("/.local/state/warp/persistent-output-v1/");
    reveal_strlit("/");
    reveal_strlit(".shell");
    reveal_strlit("shell");
    reveal_strlit(".shell/shell");
    encode_utf8_decode_utf8(shell);
    encode_utf8_valid_utf8(shell);
    assert(crate::number::is_hex_digit(id[0]));
    let state = path_in(home, crate::shell::STATE_DIRECTORY@);
    assert(state.last() == '1');
    let startup = crate::shell::startup_directory(state, id, generation);
    assert(startup.last() == 'l');
    assert(path_in(startup, "shell"@) =~= home + "/.local/state/warp/persistent-output-v1/"@ + id
        + "-"@ + generation + ".shell/shell"@);
}

/// A shell waits until the file that releases it is there, and asks for nothing else: where
/// it goes on, that file was there in the end, and never before.
pub proof fn shells_wait_to_be_released(t: Transcript, directory: Seq<char>)
    requires
        directory.len() > 0,
        directory.last() != '/',
    ensures
        ({
            let (next, r) = await_ready_run(t, directory);
            let look = CallView::Path(PathAction::IsFile, directory + "/ready"@);
            &&& crate::host::continues(t, next)
            &&& forall|i: int|
                t.calls.len() <= i < next.calls.len() ==> #[trigger] next.calls[i] == look
                    || next.calls[i] == CallView::Sleep(20)
            &&& r is Ok ==> next.calls.len() > t.calls.len() && next.calls.last() == look
                && next.calls.len() <= t.replies.len() && t.replies[next.calls.len() - 1]
                == ReplyView::Flag(true)
        }),
    decreases t.replies.len() - t.calls.len(),
{
    reveal_strlit("ready");
    reveal_strlit("/ready");
    reveal_strlit("/");
    assert(path_in(directory, "ready"@) =~= directory + "/ready"@);
    let look = CallView::Path(PathAction::IsFile, directory + "/ready"@);
    let (t1, r) = ask_flag(t, look);
    crate::host::lemma_ask_continues(t, look);
    if r == Ok::<bool, IoHalt>(false) {
        let (t2, slept) = crate::host::ask_done(t1, CallView::Sleep(20));
        crate::host::lemma_ask_continues(t1, CallView::Sleep(20));
        crate::host::lemma_continues(t, t1, t2);
        if slept is Ok {
            shells_wait_to_be_released(t2, directory);
            let next = await_ready_run(t2, directory).0;
            crate::host::lemma_continues(t, t2, next);
            assert forall|i: int| t.calls.len() <= i < next.calls.len() implies #[trigger]
                next.calls[i] == look || next.calls[i] == CallView::Sleep(20) by {
                if i < t2.calls.len() {
                    assert(next.calls.take(t2.calls.len() as int)[i] == next.calls[i]);
                }
            }
        }
    }
}

/// A shell that is in none of the directories is not installed, and that is told.
pub proof fn a_missing_shell_is_told(t: Transcript, directories: Seq<Seq<char>>, shell: Seq<char>)
    requires
        shell.len() > 0,
        shell[0] != '/',
        forall|i: int|
            0 <= i < directories.len() ==> (#[trigger] directories[i]).len() > 0
                && directories[i][0] == '/',
        t.replies.len() >= t.calls.len() + directories.len(),
        forall|i: int|
            0 <= i < directories.len() ==> t.replies[t.calls.len() + i] == #[trigger] answer(
                i,
                false,
            ),
    ensures
        ({
            let (next, r) = search_run(t, directories, shell);
            &&& next.calls.len() == t.calls.len() + directories.len()
            &&& r is Err && r->Err_0 is Failed
            &&& r->Err_0->Failed_0.kind is NotFound
            &&& r->Err_0->Failed_0.message == "Remote shell "@ + shell + " is not installed"@
        }),
    decreases directories.len(),
{
    if directories.len() > 0 {
        let rest = directories.drop_first();
        let candidate = path_in(directories[0], shell);
        assert(candidate[0] == '/');
        let u = ask_flag(t, CallView::Path(PathAction::IsFile, candidate)).0;
        assert(t.replies[t.calls.len() + 0int] == answer(0, false));
        assert forall|i: int| 0 <= i < rest.len() implies u.replies[u.calls.len() + i]
            == #[trigger] answer(i, false) by {
            assert(t.replies[t.calls.len() + (i + 1)] == answer(i + 1, false));
        }
        assert forall|i: int| 0 <= i < rest.len() implies (#[trigger] rest[i]).len() > 0
            && rest[i][0] == '/' by {
            assert(rest[i] == directories[i + 1]);
        }
        a_missing_shell_is_told(u, rest, shell);
    }
}

} // verus!
