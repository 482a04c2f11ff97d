//! What a lookup, a read and a new root are taken for, field by field.

use crate::host::{ask_number, CallView, PathAction, ReplyView, Transcript};
use crate::journal::reader::read_run;
use crate::journal::OutputPageView;
use crate::number;
use crate::text;
use crate::workspace::command::{command_run, timed_run, watch_run};
use crate::workspace::command_laws::{line_of, stands_in};
use crate::workspace::recording::{
    await_end_run, journal_path, journal_root_run, read_output_run, recorder_connected_run,
};
use crate::workspace::sessions::{lookup_fields, resolve_run, LookupView};
use crate::workspace::startup::{request_error, state_root_run, BootstrapProfileView};
use crate::workspace::BackendView;
use vstd::prelude::*;
use vstd::string::*;
use vstd::utf8::{decode_utf8, valid_utf8};

verus! {

/// A name that tmux gives: a sign, and then a number in decimal digits.
pub open spec fn is_name(name: Seq<char>, sign: char) -> bool {
    &&& name.len() > 1
    &&& name[0] == sign
    &&& forall|i: int| 1 <= i < name.len() ==> '0' <= #[trigger] name[i] <= '9'
}

/// What was found of a workspace is what tmux told in its fields: the session is the one of
/// this workspace, and the rest is taken over as it is. A shell that runs has no exit code;
/// one that has exited has the code that was told, or none where a signal ended it.
pub proof fn what_is_found_was_told(id: Seq<char>, fields: Seq<Seq<char>>)
    requires
        fields.len() > 0,
    ensures
        lookup_fields(id, fields) is Absent <==> fields[0].len() == 0,
        ({
            let found = match lookup_fields(id, fields) {
                LookupView::Found(w) => Some(w),
                LookupView::Unreaped(w) => Some(w),
                _ => None,
            };
            found matches Some(w) ==> {
                &&& fields.len() == 9
                &&& fields[0] == "ew-"@ + id
                &&& w.id == id
                &&& w.generation == fields[1] && w.generation.len() == 32
                &&& w.session_id == fields[2] && is_name(w.session_id, '$')
                &&& w.window_id == fields[3] && is_name(w.window_id, '@')
                &&& w.pane_id == fields[4] && is_name(w.pane_id, '%')
                &&& number::parsed(fields[5], u32::MAX as nat) == Some(w.shell_pid as nat)
                &&& w.exited <==> fields[6] == "1"@
                &&& !w.exited <==> fields[6] == "0"@
                &&& !w.exited ==> w.exit_code is None
                &&& w.exited && fields[7].len() > 0 ==> w.exit_code is Some
                    && number::parsed_signed(fields[7]) == Some(w.exit_code->Some_0 as int) && 0
                    <= w.exit_code->Some_0 <= 255
                &&& w.exited && fields[7].len() == 0 ==> w.exit_code is None
            }
        }),
        lookup_fields(id, fields) is Unreaped ==> fields[7].len() == 0 && fields[8].len() == 0,
        lookup_fields(id, fields) is Found && fields[6] == "1"@ ==> fields[7].len() > 0
            || fields[8].len() > 0,
{
    reveal_strlit("0");
    reveal_strlit("1");
    assert("0"@[0] == '0' && "1"@[0] == '1');
    if fields.len() == 9 {
        lemma_name(fields[2], '$');
        lemma_name(fields[3], '@');
        lemma_name(fields[4], '%');
    }
}

proof fn lemma_name(name: Seq<char>, sign: char)
    ensures
        crate::workspace::sessions::is_numeric_id(name, sign) ==> is_name(name, sign),
{
    if crate::workspace::sessions::is_numeric_id(name, sign) {
        assert forall|i: int| 1 <= i < name.len() implies '0' <= #[trigger] name[i] <= '9' by {
            assert(name.skip(1)[i - 1] == name[i]);
            assert(name.drop_first()[i - 1] == name[i]);
        }
    }
}

/// A recorder is connected exactly where tmux says that the pane of the incarnation has a
/// pipe.
pub proof fn recorders_are_asked_about(
    t: Transcript,
    backend: BackendView,
    id: Seq<char>,
    generation: Seq<char>,
)
    requires
        resolve_run(t, backend, id, generation).1 is Ok,
    ensures
        ({
            let (found, resolved) = resolve_run(t, backend, id, generation);
            let (asked, answer) = command_run(
                found,
                backend,
                line_of("display-message"@, "-p"@, "-t"@, resolved->Ok_0.pane_id).push(
                    "#{pane_pipe}"@,
                ),
            );
            let (next, r) = recorder_connected_run(t, backend, id, generation);
            &&& next == asked
            &&& answer matches Ok(told) ==> r == Ok::<bool, crate::workspace::WorkspaceHalt>(
                text::trimmed(told) == "1"@,
            )
            &&& answer is Err ==> r is Err
        }),
{
    let (found, resolved) = resolve_run(t, backend, id, generation);
    assert(crate::workspace::recording::pipe_command(resolved->Ok_0.pane_id) =~= line_of(
        "display-message"@,
        "-p"@,
        "-t"@,
        resolved->Ok_0.pane_id,
    ).push("#{pane_pipe}"@));
}

/// The page is what the journal gives for the cursor at some point.
pub open spec fn was_read(
    u: Transcript,
    journal: Seq<char>,
    cursor: u64,
    page: OutputPageView,
) -> bool {
    read_run(u, journal, cursor, 262_144).1 == Ok::<OutputPageView, crate::host::IoHalt>(page)
}

/// There is a point at which the journal gives this page for the cursor.
pub open spec fn is_page_of(journal: Seq<char>, cursor: u64, page: OutputPageView) -> bool {
    exists|u: Transcript| #[trigger] was_read(u, journal, cursor, page)
}

proof fn lemma_end_was_read(
    t: Transcript,
    journal: Seq<char>,
    cursor: u64,
    deadline: u64,
    page: OutputPageView,
)
    requires
        is_page_of(journal, cursor, page),
    ensures
        await_end_run(t, journal, cursor, deadline, page).1 matches Ok(last) ==> is_page_of(
            journal,
            cursor,
            last,
        ),
    decreases t.replies.len() - t.calls.len(),
{
    if !page.closed {
        let (t1, clock) = ask_number(t, CallView::Clock);
        if let Ok(now) = clock {
            if now < deadline {
                let (t2, slept) = crate::host::ask_done(t1, CallView::Sleep(10));
                if slept is Ok {
                    let (t3, r) = read_run(t2, journal, cursor, crate::journal::MAX_PAGE_BYTES);
                    crate::journal::reading_laws::lemma_attempts_continues(
                        t2,
                        journal,
                        cursor,
                        crate::journal::MAX_PAGE_BYTES,
                        3,
                    );
                    crate::journal::reading_laws::lemma_attempts_progress(
                        t2,
                        journal,
                        cursor,
                        crate::journal::MAX_PAGE_BYTES,
                        3,
                    );
                    if let Ok(next) = r {
                        assert(was_read(t2, journal, cursor, next));
                        assert(is_page_of(journal, cursor, next));
                        lemma_end_was_read(t3, journal, cursor, deadline, next);
                    }
                }
            }
        }
    }
}

/// What is read of an incarnation's output is a page of its journal for exactly this cursor;
/// of a shell that runs it is the page that is there at once.
pub proof fn pages_come_from_the_journal(
    t: Transcript,
    backend: BackendView,
    id: Seq<char>,
    generation: Seq<char>,
    root: Seq<char>,
    cursor: u64,
)
    requires
        root.len() > 0,
        root[0] == '/',
        root.last() != '/',
    ensures
        ({
            let journal = root + "/"@ + id + "-"@ + generation;
            let (found, resolved) = resolve_run(t, backend, id, generation);
            let (next, r) = read_output_run(t, backend, id, generation, root, cursor);
            &&& r matches Ok(page) ==> is_page_of(journal, cursor, page)
            &&& resolved is Ok && !resolved->Ok_0.exited ==> {
                let (read, page) = read_run(found, journal, cursor, 262_144);
                &&& next == read
                &&& page is Ok ==> r is Ok && r->Ok_0 == page->Ok_0
                &&& page is Err ==> r is Err
            }
        }),
{
    let journal = root + "/"@ + id + "-"@ + generation;
    let (found, resolved) = resolve_run(t, backend, id, generation);
    if let Ok(workspace) = resolved {
        assert(number::is_hex_digit(id[0]));
        assert(root + "/"@ + (id + "-"@ + generation) =~= journal);
        assert(journal_path(id, generation, root) == Ok::<
            Seq<char>,
            crate::workspace::WorkspaceHalt,
        >(journal));
        let (t1, r) = read_run(found, journal, cursor, crate::journal::MAX_PAGE_BYTES);
        if let Ok(page) = r {
            assert(was_read(found, journal, cursor, page));
            assert(is_page_of(journal, cursor, page));
            if workspace.exited && !page.closed {
                let (t2, requested) = crate::journal::finalization::request_run(t1, journal);
                let (t3, clock) = ask_number(t2, CallView::Clock);
                if let Ok(now) = clock {
                    lemma_end_was_read(
                        t3,
                        journal,
                        cursor,
                        crate::workspace::command::deadline_after(
                            now,
                            crate::workspace::recording::GRACE,
                        ),
                        page,
                    );
                }
            }
        }
    }
}

/// The directories of the daemon's state are made where they are not there, and used only
/// where they are directories that nobody else can read.
pub proof fn roots_are_private(t: Transcript, root: Seq<char>)
    requires
        t.replies.len() > t.calls.len() + 1,
        t.replies[t.calls.len() as int] is Done,
        t.replies[t.calls.len() as int + 1] is Entry,
    ensures
        ({
            let k = t.calls.len() as int;
            let entry = t.replies[k + 1]->Entry_0;
            let calls = t.calls.push(CallView::Path(PathAction::MakeDirectories, root)).push(
                CallView::Path(PathAction::Describe, root),
            );
            &&& state_root_run(t, root).1 is Ok <==> entry.directory && entry.private
            &&& state_root_run(t, root).0.calls == calls
            &&& journal_root_run(t, root).1 is Ok <==> entry.directory && entry.private
            &&& journal_root_run(t, root).0.calls == calls
        }),
{
}

/// A request for an initialized workspace is sound exactly where its shell is a known one,
/// its scripts are there and not too long, its paths are absolute, and its init script is a
/// text with a place for the session.
pub proof fn sound_creations(
    profile: BootstrapProfileView,
    executable: Seq<char>,
    root: Seq<char>,
)
    ensures
        request_error(profile, executable, root) is None <==> {
            &&& profile.shell == "bash"@ || profile.shell == "zsh"@ || profile.shell == "fish"@
            &&& 1 <= profile.init_script.len() <= 64 * 1024
            &&& 1 <= profile.bootstrap_script.len() <= 1024 * 1024
            &&& root.len() > 0 && root[0] == '/'
            &&& executable.len() > 0 && executable[0] == '/'
            &&& valid_utf8(profile.init_script)
            &&& stands_in(decode_utf8(profile.init_script), "@@WARP_SESSION_ID@@"@)
        },
{
    crate::workspace::command_laws::lemma_stands_in(
        decode_utf8(profile.init_script),
        "@@WARP_SESSION_ID@@"@,
    );
}

/// The time of a command is counted from its start.
pub proof fn the_time_begins_at_the_start(t: Transcript, timeout: u64, now: u64)
    requires
        t.replies.len() > t.calls.len(),
        t.replies[t.calls.len() as int] == ReplyView::Number(now),
        now + timeout <= u64::MAX,
    ensures
        timed_run(t, timeout) == watch_run(
            Transcript { calls: t.calls.push(CallView::Clock), ..t },
            (now + timeout) as u64,
            Seq::empty(),
            Seq::empty(),
        ),
{
}

} // verus!
