//! What holds from a workspace's creation to the deletion of its history.

use crate::host::{
    ask_bytes, ask_done, ask_entry, ask_flag, ask_number, CallView, FileActionView, JournalFile,
    PathAction, Transcript,
};
use crate::journal::finalization::request_run;
use crate::journal::reader::{attempts_run, copy_run, page_end, page_start, part_run, read_run};
use crate::journal::reading_laws::{lemma_attempts_continues, lemma_attempts_progress};
use crate::journal::{
    lemma_performed_continues, manifest_run, Manifest, OutputPageView, RetentionPolicy,
    MAX_PAGE_BYTES,
};
use crate::paths::path_in;
use crate::shell::startup_directory;
use crate::workspace::command::{command_run, deadline_after};
use crate::workspace::laws::{
    adds_only, client_call, is_lookup, is_watching, lemma_adds, lemma_ask_adds, lemma_command_adds,
    lemma_lookup_adds, lemma_resolve_adds, lemma_same_adds, Calls,
};
use crate::workspace::recording::{
    await_end_run, await_journal_run, delete_history_run, executable_run, journal_directory,
    journal_root_run, new_recorder_run, old_recorder_run, pipe_command, read_output_run,
    record_command, recorder_line, remove_run, start_recording_run, GRACE,
};
use crate::workspace::sessions::{
    create_run, directory_run, guarded_command, is_kind, is_token, lookup_run, resolve_run,
    WorkspaceView,
};
use crate::workspace::startup::{
    await_lock_run, create_initialized_run, finish_run, lock_run, old_incarnation_run, policy_run,
    request_error, retention_text, startup_files, state_root_run, step_run, stored_policy,
    BootstrapProfileView, CreationView,
};
use crate::workspace::{BackendView, ErrorKind};
use vstd::prelude::*;
use vstd::string::*;
use vstd::utf8::{encode_utf8, encode_utf8_decode_utf8};

verus! {

// ---------------------------------------------------------------------------
// Reading
// ---------------------------------------------------------------------------

/// A call that reads the files of a journal.
pub open spec fn is_reading(journal: Seq<char>, call: CallView) -> bool {
    call matches CallView::Journal(directory, action) && directory == journal && (action is Length
        || action is ReadStart || action is ReadAt || action is Describe)
}

proof fn lemma_part_adds(
    t: Transcript,
    journal: Seq<char>,
    m: Manifest,
    index: u64,
    offset: u64,
    count: u64,
    allowed: Calls,
)
    requires
        forall|call: CallView| is_reading(journal, call) ==> #[trigger] allowed(call),
    ensures
        adds_only(t, part_run(t, journal, m, index, offset, count).0, allowed),
{
    let read = CallView::Journal(
        journal,
        FileActionView::ReadAt(JournalFile::Segment(index), offset, count),
    );
    let t1 = ask_bytes(t, read).0;
    lemma_ask_adds(t, read, allowed);
    let length = CallView::Journal(journal, FileActionView::Length(JournalFile::Archive(index)));
    let t2 = ask_number(t1, length).0;
    lemma_ask_adds(t1, length, allowed);
    lemma_adds(t, t1, t2, allowed);
    let whole = CallView::Journal(
        journal,
        FileActionView::ReadStart(JournalFile::Archive(index), u64::MAX),
    );
    lemma_ask_adds(t2, whole, allowed);
    lemma_adds(t, t2, ask_bytes(t2, whole).0, allowed);
}

proof fn lemma_copy_adds(
    t: Transcript,
    journal: Seq<char>,
    m: Manifest,
    at: int,
    end: int,
    before: Seq<u8>,
    allowed: Calls,
)
    requires
        forall|call: CallView| is_reading(journal, call) ==> #[trigger] allowed(call),
    ensures
        adds_only(t, copy_run(t, journal, m, at, end, before).0, allowed),
    decreases end - at,
{
    lemma_same_adds(t, allowed);
    if !(at >= end || at < 0 || m.segment_bytes == 0) {
        let size = m.segment_bytes as int;
        let offset = at % size;
        let count = if end - at < size - offset {
            end - at
        } else {
            size - offset
        };
        let index = (at / size) as u64;
        let (t1, r) = part_run(t, journal, m, index, offset as u64, count as u64);
        lemma_part_adds(t, journal, m, index, offset as u64, count as u64, allowed);
        if let Ok(Some(bytes)) = r {
            lemma_copy_adds(t1, journal, m, at + count, end, before + bytes, allowed);
            lemma_adds(
                t,
                t1,
                copy_run(t1, journal, m, at + count, end, before + bytes).0,
                allowed,
            );
        }
    }
}

proof fn lemma_attempts_adds(
    t: Transcript,
    journal: Seq<char>,
    cursor: u64,
    limit: usize,
    attempts: nat,
    allowed: Calls,
)
    requires
        forall|call: CallView| is_reading(journal, call) ==> #[trigger] allowed(call),
    ensures
        adds_only(t, attempts_run(t, journal, cursor, limit, attempts).0, allowed),
    decreases attempts,
{
    lemma_same_adds(t, allowed);
    if attempts > 0 {
        let first = CallView::Journal(
            journal,
            FileActionView::ReadStart(JournalFile::Manifest, 257),
        );
        lemma_ask_adds(t, first, allowed);
        let (t1, r) = manifest_run(t, journal);
        if let Ok(m) = r {
            let start = page_start(m, cursor) as int;
            let end = page_end(m, cursor, limit);
            let (t2, copied) = copy_run(t1, journal, m, start, end, Seq::empty());
            lemma_copy_adds(t1, journal, m, start, end, Seq::empty(), allowed);
            lemma_adds(t, t1, t2, allowed);
            let left = (attempts - 1) as nat;
            lemma_attempts_adds(t2, journal, cursor, limit, left, allowed);
            lemma_adds(t, t2, attempts_run(t2, journal, cursor, limit, left).0, allowed);
        }
    }
}

proof fn lemma_read_adds(
    t: Transcript,
    journal: Seq<char>,
    cursor: u64,
    limit: usize,
    allowed: Calls,
)
    requires
        forall|call: CallView| is_reading(journal, call) ==> #[trigger] allowed(call),
    ensures
        adds_only(t, read_run(t, journal, cursor, limit).0, allowed),
{
    lemma_same_adds(t, allowed);
    lemma_attempts_adds(t, journal, cursor, limit, 3, allowed);
}

proof fn lemma_await_end_adds(
    t: Transcript,
    journal: Seq<char>,
    cursor: u64,
    deadline: u64,
    page: OutputPageView,
    allowed: Calls,
)
    requires
        forall|call: CallView|
            is_reading(journal, call) || is_watching(call) ==> #[trigger] allowed(call),
    ensures
        adds_only(t, await_end_run(t, journal, cursor, deadline, page).0, allowed),
        await_end_run(t, journal, cursor, deadline, page).1 matches Ok(page) ==> page.closed,
    decreases t.replies.len() - t.calls.len(),
{
    lemma_same_adds(t, allowed);
    if !page.closed {
        let (t1, clock) = ask_number(t, CallView::Clock);
        lemma_ask_adds(t, CallView::Clock, allowed);
        let (t2, slept) = ask_done(t1, CallView::Sleep(10));
        lemma_ask_adds(t1, CallView::Sleep(10), allowed);
        lemma_adds(t, t1, t2, allowed);
        let (t3, r) = read_run(t2, journal, cursor, MAX_PAGE_BYTES);
        lemma_read_adds(t2, journal, cursor, MAX_PAGE_BYTES, allowed);
        lemma_adds(t, t2, t3, allowed);
        if clock is Ok && slept is Ok {
            if let Ok(page) = r {
                lemma_attempts_continues(t2, journal, cursor, MAX_PAGE_BYTES, 3);
                lemma_attempts_progress(t2, journal, cursor, MAX_PAGE_BYTES, 3);
                lemma_await_end_adds(t3, journal, cursor, deadline, page, allowed);
                lemma_adds(
                    t,
                    t3,
                    await_end_run(t3, journal, cursor, deadline, page).0,
                    allowed,
                );
            }
        }
    }
}

/// A call that requests the end of a journal's stream.
pub open spec fn is_finalizing(journal: Seq<char>, call: CallView) -> bool {
    ||| call == CallView::Journal(journal, FileActionView::Create(JournalFile::FinalizeRequest))
    ||| call == CallView::Journal(journal, FileActionView::SyncAll(JournalFile::FinalizeRequest))
    ||| call == CallView::Journal(journal, FileActionView::SyncDirectory)
}

proof fn lemma_request_adds(t: Transcript, journal: Seq<char>, allowed: Calls)
    requires
        forall|call: CallView|
            is_reading(journal, call) || is_finalizing(journal, call) ==> #[trigger] allowed(call),
    ensures
        adds_only(t, request_run(t, journal).0, allowed),
{
    let create = CallView::Journal(journal, FileActionView::Create(JournalFile::FinalizeRequest));
    let t1 = ask_done(t, create).0;
    lemma_ask_adds(t, create, allowed);
    let actions = seq![
        FileActionView::SyncAll(JournalFile::FinalizeRequest),
        FileActionView::SyncDirectory,
    ];
    let next = request_run(t, journal).0;
    if ask_done(t, create).1 is Ok {
        lemma_performed_continues(t1, journal, actions);
        assert forall|i: int| t1.calls.len() <= i < next.calls.len() implies allowed(
            #[trigger] next.calls[i],
        ) by {
            let at = i - t1.calls.len();
            assert(at == 0 || at == 1);
            assert(is_finalizing(journal, next.calls[i]));
        }
        lemma_adds(t, t1, next, allowed);
    } else {
        let describe = CallView::Journal(
            journal,
            FileActionView::Describe(JournalFile::FinalizeRequest),
        );
        lemma_ask_adds(t1, describe, allowed);
        lemma_adds(t, t1, ask_entry(t1, describe).0, allowed);
    }
}

/// A call that is made to read the output of an incarnation.
pub open spec fn reads_output(
    backend: BackendView,
    id: Seq<char>,
    journal: Seq<char>,
    call: CallView,
) -> bool {
    is_lookup(backend, id, call) || is_reading(journal, call) || is_finalizing(journal, call)
}

/// Reading the output of an incarnation looks it up, reads its own journal and at
/// most asks its recorder to publish the end of the stream. Of a shell that has
/// exited a page is given only after that end was published.
pub proof fn reading_waits_for_the_end(
    t: Transcript,
    backend: BackendView,
    id: Seq<char>,
    generation: Seq<char>,
    root: Seq<char>,
    cursor: u64,
)
    ensures
        adds_only(
            t,
            read_output_run(t, backend, id, generation, root, cursor).0,
            |call: CallView|
                reads_output(backend, id, journal_directory(root, id, generation), call),
        ),
        ({
            let resolved = resolve_run(t, backend, id, generation).1;
            let r = read_output_run(t, backend, id, generation, root, cursor).1;
            r matches Ok(page) ==> resolved is Ok && (resolved->Ok_0.exited ==> page.closed)
        }),
{
    let journal = journal_directory(root, id, generation);
    let allowed = |call: CallView| reads_output(backend, id, journal, call);
    let (t1, resolved) = resolve_run(t, backend, id, generation);
    lemma_resolve_adds(t, backend, id, generation, allowed);
    let (t2, read) = read_run(t1, journal, cursor, MAX_PAGE_BYTES);
    lemma_read_adds(t1, journal, cursor, MAX_PAGE_BYTES, allowed);
    lemma_adds(t, t1, t2, allowed);
    if let Ok(page) = read {
        let t3 = request_run(t2, journal).0;
        lemma_request_adds(t2, journal, allowed);
        lemma_adds(t, t2, t3, allowed);
        let (t4, clock) = ask_number(t3, CallView::Clock);
        lemma_ask_adds(t3, CallView::Clock, allowed);
        lemma_adds(t, t3, t4, allowed);
        if let Ok(now) = clock {
            let deadline = deadline_after(now, GRACE);
            lemma_await_end_adds(t4, journal, cursor, deadline, page, allowed);
            lemma_adds(t, t4, await_end_run(t4, journal, cursor, deadline, page).0, allowed);
        }
    }
}

// ---------------------------------------------------------------------------
// Recording
// ---------------------------------------------------------------------------

/// A call that observes a recorder: it looks its workspace up, asks whether the
/// pane's output goes anywhere, looks at paths or reads the journal.
pub open spec fn observes_recorder(
    backend: BackendView,
    id: Seq<char>,
    journal: Seq<char>,
    call: CallView,
) -> bool {
    ||| is_lookup(backend, id, call)
    ||| is_reading(journal, call)
    ||| exists|pane: Seq<char>| call == client_call(backend, #[trigger] pipe_command(pane))
    ||| call matches CallView::Path(action, path) && (action is MakeDirectories
        || action is Describe || action is Exists || action is IsFile)
}

/// A call that starts the recorder of exactly this incarnation.
pub open spec fn starts_recorder(
    backend: BackendView,
    id: Seq<char>,
    generation: Seq<char>,
    call: CallView,
) -> bool {
    exists|command: Seq<char>|
        call == client_call(backend, #[trigger] guarded_command(id, generation, command))
}

pub(crate) proof fn lemma_await_journal_adds(
    t: Transcript,
    journal: Seq<char>,
    deadline: u64,
    allowed: Calls,
)
    requires
        forall|call: CallView|
            is_reading(journal, call) || is_watching(call) ==> #[trigger] allowed(call),
    ensures
        adds_only(t, await_journal_run(t, journal, deadline).0, allowed),
    decreases t.replies.len() - t.calls.len(),
{
    let (t1, r) = read_run(t, journal, 0, 1);
    lemma_read_adds(t, journal, 0, 1, allowed);
    lemma_attempts_continues(t, journal, 0, 1, 3);
    let t2 = ask_number(t1, CallView::Clock).0;
    lemma_ask_adds(t1, CallView::Clock, allowed);
    lemma_adds(t, t1, t2, allowed);
    let (t3, slept) = ask_done(t2, CallView::Sleep(10));
    lemma_ask_adds(t2, CallView::Sleep(10), allowed);
    lemma_adds(t, t2, t3, allowed);
    if slept is Ok {
        lemma_await_journal_adds(t3, journal, deadline, allowed);
        lemma_adds(t, t3, await_journal_run(t3, journal, deadline).0, allowed);
    }
}

proof fn lemma_old_recorder_adds(
    t: Transcript,
    backend: BackendView,
    workspace: WorkspaceView,
    journal: Seq<char>,
    allowed: Calls,
)
    requires
        forall|call: CallView|
            observes_recorder(backend, workspace.id, journal, call) ==> #[trigger] allowed(call),
    ensures
        adds_only(t, old_recorder_run(t, backend, workspace, journal).0, allowed),
{
    let id = workspace.id;
    let t1 = read_run(t, journal, 0, 1).0;
    lemma_read_adds(t, journal, 0, 1, allowed);
    let (t2, r) = resolve_run(t1, backend, id, workspace.generation);
    lemma_resolve_adds(t1, backend, id, workspace.generation, allowed);
    lemma_adds(t, t1, t2, allowed);
    if let Ok(found) = r {
        let command = pipe_command(found.pane_id);
        assert(observes_recorder(backend, id, journal, client_call(backend, command)));
        lemma_command_adds(t2, backend, command, allowed);
        lemma_adds(t, t2, command_run(t2, backend, command).0, allowed);
    }
}

proof fn lemma_new_recorder_adds(
    t: Transcript,
    backend: BackendView,
    workspace: WorkspaceView,
    executable: Seq<char>,
    journal: Seq<char>,
    retention: RetentionPolicy,
    allowed: Calls,
)
    requires
        forall|call: CallView|
            observes_recorder(backend, workspace.id, journal, call) || starts_recorder(
                backend,
                workspace.id,
                workspace.generation,
                call,
            ) ==> #[trigger] allowed(call),
    ensures
        adds_only(
            t,
            new_recorder_run(t, backend, workspace, executable, journal, retention).0,
            allowed,
        ),
{
    let check = CallView::Path(PathAction::IsFile, executable);
    lemma_same_adds(t, allowed);
    lemma_ask_adds(t, check, allowed);
    let t1 = executable_run(t, executable).0;
    let line = record_command(workspace, recorder_line(executable, journal, retention));
    let command = guarded_command(workspace.id, workspace.generation, line);
    let t2 = command_run(t1, backend, command).0;
    assert(starts_recorder(
        backend,
        workspace.id,
        workspace.generation,
        client_call(backend, command),
    ));
    lemma_command_adds(t1, backend, command, allowed);
    lemma_adds(t, t1, t2, allowed);
    let (t3, clock) = ask_number(t2, CallView::Clock);
    lemma_ask_adds(t2, CallView::Clock, allowed);
    lemma_adds(t, t2, t3, allowed);
    if let Ok(now) = clock {
        let deadline = deadline_after(now, GRACE);
        lemma_await_journal_adds(t3, journal, deadline, allowed);
        lemma_adds(t, t3, await_journal_run(t3, journal, deadline).0, allowed);
    }
}

/// The transcript in which a recording finds out whether its journal exists.
pub open spec fn journal_sought(
    t: Transcript,
    backend: BackendView,
    id: Seq<char>,
    generation: Seq<char>,
    root: Seq<char>,
) -> Transcript {
    journal_root_run(resolve_run(t, backend, id, generation).0, root).0
}

proof fn lemma_sought_adds(
    t: Transcript,
    backend: BackendView,
    id: Seq<char>,
    generation: Seq<char>,
    root: Seq<char>,
    allowed: Calls,
)
    requires
        forall|call: CallView|
            observes_recorder(
                backend,
                id,
                journal_directory(root, id, generation),
                call,
            ) ==> #[trigger] allowed(call),
    ensures
        adds_only(t, resolve_run(t, backend, id, generation).0, allowed),
        adds_only(t, journal_sought(t, backend, id, generation, root), allowed),
        adds_only(
            t,
            ask_flag(
                journal_sought(t, backend, id, generation, root),
                CallView::Path(PathAction::Exists, journal_directory(root, id, generation)),
            ).0,
            allowed,
        ),
{
    let t1 = resolve_run(t, backend, id, generation).0;
    lemma_resolve_adds(t, backend, id, generation, allowed);
    let make = CallView::Path(PathAction::MakeDirectories, root);
    let describe = CallView::Path(PathAction::Describe, root);
    let t2 = ask_done(t1, make).0;
    lemma_ask_adds(t1, make, allowed);
    lemma_adds(t, t1, t2, allowed);
    lemma_ask_adds(t2, describe, allowed);
    lemma_adds(t, t2, ask_entry(t2, describe).0, allowed);
    let t3 = journal_sought(t, backend, id, generation, root);
    let exists_call = CallView::Path(
        PathAction::Exists,
        journal_directory(root, id, generation),
    );
    lemma_ask_adds(t3, exists_call, allowed);
    lemma_adds(t, t3, ask_flag(t3, exists_call).0, allowed);
}

pub(crate) proof fn lemma_recording_adds(
    t: Transcript,
    backend: BackendView,
    id: Seq<char>,
    generation: Seq<char>,
    executable: Seq<char>,
    root: Seq<char>,
    retention: RetentionPolicy,
    allowed: Calls,
)
    requires
        forall|call: CallView|
            observes_recorder(backend, id, journal_directory(root, id, generation), call)
                || starts_recorder(backend, id, generation, call) ==> #[trigger] allowed(call),
    ensures
        adds_only(
            t,
            start_recording_run(t, backend, id, generation, executable, root, retention).0,
            allowed,
        ),
{
    lemma_sought_adds(t, backend, id, generation, root, allowed);
    crate::workspace::laws::the_incarnation_is_exact(t, backend, id, generation);
    let journal = journal_directory(root, id, generation);
    let t1 = ask_flag(
        journal_sought(t, backend, id, generation, root),
        CallView::Path(PathAction::Exists, journal),
    ).0;
    if let Ok(workspace) = resolve_run(t, backend, id, generation).1 {
        lemma_old_recorder_adds(t1, backend, workspace, journal, allowed);
        lemma_adds(t, t1, old_recorder_run(t1, backend, workspace, journal).0, allowed);
        lemma_new_recorder_adds(t1, backend, workspace, executable, journal, retention, allowed);
        lemma_adds(
            t,
            t1,
            new_recorder_run(t1, backend, workspace, executable, journal, retention).0,
            allowed,
        );
    }
}

/// A recorder is never replaced: where an incarnation's journal exists, starting to
/// record only observes what is there.
pub proof fn a_recorder_is_never_replaced(
    t: Transcript,
    backend: BackendView,
    id: Seq<char>,
    generation: Seq<char>,
    executable: Seq<char>,
    root: Seq<char>,
    retention: RetentionPolicy,
)
    requires
        ask_flag(
            journal_sought(t, backend, id, generation, root),
            CallView::Path(PathAction::Exists, journal_directory(root, id, generation)),
        ).1 == Ok::<bool, crate::host::IoHalt>(true),
    ensures
        adds_only(
            t,
            start_recording_run(t, backend, id, generation, executable, root, retention).0,
            |call: CallView|
                observes_recorder(backend, id, journal_directory(root, id, generation), call),
        ),
{
    let journal = journal_directory(root, id, generation);
    let allowed = |call: CallView| observes_recorder(backend, id, journal, call);
    lemma_sought_adds(t, backend, id, generation, root, allowed);
    crate::workspace::laws::the_incarnation_is_exact(t, backend, id, generation);
    let t1 = ask_flag(
        journal_sought(t, backend, id, generation, root),
        CallView::Path(PathAction::Exists, journal),
    ).0;
    if let Ok(workspace) = resolve_run(t, backend, id, generation).1 {
        lemma_old_recorder_adds(t1, backend, workspace, journal, allowed);
        lemma_adds(t, t1, old_recorder_run(t1, backend, workspace, journal).0, allowed);
    }
}

// ---------------------------------------------------------------------------
// Creation
// ---------------------------------------------------------------------------

/// Creating a workspace that is there gives the one that is there: it is looked
/// up, and no session is started.
pub proof fn an_existing_workspace_is_kept(
    t: Transcript,
    backend: BackendView,
    id: Seq<char>,
    directory: Option<Seq<char>>,
    generation: Option<Seq<char>>,
    command: Option<Seq<char>>,
)
    requires
        is_token(id),
        directory_run(t, directory).1 is Ok,
        lookup_run(directory_run(t, directory).0, backend, id, true).1 is Ok,
    ensures
        create_run(t, backend, id, directory, generation, command) == lookup_run(
            directory_run(t, directory).0,
            backend,
            id,
            true,
        ),
        adds_only(
            t,
            create_run(t, backend, id, directory, generation, command).0,
            |call: CallView|
                is_lookup(backend, id, call) || call matches CallView::Path(
                    PathAction::IsDirectory,
                    _,
                ),
        ),
{
    let allowed = |call: CallView|
        is_lookup(backend, id, call) || call matches CallView::Path(PathAction::IsDirectory, _);
    lemma_same_adds(t, allowed);
    if let Some(path) = directory {
        lemma_ask_adds(t, CallView::Path(PathAction::IsDirectory, path), allowed);
    }
    let t1 = directory_run(t, directory).0;
    lemma_lookup_adds(t1, backend, id, true, allowed);
    lemma_adds(t, t1, lookup_run(t1, backend, id, true).0, allowed);
}

/// The file whose presence releases a shell.
pub open spec fn ready_file(startup: Seq<char>) -> Seq<char> {
    path_in(startup, "ready"@)
}

/// A shell is released only after its recorder: the file that releases it is
/// written by one call only, and that call comes after recording was started
/// successfully, with the policy that was stored at the shell's creation.
pub proof fn the_shell_waits_for_its_recorder(
    t: Transcript,
    backend: BackendView,
    workspace: WorkspaceView,
    executable: Seq<char>,
    root: Seq<char>,
    startup: Seq<char>,
    i: int,
)
    requires
        ({
            let next = finish_run(t, backend, workspace, executable, root, startup).0;
            t.calls.len() <= i < next.calls.len() && next.calls[i] is WriteNew
        }),
    ensures
        ({
            let (t1, released) = ask_flag(
                t,
                CallView::Path(PathAction::IsFile, ready_file(startup)),
            );
            let (t2, policy) = policy_run(t1, startup);
            &&& released == Ok::<bool, crate::host::IoHalt>(false)
            &&& policy is Ok
            &&& {
                let (t3, recording) = start_recording_run(
                    t2,
                    backend,
                    workspace.id,
                    workspace.generation,
                    executable,
                    root,
                    policy->Ok_0,
                );
                &&& recording is Ok
                &&& i == t3.calls.len()
            }
        }),
{
    let allowed = |call: CallView| !(call is WriteNew);
    let ready = CallView::Path(PathAction::IsFile, ready_file(startup));
    let next = finish_run(t, backend, workspace, executable, root, startup).0;
    let (t1, released) = ask_flag(t, ready);
    lemma_ask_adds(t, ready, allowed);
    let stored = CallView::Path(PathAction::Read, path_in(startup, "retention"@));
    let (t2, policy) = policy_run(t1, startup);
    lemma_ask_adds(t1, stored, allowed);
    lemma_adds(t, t1, t2, allowed);
    if released == Ok::<bool, crate::host::IoHalt>(false) && policy is Ok {
        let retention = policy->Ok_0;
        let (t3, recording) = start_recording_run(
            t2,
            backend,
            workspace.id,
            workspace.generation,
            executable,
            root,
            retention,
        );
        lemma_recording_adds(
            t2,
            backend,
            workspace.id,
            workspace.generation,
            executable,
            root,
            retention,
            allowed,
        );
        lemma_adds(t, t2, t3, allowed);
        if recording is Ok {
            let write = CallView::WriteNew(ready_file(startup), encode_utf8("ready\n"@));
            let t4 = step_run(t3, write).0;
            crate::host::lemma_ask_continues(t3, write);
            let sync = CallView::Path(PathAction::SyncDirectory, startup);
            lemma_ask_adds(t4, sync, allowed);
            if i < t3.calls.len() {
                assert(t4.calls.take(t3.calls.len() as int)[i] == t3.calls[i]);
                assert(next.calls[i] == t3.calls[i]);
                assert(allowed(t3.calls[i]));
            }
        } else {
            assert(next == t3);
            assert(allowed(next.calls[i]));
        }
    } else {
        assert(allowed(next.calls[i]));
    }
}

/// A shell that was released is left alone: its initialization never runs again.
pub proof fn initialization_runs_once(
    t: Transcript,
    backend: BackendView,
    workspace: WorkspaceView,
    executable: Seq<char>,
    root: Seq<char>,
    startup: Seq<char>,
)
    requires
        ask_flag(t, CallView::Path(PathAction::IsFile, ready_file(startup))).1 == Ok::<
            bool,
            crate::host::IoHalt,
        >(true),
    ensures
        finish_run(t, backend, workspace, executable, root, startup) == (
            ask_flag(t, CallView::Path(PathAction::IsFile, ready_file(startup))).0,
            Ok::<(), crate::workspace::WorkspaceHalt>(()),
        ),
{
}

/// The transcript in which a creation holds the lock of its workspace.
pub open spec fn locked(t: Transcript, backend: BackendView, c: CreationView) -> Transcript {
    lock_run(
        state_root_run(t, c.root).0,
        path_in(c.root, c.id + ".lock"@),
        backend.timeout,
    ).0
}

/// A call that goes on with an incarnation that is there: it takes the lock, looks
/// at files, observes or starts the recorder, and releases the shell.
pub open spec fn reattaches(
    backend: BackendView,
    c: CreationView,
    generation: Seq<char>,
    call: CallView,
) -> bool {
    ||| observes_recorder(backend, c.id, journal_directory(c.root, c.id, generation), call)
    ||| starts_recorder(backend, c.id, generation, call)
    ||| call matches CallView::Path(action, path) && (action is OpenLock || action is TryLock
        || action is Read || action is SyncDirectory)
    ||| call == CallView::WriteNew(
        ready_file(startup_directory(c.root, c.id, generation)),
        encode_utf8("ready\n"@),
    )
}

proof fn lemma_await_lock_adds(t: Transcript, path: Seq<char>, deadline: u64, allowed: Calls)
    requires
        forall|call: CallView|
            is_watching(call) || call == CallView::Path(PathAction::TryLock, path)
                ==> #[trigger] allowed(call),
    ensures
        adds_only(t, await_lock_run(t, path, deadline).0, allowed),
    decreases t.replies.len() - t.calls.len(),
{
    let attempt = CallView::Path(PathAction::TryLock, path);
    let t1 = ask_flag(t, attempt).0;
    lemma_ask_adds(t, attempt, allowed);
    let t2 = ask_number(t1, CallView::Clock).0;
    lemma_ask_adds(t1, CallView::Clock, allowed);
    lemma_adds(t, t1, t2, allowed);
    let (t3, slept) = step_run(t2, CallView::Sleep(10));
    lemma_ask_adds(t2, CallView::Sleep(10), allowed);
    lemma_adds(t, t2, t3, allowed);
    if slept is Ok {
        lemma_await_lock_adds(t3, path, deadline, allowed);
        lemma_adds(t, t3, await_lock_run(t3, path, deadline).0, allowed);
    }
}

proof fn lemma_locked_adds(t: Transcript, backend: BackendView, c: CreationView, allowed: Calls)
    requires
        forall|call: CallView|
            is_watching(call) || (call matches CallView::Path(action, path) && (
            action is MakeDirectories || action is Describe || action is OpenLock
                || action is TryLock)) ==> #[trigger] allowed(call),
    ensures
        adds_only(t, state_root_run(t, c.root).0, allowed),
        adds_only(t, locked(t, backend, c), allowed),
{
    let make = CallView::Path(PathAction::MakeDirectories, c.root);
    let describe = CallView::Path(PathAction::Describe, c.root);
    let t1 = step_run(t, make).0;
    lemma_ask_adds(t, make, allowed);
    lemma_ask_adds(t1, describe, allowed);
    lemma_adds(t, t1, ask_entry(t1, describe).0, allowed);
    let t2 = state_root_run(t, c.root).0;
    let path = path_in(c.root, c.id + ".lock"@);
    let open_lock = CallView::Path(PathAction::OpenLock, path);
    let t3 = step_run(t2, open_lock).0;
    lemma_ask_adds(t2, open_lock, allowed);
    lemma_adds(t, t2, t3, allowed);
    let (t4, clock) = ask_number(t3, CallView::Clock);
    lemma_ask_adds(t3, CallView::Clock, allowed);
    lemma_adds(t, t3, t4, allowed);
    if let Ok(now) = clock {
        let deadline = deadline_after(now, backend.timeout);
        lemma_await_lock_adds(t4, path, deadline, allowed);
        lemma_adds(t, t4, await_lock_run(t4, path, deadline).0, allowed);
    }
}

proof fn lemma_finish_adds(
    t: Transcript,
    backend: BackendView,
    c: CreationView,
    workspace: WorkspaceView,
    allowed: Calls,
)
    requires
        workspace.id == c.id,
        forall|call: CallView|
            reattaches(backend, c, workspace.generation, call) ==> #[trigger] allowed(call),
    ensures
        adds_only(
            t,
            finish_run(
                t,
                backend,
                workspace,
                c.executable,
                c.root,
                startup_directory(c.root, c.id, workspace.generation),
            ).0,
            allowed,
        ),
{
    let startup = startup_directory(c.root, c.id, workspace.generation);
    let ready = CallView::Path(PathAction::IsFile, ready_file(startup));
    let t1 = ask_flag(t, ready).0;
    lemma_ask_adds(t, ready, allowed);
    let stored = CallView::Path(PathAction::Read, path_in(startup, "retention"@));
    let (t2, policy) = policy_run(t1, startup);
    lemma_ask_adds(t1, stored, allowed);
    lemma_adds(t, t1, t2, allowed);
    if let Ok(retention) = policy {
        let t3 = start_recording_run(
            t2,
            backend,
            workspace.id,
            workspace.generation,
            c.executable,
            c.root,
            retention,
        ).0;
        lemma_recording_adds(
            t2,
            backend,
            workspace.id,
            workspace.generation,
            c.executable,
            c.root,
            retention,
            allowed,
        );
        lemma_adds(t, t2, t3, allowed);
        let write = CallView::WriteNew(ready_file(startup), encode_utf8("ready\n"@));
        let t4 = step_run(t3, write).0;
        lemma_ask_adds(t3, write, allowed);
        lemma_adds(t, t3, t4, allowed);
        let sync = CallView::Path(PathAction::SyncDirectory, startup);
        lemma_ask_adds(t4, sync, allowed);
        lemma_adds(t, t4, step_run(t4, sync).0, allowed);
    }
}

/// A creation that finds its workspace under the lock goes on with exactly that
/// incarnation: no session is started, no startup file is written, and what is
/// given is the incarnation that was found.
pub proof fn retrying_a_creation_creates_nothing(
    t: Transcript,
    backend: BackendView,
    c: CreationView,
)
    requires
        is_token(c.id),
        request_error(c.profile, c.executable, c.root) is None,
        state_root_run(t, c.root).1 is Ok,
        lock_run(
            state_root_run(t, c.root).0,
            path_in(c.root, c.id + ".lock"@),
            backend.timeout,
        ).1 is Ok,
        lookup_run(locked(t, backend, c), backend, c.id, true).1 is Ok,
    ensures
        ({
            let workspace = lookup_run(locked(t, backend, c), backend, c.id, true).1->Ok_0;
            let (next, r) = create_initialized_run(t, backend, c);
            &&& adds_only(
                t,
                next,
                |call: CallView| reattaches(backend, c, workspace.generation, call),
            )
            &&& r matches Ok(given) ==> given == workspace
        }),
{
    let t1 = locked(t, backend, c);
    let (t2, found) = lookup_run(t1, backend, c.id, true);
    let workspace = found->Ok_0;
    crate::workspace::laws::lemma_lookup_identity(t1, backend, c.id, true);
    let allowed = |call: CallView| reattaches(backend, c, workspace.generation, call);
    lemma_locked_adds(t, backend, c, allowed);
    lemma_lookup_adds(t1, backend, c.id, true, allowed);
    lemma_adds(t, t1, t2, allowed);
    let startup = startup_directory(c.root, c.id, workspace.generation);
    let durable = CallView::Path(PathAction::IsFile, path_in(startup, "startup"@));
    let t3 = ask_flag(t2, durable).0;
    lemma_ask_adds(t2, durable, allowed);
    lemma_adds(t, t2, t3, allowed);
    lemma_finish_adds(t3, backend, c, workspace, allowed);
    lemma_adds(
        t,
        t3,
        finish_run(t3, backend, workspace, c.executable, c.root, startup).0,
        allowed,
    );
}

// ---------------------------------------------------------------------------
// Retention
// ---------------------------------------------------------------------------

/// The policy of a new workspace is among its startup files, and is read back from
/// there.
pub proof fn the_policy_is_stored(
    profile: BootstrapProfileView,
    init: Seq<char>,
    startup: Seq<char>,
    session: u64,
    retention: RetentionPolicy,
)
    ensures
        startup_files(profile, init, startup, session, retention)[3] == (
            "retention"@,
            encode_utf8(retention_text(retention)),
        ),
        stored_policy(encode_utf8(retention_text(retention))) == Some(retention),
{
    reveal_strlit("archive\n");
    reveal_strlit("rolling\n");
    encode_utf8_decode_utf8("archive\n"@);
    encode_utf8_decode_utf8("rolling\n"@);
    assert("archive\n"@[0] != "rolling\n"@[0]);
}

/// A workspace keeps the policy that it was created with: going on with it does
/// not depend on the policy that is asked for now.
pub proof fn the_policy_is_kept(
    t: Transcript,
    backend: BackendView,
    c: CreationView,
    workspace: WorkspaceView,
    retention: RetentionPolicy,
)
    ensures
        old_incarnation_run(t, backend, c, workspace) == old_incarnation_run(
            t,
            backend,
            CreationView { retention, ..c },
            workspace,
        ),
{
}

// ---------------------------------------------------------------------------
// Deletion
// ---------------------------------------------------------------------------

/// A call that deletes the history of one incarnation.
pub open spec fn deletes_history(
    id: Seq<char>,
    generation: Seq<char>,
    root: Seq<char>,
    call: CallView,
) -> bool {
    ||| call == CallView::Path(PathAction::RemoveTree, journal_directory(root, id, generation))
    ||| call == CallView::Path(PathAction::RemoveTree, startup_directory(root, id, generation))
}

proof fn lemma_remove_adds(t: Transcript, path: Seq<char>, allowed: Calls)
    requires
        allowed(CallView::Path(PathAction::Describe, path)),
        allowed(CallView::Path(PathAction::RemoveTree, path)),
    ensures
        adds_only(t, remove_run(t, path).0, allowed),
{
    let describe = CallView::Path(PathAction::Describe, path);
    let remove = CallView::Path(PathAction::RemoveTree, path);
    let t1 = ask_entry(t, describe).0;
    lemma_ask_adds(t, describe, allowed);
    lemma_ask_adds(t1, remove, allowed);
    lemma_adds(t, t1, ask_done(t1, remove).0, allowed);
}

/// The history of an incarnation that is there is never deleted, nor that of one of
/// which it is not known whether it is there: then deletion fails and only looks.
pub proof fn a_live_incarnation_keeps_its_history(
    t: Transcript,
    backend: BackendView,
    id: Seq<char>,
    generation: Seq<char>,
    root: Seq<char>,
)
    requires
        ({
            let resolved = resolve_run(t, backend, id, generation).1;
            resolved matches Err(halt) ==> !is_kind(halt, ErrorKind::NotFound) && !is_kind(
                halt,
                ErrorKind::Stale,
            )
        }),
    ensures
        delete_history_run(t, backend, id, generation, root).1 is Err,
        adds_only(
            t,
            delete_history_run(t, backend, id, generation, root).0,
            |call: CallView| is_lookup(backend, id, call),
        ),
{
    let allowed = |call: CallView| is_lookup(backend, id, call);
    lemma_same_adds(t, allowed);
    lemma_resolve_adds(t, backend, id, generation, allowed);
}

/// Deleting the history of an incarnation removes its own two directories and
/// nothing else.
pub proof fn only_its_own_history_is_deleted(
    t: Transcript,
    backend: BackendView,
    id: Seq<char>,
    generation: Seq<char>,
    root: Seq<char>,
)
    ensures
        adds_only(
            t,
            delete_history_run(t, backend, id, generation, root).0,
            |call: CallView|
                is_lookup(backend, id, call) || deletes_history(id, generation, root, call)
                    || call matches CallView::Path(PathAction::Describe, _),
        ),
{
    let allowed = |call: CallView|
        is_lookup(backend, id, call) || deletes_history(id, generation, root, call)
            || call matches CallView::Path(PathAction::Describe, _);
    lemma_same_adds(t, allowed);
    let t1 = resolve_run(t, backend, id, generation).0;
    lemma_resolve_adds(t, backend, id, generation, allowed);
    let describe = CallView::Path(PathAction::Describe, root);
    let t2 = ask_entry(t1, describe).0;
    lemma_ask_adds(t1, describe, allowed);
    lemma_adds(t, t1, t2, allowed);
    let journal = journal_directory(root, id, generation);
    let startup = startup_directory(root, id, generation);
    let t3 = remove_run(t2, journal).0;
    lemma_remove_adds(t2, journal, allowed);
    lemma_adds(t, t2, t3, allowed);
    lemma_remove_adds(t3, startup, allowed);
    lemma_adds(t, t3, remove_run(t3, startup).0, allowed);
}

} // verus!
