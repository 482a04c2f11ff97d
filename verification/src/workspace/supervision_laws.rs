//! How a command is watched over, and how a history is deleted.

use crate::host::{
    ask, ask_bytes, ask_done, ask_entry, ask_exit, ask_flag, ask_number, continues,
    lemma_ask_continues, lemma_continues, CallView, Halt, IoHalt, IoKind, PathAction, ProcessAction,
    ReplyView, Transcript,
};
use crate::paths::path_in;
use crate::workspace::command::{
    deadline_after, drain_run, lemma_drain, supervised_run, timed_run, watch_run, MAX_OUTPUT,
};
use crate::workspace::laws::{lemma_watch_adds, Calls};
use crate::workspace::recording::{delete_history_run, remove_run};
use crate::workspace::sessions::{is_kind, is_token, resolve_run};
use crate::workspace::startup::await_lock_run;
use crate::workspace::{BackendView, ErrorKind};
use vstd::prelude::*;
use vstd::string::*;

verus! {

/// The bytes that calls of this kind were answered with, from one place to another.
pub open spec fn gathered(t: Transcript, from: int, to: int, action: ProcessAction) -> Seq<u8>
    decreases to - from,
{
    if to <= from {
        Seq::empty()
    } else {
        let before = gathered(t, from, to - 1, action);
        if t.calls[to - 1] == CallView::Process(action) && to - 1 < t.replies.len() && t.replies[to
            - 1] is Bytes {
            before + t.replies[to - 1]->Bytes_0
        } else {
            before
        }
    }
}

proof fn lemma_gathered_split(
    t: Transcript,
    from: int,
    middle: int,
    to: int,
    action: ProcessAction,
)
    requires
        from <= middle <= to,
    ensures
        gathered(t, from, to, action) == gathered(t, from, middle, action) + gathered(
            t,
            middle,
            to,
            action,
        ),
    decreases to - middle,
{
    if to == middle {
        assert(gathered(t, from, to, action) =~= gathered(t, from, middle, action) + gathered(
            t,
            middle,
            to,
            action,
        ));
    } else {
        lemma_gathered_split(t, from, middle, to - 1, action);
        assert(gathered(t, from, to, action) =~= gathered(t, from, middle, action) + gathered(
            t,
            middle,
            to,
            action,
        ));
    }
}

proof fn lemma_gathered_kept(
    t: Transcript,
    next: Transcript,
    from: int,
    to: int,
    action: ProcessAction,
)
    requires
        continues(t, next),
        0 <= from,
        to <= t.calls.len(),
    ensures
        gathered(next, from, to, action) == gathered(t, from, to, action),
    decreases to - from,
{
    if to > from {
        lemma_gathered_kept(t, next, from, to - 1, action);
        assert(next.calls.take(t.calls.len() as int)[to - 1] == next.calls[to - 1]);
    }
}

/// What one more call adds.
proof fn lemma_gathered_one(t: Transcript, call: CallView, action: ProcessAction)
    ensures
        ({
            let k = t.calls.len() as int;
            let next = ask(t, call).0;
            gathered(next, k, k + 1, action) == (if call == CallView::Process(action) && k
                < t.replies.len() && t.replies[k] is Bytes {
                t.replies[k]->Bytes_0
            } else {
                Seq::empty()
            })
        }),
{
    let k = t.calls.len() as int;
    let next = ask(t, call).0;
    assert(gathered(next, k, k, action) =~= Seq::empty());
    assert(next.calls[k] == call);
    if call == CallView::Process(action) && k < t.replies.len() && t.replies[k] is Bytes {
        assert(Seq::<u8>::empty() + t.replies[k]->Bytes_0 =~= t.replies[k]->Bytes_0);
    }
}

/// Two parts of a transcript that follow one another add up.
proof fn lemma_gathered_on(
    t: Transcript,
    next: Transcript,
    last: Transcript,
    action: ProcessAction,
)
    requires
        continues(t, next),
        continues(next, last),
    ensures
        continues(t, last),
        gathered(last, t.calls.len() as int, last.calls.len() as int, action) == gathered(
            next,
            t.calls.len() as int,
            next.calls.len() as int,
            action,
        ) + gathered(last, next.calls.len() as int, last.calls.len() as int, action),
{
    lemma_continues(t, next, last);
    lemma_gathered_split(
        last,
        t.calls.len() as int,
        next.calls.len() as int,
        last.calls.len() as int,
        action,
    );
    lemma_gathered_kept(next, last, t.calls.len() as int, next.calls.len() as int, action);
}

proof fn lemma_drained(
    t: Transcript,
    action: ProcessAction,
    before: Seq<u8>,
    other: ProcessAction,
)
    ensures
        ({
            let (next, r) = drain_run(t, action, before);
            let k = t.calls.len() as int;
            let n = next.calls.len() as int;
            &&& continues(t, next)
            &&& r matches Ok(all) ==> {
                &&& all == before + gathered(next, k, n, action)
                &&& other != action ==> gathered(next, k, n, other) == Seq::<u8>::empty()
            }
        }),
    decreases t.replies.len() - t.calls.len(),
{
    let call = CallView::Process(action);
    let (u, r) = ask_bytes(t, call);
    lemma_ask_continues(t, call);
    lemma_gathered_one(t, call, action);
    lemma_gathered_one(t, call, other);
    let none = Seq::<u8>::empty();
    assert(before + none =~= before);
    let last = drain_run(t, action, before).0;
    match r {
        Ok(bytes) => {
            if bytes.len() == 0 {
                assert(bytes =~= none);
            } else if before.len() + bytes.len() <= MAX_OUTPUT {
                lemma_drained(u, action, before + bytes, other);
                lemma_gathered_on(t, u, last, action);
                lemma_gathered_on(t, u, last, other);
                let rest = gathered(last, u.calls.len() as int, last.calls.len() as int, action);
                assert(before + (bytes + rest) =~= before + bytes + rest);
                assert(none + none =~= none);
            }
        },
        Err(Halt::Failed(error)) => {
            if error.kind == IoKind::Interrupted {
                lemma_drained(u, action, before, other);
                lemma_gathered_on(t, u, last, action);
                lemma_gathered_on(t, u, last, other);
                let rest = gathered(last, u.calls.len() as int, last.calls.len() as int, action);
                assert(none + rest =~= rest);
                assert(none + none =~= none);
            }
        },
        Err(Halt::Waiting) => {},
    }
}

proof fn lemma_watched(t: Transcript, deadline: u64, output: Seq<u8>, diagnostics: Seq<u8>)
    ensures
        ({
            let (next, r) = watch_run(t, deadline, output, diagnostics);
            let k = t.calls.len() as int;
            let n = next.calls.len() as int;
            &&& continues(t, next)
            &&& r matches Ok((success, out, err)) ==> {
                &&& out == output + gathered(next, k, n, ProcessAction::ReadOutput)
                &&& err == diagnostics + gathered(next, k, n, ProcessAction::ReadDiagnostics)
                &&& exists|i: int|
                    k <= i < n && i < t.replies.len() && #[trigger] next.calls[i]
                        == CallView::Process(ProcessAction::Poll) && t.replies[i]
                        == ReplyView::Exited(success)
            }
        }),
    decreases t.replies.len() - t.calls.len(),
{
    let o = ProcessAction::ReadOutput;
    let d = ProcessAction::ReadDiagnostics;
    let none = Seq::<u8>::empty();
    let any: Calls = |call: CallView| true;
    lemma_watch_adds(t, deadline, output, diagnostics, any);
    let last = watch_run(t, deadline, output, diagnostics).0;
    let k = t.calls.len() as int;
    let poll = CallView::Process(ProcessAction::Poll);
    let (t1, polled) = ask_exit(t, poll);
    lemma_ask_continues(t, poll);
    lemma_gathered_one(t, poll, o);
    lemma_gathered_one(t, poll, d);
    if let Ok(status) = polled {
        let (t2, out) = drain_run(t1, o, output);
        lemma_drain(t1, o, output);
        lemma_drained(t1, o, output, d);
        lemma_gathered_on(t, t1, t2, o);
        lemma_gathered_on(t, t1, t2, d);
        if let Ok(output2) = out {
            let (t3, err) = drain_run(t2, d, diagnostics);
            lemma_drain(t2, d, diagnostics);
            lemma_drained(t2, d, diagnostics, o);
            lemma_gathered_on(t, t2, t3, o);
            lemma_gathered_on(t, t2, t3, d);
            if let Ok(diagnostics2) = err {
                let first_o = gathered(t2, t1.calls.len() as int, t2.calls.len() as int, o);
                let first_d = gathered(t3, t2.calls.len() as int, t3.calls.len() as int, d);
                let so_far_o = gathered(t3, k, t3.calls.len() as int, o);
                let so_far_d = gathered(t3, k, t3.calls.len() as int, d);
                assert(so_far_o =~= first_o) by {
                    assert(none + first_o =~= first_o);
                    assert(first_o + none =~= first_o);
                }
                assert(so_far_d =~= first_d) by {
                    assert(none + none =~= none);
                    assert(none + first_d =~= first_d);
                }
                assert(output2 == output + so_far_o);
                assert(diagnostics2 == diagnostics + so_far_d);
                match status {
                    Some(success) => {
                        assert(t3.calls.take(t1.calls.len() as int)[k] == t3.calls[k]) by {
                            lemma_continues(t1, t2, t3);
                        }
                        assert(last.calls[k] == poll) by {
                            lemma_continues(t1, t2, t3);
                            assert(t3.calls.take(t1.calls.len() as int)[k] == t1.calls[k]);
                        }
                        assert(t.replies[k] == ReplyView::Exited(success));
                    },
                    None => {
                        let (t4, clock) = ask_number(t3, CallView::Clock);
                        lemma_ask_continues(t3, CallView::Clock);
                        lemma_gathered_one(t3, CallView::Clock, o);
                        lemma_gathered_one(t3, CallView::Clock, d);
                        lemma_gathered_on(t, t3, t4, o);
                        lemma_gathered_on(t, t3, t4, d);
                        let (t5, slept) = ask_done(t4, CallView::Sleep(10));
                        lemma_ask_continues(t4, CallView::Sleep(10));
                        lemma_gathered_one(t4, CallView::Sleep(10), o);
                        lemma_gathered_one(t4, CallView::Sleep(10), d);
                        lemma_gathered_on(t, t4, t5, o);
                        lemma_gathered_on(t, t4, t5, d);
                        assert(so_far_o + none + none =~= so_far_o);
                        assert(so_far_d + none + none =~= so_far_d);
                        if slept is Ok && clock is Ok && clock->Ok_0 < deadline {
                            lemma_watched(t5, deadline, output2, diagnostics2);
                            lemma_gathered_on(t, t5, last, o);
                            lemma_gathered_on(t, t5, last, d);
                            let n = last.calls.len() as int;
                            let m = t5.calls.len() as int;
                            let rest_o = gathered(last, m, n, o);
                            let rest_d = gathered(last, m, n, d);
                            assert(output + (so_far_o + rest_o) =~= output + so_far_o + rest_o);
                            assert(diagnostics + (so_far_d + rest_d) =~= diagnostics + so_far_d
                                + rest_d);
                        }
                    },
                }
            }
        }
    }
}

/// A command that exits gives everything that it was read to have written, and nothing else:
/// its output as its output and its diagnostics as its diagnostics; it succeeded where the
/// system says so.
pub proof fn everything_written_is_given(t: Transcript, timeout: u64)
    ensures
        ({
            let (next, r) = supervised_run(t, timeout);
            let k = t.calls.len() as int;
            let n = next.calls.len() as int;
            r matches Ok((success, output, diagnostics)) ==> {
                &&& output == gathered(next, k, n, ProcessAction::ReadOutput)
                &&& diagnostics == gathered(next, k, n, ProcessAction::ReadDiagnostics)
                &&& exists|i: int|
                    k <= i < n && i < t.replies.len() && #[trigger] next.calls[i]
                        == CallView::Process(ProcessAction::Poll) && t.replies[i]
                        == ReplyView::Exited(success)
            }
        }),
{
    let (next, r) = supervised_run(t, timeout);
    let (t1, clock) = ask_number(t, CallView::Clock);
    lemma_ask_continues(t, CallView::Clock);
    if let Ok(now) = clock {
        let none = Seq::<u8>::empty();
        lemma_watched(t1, deadline_after(now, timeout), none, none);
        if r is Ok {
            let o = ProcessAction::ReadOutput;
            let d = ProcessAction::ReadDiagnostics;
            lemma_gathered_one(t, CallView::Clock, o);
            lemma_gathered_one(t, CallView::Clock, d);
            lemma_gathered_on(t, t1, next, o);
            lemma_gathered_on(t, t1, next, d);
            let n = next.calls.len() as int;
            let rest_o = gathered(next, t1.calls.len() as int, n, o);
            let rest_d = gathered(next, t1.calls.len() as int, n, d);
            assert(none + rest_o =~= rest_o);
            assert(none + rest_d =~= rest_d);
        }
    }
}

/// A command that could not be watched to its end is killed, and its end is waited for.
pub proof fn failing_commands_are_killed(t: Transcript, timeout: u64)
    ensures
        supervised_run(t, timeout).1 is Err && supervised_run(t, timeout).1->Err_0 is Failed ==> {
            let next = supervised_run(t, timeout).0;
            let n = next.calls.len() as int;
            &&& n >= 2
            &&& next.calls[n - 2] == CallView::Process(ProcessAction::Kill)
            &&& next.calls[n - 1] == CallView::Process(ProcessAction::Reap)
        },
{
    let (t1, r) = timed_run(t, timeout);
    if r is Err && r->Err_0 is Failed {
        let t2 = ask(t1, CallView::Process(ProcessAction::Kill)).0;
        let t3 = ask(t2, CallView::Process(ProcessAction::Reap)).0;
        assert(t3.calls[t1.calls.len() as int] == CallView::Process(ProcessAction::Kill));
    }
}

/// A command that has not exited is looked at again after ten milliseconds as long as the
/// deadline is ahead, and times out at the first look after that.
pub proof fn commands_have_their_time(
    t: Transcript,
    deadline: u64,
    output: Seq<u8>,
    diagnostics: Seq<u8>,
)
    ensures
        ({
            let (next, r) = watch_run(t, deadline, output, diagnostics);
            let k = t.calls.len() as int;
            let n = next.calls.len() as int;
            &&& forall|i: int|
                k <= i < n && #[trigger] next.calls[i] is Sleep ==> {
                    &&& i > k
                    &&& next.calls[i] == CallView::Sleep(10)
                    &&& next.calls[i - 1] is Clock
                    &&& t.replies[i - 1] is Number
                    &&& t.replies[i - 1]->Number_0 < deadline
                }
            &&& r is Err && is_kind(r->Err_0, ErrorKind::Timeout) ==> {
                &&& n > k
                &&& next.calls.last() is Clock
                &&& n <= t.replies.len()
                &&& t.replies[n - 1] is Number
                &&& t.replies[n - 1]->Number_0 >= deadline
            }
        }),
    decreases t.replies.len() - t.calls.len(),
{
    let o = ProcessAction::ReadOutput;
    let d = ProcessAction::ReadDiagnostics;
    let k = t.calls.len() as int;
    let last = watch_run(t, deadline, output, diagnostics).0;
    let any: Calls = |call: CallView| true;
    lemma_watch_adds(t, deadline, output, diagnostics, any);
    let poll = CallView::Process(ProcessAction::Poll);
    let (t1, polled) = ask_exit(t, poll);
    lemma_ask_continues(t, poll);
    if let Ok(status) = polled {
        let (t2, out) = drain_run(t1, o, output);
        lemma_drain(t1, o, output);
        lemma_drain_quiet(t1, o, output);
        lemma_continues(t, t1, t2);
        if let Ok(output2) = out {
            let (t3, err) = drain_run(t2, d, diagnostics);
            lemma_drain(t2, d, diagnostics);
            lemma_drain_quiet(t2, d, diagnostics);
            lemma_continues(t, t2, t3);
            lemma_continues(t1, t2, t3);
            assert forall|i: int| k <= i < t3.calls.len() implies #[trigger] t3.calls[i]
                is Process by {
                if i < t2.calls.len() {
                    assert(t3.calls.take(t2.calls.len() as int)[i] == t3.calls[i]);
                    if i < t1.calls.len() {
                        assert(t2.calls.take(t1.calls.len() as int)[i] == t2.calls[i]);
                    }
                }
            }
            if err is Ok && status is None {
                let diagnostics2 = err->Ok_0;
                let (t4, clock) = ask_number(t3, CallView::Clock);
                lemma_ask_continues(t3, CallView::Clock);
                if clock is Ok && clock->Ok_0 < deadline {
                    let (t5, slept) = ask_done(t4, CallView::Sleep(10));
                    lemma_ask_continues(t4, CallView::Sleep(10));
                    if slept is Ok {
                        commands_have_their_time(t5, deadline, output2, diagnostics2);
                        lemma_watch_adds(t5, deadline, output2, diagnostics2, any);
                        assert forall|i: int| k <= i < t5.calls.len() implies last.calls[i]
                            == #[trigger] t5.calls[i] by {
                            assert(last.calls.take(t5.calls.len() as int)[i] == last.calls[i]);
                        }
                        let m = t5.calls.len() as int;
                        assert(t5.calls[m - 1] == CallView::Sleep(10));
                        assert(t5.calls[m - 2] == CallView::Clock);
                        assert forall|i: int|
                            k <= i < last.calls.len()
                                && #[trigger] last.calls[i] is Sleep implies i > k
                            && last.calls[i] == CallView::Sleep(10) && last.calls[i - 1] is Clock
                            && t.replies[i - 1] is Number && t.replies[i - 1]->Number_0
                            < deadline by {
                            if i < m {
                                assert(last.calls[i] == t5.calls[i]);
                                if i < m - 2 {
                                    assert(t5.calls[i] == t3.calls[i]);
                                }
                                assert(last.calls[m - 2] == t5.calls[m - 2]);
                            }
                        }
                    }
                }
            }
        }
    }
}

/// Draining only asks the process, and never fails for want of time.
proof fn lemma_drain_quiet(t: Transcript, action: ProcessAction, before: Seq<u8>)
    ensures
        ({
            let (next, r) = drain_run(t, action, before);
            &&& continues(t, next)
            &&& forall|i: int|
                t.calls.len() <= i < next.calls.len() ==> #[trigger] next.calls[i] is Process
            &&& r is Err ==> !is_kind(r->Err_0, ErrorKind::Timeout)
        }),
    decreases t.replies.len() - t.calls.len(),
{
    let call = CallView::Process(action);
    let (u, r) = ask_bytes(t, call);
    lemma_ask_continues(t, call);
    let last = drain_run(t, action, before).0;
    if let Ok(bytes) = r {
        if bytes.len() > 0 && before.len() + bytes.len() <= MAX_OUTPUT {
            lemma_drain_quiet(u, action, before + bytes);
            lemma_continues(t, u, last);
            assert(last.calls.take(u.calls.len() as int)[t.calls.len() as int]
                == last.calls[t.calls.len() as int]);
        }
    }
    if let Err(Halt::Failed(error)) = r {
        if error.kind == IoKind::Interrupted {
            lemma_drain_quiet(u, action, before);
            lemma_continues(t, u, last);
            assert(last.calls.take(u.calls.len() as int)[t.calls.len() as int]
                == last.calls[t.calls.len() as int]);
        }
    }
}

/// The history of an incarnation that is gone is deleted: first its journal, then what its
/// shell was started from, each where it is a directory.
pub proof fn the_history_is_deleted(
    t: Transcript,
    backend: BackendView,
    id: Seq<char>,
    generation: Seq<char>,
    root: Seq<char>,
)
    requires
        is_token(id),
        is_token(generation),
        root.len() > 0,
        root[0] == '/',
        root.last() != '/',
        resolve_run(t, backend, id, generation).1 matches Err(halt) && (is_kind(
            halt,
            ErrorKind::NotFound,
        ) || is_kind(halt, ErrorKind::Stale)),
        ({
            let u = resolve_run(t, backend, id, generation).0;
            let k = u.calls.len() as int;
            &&& u.replies.len() >= k + 5
            &&& u.replies[k] matches ReplyView::Entry(entry) && entry.directory && entry.private
            &&& u.replies[k + 1] matches ReplyView::Entry(entry) && entry.directory
            &&& u.replies[k + 2] is Done
            &&& u.replies[k + 3] matches ReplyView::Entry(entry) && entry.directory
            &&& u.replies[k + 4] is Done
        }),
    ensures
        ({
            let u = resolve_run(t, backend, id, generation).0;
            let (next, r) = delete_history_run(t, backend, id, generation, root);
            let journal = root + "/"@ + id + "-"@ + generation;
            &&& r is Ok
            &&& next.calls == u.calls.push(CallView::Path(PathAction::Describe, root)).push(
                CallView::Path(PathAction::Describe, journal),
            ).push(CallView::Path(PathAction::RemoveTree, journal)).push(
                CallView::Path(PathAction::Describe, journal + ".shell"@),
            ).push(CallView::Path(PathAction::RemoveTree, journal + ".shell"@))
        }),
{
    let u = resolve_run(t, backend, id, generation).0;
    let journal = root + "/"@ + id + "-"@ + generation;
    assert(crate::number::is_hex_digit(id[0]));
    assert(path_in(root, id + "-"@ + generation) =~= journal);
    assert(path_in(root, id + "-"@ + generation + ".shell"@) =~= journal + ".shell"@);
    let t1 = ask_entry(u, CallView::Path(PathAction::Describe, root)).0;
    let t2 = remove_run(t1, journal).0;
    assert(t2.calls =~= t1.calls.push(CallView::Path(PathAction::Describe, journal)).push(
        CallView::Path(PathAction::RemoveTree, journal),
    ));
    let t3 = remove_run(t2, journal + ".shell"@).0;
    assert(t3.calls =~= t2.calls.push(
        CallView::Path(PathAction::Describe, journal + ".shell"@),
    ).push(CallView::Path(PathAction::RemoveTree, journal + ".shell"@)));
}

/// A creation waits for the lock of its workspace: it goes on only once the lock was taken,
/// looks again every ten milliseconds, and gives up only when its time is over.
pub proof fn locks_are_waited_for(t: Transcript, path: Seq<char>, deadline: u64)
    ensures
        ({
            let (next, r) = await_lock_run(t, path, deadline);
            let attempt = CallView::Path(PathAction::TryLock, path);
            let n = next.calls.len() as int;
            &&& continues(t, next)
            &&& n > t.calls.len()
            &&& forall|i: int|
                t.calls.len() <= i < n ==> #[trigger] next.calls[i] == attempt || next.calls[i]
                    == CallView::Clock || next.calls[i] == CallView::Sleep(10)
            &&& r is Ok ==> n <= t.replies.len() && next.calls.last() == attempt && t.replies[n - 1]
                == ReplyView::Flag(true)
            &&& r is Err && is_kind(r->Err_0, ErrorKind::Timeout) ==> n <= t.replies.len()
                && next.calls.last() is Clock && t.replies[n - 1] is Number && t.replies[n
                - 1]->Number_0 >= deadline
        }),
    decreases t.replies.len() - t.calls.len(),
{
    let attempt = CallView::Path(PathAction::TryLock, path);
    let last = await_lock_run(t, path, deadline).0;
    let (t1, locked) = ask_flag(t, attempt);
    lemma_ask_continues(t, attempt);
    if locked == Ok::<bool, IoHalt>(false) {
        let (t2, clock) = ask_number(t1, CallView::Clock);
        lemma_ask_continues(t1, CallView::Clock);
        lemma_continues(t, t1, t2);
        if clock is Ok && clock->Ok_0 < deadline {
            let (t3, slept) = ask_done(t2, CallView::Sleep(10));
            lemma_ask_continues(t2, CallView::Sleep(10));
            lemma_continues(t, t2, t3);
            if slept is Ok {
                locks_are_waited_for(t3, path, deadline);
                lemma_continues(t, t3, last);
                assert forall|i: int| t.calls.len() <= i < last.calls.len() implies #[trigger]
                    last.calls[i] == attempt || last.calls[i] == CallView::Clock || last.calls[i]
                    == CallView::Sleep(10) by {
                    if i < t3.calls.len() {
                        assert(last.calls.take(t3.calls.len() as int)[i] == last.calls[i]);
                    }
                }
            }
        }
    }
}

} // verus!
