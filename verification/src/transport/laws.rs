//! What a transport never does, whatever its connection does.

use crate::native_replay::ReplayEffectView;
use crate::proto::PersistentWorkspaceResponseView;
use crate::replay::TicketView;
use crate::transport::run::{
    checked_response, chunk_end, may_write, refreshed, stepped, still_current, Connection, Now,
    Purpose, StageView, TransportActionView, TransportEffectView, TransportEventView, TransportView,
};
use crate::transport::{takes_input, HandleView, MessageView, QueuedView};
use vstd::prelude::*;

verus! {

/// The bytes of input that an action sends.
pub open spec fn input_of(action: TransportActionView) -> Seq<u8> {
    match action {
        TransportActionView::Request(request) => match request.terminal {
            Some(terminal) => terminal.input,
            None => Seq::empty(),
        },
        _ => Seq::empty(),
    }
}

/// A message is written only where it was meant for this connection and this
/// attachment, to a live terminal without any doubt about earlier input. What is
/// written is its beginning.
pub proof fn messages_are_written_to_a_live_terminal(
    now: Now,
    connection: Connection,
    queued: QueuedView,
    bytes: Seq<u8>,
    epoch: u64,
    lifecycle: u64,
)
    requires
        now.t.stage == (StageView::Receiving { epoch, lifecycle }),
        queued.message == MessageView::Input(bytes),
    ensures
        ({
            let (next, action) = stepped(
                now,
                connection,
                TransportEventView::Received(Some(queued)),
            );
            input_of(action).len() > 0 ==> {
                &&& may_write(now.h, queued, epoch, lifecycle)
                &&& still_current(now.h, connection, epoch, lifecycle)
                &&& input_of(action) == bytes.subrange(0, chunk_end(bytes.len(), 0) as int)
            }
        }),
{
}

/// Input is written in parts that follow one another: a part goes out only after
/// the part before it was acknowledged, and begins where that one ended.
pub proof fn parts_of_input_follow_one_another(
    now: Now,
    connection: Connection,
    response: Result<PersistentWorkspaceResponseView, Seq<char>>,
    epoch: u64,
    lifecycle: u64,
    bytes: Seq<u8>,
    sent: usize,
    purpose: Purpose,
)
    requires
        now.t.stage == (StageView::Writing { epoch, lifecycle, bytes, sent, purpose }),
    ensures
        ({
            let (next, action) = stepped(
                now,
                connection,
                TransportEventView::Responded(response),
            );
            input_of(action).len() > 0 ==> {
                &&& checked_response(now.t, response) is Ok
                &&& still_current(now.h, connection, epoch, lifecycle)
                &&& sent < bytes.len()
                &&& input_of(action) == bytes.subrange(
                    sent as int,
                    chunk_end(bytes.len(), sent as nat) as int,
                )
            }
        }),
{
}

/// Input whose acknowledgement is lost is never written again: the terminal takes
/// no input until its user says so, and nothing of it is kept.
pub proof fn unacknowledged_input_is_never_retried(
    now: Now,
    connection: Connection,
    response: Result<PersistentWorkspaceResponseView, Seq<char>>,
    epoch: u64,
    lifecycle: u64,
    bytes: Seq<u8>,
    sent: usize,
    purpose: Purpose,
)
    requires
        now.t.stage == (StageView::Writing { epoch, lifecycle, bytes, sent, purpose }),
        checked_response(now.t, response) is Err,
    ensures
        ({
            let (next, action) = stepped(
                now,
                connection,
                TransportEventView::Responded(response),
            );
            &&& !(action is Request)
            &&& next.t.stage is Idle
            &&& next.h.status.input_delivery_unknown
            &&& next.t.replay.state.input_delivery_unknown
            &&& !takes_input(next.h)
        }),
{
}

/// A turn of the loop clears no doubt about input, whatever has changed.
pub proof fn only_the_user_clears_doubts(now: Now, connection: Connection)
    ensures
        refreshed(now, connection).h.status.input_delivery_unknown
            == now.h.status.input_delivery_unknown,
        refreshed(now, connection).h.status.discarded_input == now.h.status.discarded_input,
        now.h.status.input_delivery_unknown && now.t.replay.state.input_delivery_unknown
            ==> refreshed(now, connection).t.replay.state.input_delivery_unknown,
{
}

/// A response that comes after the connection or the attachment has changed is
/// dropped: nothing is parsed, and the cursor stays.
pub proof fn late_pages_are_dropped(
    now: Now,
    connection: Connection,
    response: Result<PersistentWorkspaceResponseView, Seq<char>>,
    epoch: u64,
    lifecycle: u64,
    ticket: TicketView,
)
    requires
        now.t.stage == (StageView::Reading { epoch, lifecycle, ticket }),
        !still_current(now.h, connection, epoch, lifecycle),
    ensures
        ({
            let (next, action) = stepped(
                now,
                connection,
                TransportEventView::Responded(response),
            );
            &&& next.t.replay == now.t.replay
            &&& next.h == now.h
            &&& next.effects == now.effects
            &&& action is Again
        }),
{
}

/// A page that could not be accepted, or that reports a gap, moves no cursor.
pub proof fn refused_pages_move_no_cursor(
    now: Now,
    connection: Connection,
    response: Result<PersistentWorkspaceResponseView, Seq<char>>,
    epoch: u64,
    lifecycle: u64,
    ticket: TicketView,
)
    requires
        now.t.stage == (StageView::Reading { epoch, lifecycle, ticket }),
    ensures
        ({
            let (next, action) = stepped(
                now,
                connection,
                TransportEventView::Responded(response),
            );
            !(action is Parse) ==> next.t.replay.state.cursor == now.t.replay.state.cursor
        }),
{
    crate::replay::preparing_keeps_the_cursor(
        now.t.replay.state,
        ticket,
        response->Ok_0.terminal_output->Some_0,
    );
}

/// The terminal's shell is finished only after the last page of a shell that has
/// exited was parsed. The loss of a connection or of a recorder never finishes it.
pub proof fn only_the_last_page_finishes_the_shell(
    now: Now,
    connection: Connection,
    epoch: u64,
    lifecycle: u64,
    exited: bool,
    exit_code: Option<i32>,
    had_output: bool,
    replies: Seq<u8>,
    bootstrapped: bool,
    active_session: Option<u64>,
)
    requires
        now.t.stage == (StageView::Applying { epoch, lifecycle, exited, exit_code, had_output }),
        !(exited && now.t.replay.state.phase is Closed),
    ensures
        ({
            let (next, action) = stepped(
                now,
                connection,
                TransportEventView::Parsed { replies, bootstrapped, active_session },
            );
            forall|i: int|
                now.effects.len() <= i < next.effects.len() ==> !(#[trigger] next.effects[i]
                    matches TransportEffectView::Replay(ReplayEffectView::FinishShell(_)))
        }),
{
}

// ---------------------------------------------------------------------------
// Whole runs
// ---------------------------------------------------------------------------

/// One turn: what the handle, the epochs and the connection are like then, whatever the
/// user and the network did in between, and the event.
pub struct Turn {
    pub h: HandleView,
    pub upcoming: u64,
    pub connection: Connection,
    pub event: TransportEventView,
}

#[verifier::opaque]
pub open spec fn turned(t: TransportView, turn: Turn) -> (Now, TransportActionView) {
    stepped(
        Now { t, h: turn.h, upcoming: turn.upcoming, effects: Seq::empty() },
        turn.connection,
        turn.event,
    )
}

/// The transport after some turns.
pub open spec fn after_turns(t: TransportView, turns: Seq<Turn>) -> TransportView
    decreases turns.len(),
{
    if turns.len() == 0 {
        t
    } else {
        turned(after_turns(t, turns.drop_last()), turns.last()).0.t
    }
}

/// The bytes of the user's input that a turn sends.
pub open spec fn user_input(turned: (Now, TransportActionView)) -> Seq<u8> {
    match turned.0.t.stage {
        StageView::Writing { purpose: Purpose::UserInput, .. } => input_of(turned.1),
        _ => Seq::empty(),
    }
}

/// Everything that was sent of the user's input, in that order.
pub open spec fn sent_input(t: TransportView, turns: Seq<Turn>) -> Seq<u8>
    decreases turns.len(),
{
    if turns.len() == 0 {
        Seq::empty()
    } else {
        sent_input(t, turns.drop_last()) + user_input(
            turned(after_turns(t, turns.drop_last()), turns.last()),
        )
    }
}

/// A message of input: the turn that took it from the queue, its bytes, and how many of
/// them went out before the next message was taken.
pub struct TakenInput {
    pub turn: int,
    pub bytes: Seq<u8>,
    pub sent: nat,
}

/// The input that a turn takes from the queue.
pub open spec fn input_taken(turn: Turn) -> Option<Seq<u8>> {
    match turn.event {
        TransportEventView::Received(Some(q)) => match q.message {
            MessageView::Input(bytes) => Some(bytes),
            _ => None,
        },
        _ => None,
    }
}

/// The messages of input that were taken from the queue, in that order. What goes out
/// is counted for the last one that was taken.
pub open spec fn taken(t: TransportView, turns: Seq<Turn>) -> Seq<TakenInput>
    decreases turns.len(),
{
    if turns.len() == 0 {
        Seq::empty()
    } else {
        let front = turns.drop_last();
        let before = match input_taken(turns.last()) {
            Some(bytes) => taken(t, front).push(
                TakenInput { turn: front.len() as int, bytes, sent: 0 },
            ),
            None => taken(t, front),
        };
        let count = user_input(turned(after_turns(t, front), turns.last())).len();
        if count > 0 && before.len() > 0 {
            let last = before.last();
            before.drop_last().push(TakenInput { sent: last.sent + count, ..last })
        } else {
            before
        }
    }
}

/// The beginnings of messages that went out, joined.
pub open spec fn beginnings(messages: Seq<TakenInput>) -> Seq<u8>
    decreases messages.len(),
{
    if messages.len() == 0 {
        Seq::empty()
    } else {
        beginnings(messages.drop_last()) + messages.last().bytes.take(messages.last().sent as int)
    }
}

/// A message was taken by a turn that may write it: it was meant for the connection and
/// the attachment of that turn, which are still the current ones, and the terminal is
/// live without any doubt about earlier input.
pub open spec fn taken_rightly(t: TransportView, turns: Seq<Turn>, message: TakenInput) -> bool {
    let turn = turns[message.turn];
    &&& turn.event matches TransportEventView::Received(Some(q))
    &&& q.message == MessageView::Input(message.bytes)
    &&& after_turns(t, turns.take(message.turn)).stage matches StageView::Receiving {
        epoch,
        lifecycle,
    }
    &&& may_write(turn.h, q, epoch, lifecycle)
    &&& still_current(turn.h, turn.connection, epoch, lifecycle)
}

/// What holds of the messages that were taken.
spec fn well_taken(t: TransportView, turns: Seq<Turn>) -> bool {
    let messages = taken(t, turns);
    &&& sent_input(t, turns) == beginnings(messages)
    &&& forall|i: int|
        0 <= i < messages.len() ==> {
            let message = #[trigger] messages[i];
            &&& 0 <= message.turn < turns.len()
            &&& message.sent <= message.bytes.len()
            &&& message.sent > 0 ==> taken_rightly(t, turns, message)
        }
    &&& forall|i: int, j: int|
        0 <= i < j < messages.len() ==> (#[trigger] messages[i]).turn < (
        #[trigger] messages[j]).turn
    &&& after_turns(t, turns).stage matches StageView::Writing {
        bytes,
        sent,
        purpose: Purpose::UserInput,
        ..
    } ==> messages.len() > 0 && messages.last().bytes == bytes && messages.last().sent == sent
        && sent > 0
}

proof fn lemma_beginnings_push(messages: Seq<TakenInput>, message: TakenInput)
    ensures
        beginnings(messages.push(message)) == beginnings(messages) + message.bytes.take(
            message.sent as int,
        ),
{
    assert(messages.push(message).drop_last() =~= messages);
}

/// A message fits into memory.
pub open spec fn fits(turn: Turn) -> bool {
    input_taken(turn) matches Some(bytes) ==> bytes.len() <= usize::MAX
}

/// What a turn sends of the user's input, and in which stage it leaves the transport.
proof fn lemma_turn(t: TransportView, turn: Turn)
    requires
        fits(turn),
        t.stage matches StageView::Writing { bytes, .. } ==> bytes.len() <= usize::MAX,
    ensures
        ({
            let (next, action) = turned(t, turn);
            let out = user_input((next, action));
            next.t.stage matches StageView::Writing {
                epoch,
                lifecycle,
                bytes,
                sent,
                purpose: Purpose::UserInput,
            } ==> {
                &&& 0 < sent <= bytes.len() <= usize::MAX
                &&& match t.stage {
                    StageView::Receiving { epoch: e, lifecycle: l } => {
                        &&& turn.event matches TransportEventView::Received(Some(q))
                        &&& q.message == MessageView::Input(bytes)
                        &&& may_write(turn.h, q, e, l)
                        &&& still_current(turn.h, turn.connection, e, l)
                        &&& out == bytes.subrange(0, sent as int)
                    },
                    StageView::Writing { bytes: b, sent: s, purpose, .. } => {
                        &&& turn.event is Responded
                        &&& purpose is UserInput
                        &&& b == bytes
                        &&& s < sent
                        &&& out == bytes.subrange(s as int, sent as int)
                    },
                    _ => false,
                }
            }
        }),
{
    reveal(turned);
}

/// The replies of a terminal that are written fit into memory, too.
pub open spec fn replies_fit(turn: Turn) -> bool {
    turn.event matches TransportEventView::Parsed { replies, .. } ==> replies.len() <= usize::MAX
}

proof fn lemma_writing_fits(t: TransportView, turn: Turn)
    requires
        fits(turn),
        replies_fit(turn),
        t.stage matches StageView::Writing { bytes, .. } ==> bytes.len() <= usize::MAX,
    ensures
        turned(t, turn).0.t.stage matches StageView::Writing { bytes, .. } ==> bytes.len()
            <= usize::MAX,
{
    reveal(turned);
}

proof fn lemma_turns(t: TransportView, turns: Seq<Turn>)
    requires
        !(t.stage is Writing),
        forall|i: int| 0 <= i < turns.len() ==> fits(#[trigger] turns[i]),
        forall|i: int| 0 <= i < turns.len() ==> replies_fit(#[trigger] turns[i]),
    ensures
        after_turns(t, turns).stage matches StageView::Writing { bytes, .. } ==> bytes.len()
            <= usize::MAX,
        well_taken(t, turns),
    decreases turns.len(),
{
    if turns.len() > 0 {
        let front = turns.drop_last();
        let turn = turns.last();
        assert forall|i: int| 0 <= i < front.len() implies fits(#[trigger] front[i]) by {
            assert(fits(turns[i]));
        }
        assert forall|i: int| 0 <= i < front.len() implies replies_fit(#[trigger] front[i]) by {
            assert(replies_fit(turns[i]));
        }
        lemma_turns(t, front);
        let now = after_turns(t, front);
        assert(fits(turns[turns.len() - 1]) && replies_fit(turns[turns.len() - 1]));
        lemma_turn(now, turn);
        lemma_writing_fits(now, turn);
        let out = user_input(turned(now, turn));
        let old_messages = taken(t, front);
        let before = match input_taken(turn) {
            Some(bytes) => old_messages.push(
                TakenInput { turn: front.len() as int, bytes, sent: 0 },
            ),
            None => old_messages,
        };
        let messages = taken(t, turns);
        if input_taken(turn) is Some {
            lemma_beginnings_push(old_messages, before.last());
            assert(before.last().bytes.take(0) =~= Seq::empty());
            assert(beginnings(old_messages) + Seq::<u8>::empty() =~= beginnings(old_messages));
        }
        assert(beginnings(before) == beginnings(old_messages));
        if out.len() > 0 {
            assert(before.len() > 0);
            let last = before.last();
            let grown = TakenInput { sent: last.sent + out.len(), ..last };
            assert(messages == before.drop_last().push(grown));
            lemma_beginnings_push(before.drop_last(), grown);
            lemma_beginnings_push(before.drop_last(), last);
            assert(before.drop_last().push(last) =~= before);
            assert(last.bytes.take(last.sent as int) + out =~= last.bytes.take(
                grown.sent as int,
            ));
            assert(beginnings(messages) =~= beginnings(before) + out);
        } else {
            assert(out =~= Seq::empty());
            assert(beginnings(before) + out =~= beginnings(before));
        }
        assert forall|i: int| 0 <= i < messages.len() implies {
            let message = #[trigger] messages[i];
            &&& 0 <= message.turn < turns.len()
            &&& message.sent <= message.bytes.len()
            &&& message.sent > 0 ==> taken_rightly(t, turns, message)
        } by {
            let message = messages[i];
            if message.turn < front.len() {
                assert(turns.take(message.turn) =~= front.take(message.turn));
                assert(i < old_messages.len());
                let held = old_messages[i];
                assert(turns[message.turn] == front[message.turn]);
                assert(held.turn == message.turn && held.bytes == message.bytes);
                if held.sent > 0 {
                    assert(taken_rightly(t, front, held));
                }
            } else {
                assert(turns.take(front.len() as int) =~= front);
            }
        }
        assert forall|i: int, j: int| 0 <= i < j < messages.len() implies (
        #[trigger] messages[i]).turn < (#[trigger] messages[j]).turn by {
            assert(messages[i].turn == before[i].turn && messages[j].turn == before[j].turn);
            assert(before[i] == old_messages[i]);
            if j < old_messages.len() {
                assert(before[j] == old_messages[j]);
                assert(old_messages[i].turn < old_messages[j].turn);
            }
        }
    }
}

/// Over any run of the loop, with messages, changes of the connection, pauses and
/// failures in any order: what goes out of the user's input is, message by message in
/// the order in which they were taken from the queue, a beginning of each. So no byte
/// goes out twice, and what was left of a message when its delivery failed never goes
/// out. A message of which anything goes out was meant for the current connection and
/// attachment, and the terminal was live without any doubt about earlier input.
pub proof fn input_goes_out_at_most_once(t: TransportView, turns: Seq<Turn>)
    requires
        !(t.stage is Writing),
        forall|i: int| 0 <= i < turns.len() ==> fits(#[trigger] turns[i]),
        forall|i: int| 0 <= i < turns.len() ==> replies_fit(#[trigger] turns[i]),
    ensures
        sent_input(t, turns) == beginnings(taken(t, turns)),
        forall|i: int|
            0 <= i < taken(t, turns).len() ==> {
                let message = #[trigger] taken(t, turns)[i];
                &&& 0 <= message.turn < turns.len()
                &&& input_taken(turns[message.turn]) == Some(message.bytes)
                &&& message.sent <= message.bytes.len()
                &&& message.sent > 0 ==> taken_rightly(t, turns, message)
            },
        forall|i: int, j: int|
            0 <= i < j < taken(t, turns).len() ==> (#[trigger] taken(t, turns)[i]).turn < (
            #[trigger] taken(t, turns)[j]).turn,
{
    lemma_turns(t, turns);
    lemma_taken_turns(t, turns);
}

proof fn lemma_taken_turns(t: TransportView, turns: Seq<Turn>)
    ensures
        forall|i: int|
            0 <= i < taken(t, turns).len() ==> {
                let message = #[trigger] taken(t, turns)[i];
                &&& 0 <= message.turn < turns.len()
                &&& input_taken(turns[message.turn]) == Some(message.bytes)
            },
    decreases turns.len(),
{
    if turns.len() > 0 {
        let front = turns.drop_last();
        lemma_taken_turns(t, front);
        let messages = taken(t, turns);
        assert forall|i: int| 0 <= i < messages.len() implies {
            let message = #[trigger] messages[i];
            &&& 0 <= message.turn < turns.len()
            &&& input_taken(turns[message.turn]) == Some(message.bytes)
        } by {
            if i < taken(t, front).len() {
                let held = taken(t, front)[i];
                assert(messages[i].turn == held.turn && messages[i].bytes == held.bytes);
                assert(turns[held.turn] == front[held.turn]);
            }
        }
    }
}

/// Input that is taken from the queue and does not go out is not lost in silence: the
/// terminal then says that it was discarded, or that its delivery is unclear.
pub proof fn no_input_is_lost_in_silence(t: TransportView, turn: Turn)
    requires
        t.stage is Receiving || t.stage is Awaiting,
        input_taken(turn) is Some,
        input_taken(turn)->Some_0.len() > 0,
    ensures
        ({
            let (next, action) = turned(t, turn);
            ||| user_input((next, action)).len() > 0
            ||| next.h.status.discarded_input
            ||| next.h.status.input_delivery_unknown
        }),
{
    reveal(turned);
}

} // verus!
