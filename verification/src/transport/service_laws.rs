//! What a transport does for its terminal: sizes, input, output and the phases that its
//! user sees.

use crate::native_replay::{parsed_bytes, ReplayEffectView};
use crate::proto::{
    PersistentTerminalOutputView, PersistentTerminalRequestView, PersistentWorkspaceResponseView,
};
use crate::replay::TicketView;
use crate::transport::laws::{after_turns, turned, Turn};
use crate::transport::run::{
    begun, refreshed, Connection, Now, Purpose, StageView, TransportActionView, TransportEffectView,
    TransportEventView, TransportView,
};
use crate::transport::{MessageView, TransportPhaseView};
use vstd::prelude::*;
use vstd::string::*;

verus! {

// ---------------------------------------------------------------------------
// Requests and answers
// ---------------------------------------------------------------------------

/// The daemon's answer speaks the protocol, supports what a terminal needs, reports no
/// error, and is about one workspace: the incarnation of this transport.
pub open spec fn answers(
    t: TransportView,
    response: Result<PersistentWorkspaceResponseView, Seq<char>>,
) -> bool {
    &&& response matches Ok(r)
    &&& r.protocol_version == 1
    &&& r.terminal_transport_supported
    &&& r.block_replay_supported
    &&& r.error is None
    &&& r.workspaces.len() == 1
    &&& r.workspaces[0].workspace_id == t.workspace_id
    &&& r.workspaces[0].generation == t.generation
}

/// The connection and the attachment of a turn are these, and the tab is open.
pub open spec fn undisturbed(turn: Turn, epoch: u64, lifecycle: u64) -> bool {
    &&& !turn.h.stopped
    &&& !turn.h.paused
    &&& turn.h.lifecycle == lifecycle
    &&& turn.connection.connected
    &&& turn.connection.epoch == epoch
}

/// The terminal part of a request that an action sends.
pub open spec fn asked(action: TransportActionView) -> Option<PersistentTerminalRequestView> {
    match action {
        TransportActionView::Request(request) => request.terminal,
        _ => None,
    }
}

/// A request to attach, to read from a cursor on, to write input, or to resize.
pub open spec fn attaching_at(cursor: u64) -> PersistentTerminalRequestView {
    PersistentTerminalRequestView { operation: 0, cursor, input: Seq::empty(), columns: 0, rows: 0 }
}

pub open spec fn reading_at(cursor: u64) -> PersistentTerminalRequestView {
    PersistentTerminalRequestView { operation: 1, cursor, input: Seq::empty(), columns: 0, rows: 0 }
}

pub open spec fn writing_of(input: Seq<u8>) -> PersistentTerminalRequestView {
    PersistentTerminalRequestView { operation: 2, cursor: 0, input, columns: 0, rows: 0 }
}

pub open spec fn resizing_to(size: (u32, u32)) -> PersistentTerminalRequestView {
    PersistentTerminalRequestView {
        operation: 3,
        cursor: 0,
        input: Seq::empty(),
        columns: size.0,
        rows: size.1,
    }
}

/// Every request of a transport is a terminal request for its own incarnation, and is one
/// of four: it attaches or reads at the cursor, writes up to 4096 bytes, or resizes.
pub open spec fn asks_soundly(t: TransportView, turn: Turn) -> bool {
    let (next, action) = turned(t, turn);
    &&& next.t.workspace_id == t.workspace_id
    &&& next.t.generation == t.generation
    &&& next.t.session_id == t.session_id
    &&& action matches TransportActionView::Request(request) ==> {
        let p = request.terminal->Some_0;
        &&& request.protocol_version == 1
        &&& request.operation == 5
        &&& request.workspace_id == t.workspace_id
        &&& request.generation == t.generation
        &&& request.working_directory is None
        &&& request.bootstrap is None
        &&& request.history_retention is None
        &&& request.terminal is Some
        &&& {
            ||| p == attaching_at(next.t.replay.state.cursor)
            ||| p == reading_at(next.t.replay.state.cursor)
            ||| p == writing_of(p.input) && 0 < p.input.len() <= 4096
            ||| p == resizing_to((next.t.columns, next.t.rows))
        }
    }
}

/// The event is what the stage waits for.
pub open spec fn is_awaited(t: TransportView, turn: Turn) -> bool {
    match t.stage {
        StageView::Idle => false,
        StageView::Awaiting | StageView::Receiving { .. } => turn.event is Received,
        StageView::Applying { .. } => turn.event is Parsed,
        _ => turn.event is Responded,
    }
}

/// The beginning of a turn asks for nothing, and keeps what it does not attach.
proof fn lemma_begun(now: Now, connection: Connection)
    requires
        now.effects.len() == 0,
    ensures
        ({
            let (next, action) = begun(now, connection);
            &&& next.t.workspace_id == now.t.workspace_id
            &&& next.t.generation == now.t.generation
            &&& next.t.session_id == now.t.session_id
            &&& next.t.columns == now.t.columns
            &&& next.t.rows == now.t.rows
            &&& asked(action) is None
            &&& !(action is Request)
            &&& next.t.needs_resize == (now.t.needs_resize || (next.effects.len() > 0
                && next.effects.last() is NotifyBootstrapped))
        }),
{
    let ready = refreshed(now, connection);
    assert(ready.t.columns == now.t.columns && ready.t.needs_resize == now.t.needs_resize);
    assert(ready.effects.len() > 0 ==> !(ready.effects.last() is NotifyBootstrapped));
}

/// An event that was not waited for begins a turn.
proof fn lemma_unexpected(t: TransportView, turn: Turn)
    requires
        !is_awaited(t, turn),
    ensures
        turned(t, turn) == begun(
            Now {
                t: TransportView { stage: StageView::Idle, ..t },
                h: turn.h,
                upcoming: turn.upcoming,
                effects: Seq::empty(),
            },
            turn.connection,
        ),
{
    reveal(turned);
    match t.stage {
        StageView::Idle => {},
        StageView::Awaiting => {},
        StageView::Receiving { .. } => {},
        StageView::Applying { .. } => {},
        StageView::Writing { .. } => {},
        StageView::Reading { .. } => {},
        StageView::Resizing { .. } => {},
    }
}

proof fn lemma_asks_unexpected(t: TransportView, turn: Turn)
    ensures
        !is_awaited(t, turn) ==> asks_soundly(t, turn),
{
    if !is_awaited(t, turn) {
        let now = Now {
            t: TransportView { stage: StageView::Idle, ..t },
            h: turn.h,
            upcoming: turn.upcoming,
            effects: Seq::empty(),
        };
        lemma_begun(now, turn.connection);
        lemma_unexpected(t, turn);
    }
}

proof fn lemma_asks_awaiting(t: TransportView, turn: Turn)
    ensures
        is_awaited(t, turn) && t.stage is Awaiting ==> asks_soundly(t, turn),
{
    if is_awaited(t, turn) && t.stage is Awaiting {
        reveal(turned);
    }
}

proof fn lemma_asks_receiving(t: TransportView, turn: Turn)
    ensures
        is_awaited(t, turn) && t.stage is Receiving ==> asks_soundly(t, turn),
{
    if is_awaited(t, turn) && t.stage is Receiving {
        reveal(turned);
    }
}

proof fn lemma_asks_writing(t: TransportView, turn: Turn)
    ensures
        is_awaited(t, turn) && t.stage is Writing ==> asks_soundly(t, turn),
{
    if is_awaited(t, turn) && t.stage is Writing {
        reveal(turned);
    }
}

proof fn lemma_asks_reading(t: TransportView, turn: Turn)
    ensures
        is_awaited(t, turn) && t.stage is Reading ==> asks_soundly(t, turn),
{
    if is_awaited(t, turn) && t.stage is Reading {
        reveal(turned);
    }
}

proof fn lemma_asks_applying(t: TransportView, turn: Turn)
    ensures
        is_awaited(t, turn) && t.stage is Applying ==> asks_soundly(t, turn),
{
    if is_awaited(t, turn) && t.stage is Applying {
        reveal(turned);
    }
}

proof fn lemma_asks_resizing(t: TransportView, turn: Turn)
    ensures
        is_awaited(t, turn) && t.stage is Resizing ==> asks_soundly(t, turn),
{
    if is_awaited(t, turn) && t.stage is Resizing {
        reveal(turned);
    }
}

/// Every request is sound.
pub proof fn requests_are_for_this_incarnation(t: TransportView, turn: Turn)
    ensures
        asks_soundly(t, turn),
{
    lemma_asks_unexpected(t, turn);
    lemma_asks_awaiting(t, turn);
    lemma_asks_receiving(t, turn);
    lemma_asks_writing(t, turn);
    lemma_asks_reading(t, turn);
    lemma_asks_applying(t, turn);
    lemma_asks_resizing(t, turn);
}

/// The transport keeps its incarnation over any run.
pub proof fn the_incarnation_never_changes(t: TransportView, turns: Seq<Turn>)
    ensures
        after_turns(t, turns).workspace_id == t.workspace_id,
        after_turns(t, turns).generation == t.generation,
        after_turns(t, turns).session_id == t.session_id,
    decreases turns.len(),
{
    if turns.len() > 0 {
        the_incarnation_never_changes(t, turns.drop_last());
        requests_are_for_this_incarnation(after_turns(t, turns.drop_last()), turns.last());
    }
}

// ---------------------------------------------------------------------------
// Sizes
// ---------------------------------------------------------------------------

/// The dimensions in a message that a turn takes from the queue, on a usable connection
/// or while none is there.
pub open spec fn size_taken(t: TransportView, turn: Turn) -> Option<(u32, u32)> {
    if t.stage is Receiving || t.stage is Awaiting {
        match turn.event {
            TransportEventView::Received(Some(q)) => match q.message {
                MessageView::Resize(columns, rows) => Some((columns, rows)),
                _ => None,
            },
            _ => None,
        }
    } else {
        None
    }
}

/// The dimensions of the last message that was taken; before any, those at the start.
pub open spec fn last_size(t: TransportView, turns: Seq<Turn>) -> (u32, u32)
    decreases turns.len(),
{
    if turns.len() == 0 {
        (t.columns, t.rows)
    } else {
        match size_taken(after_turns(t, turns.drop_last()), turns.last()) {
            Some(size) => size,
            None => last_size(t, turns.drop_last()),
        }
    }
}

/// A turn that attaches to the terminal anew.
pub open spec fn attaches(t: TransportView, turn: Turn) -> bool {
    let effects = turned(t, turn).0.effects;
    effects.len() > 0 && effects.last() is NotifyBootstrapped
}

/// The remote window does not have the last dimensions yet, as far as is known: since
/// they were taken, or since the terminal was attached, no resize was acknowledged.
pub open spec fn resize_due(t: TransportView, turns: Seq<Turn>) -> bool
    decreases turns.len(),
{
    if turns.len() == 0 {
        t.needs_resize
    } else {
        let before = after_turns(t, turns.drop_last());
        let turn = turns.last();
        if size_taken(before, turn) is Some || attaches(before, turn) {
            true
        } else if before.stage is Resizing && turn.event is Responded && answers(
            before,
            turn.event->Responded_0,
        ) {
            false
        } else {
            resize_due(t, turns.drop_last())
        }
    }
}

/// A page was parsed, or the replies to one were acknowledged.
pub open spec fn page_is_done(t: TransportView, turn: Turn) -> bool {
    ||| t.stage is Applying && turn.event is Parsed
    ||| turn.event is Responded && (t.stage matches StageView::Writing {
        purpose: Purpose::Replies { .. },
        ..
    })
}

/// What a turn does about the dimensions.
spec fn sizes_soundly(t: TransportView, turn: Turn) -> bool {
    let (next, action) = turned(t, turn);
    let size = (next.t.columns, next.t.rows);
    &&& size == (match size_taken(t, turn) {
        Some(taken) => taken,
        None => (t.columns, t.rows),
    })
    &&& next.t.needs_resize == (if size_taken(t, turn) is Some || attaches(t, turn) {
        true
    } else if t.stage is Resizing && turn.event is Responded && answers(
        t,
        turn.event->Responded_0,
    ) {
        false
    } else {
        t.needs_resize
    })
    &&& asked(action) matches Some(p) ==> {
        &&& p.operation == 3 ==> {
            &&& p == resizing_to(size)
            &&& page_is_done(t, turn)
            &&& t.needs_resize
            &&& next.h.status.phase is Live
        }
        &&& p.operation != 3 ==> p.columns == 0 && p.rows == 0
    }
    &&& page_is_done(t, turn) && t.needs_resize && next.h.status.phase is Live ==> {
        ||| next.t.stage is Writing
        ||| asked(action) == Some(resizing_to(size))
    }
}

proof fn lemma_sizes_unexpected(t: TransportView, turn: Turn)
    ensures
        !is_awaited(t, turn) ==> sizes_soundly(t, turn),
{
    if !is_awaited(t, turn) {
        let now = Now {
            t: TransportView { stage: StageView::Idle, ..t },
            h: turn.h,
            upcoming: turn.upcoming,
            effects: Seq::empty(),
        };
        lemma_begun(now, turn.connection);
        lemma_unexpected(t, turn);
    }
}

proof fn lemma_sizes_awaiting(t: TransportView, turn: Turn)
    ensures
        is_awaited(t, turn) && t.stage is Awaiting ==> sizes_soundly(t, turn),
{
    if is_awaited(t, turn) && t.stage is Awaiting {
        reveal(turned);
    }
}

proof fn lemma_sizes_receiving(t: TransportView, turn: Turn)
    ensures
        is_awaited(t, turn) && t.stage is Receiving ==> sizes_soundly(t, turn),
{
    if is_awaited(t, turn) && t.stage is Receiving {
        reveal(turned);
    }
}

proof fn lemma_sizes_writing(t: TransportView, turn: Turn)
    ensures
        is_awaited(t, turn) && t.stage is Writing ==> sizes_soundly(t, turn),
{
    if is_awaited(t, turn) && t.stage is Writing {
        reveal(turned);
    }
}

proof fn lemma_sizes_reading(t: TransportView, turn: Turn)
    ensures
        is_awaited(t, turn) && t.stage is Reading ==> sizes_soundly(t, turn),
{
    if is_awaited(t, turn) && t.stage is Reading {
        reveal(turned);
    }
}

proof fn lemma_sizes_applying(t: TransportView, turn: Turn)
    ensures
        is_awaited(t, turn) && t.stage is Applying ==> sizes_soundly(t, turn),
{
    if is_awaited(t, turn) && t.stage is Applying {
        reveal(turned);
    }
}

proof fn lemma_sizes_resizing(t: TransportView, turn: Turn)
    ensures
        is_awaited(t, turn) && t.stage is Resizing ==> sizes_soundly(t, turn),
{
    if is_awaited(t, turn) && t.stage is Resizing {
        reveal(turned);
    }
}

proof fn lemma_size_turn(t: TransportView, turn: Turn)
    ensures
        sizes_soundly(t, turn),
{
    lemma_sizes_unexpected(t, turn);
    lemma_sizes_awaiting(t, turn);
    lemma_sizes_receiving(t, turn);
    lemma_sizes_writing(t, turn);
    lemma_sizes_reading(t, turn);
    lemma_sizes_applying(t, turn);
    lemma_sizes_resizing(t, turn);
}

/// Whenever dimensions are taken from the queue, connected or not, they are those of the
/// transport from then on: every request that resizes carries the last ones that were
/// taken, and no other request carries any.
pub proof fn resizes_carry_the_last_size(t: TransportView, turns: Seq<Turn>, turn: Turn)
    ensures
        ({
            let now = after_turns(t, turns);
            let size = last_size(t, turns.push(turn));
            &&& (now.columns, now.rows) == last_size(t, turns)
            &&& asked(turned(now, turn).1) matches Some(p) ==> {
                &&& p.operation == 3 ==> p.columns == size.0 && p.rows == size.1
                &&& p.operation != 3 ==> p.columns == 0 && p.rows == 0
            }
        }),
    decreases turns.len(),
{
    lemma_size_turns(t, turns);
    lemma_size_turn(after_turns(t, turns), turn);
    assert(turns.push(turn).drop_last() =~= turns);
}

proof fn lemma_size_turns(t: TransportView, turns: Seq<Turn>)
    ensures
        ({
            let now = after_turns(t, turns);
            &&& (now.columns, now.rows) == last_size(t, turns)
            &&& now.needs_resize == resize_due(t, turns)
        }),
    decreases turns.len(),
{
    if turns.len() > 0 {
        lemma_size_turns(t, turns.drop_last());
        lemma_size_turn(after_turns(t, turns.drop_last()), turns.last());
    }
}

/// A resize that is due is sent once the terminal is live: where a page was parsed, and
/// its replies were written, and the terminal is live, the next request resizes, with the
/// last dimensions. One that is not due is not sent.
pub proof fn a_due_resize_is_sent(t: TransportView, turns: Seq<Turn>, turn: Turn)
    ensures
        ({
            let now = after_turns(t, turns);
            let (next, action) = turned(now, turn);
            &&& page_is_done(now, turn) && resize_due(t, turns) && next.h.status.phase is Live ==> {
                ||| next.t.stage is Writing
                ||| asked(action) == Some(resizing_to(last_size(t, turns)))
            }
            &&& asked(action) matches Some(p) ==> p.operation == 3 ==> page_is_done(now, turn)
                && resize_due(t, turns) && next.h.status.phase is Live
        }),
{
    lemma_size_turns(t, turns);
    lemma_size_turn(after_turns(t, turns), turn);
}

// ---------------------------------------------------------------------------
// Input
// ---------------------------------------------------------------------------

/// The part of some input that one request carries, from a place on: 4096 bytes, or
/// those that are left.
pub open spec fn part(bytes: Seq<u8>, from: int) -> Seq<u8> {
    if bytes.len() - from > 4096 {
        bytes.subrange(from, from + 4096)
    } else {
        bytes.subrange(from, bytes.len() as int)
    }
}

/// Input that was meant for this connection and this attachment of a live terminal, with
/// no doubt about earlier input, is sent: its first part goes out at once.
pub proof fn live_input_is_sent(t: TransportView, turn: Turn, epoch: u64, lifecycle: u64)
    requires
        t.stage == (StageView::Receiving { epoch, lifecycle }),
        undisturbed(turn, epoch, lifecycle),
        turn.h.status.phase is Live,
        !turn.h.status.input_delivery_unknown,
        !turn.h.status.discarded_input,
    ensures
        turn.event matches TransportEventView::Received(Some(q)) ==> (q.message matches MessageView::Input(
            bytes,
        ) ==> q.epoch == epoch && q.lifecycle == lifecycle && 0 < bytes.len() <= usize::MAX ==> {
            &&& asked(turned(t, turn).1) == Some(writing_of(part(bytes, 0)))
            &&& !turned(t, turn).0.h.status.discarded_input
        }),
{
    reveal(turned);
}

/// After a part of some input was acknowledged, the next part goes out, as long as the
/// connection and the attachment stay. After the last part the output is read on.
pub proof fn acknowledged_input_goes_on(
    t: TransportView,
    turn: Turn,
    epoch: u64,
    lifecycle: u64,
    bytes: Seq<u8>,
    sent: usize,
    purpose: Purpose,
)
    requires
        t.stage == (StageView::Writing { epoch, lifecycle, bytes, sent, purpose }),
        bytes.len() <= usize::MAX,
        turn.event is Responded,
        answers(t, turn.event->Responded_0),
        undisturbed(turn, epoch, lifecycle),
    ensures
        ({
            let action = turned(t, turn).1;
            let cursor = t.replay.state.cursor;
            &&& sent < bytes.len() ==> asked(action) == Some(writing_of(part(bytes, sent as int)))
            &&& sent >= bytes.len() && purpose is UserInput && (t.replay.state.phase is Replaying
                || t.replay.state.phase is Live) ==> asked(action) == Some(
                if t.needs_attach {
                    attaching_at(cursor)
                } else {
                    reading_at(cursor)
                },
            )
            &&& turned(t, turn).0.h.status == turn.h.status
        }),
{
    reveal(turned);
}

/// What the terminal replies to live output of a running shell is sent as input; a shell
/// that has exited gets none.
pub proof fn replies_are_sent(
    t: TransportView,
    turn: Turn,
    epoch: u64,
    lifecycle: u64,
    exited: bool,
    exit_code: Option<i32>,
    had_output: bool,
)
    requires
        t.stage == (StageView::Applying { epoch, lifecycle, exited, exit_code, had_output }),
        undisturbed(turn, epoch, lifecycle),
    ensures
        turn.event matches TransportEventView::Parsed { replies, .. } ==> {
            let p = asked(turned(t, turn).1);
            &&& !exited && 0 < replies.len() <= usize::MAX ==> p == Some(
                writing_of(part(replies, 0)),
            )
            &&& exited || replies.len() == 0 ==> (p matches Some(q) ==> q.operation == 3)
        },
{
    reveal(turned);
}

/// Input that comes while there is no usable connection, or that was meant for another
/// connection or attachment, is discarded, and the user is told.
pub proof fn stray_input_is_discarded(t: TransportView, turn: Turn)
    requires
        t.stage is Awaiting || t.stage is Receiving,
    ensures
        turn.event matches TransportEventView::Received(Some(q)) ==> (q.message is Input && (
        t.stage is Awaiting || (t.stage matches StageView::Receiving { epoch, lifecycle } && (
        q.epoch != epoch || q.lifecycle != lifecycle || !(turn.h.status.phase is Live)
            || turn.h.status.input_delivery_unknown || turn.h.status.discarded_input))) ==> {
            &&& turned(t, turn).0.h.status.discarded_input
            &&& asked(turned(t, turn).1) matches Some(p) ==> p.operation != 2
        }),
{
    reveal(turned);
}

// ---------------------------------------------------------------------------
// Turns
// ---------------------------------------------------------------------------

/// A new turn begins with this event: nothing is waited for.
pub open spec fn begins(t: TransportView, turn: Turn) -> bool {
    t.stage is Idle && turn.event is Proceed
}

/// A tab that was disposed of stops its transport; one that was closed, or whose
/// connection is missing, takes messages only.
pub proof fn without_a_connection_only_messages_are_taken(t: TransportView, turn: Turn)
    requires
        begins(t, turn),
    ensures
        turn.h.stopped ==> turned(t, turn).1 is Stop,
        !turn.h.stopped && (turn.h.paused || !turn.connection.connected) ==> turned(t, turn).1
            is AwaitMessage && turned(t, turn).0.t.stage is Awaiting,
        !turn.h.stopped && !turn.connection.connected ==> turned(t, turn).0.h.status.phase
            is Disconnected,
{
    reveal(turned);
}

/// Something is new since the last turn: the connection, the attachment, or a request of
/// the user to read again.
pub open spec fn is_news(t: TransportView, turn: Turn) -> bool {
    ||| t.active_epoch != Some(turn.connection.epoch)
    ||| t.active_lifecycle != turn.h.lifecycle
    ||| turn.h.retry_output
}

/// A connection that failed is left alone until something is new; a new one, a reopened
/// tab and a retry are tried.
pub proof fn failed_connections_are_left_alone(t: TransportView, turn: Turn)
    requires
        begins(t, turn),
        !turn.h.stopped,
        !turn.h.paused,
        turn.connection.connected,
    ensures
        t.failed_epoch == Some(turn.connection.epoch) && !is_news(t, turn) ==> turned(t, turn).1
            is AwaitMessage,
        t.failed_epoch != Some(turn.connection.epoch) || t.active_lifecycle != turn.h.lifecycle
            || turn.h.retry_output ==> {
            &&& turned(t, turn).1 is TakeMessage
            &&& turned(t, turn).0.t.stage == (StageView::Receiving {
                epoch: turn.connection.epoch,
                lifecycle: turn.h.lifecycle,
            })
            &&& !turned(t, turn).0.h.retry_output
        },
{
    reveal(turned);
}

/// On a usable connection the terminal is attached whenever something is new, and then
/// its history is restored first; otherwise it is not attached again.
pub proof fn news_is_attached(t: TransportView, turn: Turn)
    requires
        begins(t, turn),
        !turn.h.stopped,
        !turn.h.paused,
        turn.connection.connected,
        turned(t, turn).1 is TakeMessage,
    ensures
        attaches(t, turn) == (is_news(t, turn) || t.needs_attach),
        attaches(t, turn) ==> {
            let next = turned(t, turn).0;
            &&& next.h.status.phase is Replaying
            &&& next.t.replay.state.phase is Replaying
            &&& next.t.replay.state.replay_until is None
            &&& next.t.replay.state.cursor == t.replay.state.cursor
        },
        !attaches(t, turn) ==> turned(t, turn).0.h.status.phase == turn.h.status.phase
            && turned(t, turn).0.t.replay.state.phase == t.replay.state.phase,
{
    reveal(turned);
}

/// A turn without a message reads: from the cursor on, and with an attachment if the
/// terminal was attached in this turn.
pub proof fn turns_read_on(t: TransportView, first: Turn, second: Turn)
    requires
        begins(t, first),
        turned(t, first).1 is TakeMessage,
        second.event == TransportEventView::Received(None),
        turned(t, first).0.t.replay.state.phase is Replaying || turned(
            t,
            first,
        ).0.t.replay.state.phase is Live,
    ensures
        ({
            let begun = turned(t, first).0.t;
            let (next, action) = turned(begun, second);
            &&& asked(action) == Some(
                if attaches(t, first) {
                    attaching_at(t.replay.state.cursor)
                } else {
                    reading_at(t.replay.state.cursor)
                },
            )
            &&& next.t.stage == (StageView::Reading {
                epoch: first.connection.epoch,
                lifecycle: first.h.lifecycle,
                ticket: TicketView {
                    epoch: begun.replay.state.epoch,
                    cursor: t.replay.state.cursor,
                },
            })
        }),
{
    reveal(turned);
}

// ---------------------------------------------------------------------------
// Output
// ---------------------------------------------------------------------------

/// The effects on the terminal among the effects of a turn.
pub open spec fn terminal_effects(effects: Seq<TransportEffectView>) -> Seq<ReplayEffectView>
    decreases effects.len(),
{
    if effects.len() == 0 {
        Seq::empty()
    } else {
        match effects.last() {
            TransportEffectView::Replay(effect) => terminal_effects(effects.drop_last()).push(
                effect,
            ),
            _ => terminal_effects(effects.drop_last()),
        }
    }
}

proof fn lemma_terminal_effects(effects: Seq<ReplayEffectView>)
    ensures
        terminal_effects(
            effects.map_values(|effect: ReplayEffectView| TransportEffectView::Replay(effect)),
        ) == effects,
    decreases effects.len(),
{
    let mapped = effects.map_values(
        |effect: ReplayEffectView| TransportEffectView::Replay(effect),
    );
    if effects.len() > 0 {
        lemma_terminal_effects(effects.drop_last());
        assert(mapped.drop_last() =~= effects.drop_last().map_values(
            |effect: ReplayEffectView| TransportEffectView::Replay(effect),
        ));
        assert(effects.drop_last().push(effects.last()) =~= effects);
    } else {
        assert(mapped =~= Seq::empty());
    }
}

/// A page that follows a cursor without a gap.
pub open spec fn follows(page: PersistentTerminalOutputView, cursor: u64) -> bool {
    &&& page.start_cursor == cursor
    &&& page.next_cursor == cursor + page.output.len()
    &&& page.next_cursor <= page.high_watermark
    &&& page.earliest_cursor <= cursor
    &&& !page.history_gap
    &&& page.output.len() <= 256 * 1024
}

/// The page that answers a read is parsed: the terminal gets exactly its bytes, in order,
/// and the cursor moves behind them. What the response says of the storage is shown.
pub proof fn pages_are_parsed(
    t: TransportView,
    turn: Turn,
    epoch: u64,
    lifecycle: u64,
    ticket: TicketView,
    page: PersistentTerminalOutputView,
)
    requires
        t.stage == (StageView::Reading { epoch, lifecycle, ticket }),
        undisturbed(turn, epoch, lifecycle),
        ticket.epoch == t.replay.state.epoch,
        ticket.cursor == t.replay.state.cursor,
        t.replay.state.phase is Replaying || t.replay.state.phase is Live,
        turn.event is Responded,
        answers(t, turn.event->Responded_0),
        turn.event->Responded_0->Ok_0.terminal_output == Some(page),
        follows(page, ticket.cursor),
    ensures
        ({
            let r = turn.event->Responded_0->Ok_0;
            let (next, action) = turned(t, turn);
            &&& action is Parse
            &&& parsed_bytes(terminal_effects(next.effects)) == page.output
            &&& next.t.replay.state.cursor == page.next_cursor
            &&& next.h.status.history_storage_bytes == r.workspaces[0].history_storage_bytes
            &&& next.t.stage == (StageView::Applying {
                epoch,
                lifecycle,
                exited: r.workspaces[0].exited,
                exit_code: r.workspaces[0].exit_code,
                had_output: page.output.len() > 0,
            })
            &&& !next.t.needs_attach
        }),
{
    reveal(turned);
    crate::native_replay::apply_parses_what_it_commits(t.replay, ticket, page);
    let effects = crate::native_replay::applied(t.replay, ticket, page).1->Ok_0;
    lemma_terminal_effects(effects);
    assert(Seq::<TransportEffectView>::empty() + crate::transport::run::replay_effects(effects)
        =~= effects.map_values(|effect: ReplayEffectView| TransportEffectView::Replay(effect)));
}

/// A page that tells of a gap is not parsed: the user is told where the history begins
/// that is left, and nothing more is tried on this connection.
pub proof fn gaps_are_told(
    t: TransportView,
    turn: Turn,
    epoch: u64,
    lifecycle: u64,
    ticket: TicketView,
    page: PersistentTerminalOutputView,
)
    requires
        t.stage == (StageView::Reading { epoch, lifecycle, ticket }),
        undisturbed(turn, epoch, lifecycle),
        ticket.epoch == t.replay.state.epoch,
        ticket.cursor == t.replay.state.cursor,
        t.replay.state.phase is Replaying || t.replay.state.phase is Live,
        turn.event is Responded,
        answers(t, turn.event->Responded_0),
        turn.event->Responded_0->Ok_0.terminal_output == Some(page),
        page.history_gap,
        page.earliest_cursor > ticket.cursor,
        page.start_cursor == page.earliest_cursor,
        page.next_cursor == page.start_cursor + page.output.len(),
        page.next_cursor <= page.high_watermark,
        page.output.len() <= 256 * 1024,
    ensures
        ({
            let (next, action) = turned(t, turn);
            &&& !(action is Parse)
            &&& asked(action) is None
            &&& next.h.status.phase == (TransportPhaseView::HistoryGap {
                earliest_cursor: page.earliest_cursor,
            })
            &&& next.t.failed_epoch == Some(epoch)
            &&& next.t.replay.state.cursor == t.replay.state.cursor
        }),
{
    reveal(turned);
}

/// The phase that the user sees after a page was parsed. Only a terminal that has caught
/// up, whose shell is ready in its own session and runs, is live. A shell is called exited
/// only after its last page, and then it is finished with its code. A recorder that is
/// gone is a failure.
pub proof fn phases_after_a_page(
    t: TransportView,
    turn: Turn,
    epoch: u64,
    lifecycle: u64,
    exited: bool,
    exit_code: Option<i32>,
    had_output: bool,
    bootstrapped: bool,
    active_session: Option<u64>,
    replies: Seq<u8>,
)
    requires
        t.stage == (StageView::Applying { epoch, lifecycle, exited, exit_code, had_output }),
        turn.event == (TransportEventView::Parsed { replies, bootstrapped, active_session }),
        replies.len() == 0 || undisturbed(turn, epoch, lifecycle),
    ensures
        ({
            let next = turned(t, turn).0;
            let phase = next.h.status.phase;
            let ready = bootstrapped && active_session == Some(t.session_id);
            &&& phase is Live <==> t.replay.state.phase is Live && ready && !exited
            &&& phase is Exited <==> t.replay.state.phase is Closed && exited
            &&& phase is Failed <==> t.replay.state.phase is Disconnected || (
            t.replay.state.phase is Closed && !exited)
            &&& phase is Replaying <==> t.replay.state.phase is Replaying || (
            t.replay.state.phase is Live && !(ready && !exited))
            &&& phase is HistoryGap <==> t.replay.state.phase is HistoryGap
            &&& next.h.status.epoch == epoch
            &&& phase is Failed || phase is HistoryGap ==> next.t.failed_epoch == Some(epoch)
            &&& phase is Exited && exit_code is Some ==> next.effects == Seq::empty().push(
                TransportEffectView::Replay(ReplayEffectView::FinishShell(exit_code->Some_0)),
            )
            &&& !(phase is Exited && exit_code is Some) ==> next.effects.len() == 0
        }),
{
    reveal(turned);
    assert(Seq::<TransportEffectView>::empty().len() == 0);
}

/// A request that failed. The user sees that the incarnation is gone, or what went wrong;
/// a failure that passes by itself is tried again after a second, with an attachment, and
/// any other only on another connection. What was being written is in doubt then.
pub proof fn failures_are_told(
    t: TransportView,
    turn: Turn,
    epoch: u64,
    response: PersistentWorkspaceResponseView,
)
    requires
        turn.event == TransportEventView::Responded(Ok(response)),
        ({
            ||| t.stage matches StageView::Writing { epoch: e, .. } && e == epoch
            ||| t.stage matches StageView::Resizing { epoch: e, .. } && e == epoch
            ||| t.stage matches StageView::Reading { epoch: e, lifecycle, .. } && e == epoch
                && undisturbed(turn, epoch, lifecycle)
        }),
        response.protocol_version == 1,
        response.terminal_transport_supported,
        response.block_replay_supported,
        response.error is Some,
    ensures
        ({
            let error = response.error->Some_0;
            let (next, action) = turned(t, turn);
            let passes = error.code == "tmux_timeout"@;
            let gone = error.code == "workspace_not_found"@ || error.code == "stale_workspace"@;
            &&& gone ==> next.h.status.phase is Removed
            &&& !gone ==> next.h.status.phase == TransportPhaseView::Failed(
                error.code + ": "@ + error.message,
            )
            &&& passes ==> action == TransportActionView::Pause(1000) && next.t.failed_epoch is None
                && next.t.needs_attach
            &&& !passes ==> action is Again && next.t.failed_epoch == Some(epoch)
            &&& next.t.replay.state.phase is Disconnected
            &&& next.h.status.input_delivery_unknown == (turn.h.status.input_delivery_unknown
                || t.stage is Writing)
            &&& next.t.replay.state.input_delivery_unknown == (
            t.replay.state.input_delivery_unknown || t.stage is Writing)
        }),
{
    reveal(turned);
}

/// What follows a turn that is over: after output the next one at once, and otherwise the
/// next one after thirty-five milliseconds.
pub open spec fn rests(next: TransportView, action: TransportActionView, had_output: bool) -> bool {
    &&& next.stage is Idle
    &&& had_output ==> action is Again
    &&& !had_output ==> action == TransportActionView::Pause(35)
}

/// A turn is over once its page was parsed, where no reply and no size is to be sent; and
/// where a size was sent, once that was answered, which is then due no more.
pub proof fn turns_rest(t: TransportView, turn: Turn)
    ensures
        ({
            let (next, action) = turned(t, turn);
            &&& t.stage is Applying && turn.event is Parsed && turn.event->replies.len() == 0 && !(
            t.needs_resize && next.h.status.phase is Live) ==> rests(
                next.t,
                action,
                t.stage->Applying_had_output,
            )
            &&& t.stage is Resizing && turn.event is Responded && answers(
                t,
                turn.event->Responded_0,
            ) ==> rests(next.t, action, t.stage->Resizing_had_output) && !next.t.needs_resize
        }),
{
    reveal(turned);
}

} // verus!
