//! When a page is taken, and what it leads to.

use crate::proto::PersistentTerminalOutputView;
use crate::replay::{
    committed, prepared, reconnected, severed, ReplayError, ReplayPhase, ReplayView, TicketView,
};
use vstd::prelude::*;

verus! {

/// The page carries the bytes between its two cursors, from this cursor on or, where they
/// are not kept any more, from the earliest byte on; and it says which of the two.
pub open spec fn follows_on(page: PersistentTerminalOutputView, cursor: u64) -> bool {
    &&& page.output.len() <= 256 * 1024
    &&& page.start_cursor + page.output.len() == page.next_cursor
    &&& page.next_cursor <= page.high_watermark
    &&& page.history_gap <==> cursor < page.earliest_cursor
    &&& page.history_gap ==> page.start_cursor == page.earliest_cursor
    &&& !page.history_gap ==> page.start_cursor == cursor
}

/// A page is taken exactly where its ticket is that of the connection and of the cursor, the
/// terminal reads, and the page goes on without a gap. A page for another ticket is stale, a
/// terminal that does not read takes none, a page that does not go on is invalid, and a gap
/// is told with the earliest byte that is left, and stops the terminal.
pub proof fn pages_are_taken_or_refused(
    state: ReplayView,
    ticket: TicketView,
    page: PersistentTerminalOutputView,
)
    ensures
        ({
            let (next, r) = prepared(state, ticket, page);
            let current = ticket.epoch == state.epoch && ticket.cursor == state.cursor;
            let reads = state.phase is Replaying || state.phase is Live;
            &&& r is Ok <==> current && reads && follows_on(page, state.cursor)
                && !page.history_gap
            &&& !current ==> r->Err_0 is StaleResponse
            &&& current && !reads ==> r->Err_0 is NotConnected
            &&& current && reads && !follows_on(page, state.cursor) ==> r->Err_0 is InvalidPage
            &&& current && reads && follows_on(page, state.cursor) && page.history_gap ==> {
                &&& r->Err_0 == (ReplayError::HistoryGap { earliest_cursor: page.earliest_cursor })
                &&& next.phase == (ReplayPhase::HistoryGap {
                    earliest_cursor: page.earliest_cursor,
                })
            }
            &&& !(r is Ok) && !(r->Err_0 is HistoryGap) ==> next == state
        }),
{
}

/// A page that was taken ends the terminal where the journal is closed and nothing is left,
/// disconnects it where nothing records any more, and otherwise makes it live exactly where
/// everything was read that was there when the first page came.
pub proof fn a_page_leads_to_its_phase(
    state: ReplayView,
    ticket: TicketView,
    page: PersistentTerminalOutputView,
)
    requires
        prepared(state, ticket, page).1 is Ok,
    ensures
        ({
            let (ready, batch) = prepared(state, ticket, page);
            let done = committed(ready, batch->Ok_0).0;
            let until = match state.replay_until {
                Some(until) => until,
                None => page.high_watermark,
            };
            let over = page.closed && page.next_cursor == page.high_watermark;
            let unrecorded = !page.closed && !page.recorder_connected;
            &&& done.phase is Closed <==> over
            &&& done.phase is Disconnected <==> unrecorded
            &&& done.phase is Replaying <==> !over && !unrecorded && page.next_cursor < until
            &&& done.phase is Live <==> !over && !unrecorded && page.next_cursor >= until
            &&& done.replay_until == Some(until)
            &&& done.cursor == page.next_cursor
            &&& done.epoch == state.epoch
            &&& done.input_delivery_unknown == state.input_delivery_unknown
        }),
{
}

/// A new connection goes on where the last one stopped, and what was recorded meanwhile is
/// history; a connection that is lost leaves the cursor, and input that was on its way is in
/// doubt from then on.
pub proof fn connections_keep_the_cursor(state: ReplayView, in_flight: bool, epoch: u64)
    ensures
        ({
            let next = reconnected(state, epoch);
            &&& next.cursor == state.cursor
            &&& next.epoch == epoch
            &&& next.phase is Replaying
            &&& next.replay_until is None
            &&& next.input_delivery_unknown == state.input_delivery_unknown
        }),
        ({
            let next = severed(state, in_flight, epoch);
            &&& next.cursor == state.cursor
            &&& next.epoch == epoch
            &&& next.phase is Disconnected
            &&& next.input_delivery_unknown <==> state.input_delivery_unknown || in_flight
        }),
{
}

} // verus!
