//! What a terminal's handle does with messages, and what the phases mean.

use crate::replay::ReplayPhase;
use crate::transport::{
    delivered, failure_phase, is_transient, replayed_phase, DeliveryView, HandleView, MessageView,
    RequestErrorView, TransportPhaseView,
};
use vstd::prelude::*;
use vstd::string::*;

verus! {

/// The terminal is live and open, and nothing is unclear about its input.
pub open spec fn is_ready(h: HandleView) -> bool {
    &&& h.status.phase is Live
    &&& !h.paused && !h.stopped
    &&& !h.status.input_delivery_unknown && !h.status.discarded_input
}

/// Input is queued exactly where the terminal is ready for it, and a new size exactly where
/// the terminal is not gone for good; what is queued is the message itself, marked with the
/// connection and the attachment that it was meant for, and the handle stays as it is.
pub proof fn messages_are_queued(h: HandleView, message: MessageView)
    requires
        message is Input || message is Resize,
    ensures
        ({
            let (next, delivery) = delivered(h, message);
            &&& next == h
            &&& delivery is Queue <==> !h.stopped && (message is Resize || is_ready(h))
            &&& delivery matches DeliveryView::Queue(queued) ==> queued.message == message
                && queued.epoch == h.status.epoch && queued.lifecycle == h.lifecycle
            &&& delivery !is Queue ==> delivery == DeliveryView::Refused(
                "Workspace input is paused while disconnected, replaying, or awaiting delivery acknowledgement"@,
            )
        }),
{
}

/// A tab that is closed pauses its terminal and begins another attachment, once; a shell
/// whose view is gone stops its terminal for good. Either leaves what is unclear about the
/// input, and the history, as it is.
pub proof fn ends_are_handled(h: HandleView)
    ensures
        ({
            let (next, delivery) = delivered(h, MessageView::Shutdown);
            &&& delivery is Handled
            &&& next.paused
            &&& next.stopped == h.stopped
            &&& next.status.phase is Disconnected
            &&& h.paused ==> next.lifecycle == h.lifecycle
            &&& !h.paused ==> next.lifecycle != h.lifecycle
            &&& next.status.input_delivery_unknown == h.status.input_delivery_unknown
            &&& next.status.discarded_input == h.status.discarded_input
            &&& next.status.history_storage_bytes == h.status.history_storage_bytes
            &&& next.status.epoch == h.status.epoch
            &&& next.retry_output == h.retry_output
        }),
        ({
            let (next, delivery) = delivered(h, MessageView::ChildExited);
            &&& delivery is Handled
            &&& next.stopped
            &&& next.paused == h.paused
            &&& next.status.phase is Disconnected
            &&& next.lifecycle == h.lifecycle
            &&& next.status.input_delivery_unknown == h.status.input_delivery_unknown
            &&& next.status.discarded_input == h.status.discarded_input
            &&& next.status.history_storage_bytes == h.status.history_storage_bytes
            &&& next.status.epoch == h.status.epoch
            &&& next.retry_output == h.retry_output
        }),
{
}

/// A workspace that is gone or was replaced is removed; every other failure is told, with
/// its code where it has one. Only a timeout of tmux may pass by itself.
pub proof fn failures_have_their_phases(error: RequestErrorView)
    ensures
        is_transient(error) <==> error is Workspace && error->code == "tmux_timeout"@,
        failure_phase(error) is Removed <==> error is Workspace && (error->code
            == "workspace_not_found"@ || error->code == "stale_workspace"@),
        error is Other ==> failure_phase(error) == TransportPhaseView::Failed(error->Other_0),
        failure_phase(error) is Removed || failure_phase(error) is Failed,
        error is Workspace && failure_phase(error) !is Removed ==> failure_phase(error)
            == TransportPhaseView::Failed(error->code + ": "@ + error->Workspace_message),
{
}

/// A terminal is live only where its replay is, its shell is ready and has not exited; it
/// has exited only where its journal is at its end and its shell has; and a recorder that is
/// gone without that is a failure.
pub proof fn replays_have_their_phases(phase: ReplayPhase, ready: bool, exited: bool)
    ensures
        ({
            let shown = replayed_phase(phase, ready, exited);
            let lost = TransportPhaseView::Failed(
                "Output recorder stopped; input is paused. The remote job was not terminated."@,
            );
            &&& shown is Live <==> phase is Live && ready && !exited
            &&& shown is Exited <==> phase is Closed && exited
            &&& shown is Replaying <==> phase is Replaying || phase is Live && (!ready || exited)
            &&& phase is Disconnected || phase is Closed && !exited ==> shown == lost
            &&& phase matches ReplayPhase::HistoryGap { earliest_cursor } ==> shown == (
            TransportPhaseView::HistoryGap { earliest_cursor })
        }),
{
}

} // verus!
