//! What the status of a terminal tells, and what can be done about it.

use crate::connection::ConnectionStatusView;
use crate::number::decimal_text;
use crate::status::{short_id, status_of, status_rows, Action, StatusRowView, StatusTextView};
use crate::transport::{TransportPhaseView, TransportStatusView};
use vstd::prelude::*;
use vstd::string::*;

verus! {

/// There is input that may have been lost, or was.
pub open spec fn in_doubt(transport: TransportStatusView) -> bool {
    transport.input_delivery_unknown || transport.discarded_input
}

/// At least a gibibyte of history is kept.
pub open spec fn keeps_much(transport: TransportStatusView) -> bool {
    transport.history_storage_bytes matches Some(bytes) && bytes >= 0x4000_0000
}

/// The label names the phase; that of a terminal whose input is in doubt tells that it is
/// paused, and that of a terminal that is not attached what is being done about it.
pub proof fn labels_name_the_phase(
    transport: TransportStatusView,
    connection: ConnectionStatusView,
    running: bool,
)
    ensures
        ({
            let label = status_of(transport, connection, running).label;
            &&& transport.phase is Live && in_doubt(transport) ==> label == "Input paused"@
            &&& transport.phase is Live && !in_doubt(transport) && running ==> label == "Running"@
            &&& transport.phase is Live && !in_doubt(transport) && !running ==> label == "Idle"@
            &&& transport.phase is Replaying ==> label == "Restoring"@
            &&& transport.phase is Exited ==> label == "Exited"@
            &&& transport.phase is Removed ==> label == "Removed"@
            &&& transport.phase is HistoryGap ==> label == "History expired"@
            &&& transport.phase is Failed ==> label == "Paused"@
            &&& transport.phase is Disconnected && connection is Connecting ==> label
                == "Connecting"@
            &&& transport.phase is Disconnected && connection is Connected ==> label
                == "Attaching"@
            &&& transport.phase is Disconnected && connection is Reconnecting ==> label
                == "Reconnecting"@
        }),
{
}

/// One text begins with another.
pub open spec fn opens_with(text: Seq<char>, beginning: Seq<char>) -> bool {
    text.len() >= beginning.len() && text.take(beginning.len() as int) == beginning
}

/// One text ends with another.
pub open spec fn ends_with(text: Seq<char>, end: Seq<char>) -> bool {
    text.len() >= end.len() && text.skip(text.len() - end.len()) == end
}

proof fn lemma_opens(beginning: Seq<char>, rest: Seq<char>)
    ensures
        opens_with(beginning + rest, beginning),
        ends_with(beginning + rest, rest),
{
    assert((beginning + rest).take(beginning.len() as int) =~= beginning);
    assert((beginning + rest).skip((beginning + rest).len() - rest.len()) =~= rest);
}

/// The first line of a terminal's message.
pub open spec fn first_line(
    phase: TransportPhaseView,
    connection: ConnectionStatusView,
    running: bool,
) -> Seq<char> {
    match phase {
        TransportPhaseView::Live => (if running {
            "Running"@
        } else {
            "Idle"@
        }) + " | persistent SSH"@,
        TransportPhaseView::Replaying => "Restoring remote output | input paused"@,
        TransportPhaseView::Exited => "Shell exited | retained output"@,
        TransportPhaseView::Removed =>
            "Workspace was removed or replaced | no new job was created"@,
        TransportPhaseView::HistoryGap { earliest_cursor } => "Remote history before byte "@
            + decimal_text(earliest_cursor as nat)
            + " expired. Native block restoration is paused; the job was not terminated."@,
        TransportPhaseView::Failed(error) => "Workspace paused: "@ + error,
        TransportPhaseView::Disconnected => match connection {
            ConnectionStatusView::Connecting =>
                "Connecting | remote job is independent of this tab"@,
            ConnectionStatusView::Connected => "Attaching to remote workspace"@,
            ConnectionStatusView::Reconnecting { attempt, error } => "Reconnecting (attempt "@
                + decimal_text(attempt as nat) + ") | input paused | "@ + error,
        },
    }
}

/// The message begins with what the phase means, with its error or its number where it has
/// one; it ends with what became of the input, where that is in doubt; it tells of the
/// history where much is kept; and it says no more.
pub proof fn messages_tell_what_happened(
    transport: TransportStatusView,
    connection: ConnectionStatusView,
    running: bool,
)
    ensures
        ({
            let message = status_of(transport, connection, running).message;
            let first = first_line(transport.phase, connection, running);
            &&& opens_with(message, first)
            &&& transport.input_delivery_unknown ==> ends_with(
                message,
                "\nSome input may have reached the server. Inspect the output before resuming; nothing was resent."@,
            )
            &&& !transport.input_delivery_unknown && transport.discarded_input ==> ends_with(
                message,
                "\nInput queued during the connection change was discarded, not resent."@,
            )
            &&& keeps_much(transport) ==> opens_with(
                message,
                first + "\nRetained history uses "@,
            )
            &&& keeps_much(transport) && !in_doubt(transport) ==> ends_with(
                message,
                " GiB on the remote host. Delete unused workspaces to free space."@,
            )
            &&& !keeps_much(transport) && !in_doubt(transport) ==> message == first
        }),
{
    reveal_strlit("Running");
    reveal_strlit("Idle");
    reveal_strlit(" | persistent SSH");
    reveal_strlit("Running | persistent SSH");
    reveal_strlit("Idle | persistent SSH");
    let message = status_of(transport, connection, running).message;
    let first = first_line(transport.phase, connection, running);
    assert(crate::status::phase_message(transport.phase, connection, running) =~= first);
    let unknown =
        "\nSome input may have reached the server. Inspect the output before resuming; nothing was resent."@;
    let discarded = "\nInput queued during the connection change was discarded, not resent."@;
    let end = if transport.input_delivery_unknown {
        unknown
    } else if transport.discarded_input {
        discarded
    } else {
        Seq::empty()
    };
    let close = " GiB on the remote host. Delete unused workspaces to free space."@;
    if keeps_much(transport) {
        let head = first + "\nRetained history uses "@;
        let size = crate::status::units_text(
            transport.history_storage_bytes->Some_0,
            crate::status::GIB,
        );
        assert(message =~= head + (size + close + end));
        lemma_opens(head, size + close + end);
        assert(message =~= first + ("\nRetained history uses "@ + size + close + end));
        lemma_opens(first, "\nRetained history uses "@ + size + close + end);
        assert(message =~= (head + size + close) + end);
        lemma_opens(head + size + close, end);
        if !in_doubt(transport) {
            assert(message =~= (head + size) + close);
            lemma_opens(head + size, close);
        }
    } else {
        assert(message =~= first + end);
        lemma_opens(first, end);
    }
}

/// Details are shown for everything but a terminal in good order. Input that is in doubt can
/// be acknowledged, what has failed can be tried again, and a live terminal can be opened
/// where the output cannot be restored.
pub proof fn offers_have_their_reasons(
    transport: TransportStatusView,
    connection: ConnectionStatusView,
    running: bool,
)
    ensures
        ({
            let status = status_of(transport, connection, running);
            &&& status.show_details <==> transport.phase !is Live || in_doubt(transport)
                || keeps_much(transport)
            &&& status.acknowledge <==> in_doubt(transport)
            &&& status.retry <==> transport.phase is Failed
            &&& status.recover <==> transport.phase is Failed || transport.phase is HistoryGap
        }),
{
}

/// The rows begin with the workspace and the label; the message stands in them exactly
/// where details are shown, and each button exactly where its action is offered.
pub proof fn rows_show_the_status(workspace: Seq<char>, status: StatusTextView)
    ensures
        ({
            let rows = status_rows(workspace, status);
            &&& rows.len() > 0
            &&& rows[0] == StatusRowView::Chip("tmux "@ + workspace + " | "@ + status.label)
            &&& status.show_details ==> rows.len() > 1 && rows[1] == StatusRowView::Text(
                status.message,
            )
            &&& forall|i: int|
                0 <= i < rows.len() ==> (#[trigger] rows[i] matches StatusRowView::Button(
                    label,
                    action,
                ) ==> match action {
                    Action::AcknowledgeInput => status.acknowledge && label
                        == "Resume input without resending"@,
                    Action::RetryOutput => status.retry && label
                        == "Retry output (never resends input)"@,
                    Action::OpenRecovery => status.recover && label
                        == "Open live recovery terminal"@,
                    Action::OpenWorkspaces => false,
                })
            &&& status.acknowledge ==> rows.contains(
                StatusRowView::Button("Resume input without resending"@, Action::AcknowledgeInput),
            )
            &&& status.retry ==> rows.contains(
                StatusRowView::Button("Retry output (never resends input)"@, Action::RetryOutput),
            )
            &&& status.recover ==> rows.contains(
                StatusRowView::Button("Open live recovery terminal"@, Action::OpenRecovery),
            )
        }),
{
    let rows = status_rows(workspace, status);
    let detail: int = if status.show_details {
        1
    } else {
        0
    };
    let doubt: int = if status.acknowledge {
        1
    } else {
        0
    };
    let again: int = if status.retry {
        1
    } else {
        0
    };
    if status.acknowledge {
        assert(rows[1 + detail] == StatusRowView::Button(
            "Resume input without resending"@,
            Action::AcknowledgeInput,
        ));
    }
    if status.retry {
        assert(rows[1 + detail + doubt] == StatusRowView::Button(
            "Retry output (never resends input)"@,
            Action::RetryOutput,
        ));
    }
    if status.recover {
        assert(rows[2 + detail + doubt + again] == StatusRowView::Button(
            "Open live recovery terminal"@,
            Action::OpenRecovery,
        ));
    }
}

/// An identity is shown by its first eight characters.
pub proof fn identities_are_shortened(id: Seq<char>)
    ensures
        short_id(id).len() == (if id.len() < 8 {
            id.len() as int
        } else {
            8int
        }),
        forall|i: int| 0 <= i < short_id(id).len() ==> #[trigger] short_id(id)[i] == id[i],
{
}

} // verus!
