//! What a terminal's user sees of its workspace: one chip, and details where
//! something needs to be known.

use crate::connection::{ConnectionStatus, ConnectionStatusView};
use crate::number::{decimal, decimal_text};
use crate::text;
use crate::transport::{
    HandleView, TransportHandle, TransportPhase, TransportPhaseView, TransportStatus,
    TransportStatusView,
};
use vstd::prelude::*;
use vstd::string::*;

pub mod laws;

verus! {

/// What the user can do.
#[derive(Clone, Copy, PartialEq, Eq, Structural, Debug)]
pub enum Action {
    AcknowledgeInput,
    OpenWorkspaces,
    RetryOutput,
    OpenRecovery,
}

/// The texts of a terminal's status, and what is offered with them.
#[derive(Debug)]
pub struct StatusText {
    pub label: String,
    pub message: String,
    pub show_details: bool,
    pub acknowledge: bool,
    pub retry: bool,
    pub recover: bool,
}

#[verifier::ext_equal]
pub struct StatusTextView {
    pub label: Seq<char>,
    pub message: Seq<char>,
    pub show_details: bool,
    pub acknowledge: bool,
    pub retry: bool,
    pub recover: bool,
}

impl DeepView for StatusText {
    type V = StatusTextView;

    open spec fn deep_view(&self) -> StatusTextView {
        StatusTextView {
            label: self.label@,
            message: self.message@,
            show_details: self.show_details,
            acknowledge: self.acknowledge,
            retry: self.retry,
            recover: self.recover,
        }
    }
}

/// The chip's label.
pub open spec fn status_label(
    transport: TransportStatusView,
    connection: ConnectionStatusView,
    running: bool,
) -> Seq<char> {
    match transport.phase {
        TransportPhaseView::Live => if transport.input_delivery_unknown
            || transport.discarded_input {
            "Input paused"@
        } else if running {
            "Running"@
        } else {
            "Idle"@
        },
        TransportPhaseView::Replaying => "Restoring"@,
        TransportPhaseView::Exited => "Exited"@,
        TransportPhaseView::Removed => "Removed"@,
        TransportPhaseView::HistoryGap { .. } => "History expired"@,
        TransportPhaseView::Failed(_) => "Paused"@,
        TransportPhaseView::Disconnected => match connection {
            ConnectionStatusView::Connecting => "Connecting"@,
            ConnectionStatusView::Connected => "Attaching"@,
            ConnectionStatusView::Reconnecting { .. } => "Reconnecting"@,
        },
    }
}

/// What is going on.
pub open spec fn phase_message(
    phase: TransportPhaseView,
    connection: ConnectionStatusView,
    running: bool,
) -> Seq<char> {
    match phase {
        TransportPhaseView::Live => if running {
            "Running | persistent SSH"@
        } else {
            "Idle | persistent SSH"@
        },
        TransportPhaseView::Replaying => "Restoring remote output | input paused"@,
        TransportPhaseView::Exited => "Shell exited | retained output"@,
        TransportPhaseView::Removed =>
            "Workspace was removed or replaced | no new job was created"@,
        TransportPhaseView::HistoryGap { earliest_cursor } => "Remote history before byte "@
            + decimal_text(earliest_cursor as nat)
            + " expired. Native block restoration is paused; the job was not terminated."@,
        TransportPhaseView::Failed(error) => "Workspace paused: "@ + error,
        TransportPhaseView::Disconnected => match connection {
            ConnectionStatusView::Connecting =>
                "Connecting | remote job is independent of this tab"@,
            ConnectionStatusView::Connected => "Attaching to remote workspace"@,
            ConnectionStatusView::Reconnecting { attempt, error } => "Reconnecting (attempt "@
                + decimal_text(attempt as nat) + ") | input paused | "@ + error,
        },
    }
}

/// One gibibyte.
pub const GIB: u64 = 1024 * 1024 * 1024;

/// A quotient rounded to a whole number, halves to the even one.
pub open spec fn rounded(n: int, d: int) -> int {
    let q = n / d;
    let twice = 2 * (n % d);
    if twice > d || (twice == d && q % 2 == 1) {
        q + 1
    } else {
        q
    }
}

/// `n` rounded to a multiple of `step`, which is doubled until the factor has at most
/// 53 binary digits.
pub open spec fn in_53_digits(n: nat, step: nat) -> nat
    decreases n - step,
{
    if step == 0 || n < 0x20_0000_0000_0000 * step {
        (rounded(n as int, step as int) * step) as nat
    } else {
        in_53_digits(n, 2 * step)
    }
}

/// The nearest number with at most 53 significant binary digits, halves to the even
/// one: the number that binary floating point has for `n`.
pub open spec fn nearest(n: u64) -> nat {
    in_53_digits(n as nat, 1)
}

fn nearest_of(n: u64) -> (r: u128)
    ensures
        r == nearest(n),
        r <= 2 * 0x1_0000_0000_0000_0000,
{
    let n: u128 = n as u128;
    let mut step: u128 = 1;
    while n >= 0x20_0000_0000_0000 * step
        invariant
            1 <= step <= n || step == 1,
            n <= u64::MAX,
            in_53_digits(n as nat, 1) == in_53_digits(n as nat, step as nat),
        decreases n - step,
    {
        step = 2 * step;
    }
    let q: u128 = n / step;
    let twice: u128 = 2 * (n % step);
    let r: u128 = if twice > step || (twice == step && q % 2 == 1) {
        q + 1
    } else {
        q
    };
    assert(r * step <= n + step) by (nonlinear_arith)
        requires
            q == n / step,
            r <= q + 1,
            step > 0,
    ;
    r * step
}

/// Bytes in a larger unit, with one decimal. As in floating point, only 53 binary
/// digits of the bytes count.
pub open spec fn units_text(bytes: u64, unit: u64) -> Seq<char> {
    let tenths = rounded(nearest(bytes) as int * 10, unit as int);
    decimal_text((tenths / 10) as nat) + "."@ + decimal_text((tenths % 10) as nat)
}

/// Bytes in a larger unit, with one decimal, halves to the even digit.
pub fn in_units(bytes: u64, unit: u64) -> (out: String)
    requires
        unit >= 1024 * 1024,
    ensures
        out@ == units_text(bytes, unit),
{
    let n: u128 = nearest_of(bytes) * 10;
    let d: u128 = unit as u128;
    let q: u128 = n / d;
    assert(0 <= n % d < d && d <= u64::MAX) by (nonlinear_arith)
        requires
            0 < d <= u64::MAX,
    ;
    let twice: u128 = 2 * (n % d);
    assert(q <= 0x2_0000_0000_0000_0000 * 10 / 1048576) by (nonlinear_arith)
        requires
            q == n / d,
            n <= 0x2_0000_0000_0000_0000 * 10,
            d >= 1048576,
    ;
    let tenths: u128 = if twice > d || (twice == d && q % 2 == 1) {
        q + 1
    } else {
        q
    };
    let mut out = decimal((tenths / 10) as u64);
    out.append(".");
    out.append(decimal((tenths % 10) as u64).as_str());
    out
}

/// The history occupies so much that its user should know.
pub open spec fn is_large(bytes: Option<u64>) -> bool {
    bytes is Some && bytes->Some_0 >= GIB
}

/// The whole message: what is going on, how much the history occupies if that is
/// much, and what became of the user's input if that is unclear.
pub open spec fn status_message(
    transport: TransportStatusView,
    connection: ConnectionStatusView,
    running: bool,
) -> Seq<char> {
    let base = phase_message(transport.phase, connection, running);
    let sized = if is_large(transport.history_storage_bytes) {
        base + "\nRetained history uses "@ + units_text(transport.history_storage_bytes->Some_0, GIB)
            + " GiB on the remote host. Delete unused workspaces to free space."@
    } else {
        base
    };
    if transport.input_delivery_unknown {
        sized
            + "\nSome input may have reached the server. Inspect the output before resuming; nothing was resent."@
    } else if transport.discarded_input {
        sized + "\nInput queued during the connection change was discarded, not resent."@
    } else {
        sized
    }
}

/// The texts of a terminal's status, and what is offered with them.
pub open spec fn status_of(
    transport: TransportStatusView,
    connection: ConnectionStatusView,
    running: bool,
) -> StatusTextView {
    let acknowledge = transport.input_delivery_unknown || transport.discarded_input;
    StatusTextView {
        label: status_label(transport, connection, running),
        message: status_message(transport, connection, running),
        show_details: !(transport.phase is Live) || acknowledge || is_large(
            transport.history_storage_bytes,
        ),
        acknowledge,
        retry: transport.phase is Failed,
        recover: transport.phase is Failed || transport.phase is HistoryGap,
    }
}

fn label_of(transport: &TransportStatus, connection: &ConnectionStatus, running: bool) -> (label:
    &'static str)
    ensures
        label@ == status_label(transport.deep_view(), connection.deep_view(), running),
{
    match &transport.phase {
        TransportPhase::Live => {
            if transport.input_delivery_unknown || transport.discarded_input {
                "Input paused"
            } else if running {
                "Running"
            } else {
                "Idle"
            }
        },
        TransportPhase::Replaying => "Restoring",
        TransportPhase::Exited => "Exited",
        TransportPhase::Removed => "Removed",
        TransportPhase::HistoryGap { .. } => "History expired",
        TransportPhase::Failed(_) => "Paused",
        TransportPhase::Disconnected => match connection {
            ConnectionStatus::Connecting => "Connecting",
            ConnectionStatus::Connected => "Attaching",
            ConnectionStatus::Reconnecting { .. } => "Reconnecting",
        },
    }
}

fn message_of(phase: &TransportPhase, connection: &ConnectionStatus, running: bool) -> (message:
    String)
    ensures
        message@ == phase_message(phase.deep_view(), connection.deep_view(), running),
{
    match phase {
        TransportPhase::Live => {
            if running {
                "Running | persistent SSH".to_owned()
            } else {
                "Idle | persistent SSH".to_owned()
            }
        },
        TransportPhase::Replaying => "Restoring remote output | input paused".to_owned(),
        TransportPhase::Exited => "Shell exited | retained output".to_owned(),
        TransportPhase::Removed =>
            "Workspace was removed or replaced | no new job was created".to_owned(),
        TransportPhase::HistoryGap { earliest_cursor } => {
            let mut message = "Remote history before byte ".to_owned();
            message.append(decimal(*earliest_cursor).as_str());
            message.append(
                " expired. Native block restoration is paused; the job was not terminated.",
            );
            message
        },
        TransportPhase::Failed(error) => text::joined("Workspace paused: ", error.as_str()),
        TransportPhase::Disconnected => match connection {
            ConnectionStatus::Connecting =>
                "Connecting | remote job is independent of this tab".to_owned(),
            ConnectionStatus::Connected => "Attaching to remote workspace".to_owned(),
            ConnectionStatus::Reconnecting { attempt, error } => {
                let mut message = "Reconnecting (attempt ".to_owned();
                message.append(decimal(*attempt as u64).as_str());
                message.append(") | input paused | ");
                message.append(error.as_str());
                message
            },
        },
    }
}

/// The texts of a terminal's status, and what is offered with them.
pub fn status_text(transport: &TransportStatus, connection: &ConnectionStatus, running: bool) -> (r:
    StatusText)
    ensures
        r.deep_view() == status_of(transport.deep_view(), connection.deep_view(), running),
{
    let label = label_of(transport, connection, running).to_owned();
    let mut message = message_of(&transport.phase, connection, running);
    let mut large = false;
    if let Some(bytes) = transport.history_storage_bytes {
        if bytes >= GIB {
            large = true;
            message.append("\nRetained history uses ");
            message.append(in_units(bytes, GIB).as_str());
            message.append(
                " GiB on the remote host. Delete unused workspaces to free space.",
            );
        }
    }
    if transport.input_delivery_unknown {
        message.append(
            "\nSome input may have reached the server. Inspect the output before resuming; nothing was resent.",
        );
    } else if transport.discarded_input {
        message.append(
            "\nInput queued during the connection change was discarded, not resent.",
        );
    }
    let acknowledge = transport.input_delivery_unknown || transport.discarded_input;
    let (live, retry, gap) = match &transport.phase {
        TransportPhase::Live => (true, false, false),
        TransportPhase::Failed(_) => (false, true, false),
        TransportPhase::HistoryGap { .. } => (false, false, true),
        _ => (false, false, false),
    };
    StatusText {
        label,
        message,
        show_details: !live || acknowledge || large,
        acknowledge,
        retry,
        recover: retry || gap,
    }
}

// ---------------------------------------------------------------------------
// The view
// ---------------------------------------------------------------------------

/// A row of the view, from the top down.
#[derive(Debug)]
pub enum StatusRow {
    /// The chip, which opens the list of workspaces.
    Chip(String),
    Text(String),
    Button(&'static str, Action),
}

pub enum StatusRowView {
    Chip(Seq<char>),
    Text(Seq<char>),
    Button(Seq<char>, Action),
}

impl DeepView for StatusRow {
    type V = StatusRowView;

    open spec fn deep_view(&self) -> StatusRowView {
        match *self {
            StatusRow::Chip(label) => StatusRowView::Chip(label@),
            StatusRow::Text(message) => StatusRowView::Text(message@),
            StatusRow::Button(label, action) => StatusRowView::Button(label@, action),
        }
    }
}

/// The chip's text: the workspace's label and the status.
pub open spec fn chip_text(workspace: Seq<char>, label: Seq<char>) -> Seq<char> {
    "tmux "@ + workspace + " | "@ + label
}

pub open spec fn detail_rows(status: StatusTextView) -> Seq<StatusRowView> {
    if status.show_details {
        Seq::empty().push(StatusRowView::Text(status.message))
    } else {
        Seq::empty()
    }
}

pub open spec fn acknowledge_rows(status: StatusTextView) -> Seq<StatusRowView> {
    if status.acknowledge {
        Seq::empty().push(
            StatusRowView::Button("Resume input without resending"@, Action::AcknowledgeInput),
        )
    } else {
        Seq::empty()
    }
}

pub open spec fn retry_rows(status: StatusTextView) -> Seq<StatusRowView> {
    if status.retry {
        Seq::empty().push(
            StatusRowView::Button("Retry output (never resends input)"@, Action::RetryOutput),
        )
    } else {
        Seq::empty()
    }
}

pub open spec fn recovery_rows(status: StatusTextView) -> Seq<StatusRowView> {
    if status.recover {
        Seq::empty().push(
            StatusRowView::Text(
                "Missing output cannot be reconstructed. Recovery opens the live tmux screen in a separate pane; it does not restart the job or restore missing blocks."@,
            ),
        ).push(StatusRowView::Button("Open live recovery terminal"@, Action::OpenRecovery))
    } else {
        Seq::empty()
    }
}

/// The rows of the view.
pub open spec fn status_rows(workspace: Seq<char>, status: StatusTextView) -> Seq<StatusRowView> {
    Seq::empty().push(StatusRowView::Chip(chip_text(workspace, status.label))) + detail_rows(
        status,
    ) + acknowledge_rows(status) + retry_rows(status) + recovery_rows(status)
}

fn push_row(rows: &mut Vec<StatusRow>, row: StatusRow)
    ensures
        final(rows).deep_view() == old(rows).deep_view().push(row.deep_view()),
{
    let ghost before = rows.deep_view();
    rows.push(row);
    assert(rows.deep_view() =~= before.push(row.deep_view()));
}

/// The label of a workspace: the first characters of its identity.
pub open spec fn short_id(id: Seq<char>) -> Seq<char> {
    if id.len() <= 8 {
        id
    } else {
        id.take(8)
    }
}

/// The label of a workspace: the first eight characters of its identity.
pub fn workspace_label(id: &str) -> (label: String)
    ensures
        label@ == short_id(id@),
{
    let c = text::characters(id);
    let n: usize = if c.len() < 8 {
        c.len()
    } else {
        8
    };
    let label = text::piece(c.as_slice(), 0, n);
    assert(label@ =~= short_id(id@));
    label
}

/// The rows of the view.
pub fn render(workspace: &str, status: &StatusText) -> (rows: Vec<StatusRow>)
    ensures
        rows.deep_view() == status_rows(workspace@, status.deep_view()),
{
    let mut chip = "tmux ".to_owned();
    chip.append(workspace);
    chip.append(" | ");
    chip.append(status.label.as_str());
    let mut rows: Vec<StatusRow> = Vec::new();
    assert(rows.deep_view() =~= Seq::empty());
    push_row(&mut rows, StatusRow::Chip(chip));
    if status.show_details {
        push_row(&mut rows, StatusRow::Text(status.message.clone()));
    }
    if status.acknowledge {
        push_row(
            &mut rows,
            StatusRow::Button("Resume input without resending", Action::AcknowledgeInput),
        );
    }
    if status.retry {
        push_row(
            &mut rows,
            StatusRow::Button("Retry output (never resends input)", Action::RetryOutput),
        );
    }
    if status.recover {
        push_row(
            &mut rows,
            StatusRow::Text(
                "Missing output cannot be reconstructed. Recovery opens the live tmux screen in a separate pane; it does not restart the job or restore missing blocks.".to_owned(),
            ),
        );
        push_row(
            &mut rows,
            StatusRow::Button("Open live recovery terminal", Action::OpenRecovery),
        );
    }
    assert(rows.deep_view() =~= status_rows(workspace@, status.deep_view()));
    rows
}

/// What the application does after a user's action.
#[derive(Clone, Copy, PartialEq, Eq, Structural, Debug)]
pub enum StatusCommand {
    Nothing,
    /// Show the status anew.
    Refresh,
    OpenRecovery,
    OpenPicker,
}

/// Carries out what a user asked for. A recovery opens only where one is offered.
pub fn handle_action(status: &StatusText, action: Action, handle: &mut TransportHandle) -> (command:
    StatusCommand)
    ensures
        match action {
            Action::OpenRecovery => {
                &&& final(handle).deep_view() == old(handle).deep_view()
                &&& command == (if status.recover {
                    StatusCommand::OpenRecovery
                } else {
                    StatusCommand::Nothing
                })
            },
            Action::RetryOutput => {
                &&& final(handle).deep_view() == (HandleView {
                    retry_output: true,
                    ..old(handle).deep_view()
                })
                &&& command == StatusCommand::Nothing
            },
            Action::AcknowledgeInput => {
                &&& final(handle).deep_view() == (HandleView {
                    status: TransportStatusView {
                        input_delivery_unknown: false,
                        discarded_input: false,
                        ..old(handle).deep_view().status
                    },
                    ..old(handle).deep_view()
                })
                &&& command == StatusCommand::Refresh
            },
            Action::OpenWorkspaces => {
                &&& final(handle).deep_view() == old(handle).deep_view()
                &&& command == StatusCommand::OpenPicker
            },
        },
{
    match action {
        Action::OpenRecovery => {
            if status.recover {
                StatusCommand::OpenRecovery
            } else {
                StatusCommand::Nothing
            }
        },
        Action::RetryOutput => {
            handle.retry_output();
            StatusCommand::Nothing
        },
        Action::AcknowledgeInput => {
            handle.acknowledge_uncertain_input();
            StatusCommand::Refresh
        },
        Action::OpenWorkspaces => StatusCommand::OpenPicker,
    }
}

// ---------------------------------------------------------------------------
// Laws
// ---------------------------------------------------------------------------

/// A terminal that works shows only its chip, and only such a terminal is called
/// idle or running.
pub proof fn only_a_live_terminal_is_idle_or_running(
    transport: TransportStatusView,
    connection: ConnectionStatusView,
    running: bool,
)
    ensures
        ({
            let status = status_of(transport, connection, running);
            &&& status.label == "Idle"@ || status.label == "Running"@ ==> transport.phase is Live
                && !transport.input_delivery_unknown && !transport.discarded_input
            &&& transport.phase is Live && !status.acknowledge && !is_large(
                transport.history_storage_bytes,
            ) ==> !status.show_details && !status.retry && !status.recover
        }),
{
    reveal_strlit("Idle");
    reveal_strlit("Running");
    reveal_strlit("Input paused");
    reveal_strlit("Restoring");
    reveal_strlit("Exited");
    reveal_strlit("Removed");
    reveal_strlit("History expired");
    reveal_strlit("Paused");
    reveal_strlit("Connecting");
    reveal_strlit("Attaching");
    reveal_strlit("Reconnecting");
    assert("Running"@.len() == 7 && "Running"@[1] == 'u');
    assert("Removed"@.len() == 7 && "Removed"@[1] == 'e');
    assert("Idle"@.len() == 4);
}

/// A doubt about input is always shown, and can be acknowledged.
pub proof fn doubts_are_shown(
    transport: TransportStatusView,
    connection: ConnectionStatusView,
    running: bool,
)
    requires
        transport.input_delivery_unknown || transport.discarded_input,
    ensures
        status_of(transport, connection, running).show_details,
        status_of(transport, connection, running).acknowledge,
{
}

} // verus!
