//! The single ordered writer and reader of a persistent terminal. Input is never
//! retried.

use crate::replay::ReplayPhase;
use crate::text;
use vstd::prelude::*;
use vstd::string::*;

pub mod handle_laws;
pub mod laws;
pub mod run;
pub mod service_laws;

verus! {

#[derive(Debug)]
pub enum TransportPhase {
    Disconnected,
    Replaying,
    Live,
    Exited,
    Removed,
    HistoryGap { earliest_cursor: u64 },
    Failed(String),
}

pub enum TransportPhaseView {
    Disconnected,
    Replaying,
    Live,
    Exited,
    Removed,
    HistoryGap { earliest_cursor: u64 },
    Failed(Seq<char>),
}

impl DeepView for TransportPhase {
    type V = TransportPhaseView;

    open spec fn deep_view(&self) -> TransportPhaseView {
        match *self {
            TransportPhase::Disconnected => TransportPhaseView::Disconnected,
            TransportPhase::Replaying => TransportPhaseView::Replaying,
            TransportPhase::Live => TransportPhaseView::Live,
            TransportPhase::Exited => TransportPhaseView::Exited,
            TransportPhase::Removed => TransportPhaseView::Removed,
            TransportPhase::HistoryGap { earliest_cursor } => TransportPhaseView::HistoryGap {
                earliest_cursor,
            },
            TransportPhase::Failed(message) => TransportPhaseView::Failed(message@),
        }
    }
}

impl TransportPhase {
    pub fn copy(&self) -> (phase: TransportPhase)
        ensures
            phase.deep_view() == self.deep_view(),
    {
        match self {
            TransportPhase::Disconnected => TransportPhase::Disconnected,
            TransportPhase::Replaying => TransportPhase::Replaying,
            TransportPhase::Live => TransportPhase::Live,
            TransportPhase::Exited => TransportPhase::Exited,
            TransportPhase::Removed => TransportPhase::Removed,
            TransportPhase::HistoryGap { earliest_cursor } => TransportPhase::HistoryGap {
                earliest_cursor: *earliest_cursor,
            },
            TransportPhase::Failed(message) => TransportPhase::Failed(message.clone()),
        }
    }

    pub fn is_live(&self) -> (r: bool)
        ensures
            r == (self.deep_view() is Live),
    {
        match self {
            TransportPhase::Live => true,
            _ => false,
        }
    }
}

pub open spec fn recorder_lost() -> Seq<char> {
    "Output recorder stopped; input is paused. The remote job was not terminated."@
}

/// The phase of a terminal after a page was applied. The end of a shell counts only
/// when its last page was; the end of its recorder is a failure.
pub open spec fn replayed_phase(
    phase: ReplayPhase,
    shell_ready: bool,
    exited: bool,
) -> TransportPhaseView {
    match phase {
        ReplayPhase::Live => if shell_ready && !exited {
            TransportPhaseView::Live
        } else {
            TransportPhaseView::Replaying
        },
        ReplayPhase::Replaying => TransportPhaseView::Replaying,
        ReplayPhase::Closed => if exited {
            TransportPhaseView::Exited
        } else {
            TransportPhaseView::Failed(recorder_lost())
        },
        ReplayPhase::Disconnected => TransportPhaseView::Failed(recorder_lost()),
        ReplayPhase::HistoryGap { earliest_cursor } => TransportPhaseView::HistoryGap {
            earliest_cursor,
        },
    }
}

/// The phase of a terminal after a page was applied.
pub fn phase_after_replay(
    phase: ReplayPhase,
    shell_ready: bool,
    exited: bool,
) -> (r: TransportPhase)
    ensures
        r.deep_view() == replayed_phase(phase, shell_ready, exited),
{
    match phase {
        ReplayPhase::Live => {
            if shell_ready && !exited {
                TransportPhase::Live
            } else {
                TransportPhase::Replaying
            }
        },
        ReplayPhase::Replaying => TransportPhase::Replaying,
        ReplayPhase::Closed => {
            if exited {
                TransportPhase::Exited
            } else {
                TransportPhase::Failed(
                    "Output recorder stopped; input is paused. The remote job was not terminated.".to_owned(),
                )
            }
        },
        ReplayPhase::Disconnected => TransportPhase::Failed(
            "Output recorder stopped; input is paused. The remote job was not terminated.".to_owned(),
        ),
        ReplayPhase::HistoryGap { earliest_cursor } => TransportPhase::HistoryGap {
            earliest_cursor,
        },
    }
}

/// Why a request was not carried out: the daemon said so, or the request or its
/// response was lost or unusable.
#[derive(Debug)]
pub enum RequestError {
    Workspace { code: String, message: String },
    Other(String),
}

pub enum RequestErrorView {
    Workspace { code: Seq<char>, message: Seq<char> },
    Other(Seq<char>),
}

impl DeepView for RequestError {
    type V = RequestErrorView;

    open spec fn deep_view(&self) -> RequestErrorView {
        match *self {
            RequestError::Workspace { code, message } => RequestErrorView::Workspace {
                code: code@,
                message: message@,
            },
            RequestError::Other(message) => RequestErrorView::Other(message@),
        }
    }
}

/// The failure may pass by itself.
pub open spec fn is_transient(error: RequestErrorView) -> bool {
    error matches RequestErrorView::Workspace { code, message } && code == "tmux_timeout"@
}

/// Whether a failure may pass by itself.
pub fn transient_request_failure(error: &RequestError) -> (r: bool)
    ensures
        r == is_transient(error.deep_view()),
{
    match error {
        RequestError::Workspace { code, message } => text::same(code.as_str(), "tmux_timeout"),
        RequestError::Other(_) => false,
    }
}

/// The phase of a terminal after a request failed.
pub open spec fn failure_phase(error: RequestErrorView) -> TransportPhaseView {
    match error {
        RequestErrorView::Workspace { code, message } => if code == "workspace_not_found"@ || code
            == "stale_workspace"@ {
            TransportPhaseView::Removed
        } else {
            TransportPhaseView::Failed(code + ": "@ + message)
        },
        RequestErrorView::Other(message) => TransportPhaseView::Failed(message),
    }
}

/// The phase of a terminal after a request failed: an incarnation that is gone is
/// not a failure of the connection.
pub fn phase_after_failure(error: RequestError) -> (phase: TransportPhase)
    ensures
        phase.deep_view() == failure_phase(error.deep_view()),
{
    match error {
        RequestError::Workspace { code, message } => {
            if text::same(code.as_str(), "workspace_not_found") || text::same(
                code.as_str(),
                "stale_workspace",
            ) {
                return TransportPhase::Removed;
            }
            let mut line = code;
            line.append(": ");
            line.append(message.as_str());
            TransportPhase::Failed(line)
        },
        RequestError::Other(message) => TransportPhase::Failed(message),
    }
}

// ---------------------------------------------------------------------------
// The handle
// ---------------------------------------------------------------------------

/// What the terminal's user sees of its transport.
#[derive(Debug)]
pub struct TransportStatus {
    pub phase: TransportPhase,
    pub input_delivery_unknown: bool,
    pub discarded_input: bool,
    pub history_storage_bytes: Option<u64>,
    pub epoch: u64,
}

#[verifier::ext_equal]
pub struct TransportStatusView {
    pub phase: TransportPhaseView,
    pub input_delivery_unknown: bool,
    pub discarded_input: bool,
    pub history_storage_bytes: Option<u64>,
    pub epoch: u64,
}

impl DeepView for TransportStatus {
    type V = TransportStatusView;

    open spec fn deep_view(&self) -> TransportStatusView {
        TransportStatusView {
            phase: self.phase.deep_view(),
            input_delivery_unknown: self.input_delivery_unknown,
            discarded_input: self.discarded_input,
            history_storage_bytes: self.history_storage_bytes,
            epoch: self.epoch,
        }
    }
}

/// What the terminal asks its transport for.
#[derive(Debug)]
pub enum Message {
    Input(Vec<u8>),
    /// The dimensions of the terminal: columns and rows.
    Resize(u32, u32),
    Shutdown,
    ChildExited,
}

pub enum MessageView {
    Input(Seq<u8>),
    Resize(u32, u32),
    Shutdown,
    ChildExited,
}

impl DeepView for Message {
    type V = MessageView;

    open spec fn deep_view(&self) -> MessageView {
        match *self {
            Message::Input(bytes) => MessageView::Input(bytes@),
            Message::Resize(columns, rows) => MessageView::Resize(columns, rows),
            Message::Shutdown => MessageView::Shutdown,
            Message::ChildExited => MessageView::ChildExited,
        }
    }
}

/// A message with the connection and the attachment that it was meant for.
#[derive(Debug)]
pub struct QueuedMessage {
    pub epoch: u64,
    pub lifecycle: u64,
    pub message: Message,
}

#[verifier::ext_equal]
pub struct QueuedView {
    pub epoch: u64,
    pub lifecycle: u64,
    pub message: MessageView,
}

impl DeepView for QueuedMessage {
    type V = QueuedView;

    open spec fn deep_view(&self) -> QueuedView {
        QueuedView {
            epoch: self.epoch,
            lifecycle: self.lifecycle,
            message: self.message.deep_view(),
        }
    }
}

/// What becomes of a message.
#[derive(Debug)]
pub enum Delivery {
    /// It was carried out at once.
    Handled,
    /// It goes into the queue.
    Queue(QueuedMessage),
    Refused(String),
}

pub enum DeliveryView {
    Handled,
    Queue(QueuedView),
    Refused(Seq<char>),
}

impl DeepView for Delivery {
    type V = DeliveryView;

    open spec fn deep_view(&self) -> DeliveryView {
        match *self {
            Delivery::Handled => DeliveryView::Handled,
            Delivery::Queue(queued) => DeliveryView::Queue(queued.deep_view()),
            Delivery::Refused(reason) => DeliveryView::Refused(reason@),
        }
    }
}

/// What a terminal and its transport share.
#[derive(Debug)]
pub struct TransportHandle {
    status: TransportStatus,
    stopped: bool,
    paused: bool,
    lifecycle: u64,
    retry_output: bool,
}

#[verifier::ext_equal]
pub struct HandleView {
    pub status: TransportStatusView,
    pub stopped: bool,
    pub paused: bool,
    pub lifecycle: u64,
    pub retry_output: bool,
}

impl DeepView for TransportHandle {
    type V = HandleView;

    closed spec fn deep_view(&self) -> HandleView {
        HandleView {
            status: self.status.deep_view(),
            stopped: self.stopped,
            paused: self.paused,
            lifecycle: self.lifecycle,
            retry_output: self.retry_output,
        }
    }
}

/// Input is taken by a live terminal that is neither closed nor paused, and where
/// nothing is unclear about earlier input.
pub open spec fn takes_input(h: HandleView) -> bool {
    &&& !h.stopped
    &&& !h.paused
    &&& h.status.phase is Live
    &&& !h.status.input_delivery_unknown
    &&& !h.status.discarded_input
}

/// The attachment after one that ends; after all numbers were given they begin anew.
pub open spec fn next_lifecycle(lifecycle: u64) -> u64 {
    if lifecycle == u64::MAX {
        0
    } else {
        (lifecycle + 1) as u64
    }
}

pub open spec fn with_phase(h: HandleView, phase: TransportPhaseView) -> HandleView {
    HandleView { status: TransportStatusView { phase, ..h.status }, ..h }
}

/// A terminal whose tab was closed, and may be opened again.
pub open spec fn paused(h: HandleView) -> HandleView {
    HandleView {
        paused: true,
        lifecycle: if h.paused {
            h.lifecycle
        } else {
            next_lifecycle(h.lifecycle)
        },
        ..with_phase(h, TransportPhaseView::Disconnected)
    }
}

/// A terminal that is gone for good.
pub open spec fn detached(h: HandleView) -> HandleView {
    HandleView { stopped: true, ..with_phase(h, TransportPhaseView::Disconnected) }
}

/// What becomes of a message, and of the handle.
pub open spec fn delivered(h: HandleView, message: MessageView) -> (HandleView, DeliveryView) {
    match message {
        MessageView::Shutdown => (paused(h), DeliveryView::Handled),
        MessageView::ChildExited => (detached(h), DeliveryView::Handled),
        _ => if h.stopped || (message is Input && !takes_input(h)) {
            (
                h,
                DeliveryView::Refused(
                    "Workspace input is paused while disconnected, replaying, or awaiting delivery acknowledgement"@,
                ),
            )
        } else {
            (
                h,
                DeliveryView::Queue(
                    QueuedView { epoch: h.status.epoch, lifecycle: h.lifecycle, message },
                ),
            )
        },
    }
}

impl TransportHandle {
    /// A handle of a terminal that is not connected yet.
    pub fn new() -> (handle: TransportHandle)
        ensures
            handle.deep_view() == (HandleView {
                status: TransportStatusView {
                    phase: TransportPhaseView::Disconnected,
                    input_delivery_unknown: false,
                    discarded_input: false,
                    history_storage_bytes: None,
                    epoch: 0,
                },
                stopped: false,
                paused: false,
                lifecycle: 0,
                retry_output: false,
            }),
    {
        TransportHandle {
            status: TransportStatus {
                phase: TransportPhase::Disconnected,
                input_delivery_unknown: false,
                discarded_input: false,
                history_storage_bytes: None,
                epoch: 0,
            },
            stopped: false,
            paused: false,
            lifecycle: 0,
            retry_output: false,
        }
    }

    pub fn status(&self) -> (status: TransportStatus)
        ensures
            status.deep_view() == self.deep_view().status,
    {
        TransportStatus {
            phase: self.status.phase.copy(),
            input_delivery_unknown: self.status.input_delivery_unknown,
            discarded_input: self.status.discarded_input,
            history_storage_bytes: self.status.history_storage_bytes,
            epoch: self.status.epoch,
        }
    }

    pub fn stopped(&self) -> (r: bool)
        ensures
            r == self.deep_view().stopped,
    {
        self.stopped
    }

    pub fn paused(&self) -> (r: bool)
        ensures
            r == self.deep_view().paused,
    {
        self.paused
    }

    pub fn lifecycle(&self) -> (r: u64)
        ensures
            r == self.deep_view().lifecycle,
    {
        self.lifecycle
    }

    pub fn retry_requested(&self) -> (r: bool)
        ensures
            r == self.deep_view().retry_output,
    {
        self.retry_output
    }

    /// Restarts reads at the cursor. Neither acknowledges nor resends input.
    pub fn retry_output(&mut self)
        ensures
            final(self).deep_view() == (HandleView {
                retry_output: true,
                ..old(self).deep_view()
            }),
    {
        self.retry_output = true;
    }

    /// Takes the request to restart reads, if there is one.
    pub(crate) fn take_retry(&mut self) -> (r: bool)
        ensures
            r == old(self).deep_view().retry_output,
            final(self).deep_view() == (HandleView {
                retry_output: false,
                ..old(self).deep_view()
            }),
    {
        let requested = self.retry_output;
        self.retry_output = false;
        requested
    }

    pub fn accepts_input(&self) -> (r: bool)
        ensures
            r == takes_input(self.deep_view()),
    {
        !self.stopped && !self.paused && self.status.phase.is_live()
            && !self.status.input_delivery_unknown && !self.status.discarded_input
    }

    /// The user's explicit acknowledgement, never a side effect of a reconnection.
    pub fn acknowledge_uncertain_input(&mut self)
        ensures
            final(self).deep_view() == (HandleView {
                status: TransportStatusView {
                    input_delivery_unknown: false,
                    discarded_input: false,
                    ..old(self).deep_view().status
                },
                ..old(self).deep_view()
            }),
    {
        self.status.input_delivery_unknown = false;
        self.status.discarded_input = false;
    }

    /// Pauses reads without closing the queue: a tab that was closed may be opened
    /// again. Input that is pending must never run then.
    pub fn pause(&mut self)
        ensures
            final(self).deep_view() == paused(old(self).deep_view()),
    {
        if !self.paused {
            self.paused = true;
            self.lifecycle = self.lifecycle.wrapping_add(1);
        }
        self.status.phase = TransportPhase::Disconnected;
    }

    pub fn resume(&mut self)
        ensures
            final(self).deep_view() == (if old(self).deep_view().paused {
                HandleView {
                    paused: false,
                    ..with_phase(old(self).deep_view(), TransportPhaseView::Disconnected)
                }
            } else {
                old(self).deep_view()
            }),
    {
        if self.paused {
            self.paused = false;
            self.status.phase = TransportPhase::Disconnected;
        }
    }

    /// Detaches this local reader, not the remote process or its workspace.
    pub fn detach(&mut self)
        ensures
            final(self).deep_view() == detached(old(self).deep_view()),
    {
        self.stopped = true;
        self.status.phase = TransportPhase::Disconnected;
    }

    pub fn update(&mut self, epoch: u64, phase: TransportPhase)
        ensures
            final(self).deep_view() == (HandleView {
                status: TransportStatusView {
                    epoch,
                    phase: phase.deep_view(),
                    ..old(self).deep_view().status
                },
                ..old(self).deep_view()
            }),
    {
        self.status.epoch = epoch;
        self.status.phase = phase;
    }

    /// Says that it is unknown whether input was delivered.
    pub fn doubt_input(&mut self)
        ensures
            final(self).deep_view() == (HandleView {
                status: TransportStatusView {
                    input_delivery_unknown: true,
                    ..old(self).deep_view().status
                },
                ..old(self).deep_view()
            }),
    {
        self.status.input_delivery_unknown = true;
    }

    /// Says that input was discarded.
    pub fn discard_input(&mut self)
        ensures
            final(self).deep_view() == (HandleView {
                status: TransportStatusView {
                    discarded_input: true,
                    ..old(self).deep_view().status
                },
                ..old(self).deep_view()
            }),
    {
        self.status.discarded_input = true;
    }

    pub(crate) fn set_storage(&mut self, history_storage_bytes: Option<u64>)
        ensures
            final(self).deep_view() == (HandleView {
                status: TransportStatusView {
                    history_storage_bytes,
                    ..old(self).deep_view().status
                },
                ..old(self).deep_view()
            }),
    {
        self.status.history_storage_bytes = history_storage_bytes;
    }

    /// Decides what becomes of a message.
    pub fn send(&mut self, message: Message) -> (delivery: Delivery)
        ensures
            (final(self).deep_view(), delivery.deep_view()) == delivered(
                old(self).deep_view(),
                message.deep_view(),
            ),
    {
        let input = match &message {
            Message::Shutdown => {
                self.pause();
                return Delivery::Handled;
            },
            Message::ChildExited => {
                self.detach();
                return Delivery::Handled;
            },
            Message::Input(_) => true,
            Message::Resize(_, _) => false,
        };
        if self.stopped || (input && !self.accepts_input()) {
            return Delivery::Refused(
                "Workspace input is paused while disconnected, replaying, or awaiting delivery acknowledgement".to_owned(),
            );
        }
        Delivery::Queue(
            QueuedMessage { epoch: self.status.epoch, lifecycle: self.lifecycle, message },
        )
    }
}

// ---------------------------------------------------------------------------
// Laws
// ---------------------------------------------------------------------------

/// A terminal that is gone for good takes no input again, whatever its transport
/// reports.
pub proof fn disposal_is_final(
    h: HandleView,
    epoch: u64,
    phase: TransportPhaseView,
    message: MessageView,
)
    requires
        h.stopped,
    ensures
        !takes_input(
            HandleView { status: TransportStatusView { epoch, phase, ..h.status }, ..h },
        ),
        delivered(h, message).0.stopped,
        !(delivered(h, message).1 is Queue),
{
}

/// Closing a tab gives its attachment up: what is in the queue belongs to another
/// attachment, even on the same connection.
pub proof fn closing_gives_the_attachment_up(h: HandleView)
    requires
        !h.paused,
    ensures
        delivered(h, MessageView::Shutdown).0.lifecycle != h.lifecycle,
        !takes_input(delivered(h, MessageView::Shutdown).0),
{
}

/// Input that goes into the queue keeps the connection and the attachment that it
/// was meant for, and only a live terminal sends any.
pub proof fn queued_input_keeps_its_connection(h: HandleView, bytes: Seq<u8>)
    ensures
        match delivered(h, MessageView::Input(bytes)).1 {
            DeliveryView::Queue(queued) => {
                &&& takes_input(h)
                &&& queued.epoch == h.status.epoch
                &&& queued.lifecycle == h.lifecycle
                &&& queued.message == MessageView::Input(bytes)
            },
            DeliveryView::Refused(_) => !takes_input(h),
            DeliveryView::Handled => false,
        },
{
}

} // verus!
