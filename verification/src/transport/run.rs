//! The loop of a transport, as a state machine: the host performs an action and
//! hands back what came of it.

use crate::bytes;
use crate::host::outcome;
use crate::native_replay::{
    applied, ending, NativeReplay, NativeView, ReplayEffect, ReplayEffectView,
};
use crate::proto::{
    PersistentTerminalRequest, PersistentTerminalRequestView, PersistentWorkspaceOperation,
    PersistentWorkspaceRequest, PersistentWorkspaceRequestView, PersistentWorkspaceResponse,
    PersistentWorkspaceResponseView, TerminalOperation,
};
use crate::replay::{
    following, reading, reconnected, Epochs, ticket_for, ReadTicket, ReplayError, ReplayPhase,
    ReplayView, TicketView,
};
use crate::text;
use crate::transport::{
    failure_phase, is_transient, phase_after_failure, phase_after_replay, replayed_phase,
    transient_request_failure, HandleView, Message, MessageView, QueuedMessage, QueuedView,
    RequestError, RequestErrorView, TransportHandle, TransportPhase, TransportPhaseView,
    TransportStatusView,
};
use vstd::prelude::*;
use vstd::string::*;

verus! {

// ---------------------------------------------------------------------------
// States, events and actions
// ---------------------------------------------------------------------------

/// What is written: input of the user, or the terminal's replies to live output.
#[derive(Clone, Copy, PartialEq, Eq, Structural, Debug)]
pub enum Purpose {
    UserInput,
    Replies { had_output: bool },
}

/// What a transport waits for.
#[derive(Debug)]
pub enum Stage {
    /// Nothing: a turn of the loop begins.
    Idle,
    /// A message, for a while, because nothing can be read.
    Awaiting,
    /// A message that is there already.
    Receiving { epoch: u64, lifecycle: u64 },
    /// The response to a part of some input; `sent` bytes were handed over.
    Writing { epoch: u64, lifecycle: u64, bytes: Vec<u8>, sent: usize, purpose: Purpose },
    /// The response to a read.
    Reading { epoch: u64, lifecycle: u64, ticket: ReadTicket },
    /// The terminal, while it parses a page.
    Applying {
        epoch: u64,
        lifecycle: u64,
        exited: bool,
        exit_code: Option<i32>,
        had_output: bool,
    },
    /// The response to new dimensions.
    Resizing { epoch: u64, had_output: bool },
}

pub enum StageView {
    Idle,
    Awaiting,
    Receiving { epoch: u64, lifecycle: u64 },
    Writing { epoch: u64, lifecycle: u64, bytes: Seq<u8>, sent: usize, purpose: Purpose },
    Reading { epoch: u64, lifecycle: u64, ticket: TicketView },
    Applying {
        epoch: u64,
        lifecycle: u64,
        exited: bool,
        exit_code: Option<i32>,
        had_output: bool,
    },
    Resizing { epoch: u64, had_output: bool },
}

impl DeepView for Stage {
    type V = StageView;

    open spec fn deep_view(&self) -> StageView {
        match *self {
            Stage::Idle => StageView::Idle,
            Stage::Awaiting => StageView::Awaiting,
            Stage::Receiving { epoch, lifecycle } => StageView::Receiving { epoch, lifecycle },
            Stage::Writing { epoch, lifecycle, bytes, sent, purpose } => StageView::Writing {
                epoch,
                lifecycle,
                bytes: bytes@,
                sent,
                purpose,
            },
            Stage::Reading { epoch, lifecycle, ticket } => StageView::Reading {
                epoch,
                lifecycle,
                ticket: ticket.deep_view(),
            },
            Stage::Applying { epoch, lifecycle, exited, exit_code, had_output } => StageView::Applying {
                epoch,
                lifecycle,
                exited,
                exit_code,
                had_output,
            },
            Stage::Resizing { epoch, had_output } => StageView::Resizing { epoch, had_output },
        }
    }
}

/// The connection at some moment: its epoch, and whether there is one.
#[derive(Clone, Copy, PartialEq, Eq, Structural, Debug)]
pub struct Connection {
    pub epoch: u64,
    pub connected: bool,
}

/// What came of the last action.
#[derive(Debug)]
pub enum TransportEvent {
    /// Nothing was waited for, or the time is over.
    Proceed,
    /// A message was there, or none was.
    Received(Option<QueuedMessage>),
    /// The daemon's response, or why none came.
    Responded(Result<PersistentWorkspaceResponse, String>),
    /// The terminal has parsed a page. It replied to live output with some bytes; its
    /// active block is bootstrapped or not, and belongs to a session.
    Parsed { replies: Vec<u8>, bootstrapped: bool, active_session: Option<u64> },
}

pub enum TransportEventView {
    Proceed,
    Received(Option<QueuedView>),
    Responded(Result<PersistentWorkspaceResponseView, Seq<char>>),
    Parsed { replies: Seq<u8>, bootstrapped: bool, active_session: Option<u64> },
}

impl DeepView for TransportEvent {
    type V = TransportEventView;

    open spec fn deep_view(&self) -> TransportEventView {
        match *self {
            TransportEvent::Proceed => TransportEventView::Proceed,
            TransportEvent::Received(queued) => TransportEventView::Received(queued.deep_view()),
            TransportEvent::Responded(response) => TransportEventView::Responded(
                outcome(response),
            ),
            TransportEvent::Parsed { replies, bootstrapped, active_session } =>
                TransportEventView::Parsed { replies: replies@, bootstrapped, active_session },
        }
    }
}

/// What the host does next, after the effects.
#[derive(Debug)]
pub enum TransportAction {
    /// End the loop.
    Stop,
    /// Go on at once.
    Again,
    /// Wait for a message, at most so many milliseconds.
    AwaitMessage(u64),
    /// Take a message if one is there.
    TakeMessage,
    /// Send a request to the daemon.
    Request(PersistentWorkspaceRequest),
    /// Let the terminal parse what the effects say.
    Parse,
    /// Wait so many milliseconds.
    Pause(u64),
}

pub enum TransportActionView {
    Stop,
    Again,
    AwaitMessage(u64),
    TakeMessage,
    Request(PersistentWorkspaceRequestView),
    Parse,
    Pause(u64),
}

impl DeepView for TransportAction {
    type V = TransportActionView;

    open spec fn deep_view(&self) -> TransportActionView {
        match *self {
            TransportAction::Stop => TransportActionView::Stop,
            TransportAction::Again => TransportActionView::Again,
            TransportAction::AwaitMessage(delay) => TransportActionView::AwaitMessage(delay),
            TransportAction::TakeMessage => TransportActionView::TakeMessage,
            TransportAction::Request(request) => TransportActionView::Request(
                request.deep_view(),
            ),
            TransportAction::Parse => TransportActionView::Parse,
            TransportAction::Pause(delay) => TransportActionView::Pause(delay),
        }
    }
}

/// What is done on the way, in order.
#[derive(Debug)]
pub enum TransportEffect {
    Replay(ReplayEffect),
    /// Tell the daemon's client that the session's shell is bootstrapped.
    NotifyBootstrapped,
}

pub enum TransportEffectView {
    Replay(ReplayEffectView),
    NotifyBootstrapped,
}

impl DeepView for TransportEffect {
    type V = TransportEffectView;

    open spec fn deep_view(&self) -> TransportEffectView {
        match *self {
            TransportEffect::Replay(effect) => TransportEffectView::Replay(effect.deep_view()),
            TransportEffect::NotifyBootstrapped => TransportEffectView::NotifyBootstrapped,
        }
    }
}

/// The transport of one terminal to one incarnation of a workspace.
#[derive(Debug)]
pub struct Transport {
    workspace_id: String,
    generation: String,
    session_id: u64,
    replay: NativeReplay,
    columns: u32,
    rows: u32,
    active_epoch: Option<u64>,
    failed_epoch: Option<u64>,
    needs_attach: bool,
    needs_resize: bool,
    active_lifecycle: u64,
    stage: Stage,
}

#[verifier::ext_equal]
pub struct TransportView {
    pub workspace_id: Seq<char>,
    pub generation: Seq<char>,
    pub session_id: u64,
    pub replay: NativeView,
    pub columns: u32,
    pub rows: u32,
    /// The connection that the last turn of the loop found.
    pub active_epoch: Option<u64>,
    /// A connection on which nothing more is tried.
    pub failed_epoch: Option<u64>,
    pub needs_attach: bool,
    pub needs_resize: bool,
    pub active_lifecycle: u64,
    pub stage: StageView,
}

impl DeepView for Transport {
    type V = TransportView;

    closed spec fn deep_view(&self) -> TransportView {
        TransportView {
            workspace_id: self.workspace_id@,
            generation: self.generation@,
            session_id: self.session_id,
            replay: self.replay.deep_view(),
            columns: self.columns,
            rows: self.rows,
            active_epoch: self.active_epoch,
            failed_epoch: self.failed_epoch,
            needs_attach: self.needs_attach,
            needs_resize: self.needs_resize,
            active_lifecycle: self.active_lifecycle,
            stage: self.stage.deep_view(),
        }
    }
}

/// Everything that a turn of the loop changes.
#[verifier::ext_equal]
pub struct Now {
    pub t: TransportView,
    pub h: HandleView,
    pub upcoming: u64,
    pub effects: Seq<TransportEffectView>,
}

pub open spec fn now_of(
    transport: Transport,
    handle: TransportHandle,
    epochs: Epochs,
    effects: Vec<TransportEffect>,
) -> Now {
    Now {
        t: transport.deep_view(),
        h: handle.deep_view(),
        upcoming: epochs.upcoming(),
        effects: effects.deep_view(),
    }
}

// ---------------------------------------------------------------------------
// Parts of a turn
// ---------------------------------------------------------------------------

pub open spec fn replay_effects(effects: Seq<ReplayEffectView>) -> Seq<TransportEffectView> {
    effects.map_values(|effect: ReplayEffectView| TransportEffectView::Replay(effect))
}

/// The replay is cut off from its connection.
pub open spec fn dropped(now: Now, uncertain: bool) -> Now {
    let replay = now.t.replay;
    Now {
        t: TransportView {
            replay: NativeView {
                state: ReplayView {
                    epoch: now.upcoming,
                    phase: ReplayPhase::Disconnected,
                    input_delivery_unknown: replay.state.input_delivery_unknown || uncertain,
                    ..replay.state
                },
                open: false,
            },
            ..now.t
        },
        upcoming: following(now.upcoming),
        effects: now.effects + replay_effects(ending(replay.open)),
        ..now
    }
}

/// The terminal's user is told of a phase.
pub open spec fn told(now: Now, epoch: u64, phase: TransportPhaseView) -> Now {
    Now {
        h: HandleView {
            status: crate::transport::TransportStatusView { epoch, phase, ..now.h.status },
            ..now.h
        },
        ..now
    }
}

pub open spec fn at_stage(now: Now, stage: StageView) -> Now {
    Now { t: TransportView { stage, ..now.t }, ..now }
}

/// A connection failed. What was being written may have been delivered or not.
pub open spec fn failing(now: Now, epoch: u64, error: RequestErrorView, uncertain: bool) -> Now {
    let cut = dropped(now, uncertain);
    let doubted = Now {
        h: HandleView {
            status: TransportStatusView {
                input_delivery_unknown: cut.h.status.input_delivery_unknown || uncertain,
                ..cut.h.status
            },
            ..cut.h
        },
        ..cut
    };
    told(doubted, epoch, failure_phase(error))
}

/// A request failed: it is tried again after a while only if the failure may pass.
pub open spec fn request_failed(now: Now, epoch: u64, error: RequestErrorView, uncertain: bool) -> (
    Now,
    TransportActionView,
) {
    let retry = is_transient(error);
    let failed = failing(now, epoch, error, uncertain);
    (
        Now {
            t: TransportView {
                needs_attach: retry,
                failed_epoch: if retry {
                    None
                } else {
                    Some(epoch)
                },
                stage: StageView::Idle,
                ..failed.t
            },
            ..failed
        },
        if retry {
            TransportActionView::Pause(1000)
        } else {
            TransportActionView::Again
        },
    )
}

/// Nothing more is tried on a connection.
pub open spec fn given_up(now: Now, epoch: u64) -> (Now, TransportActionView) {
    (
        Now {
            t: TransportView { failed_epoch: Some(epoch), stage: StageView::Idle, ..now.t },
            ..now
        },
        TransportActionView::Again,
    )
}

/// The request for a terminal operation on this incarnation.
pub open spec fn terminal_request(
    t: TransportView,
    operation: TerminalOperation,
    input: Seq<u8>,
    cursor: u64,
) -> PersistentWorkspaceRequestView {
    PersistentWorkspaceRequestView {
        protocol_version: 1,
        operation: 5,
        workspace_id: t.workspace_id,
        generation: t.generation,
        working_directory: None,
        bootstrap: None,
        history_retention: None,
        terminal: Some(
            PersistentTerminalRequestView {
                operation: match operation {
                    TerminalOperation::Attach => 0,
                    TerminalOperation::Read => 1,
                    TerminalOperation::Input => 2,
                    TerminalOperation::Resize => 3,
                },
                cursor,
                input,
                columns: if operation is Resize {
                    t.columns
                } else {
                    0
                },
                rows: if operation is Resize {
                    t.rows
                } else {
                    0
                },
            },
        ),
    }
}

/// A response that can be used: it speaks the protocol, reports no error, and is
/// about exactly this incarnation.
pub open spec fn checked_response(
    t: TransportView,
    response: Result<PersistentWorkspaceResponseView, Seq<char>>,
) -> Result<PersistentWorkspaceResponseView, RequestErrorView> {
    match response {
        Err(message) => Err(RequestErrorView::Other(message)),
        Ok(r) => if r.protocol_version != 1 {
            Err(RequestErrorView::Other("Unsupported persistent terminal protocol"@))
        } else if !r.terminal_transport_supported || !r.block_replay_supported {
            Err(
                RequestErrorView::Other(
                    "The SSH extension cannot restore native persistent blocks. Install the matching custom extension."@,
                ),
            )
        } else if r.error is Some {
            Err(
                RequestErrorView::Workspace {
                    code: r.error->Some_0.code,
                    message: r.error->Some_0.message,
                },
            )
        } else if r.workspaces.len() != 1 || r.workspaces[0].workspace_id != t.workspace_id
            || r.workspaces[0].generation != t.generation {
            Err(
                RequestErrorView::Other(
                    "Remote response refers to a different workspace incarnation"@,
                ),
            )
        } else {
            Ok(r)
        },
    }
}

/// The connection and the attachment are still the same.
pub open spec fn still_current(
    h: HandleView,
    connection: Connection,
    epoch: u64,
    lifecycle: u64,
) -> bool {
    &&& !h.stopped
    &&& !h.paused
    &&& lifecycle == h.lifecycle
    &&& epoch == connection.epoch
    &&& connection.connected
}

/// The end of a turn: without output the next one waits a little.
pub open spec fn rest(now: Now, had_output: bool) -> (Now, TransportActionView) {
    (
        at_stage(now, StageView::Idle),
        if had_output {
            TransportActionView::Again
        } else {
            TransportActionView::Pause(35)
        },
    )
}

/// The dimensions are sent to a live terminal.
pub open spec fn resize_next(now: Now, epoch: u64, had_output: bool) -> (Now, TransportActionView) {
    if now.t.needs_resize && now.h.status.phase is Live {
        (
            at_stage(now, StageView::Resizing { epoch, had_output }),
            TransportActionView::Request(
                terminal_request(now.t, TerminalOperation::Resize, Seq::empty(), 0),
            ),
        )
    } else {
        rest(now, had_output)
    }
}

/// The next page is read from the cursor on.
pub open spec fn read_next(now: Now, epoch: u64, lifecycle: u64) -> (Now, TransportActionView) {
    let state = now.t.replay.state;
    if reading(state.phase) {
        (
            at_stage(
                now,
                StageView::Reading {
                    epoch,
                    lifecycle,
                    ticket: ticket_for(state),
                },
            ),
            TransportActionView::Request(
                terminal_request(
                    now.t,
                    if now.t.needs_attach {
                        TerminalOperation::Attach
                    } else {
                        TerminalOperation::Read
                    },
                    Seq::empty(),
                    state.cursor,
                ),
            ),
        )
    } else {
        (at_stage(now, StageView::Idle), TransportActionView::Pause(100))
    }
}

/// What follows after everything was written.
pub open spec fn written(now: Now, epoch: u64, lifecycle: u64, purpose: Purpose) -> (
    Now,
    TransportActionView,
) {
    match purpose {
        Purpose::UserInput => read_next(now, epoch, lifecycle),
        Purpose::Replies { had_output } => resize_next(now, epoch, had_output),
    }
}

/// How many bytes of input one request carries.
pub open spec fn chunk_end(length: nat, sent: nat) -> nat {
    if length - sent > 4096 {
        sent + 4096
    } else {
        length
    }
}

/// The next part of some input is written. A lost acknowledgement may mean that
/// some or all bytes were delivered, so nothing of it is ever written again.
pub open spec fn write_next(
    now: Now,
    connection: Connection,
    epoch: u64,
    lifecycle: u64,
    bytes: Seq<u8>,
    sent: usize,
    purpose: Purpose,
) -> (Now, TransportActionView) {
    if sent >= bytes.len() {
        written(now, epoch, lifecycle, purpose)
    } else if !still_current(now.h, connection, epoch, lifecycle) {
        request_failed(
            now,
            epoch,
            RequestErrorView::Other(
                "Connection or tab attachment changed during input delivery"@,
            ),
            true,
        )
    } else {
        let end = chunk_end(bytes.len(), sent as nat);
        (
            at_stage(
                now,
                StageView::Writing { epoch, lifecycle, bytes, sent: end as usize, purpose },
            ),
            TransportActionView::Request(
                terminal_request(
                    now.t,
                    TerminalOperation::Input,
                    bytes.subrange(sent as int, end as int),
                    0,
                ),
            ),
        )
    }
}

// ---------------------------------------------------------------------------
// A turn of the loop
// ---------------------------------------------------------------------------

/// What has changed since the last turn: the attachment, a request to read again,
/// an acknowledgement of the user, the connection.
pub open spec fn refreshed(now: Now, connection: Connection) -> Now {
    let a = if now.t.active_lifecycle != now.h.lifecycle {
        let cut = dropped(now, false);
        Now {
            t: TransportView {
                needs_attach: true,
                failed_epoch: None,
                active_lifecycle: now.h.lifecycle,
                ..cut.t
            },
            ..cut
        }
    } else {
        now
    };
    let b = if a.h.retry_output {
        let cut = dropped(Now { h: HandleView { retry_output: false, ..a.h }, ..a }, false);
        Now { t: TransportView { needs_attach: true, failed_epoch: None, ..cut.t }, ..cut }
    } else {
        a
    };
    let c = if !b.h.status.input_delivery_unknown {
        Now {
            t: TransportView {
                replay: NativeView {
                    state: ReplayView {
                        input_delivery_unknown: false,
                        ..b.t.replay.state
                    },
                    ..b.t.replay
                },
                ..b.t
            },
            ..b
        }
    } else {
        b
    };
    if c.t.active_epoch != Some(connection.epoch) || !connection.connected {
        let cut = told(dropped(c, false), connection.epoch, TransportPhaseView::Disconnected);
        Now {
            t: TransportView {
                active_epoch: Some(connection.epoch),
                needs_attach: true,
                ..cut.t
            },
            ..cut
        }
    } else {
        c
    }
}

/// The beginning of a turn. Without a usable connection only messages are taken.
pub open spec fn begun(now: Now, connection: Connection) -> (Now, TransportActionView) {
    if now.h.stopped {
        (at_stage(dropped(now, false), StageView::Idle), TransportActionView::Stop)
    } else {
        let ready = refreshed(now, connection);
        if !connection.connected || ready.t.failed_epoch == Some(connection.epoch)
            || ready.h.paused {
            (at_stage(ready, StageView::Awaiting), TransportActionView::AwaitMessage(150))
        } else {
            let joined = if ready.t.needs_attach {
                let replay = NativeView {
                    state: reconnected(ready.t.replay.state, ready.upcoming),
                    ..ready.t.replay
                };
                let connected = told(
                    Now {
                        t: TransportView { replay, needs_resize: true, ..ready.t },
                        upcoming: following(ready.upcoming),
                        ..ready
                    },
                    connection.epoch,
                    TransportPhaseView::Replaying,
                );
                Now {
                    effects: connected.effects.push(TransportEffectView::NotifyBootstrapped),
                    ..connected
                }
            } else {
                ready
            };
            (
                at_stage(
                    joined,
                    StageView::Receiving { epoch: connection.epoch, lifecycle: joined.h.lifecycle },
                ),
                TransportActionView::TakeMessage,
            )
        }
    }
}

pub open spec fn resized(now: Now, columns: u32, rows: u32) -> Now {
    Now { t: TransportView { columns, rows, needs_resize: true, ..now.t }, ..now }
}

pub open spec fn discarded(now: Now) -> Now {
    Now {
        h: HandleView {
            status: TransportStatusView { discarded_input: true, ..now.h.status },
            ..now.h
        },
        ..now
    }
}

/// A message came while nothing could be read: input is discarded.
pub open spec fn awaited(now: Now, queued: Option<QueuedView>) -> (Now, TransportActionView) {
    let taken = match queued {
        Some(QueuedView { message: MessageView::Resize(columns, rows), .. }) => resized(
            now,
            columns,
            rows,
        ),
        Some(QueuedView { message: MessageView::Input(_), .. }) => discarded(now),
        _ => now,
    };
    (at_stage(taken, StageView::Idle), TransportActionView::Again)
}

/// Input may be written: it was meant for this connection and this attachment, the
/// terminal is live, and nothing is unclear about earlier input.
pub open spec fn may_write(h: HandleView, queued: QueuedView, epoch: u64, lifecycle: u64) -> bool {
    &&& queued.epoch == epoch
    &&& queued.lifecycle == lifecycle
    &&& h.status.phase is Live
    &&& !h.status.input_delivery_unknown
    &&& !h.status.discarded_input
}

/// A message was taken on a usable connection.
pub open spec fn received(
    now: Now,
    connection: Connection,
    epoch: u64,
    lifecycle: u64,
    queued: Option<QueuedView>,
) -> (Now, TransportActionView) {
    match queued {
        Some(q) => match q.message {
            MessageView::Resize(columns, rows) => read_next(
                resized(now, columns, rows),
                epoch,
                lifecycle,
            ),
            MessageView::Input(bytes) => if may_write(now.h, q, epoch, lifecycle) {
                write_next(now, connection, epoch, lifecycle, bytes, 0, Purpose::UserInput)
            } else {
                read_next(discarded(now), epoch, lifecycle)
            },
            _ => read_next(now, epoch, lifecycle),
        },
        None => read_next(now, epoch, lifecycle),
    }
}

pub open spec fn replay_error_name(error: ReplayError) -> Seq<char> {
    match error {
        ReplayError::StaleResponse => "StaleResponse"@,
        ReplayError::InvalidPage => "InvalidPage"@,
        ReplayError::NotConnected => "NotConnected"@,
        ReplayError::HistoryGap { .. } => "HistoryGap"@,
    }
}

/// The response to a read. One that comes too late is dropped.
pub open spec fn read(
    now: Now,
    connection: Connection,
    epoch: u64,
    lifecycle: u64,
    ticket: TicketView,
    response: Result<PersistentWorkspaceResponseView, Seq<char>>,
) -> (Now, TransportActionView) {
    if !still_current(now.h, connection, epoch, lifecycle) {
        (at_stage(now, StageView::Idle), TransportActionView::Again)
    } else {
        match checked_response(now.t, response) {
            Err(error) => request_failed(now, epoch, error, false),
            Ok(r) => {
                let workspace = r.workspaces[0];
                let noted = Now {
                    t: TransportView { needs_attach: false, ..now.t },
                    h: HandleView {
                        status: TransportStatusView {
                            history_storage_bytes: workspace.history_storage_bytes,
                            ..now.h.status
                        },
                        ..now.h
                    },
                    ..now
                };
                match r.terminal_output {
                    None => given_up(
                        failing(
                            noted,
                            epoch,
                            RequestErrorView::Other("Missing terminal output page"@),
                            false,
                        ),
                        epoch,
                    ),
                    Some(page) => {
                        let (replay, result) = applied(noted.t.replay, ticket, page);
                        let replayed = Now {
                            t: TransportView { replay, ..noted.t },
                            ..noted
                        };
                        match result {
                            Ok(effects) => (
                                at_stage(
                                    Now {
                                        effects: replayed.effects + replay_effects(effects),
                                        ..replayed
                                    },
                                    StageView::Applying {
                                        epoch,
                                        lifecycle,
                                        exited: workspace.exited,
                                        exit_code: workspace.exit_code,
                                        had_output: page.output.len() > 0,
                                    },
                                ),
                                TransportActionView::Parse,
                            ),
                            Err(ReplayError::HistoryGap { earliest_cursor }) => given_up(
                                told(
                                    replayed,
                                    epoch,
                                    TransportPhaseView::HistoryGap { earliest_cursor },
                                ),
                                epoch,
                            ),
                            Err(error) => given_up(
                                failing(
                                    replayed,
                                    epoch,
                                    RequestErrorView::Other(
                                        "History cannot be replayed safely: "@
                                            + replay_error_name(error),
                                    ),
                                    false,
                                ),
                                epoch,
                            ),
                        }
                    },
                }
            },
        }
    }
}

/// The phase of a page that was parsed is told: a shell that ended is finished, and
/// on a connection that failed nothing more is tried.
pub open spec fn shown_phase(
    now: Now,
    epoch: u64,
    phase: TransportPhaseView,
    exit_code: Option<i32>,
) -> Now {
    let finished = if phase is Exited && exit_code is Some {
        Now {
            effects: now.effects.push(
                TransportEffectView::Replay(ReplayEffectView::FinishShell(exit_code->Some_0)),
            ),
            ..now
        }
    } else {
        now
    };
    let marked = if phase is Failed || phase is HistoryGap {
        Now { t: TransportView { failed_epoch: Some(epoch), ..finished.t }, ..finished }
    } else {
        finished
    };
    told(marked, epoch, phase)
}

/// The terminal has parsed a page.
pub open spec fn parsed(
    now: Now,
    connection: Connection,
    stage: StageView,
    replies: Seq<u8>,
    bootstrapped: bool,
    active_session: Option<u64>,
) -> (Now, TransportActionView) {
    match stage {
        StageView::Applying { epoch, lifecycle, exited, exit_code, had_output } => {
            let ready = bootstrapped && active_session == Some(now.t.session_id);
            let phase = replayed_phase(now.t.replay.state.phase, ready, exited);
            let shown = shown_phase(now, epoch, phase, exit_code);
            if !exited && replies.len() > 0 {
                write_next(
                    shown,
                    connection,
                    epoch,
                    lifecycle,
                    replies,
                    0,
                    Purpose::Replies { had_output },
                )
            } else {
                resize_next(shown, epoch, had_output)
            }
        },
        _ => (now, TransportActionView::Again),
    }
}

/// What follows an event. One that does not fit the stage begins a new turn.
pub open spec fn stepped(now: Now, connection: Connection, event: TransportEventView) -> (
    Now,
    TransportActionView,
) {
    let stage = now.t.stage;
    let now = at_stage(now, StageView::Idle);
    match (stage, event) {
        (StageView::Awaiting, TransportEventView::Received(queued)) => awaited(now, queued),
        (
            StageView::Receiving { epoch, lifecycle },
            TransportEventView::Received(queued),
        ) => received(now, connection, epoch, lifecycle, queued),
        (
            StageView::Writing { epoch, lifecycle, bytes, sent, purpose },
            TransportEventView::Responded(response),
        ) => match checked_response(now.t, response) {
            Err(error) => request_failed(now, epoch, error, true),
            Ok(_) => write_next(now, connection, epoch, lifecycle, bytes, sent, purpose),
        },
        (
            StageView::Reading { epoch, lifecycle, ticket },
            TransportEventView::Responded(response),
        ) => read(now, connection, epoch, lifecycle, ticket, response),
        (
            StageView::Applying { .. },
            TransportEventView::Parsed { replies, bootstrapped, active_session },
        ) => parsed(now, connection, stage, replies, bootstrapped, active_session),
        (
            StageView::Resizing { epoch, had_output },
            TransportEventView::Responded(response),
        ) => match checked_response(now.t, response) {
            Err(error) => request_failed(now, epoch, error, false),
            Ok(_) => rest(
                Now { t: TransportView { needs_resize: false, ..now.t }, ..now },
                had_output,
            ),
        },
        _ => begun(now, connection),
    }
}

// ---------------------------------------------------------------------------
// The machine
// ---------------------------------------------------------------------------

fn push_effect(effects: &mut Vec<TransportEffect>, effect: TransportEffect)
    ensures
        final(effects).deep_view() == old(effects).deep_view().push(effect.deep_view()),
{
    let ghost before = effects.deep_view();
    effects.push(effect);
    assert(effects.deep_view() =~= before.push(effect.deep_view()));
}

fn push_replay(effects: &mut Vec<TransportEffect>, list: Vec<ReplayEffect>)
    ensures
        final(effects).deep_view() == old(effects).deep_view() + replay_effects(list.deep_view()),
{
    let ghost before = effects.deep_view();
    let ghost model = list.deep_view();
    let ghost mut done: int = 0;
    assert(before + replay_effects(model.take(0)) =~= before);
    for effect in it: list
        invariant
            it.seq() == list@,
            done == it.index(),
            model == list.deep_view(),
            effects.deep_view() == before + replay_effects(model.take(done)),
    {
        assert(model[done] == effect.deep_view());
        push_effect(effects, TransportEffect::Replay(effect));
        proof {
            done = done + 1;
        }
        assert(effects.deep_view() =~= before + replay_effects(model.take(done)));
    }
    assert(model.take(done) =~= model);
}

fn error_name(error: &ReplayError) -> (name: &'static str)
    ensures
        name@ == replay_error_name(*error),
{
    match error {
        ReplayError::StaleResponse => "StaleResponse",
        ReplayError::InvalidPage => "InvalidPage",
        ReplayError::NotConnected => "NotConnected",
        ReplayError::HistoryGap { .. } => "HistoryGap",
    }
}

impl Transport {
    /// A transport that has not begun. Its terminal has these dimensions.
    pub fn new(
        workspace_id: String,
        generation: String,
        session_id: u64,
        columns: u32,
        rows: u32,
        lifecycle: u64,
        epochs: &mut Epochs,
    ) -> (transport: Transport)
        ensures
            transport.deep_view() == (TransportView {
                workspace_id: workspace_id@,
                generation: generation@,
                session_id,
                replay: NativeView {
                    state: ReplayView {
                        epoch: old(epochs).upcoming(),
                        cursor: 0,
                        phase: ReplayPhase::Disconnected,
                        replay_until: None,
                        input_delivery_unknown: false,
                    },
                    open: false,
                },
                columns,
                rows,
                active_epoch: None,
                failed_epoch: None,
                needs_attach: true,
                needs_resize: true,
                active_lifecycle: lifecycle,
                stage: StageView::Idle,
            }),
            final(epochs).upcoming() == following(old(epochs).upcoming()),
    {
        Transport {
            workspace_id,
            generation,
            session_id,
            replay: NativeReplay::new(epochs),
            columns,
            rows,
            active_epoch: None,
            failed_epoch: None,
            needs_attach: true,
            needs_resize: true,
            active_lifecycle: lifecycle,
            stage: Stage::Idle,
        }
    }

    fn drop_connection(
        &mut self,
        epochs: &mut Epochs,
        effects: &mut Vec<TransportEffect>,
        uncertain: bool,
        Ghost(h): Ghost<HandleView>,
    )
        ensures
            ({
                let before = Now {
                    t: old(self).deep_view(),
                    h,
                    upcoming: old(epochs).upcoming(),
                    effects: old(effects).deep_view(),
                };
                let after = dropped(before, uncertain);
                &&& final(self).deep_view() == after.t
                &&& final(epochs).upcoming() == after.upcoming
                &&& final(effects).deep_view() == after.effects
            }),
    {
        let list = self.replay.disconnected(uncertain, epochs);
        push_replay(effects, list);
    }

    fn fail(
        &mut self,
        handle: &mut TransportHandle,
        epochs: &mut Epochs,
        effects: &mut Vec<TransportEffect>,
        epoch: u64,
        error: RequestError,
        uncertain: bool,
    )
        ensures
            now_of(*final(self), *final(handle), *final(epochs), *final(effects)) == failing(
                now_of(*old(self), *old(handle), *old(epochs), *old(effects)),
                epoch,
                error.deep_view(),
                uncertain,
            ),
    {
        let ghost h = handle.deep_view();
        self.drop_connection(epochs, effects, uncertain, Ghost(h));
        if uncertain {
            handle.doubt_input();
        }
        handle.update(epoch, phase_after_failure(error));
    }

    fn fail_request(
        &mut self,
        handle: &mut TransportHandle,
        epochs: &mut Epochs,
        effects: &mut Vec<TransportEffect>,
        epoch: u64,
        error: RequestError,
        uncertain: bool,
    ) -> (action: TransportAction)
        ensures
            (now_of(*final(self), *final(handle), *final(epochs), *final(effects)), action.deep_view()) == request_failed(
                now_of(*old(self), *old(handle), *old(epochs), *old(effects)),
                epoch,
                error.deep_view(),
                uncertain,
            ),
    {
        let retry = transient_request_failure(&error);
        self.fail(handle, epochs, effects, epoch, error, uncertain);
        self.needs_attach = retry;
        self.stage = Stage::Idle;
        if retry {
            self.failed_epoch = None;
            TransportAction::Pause(1000)
        } else {
            self.failed_epoch = Some(epoch);
            TransportAction::Again
        }
    }

    fn request(&self, operation: TerminalOperation, input: Vec<u8>, cursor: u64) -> (request:
        PersistentWorkspaceRequest)
        ensures
            request.deep_view() == terminal_request(self.deep_view(), operation, input@, cursor),
    {
        let resize = operation == TerminalOperation::Resize;
        PersistentWorkspaceRequest {
            protocol_version: 1,
            operation: PersistentWorkspaceOperation::Terminal.to_number(),
            workspace_id: self.workspace_id.clone(),
            generation: self.generation.clone(),
            working_directory: None,
            bootstrap: None,
            history_retention: None,
            terminal: Some(
                PersistentTerminalRequest {
                    operation: operation.to_number(),
                    cursor,
                    input,
                    columns: if resize {
                        self.columns
                    } else {
                        0
                    },
                    rows: if resize {
                        self.rows
                    } else {
                        0
                    },
                },
            ),
        }
    }

    /// A response that can be used, or why it cannot.
    pub fn check_response(
        &self,
        response: Result<PersistentWorkspaceResponse, String>,
    ) -> (r: Result<
        PersistentWorkspaceResponse,
        RequestError,
    >)
        ensures
            outcome(r) == checked_response(self.deep_view(), outcome(response)),
    {
        let r = match response {
            Ok(r) => r,
            Err(message) => return Err(RequestError::Other(message)),
        };
        assert(r.workspaces@.len() == r.workspaces.deep_view().len());
        if r.protocol_version != 1 {
            return Err(
                RequestError::Other("Unsupported persistent terminal protocol".to_owned()),
            );
        }
        if !r.terminal_transport_supported || !r.block_replay_supported {
            return Err(
                RequestError::Other(
                    "The SSH extension cannot restore native persistent blocks. Install the matching custom extension.".to_owned(),
                ),
            );
        }
        if let Some(error) = r.error {
            return Err(
                RequestError::Workspace { code: error.code, message: error.message },
            );
        }
        if r.workspaces.len() != 1 || !text::same(
            r.workspaces[0].workspace_id.as_str(),
            self.workspace_id.as_str(),
        ) || !text::same(r.workspaces[0].generation.as_str(), self.generation.as_str()) {
            return Err(
                RequestError::Other(
                    "Remote response refers to a different workspace incarnation".to_owned(),
                ),
            );
        }
        Ok(r)
    }

    fn rest(&mut self, had_output: bool, Ghost(now): Ghost<Now>) -> (action: TransportAction)
        requires
            now.t == old(self).deep_view(),
        ensures
            rest(now, had_output) == (
                Now { t: final(self).deep_view(), ..now },
                action.deep_view(),
            ),
    {
        self.stage = Stage::Idle;
        if had_output {
            TransportAction::Again
        } else {
            TransportAction::Pause(35)
        }
    }

    fn resize_next(
        &mut self,
        handle: &TransportHandle,
        epoch: u64,
        had_output: bool,
        Ghost(now): Ghost<Now>,
    ) -> (action: TransportAction)
        requires
            now.t == old(self).deep_view(),
            now.h == handle.deep_view(),
        ensures
            resize_next(now, epoch, had_output) == (
                Now { t: final(self).deep_view(), ..now },
                action.deep_view(),
            ),
    {
        if self.needs_resize && handle.status().phase.is_live() {
            let input: Vec<u8> = Vec::new();
            assert(input@ =~= Seq::empty());
            let request = self.request(TerminalOperation::Resize, input, 0);
            self.stage = Stage::Resizing { epoch, had_output };
            TransportAction::Request(request)
        } else {
            self.rest(had_output, Ghost(now))
        }
    }

    fn read_next(&mut self, epoch: u64, lifecycle: u64, Ghost(now): Ghost<Now>) -> (action:
        TransportAction)
        requires
            now.t == old(self).deep_view(),
        ensures
            read_next(now, epoch, lifecycle) == (
                Now { t: final(self).deep_view(), ..now },
                action.deep_view(),
            ),
    {
        match self.replay.read_ticket() {
            Ok(ticket) => {
                let operation = if self.needs_attach {
                    TerminalOperation::Attach
                } else {
                    TerminalOperation::Read
                };
                let input: Vec<u8> = Vec::new();
                assert(input@ =~= Seq::empty());
                let request = self.request(operation, input, ticket.cursor);
                self.stage = Stage::Reading { epoch, lifecycle, ticket };
                TransportAction::Request(request)
            },
            Err(_) => {
                self.stage = Stage::Idle;
                TransportAction::Pause(100)
            },
        }
    }

    fn write_next(
        &mut self,
        handle: &mut TransportHandle,
        epochs: &mut Epochs,
        effects: &mut Vec<TransportEffect>,
        connection: Connection,
        epoch: u64,
        lifecycle: u64,
        bytes: Vec<u8>,
        sent: usize,
        purpose: Purpose,
    ) -> (action: TransportAction)
        ensures
            (now_of(*final(self), *final(handle), *final(epochs), *final(effects)), action.deep_view()) == write_next(
                now_of(*old(self), *old(handle), *old(epochs), *old(effects)),
                connection,
                epoch,
                lifecycle,
                bytes@,
                sent,
                purpose,
            ),
    {
        let ghost now = now_of(*self, *handle, *epochs, *effects);
        if sent >= bytes.len() {
            return match purpose {
                Purpose::UserInput => self.read_next(epoch, lifecycle, Ghost(now)),
                Purpose::Replies { had_output } => self.resize_next(
                    handle,
                    epoch,
                    had_output,
                    Ghost(now),
                ),
            };
        }
        if !Self::is_current(handle, connection, epoch, lifecycle) {
            return self.fail_request(
                handle,
                epochs,
                effects,
                epoch,
                RequestError::Other(
                    "Connection or tab attachment changed during input delivery".to_owned(),
                ),
                true,
            );
        }
        let end: usize = if bytes.len() - sent > 4096 {
            sent + 4096
        } else {
            bytes.len()
        };
        let part = bytes::slice(bytes.as_slice(), sent, end);
        let request = self.request(TerminalOperation::Input, part, 0);
        self.stage = Stage::Writing { epoch, lifecycle, bytes, sent: end, purpose };
        TransportAction::Request(request)
    }

    fn is_current(
        handle: &TransportHandle,
        connection: Connection,
        epoch: u64,
        lifecycle: u64,
    ) -> (r:
        bool)
        ensures
            r == still_current(handle.deep_view(), connection, epoch, lifecycle),
    {
        !handle.stopped() && !handle.paused() && lifecycle == handle.lifecycle() && epoch
            == connection.epoch && connection.connected
    }

    fn refresh(
        &mut self,
        handle: &mut TransportHandle,
        epochs: &mut Epochs,
        effects: &mut Vec<TransportEffect>,
        connection: Connection,
    )
        ensures
            now_of(*final(self), *final(handle), *final(epochs), *final(effects)) == refreshed(
                now_of(*old(self), *old(handle), *old(epochs), *old(effects)),
                connection,
            ),
    {
        let ghost h = handle.deep_view();
        let lifecycle = handle.lifecycle();
        if self.active_lifecycle != lifecycle {
            self.drop_connection(epochs, effects, false, Ghost(h));
            self.needs_attach = true;
            self.failed_epoch = None;
            self.active_lifecycle = lifecycle;
        }
        let retry = handle.take_retry();
        if retry {
            self.drop_connection(epochs, effects, false, Ghost(handle.deep_view()));
            self.needs_attach = true;
            self.failed_epoch = None;
        }
        assert(!retry ==> handle.deep_view() == h);
        if !handle.status().input_delivery_unknown {
            self.replay.acknowledge_input_uncertainty();
        }
        let changed = match self.active_epoch {
            Some(active) => active != connection.epoch,
            None => true,
        };
        if changed || !connection.connected {
            self.drop_connection(epochs, effects, false, Ghost(handle.deep_view()));
            handle.update(connection.epoch, TransportPhase::Disconnected);
            self.active_epoch = Some(connection.epoch);
            self.needs_attach = true;
        }
    }

    fn begin(
        &mut self,
        handle: &mut TransportHandle,
        epochs: &mut Epochs,
        effects: &mut Vec<TransportEffect>,
        connection: Connection,
    ) -> (action: TransportAction)
        ensures
            (now_of(*final(self), *final(handle), *final(epochs), *final(effects)), action.deep_view()) == begun(
                now_of(*old(self), *old(handle), *old(epochs), *old(effects)),
                connection,
            ),
    {
        if handle.stopped() {
            self.drop_connection(epochs, effects, false, Ghost(handle.deep_view()));
            self.stage = Stage::Idle;
            return TransportAction::Stop;
        }
        self.refresh(handle, epochs, effects, connection);
        let failed = match self.failed_epoch {
            Some(epoch) => epoch == connection.epoch,
            None => false,
        };
        if !connection.connected || failed || handle.paused() {
            self.stage = Stage::Awaiting;
            return TransportAction::AwaitMessage(150);
        }
        if self.needs_attach {
            self.replay.connected(epochs);
            handle.update(connection.epoch, TransportPhase::Replaying);
            push_effect(effects, TransportEffect::NotifyBootstrapped);
            self.needs_resize = true;
        }
        self.stage = Stage::Receiving {
            epoch: connection.epoch,
            lifecycle: handle.lifecycle(),
        };
        TransportAction::TakeMessage
    }

    fn take_awaited(
        &mut self,
        handle: &mut TransportHandle,
        queued: Option<QueuedMessage>,
        Ghost(now): Ghost<Now>,
    ) -> (action: TransportAction)
        requires
            now.t == old(self).deep_view(),
            now.h == old(handle).deep_view(),
        ensures
            awaited(now, queued.deep_view()) == (
                Now { t: final(self).deep_view(), h: final(handle).deep_view(), ..now },
                action.deep_view(),
            ),
    {
        if let Some(queued) = queued {
            match queued.message {
                Message::Resize(columns, rows) => {
                    self.columns = columns;
                    self.rows = rows;
                    self.needs_resize = true;
                },
                Message::Input(_) => handle.discard_input(),
                _ => {},
            }
        }
        self.stage = Stage::Idle;
        TransportAction::Again
    }

    fn take_message(
        &mut self,
        handle: &mut TransportHandle,
        epochs: &mut Epochs,
        effects: &mut Vec<TransportEffect>,
        connection: Connection,
        epoch: u64,
        lifecycle: u64,
        queued: Option<QueuedMessage>,
    ) -> (action: TransportAction)
        ensures
            (now_of(*final(self), *final(handle), *final(epochs), *final(effects)), action.deep_view()) == received(
                now_of(*old(self), *old(handle), *old(epochs), *old(effects)),
                connection,
                epoch,
                lifecycle,
                queued.deep_view(),
            ),
    {
        let ghost now = now_of(*self, *handle, *epochs, *effects);
        match queued {
            Some(queued) => match queued.message {
                Message::Resize(columns, rows) => {
                    self.columns = columns;
                    self.rows = rows;
                    self.needs_resize = true;
                    self.read_next(epoch, lifecycle, Ghost(resized(now, columns, rows)))
                },
                Message::Input(bytes) => {
                    let status = handle.status();
                    if queued.epoch == epoch && queued.lifecycle == lifecycle
                        && status.phase.is_live() && !status.input_delivery_unknown
                        && !status.discarded_input {
                        self.write_next(
                            handle,
                            epochs,
                            effects,
                            connection,
                            epoch,
                            lifecycle,
                            bytes,
                            0,
                            Purpose::UserInput,
                        )
                    } else {
                        handle.discard_input();
                        self.read_next(epoch, lifecycle, Ghost(discarded(now)))
                    }
                },
                _ => self.read_next(epoch, lifecycle, Ghost(now)),
            },
            None => self.read_next(epoch, lifecycle, Ghost(now)),
        }
    }

    fn take_page(
        &mut self,
        handle: &mut TransportHandle,
        epochs: &mut Epochs,
        effects: &mut Vec<TransportEffect>,
        connection: Connection,
        epoch: u64,
        lifecycle: u64,
        ticket: ReadTicket,
        response: Result<PersistentWorkspaceResponse, String>,
    ) -> (action: TransportAction)
        ensures
            (now_of(*final(self), *final(handle), *final(epochs), *final(effects)), action.deep_view()) == read(
                now_of(*old(self), *old(handle), *old(epochs), *old(effects)),
                connection,
                epoch,
                lifecycle,
                ticket.deep_view(),
                outcome(response),
            ),
    {
        if !Self::is_current(handle, connection, epoch, lifecycle) {
            self.stage = Stage::Idle;
            return TransportAction::Again;
        }
        let r = match self.check_response(response) {
            Ok(r) => r,
            Err(error) => {
                return self.fail_request(handle, epochs, effects, epoch, error, false);
            },
        };
        assert(r.workspaces@.len() == r.workspaces.deep_view().len());
        assert(r.workspaces.deep_view()[0] == r.workspaces@[0].deep_view());
        self.needs_attach = false;
        let exited = r.workspaces[0].exited;
        let exit_code = r.workspaces[0].exit_code;
        handle.set_storage(r.workspaces[0].history_storage_bytes);
        let page = match r.terminal_output {
            Some(page) => page,
            None => {
                self.fail(
                    handle,
                    epochs,
                    effects,
                    epoch,
                    RequestError::Other("Missing terminal output page".to_owned()),
                    false,
                );
                self.failed_epoch = Some(epoch);
                self.stage = Stage::Idle;
                return TransportAction::Again;
            },
        };
        let had_output = page.output.len() > 0;
        match self.replay.apply(ticket, page) {
            Ok(list) => {
                push_replay(effects, list);
                self.stage = Stage::Applying { epoch, lifecycle, exited, exit_code, had_output };
                TransportAction::Parse
            },
            Err(ReplayError::HistoryGap { earliest_cursor }) => {
                handle.update(epoch, TransportPhase::HistoryGap { earliest_cursor });
                self.failed_epoch = Some(epoch);
                self.stage = Stage::Idle;
                TransportAction::Again
            },
            Err(error) => {
                let message = text::joined(
                    "History cannot be replayed safely: ",
                    error_name(&error),
                );
                self.fail(
                    handle,
                    epochs,
                    effects,
                    epoch,
                    RequestError::Other(message),
                    false,
                );
                self.failed_epoch = Some(epoch);
                self.stage = Stage::Idle;
                TransportAction::Again
            },
        }
    }

    fn show_phase(
        &mut self,
        handle: &mut TransportHandle,
        epochs: &Epochs,
        effects: &mut Vec<TransportEffect>,
        epoch: u64,
        phase: TransportPhase,
        exit_code: Option<i32>,
    )
        ensures
            now_of(*final(self), *final(handle), *epochs, *final(effects)) == shown_phase(
                now_of(*old(self), *old(handle), *epochs, *old(effects)),
                epoch,
                phase.deep_view(),
                exit_code,
            ),
    {
        let ghost before = effects.deep_view();
        match &phase {
            TransportPhase::Exited => {
                let list = self.replay.finish_shell(exit_code);
                push_replay(effects, list);
                assert(exit_code is Some ==> effects.deep_view() =~= before.push(
                    TransportEffectView::Replay(ReplayEffectView::FinishShell(exit_code->Some_0)),
                ));
                assert(exit_code is None ==> effects.deep_view() =~= before);
            },
            TransportPhase::Failed(_) | TransportPhase::HistoryGap { .. } => {
                self.failed_epoch = Some(epoch);
            },
            _ => {},
        }
        handle.update(epoch, phase);
    }

    fn take_parsed(
        &mut self,
        handle: &mut TransportHandle,
        epochs: &mut Epochs,
        effects: &mut Vec<TransportEffect>,
        connection: Connection,
        epoch: u64,
        lifecycle: u64,
        exited: bool,
        exit_code: Option<i32>,
        had_output: bool,
        replies: Vec<u8>,
        bootstrapped: bool,
        active_session: Option<u64>,
    ) -> (action: TransportAction)
        ensures
            (now_of(*final(self), *final(handle), *final(epochs), *final(effects)), action.deep_view()) == parsed(
                now_of(*old(self), *old(handle), *old(epochs), *old(effects)),
                connection,
                StageView::Applying { epoch, lifecycle, exited, exit_code, had_output },
                replies@,
                bootstrapped,
                active_session,
            ),
    {
        let ready = self.replay.shell_ready(bootstrapped, active_session, self.session_id);
        let phase = phase_after_replay(self.replay.phase(), ready, exited);
        self.show_phase(handle, epochs, effects, epoch, phase, exit_code);
        if !exited && replies.len() > 0 {
            self.write_next(
                handle,
                epochs,
                effects,
                connection,
                epoch,
                lifecycle,
                replies,
                0,
                Purpose::Replies { had_output },
            )
        } else {
            let ghost now = now_of(*self, *handle, *epochs, *effects);
            self.resize_next(handle, epoch, had_output, Ghost(now))
        }
    }

    /// Decides what follows an event. The effects are added to those that are there.
    pub fn step(
        &mut self,
        handle: &mut TransportHandle,
        epochs: &mut Epochs,
        effects: &mut Vec<TransportEffect>,
        connection: Connection,
        event: TransportEvent,
    ) -> (action: TransportAction)
        ensures
            (now_of(*final(self), *final(handle), *final(epochs), *final(effects)), action.deep_view()) == stepped(
                now_of(*old(self), *old(handle), *old(epochs), *old(effects)),
                connection,
                event.deep_view(),
            ),
    {
        let mut stage = Stage::Idle;
        std::mem::swap(&mut stage, &mut self.stage);
        let ghost now = now_of(*self, *handle, *epochs, *effects);
        match (stage, event) {
            (Stage::Awaiting, TransportEvent::Received(queued)) => {
                self.take_awaited(handle, queued, Ghost(now))
            },
            (Stage::Receiving { epoch, lifecycle }, TransportEvent::Received(queued)) => {
                self.take_message(handle, epochs, effects, connection, epoch, lifecycle, queued)
            },
            (
                Stage::Writing { epoch, lifecycle, bytes, sent, purpose },
                TransportEvent::Responded(response),
            ) => match self.check_response(response) {
                Err(error) => self.fail_request(handle, epochs, effects, epoch, error, true),
                Ok(_) => self.write_next(
                    handle,
                    epochs,
                    effects,
                    connection,
                    epoch,
                    lifecycle,
                    bytes,
                    sent,
                    purpose,
                ),
            },
            (
                Stage::Reading { epoch, lifecycle, ticket },
                TransportEvent::Responded(response),
            ) => self.take_page(
                handle,
                epochs,
                effects,
                connection,
                epoch,
                lifecycle,
                ticket,
                response,
            ),
            (
                Stage::Applying { epoch, lifecycle, exited, exit_code, had_output },
                TransportEvent::Parsed { replies, bootstrapped, active_session },
            ) => self.take_parsed(
                handle,
                epochs,
                effects,
                connection,
                epoch,
                lifecycle,
                exited,
                exit_code,
                had_output,
                replies,
                bootstrapped,
                active_session,
            ),
            (Stage::Resizing { epoch, had_output }, TransportEvent::Responded(response)) => {
                match self.check_response(response) {
                    Err(error) => self.fail_request(handle, epochs, effects, epoch, error, false),
                    Ok(_) => {
                        self.needs_resize = false;
                        let ghost next = now_of(*self, *handle, *epochs, *effects);
                        self.rest(had_output, Ghost(next))
                    },
                }
            },
            _ => self.begin(handle, epochs, effects, connection),
        }
    }
}

} // verus!
