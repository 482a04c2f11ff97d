use persistent_workspaces::bootstrap::ShellType;
use persistent_workspaces::connection::{
    await_master, keep_tail, retry_delay, ConnectionOwner, ConnectionSlot, ConnectionStatus,
    MasterState, MasterStep, OwnerAction, OwnerEvent, TAIL_BYTES,
};
use persistent_workspaces::native_replay::ReplayEffect;
use persistent_workspaces::proto::{
    PersistentTerminalOutput, PersistentTerminalRequest, PersistentWorkspace,
    PersistentWorkspaceError, PersistentWorkspaceRequest, PersistentWorkspaceResponse,
};
use persistent_workspaces::replay::{Epochs, ReplayPhase};
use persistent_workspaces::status::{
    handle_action, in_units, render, status_text, workspace_label, Action, StatusCommand,
    StatusRow, GIB,
};
use persistent_workspaces::terminal::{attached_session, on_view_detached, DetachType};
use persistent_workspaces::transport::run::{
    Connection, Transport, TransportAction, TransportEffect, TransportEvent,
};
use persistent_workspaces::transport::{
    phase_after_failure, phase_after_replay, transient_request_failure, Delivery, Message,
    QueuedMessage, RequestError, TransportHandle, TransportPhase, TransportStatus,
};

fn queued(delivery: Delivery) -> QueuedMessage {
    match delivery {
        Delivery::Queue(queued) => queued,
        other => panic!("expected a queued message, not {other:?}"),
    }
}

#[test]
fn persistent_timeout_recovery_does_not_retry_permanent_or_unknown_errors() {
    for code in [
        "tmux_timeout",
        "workspace_not_found",
        "stale_workspace",
        "invalid_request",
        "tmux_failed",
    ] {
        let error = RequestError::Workspace { code: code.into(), message: "test".into() };
        assert_eq!(transient_request_failure(&error), code == "tmux_timeout");
    }
    assert!(!transient_request_failure(&RequestError::Other(
        "Unclassified protocol failure".into()
    )));
}

#[test]
fn persistent_retry_output_never_acknowledges_or_requeues_input() {
    let mut handle = TransportHandle::new();
    handle.doubt_input();
    handle.discard_input();
    handle.retry_output();
    assert!(handle.retry_requested());
    assert!(handle.status().input_delivery_unknown);
    assert!(handle.status().discarded_input);
    assert!(!handle.accepts_input());
}

#[test]
fn persistent_input_is_rejected_without_destroying_the_terminal() {
    let mut handle = TransportHandle::new();
    for phase in [
        TransportPhase::Disconnected,
        TransportPhase::Replaying,
        TransportPhase::Exited,
        TransportPhase::HistoryGap { earliest_cursor: 1024 },
        TransportPhase::Failed("recorder stopped".into()),
    ] {
        handle.update(3, phase);
        assert!(matches!(handle.send(Message::Input(vec![3])), Delivery::Refused(_)));
        assert!(!handle.stopped());
    }
}

#[test]
fn persistent_input_keeps_its_connection_epoch() {
    let mut handle = TransportHandle::new();
    handle.update(3, TransportPhase::Live);
    let message = queued(handle.send(Message::Input(b"run-once\r".to_vec())));
    handle.update(4, TransportPhase::Live);
    assert_eq!(message.epoch, 3);
}

#[test]
fn persistent_uncertain_input_requires_explicit_acknowledgement() {
    let mut handle = TransportHandle::new();
    handle.doubt_input();
    handle.update(8, TransportPhase::Live);
    assert!(matches!(handle.send(Message::Input(vec![3])), Delivery::Refused(_)));
    handle.acknowledge_uncertain_input();
    assert_eq!(queued(handle.send(Message::Input(vec![3]))).epoch, 8);
}

#[test]
fn persistent_shutdown_pauses_for_undo_close_without_sending_remote_input() {
    let mut handle = TransportHandle::new();
    handle.update(1, TransportPhase::Live);
    assert!(matches!(handle.send(Message::Shutdown), Delivery::Handled));
    assert!(!handle.stopped());
    assert!(handle.paused());
    assert!(matches!(handle.send(Message::Input(b"exit\r".to_vec())), Delivery::Refused(_)));
    handle.resume();
    assert!(!handle.accepts_input()); // Catch up before accepting new input.
    handle.update(1, TransportPhase::Live);
    assert!(handle.accepts_input());
}

#[test]
fn persistent_reopen_invalidates_pending_input_even_on_the_same_connection() {
    let mut handle = TransportHandle::new();
    handle.update(1, TransportPhase::Live);
    let message = queued(handle.send(Message::Input(b"do-not-retry\r".to_vec())));
    handle.pause();
    handle.doubt_input();
    handle.resume();
    handle.update(1, TransportPhase::Live);
    assert_ne!(message.lifecycle, handle.lifecycle());
    assert!(handle.status().input_delivery_unknown);
    assert!(!handle.accepts_input());
}

#[test]
fn persistent_final_disposal_cannot_be_revived_by_undo_close() {
    let mut handle = TransportHandle::new();
    handle.detach();
    handle.resume();
    handle.update(1, TransportPhase::Live);
    assert!(handle.stopped());
    assert!(!handle.accepts_input());
    assert!(matches!(handle.send(Message::Resize(80, 24)), Delivery::Refused(_)));
}

#[test]
fn persistent_recorder_loss_is_a_failure_not_an_endless_attach() {
    for phase in [ReplayPhase::Disconnected, ReplayPhase::Closed] {
        assert!(matches!(phase_after_replay(phase, true, false), TransportPhase::Failed(_)));
    }
    assert!(matches!(
        phase_after_replay(ReplayPhase::Closed, true, true),
        TransportPhase::Exited
    ));
    assert!(matches!(
        phase_after_replay(ReplayPhase::Live, true, true),
        TransportPhase::Replaying
    ));
    assert!(matches!(
        phase_after_replay(ReplayPhase::Replaying, true, true),
        TransportPhase::Replaying
    ));
}

#[test]
fn persistent_shell_exit_waits_for_the_recorders_final_page() {
    for shell_ready in [false, true] {
        for phase in [ReplayPhase::Replaying, ReplayPhase::Live] {
            assert!(matches!(
                phase_after_replay(phase, shell_ready, true),
                TransportPhase::Replaying
            ));
        }
        assert!(matches!(
            phase_after_replay(ReplayPhase::Closed, shell_ready, true),
            TransportPhase::Exited
        ));
    }
    assert!(matches!(phase_after_replay(ReplayPhase::Live, true, false), TransportPhase::Live));
    assert!(matches!(
        phase_after_replay(ReplayPhase::Live, false, false),
        TransportPhase::Replaying
    ));
}

#[test]
fn persistent_history_gap_retains_its_identity_and_never_enables_input() {
    let phase = phase_after_replay(ReplayPhase::HistoryGap { earliest_cursor: 4096 }, true, false);
    assert!(matches!(phase, TransportPhase::HistoryGap { earliest_cursor: 4096 }));
    let mut handle = TransportHandle::new();
    handle.update(1, phase);
    handle.acknowledge_uncertain_input();
    assert!(!handle.accepts_input());
}

#[test]
fn an_incarnation_that_is_gone_is_not_a_failure() {
    for code in ["workspace_not_found", "stale_workspace"] {
        let error = RequestError::Workspace { code: code.into(), message: "gone".into() };
        assert!(matches!(phase_after_failure(error), TransportPhase::Removed));
    }
    let error = RequestError::Workspace { code: "tmux_failed".into(), message: "x".into() };
    assert!(matches!(phase_after_failure(error), TransportPhase::Failed(text)
        if text == "tmux_failed: x"));
    assert!(matches!(phase_after_failure(RequestError::Other("y".into())),
        TransportPhase::Failed(text) if text == "y"));
}

// ---------------------------------------------------------------------------
// The loop
// ---------------------------------------------------------------------------

struct Lab {
    transport: Transport,
    handle: TransportHandle,
    epochs: Epochs,
    connection: Connection,
    effects: Vec<TransportEffect>,
}

impl Lab {
    fn new() -> Self {
        let mut epochs = Epochs::new();
        let transport =
            Transport::new("id".into(), "generation".into(), 9, 80, 24, 0, &mut epochs);
        Lab {
            transport,
            handle: TransportHandle::new(),
            epochs,
            connection: Connection { epoch: 1, connected: true },
            effects: Vec::new(),
        }
    }

    fn step(&mut self, event: TransportEvent) -> TransportAction {
        self.effects.clear();
        self.transport.step(
            &mut self.handle,
            &mut self.epochs,
            &mut self.effects,
            self.connection,
            event,
        )
    }

    fn respond(&mut self, response: PersistentWorkspaceResponse) -> TransportAction {
        self.step(TransportEvent::Responded(Ok(response)))
    }

    fn parsed(&mut self, replies: &[u8]) -> TransportAction {
        self.step(TransportEvent::Parsed {
            replies: replies.to_vec(),
            bootstrapped: true,
            active_session: Some(9),
        })
    }

    /// Attaches the terminal; its history is "old".
    fn attach(&mut self) -> TransportAction {
        assert!(matches!(self.step(TransportEvent::Proceed), TransportAction::TakeMessage));
        assert!(matches!(&self.effects[..], [TransportEffect::NotifyBootstrapped]));
        let request = request(self.step(TransportEvent::Received(None)));
        assert_eq!(request.operation, 0);
        assert_eq!(request.cursor, 0);
        assert!(matches!(self.respond(page(0, b"old")), TransportAction::Parse));
        self.parsed(b"")
    }

    /// A live terminal.
    fn live() -> Self {
        let mut lab = Lab::new();
        let resize = request(lab.attach());
        assert_eq!((resize.operation, resize.columns, resize.rows), (3, 80, 24));
        assert!(matches!(lab.handle.status().phase, TransportPhase::Live));
        assert!(matches!(lab.respond(response()), TransportAction::Again));
        lab
    }

    /// Sends input to a live terminal, up to the daemon.
    fn send(&mut self, bytes: &[u8]) -> TransportAction {
        let message = queued(self.handle.send(Message::Input(bytes.to_vec())));
        assert!(matches!(self.step(TransportEvent::Proceed), TransportAction::TakeMessage));
        self.step(TransportEvent::Received(Some(message)))
    }
}

fn request(action: TransportAction) -> PersistentTerminalRequest {
    match action {
        TransportAction::Request(request) => {
            let request: PersistentWorkspaceRequest = request;
            assert_eq!(request.protocol_version, 1);
            assert_eq!(request.operation, 5);
            assert_eq!(request.workspace_id, "id");
            assert_eq!(request.generation, "generation");
            request.terminal.unwrap()
        }
        other => panic!("expected a request, not {other:?}"),
    }
}

fn response() -> PersistentWorkspaceResponse {
    PersistentWorkspaceResponse {
        protocol_version: 1,
        management_supported: true,
        terminal_transport_supported: true,
        block_replay_supported: true,
        workspaces: vec![PersistentWorkspace {
            workspace_id: "id".into(),
            generation: "generation".into(),
            history_storage_bytes: Some(77),
            ..Default::default()
        }],
        ..Default::default()
    }
}

fn page(start: u64, bytes: &[u8]) -> PersistentWorkspaceResponse {
    PersistentWorkspaceResponse {
        terminal_output: Some(PersistentTerminalOutput {
            start_cursor: start,
            next_cursor: start + bytes.len() as u64,
            high_watermark: start + bytes.len() as u64,
            output: bytes.to_vec(),
            recorder_connected: true,
            ..Default::default()
        }),
        ..response()
    }
}

fn refusal(code: &str) -> PersistentWorkspaceResponse {
    PersistentWorkspaceResponse {
        error: Some(PersistentWorkspaceError { code: code.into(), message: "no".into() }),
        ..response()
    }
}

#[test]
fn a_terminal_becomes_live_and_is_read_on() {
    let mut lab = Lab::live();
    assert_eq!(lab.handle.status().history_storage_bytes, Some(77));
    assert!(matches!(lab.step(TransportEvent::Proceed), TransportAction::TakeMessage));
    let read = request(lab.step(TransportEvent::Received(None)));
    assert_eq!((read.operation, read.cursor), (1, 3));
    assert!(matches!(lab.respond(page(3, b"")), TransportAction::Parse));
    // Without output the next turn waits a little.
    assert!(matches!(lab.parsed(b""), TransportAction::Pause(35)));
}

#[test]
fn input_is_written_in_parts_that_follow_one_another() {
    let mut lab = Lab::live();
    let bytes: Vec<u8> = (0..9000u32).map(|n| n as u8).collect();
    let first = request(lab.send(&bytes));
    assert_eq!(first.operation, 2);
    assert_eq!(first.input, bytes[..4096]);
    let second = request(lab.respond(response()));
    assert_eq!(second.input, bytes[4096..8192]);
    let third = request(lab.respond(response()));
    assert_eq!(third.input, bytes[8192..]);
    // Then the output is read.
    assert_eq!(request(lab.respond(response())).operation, 1);
    assert!(lab.handle.accepts_input());
}

#[test]
fn unacknowledged_input_is_never_written_again() {
    let mut lab = Lab::live();
    request(lab.send(b"rm -i file\n"));
    assert!(matches!(
        lab.step(TransportEvent::Responded(Err("connection lost".into()))),
        TransportAction::Again
    ));
    assert!(lab.handle.status().input_delivery_unknown);
    assert!(matches!(lab.handle.status().phase, TransportPhase::Failed(text)
        if text == "connection lost"));
    assert!(!lab.handle.accepts_input());
    // Nothing more is tried on this connection.
    assert!(matches!(lab.step(TransportEvent::Proceed), TransportAction::AwaitMessage(150)));
    // A new one is attached, and still takes no input.
    lab.connection.epoch = 2;
    assert!(matches!(lab.step(TransportEvent::Received(None)), TransportAction::Again));
    let resize = {
        assert!(matches!(lab.step(TransportEvent::Proceed), TransportAction::TakeMessage));
        let attach = request(lab.step(TransportEvent::Received(None)));
        assert_eq!((attach.operation, attach.cursor), (0, 3));
        assert!(matches!(lab.respond(page(3, b"more")), TransportAction::Parse));
        lab.parsed(b"")
    };
    assert_eq!(request(resize).operation, 3);
    assert!(!lab.handle.accepts_input());
    lab.handle.acknowledge_uncertain_input();
    assert!(lab.handle.accepts_input());
}

#[test]
fn input_of_another_attachment_is_discarded() {
    let mut lab = Lab::live();
    let message = queued(lab.handle.send(Message::Input(b"old\n".to_vec())));
    lab.handle.pause();
    lab.handle.resume();
    assert!(matches!(lab.step(TransportEvent::Proceed), TransportAction::TakeMessage));
    let attach = request(lab.step(TransportEvent::Received(Some(message))));
    assert_eq!(attach.operation, 0);
    assert!(lab.handle.status().discarded_input);
}

#[test]
fn messages_without_a_connection_are_taken_but_not_sent() {
    let mut lab = Lab::new();
    lab.connection.connected = false;
    assert!(matches!(lab.step(TransportEvent::Proceed), TransportAction::AwaitMessage(150)));
    let resize = QueuedMessage { epoch: 0, lifecycle: 0, message: Message::Resize(100, 50) };
    assert!(matches!(
        lab.step(TransportEvent::Received(Some(resize))),
        TransportAction::Again
    ));
    lab.step(TransportEvent::Proceed);
    let input = QueuedMessage { epoch: 0, lifecycle: 0, message: Message::Input(vec![3]) };
    lab.step(TransportEvent::Received(Some(input)));
    assert!(lab.handle.status().discarded_input);
    lab.connection = Connection { epoch: 2, connected: true };
    let resize = request(lab.attach());
    assert_eq!((resize.columns, resize.rows), (100, 50));
}

#[test]
fn late_and_wrong_responses_are_not_applied() {
    let mut lab = Lab::live();
    lab.step(TransportEvent::Proceed);
    request(lab.step(TransportEvent::Received(None)));
    lab.connection.epoch = 2;
    assert!(matches!(lab.respond(page(3, b"late")), TransportAction::Again));
    assert!(lab.effects.is_empty());
    for (response, text) in [
        (
            PersistentWorkspaceResponse { protocol_version: 2, ..response() },
            "Unsupported persistent terminal protocol",
        ),
        (
            PersistentWorkspaceResponse { block_replay_supported: false, ..response() },
            "The SSH extension cannot restore native persistent blocks. Install the matching custom extension.",
        ),
        (
            PersistentWorkspaceResponse { workspaces: vec![], ..response() },
            "Remote response refers to a different workspace incarnation",
        ),
        (response(), "Missing terminal output page"),
        (page(5, b"x"), "History cannot be replayed safely: InvalidPage"),
        (refusal("tmux_failed"), "tmux_failed: no"),
    ] {
        let mut lab = Lab::live();
        lab.step(TransportEvent::Proceed);
        request(lab.step(TransportEvent::Received(None)));
        assert!(matches!(lab.respond(response), TransportAction::Again));
        match lab.handle.status().phase {
            TransportPhase::Failed(message) => assert_eq!(message, text),
            other => panic!("{other:?}"),
        }
        assert!(!lab.handle.status().input_delivery_unknown);
        assert!(matches!(lab.step(TransportEvent::Proceed), TransportAction::AwaitMessage(150)));
    }
}

#[test]
fn a_passing_failure_is_tried_again() {
    let mut lab = Lab::live();
    lab.step(TransportEvent::Proceed);
    request(lab.step(TransportEvent::Received(None)));
    assert!(matches!(lab.respond(refusal("tmux_timeout")), TransportAction::Pause(1000)));
    assert!(matches!(lab.step(TransportEvent::Proceed), TransportAction::TakeMessage));
    assert_eq!(request(lab.step(TransportEvent::Received(None))).operation, 0);
}

#[test]
fn a_gap_is_reported_and_reading_stops() {
    let mut lab = Lab::live();
    lab.step(TransportEvent::Proceed);
    request(lab.step(TransportEvent::Received(None)));
    let mut gap = page(10, b"left");
    let output = gap.terminal_output.as_mut().unwrap();
    output.earliest_cursor = 10;
    output.history_gap = true;
    assert!(matches!(lab.respond(gap), TransportAction::Again));
    assert!(matches!(
        lab.handle.status().phase,
        TransportPhase::HistoryGap { earliest_cursor: 10 }
    ));
    assert!(matches!(lab.step(TransportEvent::Proceed), TransportAction::AwaitMessage(150)));
}

#[test]
fn only_the_last_page_of_an_exited_shell_finishes_it() {
    let mut lab = Lab::live();
    lab.step(TransportEvent::Proceed);
    request(lab.step(TransportEvent::Received(None)));
    let mut last = page(3, b"bye");
    last.workspaces[0].exited = true;
    last.workspaces[0].exit_code = Some(3);
    last.terminal_output.as_mut().unwrap().closed = true;
    assert!(matches!(lab.respond(last), TransportAction::Parse));
    lab.parsed(b"ignored");
    assert!(matches!(
        &lab.effects[..],
        [TransportEffect::Replay(ReplayEffect::FinishShell(3))]
    ));
    assert!(matches!(lab.handle.status().phase, TransportPhase::Exited));
    // The loss of a recorder finishes nothing.
    let mut lab = Lab::live();
    lab.step(TransportEvent::Proceed);
    request(lab.step(TransportEvent::Received(None)));
    let mut lost = page(3, b"so far");
    lost.terminal_output.as_mut().unwrap().recorder_connected = false;
    assert!(matches!(lab.respond(lost), TransportAction::Parse));
    lab.parsed(b"");
    assert!(lab.effects.is_empty());
    assert!(matches!(lab.handle.status().phase, TransportPhase::Failed(_)));
}

#[test]
fn replies_to_live_output_are_written() {
    let mut lab = Lab::live();
    lab.step(TransportEvent::Proceed);
    request(lab.step(TransportEvent::Received(None)));
    assert!(matches!(lab.respond(page(3, b"\x1b[c")), TransportAction::Parse));
    let reply = request(lab.parsed(b"\x1b[?1c"));
    assert_eq!((reply.operation, &reply.input[..]), (2, &b"\x1b[?1c"[..]));
    assert!(matches!(lab.respond(response()), TransportAction::Again));
}

#[test]
fn a_detached_transport_stops() {
    let mut lab = Lab::live();
    on_view_detached(&mut lab.handle, DetachType::Moved);
    assert!(lab.handle.accepts_input());
    on_view_detached(&mut lab.handle, DetachType::HiddenForClose);
    assert!(lab.handle.paused());
    on_view_detached(&mut lab.handle, DetachType::Closed);
    assert!(matches!(lab.step(TransportEvent::Proceed), TransportAction::Stop));
}

#[test]
fn attached_terminals_have_a_session_and_a_shell() {
    assert_eq!(attached_session(&"a".repeat(32), ShellType::Zsh).unwrap().1, "zsh");
    assert_eq!(
        attached_session(&"a".repeat(32), ShellType::Zsh).unwrap().0,
        0xaaaa_aaaa_aaaa_aaaa
    );
    assert_eq!(
        attached_session("a", ShellType::Zsh).unwrap_err().message,
        "Invalid workspace incarnation"
    );
    assert!(attached_session(&"a".repeat(32), ShellType::PowerShell).is_err());
}

// ---------------------------------------------------------------------------
// Connections
// ---------------------------------------------------------------------------

#[test]
fn persistent_reconnect_backoff_is_bounded_and_does_not_overflow() {
    let delays: Vec<_> = (1..=8).map(retry_delay).collect();
    assert_eq!(delays, [1, 2, 4, 8, 16, 30, 30, 30]);
    assert_eq!(retry_delay(u32::MAX), 30);
}

#[test]
fn persistent_reconnect_attempts_do_not_reuse_a_socket_path() {
    let mut owner = ConnectionOwner::new();
    owner.connect_as(1);
    let old_socket = owner.socket_path("/tmp/ew-ssh-x");
    assert_eq!(old_socket, "/tmp/ew-ssh-x/0000000000000001");
    owner.connect_as(2);
    assert_ne!(
        old_socket,
        owner.socket_path("/tmp/ew-ssh-x"),
        "Old SSH process cleanup must not unlink the replacement master's socket"
    );
}

#[test]
fn random_attempts_have_sessions_of_their_own() {
    let mut owner = ConnectionOwner::new();
    owner.connect();
    let first = owner.session_id();
    owner.connect();
    assert_ne!(first, owner.session_id());
}

#[test]
fn a_lost_connection_is_made_again_later_and_later() {
    let second = 1_000_000_000;
    let mut owner = ConnectionOwner::new();
    owner.connect_as(5);
    assert_eq!(
        owner.handle(OwnerEvent::MasterReady { session_id: 5 }, 0),
        OwnerAction::ConnectSession
    );
    assert_eq!(
        owner.handle(OwnerEvent::Connected { session_id: 5, has_client: true }, 0),
        OwnerAction::UseClient
    );
    assert!(matches!(owner.status(), ConnectionStatus::Connected));
    assert_eq!(
        owner.handle(OwnerEvent::Disconnected { session_id: 4 }, 0),
        OwnerAction::Nothing
    );
    assert_eq!(
        owner.handle(OwnerEvent::Tick { master_gone: false, client_gone: true }, 10 * second),
        OwnerAction::DropClient
    );
    assert!(matches!(owner.status(), ConnectionStatus::Reconnecting { attempt: 1, error }
        if error == "SSH connection was interrupted"));
    // Further failures count nothing while an attempt is due.
    assert_eq!(
        owner.handle(OwnerEvent::Disconnected { session_id: 5 }, 10 * second),
        OwnerAction::Nothing
    );
    let quiet = || OwnerEvent::Tick { master_gone: false, client_gone: false };
    assert_eq!(owner.handle(quiet(), 11 * second - 1), OwnerAction::Nothing);
    assert_eq!(owner.handle(quiet(), 11 * second), OwnerAction::Connect);
    owner.connect_as(6);
    let failed = |session_id, cancelled| OwnerEvent::Failed {
        session_id,
        error: "denied".into(),
        cancelled,
    };
    assert_eq!(owner.handle(failed(6, true), 0), OwnerAction::Nothing);
    assert_eq!(owner.handle(failed(6, false), 20 * second), OwnerAction::DropClient);
    assert!(matches!(owner.status(), ConnectionStatus::Reconnecting { attempt: 2, error }
        if error == "denied"));
    assert_eq!(owner.handle(quiet(), 22 * second - 1), OwnerAction::Nothing);
    assert_eq!(owner.handle(quiet(), 22 * second), OwnerAction::Connect);
    owner.connect_as(7);
    assert_eq!(
        owner.handle(OwnerEvent::Reconnected { session_id: 7 }, 0),
        OwnerAction::UseClient
    );
    assert_eq!(
        owner.handle(
            OwnerEvent::MasterFailed { session_id: 7, error: "exited".into() },
            30 * second
        ),
        OwnerAction::DropClient
    );
}

#[test]
fn replacing_a_client_begins_another_epoch() {
    let mut slot: ConnectionSlot<&str> = ConnectionSlot::new();
    assert_eq!(slot.snapshot(false), Connection { epoch: 0, connected: false });
    slot.replace(Some("client"));
    assert_eq!(slot.snapshot(false), Connection { epoch: 1, connected: true });
    assert_eq!(slot.snapshot(true), Connection { epoch: 1, connected: false });
    assert_eq!(slot.current(), Some(&"client"));
    slot.replace(None);
    assert_eq!(slot.snapshot(false), Connection { epoch: 2, connected: false });
}

#[test]
fn a_master_is_ready_failed_or_waited_for() {
    let tail = b" Permission denied\n".to_vec();
    let state = |exit: Option<&str>, answers| MasterState {
        exit: exit.map(str::to_owned),
        answers,
    };
    assert!(matches!(await_master(&state(Some("255"), true), &tail, 0, 10),
        MasterStep::Failed(error)
        if error.message == "SSH authentication/connection failed (255): Permission denied"));
    assert!(matches!(await_master(&state(None, true), &tail, 20, 10), MasterStep::Ready));
    assert!(matches!(await_master(&state(None, false), &tail, 9, 10), MasterStep::Wait(150)));
    assert!(matches!(await_master(&state(None, false), &tail, 10, 10),
        MasterStep::Failed(error)
        if error.message == "Timed out establishing a private SSH connection"));
    let mut tail = Vec::new();
    keep_tail(&mut tail, &vec![1; TAIL_BYTES]);
    keep_tail(&mut tail, &vec![2; 3]);
    assert_eq!(tail.len(), TAIL_BYTES);
    assert_eq!(tail[TAIL_BYTES - 4..], [1, 2, 2, 2]);
}

// ---------------------------------------------------------------------------
// The status
// ---------------------------------------------------------------------------

fn status(phase: TransportPhase) -> TransportStatus {
    TransportStatus { phase, ..TransportHandle::new().status() }
}

#[test]
fn healthy_workspace_has_only_a_compact_chip() {
    let status = status(TransportPhase::Live);
    for (running, label) in [(false, "Idle"), (true, "Running")] {
        let text = status_text(&status, &ConnectionStatus::Connected, running);
        assert_eq!(text.label, label);
        assert!(!text.show_details);
    }
}

#[test]
fn compact_chip_does_not_hide_input_or_storage_warnings() {
    let mut status = status(TransportPhase::Live);
    status.discarded_input = true;
    let text = status_text(&status, &ConnectionStatus::Connected, false);
    assert_eq!(text.label, "Input paused");
    assert!(text.show_details && text.acknowledge);
    status.discarded_input = false;
    status.history_storage_bytes = Some(1024 * 1024 * 1024);
    let text = status_text(&status, &ConnectionStatus::Connected, false);
    assert!(text.show_details);
    assert!(text.message.contains("GiB"));
}

#[test]
fn persistent_status_never_reports_a_disconnected_job_as_idle() {
    let text = status_text(
        &TransportHandle::new().status(),
        &ConnectionStatus::Reconnecting { attempt: 2, error: "Network unavailable".into() },
        false,
    );
    assert!(text.message.contains("Reconnecting"));
    assert!(!text.message.contains("Idle"));
    assert_eq!(
        text.message,
        "Reconnecting (attempt 2) | input paused | Network unavailable"
    );
}

#[test]
fn persistent_status_exposes_delivery_uncertainty_until_acknowledged() {
    let mut status = status(TransportPhase::Live);
    status.input_delivery_unknown = true;
    let text = status_text(&status, &ConnectionStatus::Connected, true);
    assert!(text.message.contains("Running"));
    assert!(text.message.contains("nothing was resent"));
    assert!(text.acknowledge);
}

#[test]
fn persistent_expired_history_does_not_offer_a_misleading_read_retry() {
    let status = status(TransportPhase::HistoryGap { earliest_cursor: 1048576 });
    let text = status_text(&status, &ConnectionStatus::Connected, true);
    assert!(text.message.contains("1048576"));
    assert!(text.message.contains("job was not terminated"));
    assert!(!text.retry);
    assert!(!text.acknowledge);
    assert!(text.recover);
}

#[test]
fn every_phase_has_its_label_and_its_message() {
    for (phase, connection, label, message) in [
        (
            TransportPhase::Replaying,
            ConnectionStatus::Connected,
            "Restoring",
            "Restoring remote output | input paused",
        ),
        (
            TransportPhase::Exited,
            ConnectionStatus::Connected,
            "Exited",
            "Shell exited | retained output",
        ),
        (
            TransportPhase::Removed,
            ConnectionStatus::Connected,
            "Removed",
            "Workspace was removed or replaced | no new job was created",
        ),
        (
            TransportPhase::Failed("x".into()),
            ConnectionStatus::Connected,
            "Paused",
            "Workspace paused: x",
        ),
        (
            TransportPhase::Disconnected,
            ConnectionStatus::Connecting,
            "Connecting",
            "Connecting | remote job is independent of this tab",
        ),
        (
            TransportPhase::Disconnected,
            ConnectionStatus::Connected,
            "Attaching",
            "Attaching to remote workspace",
        ),
    ] {
        let text = status_text(&status(phase), &connection, false);
        assert_eq!(text.label, label);
        assert_eq!(text.message, message);
        assert!(text.show_details);
    }
    assert_eq!(in_units(5 * GIB / 4, GIB), "1.2");
    assert_eq!(in_units(7 * GIB / 4, GIB), "1.8");
}

#[test]
fn the_view_offers_what_the_status_allows() {
    let failed = status_text(
        &status(TransportPhase::Failed("x".into())),
        &ConnectionStatus::Connected,
        false,
    );
    let rows = render(&workspace_label("0123456789"), &failed);
    assert_eq!(rows.len(), 5);
    assert!(matches!(&rows[0], StatusRow::Chip(text) if text == "tmux 01234567 | Paused"));
    assert!(matches!(&rows[1], StatusRow::Text(text) if text == "Workspace paused: x"));
    assert!(matches!(
        rows[2],
        StatusRow::Button("Retry output (never resends input)", Action::RetryOutput)
    ));
    assert!(matches!(
        rows[4],
        StatusRow::Button("Open live recovery terminal", Action::OpenRecovery)
    ));
    let live = status_text(&status(TransportPhase::Live), &ConnectionStatus::Connected, false);
    assert_eq!(render("short", &live).len(), 1);
    let mut handle = TransportHandle::new();
    handle.doubt_input();
    assert_eq!(
        handle_action(&failed, Action::OpenRecovery, &mut handle),
        StatusCommand::OpenRecovery
    );
    assert_eq!(
        handle_action(&live, Action::OpenRecovery, &mut handle),
        StatusCommand::Nothing
    );
    assert_eq!(
        handle_action(&live, Action::OpenWorkspaces, &mut handle),
        StatusCommand::OpenPicker
    );
    handle_action(&live, Action::RetryOutput, &mut handle);
    assert!(handle.retry_requested() && handle.status().input_delivery_unknown);
    assert_eq!(
        handle_action(&live, Action::AcknowledgeInput, &mut handle),
        StatusCommand::Refresh
    );
    assert!(!handle.status().input_delivery_unknown);
}

#[test]
fn sizes_are_rounded_as_floating_point_is() {
    let mut n: u64 = 1;
    for _ in 0..2000 {
        n = n.wrapping_mul(6_364_136_223_846_793_005).wrapping_add(1_442_695_040_888_963_407);
        for bytes in [n, n >> 7, n >> 11, n >> 20, n >> 33] {
            assert_eq!(in_units(bytes, GIB), format!("{:.1}", bytes as f64 / GIB as f64));
            let mib = 1024 * 1024;
            assert_eq!(in_units(bytes, mib), format!("{:.1}", bytes as f64 / mib as f64));
        }
    }
    assert_eq!(in_units(u64::MAX, GIB), "17179869184.0");
    assert_eq!(in_units(0, GIB), "0.0");
}
