use persistent_workspaces::native_replay::{NativeReplay, ReplayEffect};
use persistent_workspaces::proto::PersistentTerminalOutput;
use persistent_workspaces::replay::{Epochs, ReplayError, ReplayPhase, ReplayState};

fn page(start: u64, bytes: &[u8], end: u64) -> PersistentTerminalOutput {
    PersistentTerminalOutput {
        start_cursor: start,
        next_cursor: start + bytes.len() as u64,
        high_watermark: end,
        output: bytes.into(),
        recorder_connected: true,
        ..Default::default()
    }
}

#[test]
fn cursor_is_committed_only_after_terminal_model_consumes_bytes() {
    let mut epochs = Epochs::new();
    let mut state = ReplayState::new(0, &mut epochs);
    state.connected(&mut epochs);
    let ticket = state.read_ticket().unwrap();
    let batch = state.prepare(ticket, page(0, b"abc", 3)).unwrap();
    assert_eq!(state.cursor(), 0);
    assert!(!state.can_send_input());
    assert_eq!(batch.historical_bytes, 3);
    state.commit(batch).unwrap();
    assert_eq!(state.cursor(), 3);
    assert!(state.can_send_input());
    assert_eq!(
        state.prepare(ticket, page(0, b"abc", 3)).unwrap_err(),
        ReplayError::StaleResponse
    );
}

#[test]
fn catch_up_boundary_is_fixed_even_as_new_output_arrives() {
    let mut epochs = Epochs::new();
    let mut state = ReplayState::new(0, &mut epochs);
    state.connected(&mut epochs);
    let ticket = state.read_ticket().unwrap();
    let first = state.prepare(ticket, page(0, b"abc", 5)).unwrap();
    state.commit(first).unwrap();
    assert_eq!(state.phase(), ReplayPhase::Replaying);
    let ticket = state.read_ticket().unwrap();
    let second = state.prepare(ticket, page(3, b"deLIVE", 9)).unwrap();
    assert_eq!(second.historical_bytes, 2);
    state.commit(second).unwrap();
    assert_eq!(state.phase(), ReplayPhase::Live);
}

#[test]
fn reconnect_discards_late_responses_and_never_retries_uncertain_input() {
    let mut epochs = Epochs::new();
    let mut state = ReplayState::new(0, &mut epochs);
    state.connected(&mut epochs);
    let old = state.read_ticket().unwrap();
    state.disconnected(true, &mut epochs);
    state.connected(&mut epochs);
    assert_eq!(
        state.prepare(old, page(0, b"old", 3)).unwrap_err(),
        ReplayError::StaleResponse
    );
    let ticket = state.read_ticket().unwrap();
    let batch = state.prepare(ticket, page(0, b"new", 3)).unwrap();
    state.commit(batch).unwrap();
    assert!(!state.can_send_input());
    assert!(state.input_delivery_unknown());
    state.acknowledge_input_uncertainty();
    assert!(state.can_send_input());
}

#[test]
fn switching_to_another_view_rejects_the_previous_views_response() {
    let mut epochs = Epochs::new();
    let mut first = ReplayState::new(0, &mut epochs);
    let mut second = ReplayState::new(0, &mut epochs);
    first.connected(&mut epochs);
    second.connected(&mut epochs);
    assert_eq!(
        second
            .prepare(first.read_ticket().unwrap(), page(0, b"first", 5))
            .unwrap_err(),
        ReplayError::StaleResponse
    );
}

#[test]
fn malformed_and_gapped_output_do_not_advance_the_model_cursor() {
    let mut epochs = Epochs::new();
    let mut state = ReplayState::new(0, &mut epochs);
    state.connected(&mut epochs);
    let ticket = state.read_ticket().unwrap();
    assert_eq!(
        state.prepare(ticket, page(1, b"bad", 4)).unwrap_err(),
        ReplayError::InvalidPage
    );
    let mut gap = page(10, b"remaining", 19);
    gap.earliest_cursor = 10;
    gap.history_gap = true;
    assert_eq!(
        state.prepare(ticket, gap).unwrap_err(),
        ReplayError::HistoryGap { earliest_cursor: 10 }
    );
    assert_eq!(state.cursor(), 0);
    assert!(!state.can_send_input());
    state.reset_after_reported_gap(&mut epochs).unwrap();
    assert_eq!(state.cursor(), 10);
    assert_eq!(
        state.prepare(ticket, page(0, b"stale", 5)).unwrap_err(),
        ReplayError::StaleResponse
    );
}

#[test]
fn missing_recorder_and_eof_are_not_a_live_shell() {
    for closed in [false, true] {
        let mut epochs = Epochs::new();
        let mut state = ReplayState::new(0, &mut epochs);
        state.connected(&mut epochs);
        let mut output = page(0, b"final", 5);
        output.recorder_connected = false;
        output.closed = closed;
        let ticket = state.read_ticket().unwrap();
        let batch = state.prepare(ticket, output).unwrap();
        state.commit(batch).unwrap();
        assert_eq!(
            state.phase(),
            if closed {
                ReplayPhase::Closed
            } else {
                ReplayPhase::Disconnected
            }
        );
        assert!(!state.can_send_input());
    }
}

#[test]
fn a_gap_is_acknowledged_only_where_one_was_reported() {
    let mut epochs = Epochs::new();
    let mut state = ReplayState::new(4, &mut epochs);
    assert_eq!(state.read_ticket(), Err(ReplayError::NotConnected));
    assert_eq!(
        state.reset_after_reported_gap(&mut epochs),
        Err(ReplayError::InvalidPage)
    );
    assert_eq!(state.cursor(), 4);
}

#[test]
fn pages_that_do_not_answer_the_read_are_refused() {
    let good = || page(5, b"abc", 8);
    let mut wrong = Vec::new();
    for change in 0..6 {
        let mut page = good();
        match change {
            0 => page.next_cursor = 9,
            1 => page.high_watermark = 7,
            2 => page.earliest_cursor = 6,
            3 => page.output = b"ab".to_vec(),
            4 => page.history_gap = true,
            _ => {
                page.start_cursor = 4;
                page.next_cursor = 7;
            }
        }
        wrong.push(page);
    }
    let mut large = page(5, &vec![0; 256 * 1024 + 1], 5 + 256 * 1024 + 1);
    large.closed = false;
    wrong.push(large);
    for page in wrong {
        let mut epochs = Epochs::new();
        let mut state = ReplayState::new(5, &mut epochs);
        state.connected(&mut epochs);
        let ticket = state.read_ticket().unwrap();
        assert_eq!(state.prepare(ticket, page).unwrap_err(), ReplayError::InvalidPage);
    }
    let mut epochs = Epochs::new();
    let mut state = ReplayState::new(5, &mut epochs);
    state.connected(&mut epochs);
    let ticket = state.read_ticket().unwrap();
    assert!(state.prepare(ticket, good()).is_ok());
    // A ticket of an earlier phase is refused after the connection has ended.
    state.disconnected(false, &mut epochs);
    assert_eq!(state.prepare(ticket, good()).unwrap_err(), ReplayError::StaleResponse);
}

fn adapter() -> (NativeReplay, Epochs) {
    let mut epochs = Epochs::new();
    let replay = NativeReplay::new(&mut epochs);
    (replay, epochs)
}

fn whole(start: u64, bytes: &[u8]) -> PersistentTerminalOutput {
    page(start, bytes, start + bytes.len() as u64)
}

#[test]
fn persistent_replay_suppresses_historical_queries_but_answers_live_queries() {
    let (mut replay, mut epochs) = adapter();
    replay.connected(&mut epochs);
    let query = b"\x1b[c";
    let effects = replay.apply(replay.read_ticket().unwrap(), whole(0, query)).unwrap();
    assert!(matches!(
        &effects[..],
        [
            ReplayEffect::Replaying(true),
            ReplayEffect::ParseHistory(bytes),
            ReplayEffect::Replaying(false),
            ReplayEffect::Wakeup,
        ] if bytes == query
    ));
    assert_eq!(replay.phase(), ReplayPhase::Live);
    let effects = replay
        .apply(replay.read_ticket().unwrap(), whole(query.len() as u64, query))
        .unwrap();
    assert!(
        matches!(&effects[..], [ReplayEffect::ParseLive(bytes), ReplayEffect::Wakeup]
            if bytes == query),
        "Live terminal queries must still be answered"
    );
}

#[test]
fn persistent_replay_rejects_a_previous_connection_before_mutating_the_model() {
    let (mut replay, mut epochs) = adapter();
    replay.connected(&mut epochs);
    let old = replay.read_ticket().unwrap();
    assert!(replay.disconnected(false, &mut epochs).is_empty());
    replay.connected(&mut epochs);
    assert_eq!(
        replay.apply(old, whole(0, b"stale output")).unwrap_err(),
        ReplayError::StaleResponse
    );
    assert_eq!(replay.cursor(), 0);
}

#[test]
fn persistent_replay_does_not_advance_past_a_retention_gap() {
    let (mut replay, mut epochs) = adapter();
    replay.connected(&mut epochs);
    let mut retained = whole(10, b"retained");
    retained.earliest_cursor = 10;
    retained.history_gap = true;
    assert_eq!(
        replay.apply(replay.read_ticket().unwrap(), retained).unwrap_err(),
        ReplayError::HistoryGap { earliest_cursor: 10 }
    );
    assert_eq!(replay.cursor(), 0);
    assert!(!replay.can_send_input());
}

#[test]
fn a_page_across_the_boundary_is_parsed_in_two_parts() {
    let (mut replay, mut epochs) = adapter();
    replay.connected(&mut epochs);
    let effects = replay.apply(replay.read_ticket().unwrap(), page(0, b"ab", 3)).unwrap();
    assert!(matches!(
        &effects[..],
        [ReplayEffect::Replaying(true), ReplayEffect::ParseHistory(_), ReplayEffect::Wakeup]
    ));
    let effects = replay.apply(replay.read_ticket().unwrap(), page(2, b"cLIVE", 7)).unwrap();
    assert!(matches!(
        &effects[..],
        [
            ReplayEffect::ParseHistory(history),
            ReplayEffect::Replaying(false),
            ReplayEffect::ParseLive(live),
            ReplayEffect::Wakeup,
        ] if history == b"c" && live == b"LIVE"
    ));
    assert_eq!(replay.cursor(), 7);
    // A connection that ends while history is replayed ends the replay.
    replay.connected(&mut epochs);
    replay.apply(replay.read_ticket().unwrap(), page(7, b"x", 9)).unwrap();
    assert!(matches!(
        &replay.disconnected(true, &mut epochs)[..],
        [ReplayEffect::Replaying(false)]
    ));
    assert!(!replay.can_send_input());
}

#[test]
fn a_shell_is_finished_with_a_known_exit_code_only() {
    let (replay, _) = adapter();
    assert!(replay.finish_shell(None).is_empty());
    assert!(matches!(&replay.finish_shell(Some(7))[..], [ReplayEffect::FinishShell(7)]));
    assert!(replay.shell_ready(true, Some(3), 3));
    assert!(!replay.shell_ready(true, Some(4), 3));
    assert!(!replay.shell_ready(true, None, 3));
    assert!(!replay.shell_ready(false, Some(3), 3));
}

#[test]
fn a_run_consumes_the_journal_once_and_in_order() {
    let journal: Vec<u8> = (0..40u8).collect();
    let mut epochs = Epochs::new();
    let mut state = ReplayState::new(5, &mut epochs);
    let mut stranger = ReplayState::new(5, &mut epochs);
    stranger.connected(&mut epochs);
    let mut consumed = Vec::new();
    let part = |start: u64, end: u64| page(start, &journal[start as usize..end as usize], 40);
    for (round, length) in [3u64, 7, 1, 9].into_iter().enumerate() {
        state.connected(&mut epochs);
        let ticket = state.read_ticket().unwrap();
        let at = ticket.cursor;
        let first = state.prepare(ticket, part(at, at + length)).unwrap();
        let again = state.prepare(ticket, part(at, at + length)).unwrap();
        if round % 2 == 0 {
            // The batch comes too late for its connection.
            state.disconnected(false, &mut epochs);
            state.connected(&mut epochs);
            assert_eq!(state.commit(first).unwrap_err(), ReplayError::StaleResponse);
            assert_eq!(state.cursor(), at);
            continue;
        }
        consumed.extend_from_slice(&first.bytes);
        state.commit(first).unwrap();
        assert_eq!(state.commit(again).unwrap_err(), ReplayError::StaleResponse);
        let ticket = stranger.read_ticket().unwrap();
        let other = stranger.prepare(ticket, page(5, b"foreign", 12)).unwrap();
        assert_eq!(state.commit(other).unwrap_err(), ReplayError::StaleResponse);
    }
    assert_eq!(state.cursor(), 21);
    assert_eq!(consumed, journal[5..21]);
}
