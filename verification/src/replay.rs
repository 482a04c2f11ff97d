//! Client-side replay cursor.
//!
//! Reading output never advances the cursor. Only committing bytes after the
//! terminal model consumed them does. Connection epochs reject late responses
//! from an old connection or a workspace that was selected before.

use crate::host::outcome;
use crate::journal::reader::{page_end, page_start};
use crate::journal::reading_laws::page_of_history;
use crate::journal::{Manifest, OutputPageView, MAX_PAGE_BYTES};
use crate::proto::{PersistentTerminalOutput, PersistentTerminalOutputView};
use vstd::prelude::*;

pub mod laws;

verus! {

#[derive(Clone, Copy, PartialEq, Eq, Structural, Debug)]
pub enum ReplayPhase {
    Disconnected,
    Replaying,
    Live,
    Closed,
    HistoryGap { earliest_cursor: u64 },
}

/// The mark of a connection's epoch, which only a replay state makes.
#[derive(Clone, Copy, PartialEq, Eq, Structural, Debug)]
pub struct Stamp {
    epoch: u64,
}

impl DeepView for Stamp {
    type V = u64;

    closed spec fn deep_view(&self) -> u64 {
        self.epoch
    }
}

/// The right to hand in one response: to the read of a certain cursor on a
/// certain connection.
#[derive(Clone, Copy, PartialEq, Eq, Structural, Debug)]
pub struct ReadTicket {
    pub stamp: Stamp,
    pub cursor: u64,
}

#[derive(Clone, Copy)]
#[verifier::ext_equal]
pub struct TicketView {
    pub epoch: u64,
    pub cursor: u64,
}

impl DeepView for ReadTicket {
    type V = TicketView;

    open spec fn deep_view(&self) -> TicketView {
        TicketView { epoch: self.stamp.deep_view(), cursor: self.cursor }
    }
}

#[derive(Clone, Copy, PartialEq, Eq, Structural, Debug)]
pub enum ReplayError {
    StaleResponse,
    InvalidPage,
    HistoryGap { earliest_cursor: u64 },
    NotConnected,
}

impl DeepView for ReplayError {
    type V = ReplayError;

    open spec fn deep_view(&self) -> ReplayError {
        *self
    }
}

/// What a page told besides its bytes, as a replay state accepted it.
#[derive(Debug)]
pub struct Acceptance {
    ticket: ReadTicket,
    next_cursor: u64,
    high_watermark: u64,
    closed: bool,
    recorder_connected: bool,
}

#[verifier::ext_equal]
pub struct AcceptanceView {
    pub ticket: TicketView,
    pub next_cursor: u64,
    pub high_watermark: u64,
    pub closed: bool,
    pub recorder_connected: bool,
}

impl DeepView for Acceptance {
    type V = AcceptanceView;

    closed spec fn deep_view(&self) -> AcceptanceView {
        AcceptanceView {
            ticket: self.ticket.deep_view(),
            next_cursor: self.next_cursor,
            high_watermark: self.high_watermark,
            closed: self.closed,
            recorder_connected: self.recorder_connected,
        }
    }
}

/// Output that was accepted but not consumed. `bytes[..historical_bytes]` must be
/// parsed with automatic shell bootstrap and terminal-query replies disabled. The
/// rest is live output.
#[derive(Debug)]
pub struct PreparedOutput {
    pub bytes: Vec<u8>,
    pub historical_bytes: usize,
    pub acceptance: Acceptance,
}

#[verifier::ext_equal]
pub struct PreparedView {
    pub bytes: Seq<u8>,
    pub historical_bytes: usize,
    pub ticket: TicketView,
    pub next_cursor: u64,
    pub high_watermark: u64,
    pub closed: bool,
    pub recorder_connected: bool,
}

impl DeepView for PreparedOutput {
    type V = PreparedView;

    open spec fn deep_view(&self) -> PreparedView {
        let acceptance = self.acceptance.deep_view();
        PreparedView {
            bytes: self.bytes@,
            historical_bytes: self.historical_bytes,
            ticket: acceptance.ticket,
            next_cursor: acceptance.next_cursor,
            high_watermark: acceptance.high_watermark,
            closed: acceptance.closed,
            recorder_connected: acceptance.recorder_connected,
        }
    }
}

/// Where connection epochs come from: each is given once. All states of a process share
/// one, so that no ticket or batch of one state is ever good for another one.
#[derive(Debug)]
pub struct Epochs {
    next: u64,
}

impl Epochs {
    /// The epoch that is given next.
    pub closed spec fn upcoming(&self) -> u64 {
        self.next
    }

    pub fn new() -> (epochs: Epochs)
        ensures
            epochs.upcoming() == 1,
    {
        Epochs { next: 1 }
    }

    /// The next epoch; after all numbers were given they begin anew.
    pub fn fresh(&mut self) -> (epoch: u64)
        ensures
            epoch == old(self).upcoming(),
            final(self).upcoming() == following(old(self).upcoming()),
    {
        let epoch = self.next;
        self.next = self.next.wrapping_add(1);
        epoch
    }
}

pub open spec fn following(epoch: u64) -> u64 {
    if epoch == u64::MAX {
        0
    } else {
        (epoch + 1) as u64
    }
}

/// How far a terminal model has consumed a workspace's output.
#[derive(Debug)]
pub struct ReplayState {
    epoch: u64,
    cursor: u64,
    phase: ReplayPhase,
    replay_until: Option<u64>,
    input_delivery_unknown: bool,
}

/// The model of a replay state. What lies before `replay_until` is history.
#[verifier::ext_equal]
pub struct ReplayView {
    pub epoch: u64,
    pub cursor: u64,
    pub phase: ReplayPhase,
    pub replay_until: Option<u64>,
    pub input_delivery_unknown: bool,
}

impl DeepView for ReplayState {
    type V = ReplayView;

    closed spec fn deep_view(&self) -> ReplayView {
        ReplayView {
            epoch: self.epoch,
            cursor: self.cursor,
            phase: self.phase,
            replay_until: self.replay_until,
            input_delivery_unknown: self.input_delivery_unknown,
        }
    }
}

pub open spec fn reading(phase: ReplayPhase) -> bool {
    phase is Replaying || phase is Live
}

/// The ticket that a state gives out.
pub open spec fn ticket_for(state: ReplayView) -> TicketView {
    TicketView { epoch: state.epoch, cursor: state.cursor }
}

/// What is wrong with a ticket, if anything.
pub open spec fn ticket_error(state: ReplayView, ticket: TicketView) -> Option<ReplayError> {
    if ticket.epoch != state.epoch || ticket.cursor != state.cursor {
        Some(ReplayError::StaleResponse)
    } else if !reading(state.phase) {
        Some(ReplayError::NotConnected)
    } else {
        None
    }
}

/// A page that answers the read of this cursor.
pub open spec fn page_answers(page: PersistentTerminalOutputView, cursor: u64) -> bool {
    &&& page.start_cursor <= page.next_cursor <= page.high_watermark
    &&& page.earliest_cursor <= page.start_cursor
    &&& page.output.len() <= MAX_PAGE_BYTES
    &&& page.next_cursor - page.start_cursor == page.output.len()
    &&& page.start_cursor == (if cursor < page.earliest_cursor {
        page.earliest_cursor
    } else {
        cursor
    })
    &&& page.history_gap == (cursor < page.earliest_cursor)
}

/// Where history ends and live output begins.
pub open spec fn boundary(state: ReplayView, page: PersistentTerminalOutputView) -> u64 {
    match state.replay_until {
        Some(until) => until,
        None => page.high_watermark,
    }
}

/// How many of a page's bytes are history.
pub open spec fn historical(until: u64, start: u64, length: nat) -> nat {
    if until <= start {
        0
    } else if until - start < length {
        (until - start) as nat
    } else {
        length
    }
}

/// Accepts a page for a ticket, without moving the cursor.
pub open spec fn prepared(
    state: ReplayView,
    ticket: TicketView,
    page: PersistentTerminalOutputView,
) -> (ReplayView, Result<PreparedView, ReplayError>) {
    match ticket_error(state, ticket) {
        Some(error) => (state, Err(error)),
        None => if !page_answers(page, ticket.cursor) {
            (state, Err(ReplayError::InvalidPage))
        } else if page.history_gap {
            (
                ReplayView {
                    phase: ReplayPhase::HistoryGap { earliest_cursor: page.earliest_cursor },
                    ..state
                },
                Err(ReplayError::HistoryGap { earliest_cursor: page.earliest_cursor }),
            )
        } else {
            (
                ReplayView { replay_until: Some(boundary(state, page)), ..state },
                Ok(
                    PreparedView {
                        bytes: page.output,
                        historical_bytes: historical(
                            boundary(state, page),
                            page.start_cursor,
                            page.output.len(),
                        ) as usize,
                        ticket,
                        next_cursor: page.next_cursor,
                        high_watermark: page.high_watermark,
                        closed: page.closed,
                        recorder_connected: page.recorder_connected,
                    },
                ),
            )
        },
    }
}

/// The phase after a batch was consumed.
pub open spec fn phase_after(state: ReplayView, batch: PreparedView) -> ReplayPhase {
    let until = match state.replay_until {
        Some(until) => until,
        None => batch.high_watermark,
    };
    if batch.closed && batch.next_cursor == batch.high_watermark {
        ReplayPhase::Closed
    } else if !batch.recorder_connected && !batch.closed {
        ReplayPhase::Disconnected
    } else if batch.next_cursor < until {
        ReplayPhase::Replaying
    } else {
        ReplayPhase::Live
    }
}

/// Moves the cursor behind a batch that was consumed.
pub open spec fn committed(state: ReplayView, batch: PreparedView) -> (
    ReplayView,
    Result<(), ReplayError>,
) {
    match ticket_error(state, batch.ticket) {
        Some(error) => (state, Err(error)),
        None => (
            ReplayView {
                cursor: batch.next_cursor,
                phase: phase_after(state, batch),
                ..state
            },
            Ok(()),
        ),
    }
}

/// The state at the start of a connection.
pub open spec fn reconnected(state: ReplayView, epoch: u64) -> ReplayView {
    ReplayView { epoch, phase: ReplayPhase::Replaying, replay_until: None, ..state }
}

/// The state at the end of a connection.
pub open spec fn severed(state: ReplayView, input_in_flight: bool, epoch: u64) -> ReplayView {
    ReplayView {
        epoch,
        phase: ReplayPhase::Disconnected,
        input_delivery_unknown: state.input_delivery_unknown || input_in_flight,
        ..state
    }
}

impl ReplayState {
    /// A nonzero cursor is valid only alongside the exact terminal-model state
    /// that was kept at that cursor. A model that is rebuilt starts at zero.
    pub fn new(model_cursor: u64, epochs: &mut Epochs) -> (state: Self)
        ensures
            state.deep_view() == (ReplayView {
                epoch: old(epochs).upcoming(),
                cursor: model_cursor,
                phase: ReplayPhase::Disconnected,
                replay_until: None,
                input_delivery_unknown: false,
            }),
            final(epochs).upcoming() == following(old(epochs).upcoming()),
    {
        ReplayState {
            epoch: epochs.fresh(),
            cursor: model_cursor,
            phase: ReplayPhase::Disconnected,
            replay_until: None,
            input_delivery_unknown: false,
        }
    }

    /// Starts a connection: history is replayed up to what is there at its start.
    pub fn connected(&mut self, epochs: &mut Epochs)
        ensures
            final(self).deep_view() == reconnected(
                old(self).deep_view(),
                old(epochs).upcoming(),
            ),
            final(epochs).upcoming() == following(old(epochs).upcoming()),
    {
        self.epoch = epochs.fresh();
        self.phase = ReplayPhase::Replaying;
        self.replay_until = None;
    }

    /// Ends a connection. Input that was on its way may have been delivered or not.
    pub fn disconnected(&mut self, input_in_flight: bool, epochs: &mut Epochs)
        ensures
            final(self).deep_view() == severed(
                old(self).deep_view(),
                input_in_flight,
                old(epochs).upcoming(),
            ),
            final(epochs).upcoming() == following(old(epochs).upcoming()),
    {
        self.epoch = epochs.fresh();
        self.phase = ReplayPhase::Disconnected;
        self.input_delivery_unknown = self.input_delivery_unknown || input_in_flight;
    }

    pub fn cursor(&self) -> (cursor: u64)
        ensures
            cursor == self.deep_view().cursor,
    {
        self.cursor
    }

    pub fn phase(&self) -> (phase: ReplayPhase)
        ensures
            phase == self.deep_view().phase,
    {
        self.phase
    }

    pub fn input_delivery_unknown(&self) -> (unknown: bool)
        ensures
            unknown == self.deep_view().input_delivery_unknown,
    {
        self.input_delivery_unknown
    }

    pub fn acknowledge_input_uncertainty(&mut self)
        ensures
            final(self).deep_view() == (ReplayView {
                input_delivery_unknown: false,
                ..old(self).deep_view()
            }),
    {
        self.input_delivery_unknown = false;
    }

    /// Input is sent only to a live shell, and never while it is unknown whether
    /// earlier input was delivered.
    pub fn can_send_input(&self) -> (r: bool)
        ensures
            r == (self.deep_view().phase is Live && !self.deep_view().input_delivery_unknown),
    {
        self.phase == ReplayPhase::Live && !self.input_delivery_unknown
    }

    /// The right to hand in the response to a read of the current cursor.
    pub fn read_ticket(&self) -> (r: Result<ReadTicket, ReplayError>)
        ensures
            match r {
                Ok(ticket) => {
                    &&& reading(self.deep_view().phase)
                    &&& ticket.deep_view() == ticket_for(self.deep_view())
                },
                Err(error) => !reading(self.deep_view().phase) && error
                    == ReplayError::NotConnected,
            },
    {
        match self.phase {
            ReplayPhase::Replaying | ReplayPhase::Live => Ok(
                ReadTicket { stamp: Stamp { epoch: self.epoch }, cursor: self.cursor },
            ),
            _ => Err(ReplayError::NotConnected),
        }
    }

    /// Accepts a page of output for a ticket. The cursor does not move.
    pub fn prepare(&mut self, ticket: ReadTicket, output: PersistentTerminalOutput) -> (r: Result<
        PreparedOutput,
        ReplayError,
    >)
        ensures
            (final(self).deep_view(), outcome(r)) == prepared(
                old(self).deep_view(),
                ticket.deep_view(),
                output.deep_view(),
            ),
    {
        self.check(ticket)?;
        let expected: u64 = if ticket.cursor < output.earliest_cursor {
            output.earliest_cursor
        } else {
            ticket.cursor
        };
        if output.start_cursor > output.next_cursor || output.next_cursor > output.high_watermark
            || output.earliest_cursor > output.start_cursor || output.output.len() > MAX_PAGE_BYTES
            || output.next_cursor - output.start_cursor != output.output.len() as u64
            || output.start_cursor != expected || output.history_gap != (ticket.cursor
            < output.earliest_cursor) {
            return Err(ReplayError::InvalidPage);
        }
        if output.history_gap {
            self.phase = ReplayPhase::HistoryGap { earliest_cursor: output.earliest_cursor };
            return Err(ReplayError::HistoryGap { earliest_cursor: output.earliest_cursor });
        }
        let until: u64 = match self.replay_until {
            Some(until) => until,
            None => output.high_watermark,
        };
        self.replay_until = Some(until);
        let length: u64 = output.output.len() as u64;
        let historical_bytes: usize = if until <= output.start_cursor {
            0
        } else if until - output.start_cursor < length {
            (until - output.start_cursor) as usize
        } else {
            length as usize
        };
        Ok(
            PreparedOutput {
                bytes: output.output,
                historical_bytes,
                acceptance: Acceptance {
                    ticket,
                    next_cursor: output.next_cursor,
                    high_watermark: output.high_watermark,
                    closed: output.closed,
                    recorder_connected: output.recorder_connected,
                },
            },
        )
    }

    /// Moves the cursor. Call only after the whole batch was parsed: a failed parse
    /// or a disposed view leaves the durable cursor untouched.
    pub fn commit(&mut self, output: PreparedOutput) -> (r: Result<(), ReplayError>)
        ensures
            (final(self).deep_view(), outcome(r)) == committed(
                old(self).deep_view(),
                output.deep_view(),
            ),
    {
        let accepted = output.acceptance;
        self.check(accepted.ticket)?;
        self.cursor = accepted.next_cursor;
        let until: u64 = match self.replay_until {
            Some(until) => until,
            None => accepted.high_watermark,
        };
        self.phase = if accepted.closed && self.cursor == accepted.high_watermark {
            ReplayPhase::Closed
        } else if !accepted.recorder_connected && !accepted.closed {
            ReplayPhase::Disconnected
        } else if self.cursor < until {
            ReplayPhase::Replaying
        } else {
            ReplayPhase::Live
        };
        Ok(())
    }

    /// Goes on with the bytes that are left. The caller must visibly report the gap
    /// and reset its model first: a gap is never silently acknowledged.
    pub fn reset_after_reported_gap(&mut self, epochs: &mut Epochs) -> (r: Result<(), ReplayError>)
        ensures
            match old(self).deep_view().phase {
                ReplayPhase::HistoryGap { earliest_cursor } => {
                    &&& r is Ok
                    &&& final(self).deep_view() == reconnected(
                        ReplayView { cursor: earliest_cursor, ..old(self).deep_view() },
                        old(epochs).upcoming(),
                    )
                    &&& final(epochs).upcoming() == following(old(epochs).upcoming())
                },
                _ => {
                    &&& r == Err::<(), ReplayError>(ReplayError::InvalidPage)
                    &&& final(self).deep_view() == old(self).deep_view()
                    &&& final(epochs).upcoming() == old(epochs).upcoming()
                },
            },
    {
        match self.phase {
            ReplayPhase::HistoryGap { earliest_cursor } => {
                self.cursor = earliest_cursor;
                self.connected(epochs);
                Ok(())
            },
            _ => Err(ReplayError::InvalidPage),
        }
    }

    fn check(&self, ticket: ReadTicket) -> (r: Result<(), ReplayError>)
        ensures
            match r {
                Ok(_) => ticket_error(self.deep_view(), ticket.deep_view()) is None,
                Err(error) => ticket_error(self.deep_view(), ticket.deep_view()) == Some(error),
            },
    {
        if ticket.stamp.epoch != self.epoch || ticket.cursor != self.cursor {
            return Err(ReplayError::StaleResponse);
        }
        match self.phase {
            ReplayPhase::Replaying | ReplayPhase::Live => Ok(()),
            _ => Err(ReplayError::NotConnected),
        }
    }
}

// ---------------------------------------------------------------------------
// Laws
// ---------------------------------------------------------------------------

/// A batch that was accepted begins at the cursor, and committing it moves the
/// cursor by exactly its bytes: no byte is consumed twice and none is left out.
pub proof fn commit_consumes_the_batch_once(
    state: ReplayView,
    ticket: TicketView,
    page: PersistentTerminalOutputView,
)
    requires
        prepared(state, ticket, page).1 is Ok,
    ensures
        ({
            let (ready, batch) = prepared(state, ticket, page);
            let (done, r) = committed(ready, batch->Ok_0);
            &&& ready.cursor == state.cursor
            &&& page.start_cursor == state.cursor
            &&& batch->Ok_0.bytes == page.output
            &&& r is Ok
            &&& done.cursor == state.cursor + page.output.len()
        }),
{
}

/// Neither a page that is refused nor one that is only prepared moves the cursor.
pub proof fn preparing_keeps_the_cursor(
    state: ReplayView,
    ticket: TicketView,
    page: PersistentTerminalOutputView,
)
    ensures
        prepared(state, ticket, page).0.cursor == state.cursor,
        prepared(state, ticket, page).0.epoch == state.epoch,
        prepared(state, ticket, page).0.input_delivery_unknown == state.input_delivery_unknown,
{
}

/// A ticket is good for one batch: after bytes were consumed it is stale.
pub proof fn ticket_is_used_up(
    state: ReplayView,
    ticket: TicketView,
    page: PersistentTerminalOutputView,
    again: PersistentTerminalOutputView,
)
    requires
        prepared(state, ticket, page).1 is Ok,
        page.output.len() > 0,
    ensures
        ({
            let (ready, batch) = prepared(state, ticket, page);
            let done = committed(ready, batch->Ok_0).0;
            prepared(done, ticket, again).1 == Err::<PreparedView, ReplayError>(
                ReplayError::StaleResponse,
            )
        }),
{
}

/// A response that belongs to another connection or to another view is stale,
/// for preparing and for committing.
pub proof fn other_epochs_are_stale(
    state: ReplayView,
    ticket: TicketView,
    page: PersistentTerminalOutputView,
    batch: PreparedView,
)
    requires
        ticket.epoch != state.epoch,
        batch.ticket == ticket,
    ensures
        prepared(state, ticket, page) == (
            state,
            Err::<PreparedView, ReplayError>(ReplayError::StaleResponse),
        ),
        committed(state, batch) == (state, Err::<(), ReplayError>(ReplayError::StaleResponse)),
{
}

/// The end of the history is fixed by the first page of a connection: a byte of
/// any accepted page is historical if and only if it lies before that end.
pub proof fn replay_boundary_is_fixed(
    state: ReplayView,
    ticket: TicketView,
    page: PersistentTerminalOutputView,
    position: int,
)
    requires
        prepared(state, ticket, page).1 is Ok,
        page.start_cursor <= position < page.next_cursor,
    ensures
        ({
            let (ready, batch) = prepared(state, ticket, page);
            let until = ready.replay_until->Some_0;
            &&& ready.replay_until is Some
            &&& state.replay_until is Some ==> state.replay_until == ready.replay_until
            &&& committed(ready, batch->Ok_0).0.replay_until == ready.replay_until
            &&& (position - page.start_cursor < batch->Ok_0.historical_bytes) == (position < until)
        }),
{
}

/// A shell whose recorder is lost, or whose output has ended, takes no input.
pub proof fn no_input_without_a_recorder(
    state: ReplayView,
    ticket: TicketView,
    page: PersistentTerminalOutputView,
)
    requires
        prepared(state, ticket, page).1 is Ok,
        !page.recorder_connected,
        page.next_cursor == page.high_watermark,
    ensures
        ({
            let (ready, batch) = prepared(state, ticket, page);
            !(committed(ready, batch->Ok_0).0.phase is Live)
        }),
{
}

/// The message for a page of a journal.
pub open spec fn message_of(
    page: OutputPageView,
    recorder_connected: bool,
) -> PersistentTerminalOutputView {
    PersistentTerminalOutputView {
        start_cursor: page.start_cursor,
        next_cursor: page.next_cursor,
        earliest_cursor: page.earliest_cursor,
        high_watermark: page.high_watermark,
        history_gap: page.history_gap,
        closed: page.closed,
        output: page.bytes,
        recorder_connected,
    }
}

/// A page that a journal gives for the cursor is never refused as malformed. It
/// either reports a gap, or it is consumed; then the cursor stands behind exactly
/// the recorded bytes that follow it.
pub proof fn journal_pages_are_consumed(
    state: ReplayView,
    ticket: TicketView,
    page: OutputPageView,
    m: Manifest,
    history: Seq<u8>,
    limit: usize,
    recorder_connected: bool,
)
    requires
        ticket_error(state, ticket) is None,
        page_of_history(page, m, history, ticket.cursor, limit),
        limit <= MAX_PAGE_BYTES,
    ensures
        ({
            let (ready, r) = prepared(state, ticket, message_of(page, recorder_connected));
            match r {
                Ok(batch) => {
                    let done = committed(ready, batch).0;
                    &&& batch.bytes == history.subrange(state.cursor as int, done.cursor as int)
                    &&& done.cursor == page.next_cursor
                },
                Err(error) => {
                    &&& page.history_gap
                    &&& error == ReplayError::HistoryGap { earliest_cursor: page.earliest_cursor }
                },
            }
        }),
{
    let start = page_start(m, ticket.cursor) as int;
    let end = page_end(m, ticket.cursor, limit);
    assert(page.bytes.len() == end - start);
}

/// An epoch that is given again after others differs from them, unless all
/// numbers were given in between.
pub proof fn epochs_differ(first: u64, count: nat)
    requires
        0 < count <= u64::MAX,
    ensures
        nth_epoch(first, count) != first,
{
    lemma_nth_epoch(first, count);
}

/// The epoch that is given `count` times after `first`.
pub open spec fn nth_epoch(first: u64, count: nat) -> u64
    decreases count,
{
    if count == 0 {
        first
    } else {
        following(nth_epoch(first, (count - 1) as nat))
    }
}

proof fn lemma_nth_epoch(first: u64, count: nat)
    requires
        count <= u64::MAX,
    ensures
        nth_epoch(first, count) == (if first + count <= u64::MAX {
            first + count
        } else {
            first + count - u64::MAX - 1
        }),
    decreases count,
{
    if count > 0 {
        lemma_nth_epoch(first, (count - 1) as nat);
    }
}

// ---------------------------------------------------------------------------
// Whole runs
// ---------------------------------------------------------------------------

/// What can happen to a replay state. A connection's start and its end bring an epoch.
pub enum ReplayStep {
    Connect(u64),
    Disconnect(bool, u64),
    Acknowledge,
    Prepare(TicketView, PersistentTerminalOutputView),
    Commit(PreparedView),
}

/// The state after a step.
pub open spec fn stepped(state: ReplayView, step: ReplayStep) -> ReplayView {
    match step {
        ReplayStep::Connect(epoch) => reconnected(state, epoch),
        ReplayStep::Disconnect(input_in_flight, epoch) => severed(state, input_in_flight, epoch),
        ReplayStep::Acknowledge => ReplayView { input_delivery_unknown: false, ..state },
        ReplayStep::Prepare(ticket, page) => prepared(state, ticket, page).0,
        ReplayStep::Commit(batch) => committed(state, batch).0,
    }
}

/// The state after all steps.
pub open spec fn run(state: ReplayView, steps: Seq<ReplayStep>) -> ReplayView
    decreases steps.len(),
{
    if steps.len() == 0 {
        state
    } else {
        stepped(run(state, steps.drop_last()), steps.last())
    }
}

/// The bytes of the batches that were committed successfully, in that order.
pub open spec fn consumed(state: ReplayView, steps: Seq<ReplayStep>) -> Seq<u8>
    decreases steps.len(),
{
    if steps.len() == 0 {
        Seq::empty()
    } else {
        let before = run(state, steps.drop_last());
        let so_far = consumed(state, steps.drop_last());
        match steps.last() {
            ReplayStep::Commit(batch) => if committed(before, batch).1 is Ok {
                so_far + batch.bytes
            } else {
                so_far
            },
            _ => so_far,
        }
    }
}

/// The epoch is one that the state has or had.
pub open spec fn own_epoch(state: ReplayView, steps: Seq<ReplayStep>, epoch: u64) -> bool {
    ||| epoch == state.epoch
    ||| exists|i: int|
        0 <= i < steps.len() && match #[trigger] steps[i] {
            ReplayStep::Connect(e) => e == epoch,
            ReplayStep::Disconnect(_, e) => e == epoch,
            _ => false,
        }
}

/// The page is a part of the journal.
pub open spec fn page_from(journal: Seq<u8>, page: PersistentTerminalOutputView) -> bool {
    page.start_cursor <= page.next_cursor ==> page.next_cursor <= journal.len() && page.output
        == journal.subrange(page.start_cursor as int, page.next_cursor as int)
}

/// The batch was prepared by one of the first `n` steps.
pub open spec fn prepared_before(
    state: ReplayView,
    steps: Seq<ReplayStep>,
    n: int,
    batch: PreparedView,
) -> bool {
    exists|i: int|
        0 <= i < n && (#[trigger] steps[i] matches ReplayStep::Prepare(ticket, page) && prepared(
            run(state, steps.take(i)),
            ticket,
            page,
        ).1 == Ok::<PreparedView, ReplayError>(batch))
}

/// Every page is a part of the journal, and every batch that is handed in was prepared
/// by this state before or belongs to another one, whose epochs are others.
pub open spec fn faithful_steps(
    state: ReplayView,
    steps: Seq<ReplayStep>,
    journal: Seq<u8>,
) -> bool {
    forall|n: int|
        0 <= n < steps.len() ==> match #[trigger] steps[n] {
            ReplayStep::Prepare(_, page) => page_from(journal, page),
            ReplayStep::Commit(batch) => prepared_before(state, steps, n, batch) || !own_epoch(
                state,
                steps,
                batch.ticket.epoch,
            ),
            _ => true,
        }
}

/// A commit that fails changes nothing.
pub proof fn failed_commits_change_nothing(state: ReplayView, batch: PreparedView)
    ensures
        committed(state, batch).1 is Err ==> committed(state, batch).0 == state,
{
}

proof fn lemma_run(state: ReplayView, steps: Seq<ReplayStep>, journal: Seq<u8>, n: int)
    requires
        faithful_steps(state, steps, journal),
        state.cursor <= journal.len(),
        0 <= n <= steps.len(),
    ensures
        own_epoch(state, steps, run(state, steps.take(n)).epoch),
        state.cursor <= run(state, steps.take(n)).cursor <= journal.len(),
        consumed(state, steps.take(n)) == journal.subrange(
            state.cursor as int,
            run(state, steps.take(n)).cursor as int,
        ),
    decreases n,
{
    let first = steps.take(n);
    if n == 0 {
        assert(journal.subrange(state.cursor as int, state.cursor as int) =~= Seq::empty());
    } else {
        lemma_run(state, steps, journal, n - 1);
        assert(first.drop_last() =~= steps.take(n - 1));
        let before = run(state, steps.take(n - 1));
        let step = steps[n - 1];
        assert(first.last() == step);
        match step {
            ReplayStep::Commit(batch) => {
                if committed(before, batch).1 is Ok {
                    assert(prepared_before(state, steps, n - 1, batch));
                    let i = choose|i: int|
                        0 <= i < n - 1 && (#[trigger] steps[i] matches ReplayStep::Prepare(
                            ticket,
                            page,
                        ) && prepared(run(state, steps.take(i)), ticket, page).1 == Ok::<
                            PreparedView,
                            ReplayError,
                        >(batch));
                    let page = steps[i]->Prepare_1;
                    assert(page_from(journal, page));
                    assert(journal.subrange(state.cursor as int, before.cursor as int)
                        + journal.subrange(before.cursor as int, batch.next_cursor as int)
                        =~= journal.subrange(state.cursor as int, batch.next_cursor as int));
                }
            },
            _ => {},
        }
    }
}

/// Over any run of connections, reads, preparations and commits, late ones and those of
/// other states included, the bytes that were consumed are exactly the journal from the
/// first cursor to the last: none is lost, repeated or out of order.
pub proof fn runs_consume_the_journal(
    state: ReplayView,
    steps: Seq<ReplayStep>,
    journal: Seq<u8>,
)
    requires
        faithful_steps(state, steps, journal),
        state.cursor <= journal.len(),
    ensures
        state.cursor <= run(state, steps).cursor <= journal.len(),
        consumed(state, steps) == journal.subrange(
            state.cursor as int,
            run(state, steps).cursor as int,
        ),
{
    lemma_run(state, steps, journal, steps.len() as int);
    assert(steps.take(steps.len() as int) =~= steps);
}

} // verus!
