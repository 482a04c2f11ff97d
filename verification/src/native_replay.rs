//! Applies an incarnation's ordered output to a terminal model. Network loss never
//! exits the model or completes the block that is running.

use crate::bytes;
use crate::proto::{PersistentTerminalOutput, PersistentTerminalOutputView};
use crate::replay::{
    committed, following, prepared, reconnected, ticket_for, Epochs, PreparedView, ReadTicket,
    TicketView, ReplayError, ReplayPhase, ReplayState, ReplayView,
};
use vstd::prelude::*;

pub mod laws;

verus! {

/// What the terminal has to do, in order.
#[derive(Debug)]
pub enum ReplayEffect {
    /// Tell the application whether history is being replayed.
    Replaying(bool),
    /// Parse bytes of the history; replies to terminal queries are dropped.
    ParseHistory(Vec<u8>),
    /// Parse live bytes; replies to terminal queries are sent.
    ParseLive(Vec<u8>),
    /// Finish the terminal's shell with this exit code.
    FinishShell(i32),
    Wakeup,
}

pub enum ReplayEffectView {
    Replaying(bool),
    ParseHistory(Seq<u8>),
    ParseLive(Seq<u8>),
    FinishShell(i32),
    Wakeup,
}

impl DeepView for ReplayEffect {
    type V = ReplayEffectView;

    open spec fn deep_view(&self) -> ReplayEffectView {
        match *self {
            ReplayEffect::Replaying(replaying) => ReplayEffectView::Replaying(replaying),
            ReplayEffect::ParseHistory(bytes) => ReplayEffectView::ParseHistory(bytes@),
            ReplayEffect::ParseLive(bytes) => ReplayEffectView::ParseLive(bytes@),
            ReplayEffect::FinishShell(exit_code) => ReplayEffectView::FinishShell(exit_code),
            ReplayEffect::Wakeup => ReplayEffectView::Wakeup,
        }
    }
}

/// The replay of a workspace's output into a terminal.
#[derive(Debug)]
pub struct NativeReplay {
    state: ReplayState,
    historical_events_open: bool,
}

/// The model of a replay: its state, and whether the application was told that
/// history is being replayed.
#[verifier::ext_equal]
pub struct NativeView {
    pub state: ReplayView,
    pub open: bool,
}

impl DeepView for NativeReplay {
    type V = NativeView;

    closed spec fn deep_view(&self) -> NativeView {
        NativeView { state: self.state.deep_view(), open: self.historical_events_open }
    }
}

/// The end of the history, if the application does not know of it.
pub open spec fn ending(open: bool) -> Seq<ReplayEffectView> {
    if open {
        Seq::empty().push(ReplayEffectView::Replaying(false))
    } else {
        Seq::empty()
    }
}

/// What is done with the bytes of a batch: first its history, then what is live.
pub open spec fn parsing(batch: PreparedView, open: bool) -> (Seq<ReplayEffectView>, bool) {
    let n = batch.historical_bytes as int;
    let history = if n > 0 {
        (if open {
            Seq::<ReplayEffectView>::empty()
        } else {
            Seq::<ReplayEffectView>::empty().push(ReplayEffectView::Replaying(true))
        }).push(ReplayEffectView::ParseHistory(batch.bytes.take(n)))
    } else {
        Seq::<ReplayEffectView>::empty()
    };
    let open = open || n > 0;
    if n < batch.bytes.len() {
        ((history + ending(open)).push(ReplayEffectView::ParseLive(batch.bytes.skip(n))), false)
    } else {
        (history, open)
    }
}

/// Applies a page: the terminal parses it, and only then is it committed.
pub open spec fn applied(
    native: NativeView,
    ticket: TicketView,
    page: PersistentTerminalOutputView,
) -> (NativeView, Result<Seq<ReplayEffectView>, ReplayError>) {
    let (ready, r) = prepared(native.state, ticket, page);
    match r {
        Err(error) => (NativeView { state: ready, ..native }, Err(error)),
        Ok(batch) => {
            let (effects, open) = parsing(batch, native.open);
            let done = committed(ready, batch).0;
            if done.phase is Replaying {
                (
                    NativeView { state: done, open },
                    Ok(effects.push(ReplayEffectView::Wakeup)),
                )
            } else {
                (
                    NativeView { state: done, open: false },
                    Ok((effects + ending(open)).push(ReplayEffectView::Wakeup)),
                )
            }
        },
    }
}

impl NativeReplay {
    pub fn new(epochs: &mut Epochs) -> (replay: Self)
        ensures
            replay.deep_view() == (NativeView {
                state: ReplayView {
                    epoch: old(epochs).upcoming(),
                    cursor: 0,
                    phase: ReplayPhase::Disconnected,
                    replay_until: None,
                    input_delivery_unknown: false,
                },
                open: false,
            }),
            final(epochs).upcoming() == following(old(epochs).upcoming()),
    {
        NativeReplay { state: ReplayState::new(0, epochs), historical_events_open: false }
    }

    pub fn connected(&mut self, epochs: &mut Epochs)
        ensures
            final(self).deep_view() == (NativeView {
                state: reconnected(old(self).deep_view().state, old(epochs).upcoming()),
                ..old(self).deep_view()
            }),
            final(epochs).upcoming() == following(old(epochs).upcoming()),
    {
        self.state.connected(epochs);
    }

    pub fn read_ticket(&self) -> (r: Result<ReadTicket, ReplayError>)
        ensures
            match r {
                Ok(ticket) => {
                    &&& crate::replay::reading(self.deep_view().state.phase)
                    &&& ticket.deep_view() == ticket_for(self.deep_view().state)
                },
                Err(error) => !crate::replay::reading(self.deep_view().state.phase) && error
                    == ReplayError::NotConnected,
            },
    {
        self.state.read_ticket()
    }

    pub fn phase(&self) -> (phase: ReplayPhase)
        ensures
            phase == self.deep_view().state.phase,
    {
        self.state.phase()
    }

    pub fn cursor(&self) -> (cursor: u64)
        ensures
            cursor == self.deep_view().state.cursor,
    {
        self.state.cursor()
    }

    pub fn can_send_input(&self) -> (r: bool)
        ensures
            r == (self.deep_view().state.phase is Live
                && !self.deep_view().state.input_delivery_unknown),
    {
        self.state.can_send_input()
    }

    pub fn acknowledge_input_uncertainty(&mut self)
        ensures
            final(self).deep_view() == (NativeView {
                state: ReplayView {
                    input_delivery_unknown: false,
                    ..old(self).deep_view().state
                },
                ..old(self).deep_view()
            }),
    {
        self.state.acknowledge_input_uncertainty();
    }

    /// Finishes the terminal's shell, if its exit code is known.
    pub fn finish_shell(&self, exit_code: Option<i32>) -> (effects: Vec<ReplayEffect>)
        ensures
            effects.deep_view() == (match exit_code {
                Some(code) => Seq::empty().push(ReplayEffectView::FinishShell(code)),
                None => Seq::empty(),
            }),
    {
        let mut effects: Vec<ReplayEffect> = Vec::new();
        assert(effects.deep_view() =~= Seq::empty());
        if let Some(code) = exit_code {
            push(&mut effects, ReplayEffect::FinishShell(code));
        }
        effects
    }

    /// Whether the terminal's active block belongs to this session and is bootstrapped.
    pub fn shell_ready(
        &self,
        bootstrapped: bool,
        active_session: Option<u64>,
        session_id: u64,
    ) -> (ready: bool)
        ensures
            ready == (bootstrapped && active_session == Some(session_id)),
    {
        match active_session {
            Some(active) => bootstrapped && active == session_id,
            None => false,
        }
    }

    /// Ends a connection, and the replay of history with it.
    pub fn disconnected(&mut self, input_delivery_unknown: bool, epochs: &mut Epochs) -> (effects:
        Vec<ReplayEffect>)
        ensures
            effects.deep_view() == ending(old(self).deep_view().open),
            final(self).deep_view() == (NativeView {
                state: ReplayView {
                    epoch: old(epochs).upcoming(),
                    phase: ReplayPhase::Disconnected,
                    input_delivery_unknown: old(self).deep_view().state.input_delivery_unknown
                        || input_delivery_unknown,
                    ..old(self).deep_view().state
                },
                open: false,
            }),
            final(epochs).upcoming() == following(old(epochs).upcoming()),
    {
        self.state.disconnected(input_delivery_unknown, epochs);
        let mut effects: Vec<ReplayEffect> = Vec::new();
        self.end_historical_events(&mut effects);
        assert(effects.deep_view() =~= ending(old(self).deep_view().open));
        effects
    }

    /// Applies a page of output. Only live bytes may be answered.
    pub fn apply(&mut self, ticket: ReadTicket, page: PersistentTerminalOutput) -> (r: Result<
        Vec<ReplayEffect>,
        ReplayError,
    >)
        ensures
            (final(self).deep_view(), crate::host::outcome(r)) == applied(
                old(self).deep_view(),
                ticket.deep_view(),
                page.deep_view(),
            ),
    {
        let batch = self.state.prepare(ticket, page)?;
        let ghost model = batch.deep_view();
        let mut effects: Vec<ReplayEffect> = Vec::new();
        assert(effects.deep_view() =~= Seq::empty());
        let length: usize = batch.bytes.len();
        let count: usize = batch.historical_bytes;
        if count > 0 {
            if !self.historical_events_open {
                push(&mut effects, ReplayEffect::Replaying(true));
                self.historical_events_open = true;
            }
            let history = bytes::slice(batch.bytes.as_slice(), 0, count);
            assert(history@ =~= model.bytes.take(count as int));
            push(&mut effects, ReplayEffect::ParseHistory(history));
        }
        if count < length {
            self.end_historical_events(&mut effects);
            let live = bytes::slice(batch.bytes.as_slice(), count, length);
            assert(live@ =~= model.bytes.skip(count as int));
            push(&mut effects, ReplayEffect::ParseLive(live));
        }
        assert((effects.deep_view(), self.historical_events_open) == parsing(
            model,
            old(self).deep_view().open,
        ));
        self.state.commit(batch)?;
        if self.state.phase() != ReplayPhase::Replaying {
            self.end_historical_events(&mut effects);
        }
        push(&mut effects, ReplayEffect::Wakeup);
        Ok(effects)
    }

    fn end_historical_events(&mut self, effects: &mut Vec<ReplayEffect>)
        ensures
            final(effects).deep_view() == old(effects).deep_view() + ending(
                old(self).deep_view().open,
            ),
            final(self).deep_view() == (NativeView { open: false, ..old(self).deep_view() }),
    {
        let ghost before = effects.deep_view();
        if self.historical_events_open {
            push(effects, ReplayEffect::Replaying(false));
            self.historical_events_open = false;
        }
        assert(effects.deep_view() =~= before + ending(old(self).deep_view().open));
    }
}

fn push(effects: &mut Vec<ReplayEffect>, effect: ReplayEffect)
    ensures
        final(effects).deep_view() == old(effects).deep_view().push(effect.deep_view()),
{
    let ghost before = effects.deep_view();
    effects.push(effect);
    assert(effects.deep_view() =~= before.push(effect.deep_view()));
}

/// The bytes that the effects have parsed.
pub open spec fn parsed_bytes(effects: Seq<ReplayEffectView>) -> Seq<u8>
    decreases effects.len(),
{
    if effects.len() == 0 {
        Seq::empty()
    } else {
        parsed_bytes(effects.drop_last()) + (match effects.last() {
            ReplayEffectView::ParseHistory(bytes) => bytes,
            ReplayEffectView::ParseLive(bytes) => bytes,
            _ => Seq::empty(),
        })
    }
}

proof fn lemma_parsed_push(effects: Seq<ReplayEffectView>, effect: ReplayEffectView)
    ensures
        parsed_bytes(effects.push(effect)) == parsed_bytes(effects) + (match effect {
            ReplayEffectView::ParseHistory(bytes) => bytes,
            ReplayEffectView::ParseLive(bytes) => bytes,
            _ => Seq::empty(),
        }),
{
    assert(effects.push(effect).drop_last() =~= effects);
}

/// The terminal parses exactly the bytes by which the cursor moves, in order, and
/// the application is told of the end of the history before live bytes are parsed.
pub proof fn apply_parses_what_it_commits(
    native: NativeView,
    ticket: TicketView,
    page: PersistentTerminalOutputView,
)
    requires
        applied(native, ticket, page).1 is Ok,
    ensures
        parsed_bytes(applied(native, ticket, page).1->Ok_0) == page.output,
        applied(native, ticket, page).0.state.cursor == native.state.cursor + page.output.len(),
{
    let batch = prepared(native.state, ticket, page).1->Ok_0;
    let n = batch.historical_bytes as int;
    let none = Seq::<ReplayEffectView>::empty();
    let start = if native.open {
        none
    } else {
        none.push(ReplayEffectView::Replaying(true))
    };
    lemma_parsed_push(none, ReplayEffectView::Replaying(true));
    lemma_parsed_push(start, ReplayEffectView::ParseHistory(batch.bytes.take(n)));
    let history = if n > 0 {
        start.push(ReplayEffectView::ParseHistory(batch.bytes.take(n)))
    } else {
        none
    };
    assert(parsed_bytes(history) =~= batch.bytes.take(n));
    let (effects, open) = parsing(batch, native.open);
    let ended = history.push(ReplayEffectView::Replaying(false));
    lemma_parsed_push(history, ReplayEffectView::Replaying(false));
    assert(history + none.push(ReplayEffectView::Replaying(false)) =~= ended);
    assert(history + none =~= history);
    lemma_parsed_push(
        history + ending(native.open || n > 0),
        ReplayEffectView::ParseLive(batch.bytes.skip(n)),
    );
    assert(parsed_bytes(effects) =~= batch.bytes);
    lemma_parsed_push(effects, ReplayEffectView::Wakeup);
    lemma_parsed_push(effects, ReplayEffectView::Replaying(false));
    assert(effects + none.push(ReplayEffectView::Replaying(false)) =~= effects.push(
        ReplayEffectView::Replaying(false),
    ));
    assert(effects + none =~= effects);
    lemma_parsed_push(effects + ending(open), ReplayEffectView::Wakeup);
    assert(batch.bytes + Seq::<u8>::empty() =~= batch.bytes);
}

} // verus!
