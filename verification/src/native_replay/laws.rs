//! History is parsed as history, and what is live as live.

use crate::native_replay::{applied, ending, parsing, NativeView, ReplayEffectView};
use crate::proto::PersistentTerminalOutputView;
use crate::replay::{prepared, PreparedView, TicketView};
use vstd::prelude::*;

verus! {

/// The bytes that are parsed as history.
pub open spec fn history_bytes(effects: Seq<ReplayEffectView>) -> Seq<u8>
    decreases effects.len(),
{
    if effects.len() == 0 {
        Seq::empty()
    } else {
        let before = history_bytes(effects.drop_last());
        match effects.last() {
            ReplayEffectView::ParseHistory(bytes) => before + bytes,
            _ => before,
        }
    }
}

/// The bytes that are parsed as live output.
pub open spec fn live_bytes(effects: Seq<ReplayEffectView>) -> Seq<u8>
    decreases effects.len(),
{
    if effects.len() == 0 {
        Seq::empty()
    } else {
        let before = live_bytes(effects.drop_last());
        match effects.last() {
            ReplayEffectView::ParseLive(bytes) => before + bytes,
            _ => before,
        }
    }
}

/// Whether the terminal has been told that history comes, after these effects.
pub open spec fn told(open: bool, effects: Seq<ReplayEffectView>) -> bool
    decreases effects.len(),
{
    if effects.len() == 0 {
        open
    } else {
        match effects.last() {
            ReplayEffectView::Replaying(replaying) => replaying,
            _ => told(open, effects.drop_last()),
        }
    }
}

/// History is parsed only while the terminal has been told of it, and live output only while
/// it has not; and it is told only what it does not know.
pub open spec fn in_order(open: bool, effects: Seq<ReplayEffectView>) -> bool
    decreases effects.len(),
{
    if effects.len() == 0 {
        true
    } else {
        let before = effects.drop_last();
        &&& in_order(open, before)
        &&& match effects.last() {
            ReplayEffectView::Replaying(replaying) => told(open, before) != replaying,
            ReplayEffectView::ParseHistory(bytes) => told(open, before),
            ReplayEffectView::ParseLive(bytes) => !told(open, before),
            _ => true,
        }
    }
}

proof fn lemma_push(open: bool, effects: Seq<ReplayEffectView>, effect: ReplayEffectView)
    ensures
        ({
            let more = effects.push(effect);
            &&& told(open, more) == (match effect {
                ReplayEffectView::Replaying(replaying) => replaying,
                _ => told(open, effects),
            })
            &&& in_order(open, more) <==> in_order(open, effects) && match effect {
                ReplayEffectView::Replaying(replaying) => told(open, effects) != replaying,
                ReplayEffectView::ParseHistory(bytes) => told(open, effects),
                ReplayEffectView::ParseLive(bytes) => !told(open, effects),
                _ => true,
            }
            &&& history_bytes(more) == (match effect {
                ReplayEffectView::ParseHistory(bytes) => history_bytes(effects) + bytes,
                _ => history_bytes(effects),
            })
            &&& live_bytes(more) == (match effect {
                ReplayEffectView::ParseLive(bytes) => live_bytes(effects) + bytes,
                _ => live_bytes(effects),
            })
        }),
{
    assert(effects.push(effect).drop_last() =~= effects);
}

proof fn lemma_ending(open: bool, effects: Seq<ReplayEffectView>)
    requires
        in_order(open, effects),
    ensures
        ({
            let more = effects + ending(told(open, effects));
            &&& in_order(open, more)
            &&& !told(open, more)
            &&& history_bytes(more) == history_bytes(effects)
            &&& live_bytes(more) == live_bytes(effects)
        }),
{
    if told(open, effects) {
        lemma_push(open, effects, ReplayEffectView::Replaying(false));
        assert(effects + ending(true) =~= effects.push(ReplayEffectView::Replaying(false)));
    } else {
        assert(effects + ending(false) =~= effects);
    }
}

proof fn lemma_parsing(batch: PreparedView, open: bool)
    requires
        batch.historical_bytes <= batch.bytes.len(),
    ensures
        ({
            let (effects, after) = parsing(batch, open);
            &&& in_order(open, effects)
            &&& told(open, effects) == after
            &&& history_bytes(effects) == batch.bytes.take(batch.historical_bytes as int)
            &&& live_bytes(effects) == batch.bytes.skip(batch.historical_bytes as int)
        }),
{
    let n = batch.historical_bytes as int;
    let none = Seq::<ReplayEffectView>::empty();
    let first = if open {
        none
    } else {
        none.push(ReplayEffectView::Replaying(true))
    };
    lemma_push(open, none, ReplayEffectView::Replaying(true));
    let parse = ReplayEffectView::ParseHistory(batch.bytes.take(n));
    lemma_push(open, first, parse);
    let history = if n > 0 {
        first.push(parse)
    } else {
        none
    };
    let empty = Seq::<u8>::empty();
    assert(empty + batch.bytes.take(n) =~= batch.bytes.take(n));
    assert(n == 0 ==> batch.bytes.take(n) =~= empty);
    assert(told(open, history) == (open || n > 0));
    if n < batch.bytes.len() {
        lemma_ending(open, history);
        let closed = history + ending(open || n > 0);
        let live = batch.bytes.skip(n);
        lemma_push(open, closed, ReplayEffectView::ParseLive(live));
        assert(empty + live =~= live);
    } else {
        assert(batch.bytes.skip(n) =~= empty);
    }
}

/// Of a page that is taken, what was recorded before the first page came is parsed as
/// history, and the rest as live output after it; the terminal is told when history begins
/// and when it ends, and of nothing twice; and history has ended wherever the terminal does
/// not go on reading it.
pub proof fn history_is_parsed_as_history(
    native: NativeView,
    ticket: TicketView,
    page: PersistentTerminalOutputView,
)
    requires
        applied(native, ticket, page).1 is Ok,
    ensures
        ({
            let (next, r) = applied(native, ticket, page);
            let effects = r->Ok_0;
            let until = match native.state.replay_until {
                Some(until) => until,
                None => page.high_watermark,
            };
            let old: int = if until <= page.start_cursor {
                0
            } else if until >= page.next_cursor {
                page.output.len() as int
            } else {
                until - page.start_cursor
            };
            &&& history_bytes(effects) == page.output.take(old)
            &&& live_bytes(effects) == page.output.skip(old)
            &&& in_order(native.open, effects)
            &&& told(native.open, effects) == next.open
            &&& next.state.phase !is Replaying ==> !next.open
            &&& effects.len() > 0 && effects.last() is Wakeup
        }),
{
    let (ready, r) = prepared(native.state, ticket, page);
    let batch = r->Ok_0;
    lemma_parsing(batch, native.open);
    let (effects, open) = parsing(batch, native.open);
    lemma_ending(native.open, effects);
    lemma_push(native.open, effects, ReplayEffectView::Wakeup);
    lemma_push(native.open, effects + ending(open), ReplayEffectView::Wakeup);
}

} // verus!
