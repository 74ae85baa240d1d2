//! The trade-pair matcher: opens wait in one first-in-first-out queue per
//! direction, and each close takes the oldest waiting open of its direction
//! and completes a pair with it.

use std::collections::VecDeque;
use vstd::prelude::*;
use crate::calendar::{calendar_day, day_number, lemma_day_number_monotonic};
use crate::trade_position::count_kind;
use crate::types::{pair_views, ActionKind, Direction, TradeAction, TradePair, TradePairView};

verus! {

/// What the matcher hands back: the completed pairs in the order of their
/// closes, and the closes that found no open to match, in the order they
/// came. The latter are dropped from the pairs and reported here.
#[derive(Debug, Clone, PartialEq, Eq)]
pub struct MatchReport {
    pub trade_pairs: Vec<TradePair>,
    pub unmatched: Vec<TradeAction>,
}

/// The matcher's books at one point of the action stream.
pub struct Ledger {
    /// The long opens that still wait for a close, oldest first.
    pub open_longs: Seq<TradeAction>,
    /// The short opens that still wait for a close, oldest first.
    pub open_shorts: Seq<TradeAction>,
    /// The pairs completed so far.
    pub pairs: Seq<TradePairView>,
    /// The closes dropped so far because their queue was empty.
    pub unmatched: Seq<TradeAction>,
}

/// The books before any action.
pub open spec fn empty_ledger() -> Ledger {
    Ledger {
        open_longs: Seq::empty(),
        open_shorts: Seq::empty(),
        pairs: Seq::empty(),
        unmatched: Seq::empty(),
    }
}

/// The pair that `close` completes with `open`. Bars and days are counted
/// inclusively: a lot closed on the bar and the day it was opened on was
/// held one bar and one day.
pub open spec fn pair_of(
    symbol: Seq<char>,
    direction: Direction,
    open: TradeAction,
    close: TradeAction,
) -> TradePairView {
    TradePairView {
        symbol,
        direction,
        open_dt: open.stamp(),
        close_dt: close.stamp(),
        open_price: open.quote(),
        close_price: close.quote(),
        bar_count: close.bar() - open.bar() + 1,
        holding_days: day_number(close.stamp()) - day_number(open.stamp()) + 1,
    }
}

/// Whether a direction is a side of the market, long or short, and not
/// the filter that takes both.
pub open spec fn is_side(side: Direction) -> bool {
    side != Direction::LongShort
}

/// The kind of action that opens a lot on a side.
pub open spec fn open_kind(side: Direction) -> ActionKind {
    if side == Direction::Short {
        ActionKind::OpenShort
    } else {
        ActionKind::OpenLong
    }
}

/// The kind of action that closes a lot on a side.
pub open spec fn close_kind(side: Direction) -> ActionKind {
    if side == Direction::Short {
        ActionKind::CloseShort
    } else {
        ActionKind::CloseLong
    }
}

impl Ledger {
    /// The opens that wait on a side, oldest first.
    pub open spec fn waiting(self, side: Direction) -> Seq<TradeAction> {
        if side == Direction::Short {
            self.open_shorts
        } else {
            self.open_longs
        }
    }

    /// The books with the queue of one side replaced.
    pub open spec fn with_waiting(self, side: Direction, queue: Seq<TradeAction>) -> Ledger {
        if side == Direction::Short {
            Ledger { open_shorts: queue, ..self }
        } else {
            Ledger { open_longs: queue, ..self }
        }
    }
}

/// The books after one more action. An open joins the back of its side's
/// queue. A close takes the open at the front of its side's queue and
/// completes a pair with it; when that queue is empty the close is dropped
/// and kept among the unmatched.
pub open spec fn ledger_step(symbol: Seq<char>, ledger: Ledger, action: TradeAction) -> Ledger {
    let side = action.side();
    let queue = ledger.waiting(side);
    if action.opens() {
        ledger.with_waiting(side, queue.push(action))
    } else if queue.len() > 0 {
        Ledger {
            pairs: ledger.pairs.push(pair_of(symbol, side, queue[0], action)),
            ..ledger.with_waiting(side, queue.drop_first())
        }
    } else {
        Ledger { unmatched: ledger.unmatched.push(action), ..ledger }
    }
}

/// The books after a run of actions, starting from `ledger`.
pub open spec fn ledger_run(symbol: Seq<char>, ledger: Ledger, actions: Seq<TradeAction>) -> Ledger
    decreases actions.len(),
{
    if actions.len() == 0 {
        ledger
    } else {
        ledger_step(symbol, ledger_run(symbol, ledger, actions.drop_last()), actions.last())
    }
}

/// The books after a whole action stream, starting empty.
pub open spec fn ledger_after(symbol: Seq<char>, actions: Seq<TradeAction>) -> Ledger {
    ledger_run(symbol, empty_ledger(), actions)
}

/// An action stream in the order of its bars: neither the bar numbers nor
/// the timestamps ever go back, and every bar number leaves room to count
/// the bars of a pair.
pub open spec fn chronological(actions: Seq<TradeAction>) -> bool {
    &&& forall|i: int, j: int|
        0 <= i <= j < actions.len() ==> actions[i].bar() <= actions[j].bar() && actions[i].stamp()
            <= actions[j].stamp()
    &&& forall|i: int| 0 <= i < actions.len() ==> actions[i].bar() < usize::MAX
}

fn complete_pair(symbol: &str, direction: Direction, open: TradeAction, close: TradeAction) -> (pair:
    TradePair)
    requires
        open.bar() <= close.bar() < usize::MAX,
    ensures
        pair@ == pair_of(symbol@, direction, open, close),
{
    let open_day: i32 = calendar_day(open.dt());
    let close_day: i32 = calendar_day(close.dt());
    let holding_days: i64 = (close_day as i64) - (open_day as i64) + 1;
    TradePair {
        symbol: symbol.to_owned(),
        direction,
        open_dt: open.dt(),
        close_dt: close.dt(),
        open_price: open.price(),
        close_price: close.price(),
        bar_count: close.bar_id() - open.bar_id() + 1,
        holding_days,
    }
}

/// Settles one close against the queue of its side: with an open waiting,
/// the oldest leaves the queue and the pair is added; with none, the close
/// is added to the unmatched.
fn settle_close(
    symbol: &str,
    side: Direction,
    queue: &mut VecDeque<TradeAction>,
    close: TradeAction,
    trade_pairs: &mut Vec<TradePair>,
    unmatched: &mut Vec<TradeAction>,
)
    requires
        close.bar() < usize::MAX,
        forall|k: int|
            0 <= k < old(queue)@.len() ==> (#[trigger] old(queue)@[k]).bar() <= close.bar() && old(
                queue,
            )@[k].stamp() <= close.stamp(),
    ensures
        old(queue)@.len() > 0 ==> {
            &&& final(queue)@ == old(queue)@.drop_first()
            &&& final(unmatched)@ == old(unmatched)@
            &&& final(trade_pairs)@.len() == old(trade_pairs)@.len() + 1
            &&& final(trade_pairs)@.drop_last() == old(trade_pairs)@
            &&& final(trade_pairs)@.last()@ == pair_of(symbol@, side, old(queue)@[0], close)
            &&& final(trade_pairs)@.last().holding_days >= 1
            &&& final(trade_pairs)@.last().bar_count >= 1
        },
        old(queue)@.len() == 0 ==> {
            &&& final(queue)@ == old(queue)@
            &&& final(trade_pairs)@ == old(trade_pairs)@
            &&& final(unmatched)@ == old(unmatched)@.push(close)
        },
{
    match queue.pop_front() {
        Some(open) => {
            proof {
                lemma_day_number_monotonic(open.stamp(), close.stamp());
            }
            let pair = complete_pair(symbol, side, open, close);
            trade_pairs.push(pair);
            assert(queue@ =~= old(queue)@.drop_first());
            assert(trade_pairs@.drop_last() =~= old(trade_pairs)@);
        },
        None => {
            unmatched.push(close);
        },
    }
}

/// Matches the action stream of one symbol into completed pairs, first
/// opened first closed. A close that finds its queue empty completes
/// nothing and is reported as unmatched.
pub fn actions_to_trade_pairs(symbol: &str, actions: Vec<TradeAction>) -> (report: MatchReport)
    requires
        chronological(actions@),
    ensures
        pair_views(report.trade_pairs@) == ledger_after(symbol@, actions@).pairs,
        report.unmatched@ == ledger_after(symbol@, actions@).unmatched,
        forall|k: int|
            0 <= k < report.trade_pairs.len() ==> #[trigger] report.trade_pairs[k].holding_days >= 1
                && report.trade_pairs[k].bar_count >= 1,
{
    let mut trade_pairs: Vec<TradePair> = Vec::new();
    let mut unmatched: Vec<TradeAction> = Vec::new();
    let mut open_long_queue: VecDeque<TradeAction> = VecDeque::new();
    let mut open_short_queue: VecDeque<TradeAction> = VecDeque::new();
    let total: usize = actions.len();
    let mut at: usize = 0;
    assert(actions@.take(0) =~= Seq::empty());
    assert(pair_views(trade_pairs@) =~= Seq::empty());
    while at < total
        invariant
            total == actions.len(),
            at <= total,
            chronological(actions@),
            open_long_queue@ == ledger_after(symbol@, actions@.take(at as int)).open_longs,
            open_short_queue@ == ledger_after(symbol@, actions@.take(at as int)).open_shorts,
            pair_views(trade_pairs@) == ledger_after(symbol@, actions@.take(at as int)).pairs,
            unmatched@ == ledger_after(symbol@, actions@.take(at as int)).unmatched,
            forall|k: int, j: int|
                0 <= k < open_long_queue@.len() && at <= j < total ==> (
                #[trigger] open_long_queue@[k]).bar() <= (#[trigger] actions@[j]).bar()
                    && open_long_queue@[k].stamp() <= actions@[j].stamp(),
            forall|k: int, j: int|
                0 <= k < open_short_queue@.len() && at <= j < total ==> (
                #[trigger] open_short_queue@[k]).bar() <= (#[trigger] actions@[j]).bar()
                    && open_short_queue@[k].stamp() <= actions@[j].stamp(),
            forall|k: int|
                0 <= k < trade_pairs.len() ==> #[trigger] trade_pairs[k].holding_days >= 1
                    && trade_pairs[k].bar_count >= 1,
        decreases total - at,
    {
        let action: TradeAction = actions[at];
        let ghost before = ledger_after(symbol@, actions@.take(at as int));
        let ghost paired = trade_pairs@;
        proof {
            let upto = actions@.take(at as int + 1);
            assert(upto.drop_last() =~= actions@.take(at as int));
            assert(upto.last() == action);
            assert(ledger_after(symbol@, upto) == ledger_step(symbol@, before, action));
        }
        match action {
            TradeAction::OpenLong { .. } => {
                open_long_queue.push_back(action);
            },
            TradeAction::OpenShort { .. } => {
                open_short_queue.push_back(action);
            },
            TradeAction::CloseLong { .. } => {
                settle_close(
                    symbol,
                    Direction::Long,
                    &mut open_long_queue,
                    action,
                    &mut trade_pairs,
                    &mut unmatched,
                );
            },
            TradeAction::CloseShort { .. } => {
                settle_close(
                    symbol,
                    Direction::Short,
                    &mut open_short_queue,
                    action,
                    &mut trade_pairs,
                    &mut unmatched,
                );
            },
        }
        proof {
            if trade_pairs@.len() > paired.len() {
                assert(pair_views(trade_pairs@) =~= pair_views(paired).push(trade_pairs@.last()@)) by {
                    assert forall|k: int| 0 <= k < paired.len() implies trade_pairs@[k]
                        == paired[k] by {
                        assert(trade_pairs@.drop_last()[k] == trade_pairs@[k]);
                    }
                }
                assert forall|k: int| 0 <= k < trade_pairs.len() implies #[trigger] trade_pairs[k].holding_days
                    >= 1 && trade_pairs[k].bar_count >= 1 by {
                    if k < paired.len() {
                        assert(trade_pairs@.drop_last()[k] == trade_pairs@[k]);
                    }
                }
            }
        }
        at = at + 1;
    }
    assert(actions@.take(total as int) =~= actions@);
    MatchReport { trade_pairs, unmatched }
}

/// Running the books over two runs in a row is running them over the
/// first and then, from where that ended, over the second.
pub proof fn lemma_ledger_run_concat(
    symbol: Seq<char>,
    ledger: Ledger,
    first: Seq<TradeAction>,
    second: Seq<TradeAction>,
)
    ensures
        ledger_run(symbol, ledger, first + second) == ledger_run(
            symbol,
            ledger_run(symbol, ledger, first),
            second,
        ),
    decreases second.len(),
{
    if second.len() == 0 {
        assert(first + second =~= first);
    } else {
        assert((first + second).drop_last() =~= first + second.drop_last());
        lemma_ledger_run_concat(symbol, ledger, first, second.drop_last());
    }
}

/// A run of opens of one side joins that side's queue in its order and
/// changes nothing else.
pub proof fn lemma_run_opens(
    symbol: Seq<char>,
    ledger: Ledger,
    side: Direction,
    opens: Seq<TradeAction>,
)
    requires
        is_side(side),
        forall|i: int| 0 <= i < opens.len() ==> (#[trigger] opens[i]).kind() == open_kind(side),
    ensures
        ledger_run(symbol, ledger, opens) == ledger.with_waiting(
            side,
            ledger.waiting(side) + opens,
        ),
    decreases opens.len(),
{
    if opens.len() == 0 {
        assert(ledger.waiting(side) + opens =~= ledger.waiting(side));
    } else {
        let shorter = opens.drop_last();
        lemma_run_opens(symbol, ledger, side, shorter);
        assert(opens.last().kind() == open_kind(side));
        assert((ledger.waiting(side) + shorter).push(opens.last()) =~= ledger.waiting(side)
            + opens);
    }
}

/// A run of closes of one side, no longer than that side's queue, takes
/// the waiting opens from the front in their order: the i-th close
/// completes a pair with the i-th waiting open.
pub proof fn lemma_run_closes(
    symbol: Seq<char>,
    ledger: Ledger,
    side: Direction,
    closes: Seq<TradeAction>,
)
    requires
        is_side(side),
        forall|i: int| 0 <= i < closes.len() ==> (#[trigger] closes[i]).kind() == close_kind(side),
        closes.len() <= ledger.waiting(side).len(),
    ensures
        ledger_run(symbol, ledger, closes) == (Ledger {
            pairs: ledger.pairs + Seq::new(
                closes.len(),
                |i: int| pair_of(symbol, side, ledger.waiting(side)[i], closes[i]),
            ),
            ..ledger.with_waiting(side, ledger.waiting(side).skip(closes.len() as int))
        }),
    decreases closes.len(),
{
    let count = closes.len() as int;
    let queue = ledger.waiting(side);
    let made = Seq::new(closes.len(), |i: int| pair_of(symbol, side, queue[i], closes[i]));
    if closes.len() == 0 {
        assert(queue.skip(0) =~= queue);
        assert(ledger.pairs + made =~= ledger.pairs);
    } else {
        let shorter = closes.drop_last();
        lemma_run_closes(symbol, ledger, side, shorter);
        let before = ledger_run(symbol, ledger, shorter);
        let made_before = Seq::new(
            shorter.len(),
            |i: int| pair_of(symbol, side, queue[i], shorter[i]),
        );
        assert(closes.last().kind() == close_kind(side));
        assert(before.waiting(side) == queue.skip(count - 1));
        assert(before.waiting(side)[0] == queue[count - 1]);
        assert(before.waiting(side).drop_first() =~= queue.skip(count));
        assert((ledger.pairs + made_before).push(
            pair_of(symbol, side, queue[count - 1], closes.last()),
        ) =~= ledger.pairs + made);
    }
}

/// Nothing is lost and nothing is made up: every open either waits or is
/// in a pair, and every close either completed a pair or was dropped.
pub proof fn lemma_every_action_is_accounted_for(symbol: Seq<char>, actions: Seq<TradeAction>)
    ensures
        ({
            let ledger = ledger_after(symbol, actions);
            &&& ledger.open_longs.len() + ledger.open_shorts.len() + ledger.pairs.len()
                == count_kind(actions, ActionKind::OpenLong) + count_kind(
                actions,
                ActionKind::OpenShort,
            )
            &&& ledger.pairs.len() + ledger.unmatched.len() == count_kind(
                actions,
                ActionKind::CloseLong,
            ) + count_kind(actions, ActionKind::CloseShort)
        }),
    decreases actions.len(),
{
    if actions.len() > 0 {
        lemma_every_action_is_accounted_for(symbol, actions.drop_last());
    }
}

/// Whether no waiting open is later than the given bar and time, and every
/// pair made so far spans at least one bar and one day.
pub open spec fn ledger_within(ledger: Ledger, bar: int, stamp: int) -> bool {
    &&& forall|side: Direction, i: int|
        0 <= i < ledger.waiting(side).len() ==> (#[trigger] ledger.waiting(side)[i]).bar() <= bar
            && ledger.waiting(side)[i].stamp() <= stamp
    &&& forall|k: int|
        0 <= k < ledger.pairs.len() ==> (#[trigger] ledger.pairs[k]).bar_count >= 1
            && ledger.pairs[k].holding_days >= 1
}

/// Every pair matched out of a stream in the order of its bars spans at
/// least one bar and at least one calendar day, and no open that still
/// waits is later than the last action.
pub proof fn lemma_pairs_span_a_bar_and_a_day(symbol: Seq<char>, actions: Seq<TradeAction>)
    requires
        chronological(actions),
    ensures
        forall|k: int|
            0 <= k < ledger_after(symbol, actions).pairs.len() ==> (#[trigger] ledger_after(
                symbol,
                actions,
            ).pairs[k]).bar_count >= 1 && ledger_after(symbol, actions).pairs[k].holding_days >= 1,
        actions.len() > 0 ==> ledger_within(
            ledger_after(symbol, actions),
            actions.last().bar() as int,
            actions.last().stamp() as int,
        ),
    decreases actions.len(),
{
    if actions.len() > 0 {
        let earlier = actions.drop_last();
        let action = actions.last();
        assert(chronological(earlier)) by {
            assert forall|i: int, j: int| 0 <= i <= j < earlier.len() implies earlier[i].bar()
                <= earlier[j].bar() && earlier[i].stamp() <= earlier[j].stamp() by {
                assert(actions[i].bar() <= actions[j].bar());
            }
            assert forall|i: int| 0 <= i < earlier.len() implies earlier[i].bar()
                < usize::MAX by {
                assert(actions[i].bar() < usize::MAX);
            }
        }
        lemma_pairs_span_a_bar_and_a_day(symbol, earlier);
        let before = ledger_after(symbol, earlier);
        let after = ledger_after(symbol, actions);
        assert(after == ledger_step(symbol, before, action));
        let bar = action.bar() as int;
        let stamp = action.stamp() as int;
        assert(ledger_within(before, bar, stamp)) by {
            if earlier.len() > 0 {
                assert(actions[earlier.len() - 1].bar() <= actions[actions.len() - 1].bar());
                assert(earlier.last() == actions[earlier.len() - 1]);
            }
        }
        let side = action.side();
        let queue = before.waiting(side);
        if !action.opens() && queue.len() > 0 {
            assert(queue[0].bar() <= bar && queue[0].stamp() <= stamp);
            lemma_day_number_monotonic(queue[0].stamp(), action.stamp());
        }
        assert forall|other: Direction, i: int|
            0 <= i < after.waiting(other).len() implies (#[trigger] after.waiting(
            other,
        )[i]).bar() <= bar && after.waiting(other)[i].stamp() <= stamp by {
            let was = before.waiting(other);
            let now = after.waiting(other);
            if now.len() == was.len() + 1 {
                if i < was.len() {
                    assert(now[i] == was[i]);
                } else {
                    assert(now[i] == action);
                }
            } else if now.len() + 1 == was.len() {
                assert(now[i] == was[i + 1]);
            } else {
                assert(now[i] == was[i]);
            }
        }
        assert(ledger_within(after, bar, stamp));
    }
}

/// First in, first out: after any number of opens of one side followed by
/// as many closes of that side, the i-th pair is the i-th open with the
/// i-th close, nothing waits and nothing was dropped.
pub proof fn lemma_fifo(
    symbol: Seq<char>,
    side: Direction,
    opens: Seq<TradeAction>,
    closes: Seq<TradeAction>,
)
    requires
        is_side(side),
        opens.len() == closes.len(),
        forall|i: int| 0 <= i < opens.len() ==> (#[trigger] opens[i]).kind() == open_kind(side),
        forall|i: int| 0 <= i < closes.len() ==> (#[trigger] closes[i]).kind() == close_kind(side),
    ensures
        ledger_after(symbol, opens + closes) == (Ledger {
            open_longs: Seq::empty(),
            open_shorts: Seq::empty(),
            pairs: Seq::new(opens.len(), |i: int| pair_of(symbol, side, opens[i], closes[i])),
            unmatched: Seq::empty(),
        }),
{
    lemma_ledger_run_concat(symbol, empty_ledger(), opens, closes);
    lemma_run_opens(symbol, empty_ledger(), side, opens);
    let waiting = ledger_run(symbol, empty_ledger(), opens);
    assert(waiting.waiting(side) =~= opens);
    lemma_run_closes(symbol, waiting, side, closes);
    let done = ledger_run(symbol, waiting, closes);
    assert(done.waiting(side) =~= Seq::empty());
    assert(done.pairs =~= Seq::new(
        opens.len(),
        |i: int| pair_of(symbol, side, opens[i], closes[i]),
    ));
}

} // verus!
