//! Trade-level totals: how many completed trades a direction has, and how
//! many days and bars they were held in all. The averages are quotients of
//! these.

use vstd::prelude::*;
use crate::types::{Direction, TradePair};

verus! {

/// The whole-number totals of the trades of one direction.
#[derive(Debug, Clone, Copy, PartialEq, Eq, Structural)]
pub struct TradeEvaluation {
    /// The direction asked for, or `LongShort` when no trade was counted.
    pub trade_direction: Direction,
    pub trade_count: usize,
    /// The sum of the counted trades' holding days.
    pub total_days_held: i128,
    /// The sum of the counted trades' bar counts.
    pub total_bars_held: u128,
}

/// Whether a trade counts under a direction filter: `LongShort` takes
/// every trade, `Long` and `Short` those of their own direction.
pub open spec fn counts_under(direction: Direction, pair: TradePair) -> bool {
    direction == Direction::LongShort || pair.direction == direction
}

/// How many of the trades count under the filter.
pub open spec fn counted_trades(pairs: Seq<TradePair>, direction: Direction) -> nat
    decreases pairs.len(),
{
    if pairs.len() == 0 {
        0
    } else {
        counted_trades(pairs.drop_last(), direction) + if counts_under(direction, pairs.last()) {
            1nat
        } else {
            0nat
        }
    }
}

/// The holding days of the trades that count under the filter, summed.
pub open spec fn counted_days(pairs: Seq<TradePair>, direction: Direction) -> int
    decreases pairs.len(),
{
    if pairs.len() == 0 {
        0
    } else {
        counted_days(pairs.drop_last(), direction) + if counts_under(direction, pairs.last()) {
            pairs.last().holding_days as int
        } else {
            0
        }
    }
}

/// The bar counts of the trades that count under the filter, summed.
pub open spec fn counted_bars(pairs: Seq<TradePair>, direction: Direction) -> nat
    decreases pairs.len(),
{
    if pairs.len() == 0 {
        0
    } else {
        counted_bars(pairs.drop_last(), direction) + if counts_under(direction, pairs.last()) {
            pairs.last().bar_count as nat
        } else {
            0nat
        }
    }
}

fn is_counted(direction: Direction, pair: &TradePair) -> (wanted: bool)
    ensures
        wanted == counts_under(direction, *pair),
{
    match direction {
        Direction::LongShort => true,
        Direction::Long => match pair.direction {
            Direction::Long => true,
            _ => false,
        },
        Direction::Short => match pair.direction {
            Direction::Short => true,
            _ => false,
        },
    }
}

/// The positions of the trades that count under the filter, ascending.
pub fn select_pairs(pairs: &Vec<TradePair>, direction: Direction) -> (chosen: Vec<usize>)
    ensures
        chosen@.len() == counted_trades(pairs@, direction),
        forall|k: int| 0 <= k < chosen@.len() ==> (#[trigger] chosen@[k]) < pairs@.len(),
        forall|k: int|
            0 <= k < chosen@.len() ==> counts_under(direction, pairs@[(#[trigger] chosen@[k]) as int]),
        forall|k: int, m: int| 0 <= k < m < chosen@.len() ==> chosen@[k] < chosen@[m],
        forall|i: int|
            0 <= i < pairs@.len() && counts_under(direction, #[trigger] pairs@[i])
                ==> chosen@.contains(i as usize),
{
    let mut chosen: Vec<usize> = Vec::new();
    let mut at: usize = 0;
    assert(pairs@.take(0) =~= Seq::empty());
    while at < pairs.len()
        invariant
            at <= pairs.len(),
            chosen@.len() == counted_trades(pairs@.take(at as int), direction),
            forall|k: int| 0 <= k < chosen@.len() ==> (#[trigger] chosen@[k]) < at,
            forall|k: int|
                0 <= k < chosen@.len() ==> counts_under(
                    direction,
                    pairs@[(#[trigger] chosen@[k]) as int],
                ),
            forall|k: int, m: int| 0 <= k < m < chosen@.len() ==> chosen@[k] < chosen@[m],
            forall|i: int|
                0 <= i < at && counts_under(direction, #[trigger] pairs@[i]) ==> chosen@.contains(
                    i as usize,
                ),
        decreases pairs.len() - at,
    {
        proof {
            let upto = pairs@.take(at as int + 1);
            assert(upto.drop_last() =~= pairs@.take(at as int));
            assert(upto.last() == pairs@[at as int]);
        }
        if is_counted(direction, &pairs[at]) {
            let ghost earlier = chosen@;
            chosen.push(at);
            assert forall|i: int|
                0 <= i < at + 1 && counts_under(
                    direction,
                    #[trigger] pairs@[i],
                ) implies chosen@.contains(i as usize) by {
                if i < at {
                    let k = choose|k: int| 0 <= k < earlier.len() && earlier[k] == i as usize;
                    assert(chosen@[k] == i as usize);
                } else {
                    assert(chosen@[earlier.len() as int] == at);
                }
            }
        }
        at = at + 1;
    }
    assert(pairs@.take(at as int) =~= pairs@);
    chosen
}

proof fn lemma_totals_bounded(pairs: Seq<TradePair>, direction: Direction)
    ensures
        counted_trades(pairs, direction) <= pairs.len(),
        -0x8000_0000_0000_0000 * pairs.len() <= counted_days(pairs, direction)
            <= 0x7fff_ffff_ffff_ffff * pairs.len(),
        counted_bars(pairs, direction) <= usize::MAX * pairs.len(),
    decreases pairs.len(),
{
    if pairs.len() > 0 {
        let shorter = pairs.drop_last();
        lemma_totals_bounded(shorter, direction);
        let n = shorter.len() as int;
        assert(-0x8000_0000_0000_0000 * (n + 1) == -0x8000_0000_0000_0000 * n
            - 0x8000_0000_0000_0000) by (nonlinear_arith);
        assert(0x7fff_ffff_ffff_ffff * (n + 1) == 0x7fff_ffff_ffff_ffff * n
            + 0x7fff_ffff_ffff_ffff) by (nonlinear_arith);
        assert(usize::MAX * (n + 1) == usize::MAX * n + usize::MAX) by (nonlinear_arith);
    }
}

/// Counts the trades of a direction and sums their holding days and bar
/// counts. With no trade to count the direction reported is `LongShort`.
pub fn evaluate_pairs(pairs: &Vec<TradePair>, direction: Direction) -> (evaluation: TradeEvaluation)
    ensures
        evaluation.trade_count == counted_trades(pairs@, direction),
        evaluation.total_days_held == counted_days(pairs@, direction),
        evaluation.total_bars_held == counted_bars(pairs@, direction),
        evaluation.trade_direction == if counted_trades(pairs@, direction) == 0 {
            Direction::LongShort
        } else {
            direction
        },
{
    let mut trade_count: usize = 0;
    let mut total_days_held: i128 = 0;
    let mut total_bars_held: u128 = 0;
    let mut at: usize = 0;
    assert(pairs@.take(0) =~= Seq::empty());
    while at < pairs.len()
        invariant
            at <= pairs.len(),
            trade_count == counted_trades(pairs@.take(at as int), direction),
            total_days_held == counted_days(pairs@.take(at as int), direction),
            total_bars_held == counted_bars(pairs@.take(at as int), direction),
        decreases pairs.len() - at,
    {
        proof {
            let upto = pairs@.take(at as int + 1);
            assert(upto.drop_last() =~= pairs@.take(at as int));
            assert(upto.last() == pairs@[at as int]);
            lemma_totals_bounded(pairs@.take(at as int), direction);
            lemma_totals_bounded(upto, direction);
            assert(0x7fff_ffff_ffff_ffff * (at + 1) <= 0x7fff_ffff_ffff_ffff
                * 0x1_0000_0000_0000_0000) by (nonlinear_arith)
                requires
                    at + 1 <= 0x1_0000_0000_0000_0000,
            ;
            assert(-0x8000_0000_0000_0000 * (at + 1) >= -0x8000_0000_0000_0000
                * 0x1_0000_0000_0000_0000) by (nonlinear_arith)
                requires
                    at + 1 <= 0x1_0000_0000_0000_0000,
            ;
            assert(usize::MAX * (at + 1) <= 0xffff_ffff_ffff_ffff * 0x1_0000_0000_0000_0000)
                by (nonlinear_arith)
                requires
                    at + 1 <= 0x1_0000_0000_0000_0000,
                    usize::MAX <= 0xffff_ffff_ffff_ffff,
            ;
        }
        if is_counted(direction, &pairs[at]) {
            trade_count = trade_count + 1;
            total_days_held = total_days_held + pairs[at].holding_days as i128;
            total_bars_held = total_bars_held + pairs[at].bar_count as u128;
        }
        at = at + 1;
    }
    assert(pairs@.take(at as int) =~= pairs@);
    let trade_direction = if trade_count == 0 {
        Direction::LongShort
    } else {
        direction
    };
    TradeEvaluation { trade_direction, trade_count, total_days_held, total_bars_held }
}

/// How many bars hold a long target, how many a short one, out of how
/// many bars in all.
#[derive(Debug, Clone, Copy, PartialEq, Eq, Structural)]
pub struct ExposureCounts {
    pub long_bars: usize,
    pub short_bars: usize,
    pub bars: usize,
}

/// How many of the lot targets are above zero.
pub open spec fn long_bars(lots: Seq<i32>) -> nat
    decreases lots.len(),
{
    if lots.len() == 0 {
        0
    } else {
        long_bars(lots.drop_last()) + if lots.last() > 0 {
            1nat
        } else {
            0nat
        }
    }
}

/// How many of the lot targets are below zero.
pub open spec fn short_bars(lots: Seq<i32>) -> nat
    decreases lots.len(),
{
    if lots.len() == 0 {
        0
    } else {
        short_bars(lots.drop_last()) + if lots.last() < 0 {
            1nat
        } else {
            0nat
        }
    }
}

/// Counts the bars with a long target and those with a short one. The
/// long and short shares of a portfolio are these counts over the number
/// of bars.
pub fn exposure_counts(lots: &Vec<i32>) -> (counts: ExposureCounts)
    ensures
        counts.long_bars == long_bars(lots@),
        counts.short_bars == short_bars(lots@),
        counts.bars == lots@.len(),
        counts.long_bars + counts.short_bars <= counts.bars,
{
    let mut long_count: usize = 0;
    let mut short_count: usize = 0;
    let mut at: usize = 0;
    assert(lots@.take(0) =~= Seq::empty());
    while at < lots.len()
        invariant
            at <= lots.len(),
            long_count == long_bars(lots@.take(at as int)),
            short_count == short_bars(lots@.take(at as int)),
            long_count + short_count <= at,
        decreases lots.len() - at,
    {
        proof {
            let upto = lots@.take(at as int + 1);
            assert(upto.drop_last() =~= lots@.take(at as int));
            assert(upto.last() == lots@[at as int]);
        }
        if lots[at] > 0 {
            long_count = long_count + 1;
        } else if lots[at] < 0 {
            short_count = short_count + 1;
        }
        at = at + 1;
    }
    assert(lots@.take(at as int) =~= lots@);
    ExposureCounts { long_bars: long_count, short_bars: short_count, bars: at }
}

} // verus!
