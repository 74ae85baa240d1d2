//! From the bars of one symbol to its completed trades: the state machine
//! walks the lot targets bar by bar, and the matcher pairs what it emits.

use vstd::prelude::*;
use vstd::string::StringExecFns;
use crate::config::BacktestConfig;
use crate::errors::{CzscError, CzscResult};
use crate::matcher::{
    actions_to_trade_pairs,
    chronological,
    empty_ledger,
    ledger_after,
    ledger_run,
    lemma_ledger_run_concat,
    lemma_run_closes,
    lemma_run_opens,
    MatchReport,
};
use crate::trade_position::{
    count_kind,
    lemma_count_kind_concat,
    lemma_net_lots_concat,
    lemma_transition_as_runs,
    lemma_transition_counts,
    long_part,
    net_lots,
    short_part,
    transition_actions,
    unit_changes,
    unit_run,
    TradePositionState,
};
use crate::types::{pair_views, ActionKind, Direction, Price, TradeAction, Weight};

verus! {

/// One bar of one symbol as a table hands it over: a field is `None` where
/// the table holds a null. `volume` is the signed lot target.
#[derive(Debug, Clone, Copy, PartialEq, Eq, Structural)]
pub struct BarRow {
    pub dt: Option<i64>,
    pub volume: Option<i32>,
    pub price: Option<Price>,
    pub bar_id: Option<u32>,
    pub weight: Option<Weight>,
}

/// One bar with every field present.
#[derive(Debug, Clone, Copy, PartialEq, Eq, Structural)]
pub struct Bar {
    pub dt: i64,
    pub volume: i32,
    pub price: Price,
    pub bar_id: usize,
}

impl BarRow {
    /// Whether no field is null.
    pub open spec fn present(self) -> bool {
        self.dt is Some && self.volume is Some && self.price is Some && self.bar_id is Some
            && self.weight is Some
    }

    /// The bar of a row without nulls.
    pub open spec fn bar(self) -> Bar {
        Bar {
            dt: self.dt->0,
            volume: self.volume->0,
            price: self.price->0,
            bar_id: self.bar_id->0 as usize,
        }
    }
}

/// Whether no row holds a null.
pub open spec fn all_present(rows: Seq<BarRow>) -> bool {
    forall|i: int| 0 <= i < rows.len() ==> (#[trigger] rows[i]).present()
}

/// The bars of rows without nulls.
pub open spec fn bars_of(rows: Seq<BarRow>) -> Seq<Bar> {
    rows.map_values(|row: BarRow| row.bar())
}

/// Bars in the order of time: neither the bar numbers nor the timestamps
/// ever go back, and every bar number leaves room to count the bars of a
/// pair.
pub open spec fn bars_in_order(bars: Seq<Bar>) -> bool {
    &&& forall|i: int, j: int|
        0 <= i <= j < bars.len() ==> bars[i].bar_id <= bars[j].bar_id && bars[i].dt <= bars[j].dt
    &&& forall|i: int| 0 <= i < bars.len() ==> bars[i].bar_id < usize::MAX
}

/// The signed lots held after the bars: the last bar's target, or none
/// before the first bar.
pub open spec fn position_after(bars: Seq<Bar>) -> int {
    if bars.len() == 0 {
        0
    } else {
        bars.last().volume as int
    }
}

/// Every action that the state machine emits over the bars, starting flat.
pub open spec fn series_actions(bars: Seq<Bar>) -> Seq<TradeAction>
    decreases bars.len(),
{
    if bars.len() == 0 {
        Seq::empty()
    } else {
        let before = bars.drop_last();
        let bar = bars.last();
        series_actions(before) + transition_actions(
            position_after(before),
            bar.volume as int,
            bar.dt,
            bar.price,
            bar.bar_id,
        )
    }
}

/// The message of the error for a null in a row.
pub open spec fn null_message() -> Seq<char> {
    "DataFrame contains null values in required columns"@
}

/// The message of the error for bars that are not in the order of time.
pub open spec fn disorder_message() -> Seq<char> {
    "bars are not in chronological order"@
}

/// The rows as bars, or `None` when a row holds a null.
pub fn complete_bars(rows: &Vec<BarRow>) -> (bars: Option<Vec<Bar>>)
    ensures
        bars is Some <==> all_present(rows@),
        bars matches Some(found) ==> found@ == bars_of(rows@),
{
    let mut bars: Vec<Bar> = Vec::new();
    let mut at: usize = 0;
    while at < rows.len()
        invariant
            at <= rows.len(),
            all_present(rows@.take(at as int)),
            bars@ == bars_of(rows@.take(at as int)),
        decreases rows.len() - at,
    {
        let row: BarRow = rows[at];
        match (row.dt, row.volume, row.price, row.bar_id, row.weight) {
            (Some(dt), Some(volume), Some(price), Some(bar_id), Some(_)) => {
                bars.push(Bar { dt, volume, price, bar_id: bar_id as usize });
            },
            _ => {
                assert(!rows@[at as int].present());
                return None;
            },
        }
        at = at + 1;
        assert(bars@ =~= bars_of(rows@.take(at as int)));
    }
    assert(rows@.take(at as int) =~= rows@);
    Some(bars)
}

/// Whether the bars are in the order of time.
pub fn check_bar_order(bars: &Vec<Bar>) -> (ordered: bool)
    ensures
        ordered == bars_in_order(bars@),
{
    let mut at: usize = 0;
    while at < bars.len()
        invariant
            at <= bars.len(),
            bars_in_order(bars@.take(at as int)),
        decreases bars.len() - at,
    {
        let bar: Bar = bars[at];
        if bar.bar_id >= usize::MAX {
            return false;
        }
        if at > 0 {
            let previous: Bar = bars[at - 1];
            if previous.bar_id > bar.bar_id || previous.dt > bar.dt {
                assert(!(bars@[at - 1].bar_id <= bars@[at as int].bar_id && bars@[at - 1].dt
                    <= bars@[at as int].dt));
                return false;
            }
        }
        proof {
            let shorter = bars@.take(at as int);
            let longer = bars@.take(at as int + 1);
            assert forall|i: int, j: int| 0 <= i <= j < longer.len() implies longer[i].bar_id
                <= longer[j].bar_id && longer[i].dt <= longer[j].dt by {
                if j == at as int && i < j {
                    assert(shorter[i].bar_id <= shorter[at as int - 1].bar_id);
                    assert(shorter[i].dt <= shorter[at as int - 1].dt);
                } else if j < at as int {
                    assert(shorter[i].bar_id <= shorter[j].bar_id);
                }
            }
            assert forall|i: int| 0 <= i < longer.len() implies longer[i].bar_id < usize::MAX by {
                if i < at as int {
                    assert(shorter[i].bar_id < usize::MAX);
                }
            }
        }
        at = at + 1;
    }
    assert(bars@.take(at as int) =~= bars@);
    true
}

/// The actions over bars in the order of time are themselves in that
/// order, and none is later than the last bar.
pub proof fn lemma_series_chronological(bars: Seq<Bar>)
    requires
        bars_in_order(bars),
    ensures
        chronological(series_actions(bars)),
        forall|i: int|
            0 <= i < series_actions(bars).len() ==> {
                &&& bars.len() > 0
                &&& (#[trigger] series_actions(bars)[i]).bar() <= bars.last().bar_id
                &&& series_actions(bars)[i].stamp() <= bars.last().dt
            },
    decreases bars.len(),
{
    if bars.len() > 0 {
        let before = bars.drop_last();
        let bar = bars.last();
        let earlier = series_actions(before);
        let fresh = transition_actions(
            position_after(before),
            bar.volume as int,
            bar.dt,
            bar.price,
            bar.bar_id,
        );
        assert(bars_in_order(before)) by {
            assert forall|i: int, j: int| 0 <= i <= j < before.len() implies before[i].bar_id
                <= before[j].bar_id && before[i].dt <= before[j].dt by {
                assert(bars[i].bar_id <= bars[j].bar_id);
            }
            assert forall|i: int| 0 <= i < before.len() implies before[i].bar_id < usize::MAX by {
                assert(bars[i].bar_id < usize::MAX);
            }
        }
        lemma_series_chronological(before);
        let all = series_actions(bars);
        assert(all == earlier + fresh);
        assert forall|i: int| 0 <= i < all.len() implies (#[trigger] all[i]).bar() <= bar.bar_id
            && all[i].stamp() <= bar.dt && all[i].bar() < usize::MAX by {
            if i < earlier.len() {
                assert(all[i] == earlier[i]);
                assert(before.len() > 0);
                assert(bars[before.len() - 1].bar_id <= bars[bars.len() - 1].bar_id);
                assert(before.last() == bars[before.len() - 1]);
            } else {
                assert(all[i] == fresh[i - earlier.len()]);
                assert(fresh[i - earlier.len()].bar() == bar.bar_id);
                assert(fresh[i - earlier.len()].stamp() == bar.dt);
                assert(bars[bars.len() - 1].bar_id < usize::MAX);
            }
        }
        assert forall|i: int, j: int| 0 <= i <= j < all.len() implies all[i].bar() <= all[j].bar()
            && all[i].stamp() <= all[j].stamp() by {
            if j < earlier.len() {
                assert(all[i] == earlier[i] && all[j] == earlier[j]);
            } else {
                assert(all[j] == fresh[j - earlier.len()]);
                assert(fresh[j - earlier.len()].bar() == bar.bar_id);
                assert(fresh[j - earlier.len()].stamp() == bar.dt);
            }
        }
    }
}

/// The unit-lot changes of one kind over the whole series, starting flat.
pub open spec fn series_changes(bars: Seq<Bar>, kind: ActionKind) -> nat
    decreases bars.len(),
{
    if bars.len() == 0 {
        0
    } else {
        series_changes(bars.drop_last(), kind) + unit_changes(
            position_after(bars.drop_last()),
            bars.last().volume as int,
            kind,
        )
    }
}

/// Over a whole series the state machine emits of each kind exactly as
/// many actions as the lot series changes by units of that kind.
pub proof fn lemma_series_counts(bars: Seq<Bar>, kind: ActionKind)
    ensures
        count_kind(series_actions(bars), kind) == series_changes(bars, kind),
    decreases bars.len(),
{
    if bars.len() > 0 {
        let before = bars.drop_last();
        let bar = bars.last();
        lemma_series_counts(before, kind);
        lemma_transition_counts(
            position_after(before),
            bar.volume as int,
            bar.dt,
            bar.price,
            bar.bar_id,
            kind,
        );
        lemma_count_kind_concat(
            series_actions(before),
            transition_actions(
                position_after(before),
                bar.volume as int,
                bar.dt,
                bar.price,
                bar.bar_id,
            ),
            kind,
        );
    }
}

/// The actions emitted up to a bar are the first actions emitted over the
/// whole series.
pub proof fn lemma_series_prefix(bars: Seq<Bar>, upto: int)
    requires
        0 <= upto <= bars.len(),
    ensures
        series_actions(bars.take(upto)).len() <= series_actions(bars).len(),
        series_actions(bars.take(upto)) == series_actions(bars).take(
            series_actions(bars.take(upto)).len() as int,
        ),
    decreases bars.len(),
{
    if upto == bars.len() {
        assert(bars.take(upto) =~= bars);
        assert(series_actions(bars).take(series_actions(bars).len() as int) =~= series_actions(
            bars,
        ));
    } else {
        let before = bars.drop_last();
        assert(before.take(upto) =~= bars.take(upto));
        lemma_series_prefix(before, upto);
        let head = series_actions(bars.take(upto));
        assert(series_actions(bars).take(head.len() as int) =~= series_actions(before).take(
            head.len() as int,
        ));
    }
}

/// The signed lots of the actions emitted up to a bar add up to that bar's
/// lot target: the action stream rebuilds the lot series.
pub proof fn lemma_series_rebuilds_lots(bars: Seq<Bar>, upto: int)
    requires
        0 <= upto <= bars.len(),
    ensures
        net_lots(series_actions(bars.take(upto))) == position_after(bars.take(upto)),
        upto > 0 ==> position_after(bars.take(upto)) == bars[upto - 1].volume,
    decreases upto,
{
    if upto > 0 {
        let shown = bars.take(upto);
        let before = shown.drop_last();
        let bar = shown.last();
        assert(before =~= bars.take(upto - 1));
        lemma_series_rebuilds_lots(bars, upto - 1);
        lemma_transition_counts(
            position_after(before),
            bar.volume as int,
            bar.dt,
            bar.price,
            bar.bar_id,
            ActionKind::OpenLong,
        );
        lemma_net_lots_concat(
            series_actions(before),
            transition_actions(
                position_after(before),
                bar.volume as int,
                bar.dt,
                bar.price,
                bar.bar_id,
            ),
        );
    } else {
        assert(bars.take(0) =~= Seq::<Bar>::empty());
    }
}

/// The matcher never drops a close that the state machine emitted: after a
/// whole series nothing is unmatched, and as many opens wait on each side
/// as lots are held there.
pub proof fn lemma_series_books_balance(symbol: Seq<char>, bars: Seq<Bar>)
    ensures
        ledger_after(symbol, series_actions(bars)).unmatched == Seq::<TradeAction>::empty(),
        ledger_after(symbol, series_actions(bars)).open_longs.len() == long_part(
            position_after(bars),
        ),
        ledger_after(symbol, series_actions(bars)).open_shorts.len() == short_part(
            position_after(bars),
        ),
    decreases bars.len(),
{
    if bars.len() > 0 {
        let before = bars.drop_last();
        let bar = bars.last();
        let cur = position_after(before);
        let target = bar.volume as int;
        lemma_series_books_balance(symbol, before);
        let long_closes = unit_run(cur, target, ActionKind::CloseLong, bar.dt, bar.price, bar.bar_id);
        let short_closes = unit_run(
            cur,
            target,
            ActionKind::CloseShort,
            bar.dt,
            bar.price,
            bar.bar_id,
        );
        let long_opens = unit_run(cur, target, ActionKind::OpenLong, bar.dt, bar.price, bar.bar_id);
        let short_opens = unit_run(cur, target, ActionKind::OpenShort, bar.dt, bar.price, bar.bar_id);
        let fresh = transition_actions(cur, target, bar.dt, bar.price, bar.bar_id);
        lemma_transition_as_runs(cur, target, bar.dt, bar.price, bar.bar_id);
        let start = ledger_after(symbol, series_actions(before));
        lemma_ledger_run_concat(symbol, empty_ledger(), series_actions(before), fresh);
        lemma_ledger_run_concat(symbol, start, long_closes + short_closes + long_opens, short_opens);
        lemma_ledger_run_concat(symbol, start, long_closes + short_closes, long_opens);
        lemma_ledger_run_concat(symbol, start, long_closes, short_closes);
        lemma_run_closes(symbol, start, Direction::Long, long_closes);
        let first = ledger_run(symbol, start, long_closes);
        lemma_run_closes(symbol, first, Direction::Short, short_closes);
        let second = ledger_run(symbol, first, short_closes);
        lemma_run_opens(symbol, second, Direction::Long, long_opens);
        let third = ledger_run(symbol, second, long_opens);
        lemma_run_opens(symbol, third, Direction::Short, short_opens);
    }
}

/// Turns the bars of one symbol into trade pairs.
#[derive(Debug, Clone, Copy, PartialEq, Eq, Structural)]
pub struct MetricProcessor {
    pub config: BacktestConfig,
}

impl MetricProcessor {
    pub fn new(config: BacktestConfig) -> (processor: MetricProcessor)
        ensures
            processor.config == config,
    {
        MetricProcessor { config }
    }

    /// Every action that the state machine emits over the bars, starting
    /// flat.
    pub fn generate_actions(&self, bars: &Vec<Bar>) -> (all_actions: Vec<TradeAction>)
        ensures
            all_actions@ == series_actions(bars@),
    {
        let mut state = TradePositionState::Flat;
        let mut all_actions: Vec<TradeAction> = Vec::new();
        let mut at: usize = 0;
        assert(bars@.take(0) =~= Seq::empty());
        while at < bars.len()
            invariant
                at <= bars.len(),
                state == TradePositionState::holding(position_after(bars@.take(at as int))),
                all_actions@ == series_actions(bars@.take(at as int)),
            decreases bars.len() - at,
        {
            let bar: Bar = bars[at];
            proof {
                let upto = bars@.take(at as int + 1);
                assert(upto.drop_last() =~= bars@.take(at as int));
                assert(upto.last() == bar);
            }
            let mut actions = state.handle_transition(bar.volume, bar.dt, bar.price, bar.bar_id);
            all_actions.append(&mut actions);
            at = at + 1;
        }
        assert(bars@.take(at as int) =~= bars@);
        all_actions
    }

    /// Walks the state machine over the rows of one symbol and matches what
    /// it emits into pairs. Rows with a null are refused, and so are rows
    /// out of the order of time.
    pub fn generate_trade_pairs(&self, symbol: &str, rows: &Vec<BarRow>) -> (made: CzscResult<
        MatchReport,
    >)
        ensures
            if !all_present(rows@) {
                made matches Err(CzscError::Unknown(message)) && message@ == null_message()
            } else if !bars_in_order(bars_of(rows@)) {
                made matches Err(CzscError::BacktestLogic(message)) && message@
                    == disorder_message()
            } else {
                made matches Ok(report) && {
                    let ledger = ledger_after(symbol@, series_actions(bars_of(rows@)));
                    &&& pair_views(report.trade_pairs@) == ledger.pairs
                    &&& report.unmatched@ == Seq::<TradeAction>::empty()
                    &&& forall|k: int|
                        0 <= k < report.trade_pairs.len() ==> #[trigger] report.trade_pairs[k].holding_days
                            >= 1 && report.trade_pairs[k].bar_count >= 1
                }
            },
    {
        match complete_bars(rows) {
            None => Err(
                CzscError::Unknown(
                    String::from_str("DataFrame contains null values in required columns"),
                ),
            ),
            Some(bars) => {
                if !check_bar_order(&bars) {
                    Err(
                        CzscError::BacktestLogic(
                            String::from_str("bars are not in chronological order"),
                        ),
                    )
                } else {
                    let all_actions = self.generate_actions(&bars);
                    proof {
                        lemma_series_chronological(bars@);
                        lemma_series_books_balance(symbol@, bars@);
                    }
                    Ok(actions_to_trade_pairs(symbol, all_actions))
                }
            },
        }
    }
}

} // verus!
