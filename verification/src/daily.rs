//! Grouping the bars of one symbol by calendar day, the frame on which the
//! per-bar metrics are summed into daily ones.

use vstd::prelude::*;
use vstd::string::StringExecFns;
use crate::calendar::{calendar_day, day_number, lemma_day_number_monotonic};
use crate::errors::{CzscError, CzscResult};
use crate::trade_position::{
    lemma_transition_as_runs,
    long_part,
    short_part,
    transition_actions,
};
use crate::types::{Direction, Price};

verus! {

/// The bars of one calendar day: the rows from `start` up to, not
/// including, `end`, all of which fall on `day` (days since 1970-01-01).
#[derive(Debug, Clone, Copy, PartialEq, Eq, Structural)]
pub struct DayGroup {
    pub day: i32,
    pub start: usize,
    pub end: usize,
}

/// Timestamps that never go back.
pub open spec fn stamps_in_order(dts: Seq<i64>) -> bool {
    forall|i: int, j: int| 0 <= i <= j < dts.len() ==> dts[i] <= dts[j]
}

/// Whether every row of the group falls on the group's day.
pub open spec fn holds_one_day(dts: Seq<i64>, group: DayGroup) -> bool {
    forall|i: int| group.start <= i < group.end ==> day_number(#[trigger] dts[i]) == group.day
}

/// Whether group `k` starts where the group before it ends, on a later day.
pub open spec fn follows_on(groups: Seq<DayGroup>, k: int) -> bool {
    groups[k - 1].end == groups[k].start && groups[k - 1].day < groups[k].day
}

/// Whether `groups` is the grouping by day of the first `upto` rows: the
/// groups follow one another without gap or overlap from the first row to
/// row `upto`, none is empty, each holds rows of one day only, and each
/// day is later than the day of the group before.
pub open spec fn groups_rows(dts: Seq<i64>, groups: Seq<DayGroup>, upto: int) -> bool {
    &&& groups.len() == 0 <==> upto == 0
    &&& groups.len() > 0 ==> groups[0].start == 0 && groups.last().end == upto
    &&& forall|k: int|
        0 <= k < groups.len() ==> (#[trigger] groups[k]).start < groups[k].end <= dts.len()
            && holds_one_day(dts, groups[k])
    &&& forall|k: int| 0 < k < groups.len() ==> #[trigger] follows_on(groups, k)
}

/// Whether `groups` is the grouping of all the rows by day.
pub open spec fn is_day_grouping(dts: Seq<i64>, groups: Seq<DayGroup>) -> bool {
    groups_rows(dts, groups, dts.len() as int)
}

/// A grouping of the first rows, with the group of the next day put
/// behind it, is the grouping of the rows up to that group's end.
proof fn lemma_grouping_grows(dts: Seq<i64>, groups: Seq<DayGroup>, group: DayGroup)
    requires
        groups_rows(dts, groups, group.start as int),
        group.start < group.end <= dts.len(),
        holds_one_day(dts, group),
        groups.len() > 0 ==> groups.last().day < group.day,
    ensures
        groups_rows(dts, groups.push(group), group.end as int),
{
    let grown = groups.push(group);
    assert forall|k: int| 0 <= k < grown.len() implies (#[trigger] grown[k]).start < grown[k].end
        <= dts.len() && holds_one_day(dts, grown[k]) by {
        if k < groups.len() {
            assert(grown[k] == groups[k]);
        }
    }
    assert forall|k: int| 0 < k < grown.len() implies #[trigger] follows_on(grown, k) by {
        if k < groups.len() {
            assert(follows_on(groups, k));
        }
    }
}

/// The message of the error for timestamps that go back.
pub open spec fn stamp_disorder_message() -> Seq<char> {
    "timestamps are not in chronological order"@
}

/// Groups the rows of one symbol by the calendar day of their timestamps.
/// Timestamps that go back are refused.
pub fn group_by_day(dts: &Vec<i64>) -> (made: CzscResult<Vec<DayGroup>>)
    ensures
        if stamps_in_order(dts@) {
            made matches Ok(groups) && is_day_grouping(dts@, groups@)
        } else {
            made matches Err(CzscError::BacktestLogic(message)) && message@
                == stamp_disorder_message()
        },
{
    let mut groups: Vec<DayGroup> = Vec::new();
    let total: usize = dts.len();
    if total == 0 {
        return Ok(groups);
    }
    let mut open_day: i32 = calendar_day(dts[0]);
    let mut open_start: usize = 0;
    let mut at: usize = 1;
    while at < total
        invariant
            total == dts.len(),
            1 <= at <= total,
            open_start < at,
            stamps_in_order(dts@.take(at as int)),
            holds_one_day(dts@, DayGroup { day: open_day, start: open_start, end: at }),
            groups_rows(dts@, groups@, open_start as int),
            groups@.len() > 0 ==> groups@.last().day < open_day,
        decreases total - at,
    {
        let stamp: i64 = dts[at];
        if stamp < dts[at - 1] {
            assert(!(dts@[at - 1] <= dts@[at as int]));
            return Err(
                CzscError::BacktestLogic(
                    String::from_str("timestamps are not in chronological order"),
                ),
            );
        }
        proof {
            let shorter = dts@.take(at as int);
            let longer = dts@.take(at as int + 1);
            assert forall|i: int, j: int| 0 <= i <= j < longer.len() implies longer[i]
                <= longer[j] by {
                if j == at as int && i < j {
                    assert(shorter[i] <= shorter[at as int - 1]);
                } else if j < at as int {
                    assert(shorter[i] <= shorter[j]);
                }
            }
            lemma_day_number_monotonic(dts@[at - 1], stamp);
            assert(day_number(dts@[at - 1]) == open_day);
        }
        let day: i32 = calendar_day(stamp);
        if day != open_day {
            let group = DayGroup { day: open_day, start: open_start, end: at };
            proof {
                lemma_grouping_grows(dts@, groups@, group);
            }
            groups.push(group);
            open_day = day;
            open_start = at;
        }
        at = at + 1;
    }
    let group = DayGroup { day: open_day, start: open_start, end: total };
    proof {
        assert(dts@.take(total as int) =~= dts@);
        lemma_grouping_grows(dts@, groups@, group);
    }
    groups.push(group);
    Ok(groups)
}

/// With one bar per day the grouping is the series itself: the k-th group
/// holds the k-th row and nothing else, so that summing within the groups
/// leaves every per-bar value as it is.
pub proof fn lemma_one_bar_per_day(dts: Seq<i64>, groups: Seq<DayGroup>)
    requires
        is_day_grouping(dts, groups),
        forall|i: int, j: int| 0 <= i < j < dts.len() ==> day_number(dts[i]) < day_number(dts[j]),
    ensures
        groups.len() == dts.len(),
        forall|k: int|
            0 <= k < groups.len() ==> #[trigger] groups[k] == (DayGroup {
                day: day_number(dts[k]) as i32,
                start: k as usize,
                end: (k + 1) as usize,
            }),
{
    assert forall|k: int| 0 <= k < groups.len() implies (#[trigger] groups[k]).end
        == groups[k].start + 1 by {
        let first = groups[k].start as int;
        let last = groups[k].end as int - 1;
        assert(holds_one_day(dts, groups[k]));
        if first < last {
            assert(day_number(dts[first]) == groups[k].day);
            assert(day_number(dts[last]) == groups[k].day);
        }
    }
    lemma_unit_groups_start(groups, groups.len() as int);
    assert forall|k: int| 0 <= k < groups.len() implies #[trigger] groups[k] == (DayGroup {
        day: day_number(dts[k]) as i32,
        start: k as usize,
        end: (k + 1) as usize,
    }) by {
        lemma_unit_groups_start(groups, k + 1);
        assert(holds_one_day(dts, groups[k]));
        assert(day_number(dts[k]) == groups[k].day);
    }
}

proof fn lemma_unit_groups_start(groups: Seq<DayGroup>, upto: int)
    requires
        groups.len() > 0 ==> groups[0].start == 0,
        forall|k: int| 0 < k < groups.len() ==> #[trigger] follows_on(groups, k),
        forall|k: int| 0 <= k < groups.len() ==> (#[trigger] groups[k]).end == groups[k].start + 1,
        0 <= upto <= groups.len(),
    ensures
        upto > 0 ==> groups[upto - 1].start == upto - 1 && groups[upto - 1].end == upto,
    decreases upto,
{
    if upto > 1 {
        lemma_unit_groups_start(groups, upto - 1);
        assert(follows_on(groups, upto - 1));
    }
}

/// The rows have one grouping by day and no other.
pub proof fn lemma_day_grouping_unique(dts: Seq<i64>, first: Seq<DayGroup>, second: Seq<DayGroup>)
    requires
        is_day_grouping(dts, first),
        is_day_grouping(dts, second),
    ensures
        first == second,
{
    lemma_groupings_agree(dts, first, second, first.len() as int);
    lemma_groupings_agree(dts, second, first, second.len() as int);
    assert(first =~= second);
}

proof fn lemma_groupings_agree(
    dts: Seq<i64>,
    first: Seq<DayGroup>,
    second: Seq<DayGroup>,
    upto: int,
)
    requires
        is_day_grouping(dts, first),
        is_day_grouping(dts, second),
        0 <= upto <= first.len(),
    ensures
        upto <= second.len(),
        forall|k: int| 0 <= k < upto ==> first[k] == second[k],
    decreases upto,
{
    if upto > 0 {
        let k = upto - 1;
        lemma_groupings_agree(dts, first, second, k);
        if k > 0 {
            assert(follows_on(first, k));
            assert(first[k - 1] == second[k - 1]);
        }
        assert(k < second.len()) by {
            if k == second.len() {
                assert(first[k].start < first[k].end <= dts.len());
            }
        }
        if k > 0 {
            assert(follows_on(second, k));
        }
        let start = first[k].start as int;
        assert(second[k].start == start);
        assert(holds_one_day(dts, first[k]));
        assert(holds_one_day(dts, second[k]));
        assert(day_number(dts[start]) == first[k].day);
        assert(day_number(dts[start]) == second[k].day);
        lemma_group_not_shorter(dts, first, second, k);
        lemma_group_not_shorter(dts, second, first, k);
    }
}

proof fn lemma_group_not_shorter(
    dts: Seq<i64>,
    first: Seq<DayGroup>,
    second: Seq<DayGroup>,
    k: int,
)
    requires
        is_day_grouping(dts, first),
        is_day_grouping(dts, second),
        0 <= k < first.len(),
        k < second.len(),
        first[k].start == second[k].start,
        first[k].day == second[k].day,
    ensures
        first[k].end >= second[k].end,
{
    let end = first[k].end as int;
    if end < second[k].end {
        assert(second[k].end <= dts.len());
        assert(k + 1 < first.len());
        assert(follows_on(first, k + 1));
        assert(holds_one_day(dts, first[k + 1]));
        assert(first[k + 1].start < first[k + 1].end);
        assert(day_number(dts[end]) == first[k + 1].day);
        assert(holds_one_day(dts, second[k]));
        assert(first[k].start < first[k].end);
        assert(day_number(dts[end]) == second[k].day);
    }
}

/// The distance between two lot counts.
pub open spec fn gap(a: int, b: int) -> nat {
    if a >= b {
        (a - b) as nat
    } else {
        (b - a) as nat
    }
}

/// The lot target before bar `i`: that of the bar before, and none before
/// the first bar.
pub open spec fn lot_before(lots: Seq<i32>, i: int) -> int {
    if i <= 0 {
        0
    } else {
        lots[i - 1] as int
    }
}

/// The part of a signed lot count that a side looks at: all of it for
/// `LongShort`, the lots held long for `Long`, those held short for
/// `Short`.
pub open spec fn side_lots(lots: int, side: Direction) -> int {
    match side {
        Direction::LongShort => lots,
        Direction::Long => long_part(lots) as int,
        Direction::Short => short_part(lots) as int,
    }
}

/// The turnover of bar `i` on one side, in lots: how far that side's lots
/// moved from the bar before. A lot is `10^-digits` of weight, so the
/// turnover in weight is this count scaled by that.
pub open spec fn turnover_at(lots: Seq<i32>, i: int, side: Direction) -> nat {
    gap(side_lots(lots[i] as int, side), side_lots(lot_before(lots, i), side))
}

/// The turnover of the bars from `start` up to, not including, `end`,
/// summed.
pub open spec fn turnover_sum(lots: Seq<i32>, start: int, end: int, side: Direction) -> nat
    decreases end - start,
{
    if end <= start {
        0
    } else {
        turnover_sum(lots, start, end - 1, side) + turnover_at(lots, end - 1, side)
    }
}

/// Whether bar `i` of a series of `total` bars has a bar after it.
pub open spec fn has_next_bar(i: int, total: int) -> bool {
    i + 1 < total
}

/// Where the bars of a group that have a next bar end, in a series of
/// `total` bars. Every bar has a next bar but the last of the series, so
/// the end is that of the group, or one bar earlier for the group that
/// holds the last bar.
pub open spec fn next_bar_end(group: DayGroup, total: int) -> int {
    if group.end == total {
        total - 1
    } else {
        group.end as int
    }
}

/// The bars of a group that have a next bar: those from `group.start` up
/// to, not including, the index returned. The last bar of a series has no
/// next bar, and so no next-bar return; it is left out, never counted as
/// zero. A group that is the last bar alone has no such bar, and the index
/// returned is its start.
pub fn bars_with_next(group: DayGroup, total: usize) -> (end: usize)
    requires
        group.start < group.end <= total,
    ensures
        end == next_bar_end(group, total as int),
        group.start <= end <= group.end,
        forall|i: int|
            group.start <= i < group.end ==> (#[trigger] has_next_bar(i, total as int) <==> i
                < end),
{
    if group.end == total {
        total - 1
    } else {
        group.end
    }
}

/// The turnover of one calendar day, in lots.
#[derive(Debug, Clone, Copy, PartialEq, Eq, Structural)]
pub struct DailyTurnover {
    /// The day and its rows.
    pub group: DayGroup,
    /// The rows of the day that have a next bar run from `group.start` up
    /// to, not including, this index.
    pub with_next_end: usize,
    pub turnover: u128,
    pub long_turnover: u128,
    pub short_turnover: u128,
}

impl DailyTurnover {
    /// Whether any bar of the day has a next bar, that is, whether the day
    /// has a next-bar return at all.
    pub fn has_bar_with_next(&self) -> (any: bool)
        ensures
            any == (self.group.start < self.with_next_end),
    {
        self.group.start < self.with_next_end
    }
}

/// Whether a daily row holds the turnover of the bars of its group, summed
/// net and on each side. The net sum is then the two sides' sums together.
pub open spec fn sums_its_day(lots: Seq<i32>, row: DailyTurnover) -> bool {
    let start = row.group.start as int;
    let end = row.group.end as int;
    &&& row.turnover == turnover_sum(lots, start, end, Direction::LongShort)
    &&& row.long_turnover == turnover_sum(lots, start, end, Direction::Long)
    &&& row.short_turnover == turnover_sum(lots, start, end, Direction::Short)
    &&& row.turnover == row.long_turnover + row.short_turnover
}

/// The groups of a run of daily rows, in order.
pub open spec fn groups_of(rows: Seq<DailyTurnover>) -> Seq<DayGroup> {
    rows.map_values(|row: DailyTurnover| row.group)
}

/// The message of the error for columns of different lengths.
pub open spec fn length_mismatch_message() -> Seq<char> {
    "columns differ in length"@
}

proof fn lemma_turnover_sum_bounded(lots: Seq<i32>, start: int, end: int, side: Direction)
    requires
        0 <= start <= end <= lots.len(),
    ensures
        turnover_sum(lots, start, end, side) <= (end - start) * 0x1_0000_0000,
    decreases end - start,
{
    if start < end {
        lemma_turnover_sum_bounded(lots, start, end - 1, side);
        assert((end - start) * 0x1_0000_0000 == (end - 1 - start) * 0x1_0000_0000 + 0x1_0000_0000)
            by (nonlinear_arith);
    }
}

/// The turnover of one bar, in lots.
#[derive(Debug, Clone, Copy, PartialEq, Eq, Structural)]
pub struct BarTurnover {
    pub turnover: u64,
    pub long_turnover: u64,
    pub short_turnover: u64,
}

/// Whether `bar` holds the turnover of bar `i`, net and on each side. The
/// net turnover is then the two sides' turnover together.
pub open spec fn is_turnover_at(lots: Seq<i32>, i: int, bar: BarTurnover) -> bool {
    &&& bar.turnover == turnover_at(lots, i, Direction::LongShort)
    &&& bar.long_turnover == turnover_at(lots, i, Direction::Long)
    &&& bar.short_turnover == turnover_at(lots, i, Direction::Short)
    &&& bar.turnover == bar.long_turnover + bar.short_turnover
}

fn bar_turnover(previous: i32, current: i32) -> (moved: BarTurnover)
    ensures
        moved.turnover == gap(current as int, previous as int),
        moved.long_turnover == gap(
            long_part(current as int) as int,
            long_part(previous as int) as int,
        ),
        moved.short_turnover == gap(
            short_part(current as int) as int,
            short_part(previous as int) as int,
        ),
        moved.turnover == moved.long_turnover + moved.short_turnover,
{
    let before: i64 = previous as i64;
    let after: i64 = current as i64;
    let turnover: u64 = if after >= before {
        (after - before) as u64
    } else {
        (before - after) as u64
    };
    let long_before: i64 = if before > 0 {
        before
    } else {
        0
    };
    let long_after: i64 = if after > 0 {
        after
    } else {
        0
    };
    let short_before: i64 = if before < 0 {
        -before
    } else {
        0
    };
    let short_after: i64 = if after < 0 {
        -after
    } else {
        0
    };
    let long_turnover: u64 = if long_after >= long_before {
        (long_after - long_before) as u64
    } else {
        (long_before - long_after) as u64
    };
    let short_turnover: u64 = if short_after >= short_before {
        (short_after - short_before) as u64
    } else {
        (short_before - short_after) as u64
    };
    BarTurnover { turnover, long_turnover, short_turnover }
}

/// The turnover of every bar of one symbol, net and on each side, in lots.
/// The first bar moves from no position.
pub fn lot_turnover(lots: &Vec<i32>) -> (moved: Vec<BarTurnover>)
    ensures
        moved@.len() == lots@.len(),
        forall|i: int| 0 <= i < moved@.len() ==> is_turnover_at(lots@, i, #[trigger] moved@[i]),
{
    let mut moved: Vec<BarTurnover> = Vec::new();
    let mut at: usize = 0;
    while at < lots.len()
        invariant
            at <= lots.len(),
            moved@.len() == at,
            forall|i: int| 0 <= i < at ==> is_turnover_at(lots@, i, #[trigger] moved@[i]),
        decreases lots.len() - at,
    {
        let previous: i32 = if at == 0 {
            0
        } else {
            lots[at - 1]
        };
        moved.push(bar_turnover(previous, lots[at]));
        at = at + 1;
    }
    moved
}

/// Sums the turnover of one symbol by calendar day, net and on each side,
/// in lots, and marks in each day the bars that have a next bar. The first
/// bar moves from no position, and the net turnover of a day is its long
/// and its short turnover together. The two columns must be
/// of one length and the timestamps must not go back.
pub fn daily_turnover(dts: &Vec<i64>, lots: &Vec<i32>) -> (made: CzscResult<Vec<DailyTurnover>>)
    ensures
        if dts@.len() != lots@.len() {
            made matches Err(CzscError::DataProcessing(message)) && message@
                == length_mismatch_message()
        } else if !stamps_in_order(dts@) {
            made matches Err(CzscError::BacktestLogic(message)) && message@
                == stamp_disorder_message()
        } else {
            made matches Ok(rows) && {
                &&& is_day_grouping(dts@, groups_of(rows@))
                &&& forall|k: int| 0 <= k < rows@.len() ==> sums_its_day(lots@, #[trigger] rows@[k])
                &&& forall|k: int|
                    0 <= k < rows@.len() ==> (#[trigger] rows@[k]).with_next_end == next_bar_end(
                        rows@[k].group,
                        lots@.len() as int,
                    )
            }
        },
{
    if dts.len() != lots.len() {
        return Err(CzscError::DataProcessing(String::from_str("columns differ in length")));
    }
    let groups = match group_by_day(dts) {
        Ok(groups) => groups,
        Err(error) => {
            return Err(error);
        },
    };
    let mut rows: Vec<DailyTurnover> = Vec::new();
    let mut at: usize = 0;
    while at < groups.len()
        invariant
            at <= groups.len(),
            dts@.len() == lots@.len(),
            is_day_grouping(dts@, groups@),
            rows@.len() == at,
            forall|k: int| 0 <= k < at ==> (#[trigger] rows@[k]).group == groups@[k],
            forall|k: int| 0 <= k < at ==> sums_its_day(lots@, #[trigger] rows@[k]),
            forall|k: int|
                0 <= k < at ==> (#[trigger] rows@[k]).with_next_end == next_bar_end(
                    rows@[k].group,
                    lots@.len() as int,
                ),
        decreases groups.len() - at,
    {
        let group: DayGroup = groups[at];
        let mut turnover: u128 = 0;
        let mut long_turnover: u128 = 0;
        let mut short_turnover: u128 = 0;
        let mut bar: usize = group.start;
        while bar < group.end
            invariant
                group.start <= bar <= group.end <= lots@.len(),
                turnover == turnover_sum(lots@, group.start as int, bar as int, Direction::LongShort),
                long_turnover == turnover_sum(lots@, group.start as int, bar as int, Direction::Long),
                short_turnover == turnover_sum(
                    lots@,
                    group.start as int,
                    bar as int,
                    Direction::Short,
                ),
            decreases group.end - bar,
        {
            let previous: i32 = if bar == 0 {
                0
            } else {
                lots[bar - 1]
            };
            let moved = bar_turnover(previous, lots[bar]);
            proof {
                lemma_turnover_sum_bounded(
                    lots@,
                    group.start as int,
                    bar as int,
                    Direction::LongShort,
                );
                lemma_turnover_sum_bounded(lots@, group.start as int, bar as int, Direction::Long);
                lemma_turnover_sum_bounded(lots@, group.start as int, bar as int, Direction::Short);
                assert((bar - group.start) * 0x1_0000_0000 <= 0x1_0000_0000_0000_0000
                    * 0x1_0000_0000) by (nonlinear_arith)
                    requires
                        0 <= bar - group.start <= 0x1_0000_0000_0000_0000,
                ;
            }
            turnover = turnover + moved.turnover as u128;
            long_turnover = long_turnover + moved.long_turnover as u128;
            short_turnover = short_turnover + moved.short_turnover as u128;
            bar = bar + 1;
        }
        proof {
            lemma_turnover_sum_splits_by_side(lots@, group.start as int, group.end as int);
        }
        let with_next_end: usize = bars_with_next(group, lots.len());
        rows.push(DailyTurnover { group, with_next_end, turnover, long_turnover, short_turnover });
        at = at + 1;
    }
    assert(groups_of(rows@) =~= groups@);
    Ok(rows)
}

/// With one bar per day the daily turnover is the per-bar turnover: the
/// k-th day holds the k-th bar alone, and its sums are that bar's values.
pub proof fn lemma_daily_turnover_of_single_bars(
    dts: Seq<i64>,
    lots: Seq<i32>,
    groups: Seq<DayGroup>,
    side: Direction,
)
    requires
        dts.len() == lots.len(),
        is_day_grouping(dts, groups),
        forall|i: int, j: int| 0 <= i < j < dts.len() ==> day_number(dts[i]) < day_number(dts[j]),
    ensures
        groups.len() == lots.len(),
        forall|k: int|
            0 <= k < groups.len() ==> turnover_sum(
                lots,
                (#[trigger] groups[k]).start as int,
                groups[k].end as int,
                side,
            ) == turnover_at(lots, k, side),
{
    lemma_one_bar_per_day(dts, groups);
    assert forall|k: int| 0 <= k < groups.len() implies turnover_sum(
        lots,
        (#[trigger] groups[k]).start as int,
        groups[k].end as int,
        side,
    ) == turnover_at(lots, k, side) by {
        assert(groups[k].start == k && groups[k].end == k + 1);
        assert(turnover_sum(lots, k, k, side) == 0);
    }
}

/// The two sides never move the same way: on every bar the net turnover
/// is the long turnover and the short turnover together.
pub proof fn lemma_turnover_splits_by_side(lots: Seq<i32>, i: int)
    requires
        0 <= i < lots.len(),
    ensures
        turnover_at(lots, i, Direction::LongShort) == turnover_at(lots, i, Direction::Long)
            + turnover_at(lots, i, Direction::Short),
{
}

/// Over any run of bars the net turnover is the long turnover and the
/// short turnover together.
pub proof fn lemma_turnover_sum_splits_by_side(lots: Seq<i32>, start: int, end: int)
    requires
        0 <= start <= end <= lots.len(),
    ensures
        turnover_sum(lots, start, end, Direction::LongShort) == turnover_sum(
            lots,
            start,
            end,
            Direction::Long,
        ) + turnover_sum(lots, start, end, Direction::Short),
    decreases end - start,
{
    if start < end {
        lemma_turnover_sum_splits_by_side(lots, start, end - 1);
        lemma_turnover_splits_by_side(lots, end - 1);
    }
}

/// The turnover of a bar counts its unit trades: the state machine emits on
/// a bar exactly as many actions as the bar turns over in lots.
pub proof fn lemma_turnover_counts_actions(
    lots: Seq<i32>,
    i: int,
    dt: i64,
    price: Price,
    bar_id: usize,
)
    requires
        0 <= i < lots.len(),
    ensures
        transition_actions(lot_before(lots, i), lots[i] as int, dt, price, bar_id).len()
            == turnover_at(lots, i, Direction::LongShort),
{
    lemma_transition_as_runs(lot_before(lots, i), lots[i] as int, dt, price, bar_id);
    lemma_turnover_splits_by_side(lots, i);
}

} // verus!
