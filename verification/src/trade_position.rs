//! The position state machine: one signed lot target per bar comes in, the
//! unit trade actions that move the position there come out.

use vstd::prelude::*;
use crate::types::{action_of, ActionKind, Price, TradeAction};

verus! {

/// The position held in one symbol.
#[derive(Debug, Clone, Copy, PartialEq, Eq, Structural)]
pub enum TradePositionState {
    /// No position.
    Flat,
    /// A long position of that many lots.
    Long(u32),
    /// A short position of that many lots.
    Short(u32),
}

/// The lots held long when the signed lot count is `lots`.
pub open spec fn long_part(lots: int) -> nat {
    if lots > 0 {
        lots as nat
    } else {
        0
    }
}

/// The lots held short when the signed lot count is `lots`.
pub open spec fn short_part(lots: int) -> nat {
    if lots < 0 {
        (-lots) as nat
    } else {
        0
    }
}

/// By how much `a` exceeds `b`, or zero.
pub open spec fn excess(a: nat, b: nat) -> nat {
    if a > b {
        (a - b) as nat
    } else {
        0
    }
}

/// `count` copies of one action.
pub open spec fn repeat(action: TradeAction, count: nat) -> Seq<TradeAction> {
    Seq::new(count, |i: int| action)
}

/// The actions emitted when a position of `cur` signed lots is given the
/// target `target` on the bar `(dt, price, bar_id)`: one action per unit of
/// change, closes before opens, and no netting across a change of sign.
pub open spec fn transition_actions(
    cur: int,
    target: int,
    dt: i64,
    price: Price,
    bar_id: usize,
) -> Seq<TradeAction> {
    let open_long = TradeAction::OpenLong { dt, price, bar_id };
    let open_short = TradeAction::OpenShort { dt, price, bar_id };
    let close_long = TradeAction::CloseLong { dt, price, bar_id };
    let close_short = TradeAction::CloseShort { dt, price, bar_id };
    if cur == target {
        Seq::empty()
    } else if cur >= 0 && target >= 0 {
        if target > cur {
            repeat(open_long, (target - cur) as nat)
        } else {
            repeat(close_long, (cur - target) as nat)
        }
    } else if cur <= 0 && target <= 0 {
        if target < cur {
            repeat(open_short, (cur - target) as nat)
        } else {
            repeat(close_short, (target - cur) as nat)
        }
    } else if cur > 0 {
        repeat(close_long, cur as nat) + repeat(open_short, (-target) as nat)
    } else {
        repeat(close_short, (-cur) as nat) + repeat(open_long, target as nat)
    }
}

/// The sum of the signed lots of a run of actions.
pub open spec fn net_lots(actions: Seq<TradeAction>) -> int
    decreases actions.len(),
{
    if actions.len() == 0 {
        0
    } else {
        net_lots(actions.drop_last()) + actions.last().signed_lot()
    }
}

/// How many actions of one kind a run holds.
pub open spec fn count_kind(actions: Seq<TradeAction>, kind: ActionKind) -> nat
    decreases actions.len(),
{
    if actions.len() == 0 {
        0
    } else {
        let rest = count_kind(actions.drop_last(), kind);
        if actions.last().kind() == kind {
            rest + 1
        } else {
            rest
        }
    }
}

impl TradePositionState {
    /// The signed lot count: positive when long, negative when short.
    pub open spec fn lots(self) -> int {
        match self {
            TradePositionState::Flat => 0,
            TradePositionState::Long(n) => n as int,
            TradePositionState::Short(n) => -(n as int),
        }
    }

    /// The state that holds `target` signed lots. Zero is always `Flat`.
    pub open spec fn holding(target: int) -> TradePositionState {
        if target > 0 {
            TradePositionState::Long(target as u32)
        } else if target < 0 {
            TradePositionState::Short((-target) as u32)
        } else {
            TradePositionState::Flat
        }
    }

    fn gen_trade_actions(volume: u32, action: TradeAction) -> (actions: Vec<TradeAction>)
        ensures
            actions@ == repeat(action, volume as nat),
    {
        let mut actions: Vec<TradeAction> = Vec::new();
        let mut done: u32 = 0;
        while done < volume
            invariant
                done <= volume,
                actions@ == repeat(action, done as nat),
            decreases volume - done,
        {
            actions.push(action);
            done = done + 1;
            assert(actions@ =~= repeat(action, done as nat));
        }
        actions
    }

    fn surplus(a: u32, b: u32) -> (over: u32)
        ensures
            over == excess(a as nat, b as nat),
    {
        if a > b {
            a - b
        } else {
            0
        }
    }

    /// Moves the position to `new_volume` signed lots on the bar
    /// `(dt, price, bar_id)` and returns the unit actions that do so:
    /// first what is closed, then what is opened. A state that holds no
    /// lots counts as flat whatever its side, and a target of zero always
    /// ends flat.
    pub fn handle_transition(
        &mut self,
        new_volume: i32,
        dt: i64,
        price: Price,
        bar_id: usize,
    ) -> (trade_actions: Vec<TradeAction>)
        ensures
            trade_actions@ == transition_actions(
                old(self).lots(),
                new_volume as int,
                dt,
                price,
                bar_id,
            ),
            *final(self) == TradePositionState::holding(new_volume as int),
    {
        let current: TradePositionState = *self;
        let held_long: u32 = match current {
            TradePositionState::Long(volume) => volume,
            _ => 0,
        };
        let held_short: u32 = match current {
            TradePositionState::Short(volume) => volume,
            _ => 0,
        };
        let wide: i64 = new_volume as i64;
        let wanted_long: u32 = if wide > 0 {
            wide as u32
        } else {
            0
        };
        let wanted_short: u32 = if wide < 0 {
            (-wide) as u32
        } else {
            0
        };
        let mut trade_actions = Self::gen_trade_actions(
            Self::surplus(held_long, wanted_long),
            TradeAction::CloseLong { dt, price, bar_id },
        );
        let mut short_closes = Self::gen_trade_actions(
            Self::surplus(held_short, wanted_short),
            TradeAction::CloseShort { dt, price, bar_id },
        );
        let mut long_opens = Self::gen_trade_actions(
            Self::surplus(wanted_long, held_long),
            TradeAction::OpenLong { dt, price, bar_id },
        );
        let mut short_opens = Self::gen_trade_actions(
            Self::surplus(wanted_short, held_short),
            TradeAction::OpenShort { dt, price, bar_id },
        );
        trade_actions.append(&mut short_closes);
        trade_actions.append(&mut long_opens);
        trade_actions.append(&mut short_opens);
        *self = if new_volume > 0 {
            TradePositionState::Long(wanted_long)
        } else if new_volume < 0 {
            TradePositionState::Short(wanted_short)
        } else {
            TradePositionState::Flat
        };
        proof {
            lemma_transition_as_runs(current.lots(), new_volume as int, dt, price, bar_id);
        }
        trade_actions
    }
}

/// The signed lots of two runs add up over their concatenation.
pub proof fn lemma_net_lots_concat(a: Seq<TradeAction>, b: Seq<TradeAction>)
    ensures
        net_lots(a + b) == net_lots(a) + net_lots(b),
    decreases b.len(),
{
    if b.len() == 0 {
        assert(a + b =~= a);
    } else {
        assert((a + b).drop_last() =~= a + b.drop_last());
        lemma_net_lots_concat(a, b.drop_last());
    }
}

/// The counts of one kind add up over a concatenation.
pub proof fn lemma_count_kind_concat(a: Seq<TradeAction>, b: Seq<TradeAction>, kind: ActionKind)
    ensures
        count_kind(a + b, kind) == count_kind(a, kind) + count_kind(b, kind),
    decreases b.len(),
{
    if b.len() == 0 {
        assert(a + b =~= a);
    } else {
        assert((a + b).drop_last() =~= a + b.drop_last());
        lemma_count_kind_concat(a, b.drop_last(), kind);
    }
}

/// A run of `count` copies of one action nets `count` times its signed lot
/// and holds `count` actions of its kind and none of any other.
pub proof fn lemma_repeat_totals(action: TradeAction, count: nat, kind: ActionKind)
    ensures
        net_lots(repeat(action, count)) == count * action.signed_lot(),
        count_kind(repeat(action, count), kind) == if action.kind() == kind {
            count
        } else {
            0
        },
    decreases count,
{
    if count > 0 {
        let shorter = (count - 1) as nat;
        assert(repeat(action, count).drop_last() =~= repeat(action, shorter));
        lemma_repeat_totals(action, shorter, kind);
        assert(count * action.signed_lot() == shorter * action.signed_lot()
            + action.signed_lot()) by (nonlinear_arith)
            requires
                shorter == count - 1,
        ;
    }
}

/// The unit-lot changes of one kind between two signed lot counts: a long
/// opens by as much as the long holding grows and closes by as much as it
/// shrinks, and so for a short.
pub open spec fn unit_changes(cur: int, target: int, kind: ActionKind) -> nat {
    match kind {
        ActionKind::OpenLong => excess(long_part(target), long_part(cur)),
        ActionKind::CloseLong => excess(long_part(cur), long_part(target)),
        ActionKind::OpenShort => excess(short_part(target), short_part(cur)),
        ActionKind::CloseShort => excess(short_part(cur), short_part(target)),
    }
}

/// The actions of one kind that a transition emits, as a run.
pub open spec fn unit_run(
    cur: int,
    target: int,
    kind: ActionKind,
    dt: i64,
    price: Price,
    bar_id: usize,
) -> Seq<TradeAction> {
    repeat(action_of(kind, dt, price, bar_id), unit_changes(cur, target, kind))
}

/// One transition emits four runs in a row, each possibly empty: the long
/// closes, the short closes, the long opens, the short opens.
pub proof fn lemma_transition_as_runs(cur: int, target: int, dt: i64, price: Price, bar_id: usize)
    ensures
        transition_actions(cur, target, dt, price, bar_id) == unit_run(
            cur,
            target,
            ActionKind::CloseLong,
            dt,
            price,
            bar_id,
        ) + unit_run(cur, target, ActionKind::CloseShort, dt, price, bar_id) + unit_run(
            cur,
            target,
            ActionKind::OpenLong,
            dt,
            price,
            bar_id,
        ) + unit_run(cur, target, ActionKind::OpenShort, dt, price, bar_id),
{
    assert(transition_actions(cur, target, dt, price, bar_id) =~= unit_run(
        cur,
        target,
        ActionKind::CloseLong,
        dt,
        price,
        bar_id,
    ) + unit_run(cur, target, ActionKind::CloseShort, dt, price, bar_id) + unit_run(
        cur,
        target,
        ActionKind::OpenLong,
        dt,
        price,
        bar_id,
    ) + unit_run(cur, target, ActionKind::OpenShort, dt, price, bar_id));
}

/// What one transition emits, counted: of each kind as many actions as the
/// lot count changes by units of that kind, and a signed sum equal to the
/// change of the lot count.
pub proof fn lemma_transition_counts(
    cur: int,
    target: int,
    dt: i64,
    price: Price,
    bar_id: usize,
    kind: ActionKind,
)
    ensures
        count_kind(transition_actions(cur, target, dt, price, bar_id), kind) == unit_changes(
            cur,
            target,
            kind,
        ),
        net_lots(transition_actions(cur, target, dt, price, bar_id)) == target - cur,
{
    let long_closes = unit_run(cur, target, ActionKind::CloseLong, dt, price, bar_id);
    let short_closes = unit_run(cur, target, ActionKind::CloseShort, dt, price, bar_id);
    let long_opens = unit_run(cur, target, ActionKind::OpenLong, dt, price, bar_id);
    let short_opens = unit_run(cur, target, ActionKind::OpenShort, dt, price, bar_id);
    lemma_transition_as_runs(cur, target, dt, price, bar_id);
    lemma_net_lots_concat(long_closes + short_closes + long_opens, short_opens);
    lemma_net_lots_concat(long_closes + short_closes, long_opens);
    lemma_net_lots_concat(long_closes, short_closes);
    lemma_count_kind_concat(long_closes + short_closes + long_opens, short_opens, kind);
    lemma_count_kind_concat(long_closes + short_closes, long_opens, kind);
    lemma_count_kind_concat(long_closes, short_closes, kind);
    assert forall|emitted: ActionKind|
        net_lots(#[trigger] unit_run(cur, target, emitted, dt, price, bar_id)) == unit_changes(
            cur,
            target,
            emitted,
        ) * action_of(emitted, dt, price, bar_id).signed_lot() && count_kind(
            unit_run(cur, target, emitted, dt, price, bar_id),
            kind,
        ) == (if emitted == kind {
            unit_changes(cur, target, emitted)
        } else {
            0
        }) by {
        lemma_repeat_totals(
            action_of(emitted, dt, price, bar_id),
            unit_changes(cur, target, emitted),
            kind,
        );
    }
}

} // verus!
