//! Plain data shared by the state machine and the matcher.

use vstd::prelude::*;

verus! {

/// A price as it travels through the integer core: the bit pattern of a
/// 32-bit IEEE-754 value. The core only moves prices from actions to pairs.
#[derive(Debug, Clone, Copy, PartialEq, Eq, Structural)]
pub struct Price {
    pub bits: u32,
}

/// A target weight as it travels through the integer core: the bit pattern
/// of a 64-bit IEEE-754 value. The core only asks whether one is there.
#[derive(Debug, Clone, Copy, PartialEq, Eq, Structural)]
pub struct Weight {
    pub bits: u64,
}

/// Which side of the market a completed trade was on, or, as a filter,
/// both sides.
#[derive(Debug, Clone, Copy, PartialEq, Eq, Structural)]
pub enum Direction {
    Long,
    Short,
    LongShort,
}

/// The four kinds of trade action, without what they carry.
#[derive(Debug, Clone, Copy, PartialEq, Eq, Structural)]
pub enum ActionKind {
    OpenLong,
    OpenShort,
    CloseLong,
    CloseShort,
}

/// One unit-lot trade event. `dt` is nanoseconds since the Unix epoch and
/// `bar_id` the sequence number of the bar on which the event happened.
#[derive(Debug, Clone, Copy, PartialEq, Eq, Structural)]
pub enum TradeAction {
    OpenLong { dt: i64, price: Price, bar_id: usize },
    OpenShort { dt: i64, price: Price, bar_id: usize },
    CloseLong { dt: i64, price: Price, bar_id: usize },
    CloseShort { dt: i64, price: Price, bar_id: usize },
}

/// The action of a kind on a bar.
pub open spec fn action_of(kind: ActionKind, dt: i64, price: Price, bar_id: usize) -> TradeAction {
    match kind {
        ActionKind::OpenLong => TradeAction::OpenLong { dt, price, bar_id },
        ActionKind::OpenShort => TradeAction::OpenShort { dt, price, bar_id },
        ActionKind::CloseLong => TradeAction::CloseLong { dt, price, bar_id },
        ActionKind::CloseShort => TradeAction::CloseShort { dt, price, bar_id },
    }
}

impl TradeAction {
    /// The timestamp carried by the action.
    pub open spec fn stamp(self) -> i64 {
        match self {
            TradeAction::OpenLong { dt, .. } => dt,
            TradeAction::OpenShort { dt, .. } => dt,
            TradeAction::CloseLong { dt, .. } => dt,
            TradeAction::CloseShort { dt, .. } => dt,
        }
    }

    /// The price carried by the action.
    pub open spec fn quote(self) -> Price {
        match self {
            TradeAction::OpenLong { price, .. } => price,
            TradeAction::OpenShort { price, .. } => price,
            TradeAction::CloseLong { price, .. } => price,
            TradeAction::CloseShort { price, .. } => price,
        }
    }

    /// The bar sequence number carried by the action.
    pub open spec fn bar(self) -> usize {
        match self {
            TradeAction::OpenLong { bar_id, .. } => bar_id,
            TradeAction::OpenShort { bar_id, .. } => bar_id,
            TradeAction::CloseLong { bar_id, .. } => bar_id,
            TradeAction::CloseShort { bar_id, .. } => bar_id,
        }
    }

    /// The kind of the action.
    pub open spec fn kind(self) -> ActionKind {
        match self {
            TradeAction::OpenLong { .. } => ActionKind::OpenLong,
            TradeAction::OpenShort { .. } => ActionKind::OpenShort,
            TradeAction::CloseLong { .. } => ActionKind::CloseLong,
            TradeAction::CloseShort { .. } => ActionKind::CloseShort,
        }
    }

    /// The side the action is on: long for the opening and the closing of
    /// a long, short for those of a short.
    pub open spec fn side(self) -> Direction {
        match self {
            TradeAction::OpenLong { .. } => Direction::Long,
            TradeAction::CloseLong { .. } => Direction::Long,
            TradeAction::OpenShort { .. } => Direction::Short,
            TradeAction::CloseShort { .. } => Direction::Short,
        }
    }

    /// Whether the action opens a lot, rather than closes one.
    pub open spec fn opens(self) -> bool {
        match self {
            TradeAction::OpenLong { .. } => true,
            TradeAction::OpenShort { .. } => true,
            TradeAction::CloseLong { .. } => false,
            TradeAction::CloseShort { .. } => false,
        }
    }

    /// What the action adds to the signed lot count: opening a long or
    /// closing a short adds one lot, the other two remove one.
    pub open spec fn signed_lot(self) -> int {
        match self {
            TradeAction::OpenLong { .. } => 1,
            TradeAction::CloseShort { .. } => 1,
            TradeAction::OpenShort { .. } => -1,
            TradeAction::CloseLong { .. } => -1,
        }
    }
}

impl TradeAction {
    /// The timestamp carried by the action.
    pub fn dt(&self) -> (dt: i64)
        ensures
            dt == self.stamp(),
    {
        match self {
            TradeAction::OpenLong { dt, .. } => *dt,
            TradeAction::OpenShort { dt, .. } => *dt,
            TradeAction::CloseLong { dt, .. } => *dt,
            TradeAction::CloseShort { dt, .. } => *dt,
        }
    }

    /// The price carried by the action.
    pub fn price(&self) -> (price: Price)
        ensures
            price == self.quote(),
    {
        match self {
            TradeAction::OpenLong { price, .. } => *price,
            TradeAction::OpenShort { price, .. } => *price,
            TradeAction::CloseLong { price, .. } => *price,
            TradeAction::CloseShort { price, .. } => *price,
        }
    }

    /// The bar sequence number carried by the action.
    pub fn bar_id(&self) -> (bar_id: usize)
        ensures
            bar_id == self.bar(),
    {
        match self {
            TradeAction::OpenLong { bar_id, .. } => *bar_id,
            TradeAction::OpenShort { bar_id, .. } => *bar_id,
            TradeAction::CloseLong { bar_id, .. } => *bar_id,
            TradeAction::CloseShort { bar_id, .. } => *bar_id,
        }
    }
}

/// A completed round trip: one unit lot opened and later closed.
#[derive(Debug, Clone, PartialEq, Eq)]
pub struct TradePair {
    pub symbol: String,
    pub direction: Direction,
    pub open_dt: i64,
    pub close_dt: i64,
    pub open_price: Price,
    pub close_price: Price,
    /// Bars held, both the opening and the closing bar counted.
    pub bar_count: usize,
    /// Calendar days held, both the opening and the closing day counted.
    pub holding_days: i64,
}

/// The mathematical content of a [`TradePair`].
pub struct TradePairView {
    pub symbol: Seq<char>,
    pub direction: Direction,
    pub open_dt: i64,
    pub close_dt: i64,
    pub open_price: Price,
    pub close_price: Price,
    pub bar_count: int,
    pub holding_days: int,
}

impl View for TradePair {
    type V = TradePairView;

    open spec fn view(&self) -> TradePairView {
        TradePairView {
            symbol: self.symbol@,
            direction: self.direction,
            open_dt: self.open_dt,
            close_dt: self.close_dt,
            open_price: self.open_price,
            close_price: self.close_price,
            bar_count: self.bar_count as int,
            holding_days: self.holding_days as int,
        }
    }
}

/// The views of a run of pairs, in order.
pub open spec fn pair_views(pairs: Seq<TradePair>) -> Seq<TradePairView> {
    pairs.map_values(|p: TradePair| p@)
}

impl Direction {
    /// The name of the direction.
    pub open spec fn name(self) -> Seq<char> {
        match self {
            Direction::Long => "Long"@,
            Direction::Short => "Short"@,
            Direction::LongShort => "LongShort"@,
        }
    }

    /// The events of a round trip in this direction, as shown to users.
    /// `LongShort` is a filter, not the direction of a trade, and has none.
    pub open spec fn events(self) -> Seq<char> {
        match self {
            Direction::Long => "开多 -> 平多"@,
            Direction::Short => "开空 -> 平空"@,
            Direction::LongShort => ""@,
        }
    }

    /// The name of the direction.
    pub fn as_str(&self) -> (name: &'static str)
        ensures
            name@ == self.name(),
    {
        match self {
            Direction::Long => "Long",
            Direction::Short => "Short",
            Direction::LongShort => "LongShort",
        }
    }

    /// The events of a round trip in this direction, as shown to users.
    pub fn event_sequence(&self) -> (events: &'static str)
        ensures
            events@ == self.events(),
    {
        match self {
            Direction::Long => "开多 -> 平多",
            Direction::Short => "开空 -> 平空",
            Direction::LongShort => "",
        }
    }
}

/// The named figures of a portfolio report.
#[derive(Debug, Clone, Copy, PartialEq, Eq, Hash, Structural)]
pub enum MetricKey {
    TradeProfit,
    HoldingBars,
    WinRate,
    HoldingDays,
    LongRatio,
    ShortRatio,
    VolatilityRatio,
    VolatilityCorrelation,
    ReturnCorrelation,
    BearCorrelation,
    SymbolCount,
    MaxDrawdown,
    SharpeRatio,
    StartDate,
    EndDate,
}

impl MetricKey {
    /// The label under which the figure is reported.
    pub open spec fn label(self) -> Seq<char> {
        match self {
            MetricKey::TradeProfit => "单笔收益"@,
            MetricKey::HoldingBars => "持仓K线数"@,
            MetricKey::WinRate => "交易胜率"@,
            MetricKey::HoldingDays => "持仓天数"@,
            MetricKey::LongRatio => "多头占比"@,
            MetricKey::ShortRatio => "空头占比"@,
            MetricKey::VolatilityRatio => "波动比"@,
            MetricKey::VolatilityCorrelation => "与基准波动相关性"@,
            MetricKey::ReturnCorrelation => "与基准收益相关性"@,
            MetricKey::BearCorrelation => "与基准空头相关性"@,
            MetricKey::SymbolCount => "品种数量"@,
            MetricKey::MaxDrawdown => "最大回撤"@,
            MetricKey::SharpeRatio => "夏普比率"@,
            MetricKey::StartDate => "起始日期"@,
            MetricKey::EndDate => "结束日期"@,
        }
    }

    /// The label under which the figure is reported.
    pub fn as_str(&self) -> (label: &'static str)
        ensures
            label@ == self.label(),
    {
        match self {
            MetricKey::TradeProfit => "单笔收益",
            MetricKey::HoldingBars => "持仓K线数",
            MetricKey::WinRate => "交易胜率",
            MetricKey::HoldingDays => "持仓天数",
            MetricKey::LongRatio => "多头占比",
            MetricKey::ShortRatio => "空头占比",
            MetricKey::VolatilityRatio => "波动比",
            MetricKey::VolatilityCorrelation => "与基准波动相关性",
            MetricKey::ReturnCorrelation => "与基准收益相关性",
            MetricKey::BearCorrelation => "与基准空头相关性",
            MetricKey::SymbolCount => "品种数量",
            MetricKey::MaxDrawdown => "最大回撤",
            MetricKey::SharpeRatio => "夏普比率",
            MetricKey::StartDate => "起始日期",
            MetricKey::EndDate => "结束日期",
        }
    }

    /// The label as an owned string.
    pub fn to_string(&self) -> (label: String)
        ensures
            label@ == self.label(),
    {
        self.as_str().to_owned()
    }
}

} // verus!
