use weight_backtest::matcher::actions_to_trade_pairs;
use weight_backtest::types::{Direction, Price, TradeAction, TradePair};

const SECOND: i64 = 1_000_000_000;
const HOUR: i64 = 3_600 * SECOND;
const DAY: i64 = 24 * HOUR;
// 2023-01-01 00:00:00 UTC
const NEW_YEAR_2023: i64 = 1_672_531_200 * SECOND;

fn price(value: f32) -> Price {
    Price { bits: value.to_bits() }
}

fn shown(p: Price) -> f32 {
    f32::from_bits(p.bits)
}

#[test]
fn one_long_round_trip_counts_bars_and_days_inclusively() {
    let actions = vec![
        TradeAction::OpenLong { dt: NEW_YEAR_2023 + 9 * HOUR, price: price(100.0), bar_id: 3 },
        TradeAction::CloseLong {
            dt: NEW_YEAR_2023 + 2 * DAY + 10 * HOUR,
            price: price(110.0),
            bar_id: 7,
        },
    ];
    let report = actions_to_trade_pairs("AAPL", actions);
    assert_eq!(
        report.trade_pairs,
        vec![TradePair {
            symbol: "AAPL".to_string(),
            direction: Direction::Long,
            open_dt: NEW_YEAR_2023 + 9 * HOUR,
            close_dt: NEW_YEAR_2023 + 2 * DAY + 10 * HOUR,
            open_price: price(100.0),
            close_price: price(110.0),
            bar_count: 5,
            holding_days: 3,
        }]
    );
    assert!(report.unmatched.is_empty());
}

#[test]
fn same_bar_same_day_is_one_bar_and_one_day() {
    let actions = vec![
        TradeAction::OpenShort { dt: NEW_YEAR_2023, price: price(50.0), bar_id: 0 },
        TradeAction::CloseShort { dt: NEW_YEAR_2023, price: price(49.0), bar_id: 0 },
    ];
    let report = actions_to_trade_pairs("X", actions);
    assert_eq!(report.trade_pairs.len(), 1);
    assert_eq!(report.trade_pairs[0].direction, Direction::Short);
    assert_eq!(report.trade_pairs[0].bar_count, 1);
    assert_eq!(report.trade_pairs[0].holding_days, 1);
}

#[test]
fn holding_days_follow_the_calendar_not_the_clock() {
    // Two hours apart, but across midnight: two calendar days are touched.
    let actions = vec![
        TradeAction::OpenLong { dt: NEW_YEAR_2023 + 23 * HOUR, price: price(1.0), bar_id: 10 },
        TradeAction::CloseLong { dt: NEW_YEAR_2023 + 25 * HOUR, price: price(1.0), bar_id: 11 },
    ];
    let report = actions_to_trade_pairs("X", actions);
    assert_eq!(report.trade_pairs[0].holding_days, 2);
    // Almost a full day apart, but within one calendar day.
    let actions = vec![
        TradeAction::OpenLong { dt: NEW_YEAR_2023, price: price(1.0), bar_id: 10 },
        TradeAction::CloseLong { dt: NEW_YEAR_2023 + DAY - 1, price: price(1.0), bar_id: 11 },
    ];
    let report = actions_to_trade_pairs("X", actions);
    assert_eq!(report.trade_pairs[0].holding_days, 1);
}

#[test]
fn days_before_the_epoch_round_down() {
    let actions = vec![
        TradeAction::OpenLong { dt: -1, price: price(1.0), bar_id: 0 },
        TradeAction::CloseLong { dt: 0, price: price(1.0), bar_id: 1 },
    ];
    let report = actions_to_trade_pairs("X", actions);
    assert_eq!(report.trade_pairs[0].holding_days, 2);
    assert_eq!(report.trade_pairs[0].bar_count, 2);
}

#[test]
fn opens_are_closed_first_in_first_out() {
    let count = 6usize;
    let mut actions = Vec::new();
    for i in 0..count {
        actions.push(TradeAction::OpenLong {
            dt: NEW_YEAR_2023 + i as i64 * DAY,
            price: price(100.0 + i as f32),
            bar_id: i,
        });
    }
    for i in 0..count {
        actions.push(TradeAction::CloseLong {
            dt: NEW_YEAR_2023 + (count + i) as i64 * DAY,
            price: price(200.0 + i as f32),
            bar_id: count + i,
        });
    }
    let report = actions_to_trade_pairs("FIFO", actions);
    assert_eq!(report.trade_pairs.len(), count);
    assert!(report.unmatched.is_empty());
    for (i, pair) in report.trade_pairs.iter().enumerate() {
        assert_eq!(pair.direction, Direction::Long);
        assert_eq!(pair.open_dt, NEW_YEAR_2023 + i as i64 * DAY);
        assert_eq!(shown(pair.open_price), 100.0 + i as f32);
        assert_eq!(pair.close_dt, NEW_YEAR_2023 + (count + i) as i64 * DAY);
        assert_eq!(shown(pair.close_price), 200.0 + i as f32);
        assert_eq!(pair.bar_count, count + 1);
        assert_eq!(pair.holding_days, count as i64 + 1);
    }
}

#[test]
fn short_opens_are_closed_first_in_first_out() {
    let actions = vec![
        TradeAction::OpenShort { dt: NEW_YEAR_2023, price: price(10.0), bar_id: 0 },
        TradeAction::OpenShort { dt: NEW_YEAR_2023 + DAY, price: price(11.0), bar_id: 1 },
        TradeAction::CloseShort { dt: NEW_YEAR_2023 + 2 * DAY, price: price(9.0), bar_id: 2 },
        TradeAction::CloseShort { dt: NEW_YEAR_2023 + 3 * DAY, price: price(8.0), bar_id: 3 },
    ];
    let report = actions_to_trade_pairs("S", actions);
    assert_eq!(report.trade_pairs.len(), 2);
    assert_eq!(shown(report.trade_pairs[0].open_price), 10.0);
    assert_eq!(shown(report.trade_pairs[0].close_price), 9.0);
    assert_eq!(report.trade_pairs[0].bar_count, 3);
    assert_eq!(shown(report.trade_pairs[1].open_price), 11.0);
    assert_eq!(shown(report.trade_pairs[1].close_price), 8.0);
    assert_eq!(report.trade_pairs[1].bar_count, 3);
    assert_eq!(report.trade_pairs[1].direction, Direction::Short);
}

#[test]
fn the_two_queues_do_not_mix() {
    let actions = vec![
        TradeAction::OpenLong { dt: NEW_YEAR_2023, price: price(10.0), bar_id: 0 },
        TradeAction::OpenShort { dt: NEW_YEAR_2023 + DAY, price: price(11.0), bar_id: 1 },
        TradeAction::CloseShort { dt: NEW_YEAR_2023 + 2 * DAY, price: price(12.0), bar_id: 2 },
        TradeAction::CloseLong { dt: NEW_YEAR_2023 + 3 * DAY, price: price(13.0), bar_id: 3 },
    ];
    let report = actions_to_trade_pairs("M", actions);
    assert_eq!(report.trade_pairs.len(), 2);
    assert_eq!(report.trade_pairs[0].direction, Direction::Short);
    assert_eq!(shown(report.trade_pairs[0].open_price), 11.0);
    assert_eq!(report.trade_pairs[0].bar_count, 2);
    assert_eq!(report.trade_pairs[1].direction, Direction::Long);
    assert_eq!(shown(report.trade_pairs[1].open_price), 10.0);
    assert_eq!(report.trade_pairs[1].bar_count, 4);
    assert_eq!(report.trade_pairs[1].holding_days, 4);
}

#[test]
fn a_close_without_an_open_is_dropped_and_reported() {
    let stray = TradeAction::CloseLong { dt: NEW_YEAR_2023, price: price(10.0), bar_id: 0 };
    let other = TradeAction::CloseShort { dt: NEW_YEAR_2023 + DAY, price: price(10.0), bar_id: 1 };
    let actions = vec![
        stray,
        TradeAction::OpenLong { dt: NEW_YEAR_2023 + DAY, price: price(11.0), bar_id: 1 },
        other,
        TradeAction::CloseLong { dt: NEW_YEAR_2023 + 2 * DAY, price: price(12.0), bar_id: 2 },
    ];
    let report = actions_to_trade_pairs("D", actions);
    assert_eq!(report.unmatched, vec![stray, other]);
    assert_eq!(report.trade_pairs.len(), 1);
    assert_eq!(shown(report.trade_pairs[0].open_price), 11.0);
    assert_eq!(shown(report.trade_pairs[0].close_price), 12.0);
}

#[test]
fn opens_left_waiting_make_no_pair() {
    let actions = vec![
        TradeAction::OpenLong { dt: NEW_YEAR_2023, price: price(10.0), bar_id: 0 },
        TradeAction::OpenLong { dt: NEW_YEAR_2023 + DAY, price: price(11.0), bar_id: 1 },
        TradeAction::CloseLong { dt: NEW_YEAR_2023 + 2 * DAY, price: price(12.0), bar_id: 2 },
    ];
    let report = actions_to_trade_pairs("W", actions);
    assert_eq!(report.trade_pairs.len(), 1);
    assert_eq!(shown(report.trade_pairs[0].open_price), 10.0);
    assert!(report.unmatched.is_empty());
}

#[test]
fn no_actions_no_pairs() {
    let report = actions_to_trade_pairs("E", Vec::new());
    assert!(report.trade_pairs.is_empty());
    assert!(report.unmatched.is_empty());
}

#[test]
fn every_action_is_accounted_for() {
    let kinds = [0, 2, 0, 1, 3, 2, 0, 0, 2, 3, 3, 1, 1, 3, 2, 2, 0];
    let mut actions = Vec::new();
    for (i, kind) in kinds.iter().enumerate() {
        let dt = NEW_YEAR_2023 + i as i64 * HOUR;
        let p = price(10.0 + i as f32);
        actions.push(match kind {
            0 => TradeAction::OpenLong { dt, price: p, bar_id: i },
            1 => TradeAction::OpenShort { dt, price: p, bar_id: i },
            2 => TradeAction::CloseLong { dt, price: p, bar_id: i },
            _ => TradeAction::CloseShort { dt, price: p, bar_id: i },
        });
    }
    let opens = kinds.iter().filter(|k| **k < 2).count();
    let closes = kinds.len() - opens;
    let report = actions_to_trade_pairs("C", actions);
    assert_eq!(report.trade_pairs.len() + report.unmatched.len(), closes);
    assert!(report.trade_pairs.len() <= opens);
    // The closes at positions 9, 10 and 15 find their queue empty.
    assert_eq!(report.unmatched.len(), 3);
    for pair in &report.trade_pairs {
        assert!(pair.bar_count >= 1);
        assert!(pair.holding_days >= 1);
        assert!(pair.open_dt <= pair.close_dt);
    }
}
