use weight_backtest::stats::{
    evaluate_pairs, exposure_counts, select_pairs, ExposureCounts, TradeEvaluation,
};
use weight_backtest::types::{Direction, Price, TradePair};

fn pair(direction: Direction, holding_days: i64, bar_count: usize) -> TradePair {
    TradePair {
        symbol: "S".to_string(),
        direction,
        open_dt: 0,
        close_dt: 0,
        open_price: Price { bits: 0 },
        close_price: Price { bits: 0 },
        bar_count,
        holding_days,
    }
}

fn sample() -> Vec<TradePair> {
    vec![
        pair(Direction::Long, 3, 30),
        pair(Direction::Short, 1, 4),
        pair(Direction::Long, 5, 41),
        pair(Direction::Short, 2, 9),
        pair(Direction::Short, 10, 100),
    ]
}

#[test]
fn both_directions_count_every_trade() {
    assert_eq!(
        evaluate_pairs(&sample(), Direction::LongShort),
        TradeEvaluation {
            trade_direction: Direction::LongShort,
            trade_count: 5,
            total_days_held: 21,
            total_bars_held: 184,
        }
    );
    assert_eq!(select_pairs(&sample(), Direction::LongShort), vec![0, 1, 2, 3, 4]);
}

#[test]
fn long_counts_only_longs() {
    assert_eq!(
        evaluate_pairs(&sample(), Direction::Long),
        TradeEvaluation {
            trade_direction: Direction::Long,
            trade_count: 2,
            total_days_held: 8,
            total_bars_held: 71,
        }
    );
    assert_eq!(select_pairs(&sample(), Direction::Long), vec![0, 2]);
}

#[test]
fn short_counts_only_shorts() {
    assert_eq!(
        evaluate_pairs(&sample(), Direction::Short),
        TradeEvaluation {
            trade_direction: Direction::Short,
            trade_count: 3,
            total_days_held: 13,
            total_bars_held: 113,
        }
    );
    assert_eq!(select_pairs(&sample(), Direction::Short), vec![1, 3, 4]);
}

#[test]
fn nothing_to_count_reports_both_directions() {
    let longs = vec![pair(Direction::Long, 3, 30)];
    assert_eq!(
        evaluate_pairs(&longs, Direction::Short),
        TradeEvaluation {
            trade_direction: Direction::LongShort,
            trade_count: 0,
            total_days_held: 0,
            total_bars_held: 0,
        }
    );
    assert_eq!(
        evaluate_pairs(&Vec::new(), Direction::Long),
        TradeEvaluation {
            trade_direction: Direction::LongShort,
            trade_count: 0,
            total_days_held: 0,
            total_bars_held: 0,
        }
    );
    assert!(select_pairs(&longs, Direction::Short).is_empty());
}

#[test]
fn totals_do_not_overflow_the_fields_they_sum() {
    let pairs = vec![
        pair(Direction::Long, i64::MAX, usize::MAX),
        pair(Direction::Long, i64::MAX, usize::MAX),
    ];
    let evaluation = evaluate_pairs(&pairs, Direction::Long);
    assert_eq!(evaluation.total_days_held, 2 * (i64::MAX as i128));
    assert_eq!(evaluation.total_bars_held, 2 * (usize::MAX as u128));
}

#[test]
fn exposure_counts_long_and_short_bars() {
    assert_eq!(
        exposure_counts(&vec![0, 5, 5, -1, 0, i32::MIN, i32::MAX]),
        ExposureCounts { long_bars: 3, short_bars: 2, bars: 7 }
    );
    assert_eq!(
        exposure_counts(&Vec::new()),
        ExposureCounts { long_bars: 0, short_bars: 0, bars: 0 }
    );
}
