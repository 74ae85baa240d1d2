use weight_backtest::trade_position::TradePositionState;
use weight_backtest::types::{Price, TradeAction};

fn price(value: f32) -> Price {
    Price { bits: value.to_bits() }
}

fn open_long(dt: i64, p: f32, bar_id: usize) -> TradeAction {
    TradeAction::OpenLong { dt, price: price(p), bar_id }
}

fn open_short(dt: i64, p: f32, bar_id: usize) -> TradeAction {
    TradeAction::OpenShort { dt, price: price(p), bar_id }
}

fn close_long(dt: i64, p: f32, bar_id: usize) -> TradeAction {
    TradeAction::CloseLong { dt, price: price(p), bar_id }
}

fn close_short(dt: i64, p: f32, bar_id: usize) -> TradeAction {
    TradeAction::CloseShort { dt, price: price(p), bar_id }
}

#[test]
fn flat_to_long_opens_one_action_per_lot() {
    let mut state = TradePositionState::Flat;
    let actions = state.handle_transition(3, 10, price(100.0), 7);
    assert_eq!(actions, vec![open_long(10, 100.0, 7); 3]);
    assert_eq!(state, TradePositionState::Long(3));
}

#[test]
fn flat_to_short_opens_one_action_per_lot() {
    let mut state = TradePositionState::Flat;
    let actions = state.handle_transition(-2, 10, price(100.0), 7);
    assert_eq!(actions, vec![open_short(10, 100.0, 7); 2]);
    assert_eq!(state, TradePositionState::Short(2));
}

#[test]
fn flat_to_zero_emits_nothing() {
    let mut state = TradePositionState::Flat;
    let actions = state.handle_transition(0, 10, price(100.0), 7);
    assert!(actions.is_empty());
    assert_eq!(state, TradePositionState::Flat);
}

#[test]
fn long_grows_by_the_difference() {
    let mut state = TradePositionState::Long(2);
    let actions = state.handle_transition(5, 11, price(101.0), 8);
    assert_eq!(actions, vec![open_long(11, 101.0, 8); 3]);
    assert_eq!(state, TradePositionState::Long(5));
}

#[test]
fn long_shrinks_by_the_difference() {
    let mut state = TradePositionState::Long(5);
    let actions = state.handle_transition(2, 11, price(101.0), 8);
    assert_eq!(actions, vec![close_long(11, 101.0, 8); 3]);
    assert_eq!(state, TradePositionState::Long(2));
}

#[test]
fn long_to_zero_closes_fully_to_flat() {
    let mut state = TradePositionState::Long(4);
    let actions = state.handle_transition(0, 11, price(101.0), 8);
    assert_eq!(actions, vec![close_long(11, 101.0, 8); 4]);
    assert_eq!(state, TradePositionState::Flat);
}

#[test]
fn long_flips_to_short_without_netting() {
    let mut state = TradePositionState::Long(2);
    let actions = state.handle_transition(-3, 12, price(99.5), 9);
    let mut expected = vec![close_long(12, 99.5, 9); 2];
    expected.extend(vec![open_short(12, 99.5, 9); 3]);
    assert_eq!(actions, expected);
    assert_eq!(state, TradePositionState::Short(3));
}

#[test]
fn short_grows_by_the_difference() {
    let mut state = TradePositionState::Short(1);
    let actions = state.handle_transition(-4, 12, price(99.5), 9);
    assert_eq!(actions, vec![open_short(12, 99.5, 9); 3]);
    assert_eq!(state, TradePositionState::Short(4));
}

#[test]
fn short_shrinks_by_the_difference() {
    let mut state = TradePositionState::Short(4);
    let actions = state.handle_transition(-1, 12, price(99.5), 9);
    assert_eq!(actions, vec![close_short(12, 99.5, 9); 3]);
    assert_eq!(state, TradePositionState::Short(1));
}

#[test]
fn short_to_zero_closes_fully_to_flat() {
    let mut state = TradePositionState::Short(2);
    let actions = state.handle_transition(0, 12, price(99.5), 9);
    assert_eq!(actions, vec![close_short(12, 99.5, 9); 2]);
    assert_eq!(state, TradePositionState::Flat);
}

#[test]
fn short_flips_to_long_without_netting() {
    let mut state = TradePositionState::Short(3);
    let actions = state.handle_transition(1, 12, price(99.5), 9);
    let mut expected = vec![close_short(12, 99.5, 9); 3];
    expected.extend(vec![open_long(12, 99.5, 9); 1]);
    assert_eq!(actions, expected);
    assert_eq!(state, TradePositionState::Long(1));
}

#[test]
fn unchanged_target_emits_nothing() {
    let mut state = TradePositionState::Long(3);
    assert!(state.handle_transition(3, 12, price(99.5), 9).is_empty());
    assert_eq!(state, TradePositionState::Long(3));
    let mut state = TradePositionState::Short(3);
    assert!(state.handle_transition(-3, 12, price(99.5), 9).is_empty());
    assert_eq!(state, TradePositionState::Short(3));
}

#[test]
fn signed_contributions_rebuild_the_lot_series() {
    let lots: [i32; 9] = [0, 2, 5, 3, -1, -4, -4, 0, 1];
    let mut state = TradePositionState::Flat;
    let mut running: i64 = 0;
    for (bar_id, lot) in lots.iter().enumerate() {
        let before = running;
        let actions = state.handle_transition(*lot, bar_id as i64, price(10.0), bar_id);
        let mut opens_long = 0i64;
        let mut closes_long = 0i64;
        let mut opens_short = 0i64;
        let mut closes_short = 0i64;
        for action in &actions {
            match action {
                TradeAction::OpenLong { .. } => opens_long += 1,
                TradeAction::CloseLong { .. } => closes_long += 1,
                TradeAction::OpenShort { .. } => opens_short += 1,
                TradeAction::CloseShort { .. } => closes_short += 1,
            }
        }
        running += opens_long - closes_long - opens_short + closes_short;
        assert_eq!(running, *lot as i64);
        let long_before = before.max(0);
        let long_after = (*lot as i64).max(0);
        let short_before = (-before).max(0);
        let short_after = (-(*lot as i64)).max(0);
        assert_eq!(opens_long, (long_after - long_before).max(0));
        assert_eq!(closes_long, (long_before - long_after).max(0));
        assert_eq!(opens_short, (short_after - short_before).max(0));
        assert_eq!(closes_short, (short_before - short_after).max(0));
    }
}

#[test]
fn a_side_without_lots_counts_as_flat() {
    let mut state = TradePositionState::Long(0);
    assert!(state.handle_transition(0, 12, price(99.5), 9).is_empty());
    assert_eq!(state, TradePositionState::Flat);

    let mut state = TradePositionState::Short(0);
    let actions = state.handle_transition(2, 12, price(99.5), 9);
    assert_eq!(actions, vec![open_long(12, 99.5, 9); 2]);
    assert_eq!(state, TradePositionState::Long(2));

    let mut state = TradePositionState::Long(0);
    let actions = state.handle_transition(-1, 12, price(99.5), 9);
    assert_eq!(actions, vec![open_short(12, 99.5, 9); 1]);
    assert_eq!(state, TradePositionState::Short(1));
}
