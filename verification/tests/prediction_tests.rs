use lumina::prediction::{
    agrees, simulate, step, InputCommand, Position, PredictionState, Reconciliation,
};
use lumina::predictor::Predictor;

fn right(tick: u64) -> InputCommand {
    InputCommand { tick, seq: tick, dx: 1, dy: 0 }
}

fn origin() -> Position {
    Position { x: 0, y: 0 }
}

#[test]
fn step_adds_the_displacement() {
    let s = step(Position { x: 3, y: -4 }, InputCommand { tick: 1, seq: 1, dx: 2, dy: 5 });
    assert_eq!(s, Position { x: 5, y: 1 });
}

#[test]
fn step_saturates_at_the_edges() {
    let s = step(
        Position { x: i64::MAX, y: i64::MIN },
        InputCommand { tick: 1, seq: 1, dx: 1, dy: -1 },
    );
    assert_eq!(s, Position { x: i64::MAX, y: i64::MIN });
    let t = step(
        Position { x: i64::MAX - 1, y: i64::MIN + 1 },
        InputCommand { tick: 1, seq: 1, dx: 1, dy: -1 },
    );
    assert_eq!(t, Position { x: i64::MAX, y: i64::MIN });
}

#[test]
fn two_instances_with_the_same_inputs_agree() {
    let inputs = vec![
        InputCommand { tick: 1, seq: 1, dx: 1, dy: 0 },
        InputCommand { tick: 2, seq: 2, dx: -3, dy: 7 },
        InputCommand { tick: 3, seq: 3, dx: 10, dy: -2 },
    ];
    let a = simulate(Position { x: 5, y: 5 }, &inputs);
    let b = simulate(Position { x: 5, y: 5 }, &inputs);
    assert_eq!(a, b);
    assert_eq!(a, Position { x: 13, y: 10 });
}

#[test]
fn simulate_without_inputs_keeps_the_state() {
    assert_eq!(simulate(Position { x: 9, y: 8 }, &Vec::new()), Position { x: 9, y: 8 });
}

#[test]
fn agreement_is_exact_without_tolerance() {
    assert!(agrees(Position { x: 1, y: 0 }, Position { x: 1, y: 0 }, 0));
    assert!(!agrees(Position { x: 1, y: 0 }, Position { x: 2, y: 0 }, 0));
    assert!(agrees(Position { x: 1, y: 0 }, Position { x: 2, y: -1 }, 1));
    assert!(!agrees(Position { x: 1, y: 0 }, Position { x: 3, y: 0 }, 1));
    assert!(!agrees(Position { x: i64::MIN, y: 0 }, Position { x: i64::MAX, y: 0 }, u64::MAX - 1));
    assert!(agrees(Position { x: i64::MIN, y: 0 }, Position { x: i64::MAX, y: 0 }, u64::MAX));
}

#[test]
fn confirmed_prediction_is_not_replayed() {
    let mut p = Predictor::new(99, origin(), 16, 0);
    let predicted = p.predict(InputCommand { tick: 100, seq: 0, dx: 1, dy: 0 });
    assert_eq!(predicted, Some(Position { x: 1, y: 0 }));
    assert_eq!(p.state, PredictionState::Speculative);
    assert_eq!(p.record_at(100), Some(Position { x: 1, y: 0 }));
    let out = p.reconcile(100, Position { x: 1, y: 0 }, 16);
    assert_eq!(out, Reconciliation::Confirmed);
    assert_eq!(p.state, PredictionState::Confirmed);
    assert_eq!(p.divergences, 0);
    assert_eq!(p.base_tick, 100);
    assert!(p.records.is_empty());
    assert!(p.inputs.is_empty());
    assert_eq!(p.current(), Position { x: 1, y: 0 });
}

#[test]
fn confirmation_keeps_the_later_records() {
    let mut p = Predictor::new(99, origin(), 16, 0);
    for t in 100..104u64 {
        assert!(p.predict(right(t)).is_some());
    }
    let out = p.reconcile(101, Position { x: 2, y: 0 }, 16);
    assert_eq!(out, Reconciliation::Confirmed);
    assert_eq!(p.base_tick, 101);
    assert_eq!(p.base, Position { x: 2, y: 0 });
    assert_eq!(p.records, vec![Position { x: 3, y: 0 }, Position { x: 4, y: 0 }]);
    assert_eq!(p.inputs, vec![right(102), right(103)]);
    assert_eq!(p.current_tick(), 103);
}

#[test]
fn divergence_replays_the_buffered_inputs() {
    let mut p = Predictor::new(99, origin(), 16, 0);
    for t in 100..103u64 {
        assert!(p.predict(right(t)).is_some());
    }
    assert_eq!(p.current(), Position { x: 3, y: 0 });
    let out = p.reconcile(100, origin(), 16);
    assert_eq!(out, Reconciliation::Resimulated);
    assert_eq!(p.state, PredictionState::Reconciling);
    assert_eq!(p.divergences, 1);
    assert_eq!(p.base_tick, 100);
    assert_eq!(p.base, origin());
    assert_eq!(p.inputs, vec![right(101), right(102)]);
    assert_eq!(p.records, vec![Position { x: 1, y: 0 }, Position { x: 2, y: 0 }]);
    assert_eq!(p.current(), Position { x: 2, y: 0 });
    assert_eq!(p.current_tick(), 102);
    assert_eq!(p.current(), simulate(origin(), &vec![right(101), right(102)]));
    assert_eq!(p.predict(right(103)), Some(Position { x: 3, y: 0 }));
    assert_eq!(p.state, PredictionState::Speculative);
}

#[test]
fn replay_over_budget_is_deferred_not_skipped() {
    let mut p = Predictor::new(99, origin(), 16, 0);
    for t in 100..104u64 {
        assert!(p.predict(right(t)).is_some());
    }
    let out = p.reconcile(100, origin(), 2);
    assert_eq!(out, Reconciliation::Deferred);
    assert_eq!(p.divergences, 1);
    assert_eq!(p.state, PredictionState::Reconciling);
    assert_eq!(p.base_tick, 99);
    assert_eq!(p.current(), Position { x: 4, y: 0 });
    let again = p.reconcile(100, origin(), 3);
    assert_eq!(again, Reconciliation::Resimulated);
    assert_eq!(p.divergences, 2);
    assert_eq!(p.current(), Position { x: 3, y: 0 });
}

#[test]
fn tolerance_confirms_a_near_miss() {
    let mut p = Predictor::new(99, origin(), 16, 1);
    assert!(p.predict(right(100)).is_some());
    assert!(p.predict(right(101)).is_some());
    let out = p.reconcile(100, Position { x: 2, y: 0 }, 16);
    assert_eq!(out, Reconciliation::Confirmed);
    assert_eq!(p.base, Position { x: 1, y: 0 });
    assert_eq!(p.current(), Position { x: 2, y: 0 });
    assert_eq!(p.divergences, 0);
}

#[test]
fn window_prunes_the_oldest_tick() {
    let mut p = Predictor::new(0, origin(), 2, 0);
    for t in 1..4u64 {
        assert!(p.predict(right(t)).is_some());
    }
    assert_eq!(p.base_tick, 1);
    assert_eq!(p.base, Position { x: 1, y: 0 });
    assert_eq!(p.inputs.len(), 2);
    assert_eq!(p.record_at(1), None);
    assert_eq!(p.record_at(2), Some(Position { x: 2, y: 0 }));
    assert_eq!(p.record_at(3), Some(Position { x: 3, y: 0 }));
    assert_eq!(p.record_at(4), None);
    assert_eq!(p.current(), Position { x: 3, y: 0 });
}

#[test]
fn pruned_tick_needs_a_resync() {
    let mut p = Predictor::new(0, origin(), 2, 0);
    for t in 1..4u64 {
        assert!(p.predict(right(t)).is_some());
    }
    let out = p.reconcile(1, Position { x: 7, y: 7 }, 16);
    assert_eq!(out, Reconciliation::RollbackOverflow);
    assert_eq!(p.base_tick, 1);
    assert_eq!(p.current(), Position { x: 3, y: 0 });
    assert_eq!(p.divergences, 0);
    p.resync(5, Position { x: 7, y: 7 });
    assert_eq!(p.base_tick, 5);
    assert_eq!(p.current(), Position { x: 7, y: 7 });
    assert_eq!(p.current_tick(), 5);
    assert_eq!(p.state, PredictionState::Confirmed);
    assert!(p.inputs.is_empty());
}

#[test]
fn snapshot_ahead_of_every_prediction_is_adopted() {
    let mut p = Predictor::new(10, origin(), 4, 0);
    assert!(p.predict(right(11)).is_some());
    let out = p.reconcile(20, Position { x: -5, y: 5 }, 0);
    assert_eq!(out, Reconciliation::Adopted);
    assert_eq!(p.base_tick, 20);
    assert_eq!(p.current(), Position { x: -5, y: 5 });
    assert!(p.records.is_empty());
}

#[test]
fn input_for_another_tick_is_refused() {
    let mut p = Predictor::new(10, origin(), 4, 0);
    assert_eq!(p.predict(right(12)), None);
    assert_eq!(p.predict(right(10)), None);
    assert!(p.inputs.is_empty());
    assert_eq!(p.state, PredictionState::Confirmed);
    assert_eq!(p.predict(right(11)), Some(Position { x: 1, y: 0 }));
    let mut last = Predictor::new(u64::MAX, origin(), 4, 0);
    assert_eq!(last.predict(right(0)), None);
}
