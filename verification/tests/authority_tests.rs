use lumina::authority::Authority;
use lumina::prediction::{simulate, InputCommand, Position};
use lumina::predictor::Predictor;

fn input(tick: u64, dx: i64, dy: i64) -> InputCommand {
    InputCommand { tick, seq: tick, dx, dy }
}

#[test]
fn input_waits_for_its_tick() {
    let mut a = Authority::new(10, Position { x: 0, y: 0 });
    assert!(a.submit(input(12, 5, 0)));
    assert!(a.submit(input(11, 0, 3)));
    assert_eq!(a.advance(), Position { x: 0, y: 3 });
    assert_eq!(a.tick, 11);
    assert_eq!(a.pending, vec![input(12, 5, 0)]);
    assert_eq!(a.advance(), Position { x: 5, y: 3 });
    assert!(a.pending.is_empty());
    assert_eq!(a.advance(), Position { x: 5, y: 3 });
    assert_eq!(a.tick, 13);
}

#[test]
fn late_and_repeated_inputs_are_dropped() {
    let mut a = Authority::new(10, Position { x: 0, y: 0 });
    assert!(!a.submit(input(10, 1, 1)));
    assert!(!a.submit(input(3, 1, 1)));
    assert!(a.submit(input(11, 1, 0)));
    assert!(!a.submit(input(11, 9, 9)));
    assert_eq!(a.pending.len(), 1);
    assert_eq!(a.advance(), Position { x: 1, y: 0 });
}

#[test]
fn prediction_and_authority_agree_on_the_same_inputs() {
    let inputs = vec![input(1, 1, 0), input(2, 0, -2), input(3, 4, 4)];
    let mut server = Authority::new(0, Position { x: 0, y: 0 });
    let mut client = Predictor::new(0, Position { x: 0, y: 0 }, 8, 0);
    for c in inputs.iter().rev() {
        assert!(server.submit(*c));
    }
    for c in inputs.iter() {
        assert!(client.predict(*c).is_some());
    }
    let mut last = server.state;
    for _ in 0..3 {
        last = server.advance();
    }
    assert_eq!(last, Position { x: 5, y: 2 });
    assert_eq!(client.current(), last);
    assert_eq!(simulate(Position { x: 0, y: 0 }, &inputs), last);
}
