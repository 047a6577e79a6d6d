use engine::{Engine, EngineUpdate};

fn play(engine: &mut Engine, from: &str, to: &str) -> EngineUpdate {
    let from_bit = 1u64 << Engine::square_from_coord(from).unwrap();
    let to_bit = 1u64 << Engine::square_from_coord(to).unwrap();
    let prev = engine.occupancy_mask();
    let next = (prev & !from_bit) | to_bit;
    let mask = (prev ^ next) | from_bit | to_bit;
    engine.observe(mask, next).unwrap()
}

#[test]
fn starting_position_fen() {
    let engine = Engine::new();
    assert_eq!(
        engine.to_fen(),
        "rnbqkbnr/pppppppp/8/8/8/8/PPPPPPPP/RNBQKBNR w KQkq - 0 1"
    );
}

#[test]
fn apply_simple_move() {
    let mut engine = Engine::new();
    play(&mut engine, "e2", "e4");
    assert_eq!(
        engine.to_fen(),
        "rnbqkbnr/pppppppp/8/8/4P3/8/PPPP1PPP/RNBQKBNR b KQkq - 0 1"
    );
    assert_eq!(engine.pgn(), "1.e2-e4");
}

#[test]
fn apply_two_moves_pgn() {
    let mut engine = Engine::new();
    play(&mut engine, "e2", "e4");
    play(&mut engine, "e7", "e5");
    assert_eq!(engine.pgn(), "1.e2-e4 e7-e5");
}
