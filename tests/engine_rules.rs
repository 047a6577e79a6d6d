use engine::{CastleSide, Color, Engine, EngineError, EngineUpdate, PieceKind};

fn sq(coord: &str) -> u8 {
    Engine::square_from_coord(coord).unwrap()
}

fn bit(coord: &str) -> u64 {
    1u64 << sq(coord)
}

/// The mask and next occupancy of moving one piece, lifting `removed` as well.
fn change(engine: &Engine, moves: &[(&str, &str)], removed: &[&str]) -> (u64, u64) {
    let prev = engine.occupancy_mask();
    let mut next = prev;
    let mut mask = 0u64;
    for (from, to) in moves {
        next &= !bit(from);
        next |= bit(to);
        mask |= bit(from) | bit(to);
    }
    for r in removed {
        next &= !bit(r);
        mask |= bit(r);
    }
    (mask | (prev ^ next), next)
}

#[test]
fn double_push_from_start_is_applied() {
    let mut engine = Engine::new();
    let (mask, next) = change(&engine, &[("e2", "e4")], &[]);
    match engine.observe(mask, next) {
        Ok(EngineUpdate::MoveApplied(s)) => {
            assert_eq!(s.fen, "rnbqkbnr/pppppppp/8/8/4P3/8/PPPP1PPP/RNBQKBNR b KQkq - 0 1");
            assert_eq!(s.pgn, "1.e2-e4");
            assert!(s.mv.is_double_pawn_push);
            assert_eq!(s.mv.piece, PieceKind::Pawn);
        }
        other => panic!("expected a move, got {:?}", other),
    }
}

#[test]
fn en_passant_square_set_only_beside_enemy_pawn() {
    let mut engine = Engine::from_fen("4k3/8/8/8/5p2/8/4P3/4K3 w - - 0 1").unwrap();
    let (mask, next) = change(&engine, &[("e2", "e4")], &[]);
    engine.observe(mask, next).unwrap();
    assert_eq!(engine.to_fen(), "4k3/8/8/8/4Pp2/8/8/4K3 b - e3 0 1");
}

#[test]
fn kingside_castle_moves_king_and_rook() {
    let mut engine = Engine::from_fen("4k3/8/8/8/8/8/8/4K2R w K - 0 1").unwrap();
    let (mask, next) = change(&engine, &[("e1", "g1"), ("h1", "f1")], &[]);
    match engine.observe(mask, next) {
        Ok(EngineUpdate::MoveApplied(s)) => {
            assert_eq!(s.mv.castle, Some(CastleSide::KingSide));
            assert_eq!(s.fen, "4k3/8/8/8/8/8/8/5RK1 b - - 1 1");
            assert_eq!(s.pgn, "1.O-O");
        }
        other => panic!("expected castling, got {:?}", other),
    }
    assert_eq!(engine.piece_at(sq("g1")), Some((Color::White, PieceKind::King)));
    assert_eq!(engine.piece_at(sq("f1")), Some((Color::White, PieceKind::Rook)));
}

#[test]
fn queenside_castle_through_check_is_illegal() {
    let mut engine = Engine::from_fen("3rk3/8/8/8/8/8/8/R3K3 w Q - 0 1").unwrap();
    let before = engine.to_fen();
    let (mask, next) = change(&engine, &[("e1", "c1"), ("a1", "d1")], &[]);
    match engine.observe(mask, next) {
        Err(EngineError::IllegalMove(_)) => {}
        other => panic!("expected illegal castle, got {:?}", other),
    }
    assert_eq!(engine.to_fen(), before);
}

#[test]
fn promotion_waits_for_piece_kind() {
    let mut engine = Engine::from_fen("8/P7/8/8/8/8/8/k6K w - - 0 1").unwrap();
    let (mask, next) = change(&engine, &[("a7", "a8")], &[]);
    match engine.observe(mask, next) {
        Ok(EngineUpdate::PromotionPending(req)) => {
            assert_eq!(req.color, Color::White);
            assert_eq!(req.square, sq("a8"));
        }
        other => panic!("expected pending promotion, got {:?}", other),
    }
    match engine.observe(mask, next) {
        Err(EngineError::PendingPromotion) => {}
        other => panic!("expected pending promotion error, got {:?}", other),
    }
    match engine.confirm_promotion(PieceKind::King) {
        Err(EngineError::IllegalMove(_)) => {}
        other => panic!("expected illegal promotion, got {:?}", other),
    }
    match engine.confirm_promotion(PieceKind::Pawn) {
        Err(EngineError::IllegalMove(_)) => {}
        other => panic!("expected illegal promotion, got {:?}", other),
    }
    let summary = engine.confirm_promotion(PieceKind::Queen).unwrap();
    assert_eq!(summary.fen, "Q7/8/8/8/8/8/8/k6K b - - 0 1");
    assert_eq!(summary.pgn, "1.a7-a8=Q");
    assert_eq!(summary.mv.promotion, Some(PieceKind::Queen));
    assert_eq!(engine.piece_at(sq("a8")), Some((Color::White, PieceKind::Queen)));
}

#[test]
fn confirm_without_pending_is_illegal() {
    let mut engine = Engine::new();
    match engine.confirm_promotion(PieceKind::Queen) {
        Err(EngineError::IllegalMove(_)) => {}
        other => panic!("expected illegal move, got {:?}", other),
    }
}

#[test]
fn unchanged_state_is_no_change() {
    let mut engine = Engine::new();
    let occ = engine.occupancy_mask();
    match engine.observe(bit("e2"), occ) {
        Ok(EngineUpdate::NoChange) => {}
        other => panic!("expected no change, got {:?}", other),
    }
}

#[test]
fn too_many_changes_is_invalid_mask() {
    let mut engine = Engine::new();
    let before = engine.to_fen();
    let (mask, next) = change(&engine, &[("e2", "e4"), ("d2", "d4"), ("c2", "c4")], &[]);
    match engine.observe(mask, next) {
        Err(EngineError::InvalidMask(_)) => {}
        other => panic!("expected invalid mask, got {:?}", other),
    }
    assert_eq!(engine.to_fen(), before);
    assert_eq!(engine.pgn(), "");
}

#[test]
fn capture_resets_halfmove_clock() {
    let mut engine = Engine::from_fen("4k3/8/8/3p4/8/8/8/3RK3 w - - 7 9").unwrap();
    let (mask, next) = change(&engine, &[("d1", "d5")], &[]);
    match engine.observe(mask, next) {
        Ok(EngineUpdate::MoveApplied(s)) => {
            assert_eq!(s.mv.capture, Some(PieceKind::Pawn));
            assert_eq!(s.fen, "4k3/8/8/3R4/8/8/8/4K3 b - - 0 9");
        }
        other => panic!("expected a capture, got {:?}", other),
    }
}

#[test]
fn black_move_increments_fullmove_and_halfmove() {
    let mut engine = Engine::from_fen("4k3/8/8/8/8/8/8/4K3 b - - 3 12").unwrap();
    let (mask, next) = change(&engine, &[("e8", "d8")], &[]);
    engine.observe(mask, next).unwrap();
    assert_eq!(engine.to_fen(), "3k4/8/8/8/8/8/8/4K3 w - - 4 13");
}

#[test]
fn rook_capture_on_corner_clears_right() {
    let mut engine = Engine::from_fen("r3k2r/8/8/8/8/8/8/R3K2R w KQkq - 0 1").unwrap();
    let (mask, next) = change(&engine, &[("h1", "h8")], &[]);
    engine.observe(mask, next).unwrap();
    assert_eq!(engine.to_fen(), "r3k2R/8/8/8/8/8/8/R3K3 b Qq - 0 1");
}

#[test]
fn blocked_bishop_is_illegal() {
    let mut engine = Engine::new();
    let (mask, next) = change(&engine, &[("c1", "e3")], &[]);
    match engine.observe(mask, next) {
        Err(EngineError::IllegalMove(_)) => {}
        other => panic!("expected illegal move, got {:?}", other),
    }
}

#[test]
fn fen_round_trip_keeps_text() {
    let fen = "r1bqk2r/pp3ppp/2n2n2/2bpp3/4P3/2NP1N2/PPP2PPP/R1BQKB1R w KQkq d6 4 17";
    let engine = Engine::from_fen(fen).unwrap();
    assert_eq!(engine.to_fen(), fen);
}

#[test]
fn fen_with_duplicate_rights_and_plus_sign() {
    let engine = Engine::from_fen("4k3/8/8/8/8/8/8/4K3  w  KK  -  +0  1").unwrap();
    assert_eq!(engine.to_fen(), "4k3/8/8/8/8/8/8/4K3 w K - 0 1");
}

#[test]
fn malformed_fen_is_rejected() {
    for bad in [
        "rnbqkbnr/pppppppp/8/8/8/8/PPPPPPPP/RNBQKBNR w KQkq - 0",
        "rnbqkbnr/pppppppp/8/8/8/8/PPPPPPPP/RNBQKBN w KQkq - 0 1",
        "rnbqkbnr/pppppppp/9/8/8/8/PPPPPPPP/RNBQKBNR w KQkq - 0 1",
        "rnbqkbnr/pppppppp/8/8/8/8/PPPPPPPP/RNBQKBNR x KQkq - 0 1",
        "rnbqkbnr/pppppppp/8/8/8/8/PPPPPPPP/RNBQKBNR w KQkx - 0 1",
        "rnbqkbnr/pppppppp/8/8/8/8/PPPPPPPP/RNBQKBNR w KQkq i9 0 1",
        "rnbqkbnr/pppppppp/8/8/8/8/PPPPPPPP/RNBQKBNR w KQkq - -1 1",
        "rnbqkbnr/pppppppp/8/8/8/8/PPPPPPPP/RNBQKBNR w KQkq - 0 4294967296",
        "rnbqkbnr/pppppppp/8/8/8/8/PPPPPPPP/RNBQKBNR/8 w KQkq - 0 1",
    ] {
        match Engine::from_fen(bad) {
            Err(EngineError::InvalidFen(_)) => {}
            Ok(_) => panic!("accepted {bad}"),
            Err(other) => panic!("wrong error {:?} for {bad}", other),
        }
    }
}

#[test]
fn set_position_replaces_game() {
    let mut engine = Engine::new();
    let (mask, next) = change(&engine, &[("g1", "f3")], &[]);
    engine.observe(mask, next).unwrap();
    engine.set_position("4k3/8/8/8/8/8/8/4K3 w - - 0 1").unwrap();
    assert_eq!(engine.pgn(), "");
    assert_eq!(engine.to_fen(), "4k3/8/8/8/8/8/8/4K3 w - - 0 1");
    assert!(matches!(engine.set_position("bad"), Err(EngineError::InvalidFen(_))));
    assert_eq!(engine.to_fen(), "4k3/8/8/8/8/8/8/4K3 w - - 0 1");
}

#[test]
fn coordinates_map_to_squares() {
    assert_eq!(Engine::square_from_coord("a1").unwrap(), 0);
    assert_eq!(Engine::square_from_coord("h8").unwrap(), 63);
    assert_eq!(Engine::square_from_coord("E4").unwrap(), 28);
    assert!(matches!(Engine::square_from_coord("i1"), Err(EngineError::Square(_))));
    assert!(matches!(Engine::square_from_coord("a9"), Err(EngineError::Square(_))));
    assert!(matches!(Engine::square_from_coord("a10"), Err(EngineError::Square(_))));
}

#[test]
fn occupancy_and_pieces_of_start() {
    let engine = Engine::new();
    assert_eq!(engine.occupancy_mask(), 0xFFFF_0000_0000_FFFF);
    assert_eq!(engine.piece_at(sq("d8")), Some((Color::Black, PieceKind::Queen)));
    assert_eq!(engine.piece_at(sq("e4")), None);
    assert_eq!(engine.piece_at(64), None);
}

#[test]
fn pawn_capture_without_target_is_illegal() {
    let mut engine = Engine::new();
    let (mask, next) = change(&engine, &[("e2", "d3")], &[]);
    match engine.observe(mask, next) {
        Err(EngineError::IllegalMove(_)) => {}
        other => panic!("expected illegal move, got {:?}", other),
    }
}

#[test]
fn lifting_enemy_piece_alone_is_no_move() {
    let mut engine = Engine::new();
    let (mask, next) = change(&engine, &[], &["e7"]);
    match engine.observe(mask, next) {
        Ok(EngineUpdate::NoChange) => {}
        other => panic!("expected no change, got {:?}", other),
    }
}

#[test]
fn clocks_stay_at_their_largest_value() {
    let mut engine =
        Engine::from_fen("4k3/8/8/8/8/8/8/4K3 b - - 4294967295 4294967295").unwrap();
    let (mask, next) = change(&engine, &[("e8", "d8")], &[]);
    engine.observe(mask, next).unwrap();
    assert_eq!(engine.to_fen(), "3k4/8/8/8/8/8/8/4K3 w - - 4294967295 4294967295");
}

#[test]
fn occupancy_is_union_of_pieces() {
    let engine = Engine::from_fen("r3k2r/p6p/8/3Qq3/8/8/P6P/R3K2R w KQkq - 0 1").unwrap();
    let mut union = 0u64;
    for square in 0u8..64 {
        if engine.piece_at(square).is_some() {
            union |= 1u64 << square;
        }
    }
    assert_eq!(engine.occupancy_mask(), union);
    assert_eq!(union.count_ones(), 12);
}

#[test]
fn empty_board_round_trips() {
    let fen = "8/8/8/8/8/8/8/8 w - - 0 1";
    let engine = Engine::from_fen(fen).unwrap();
    assert_eq!(engine.to_fen(), fen);
    assert_eq!(engine.occupancy_mask(), 0);
}

#[test]
fn errors_render_as_text() {
    assert_eq!(
        EngineError::IllegalMove("king would be in check".to_string()).to_string(),
        "illegal move: king would be in check"
    );
    assert_eq!(EngineError::PendingPromotion.to_string(), "promotion pending");
    match Engine::from_fen("x") {
        Err(e) => assert!(e.to_string().starts_with("invalid FEN: ")),
        Ok(_) => panic!("accepted a bad FEN"),
    }
    match Engine::square_from_coord("z9") {
        Err(e) => assert_eq!(e.to_string(), "invalid square: z9"),
        Ok(_) => panic!("accepted a bad coordinate"),
    }
}
