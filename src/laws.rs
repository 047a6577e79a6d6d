use vstd::prelude::*;

use crate::board::{lemma_occupancy_union, Board};
use crate::rules::{
    apply_pos, castling_after, enemy_pawn_beside, is_occupancy_of, king_safe, last_rank,
    occupancy_word, skipped_square, Position,
};
use crate::square::{bit_set, lemma_bits_ext, rank_spec};
use crate::types::{Color, Move, PieceKind};
use crate::validate::{intent_plan, MoveIntent};
use crate::{observe_outcome, Outcome};

verus! {

/// The occupancy of a board is the union of its twelve bitboards.
pub proof fn lemma_occupancy_is_union(b: Board)
    ensures
        b.occupancy_spec() == occupancy_word(b@),
        is_occupancy_of(occupancy_word(b@), b@),
{
    assert forall|s: int| 0 <= s < 64 implies (#[trigger] bit_set(b.occupancy_spec(), s)
        <==> b@.occupied(s)) by {
        lemma_occupancy_union(b, s);
    }
    assert(is_occupancy_of(b.occupancy_spec(), b@));
    let w = occupancy_word(b@);
    assert forall|s: int| 0 <= s < 64 implies (#[trigger] bit_set(w, s) <==> bit_set(
        b.occupancy_spec(),
        s,
    )) by {}
    lemma_bits_ext(w, b.occupancy_spec());
}

proof fn lemma_and_not_subset(c: u8, a: u8, b: u8)
    ensures
        ((c & !a) & !b) & !c == 0,
{
    assert(((c & !a) & !b) & !c == 0) by (bit_vector);
}

/// Applying a move never grants a castling right that was not held before.
pub proof fn lemma_castling_rights_never_grow(p: Position, mv: Move)
    ensures
        castling_after(p, mv) & !p.castling == 0,
        apply_pos(p, mv).castling & !p.castling == 0,
{
    lemma_and_not_subset(
        p.castling,
        crate::rules::own_rights_lost(mv),
        crate::rules::captured_rights_lost(mv),
    );
}

/// The halfmove clock restarts exactly on pawn moves and captures and otherwise counts up; the
/// fullmove number counts up exactly after Black's move. Neither counter is at its largest
/// value, where it stays.
pub proof fn lemma_clock_rules(p: Position, mv: Move)
    requires
        p.halfmove < u32::MAX,
        p.fullmove < u32::MAX,
    ensures
        (apply_pos(p, mv).halfmove == 0) <==> (mv.piece == PieceKind::Pawn || mv.capture is Some),
        !(mv.piece == PieceKind::Pawn || mv.capture is Some) ==> apply_pos(p, mv).halfmove
            == p.halfmove + 1,
        (apply_pos(p, mv).fullmove == p.fullmove + 1) <==> p.side == Color::Black,
        p.side == Color::White ==> apply_pos(p, mv).fullmove == p.fullmove,
{
}

/// A move that the rules allow never leaves the mover's king attacked.
pub proof fn lemma_allowed_move_keeps_king_safe(p: Position, intent: MoveIntent)
    ensures
        intent_plan(p, intent) matches Some(mv) ==> king_safe(apply_pos(p, mv), mv.color),
{
}

/// A move that an observation plays never leaves the mover's king attacked.
pub proof fn lemma_observed_move_keeps_king_safe(p: Position, mask: u64, state: u64)
    ensures
        observe_outcome(p, mask, state) matches Outcome::Play(mv) ==> king_safe(
            apply_pos(p, mv),
            mv.color,
        ),
{
}

/// After a double pawn push the en-passant square is set exactly when an enemy pawn stands
/// beside the pawn, and it is the square the pawn skipped; after any other move it is clear.
pub proof fn lemma_en_passant_canonical(p: Position, mv: Move)
    ensures
        (mv.is_double_pawn_push && mv.piece == PieceKind::Pawn) ==> ((apply_pos(p, mv).en_passant
            is Some) <==> enemy_pawn_beside(apply_pos(p, mv).squares, mv.color, mv.to as int)),
        apply_pos(p, mv).en_passant matches Some(e) ==> e == skipped_square(
            mv.color,
            mv.from as int,
        ) as u8,
        !(mv.is_double_pawn_push && mv.piece == PieceKind::Pawn) ==> apply_pos(p, mv).en_passant
            is None,
{
}

/// A move that the rules allow waits for a promotion kind exactly when it is a pawn reaching
/// its last rank.
pub proof fn lemma_promotion_exactly_on_last_rank(p: Position, intent: MoveIntent)
    ensures
        intent_plan(p, intent) matches Some(mv) ==> (mv.requires_promotion <==> (mv.piece
            == PieceKind::Pawn && rank_spec(mv.to as int) == last_rank(mv.color))),
{
}

} // verus!
