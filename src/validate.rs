use vstd::prelude::*;

use crate::board::Board;
use crate::rules::{
    abs, castle_plan, dfile, drank, geometry_ok, is_diagonal, is_straight, move_fits,
    non_pawn_plan, path_clear, pawn_plan, ray_empty, sign, standard_plan, step_mul, Position,
};
use crate::square::{file_spec, on_board, rank_spec};
use crate::text::owned;
use crate::types::{CastleSide, EngineError, Move, PieceKind};

verus! {

/// A move as the observation suggests it: a piece from `from` to `to`, with the square of a
/// captured piece when the observation saw one leave elsewhere; or a castle.
#[derive(Clone, Copy, Debug, PartialEq, Eq, Structural)]
pub enum MoveIntent {
    Standard { from: u8, to: u8, capture_square: Option<u8> },
    Castle(CastleSide),
}

/// The move that the rules make of an intent, if any.
pub open spec fn intent_plan(p: Position, intent: MoveIntent) -> Option<Move> {
    match intent {
        MoveIntent::Standard { from, to, capture_square } => standard_plan(
            p,
            from,
            to,
            capture_square,
        ),
        MoveIntent::Castle(side) => castle_plan(p, side),
    }
}

/// The squares an intent names are squares.
pub open spec fn intent_in_range(intent: MoveIntent) -> bool {
    match intent {
        MoveIntent::Standard { from, to, capture_square } => from < 64 && to < 64 && (
        capture_square matches Some(c) ==> c < 64),
        MoveIntent::Castle(_) => true,
    }
}

pub(crate) fn illegal(msg: &str) -> (r: EngineError)
    ensures
        r matches EngineError::IllegalMove(_),
{
    EngineError::IllegalMove(owned(msg))
}

fn abs_i32(x: i32) -> (r: i32)
    requires
        -64 <= x <= 64,
    ensures
        r == abs(x as int),
{
    if x < 0 {
        -x
    } else {
        x
    }
}

fn sign_i32(x: i32) -> (r: i32)
    ensures
        r == sign(x as int),
{
    if x > 0 {
        1
    } else if x < 0 {
        -1
    } else {
        0
    }
}

fn is_straight_exec(from: u8, to: u8) -> (r: bool)
    ensures
        r == is_straight(from as int, to as int),
{
    from % 8 == to % 8 || from / 8 == to / 8
}

fn is_diagonal_exec(from: u8, to: u8) -> (r: bool)
    requires
        from < 64,
        to < 64,
    ensures
        r == is_diagonal(from as int, to as int),
{
    abs_i32((to % 8) as i32 - (from % 8) as i32) == abs_i32((to / 8) as i32 - (from / 8) as i32)
}

impl Board {
    /// Whether a piece stands on a square strictly between `from` and `to` on their line.
    fn path_blocked(&self, from: u8, to: u8) -> (r: bool)
        requires
            self.wf(),
            from < 64,
            to < 64,
            from != to,
            is_straight(from as int, to as int) || is_diagonal(from as int, to as int),
        ensures
            r == !path_clear(self@, from as int, to as int),
    {
        let ghost p = self@;
        let ff = (from % 8) as i32;
        let fr = (from / 8) as i32;
        let tf = (to % 8) as i32;
        let tr = (to / 8) as i32;
        let fs = sign_i32(tf - ff);
        let rs = sign_i32(tr - fr);
        let ghost n: int = if abs(dfile(from as int, to as int)) > abs(drank(from as int, to as int)) {
            abs(dfile(from as int, to as int))
        } else {
            abs(drank(from as int, to as int))
        };
        let mut file = ff + fs;
        let mut rank = fr + rs;
        let ghost mut j: int = 1;
        while file != tf || rank != tr
            invariant
                self.wf(),
                p == self@,
                ff == file_spec(from as int),
                fr == rank_spec(from as int),
                tf == file_spec(to as int),
                tr == rank_spec(to as int),
                fs == sign(dfile(from as int, to as int)),
                rs == sign(drank(from as int, to as int)),
                is_straight(from as int, to as int) || is_diagonal(from as int, to as int),
                from != to,
                from < 64,
                to < 64,
                1 <= j <= n,
                n == (if abs(dfile(from as int, to as int)) > abs(drank(from as int, to as int)) {
                    abs(dfile(from as int, to as int))
                } else {
                    abs(drank(from as int, to as int))
                }),
                file == ff + step_mul(j, fs as int),
                rank == fr + step_mul(j, rs as int),
                (file == tf && rank == tr) <==> j == n,
                j < n ==> on_board(file as int, rank as int),
                fs != 0 ==> abs(dfile(from as int, to as int)) == n,
                rs != 0 ==> abs(drank(from as int, to as int)) == n,
                n >= 1,
                forall|j2: int|
                    1 <= j2 < j ==> #[trigger] ray_empty(p, ff as int, fr as int, fs as int, rs as int, j2),
            decreases n - j,
        {
            if !self.empty_exec(file, rank) {
                assert(!ray_empty(p, ff as int, fr as int, fs as int, rs as int, j));
                return true;
            }
            file = file + fs;
            rank = rank + rs;
            proof {
                j = j + 1;
                assert(tf == ff + dfile(from as int, to as int));
                assert(tr == fr + drank(from as int, to as int));
                assert(0 <= ff < 8 && 0 <= fr < 8 && 0 <= tf < 8 && 0 <= tr < 8);
                if j < n {
                    if fs > 0 {
                        assert(file == ff + j);
                    } else if fs < 0 {
                        assert(file == ff - j);
                    }
                    if rs > 0 {
                        assert(rank == fr + j);
                    } else if rs < 0 {
                        assert(rank == fr - j);
                    }
                }
            }
        }
        false
    }

    /// Whether a piece other than a pawn may go from `from` to `to` by its geometry.
    fn piece_path_ok(&self, piece: PieceKind, from: u8, to: u8) -> (r: bool)
        requires
            self.wf(),
            from < 64,
            to < 64,
            from != to,
        ensures
            r == geometry_ok(self@, piece, from as int, to as int),
    {
        let df = abs_i32((to % 8) as i32 - (from % 8) as i32);
        let dr = abs_i32((to / 8) as i32 - (from / 8) as i32);
        match piece {
            PieceKind::Knight => (df == 1 && dr == 2) || (df == 2 && dr == 1),
            PieceKind::Bishop => is_diagonal_exec(from, to) && !self.path_blocked(from, to),
            PieceKind::Rook => is_straight_exec(from, to) && !self.path_blocked(from, to),
            PieceKind::Queen => (is_diagonal_exec(from, to) || is_straight_exec(from, to))
                && !self.path_blocked(from, to),
            PieceKind::King => df <= 1 && dr <= 1,
            PieceKind::Pawn => false,
        }
    }
}


impl Board {
    /// A piece other than a pawn: its geometry, and what it captures on `to`.
    fn validate_non_pawn(&self, base: Move) -> (r: Result<Move, EngineError>)
        requires
            self.wf(),
            base.from < 64,
            base.to < 64,
            base.from != base.to,
        ensures
            match non_pawn_plan(self@, base) {
                Some(m) => r == Ok::<Move, EngineError>(m),
                None => r matches Err(EngineError::IllegalMove(_)),
            },
    {
        if !self.piece_path_ok(base.piece, base.from, base.to) {
            return Err(illegal("the piece cannot move that way"));
        }
        match self.piece_at(base.to) {
            Some((_, tk)) => match base.capture_square {
                Some(c) => if c != base.to {
                    Err(illegal("a capture by this piece takes on its destination"))
                } else {
                    Ok(Move { capture: Some(tk), ..base })
                },
                None => Ok(Move { capture: Some(tk), ..base }),
            },
            None => if base.capture_square.is_some() {
                Err(illegal("capture square empty"))
            } else {
                Ok(base)
            },
        }
    }

    /// A pawn: single push, double push from its starting rank, or diagonal capture (en passant
    /// when a separate capture square is named); a move to the last rank requires promotion.
    fn validate_pawn_move(&self, base: Move) -> (r: Result<Move, EngineError>)
        requires
            self.wf(),
            base.from < 64,
            base.to < 64,
            base.capture_square matches Some(c) ==> c < 64,
        ensures
            match pawn_plan(self@, base) {
                Some(m) => r == Ok::<Move, EngineError>(m),
                None => r matches Err(EngineError::IllegalMove(_)),
            },
    {
        let white = base.color.is_white();
        let from = base.from as i32;
        let to = base.to as i32;
        let dir: i32 = if white {
            8
        } else {
            -8
        };
        let last: u8 = if white {
            7
        } else {
            0
        };
        let promo = base.to / 8 == last;
        if to == from + dir {
            if base.capture_square.is_some() {
                return Err(illegal("capture square provided for quiet move"));
            }
            if self.is_occupied(base.to) {
                return Err(illegal("square occupied"));
            }
            Ok(Move { requires_promotion: promo, ..base })
        } else if to == from + 2 * dir {
            let start: u8 = if white {
                1
            } else {
                6
            };
            if base.from / 8 != start {
                return Err(illegal("double push only from starting rank"));
            }
            if base.capture_square.is_some() {
                return Err(illegal("double push cannot capture"));
            }
            let mid = (from + dir) as u8;
            if self.is_occupied(mid) || self.is_occupied(base.to) {
                return Err(illegal("path blocked"));
            }
            Ok(Move { is_double_pawn_push: true, requires_promotion: promo, ..base })
        } else {
            let fd = abs_i32((base.to % 8) as i32 - (base.from % 8) as i32);
            let rd = (base.to / 8) as i32 - (base.from / 8) as i32;
            let fwd: i32 = if white {
                1
            } else {
                -1
            };
            if fd != 1 || rd != fwd {
                return Err(illegal("invalid pawn capture"));
            }
            let cs = match base.capture_square {
                Some(s) => s,
                None => base.to,
            };
            let named = base.capture_square.is_some();
            match self.piece_at(cs) {
                None => Err(illegal("missing capture target")),
                Some((tc, tk)) => {
                    if tc == base.color {
                        return Err(illegal("cannot capture own piece"));
                    }
                    if named && tk != PieceKind::Pawn {
                        return Err(illegal("en passant must capture pawn"));
                    }
                    let ep_ok = match self.en_passant {
                        Some(e) => e == base.to,
                        None => false,
                    };
                    if named && !ep_ok {
                        return Err(illegal("en passant target not available"));
                    }
                    if cs != base.to && self.is_occupied(base.to) {
                        return Err(illegal("en passant destination occupied"));
                    }
                    Ok(
                        Move {
                            capture: Some(tk),
                            is_en_passant: named,
                            requires_promotion: promo,
                            ..base
                        },
                    )
                },
            }
        }
    }

    /// The move from `from` to `to` (capturing on `capture_square` when named) if the rules
    /// allow it, including that the mover's king is not left attacked.
    pub(crate) fn validate_standard_move(&self, from: u8, to: u8, capture_square: Option<u8>) -> (r:
        Result<Move, EngineError>)
        requires
            self.wf(),
            from < 64,
            to < 64,
            capture_square matches Some(c) ==> c < 64,
        ensures
            match standard_plan(self@, from, to, capture_square) {
                Some(m) => r == Ok::<Move, EngineError>(m) && move_fits(self@, m),
                None => r matches Err(EngineError::IllegalMove(_)),
            },
    {
        let (color, piece) = match self.piece_at(from) {
            Some(x) => x,
            None => {
                return Err(illegal("no piece on from square"));
            },
        };
        if color != self.side_to_move {
            return Err(illegal("wrong side to move"));
        }
        match self.piece_at(to) {
            Some((dc, _)) => if dc == color {
                return Err(illegal("destination occupied by friendly piece"));
            },
            None => {},
        }
        let base = Move {
            color,
            piece,
            from,
            to,
            capture: None,
            capture_square,
            castle: None,
            is_en_passant: false,
            is_double_pawn_push: false,
            promotion: None,
            requires_promotion: false,
        };
        let shaped = if piece.is_pawn() {
            self.validate_pawn_move(base)
        } else {
            self.validate_non_pawn(base)
        };
        let mv = match shaped {
            Ok(m) => m,
            Err(e) => {
                return Err(e);
            },
        };
        assert(move_fits(self@, mv));
        let mut clone = *self;
        clone.apply_move(&mv);
        if !clone.king_is_safe(color) {
            return Err(illegal("king would be in check"));
        }
        Ok(mv)
    }

    /// The castling move of the side to move towards `side`, if its rights, the squares between
    /// king and rook, and the squares the king crosses allow it.
    pub(crate) fn validate_castle(&self, side: CastleSide) -> (r: Result<Move, EngineError>)
        requires
            self.wf(),
        ensures
            match castle_plan(self@, side) {
                Some(m) => r == Ok::<Move, EngineError>(m) && move_fits(self@, m),
                None => r matches Err(EngineError::IllegalMove(_)),
            },
    {
        let color = self.side_to_move;
        let rights = side.as_bits(color);
        if self.castling & rights == 0 {
            return Err(illegal("castling not permitted"));
        }
        let home: u8 = if color.is_white() {
            4
        } else {
            60
        };
        let king_home_ok = match self.piece_at(home) {
            Some((c, k)) => c == color && k == PieceKind::King,
            None => false,
        };
        if !king_home_ok {
            return Err(illegal("king not on expected square"));
        }
        let (rook_from, _rook_to) = crate::board::castle_rook_squares(color, side);
        let rook_ok = match self.piece_at(rook_from) {
            Some((c, k)) => c == color && k == PieceKind::Rook,
            None => false,
        };
        if !rook_ok {
            return Err(illegal("rook missing for castling"));
        }
        let king_side = match side {
            CastleSide::KingSide => true,
            CastleSide::QueenSide => false,
        };
        let blocked = if king_side {
            self.is_occupied(home + 1) || self.is_occupied(home + 2)
        } else {
            self.is_occupied(home - 1) || self.is_occupied(home - 2) || self.is_occupied(home - 3)
        };
        if blocked {
            return Err(illegal("squares blocked"));
        }
        let opp = color.opponent();
        let through_check = if king_side {
            self.is_square_attacked(home, opp) || self.is_square_attacked(home + 1, opp)
                || self.is_square_attacked(home + 2, opp)
        } else {
            self.is_square_attacked(home, opp) || self.is_square_attacked(home - 1, opp)
                || self.is_square_attacked(home - 2, opp)
        };
        if through_check {
            return Err(illegal("cannot castle through check"));
        }
        let king_to = if king_side {
            home + 2
        } else {
            home - 2
        };
        let mv = Move {
            color,
            piece: PieceKind::King,
            from: home,
            to: king_to,
            capture: None,
            capture_square: None,
            castle: Some(side),
            is_en_passant: false,
            is_double_pawn_push: false,
            promotion: None,
            requires_promotion: false,
        };
        assert(move_fits(self@, mv));
        let mut clone = *self;
        clone.apply_move(&mv);
        if !clone.king_is_safe(color) {
            return Err(illegal("king would be in check"));
        }
        Ok(mv)
    }

    /// The move that the rules make of `intent`, or `IllegalMove`.
    pub(crate) fn validate_intent(&self, intent: MoveIntent) -> (r: Result<Move, EngineError>)
        requires
            self.wf(),
            intent_in_range(intent),
        ensures
            match intent_plan(self@, intent) {
                Some(m) => r == Ok::<Move, EngineError>(m) && move_fits(self@, m),
                None => r matches Err(EngineError::IllegalMove(_)),
            },
    {
        match intent {
            MoveIntent::Castle(side) => self.validate_castle(side),
            MoveIntent::Standard { from, to, capture_square } => self.validate_standard_move(
                from,
                to,
                capture_square,
            ),
        }
    }
}

} // verus!
