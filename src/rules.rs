use vstd::prelude::*;

use crate::square::{bit_set, file_spec, on_board, rank_spec, square_spec};
use crate::types::{castle_bits_spec, CastleSide, Color, Move, PieceKind};

verus! {

/// A chess position as a mathematical value: what stands on each of the 64 squares, and the
/// rest of the game state that FEN records.
pub struct Position {
    pub squares: Seq<Option<(Color, PieceKind)>>,
    pub side: Color,
    pub castling: u8,
    pub en_passant: Option<u8>,
    pub halfmove: u32,
    pub fullmove: u32,
}

impl Position {
    pub open spec fn at(self, s: int) -> Option<(Color, PieceKind)> {
        self.squares[s]
    }

    pub open spec fn occupied(self, s: int) -> bool {
        self.squares[s] is Some
    }

    /// A piece of color `c` and kind `k` stands on the square at `(f, r)`.
    pub open spec fn holds(self, f: int, r: int, c: Color, k: PieceKind) -> bool {
        on_board(f, r) && self.squares[square_spec(f, r)] == Some((c, k))
    }

    /// The square at `(f, r)` is on the board and empty.
    pub open spec fn empty_at(self, f: int, r: int) -> bool {
        on_board(f, r) && self.squares[square_spec(f, r)] is None
    }
}

/// The occupancy of a position as a 64-bit word: bit `s` is set when square `s` is occupied.
pub open spec fn occupancy_word(p: Position) -> u64 {
    choose|w: u64| #[trigger] is_occupancy_of(w, p)
}

/// Bit `s` of `w` is set exactly when square `s` of `p` is occupied.
pub open spec fn is_occupancy_of(w: u64, p: Position) -> bool {
    forall|s: int| 0 <= s < 64 ==> (#[trigger] bit_set(w, s) <==> p.occupied(s))
}

/// `i` steps in direction `d`, where only the sign of `d` counts.
pub open spec fn step_mul(i: int, d: int) -> int {
    if d > 0 {
        i
    } else if d < 0 {
        -i
    } else {
        0
    }
}

/// The `j`-th square from `(f, r)` along direction `(df, dr)` is on the board and empty.
pub open spec fn ray_empty(p: Position, f: int, r: int, df: int, dr: int, j: int) -> bool {
    p.empty_at(f + step_mul(j, df), r + step_mul(j, dr))
}

/// The `j`-th square along the ray holds a piece of `c` that moves along it: a queen or `major`.
pub open spec fn ray_slider(
    p: Position,
    f: int,
    r: int,
    df: int,
    dr: int,
    j: int,
    c: Color,
    major: PieceKind,
) -> bool {
    p.holds(f + step_mul(j, df), r + step_mul(j, dr), c, major) || p.holds(
        f + step_mul(j, df),
        r + step_mul(j, dr),
        c,
        PieceKind::Queen,
    )
}

/// The first occupied square from `(f, r)` along `(df, dr)` holds a queen or `major` of `c`.
pub open spec fn slider_hits(
    p: Position,
    f: int,
    r: int,
    df: int,
    dr: int,
    c: Color,
    major: PieceKind,
) -> bool {
    exists|i: int|
        1 <= i && #[trigger] ray_slider(p, f, r, df, dr, i, c, major) && forall|j: int|
            1 <= j < i ==> #[trigger] ray_empty(p, f, r, df, dr, j)
}

pub open spec fn pawn_attack(p: Position, f: int, r: int, by: Color) -> bool {
    let dr: int = if by == Color::White {
        -1
    } else {
        1
    };
    p.holds(f - 1, r + dr, by, PieceKind::Pawn) || p.holds(f + 1, r + dr, by, PieceKind::Pawn)
}

pub open spec fn knight_attack(p: Position, f: int, r: int, by: Color) -> bool {
    let k = PieceKind::Knight;
    p.holds(f + 1, r + 2, by, k) || p.holds(f + 2, r + 1, by, k) || p.holds(f + 2, r - 1, by, k)
        || p.holds(f + 1, r - 2, by, k) || p.holds(f - 1, r - 2, by, k) || p.holds(
        f - 2,
        r - 1,
        by,
        k,
    ) || p.holds(f - 2, r + 1, by, k) || p.holds(f - 1, r + 2, by, k)
}

pub open spec fn king_attack(p: Position, f: int, r: int, by: Color) -> bool {
    let k = PieceKind::King;
    p.holds(f - 1, r - 1, by, k) || p.holds(f - 1, r, by, k) || p.holds(f - 1, r + 1, by, k)
        || p.holds(f, r - 1, by, k) || p.holds(f, r + 1, by, k) || p.holds(f + 1, r - 1, by, k)
        || p.holds(f + 1, r, by, k) || p.holds(f + 1, r + 1, by, k)
}

/// Square `s` is attacked by a piece of color `by`.
pub open spec fn attacked(p: Position, s: int, by: Color) -> bool {
    let f = file_spec(s);
    let r = rank_spec(s);
    let b = PieceKind::Bishop;
    let q = PieceKind::Rook;
    pawn_attack(p, f, r, by) || knight_attack(p, f, r, by) || slider_hits(p, f, r, 1, 1, by, b)
        || slider_hits(p, f, r, 1, -1, by, b) || slider_hits(p, f, r, -1, 1, by, b)
        || slider_hits(p, f, r, -1, -1, by, b) || slider_hits(p, f, r, 1, 0, by, q)
        || slider_hits(p, f, r, -1, 0, by, q) || slider_hits(p, f, r, 0, 1, by, q)
        || slider_hits(p, f, r, 0, -1, by, q) || king_attack(p, f, r, by)
}

/// No king of color `c` stands on an attacked square.
pub open spec fn king_safe(p: Position, c: Color) -> bool {
    forall|s: int|
        0 <= s < 64 && #[trigger] p.squares[s] == Some((c, PieceKind::King)) ==> !attacked(
            p,
            s,
            c.spec_opponent(),
        )
}

// ---------------------------------------------------------------------------------------------
// Applying a move
pub open spec fn castle_rook_from(c: Color, side: CastleSide) -> int {
    match (c, side) {
        (Color::White, CastleSide::KingSide) => 7,
        (Color::White, CastleSide::QueenSide) => 0,
        (Color::Black, CastleSide::KingSide) => 63,
        (Color::Black, CastleSide::QueenSide) => 56,
    }
}

pub open spec fn castle_rook_to(c: Color, side: CastleSide) -> int {
    match (c, side) {
        (Color::White, CastleSide::KingSide) => 5,
        (Color::White, CastleSide::QueenSide) => 3,
        (Color::Black, CastleSide::KingSide) => 61,
        (Color::Black, CastleSide::QueenSide) => 59,
    }
}

pub open spec fn king_home(c: Color) -> int {
    match c {
        Color::White => 4,
        Color::Black => 60,
    }
}

pub open spec fn castle_king_to(c: Color, side: CastleSide) -> int {
    match side {
        CastleSide::KingSide => king_home(c) + 2,
        CastleSide::QueenSide => king_home(c) - 2,
    }
}

/// Both castling bits of `c`.
pub open spec fn color_rights(c: Color) -> u8 {
    match c {
        Color::White => 3,
        Color::Black => 12,
    }
}

/// The castling bit that a rook of `c` on square `s` stands for, or 0 off the corners.
pub open spec fn corner_right(c: Color, s: int) -> u8 {
    match c {
        Color::White => if s == 0 {
            2
        } else if s == 7 {
            1
        } else {
            0
        },
        Color::Black => if s == 56 {
            8
        } else if s == 63 {
            4
        } else {
            0
        },
    }
}

/// The square on which a capture removes its piece: `to`, except for en passant.
pub open spec fn capture_sq(mv: Move) -> int {
    match mv.capture_square {
        Some(s) => s as int,
        None => mv.to as int,
    }
}

/// The castling bits that the mover's own move gives up.
pub open spec fn own_rights_lost(mv: Move) -> u8 {
    if mv.castle is Some || mv.piece == PieceKind::King {
        color_rights(mv.color)
    } else if mv.piece == PieceKind::Rook {
        corner_right(mv.color, mv.from as int)
    } else {
        0
    }
}

/// The castling bit that the opponent loses when a capture takes a rook from its corner.
pub open spec fn captured_rights_lost(mv: Move) -> u8 {
    if mv.castle is None && mv.capture is Some {
        corner_right(mv.color.spec_opponent(), capture_sq(mv))
    } else {
        0
    }
}

pub open spec fn castling_after(p: Position, mv: Move) -> u8 {
    (p.castling & !own_rights_lost(mv)) & !captured_rights_lost(mv)
}

/// The squares after the move: the mover leaves `from`, a captured piece leaves its square, and
/// the mover (with its rook, when castling) arrives.
pub open spec fn squares_after(p: Position, mv: Move) -> Seq<Option<(Color, PieceKind)>> {
    let s0 = p.squares.update(mv.from as int, None);
    match mv.castle {
        Some(side) => s0.update(mv.to as int, Some((mv.color, PieceKind::King))).update(
            castle_rook_from(mv.color, side),
            None,
        ).update(castle_rook_to(mv.color, side), Some((mv.color, PieceKind::Rook))),
        None => {
            let s1 = if mv.capture is Some {
                s0.update(capture_sq(mv), None)
            } else {
                s0
            };
            s1.update(mv.to as int, Some((mv.color, mv.piece)))
        },
    }
}

/// An enemy pawn of `c` stands beside square `to` on the same rank.
pub open spec fn enemy_pawn_beside(sq: Seq<Option<(Color, PieceKind)>>, c: Color, to: int) -> bool {
    let f = file_spec(to);
    let r = rank_spec(to);
    let e = Some((c.spec_opponent(), PieceKind::Pawn));
    (on_board(f - 1, r) && sq[square_spec(f - 1, r)] == e) || (on_board(f + 1, r) && sq[square_spec(
        f + 1,
        r,
    )] == e)
}

/// The square a pawn of `c` skips when it advances two squares from `from`.
pub open spec fn skipped_square(c: Color, from: int) -> int {
    match c {
        Color::White => from + 8,
        Color::Black => from - 8,
    }
}

pub open spec fn en_passant_after(p: Position, mv: Move) -> Option<u8> {
    if mv.is_double_pawn_push && mv.piece == PieceKind::Pawn && enemy_pawn_beside(
        squares_after(p, mv),
        mv.color,
        mv.to as int,
    ) {
        Some(skipped_square(mv.color, mv.from as int) as u8)
    } else {
        None
    }
}

/// One more, short of the largest value.
pub open spec fn bump(x: u32) -> u32 {
    if x < u32::MAX {
        (x + 1) as u32
    } else {
        x
    }
}

pub open spec fn halfmove_after(p: Position, mv: Move) -> u32 {
    if mv.piece == PieceKind::Pawn || mv.capture is Some {
        0
    } else {
        bump(p.halfmove)
    }
}

pub open spec fn fullmove_after(p: Position, mv: Move) -> u32 {
    if p.side == Color::Black {
        bump(p.fullmove)
    } else {
        p.fullmove
    }
}

/// The position after `mv`.
pub open spec fn apply_pos(p: Position, mv: Move) -> Position {
    Position {
        squares: squares_after(p, mv),
        side: p.side.spec_opponent(),
        castling: castling_after(p, mv),
        en_passant: en_passant_after(p, mv),
        halfmove: halfmove_after(p, mv),
        fullmove: fullmove_after(p, mv),
    }
}

/// What applying a move takes for granted of the position: the mover stands on `from`, a
/// captured piece stands on its square, and the squares the pieces land on are free.
pub open spec fn move_fits(p: Position, mv: Move) -> bool {
    &&& mv.from < 64
    &&& mv.to < 64
    &&& mv.from != mv.to
    &&& (mv.capture_square matches Some(c) ==> c < 64)
    &&& p.at(mv.from as int) == Some((mv.color, mv.piece))
    &&& (mv.is_double_pawn_push ==> 8 <= mv.from < 56)
    &&& match mv.castle {
        Some(side) => {
            &&& mv.piece == PieceKind::King
            &&& mv.from as int == king_home(mv.color)
            &&& mv.to as int == castle_king_to(mv.color, side)
            &&& p.at(castle_rook_from(mv.color, side)) == Some((mv.color, PieceKind::Rook))
            &&& p.at(mv.to as int) is None
            &&& p.at(castle_rook_to(mv.color, side)) is None
        },
        None => match mv.capture {
            Some(k) => {
                &&& p.at(capture_sq(mv)) == Some((mv.color.spec_opponent(), k))
                &&& (capture_sq(mv) == mv.to || p.at(mv.to as int) is None)
            },
            None => p.at(mv.to as int) is None,
        },
    }
}

// ---------------------------------------------------------------------------------------------
// Validation
pub open spec fn abs(x: int) -> int {
    if x < 0 {
        -x
    } else {
        x
    }
}

pub open spec fn sign(x: int) -> int {
    if x > 0 {
        1
    } else if x < 0 {
        -1
    } else {
        0
    }
}

pub open spec fn dfile(from: int, to: int) -> int {
    file_spec(to) - file_spec(from)
}

pub open spec fn drank(from: int, to: int) -> int {
    rank_spec(to) - rank_spec(from)
}

pub open spec fn is_straight(from: int, to: int) -> bool {
    file_spec(from) == file_spec(to) || rank_spec(from) == rank_spec(to)
}

pub open spec fn is_diagonal(from: int, to: int) -> bool {
    abs(dfile(from, to)) == abs(drank(from, to))
}

/// Every square strictly between `from` and `to` on their common line is empty.
pub open spec fn path_clear(p: Position, from: int, to: int) -> bool {
    let n = if abs(dfile(from, to)) > abs(drank(from, to)) {
        abs(dfile(from, to))
    } else {
        abs(drank(from, to))
    };
    forall|j: int|
        1 <= j < n ==> #[trigger] ray_empty(
            p,
            file_spec(from),
            rank_spec(from),
            sign(dfile(from, to)),
            sign(drank(from, to)),
            j,
        )
}

pub open spec fn knight_jump(from: int, to: int) -> bool {
    (abs(dfile(from, to)) == 1 && abs(drank(from, to)) == 2) || (abs(dfile(from, to)) == 2 && abs(
        drank(from, to),
    ) == 1)
}

pub open spec fn king_step(from: int, to: int) -> bool {
    abs(dfile(from, to)) <= 1 && abs(drank(from, to)) <= 1
}

/// The geometric rule of a piece other than a pawn.
pub open spec fn geometry_ok(p: Position, piece: PieceKind, from: int, to: int) -> bool {
    match piece {
        PieceKind::Knight => knight_jump(from, to),
        PieceKind::Bishop => is_diagonal(from, to) && path_clear(p, from, to),
        PieceKind::Rook => is_straight(from, to) && path_clear(p, from, to),
        PieceKind::Queen => (is_diagonal(from, to) || is_straight(from, to)) && path_clear(
            p,
            from,
            to,
        ),
        PieceKind::King => king_step(from, to),
        PieceKind::Pawn => false,
    }
}

/// A piece other than a pawn: its geometry, and what it captures on `to`.
pub open spec fn non_pawn_plan(p: Position, base: Move) -> Option<Move> {
    if !geometry_ok(p, base.piece, base.from as int, base.to as int) {
        None
    } else {
        match p.at(base.to as int) {
            Some((_, tk)) => match base.capture_square {
                Some(c) => if c != base.to {
                    None
                } else {
                    Some(Move { capture: Some(tk), ..base })
                },
                None => Some(Move { capture: Some(tk), ..base }),
            },
            None => if base.capture_square is Some {
                None
            } else {
                Some(base)
            },
        }
    }
}

pub open spec fn pawn_dir(c: Color) -> int {
    match c {
        Color::White => 8,
        Color::Black => -8,
    }
}

pub open spec fn pawn_start_rank(c: Color) -> int {
    match c {
        Color::White => 1,
        Color::Black => 6,
    }
}

pub open spec fn last_rank(c: Color) -> int {
    match c {
        Color::White => 7,
        Color::Black => 0,
    }
}

/// A pawn: a single push, a double push from its starting rank, or a diagonal capture (en
/// passant when a separate capture square is named).
pub open spec fn pawn_plan(p: Position, base: Move) -> Option<Move> {
    let from = base.from as int;
    let to = base.to as int;
    let dir = pawn_dir(base.color);
    let promo = rank_spec(to) == last_rank(base.color);
    if to == from + dir {
        if base.capture_square is Some || p.occupied(to) {
            None
        } else {
            Some(Move { requires_promotion: promo, ..base })
        }
    } else if to == from + 2 * dir {
        if rank_spec(from) != pawn_start_rank(base.color) || base.capture_square is Some
            || p.occupied(from + dir) || p.occupied(to) {
            None
        } else {
            Some(Move { is_double_pawn_push: true, requires_promotion: promo, ..base })
        }
    } else {
        let fwd: int = if base.color == Color::White {
            1
        } else {
            -1
        };
        if abs(dfile(from, to)) != 1 || drank(from, to) != fwd {
            None
        } else {
            match p.at(capture_sq(base)) {
                None => None,
                Some((tc, tk)) => if tc == base.color {
                    None
                } else if base.capture_square is Some && tk != PieceKind::Pawn {
                    None
                } else if base.capture_square is Some && p.en_passant != Some(base.to) {
                    None
                } else if capture_sq(base) != to && p.occupied(to) {
                    None
                } else {
                    Some(
                        Move {
                            capture: Some(tk),
                            is_en_passant: base.capture_square is Some,
                            requires_promotion: promo,
                            ..base
                        },
                    )
                },
            }
        }
    }
}

/// The move from `from` to `to` that the rules allow, if any.
pub open spec fn standard_plan(p: Position, from: u8, to: u8, cs: Option<u8>) -> Option<Move> {
    match p.at(from as int) {
        None => None,
        Some((color, piece)) => if color != p.side {
            None
        } else if (match p.at(to as int) {
            Some((c2, _)) => c2 == color,
            None => false,
        }) {
            None
        } else {
            let base = Move {
                color,
                piece,
                from,
                to,
                capture: None,
                capture_square: cs,
                castle: None,
                is_en_passant: false,
                is_double_pawn_push: false,
                promotion: None,
                requires_promotion: false,
            };
            let shaped = if piece == PieceKind::Pawn {
                pawn_plan(p, base)
            } else {
                non_pawn_plan(p, base)
            };
            match shaped {
                None => None,
                Some(mv) => if king_safe(apply_pos(p, mv), color) {
                    Some(mv)
                } else {
                    None
                },
            }
        },
    }
}

/// The squares between king and rook, which must be empty to castle.
pub open spec fn castle_between_clear(p: Position, c: Color, side: CastleSide) -> bool {
    let h = king_home(c);
    match side {
        CastleSide::KingSide => !p.occupied(h + 1) && !p.occupied(h + 2),
        CastleSide::QueenSide => !p.occupied(h - 1) && !p.occupied(h - 2) && !p.occupied(h - 3),
    }
}

/// The king's origin, the square it crosses and its destination are not attacked.
pub open spec fn castle_unattacked(p: Position, c: Color, side: CastleSide) -> bool {
    let h = king_home(c);
    let o = c.spec_opponent();
    match side {
        CastleSide::KingSide => !attacked(p, h, o) && !attacked(p, h + 1, o) && !attacked(
            p,
            h + 2,
            o,
        ),
        CastleSide::QueenSide => !attacked(p, h, o) && !attacked(p, h - 1, o) && !attacked(
            p,
            h - 2,
            o,
        ),
    }
}

/// The castling move of `c` towards `side`.
pub open spec fn castle_move(c: Color, side: CastleSide) -> Move {
    Move {
        color: c,
        piece: PieceKind::King,
        from: king_home(c) as u8,
        to: castle_king_to(c, side) as u8,
        capture: None,
        capture_square: None,
        castle: Some(side),
        is_en_passant: false,
        is_double_pawn_push: false,
        promotion: None,
        requires_promotion: false,
    }
}

/// The castling move of the side to move towards `side`, if the rules allow it; the king
/// must also be safe on arrival.
pub open spec fn castle_plan(p: Position, side: CastleSide) -> Option<Move> {
    let c = p.side;
    if p.castling & castle_bits_spec(side, c) == 0 {
        None
    } else if p.at(king_home(c)) != Some((c, PieceKind::King)) {
        None
    } else if p.at(castle_rook_from(c, side)) != Some((c, PieceKind::Rook)) {
        None
    } else if !castle_between_clear(p, c, side) {
        None
    } else if !castle_unattacked(p, c, side) {
        None
    } else if !king_safe(apply_pos(p, castle_move(c, side)), c) {
        None
    } else {
        Some(castle_move(c, side))
    }
}

} // verus!
