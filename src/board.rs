use vstd::prelude::*;

use crate::rules::{
    apply_pos, bump, castle_rook_from, castle_rook_to, castling_after, color_rights,
    corner_right, en_passant_after, enemy_pawn_beside, is_occupancy_of, move_fits,
    occupancy_word, squares_after, Position,
};
use crate::square::{
    bit, bit_set, lemma_bits_ext, lemma_has_clear, lemma_has_or, lemma_has_set, lemma_has_zero,
    test_bit,
};
use crate::text::owned;
use crate::types::{Bitboard, CastleSide, Color, EngineError, Move, PieceKind};

verus! {

/// Piece placement as twelve bitboards, one per color and kind, with the rest of the state that
/// FEN records.
#[derive(Clone, Copy)]
pub struct Board {
    pub pieces: [u64; 12],
    pub side_to_move: Color,
    pub castling: u8,
    pub en_passant: Option<u8>,
    pub halfmove_clock: u32,
    pub fullmove_number: u32,
}

/// The index of the bitboard of color `c` and kind `k`.
pub open spec fn slot(c: Color, k: PieceKind) -> int {
    match c {
        Color::White => k.spec_idx(),
        Color::Black => 6 + k.spec_idx(),
    }
}

fn slot_exec(c: Color, k: PieceKind) -> (r: usize)
    ensures
        r == slot(c, k),
        r < 12,
{
    if c.is_white() {
        k.idx()
    } else {
        6 + k.idx()
    }
}

impl Board {
    /// The bitboard of color `c` and kind `k`.
    pub open spec fn bb(self, c: Color, k: PieceKind) -> u64 {
        self.pieces@[slot(c, k)]
    }

    /// The first kind of color `c` whose bitboard holds `s`.
    pub open spec fn kind_at(self, c: Color, s: int) -> Option<PieceKind> {
        if bit_set(self.bb(c, PieceKind::Pawn), s) {
            Some(PieceKind::Pawn)
        } else if bit_set(self.bb(c, PieceKind::Knight), s) {
            Some(PieceKind::Knight)
        } else if bit_set(self.bb(c, PieceKind::Bishop), s) {
            Some(PieceKind::Bishop)
        } else if bit_set(self.bb(c, PieceKind::Rook), s) {
            Some(PieceKind::Rook)
        } else if bit_set(self.bb(c, PieceKind::Queen), s) {
            Some(PieceKind::Queen)
        } else if bit_set(self.bb(c, PieceKind::King), s) {
            Some(PieceKind::King)
        } else {
            None
        }
    }

    /// The first bitboard, White's before Black's, that holds `s`.
    pub open spec fn piece_at_spec(self, s: int) -> Option<(Color, PieceKind)> {
        match self.kind_at(Color::White, s) {
            Some(k) => Some((Color::White, k)),
            None => match self.kind_at(Color::Black, s) {
                Some(k) => Some((Color::Black, k)),
                None => None,
            },
        }
    }

    /// The twelve bitboards are disjoint, the en-passant square is a square, and the castling
    /// rights are four bits.
    pub open spec fn wf(self) -> bool {
        &&& forall|c: Color, k: PieceKind, s: int|
            0 <= s < 64 ==> (#[trigger] bit_set(self.bb(c, k), s) <==> self.piece_at_spec(s) == Some(
                (c, k),
            ))
        &&& (self.en_passant matches Some(e) ==> e < 64)
        &&& self.castling < 16
    }

    /// The union of the twelve bitboards.
    pub open spec fn occupancy_spec(self) -> u64 {
        self.pieces@[0] | self.pieces@[1] | self.pieces@[2] | self.pieces@[3] | self.pieces@[4]
            | self.pieces@[5] | self.pieces@[6] | self.pieces@[7] | self.pieces@[8]
            | self.pieces@[9] | self.pieces@[10] | self.pieces@[11]
    }
}

impl View for Board {
    type V = Position;

    open spec fn view(&self) -> Position {
        Position {
            squares: Seq::new(64, |s: int| self.piece_at_spec(s)),
            side: self.side_to_move,
            castling: self.castling,
            en_passant: self.en_passant,
            halfmove: self.halfmove_clock,
            fullmove: self.fullmove_number,
        }
    }
}

/// The position with `v` on square `s`.
pub open spec fn with_square(p: Position, s: int, v: Option<(Color, PieceKind)>) -> Position {
    Position { squares: p.squares.update(s, v), ..p }
}

/// No square is set in two bitboards of a well-formed board.
pub proof fn lemma_bitboards_disjoint(
    b: Board,
    s: int,
    c1: Color,
    k1: PieceKind,
    c2: Color,
    k2: PieceKind,
)
    requires
        b.wf(),
        bit_set(b.bb(c1, k1), s),
        bit_set(b.bb(c2, k2), s),
    ensures
        c1 == c2 && k1 == k2,
{
}

/// A square is occupied exactly when one of the twelve bitboards holds it.
pub proof fn lemma_occupancy_union(b: Board, s: int)
    requires
        0 <= s < 64,
    ensures
        bit_set(b.occupancy_spec(), s) <==> b@.squares[s] is Some,
{
    let p = b.pieces@;
    lemma_has_or(p[0], p[1]);
    lemma_has_or(p[0] | p[1], p[2]);
    lemma_has_or(p[0] | p[1] | p[2], p[3]);
    lemma_has_or(p[0] | p[1] | p[2] | p[3], p[4]);
    lemma_has_or(p[0] | p[1] | p[2] | p[3] | p[4], p[5]);
    lemma_has_or(p[0] | p[1] | p[2] | p[3] | p[4] | p[5], p[6]);
    lemma_has_or(p[0] | p[1] | p[2] | p[3] | p[4] | p[5] | p[6], p[7]);
    lemma_has_or(p[0] | p[1] | p[2] | p[3] | p[4] | p[5] | p[6] | p[7], p[8]);
    lemma_has_or(p[0] | p[1] | p[2] | p[3] | p[4] | p[5] | p[6] | p[7] | p[8], p[9]);
    lemma_has_or(p[0] | p[1] | p[2] | p[3] | p[4] | p[5] | p[6] | p[7] | p[8] | p[9], p[10]);
    lemma_has_or(
        p[0] | p[1] | p[2] | p[3] | p[4] | p[5] | p[6] | p[7] | p[8] | p[9] | p[10],
        p[11],
    );
}

impl Board {
    /// The empty board: no pieces, White to move, no rights, clocks at 0 and 1.
    pub open spec fn empty_view() -> Position {
        Position {
            squares: Seq::new(64, |s: int| None::<(Color, PieceKind)>),
            side: Color::White,
            castling: 0,
            en_passant: None,
            halfmove: 0,
            fullmove: 1,
        }
    }

    /// A board with no pieces, White to move, no rights, clocks at 0 and 1.
    pub(crate) fn empty() -> (r: Board)
        ensures
            r.wf(),
            r@ == Board::empty_view(),
            r@.squares == Seq::new(64, |s: int| None::<(Color, PieceKind)>),
            r@.side == Color::White,
            r@.castling == 0,
            r@.en_passant is None,
            r@.halfmove == 0,
            r@.fullmove == 1,
    {
        let r = Board {
            pieces: [0u64; 12],
            side_to_move: Color::White,
            castling: 0,
            en_passant: None,
            halfmove_clock: 0,
            fullmove_number: 1,
        };
        proof {
            lemma_has_zero();
            assert(forall|i: int| 0 <= i < 12 ==> r.pieces@[i] == 0u64);
            assert(r@.squares =~= Seq::new(64, |s: int| None::<(Color, PieceKind)>));
        }
        r
    }

    pub(crate) fn side_to_move(&self) -> (r: Color)
        ensures
            r == self@.side,
    {
        self.side_to_move
    }

    /// The kind of color `c` on `square`, if any.
    fn kind_at_exec(&self, c: Color, square: u8) -> (r: Option<PieceKind>)
        requires
            square < 64,
        ensures
            r == self.kind_at(c, square as int),
    {
        let base: usize = if c.is_white() {
            0
        } else {
            6
        };
        if test_bit(self.pieces[base], square) {
            Some(PieceKind::Pawn)
        } else if test_bit(self.pieces[base + 1], square) {
            Some(PieceKind::Knight)
        } else if test_bit(self.pieces[base + 2], square) {
            Some(PieceKind::Bishop)
        } else if test_bit(self.pieces[base + 3], square) {
            Some(PieceKind::Rook)
        } else if test_bit(self.pieces[base + 4], square) {
            Some(PieceKind::Queen)
        } else if test_bit(self.pieces[base + 5], square) {
            Some(PieceKind::King)
        } else {
            None
        }
    }

    /// The piece on `square`: the first bitboard that holds it, White's before Black's.
    pub(crate) fn piece_at(&self, square: u8) -> (r: Option<(Color, PieceKind)>)
        requires
            square < 64,
        ensures
            r == self.piece_at_spec(square as int),
            r == self@.squares[square as int],
    {
        match self.kind_at_exec(Color::White, square) {
            Some(k) => Some((Color::White, k)),
            None => match self.kind_at_exec(Color::Black, square) {
                Some(k) => Some((Color::Black, k)),
                None => None,
            },
        }
    }

    /// Whether a piece stands on `square`.
    pub(crate) fn is_occupied(&self, square: u8) -> (r: bool)
        requires
            square < 64,
        ensures
            r == self@.occupied(square as int),
    {
        self.piece_at(square).is_some()
    }

    /// The union of all twelve bitboards.
    pub(crate) fn occupancy(&self) -> (r: Bitboard)
        ensures
            r == self.occupancy_spec(),
            r == occupancy_word(self@),
            forall|s: int| 0 <= s < 64 ==> (bit_set(r, s) <==> #[trigger] self@.squares[s] is Some),
    {
        let p = &self.pieces;
        let r = p[0] | p[1] | p[2] | p[3] | p[4] | p[5] | p[6] | p[7] | p[8] | p[9] | p[10]
            | p[11];
        proof {
            assert forall|s: int| 0 <= s < 64 implies (bit_set(r, s) <==> #[trigger] self@.squares[s] is Some) by {
                lemma_occupancy_union(*self, s);
            }
            assert(is_occupancy_of(r, self@));
            let w = occupancy_word(self@);
            assert forall|s: int| 0 <= s < 64 implies (#[trigger] bit_set(w, s) <==> bit_set(r, s)) by {}
            lemma_bits_ext(w, r);
        }
        r
    }

    /// Puts a piece on an empty square.
    pub(crate) fn put_piece(&mut self, square: u8, c: Color, k: PieceKind)
        requires
            old(self).wf(),
            square < 64,
            old(self)@.squares[square as int] is None,
        ensures
            final(self).wf(),
            final(self)@ == with_square(old(self)@, square as int, Some((c, k))),
    {
        let i = slot_exec(c, k);
        let ghost before = *self;
        self.pieces[i] = self.pieces[i] | bit(square);
        proof {
            lemma_has_set(before.pieces@[i as int], square as int);
            let after = *self;
            assert forall|c2: Color, k2: PieceKind, s: int|
                #![trigger bit_set(after.bb(c2, k2), s)]
                0 <= s < 64 implies bit_set(after.bb(c2, k2), s) == (if c2 == c && k2 == k {
                    s == square || bit_set(before.bb(c2, k2), s)
                } else {
                    bit_set(before.bb(c2, k2), s)
                }) by {
                if !(c2 == c && k2 == k) {
                    assert(slot(c2, k2) != slot(c, k));
                }
            }
            assert forall|c2: Color, k2: PieceKind| !bit_set(#[trigger] before.bb(c2, k2), square as int) by {
                assert(before@.squares[square as int] is None);
            }
            assert forall|s: int| 0 <= s < 64 && s != square implies after.piece_at_spec(s)
                == before.piece_at_spec(s) by {}
            assert(after.piece_at_spec(square as int) == Some((c, k)));
            assert(after@.squares =~= before@.squares.update(square as int, Some((c, k))));
        }
    }

    /// Takes the piece of color `c` and kind `k` off `square`.
    pub(crate) fn take_piece(&mut self, square: u8, c: Color, k: PieceKind)
        requires
            old(self).wf(),
            square < 64,
            old(self)@.squares[square as int] == Some((c, k)),
        ensures
            final(self).wf(),
            final(self)@ == with_square(old(self)@, square as int, None),
    {
        let i = slot_exec(c, k);
        let ghost before = *self;
        self.pieces[i] = self.pieces[i] & !bit(square);
        proof {
            lemma_has_clear(before.pieces@[i as int], square as int);
            let after = *self;
            assert forall|c2: Color, k2: PieceKind, s: int|
                #![trigger bit_set(after.bb(c2, k2), s)]
                0 <= s < 64 implies bit_set(after.bb(c2, k2), s) == (if c2 == c && k2 == k {
                    s != square && bit_set(before.bb(c2, k2), s)
                } else {
                    bit_set(before.bb(c2, k2), s)
                }) by {
                if !(c2 == c && k2 == k) {
                    assert(slot(c2, k2) != slot(c, k));
                }
            }
            assert forall|c2: Color, k2: PieceKind|
                !(c2 == c && k2 == k) implies !bit_set(#[trigger] before.bb(c2, k2), square as int) by {}
            assert forall|s: int| 0 <= s < 64 && s != square implies after.piece_at_spec(s)
                == before.piece_at_spec(s) by {}
            assert(after.piece_at_spec(square as int) is None);
            assert(after@.squares =~= before@.squares.update(square as int, None));
        }
    }
}


proof fn lemma_and_not_small(c: u8, a: u8, b: u8)
    requires
        c < 16,
    ensures
        (c & !a) & !b < 16,
{
    assert((c & !a) & !b < 16) by (bit_vector)
        requires
            c < 16,
    ;
}

/// The rook's origin and destination when `c` castles towards `side`.
pub(crate) fn castle_rook_squares(c: Color, side: CastleSide) -> (r: (u8, u8))
    ensures
        r.0 == castle_rook_from(c, side),
        r.1 == castle_rook_to(c, side),
{
    match (c, side) {
        (Color::White, CastleSide::KingSide) => (7, 5),
        (Color::White, CastleSide::QueenSide) => (0, 3),
        (Color::Black, CastleSide::KingSide) => (63, 61),
        (Color::Black, CastleSide::QueenSide) => (56, 59),
    }
}

/// Both castling bits of `c`.
fn color_rights_exec(c: Color) -> (r: u8)
    ensures
        r == color_rights(c),
{
    match c {
        Color::White => 3,
        Color::Black => 12,
    }
}

/// The castling bit that a rook of `c` on `square` stands for, or 0 off the corners.
fn corner_right_exec(c: Color, square: u8) -> (r: u8)
    ensures
        r == corner_right(c, square as int),
{
    match c {
        Color::White => if square == 0 {
            2
        } else if square == 7 {
            1
        } else {
            0
        },
        Color::Black => if square == 56 {
            8
        } else if square == 63 {
            4
        } else {
            0
        },
    }
}

fn bump_exec(x: u32) -> (r: u32)
    ensures
        r == bump(x),
{
    if x < u32::MAX {
        x + 1
    } else {
        x
    }
}

impl Board {
    /// Whether an enemy pawn of `c` stands beside `to` on the same rank.
    fn enemy_pawn_beside_exec(&self, c: Color, to: u8) -> (r: bool)
        requires
            self.wf(),
            to < 64,
        ensures
            r == enemy_pawn_beside(self@.squares, c, to as int),
    {
        let f = (to % 8) as i32;
        let rk = (to / 8) as i32;
        let opp = c.opponent();
        self.holds_exec(f - 1, rk, opp, PieceKind::Pawn) || self.holds_exec(
            f + 1,
            rk,
            opp,
            PieceKind::Pawn,
        )
    }

    /// Moves the pieces of `mv`: the mover leaves its square, a captured piece leaves its
    /// square, and the mover (and its rook, when castling) arrives.
    fn move_pieces(&mut self, mv: &Move)
        requires
            old(self).wf(),
            move_fits(old(self)@, *mv),
        ensures
            final(self).wf(),
            final(self)@ == (Position { squares: squares_after(old(self)@, *mv), ..old(self)@ }),
    {
        let ghost p = self@;
        self.take_piece(mv.from, mv.color, mv.piece);
        match mv.castle {
            Some(side) => {
                self.put_piece(mv.to, mv.color, PieceKind::King);
                let (rook_from, rook_to) = castle_rook_squares(mv.color, side);
                self.take_piece(rook_from, mv.color, PieceKind::Rook);
                self.put_piece(rook_to, mv.color, PieceKind::Rook);
            },
            None => {
                match mv.capture {
                    Some(k) => {
                        let cs = match mv.capture_square {
                            Some(s) => s,
                            None => mv.to,
                        };
                        self.take_piece(cs, mv.color.opponent(), k);
                    },
                    None => {},
                }
                self.put_piece(mv.to, mv.color, mv.piece);
            },
        }
        assert(self@.squares =~= squares_after(p, *mv));
    }

    /// The castling bits that `mv` leaves.
    fn rights_after(&self, mv: &Move) -> (r: u8)
        requires
            self.castling < 16,
        ensures
            r == castling_after(self@, *mv),
            r < 16,
    {
        let own_lost = if mv.castle.is_some() || mv.piece.is_king() {
            color_rights_exec(mv.color)
        } else if mv.piece == PieceKind::Rook {
            corner_right_exec(mv.color, mv.from)
        } else {
            0
        };
        let captured_lost = if mv.castle.is_none() && mv.capture.is_some() {
            let cs = match mv.capture_square {
                Some(s) => s,
                None => mv.to,
            };
            corner_right_exec(mv.color.opponent(), cs)
        } else {
            0
        };
        proof {
            lemma_and_not_small(self.castling, own_lost, captured_lost);
        }
        (self.castling & !own_lost) & !captured_lost
    }

    #[verifier::rlimit(40)]
    /// Plays `mv` on the board: moves the pieces, and updates castling rights, the en-passant
    /// square, the clocks and the side to move.
    pub(crate) fn apply_move(&mut self, mv: &Move)
        requires
            old(self).wf(),
            move_fits(old(self)@, *mv),
        ensures
            final(self).wf(),
            final(self)@ == apply_pos(old(self)@, *mv),
    {
        let ghost p = self@;
        let rights = self.rights_after(mv);
        let full = if self.side_to_move.is_white() {
            self.fullmove_number
        } else {
            bump_exec(self.fullmove_number)
        };
        let half = if mv.piece.is_pawn() || mv.capture.is_some() {
            0
        } else {
            bump_exec(self.halfmove_clock)
        };
        let side = self.side_to_move.opponent();
        self.move_pieces(mv);
        let ghost moved = *self;
        let ep = if mv.is_double_pawn_push && mv.piece.is_pawn() && self.enemy_pawn_beside_exec(
            mv.color,
            mv.to,
        ) {
            if mv.color.is_white() {
                Some(mv.from + 8)
            } else {
                Some(mv.from - 8)
            }
        } else {
            None
        };
        self.castling = rights;
        self.en_passant = ep;
        self.fullmove_number = full;
        self.halfmove_clock = half;
        self.side_to_move = side;
        proof {
            assert(self.pieces == moved.pieces);
            assert(self@.squares =~= moved@.squares);
            assert(self.en_passant == en_passant_after(p, *mv));
        }
    }
}


/// The kind on file `f` of a back rank at the start of a game.
pub open spec fn back_rank_kind(f: int) -> PieceKind {
    if f == 0 || f == 7 {
        PieceKind::Rook
    } else if f == 1 || f == 6 {
        PieceKind::Knight
    } else if f == 2 || f == 5 {
        PieceKind::Bishop
    } else if f == 3 {
        PieceKind::Queen
    } else {
        PieceKind::King
    }
}

/// What stands on square `s` at the start of a game.
pub open spec fn start_piece(s: int) -> Option<(Color, PieceKind)> {
    let r = s / 8;
    if r == 0 {
        Some((Color::White, back_rank_kind(s % 8)))
    } else if r == 1 {
        Some((Color::White, PieceKind::Pawn))
    } else if r == 6 {
        Some((Color::Black, PieceKind::Pawn))
    } else if r == 7 {
        Some((Color::Black, back_rank_kind(s % 8)))
    } else {
        None
    }
}

/// The standard starting position, with all castling rights.
pub open spec fn start_position() -> Position {
    Position {
        squares: Seq::new(64, |s: int| start_piece(s)),
        side: Color::White,
        castling: 15,
        en_passant: None,
        halfmove: 0,
        fullmove: 1,
    }
}

fn back_rank_kind_exec(f: u8) -> (r: PieceKind)
    ensures
        r == back_rank_kind(f as int),
{
    if f == 0 || f == 7 {
        PieceKind::Rook
    } else if f == 1 || f == 6 {
        PieceKind::Knight
    } else if f == 2 || f == 5 {
        PieceKind::Bishop
    } else if f == 3 {
        PieceKind::Queen
    } else {
        PieceKind::King
    }
}

impl Board {
    /// The standard starting position.
    pub(crate) fn starting_position() -> (r: Board)
        ensures
            r.wf(),
            r@ == start_position(),
    {
        let mut b = Board::empty();
        let mut f: u8 = 0;
        while f < 8
            invariant
                b.wf(),
                f <= 8,
                b@ == (Position { squares: b@.squares, ..Board::empty_view() }),
                b@.squares.len() == 64,
                forall|s: int|
                    0 <= s < 64 ==> #[trigger] b@.squares[s] == (if s % 8 < f {
                        start_piece(s)
                    } else {
                        None
                    }),
            decreases 8 - f,
        {
            let kind = back_rank_kind_exec(f);
            b.put_piece(f, Color::White, kind);
            b.put_piece(8 + f, Color::White, PieceKind::Pawn);
            b.put_piece(48 + f, Color::Black, PieceKind::Pawn);
            b.put_piece(56 + f, Color::Black, kind);
            f += 1;
        }
        let ghost placed = b;
        b.castling = 15;
        proof {
            assert(b.pieces == placed.pieces);
            assert forall|s: int| 0 <= s < 64 implies #[trigger] b@.squares[s] == start_position().squares[s] by {
                assert(s % 8 < 8);
                assert(placed@.squares[s] == start_piece(s));
            }
            assert(b@.squares =~= start_position().squares);
        }
        b
    }

    /// Replaces the pawn on `square` with a piece of kind `new_piece` of the same color.
    pub(crate) fn promote_piece(&mut self, square: u8, new_piece: PieceKind) -> (r: Result<
        (),
        EngineError,
    >)
        requires
            old(self).wf(),
            square < 64,
        ensures
            final(self).wf(),
            match old(self)@.squares[square as int] {
                Some((c, PieceKind::Pawn)) => r is Ok && final(self)@ == with_square(
                    old(self)@,
                    square as int,
                    Some((c, new_piece)),
                ),
                _ => r matches Err(EngineError::IllegalMove(_)) && *final(self) == *old(self),
            },
    {
        let (color, piece) = match self.piece_at(square) {
            Some(x) => x,
            None => {
                return Err(EngineError::IllegalMove(owned("promotion square empty")));
            },
        };
        if piece != PieceKind::Pawn {
            return Err(EngineError::IllegalMove(owned("promotion square does not contain a pawn")));
        }
        let ghost before = self@;
        self.take_piece(square, color, PieceKind::Pawn);
        self.put_piece(square, color, new_piece);
        assert(self@.squares =~= with_square(before, square as int, Some((color, new_piece))).squares);
        Ok(())
    }
}

} // verus!
