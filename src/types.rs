use vstd::prelude::*;

use crate::text::{owned, push_str};

verus! {

/// A 64-bit set of squares: bit `i` stands for square `i`.
pub type Bitboard = u64;

/// The two sides of a chess game.
#[derive(Clone, Copy, Debug, PartialEq, Eq, Structural)]
pub enum Color {
    White,
    Black,
}

impl Color {
    pub open spec fn spec_idx(self) -> int {
        match self {
            Color::White => 0,
            Color::Black => 1,
        }
    }

    pub open spec fn spec_opponent(self) -> Color {
        match self {
            Color::White => Color::Black,
            Color::Black => Color::White,
        }
    }

    pub(crate) fn idx(self) -> (r: usize)
        ensures
            r == self.spec_idx(),
    {
        match self {
            Color::White => 0,
            Color::Black => 1,
        }
    }

    pub(crate) fn opponent(self) -> (r: Color)
        ensures
            r == self.spec_opponent(),
    {
        match self {
            Color::White => Color::Black,
            Color::Black => Color::White,
        }
    }

    pub(crate) fn is_white(self) -> (r: bool)
        ensures
            r == (self == Color::White),
    {
        match self {
            Color::White => true,
            Color::Black => false,
        }
    }

    /// The color of a FEN piece letter: upper case for White, lower case for Black.
    pub(crate) fn from_char(ch: char) -> (r: Option<Color>)
        ensures
            r == color_of_char(ch),
    {
        match ch {
            'P' | 'N' | 'B' | 'R' | 'Q' | 'K' => Some(Color::White),
            'p' | 'n' | 'b' | 'r' | 'q' | 'k' => Some(Color::Black),
            _ => None,
        }
    }
}

pub open spec fn color_of_char(ch: char) -> Option<Color> {
    if ch == 'P' || ch == 'N' || ch == 'B' || ch == 'R' || ch == 'Q' || ch == 'K' {
        Some(Color::White)
    } else if ch == 'p' || ch == 'n' || ch == 'b' || ch == 'r' || ch == 'q' || ch == 'k' {
        Some(Color::Black)
    } else {
        None
    }
}

/// The six kinds of chess pieces, in their fixed indexing order.
#[derive(Clone, Copy, Debug, PartialEq, Eq, Structural)]
pub enum PieceKind {
    Pawn,
    Knight,
    Bishop,
    Rook,
    Queen,
    King,
}

impl PieceKind {
    pub open spec fn spec_idx(self) -> int {
        match self {
            PieceKind::Pawn => 0,
            PieceKind::Knight => 1,
            PieceKind::Bishop => 2,
            PieceKind::Rook => 3,
            PieceKind::Queen => 4,
            PieceKind::King => 5,
        }
    }

    pub(crate) fn idx(self) -> (r: usize)
        ensures
            r == self.spec_idx(),
    {
        match self {
            PieceKind::Pawn => 0,
            PieceKind::Knight => 1,
            PieceKind::Bishop => 2,
            PieceKind::Rook => 3,
            PieceKind::Queen => 4,
            PieceKind::King => 5,
        }
    }

    pub(crate) fn is_pawn(self) -> (r: bool)
        ensures
            r == (self == PieceKind::Pawn),
    {
        match self {
            PieceKind::Pawn => true,
            _ => false,
        }
    }

    pub(crate) fn is_king(self) -> (r: bool)
        ensures
            r == (self == PieceKind::King),
    {
        match self {
            PieceKind::King => true,
            _ => false,
        }
    }

    /// The FEN letter of this kind for the given color.
    pub(crate) fn fen_symbol(self, color: Color) -> (r: char)
        ensures
            r == fen_symbol_spec(self, color),
    {
        let white = color.is_white();
        match self {
            PieceKind::Pawn => if white { 'P' } else { 'p' },
            PieceKind::Knight => if white { 'N' } else { 'n' },
            PieceKind::Bishop => if white { 'B' } else { 'b' },
            PieceKind::Rook => if white { 'R' } else { 'r' },
            PieceKind::Queen => if white { 'Q' } else { 'q' },
            PieceKind::King => if white { 'K' } else { 'k' },
        }
    }
}

pub open spec fn upper_symbol(kind: PieceKind) -> char {
    match kind {
        PieceKind::Pawn => 'P',
        PieceKind::Knight => 'N',
        PieceKind::Bishop => 'B',
        PieceKind::Rook => 'R',
        PieceKind::Queen => 'Q',
        PieceKind::King => 'K',
    }
}

pub open spec fn lower_symbol(kind: PieceKind) -> char {
    match kind {
        PieceKind::Pawn => 'p',
        PieceKind::Knight => 'n',
        PieceKind::Bishop => 'b',
        PieceKind::Rook => 'r',
        PieceKind::Queen => 'q',
        PieceKind::King => 'k',
    }
}

pub open spec fn fen_symbol_spec(kind: PieceKind, color: Color) -> char {
    match color {
        Color::White => upper_symbol(kind),
        Color::Black => lower_symbol(kind),
    }
}

/// The piece that a FEN letter stands for.
pub open spec fn piece_of_char(ch: char) -> Option<(Color, PieceKind)> {
    match color_of_char(ch) {
        None => None,
        Some(c) => Some(
            (
                c,
                if ch == 'P' || ch == 'p' {
                    PieceKind::Pawn
                } else if ch == 'N' || ch == 'n' {
                    PieceKind::Knight
                } else if ch == 'B' || ch == 'b' {
                    PieceKind::Bishop
                } else if ch == 'R' || ch == 'r' {
                    PieceKind::Rook
                } else if ch == 'Q' || ch == 'q' {
                    PieceKind::Queen
                } else {
                    PieceKind::King
                },
            ),
        ),
    }
}

/// The two sides of the board a king may castle towards.
#[derive(Clone, Copy, Debug, PartialEq, Eq, Structural)]
pub enum CastleSide {
    KingSide,
    QueenSide,
}

pub open spec fn castle_bits_spec(side: CastleSide, color: Color) -> u8 {
    match (color, side) {
        (Color::White, CastleSide::KingSide) => 1,
        (Color::White, CastleSide::QueenSide) => 2,
        (Color::Black, CastleSide::KingSide) => 4,
        (Color::Black, CastleSide::QueenSide) => 8,
    }
}

impl CastleSide {
    /// The bit of the castling-rights field that this side holds for `color`.
    pub(crate) fn as_bits(self, color: Color) -> (r: u8)
        ensures
            r == castle_bits_spec(self, color),
    {
        match (color, self) {
            (Color::White, CastleSide::KingSide) => 1,
            (Color::White, CastleSide::QueenSide) => 2,
            (Color::Black, CastleSide::KingSide) => 4,
            (Color::Black, CastleSide::QueenSide) => 8,
        }
    }
}

/// A fully specified move, as validation produces it and application consumes it.
#[derive(Clone, Copy, Debug, PartialEq, Eq, Structural)]
pub struct Move {
    pub color: Color,
    pub piece: PieceKind,
    pub from: u8,
    pub to: u8,
    pub capture: Option<PieceKind>,
    pub capture_square: Option<u8>,
    pub castle: Option<CastleSide>,
    pub is_en_passant: bool,
    pub is_double_pawn_push: bool,
    pub promotion: Option<PieceKind>,
    pub requires_promotion: bool,
}

/// The failures that the engine reports.
#[derive(Clone, Debug)]
pub enum EngineError {
    InvalidFen(String),
    InvalidMask(String),
    IllegalMove(String),
    PendingPromotion,
    Square(String),
}

/// The words that introduce each kind of failure in its text.
pub open spec fn error_text(e: EngineError) -> Seq<char> {
    match e {
        EngineError::InvalidFen(m) => "invalid FEN: "@ + m@,
        EngineError::InvalidMask(m) => "invalid mask: "@ + m@,
        EngineError::IllegalMove(m) => "illegal move: "@ + m@,
        EngineError::PendingPromotion => "promotion pending"@,
        EngineError::Square(m) => "invalid square: "@ + m@,
    }
}

impl EngineError {
    /// The failure as text, such as `illegal move: king would be in check`.
    pub fn to_string(&self) -> (r: String)
        ensures
            r@ == error_text(*self),
    {
        let (head, msg) = match self {
            EngineError::InvalidFen(m) => ("invalid FEN: ", Some(m)),
            EngineError::InvalidMask(m) => ("invalid mask: ", Some(m)),
            EngineError::IllegalMove(m) => ("illegal move: ", Some(m)),
            EngineError::PendingPromotion => ("promotion pending", None),
            EngineError::Square(m) => ("invalid square: ", Some(m)),
        };
        let mut out = owned(head);
        match msg {
            Some(m) => push_str(&mut out, m.as_str()),
            None => {},
        }
        out
    }
}

/// What a completed move produced: the move, the position after it and the game so far.
#[derive(Clone, Debug)]
pub struct MoveSummary {
    pub mv: Move,
    pub fen: String,
    pub pgn: String,
}

/// A pawn of `color` stands on `square`, its last rank, and waits for its new kind.
#[derive(Clone, Copy, Debug, PartialEq, Eq, Structural)]
pub struct PromotionRequest {
    pub color: Color,
    pub square: u8,
}

/// One debounced sensor event: the squares involved, and the full occupancy that followed.
#[derive(Clone, Copy, Debug, PartialEq, Eq, Structural)]
pub struct BoardChange {
    pub mask: u64,
    pub state: u64,
}

/// The outcome of an observation.
#[derive(Clone, Debug)]
pub enum EngineUpdate {
    NoChange,
    MoveApplied(MoveSummary),
    PromotionPending(PromotionRequest),
}

} // verus!
