use vstd::prelude::*;

pub mod attack;
pub mod board;
pub mod change;
pub mod debounce;
pub mod fen;
pub mod fen_laws;
pub mod fen_parse;
pub mod laws;
pub mod pgn;
pub mod rules;
pub mod square;
pub mod text;
pub mod types;
pub mod validate;

pub use crate::types::{
    Bitboard, BoardChange, CastleSide, Color, EngineError, EngineUpdate, Move, MoveSummary, PieceKind,
    PromotionRequest,
};

use crate::board::{start_position, with_square, Board};
use crate::change::{
    added_of, intent_of, lemma_squares_where_bounded, lifted_empty, removed_enemy_of,
    removed_self_of, replaced_of, ChangeSet,
};
use crate::fen::fen_of;
use crate::fen_parse::parse_fen;
use crate::pgn::{build_pgn, pgn_text};
use crate::rules::{apply_pos, occupancy_word, Position};
use crate::square::{bit_set, coord_chars_to_square, coord_square};
use crate::text::{chars_of, owned};
use crate::validate::intent_plan;

verus! {

/// What an observation amounts to on a position, before any promotion is pending.
pub enum Outcome {
    /// The board is as it was, or no piece of the side to move was lifted.
    Unchanged,
    /// The changed squares do not form a move pattern, or the move would not leave the
    /// reported occupancy.
    BadMask,
    /// The pattern names a move that the rules forbid.
    Illegal,
    /// The move to play.
    Play(Move),
}

/// The outcome of observing `state` with `mask` on position `p`.
pub open spec fn observe_outcome(p: Position, mask: u64, state: u64) -> Outcome {
    let prev = occupancy_word(p);
    if prev == state {
        Outcome::Unchanged
    } else if lifted_empty(p, mask, prev, state) {
        Outcome::BadMask
    } else if removed_self_of(p, mask, prev, state).len() == 0 {
        Outcome::Unchanged
    } else {
        match intent_of(
            p,
            removed_self_of(p, mask, prev, state),
            removed_enemy_of(p, mask, prev, state),
            added_of(mask, prev, state),
            replaced_of(mask, prev, state),
        ) {
            None => Outcome::BadMask,
            Some(intent) => match intent_plan(p, intent) {
                None => Outcome::Illegal,
                Some(mv) => if occupancy_word(apply_pos(p, mv)) != state {
                    Outcome::BadMask
                } else {
                    Outcome::Play(mv)
                },
            },
        }
    }
}

/// A pending promotion: the pawn has reached the last rank and waits for its new kind.
pub open spec fn pending_fits(p: Position, m: Move) -> bool {
    &&& m.piece == PieceKind::Pawn
    &&& m.from < 64
    &&& m.to < 64
    &&& m.requires_promotion
    &&& p.squares[m.to as int] == Some((m.color, PieceKind::Pawn))
}

/// The move recorded once a pending promotion is confirmed as `kind`.
pub open spec fn promoted_move(m: Move, kind: PieceKind) -> Move {
    Move { promotion: Some(kind), requires_promotion: false, ..m }
}

/// The stateful rules engine: the current board, the moves played, and a promotion that waits
/// for its piece kind.
pub struct Engine {
    board: Board,
    history: Vec<Move>,
    pending: Option<Move>,
}

impl Engine {
    /// The current position.
    pub closed spec fn position(&self) -> Position {
        self.board@
    }

    /// The board that holds the current position.
    pub closed spec fn board_state(&self) -> Board {
        self.board
    }

    /// The moves played, in order.
    pub closed spec fn moves(&self) -> Seq<Move> {
        self.history@
    }

    /// The move that waits for its promotion kind, if any.
    pub closed spec fn pending_move(&self) -> Option<Move> {
        self.pending
    }

    /// The board is well formed, the recorded moves name squares, and a pending promotion has
    /// its pawn on the last rank.
    pub closed spec fn wf(&self) -> bool {
        &&& self.board.wf()
        &&& forall|i: int|
            0 <= i < self.history@.len() ==> #[trigger] self.history@[i].from < 64
                && self.history@[i].to < 64
        &&& (self.pending matches Some(m) ==> pending_fits(self.board@, m))
    }

    /// An engine at the standard starting position.
    pub fn new() -> (r: Engine)
        ensures
            r.wf(),
            r.position() == start_position(),
            r.moves().len() == 0,
            r.pending_move() is None,
    {
        Engine { board: Board::starting_position(), history: Vec::new(), pending: None }
    }

    /// An engine at the position that `fen` describes.
    pub fn from_fen(fen: &str) -> (r: Result<Engine, EngineError>)
        ensures
            match parse_fen(fen@) {
                Some(p) => r matches Ok(e) && e.wf() && e.position() == p && e.moves().len() == 0
                    && e.pending_move() is None,
                None => r matches Err(EngineError::InvalidFen(_)),
            },
    {
        match Board::from_fen(fen) {
            Ok(board) => Ok(Engine { board, history: Vec::new(), pending: None }),
            Err(e) => Err(e),
        }
    }

    /// Replaces the position with the one `fen` describes, and forgets the game so far.
    pub fn set_position(&mut self, fen: &str) -> (r: Result<(), EngineError>)
        requires
            old(self).wf(),
        ensures
            final(self).wf(),
            match parse_fen(fen@) {
                Some(p) => r is Ok && final(self).position() == p && final(self).moves().len()
                    == 0 && final(self).pending_move() is None,
                None => r matches Err(EngineError::InvalidFen(_)) && final(self).position()
                    == old(self).position() && final(self).moves() == old(self).moves()
                    && final(self).pending_move() == old(self).pending_move(),
            },
    {
        let board = match Board::from_fen(fen) {
            Ok(b) => b,
            Err(e) => {
                return Err(e);
            },
        };
        self.board = board;
        self.history = Vec::new();
        self.pending = None;
        Ok(())
    }

    /// The FEN text of the current position.
    pub fn to_fen(&self) -> (r: String)
        requires
            self.wf(),
        ensures
            r@ == fen_of(self.position()),
    {
        self.board.to_fen()
    }

    /// The coordinate PGN of the moves played.
    pub fn pgn(&self) -> (r: String)
        requires
            self.wf(),
        ensures
            r@ == pgn_text(self.moves()),
    {
        build_pgn(&self.history)
    }

    /// The occupied squares of the current position.
    pub fn occupancy_mask(&self) -> (r: Bitboard)
        requires
            self.wf(),
        ensures
            r == occupancy_word(self.position()),
            forall|s: int|
                0 <= s < 64 ==> (bit_set(r, s) <==> #[trigger] self.position().squares[s] is Some),
    {
        self.board.occupancy()
    }

    /// The piece on `square`, or none; squares past the last are empty.
    pub fn piece_at(&self, square: u8) -> (r: Option<(Color, PieceKind)>)
        requires
            self.wf(),
        ensures
            r == (if square < 64 {
                self.position().squares[square as int]
            } else {
                None
            }),
    {
        if square < 64 {
            self.board.piece_at(square)
        } else {
            None
        }
    }

    /// The square that an algebraic coordinate names, or a `Square` error.
    pub fn square_from_coord(coord: &str) -> (r: Result<u8, EngineError>)
        ensures
            match coord_square(coord@) {
                Some(s) => r == Ok::<u8, EngineError>(s),
                None => r matches Err(EngineError::Square(_)),
            },
    {
        let chars = chars_of(coord);
        match coord_chars_to_square(&chars) {
            Some(s) => Ok(s),
            None => Err(EngineError::Square(owned(coord))),
        }
    }

    /// Records `mv` and reports it with the position and game that follow.
    fn finalize_move(&mut self, mv: Move) -> (r: MoveSummary)
        requires
            old(self).board.wf(),
            mv.from < 64,
            mv.to < 64,
            forall|i: int|
                0 <= i < old(self).history@.len() ==> #[trigger] old(self).history@[i].from < 64
                    && old(self).history@[i].to < 64,
        ensures
            final(self).board == old(self).board,
            final(self).pending == old(self).pending,
            final(self).history@ == old(self).history@.push(mv),
            r.mv == mv,
            r.fen@ == fen_of(final(self).board@),
            r.pgn@ == pgn_text(final(self).history@),
    {
        self.history.push(mv);
        let fen = self.board.to_fen();
        let pgn = build_pgn(&self.history);
        MoveSummary { mv, fen, pgn }
    }

    /// Interprets a sensor report: `mask` holds the squares involved, `state` the full new
    /// occupancy. A legal move whose result matches `state` is played; a pawn reaching its last
    /// rank waits for `confirm_promotion`. Nothing changes on an error.
    pub fn observe(&mut self, mask: Bitboard, state: Bitboard) -> (r: Result<
        EngineUpdate,
        EngineError,
    >)
        requires
            old(self).wf(),
        ensures
            final(self).wf(),
            old(self).pending_move() is Some ==> r matches Err(EngineError::PendingPromotion),
            r is Err ==> final(self).position() == old(self).position() && final(self).moves()
                == old(self).moves() && final(self).pending_move() == old(self).pending_move(),
            old(self).pending_move() is None ==> match observe_outcome(
                old(self).position(),
                mask,
                state,
            ) {
                Outcome::Unchanged => r matches Ok(EngineUpdate::NoChange) && final(self).position()
                    == old(self).position() && final(self).moves() == old(self).moves()
                    && final(self).pending_move() is None,
                Outcome::BadMask => r matches Err(EngineError::InvalidMask(_)),
                Outcome::Illegal => r matches Err(EngineError::IllegalMove(_)),
                Outcome::Play(mv) => final(self).position() == apply_pos(old(self).position(), mv)
                    && if mv.requires_promotion {
                    &&& r == Ok::<EngineUpdate, EngineError>(
                        EngineUpdate::PromotionPending(
                            PromotionRequest { color: mv.color, square: mv.to },
                        ),
                    )
                    &&& final(self).pending_move() == Some(mv)
                    &&& final(self).moves() == old(self).moves()
                } else {
                    &&& r matches Ok(EngineUpdate::MoveApplied(s)) && s.mv == mv && s.fen@
                        == fen_of(final(self).position()) && s.pgn@ == pgn_text(
                        final(self).moves(),
                    )
                    &&& final(self).pending_move() is None
                    &&& final(self).moves() == old(self).moves().push(mv)
                },
            },
    {
        if self.pending.is_some() {
            return Err(EngineError::PendingPromotion);
        }
        let expected = self.board.occupancy();
        if expected == state {
            return Ok(EngineUpdate::NoChange);
        }
        let change = match ChangeSet::new(mask, expected, state, &self.board) {
            Ok(c) => c,
            Err(e) => {
                return Err(e);
            },
        };
        if !change.represents_move() {
            return Ok(EngineUpdate::NoChange);
        }
        let intent = match change.to_intent(&self.board) {
            Ok(i) => i,
            Err(e) => {
                return Err(e);
            },
        };
        proof {
            let p = self.board@;
            lemma_squares_where_bounded(64, crate::change::removed_self_pred(p, mask, expected, state));
            lemma_squares_where_bounded(64, crate::change::removed_enemy_pred(p, mask, expected, state));
            lemma_squares_where_bounded(64, crate::change::added_pred(mask, expected, state));
            lemma_squares_where_bounded(64, crate::change::replaced_pred(mask, expected, state));
        }
        let plan = match self.board.validate_intent(intent) {
            Ok(m) => m,
            Err(e) => {
                return Err(e);
            },
        };
        let mut board_clone = self.board;
        board_clone.apply_move(&plan);
        if board_clone.occupancy() != state {
            return Err(EngineError::InvalidMask(owned("state does not match move")));
        }
        self.board = board_clone;
        if plan.requires_promotion {
            self.pending = Some(plan);
            return Ok(
                EngineUpdate::PromotionPending(PromotionRequest { color: plan.color, square: plan.to }),
            );
        }
        let summary = self.finalize_move(plan);
        Ok(EngineUpdate::MoveApplied(summary))
    }

    /// Completes a pending promotion with a knight, bishop, rook or queen: the pawn on the
    /// last rank becomes that piece and the move is recorded. Nothing changes on an error.
    pub fn confirm_promotion(&mut self, piece: PieceKind) -> (r: Result<MoveSummary, EngineError>)
        requires
            old(self).wf(),
        ensures
            final(self).wf(),
            r is Err ==> final(self).position() == old(self).position() && final(self).moves()
                == old(self).moves() && final(self).pending_move() == old(self).pending_move(),
            old(self).pending_move() is None ==> r matches Err(EngineError::IllegalMove(_)),
            (piece == PieceKind::Pawn || piece == PieceKind::King) ==> r matches Err(
                EngineError::IllegalMove(_),
            ),
            match old(self).pending_move() {
                Some(m) => (piece != PieceKind::Pawn && piece != PieceKind::King) ==> {
                    &&& final(self).position() == with_square(
                        old(self).position(),
                        m.to as int,
                        Some((m.color, piece)),
                    )
                    &&& final(self).moves() == old(self).moves().push(promoted_move(m, piece))
                    &&& final(self).pending_move() is None
                    &&& r matches Ok(s) && s.mv == promoted_move(m, piece) && s.fen@ == fen_of(
                        final(self).position(),
                    ) && s.pgn@ == pgn_text(final(self).moves())
                },
                None => true,
            },
    {
        let plan = match self.pending {
            Some(m) => m,
            None => {
                return Err(EngineError::IllegalMove(owned("no pending promotion")));
            },
        };
        if piece == PieceKind::Pawn || piece == PieceKind::King {
            return Err(
                EngineError::IllegalMove(owned("promotion must be to knight, bishop, rook, or queen")),
            );
        }
        let mv = Move { promotion: Some(piece), requires_promotion: false, ..plan };
        let mut board = self.board;
        match board.promote_piece(plan.to, piece) {
            Ok(()) => {},
            Err(e) => {
                return Err(e);
            },
        }
        self.board = board;
        self.pending = None;
        let summary = self.finalize_move(mv);
        Ok(summary)
    }
}

/// Reading back the FEN text of an engine's position gives that position.
pub proof fn lemma_engine_fen_round_trip(e: Engine)
    requires
        e.wf(),
    ensures
        parse_fen(fen_of(e.position())) == Some(e.position()),
{
    crate::fen_laws::lemma_fen_round_trip(e.position());
}

/// The board of an engine never has a square set in two bitboards, and its occupancy is the
/// union of the twelve.
pub proof fn lemma_engine_board_consistent(e: Engine)
    requires
        e.wf(),
    ensures
        e.board_state().wf(),
        e.board_state().occupancy_spec() == occupancy_word(e.position()),
        e.board_state()@ == e.position(),
{
    crate::laws::lemma_occupancy_is_union(e.board);
}

} // verus!
