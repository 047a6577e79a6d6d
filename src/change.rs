use vstd::prelude::*;

use crate::board::Board;
use crate::rules::Position;
use crate::square::{bit_set, test_bit};
use crate::text::owned;
use crate::types::{Bitboard, CastleSide, Color, EngineError, PieceKind};
use crate::validate::MoveIntent;

verus! {

/// The squares below `n`, in increasing order, that satisfy `pred`.
pub open spec fn squares_where(n: int, pred: spec_fn(int) -> bool) -> Seq<u8>
    decreases n,
{
    if n <= 0 {
        seq![]
    } else if pred(n - 1) {
        squares_where(n - 1, pred).push((n - 1) as u8)
    } else {
        squares_where(n - 1, pred)
    }
}

/// Every square that `squares_where` lists is below `n` and satisfies `pred`.
pub proof fn lemma_squares_where_bounded(n: int, pred: spec_fn(int) -> bool)
    requires
        n <= 64,
    ensures
        forall|i: int|
            0 <= i < squares_where(n, pred).len() ==> #[trigger] squares_where(n, pred)[i] < n
                && pred(squares_where(n, pred)[i] as int),
    decreases n,
{
    if n > 0 {
        lemma_squares_where_bounded(n - 1, pred);
        let prev = squares_where(n - 1, pred);
        if pred(n - 1) {
            assert(squares_where(n, pred) == prev.push((n - 1) as u8));
            assert forall|i: int| 0 <= i < squares_where(n, pred).len() implies #[trigger] squares_where(n, pred)[i] < n
                && pred(squares_where(n, pred)[i] as int) by {
                if i < prev.len() {
                    assert(squares_where(n, pred)[i] == prev[i]);
                }
            }
        }
    }
}

/// A square in the mask that was occupied before and is empty now.
pub open spec fn lifted(mask: u64, prev: u64, state: u64, s: int) -> bool {
    bit_set(mask, s) && bit_set(prev, s) && !bit_set(state, s)
}

pub open spec fn removed_self_at(p: Position, mask: u64, prev: u64, state: u64, s: int) -> bool {
    lifted(mask, prev, state, s) && (p.at(s) matches Some((c, _)) && c == p.side)
}

pub open spec fn removed_enemy_at(p: Position, mask: u64, prev: u64, state: u64, s: int) -> bool {
    lifted(mask, prev, state, s) && (p.at(s) matches Some((c, _)) && c != p.side)
}

/// A square in the mask that was empty before and is occupied now.
pub open spec fn added_at(mask: u64, prev: u64, state: u64, s: int) -> bool {
    bit_set(mask, s) && !bit_set(prev, s) && bit_set(state, s)
}

/// A square in the mask that was occupied before and is occupied now.
pub open spec fn replaced_at(mask: u64, prev: u64, state: u64, s: int) -> bool {
    bit_set(mask, s) && bit_set(prev, s) && bit_set(state, s)
}

/// A lifted square on which the board has no piece.
pub open spec fn lifted_empty(p: Position, mask: u64, prev: u64, state: u64) -> bool {
    exists|s: int| 0 <= s < 64 && #[trigger] lifted(mask, prev, state, s) && p.at(s) is None
}

pub open spec fn removed_self_pred(p: Position, mask: u64, prev: u64, state: u64) -> spec_fn(
    int,
) -> bool {
    |s: int| removed_self_at(p, mask, prev, state, s)
}

pub open spec fn removed_enemy_pred(p: Position, mask: u64, prev: u64, state: u64) -> spec_fn(
    int,
) -> bool {
    |s: int| removed_enemy_at(p, mask, prev, state, s)
}

pub open spec fn added_pred(mask: u64, prev: u64, state: u64) -> spec_fn(int) -> bool {
    |s: int| added_at(mask, prev, state, s)
}

pub open spec fn replaced_pred(mask: u64, prev: u64, state: u64) -> spec_fn(int) -> bool {
    |s: int| replaced_at(mask, prev, state, s)
}

pub open spec fn removed_self_of(p: Position, mask: u64, prev: u64, state: u64) -> Seq<u8> {
    squares_where(64, removed_self_pred(p, mask, prev, state))
}

pub open spec fn removed_enemy_of(p: Position, mask: u64, prev: u64, state: u64) -> Seq<u8> {
    squares_where(64, removed_enemy_pred(p, mask, prev, state))
}

pub open spec fn added_of(mask: u64, prev: u64, state: u64) -> Seq<u8> {
    squares_where(64, added_pred(mask, prev, state))
}

pub open spec fn replaced_of(mask: u64, prev: u64, state: u64) -> Seq<u8> {
    squares_where(64, replaced_pred(mask, prev, state))
}

/// The first of `s`, from index `i` on, that satisfies `pred`.
pub open spec fn first_from(s: Seq<u8>, pred: spec_fn(u8) -> bool, i: int) -> Option<u8>
    decreases s.len() - i,
{
    if i < 0 || i >= s.len() {
        None
    } else if pred(s[i]) {
        Some(s[i])
    } else {
        first_from(s, pred, i + 1)
    }
}

/// A square that holds the king of the side to move.
pub open spec fn own_king_pred(p: Position) -> spec_fn(u8) -> bool {
    |sq: u8| sq < 64 && p.at(sq as int) == Some((p.side, PieceKind::King))
}

/// One of two squares.
pub open spec fn target_pred(t1: u8, t2: u8) -> spec_fn(u8) -> bool {
    |sq: u8| sq == t1 || sq == t2
}

/// The castle that two lifted and two placed pieces of the side to move stand for: the lifted
/// king's square and the first placed square that is one of its castling destinations.
pub open spec fn castle_intent_of(p: Position, rs: Seq<u8>, ad: Seq<u8>) -> Option<MoveIntent> {
    let king = first_from(rs, own_king_pred(p), 0);
    match king {
        None => None,
        Some(k) => {
            if !((p.side == Color::White && k == 4) || (p.side == Color::Black && k == 60)) {
                None
            } else {
                let t1: u8 = (k + 2) as u8;
                let t2: u8 = (k - 2) as u8;
                match first_from(ad, target_pred(t1, t2), 0) {
                    None => None,
                    Some(to) => if to == t1 {
                        Some(MoveIntent::Castle(CastleSide::KingSide))
                    } else {
                        Some(MoveIntent::Castle(CastleSide::QueenSide))
                    },
                }
            }
        },
    }
}

/// The intent that the four tallies stand for, if any.
pub open spec fn intent_of(p: Position, rs: Seq<u8>, re: Seq<u8>, ad: Seq<u8>, rp: Seq<u8>) -> Option<
    MoveIntent,
> {
    if rs.len() == 2 && ad.len() == 2 && re.len() == 0 && rp.len() == 0 {
        castle_intent_of(p, rs, ad)
    } else if re.len() > 1 || rp.len() > 1 {
        None
    } else if rs.len() != 1 {
        None
    } else if rp.len() == 1 && ad.len() == 0 {
        Some(MoveIntent::Standard { from: rs[0], to: rp[0], capture_square: None })
    } else if ad.len() == 1 {
        Some(
            MoveIntent::Standard {
                from: rs[0],
                to: ad[0],
                capture_square: if re.len() == 1 {
                    Some(re[0])
                } else {
                    None
                },
            },
        )
    } else {
        None
    }
}

pub(crate) fn invalid_mask(msg: &str) -> (r: EngineError)
    ensures
        r matches EngineError::InvalidMask(_),
{
    EngineError::InvalidMask(owned(msg))
}

/// The squares an observation touched, sorted into four kinds of transition.
pub struct ChangeSet {
    pub removed_self: Vec<u8>,
    pub removed_enemy: Vec<u8>,
    pub added: Vec<u8>,
    pub replaced: Vec<u8>,
}

impl ChangeSet {
    /// Sorts each square of `mask` by its occupancy in `previous` and `state`; a lifted square
    /// goes to the side whose piece the board has there.
    pub(crate) fn new(mask: Bitboard, previous: Bitboard, state: Bitboard, board: &Board) -> (r:
        Result<ChangeSet, EngineError>)
        requires
            board.wf(),
        ensures
            lifted_empty(board@, mask, previous, state) <==> r is Err,
            r matches Err(e) ==> e matches EngineError::InvalidMask(_),
            r matches Ok(cs) ==> {
                &&& cs.removed_self@ == removed_self_of(board@, mask, previous, state)
                &&& cs.removed_enemy@ == removed_enemy_of(board@, mask, previous, state)
                &&& cs.added@ == added_of(mask, previous, state)
                &&& cs.replaced@ == replaced_of(mask, previous, state)
            },
    {
        let ghost p = board@;
        let ghost prs = removed_self_pred(p, mask, previous, state);
        let ghost pre = removed_enemy_pred(p, mask, previous, state);
        let ghost pad = added_pred(mask, previous, state);
        let ghost prp = replaced_pred(mask, previous, state);
        let mut removed_self: Vec<u8> = Vec::new();
        let mut removed_enemy: Vec<u8> = Vec::new();
        let mut added: Vec<u8> = Vec::new();
        let mut replaced: Vec<u8> = Vec::new();
        let side = board.side_to_move();
        let mut sq: u8 = 0;
        while sq < 64
            invariant
                board.wf(),
                p == board@,
                side == p.side,
                prs == removed_self_pred(p, mask, previous, state),
                pre == removed_enemy_pred(p, mask, previous, state),
                pad == added_pred(mask, previous, state),
                prp == replaced_pred(mask, previous, state),
                sq <= 64,
                removed_self@ == squares_where(sq as int, prs),
                removed_enemy@ == squares_where(sq as int, pre),
                added@ == squares_where(sq as int, pad),
                replaced@ == squares_where(sq as int, prp),
                forall|s: int| 0 <= s < sq ==> !(#[trigger] lifted(mask, previous, state, s) && p.at(s) is None),
            decreases 64 - sq,
        {
            if test_bit(mask, sq) {
                let before = test_bit(previous, sq);
                let after = test_bit(state, sq);
                if before && !after {
                    match board.piece_at(sq) {
                        Some((color, _)) => {
                            if color == side {
                                assert(prs(sq as int));
                                assert(!pre(sq as int));
                                removed_self.push(sq);
                            } else {
                                assert(!prs(sq as int));
                                assert(pre(sq as int));
                                removed_enemy.push(sq);
                            }
                        },
                        None => {
                            assert(lifted(mask, previous, state, sq as int));
                            return Err(invalid_mask("mask referenced empty square"));
                        },
                    }
                } else if !before && after {
                    assert(!prs(sq as int) && !pre(sq as int));
                    added.push(sq);
                } else if before && after {
                    assert(!prs(sq as int) && !pre(sq as int));
                    replaced.push(sq);
                } else {
                    assert(!prs(sq as int) && !pre(sq as int));
                }
            } else {
                assert(!prs(sq as int) && !pre(sq as int));
            }
            sq += 1;
        }
        Ok(ChangeSet { removed_self, removed_enemy, added, replaced })
    }

    /// Whether a piece of the side to move was lifted.
    pub(crate) fn represents_move(&self) -> (r: bool)
        ensures
            r == (self.removed_self@.len() > 0),
    {
        self.removed_self.len() > 0
    }
}


impl Board {
    /// The first of `squares` that holds the king of the side to move.
    pub(crate) fn removed_king_square(&self, squares: &Vec<u8>) -> (r: Option<u8>)
        requires
            self.wf(),
        ensures
            r == first_from(squares@, own_king_pred(self@), 0),
    {
        let ghost pred = own_king_pred(self@);
        let side = self.side_to_move();
        let mut i: usize = 0;
        while i < squares.len()
            invariant
                self.wf(),
                pred == own_king_pred(self@),
                side == self@.side,
                i <= squares@.len(),
                first_from(squares@, pred, 0) == first_from(squares@, pred, i as int),
            decreases squares@.len() - i,
        {
            let sq = squares[i];
            if sq < 64 {
                match self.piece_at(sq) {
                    Some((c, k)) => {
                        if c == side && k == PieceKind::King {
                            return Some(sq);
                        }
                    },
                    None => {},
                }
            }
            i += 1;
        }
        None
    }

    /// The first of `added` that is a castling destination of the side to move's king on `from`.
    pub(crate) fn added_king_target(&self, from: u8, added: &Vec<u8>) -> (r: Option<u8>)
        ensures
            r == (if (self@.side == Color::White && from == 4) || (self@.side == Color::Black
                && from == 60) {
                first_from(added@, target_pred((from + 2) as u8, (from - 2) as u8), 0)
            } else {
                None
            }),
    {
        let (t1, t2): (u8, u8) = match (self.side_to_move, from) {
            (Color::White, 4) => (6, 2),
            (Color::Black, 60) => (62, 58),
            _ => {
                return None;
            },
        };
        let ghost pred = target_pred(t1, t2);
        let mut i: usize = 0;
        while i < added.len()
            invariant
                pred == target_pred(t1, t2),
                (self@.side == Color::White && from == 4) || (self@.side == Color::Black && from
                    == 60),
                t1 as int == from + 2,
                t2 as int == from - 2,
                i <= added@.len(),
                first_from(added@, pred, 0) == first_from(added@, pred, i as int),
            decreases added@.len() - i,
        {
            let sq = added[i];
            if sq == t1 || sq == t2 {
                assert(pred(sq));
                assert(first_from(added@, pred, i as int) == Some(sq));
                return Some(sq);
            }
            i += 1;
        }
        None
    }
}

impl ChangeSet {
    /// The castle that two lifted and two placed pieces of the side to move stand for.
    fn castle_intent(&self, board: &Board) -> (r: Result<MoveIntent, EngineError>)
        requires
            board.wf(),
        ensures
            match castle_intent_of(board@, self.removed_self@, self.added@) {
                Some(i) => r == Ok::<MoveIntent, EngineError>(i),
                None => r matches Err(EngineError::InvalidMask(_)),
            },
    {
        let king_square = match board.removed_king_square(&self.removed_self) {
            Some(k) => k,
            None => {
                return Err(invalid_mask("king missing for castle"));
            },
        };
        let to = match board.added_king_target(king_square, &self.added) {
            Some(t) => t,
            None => {
                return Err(invalid_mask("castle destination not found"));
            },
        };
        if to == king_square + 2 {
            Ok(MoveIntent::Castle(CastleSide::KingSide))
        } else {
            Ok(MoveIntent::Castle(CastleSide::QueenSide))
        }
    }

    /// The intent that the tallies stand for: a castle, a capture seen as a replaced square, or a
    /// move to the one placed square (with the square of a lifted enemy piece, if any).
    pub(crate) fn to_intent(&self, board: &Board) -> (r: Result<MoveIntent, EngineError>)
        requires
            board.wf(),
        ensures
            match intent_of(
                board@,
                self.removed_self@,
                self.removed_enemy@,
                self.added@,
                self.replaced@,
            ) {
                Some(i) => r == Ok::<MoveIntent, EngineError>(i),
                None => r matches Err(EngineError::InvalidMask(_)),
            },
    {
        if self.removed_self.len() == 2 && self.added.len() == 2 && self.removed_enemy.len() == 0
            && self.replaced.len() == 0 {
            return self.castle_intent(board);
        }
        if self.removed_enemy.len() > 1 || self.replaced.len() > 1 {
            return Err(invalid_mask("too many squares changed"));
        }
        if self.removed_self.len() != 1 {
            return Err(invalid_mask("expected a single moving piece"));
        }
        let from = self.removed_self[0];
        if self.replaced.len() == 1 && self.added.len() == 0 {
            let to = self.replaced[0];
            return Ok(MoveIntent::Standard { from, to, capture_square: None });
        }
        if self.added.len() == 1 {
            let to = self.added[0];
            let capture_square = if self.removed_enemy.len() == 1 {
                Some(self.removed_enemy[0])
            } else {
                None
            };
            return Ok(MoveIntent::Standard { from, to, capture_square });
        }
        Err(invalid_mask("unrecognized move pattern"))
    }
}

} // verus!
