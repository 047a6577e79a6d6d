use vstd::prelude::*;

use crate::fen::push_square_name;
use crate::square::square_name;
use crate::text::{decimal, push_char, push_decimal, push_str};
use crate::types::{upper_symbol, CastleSide, Move, PieceKind};

verus! {

/// The coordinate form of a move: `from-to`, `O-O` or `O-O-O`, with `=` and the upper-case
/// letter of the new kind on promotion.
pub open spec fn move_text(mv: Move) -> Seq<char> {
    match mv.castle {
        Some(CastleSide::KingSide) => seq!['O', '-', 'O'],
        Some(CastleSide::QueenSide) => seq!['O', '-', 'O', '-', 'O'],
        None => square_name(mv.from as int) + seq!['-'] + square_name(mv.to as int) + match mv.promotion {
            Some(k) => seq!['=', upper_symbol(k)],
            None => seq![],
        },
    }
}

/// The game in coordinate PGN: `1.e2-e4 e7-e5 2.g1-f3`.
pub open spec fn pgn_text(h: Seq<Move>) -> Seq<char>
    decreases h.len(),
{
    if h.len() == 0 {
        seq![]
    } else {
        let prev = pgn_text(h.drop_last());
        let idx = h.len() - 1;
        if idx % 2 == 0 {
            (if prev.len() > 0 {
                prev.push(' ')
            } else {
                prev
            }) + decimal((idx / 2 + 1) as nat) + seq!['.'] + move_text(h.last())
        } else {
            prev.push(' ') + move_text(h.last())
        }
    }
}

fn upper_symbol_exec(k: PieceKind) -> (r: char)
    ensures
        r == upper_symbol(k),
{
    match k {
        PieceKind::Pawn => 'P',
        PieceKind::Knight => 'N',
        PieceKind::Bishop => 'B',
        PieceKind::Rook => 'R',
        PieceKind::Queen => 'Q',
        PieceKind::King => 'K',
    }
}

impl Move {
    /// Appends the coordinate form of this move.
    pub(crate) fn push_coord(&self, out: &mut String)
        requires
            self.from < 64,
            self.to < 64,
        ensures
            final(out)@ == old(out)@ + move_text(*self),
    {
        let ghost start = out@;
        match self.castle {
            Some(CastleSide::KingSide) => {
                push_char(out, 'O');
                push_char(out, '-');
                push_char(out, 'O');
            },
            Some(CastleSide::QueenSide) => {
                push_char(out, 'O');
                push_char(out, '-');
                push_char(out, 'O');
                push_char(out, '-');
                push_char(out, 'O');
            },
            None => {
                push_square_name(out, self.from);
                push_char(out, '-');
                push_square_name(out, self.to);
                match self.promotion {
                    Some(k) => {
                        push_char(out, '=');
                        push_char(out, upper_symbol_exec(k));
                    },
                    None => {},
                }
            },
        }
        assert(out@ =~= start + move_text(*self));
    }

    /// The coordinate form of this move.
    pub(crate) fn coord_string(&self) -> (r: String)
        requires
            self.from < 64,
            self.to < 64,
        ensures
            r@ == move_text(*self),
    {
        let mut out = String::new();
        self.push_coord(&mut out);
        assert(out@ =~= move_text(*self));
        out
    }
}

/// The coordinate PGN of a game.
pub(crate) fn build_pgn(history: &Vec<Move>) -> (r: String)
    requires
        forall|i: int| 0 <= i < history@.len() ==> #[trigger] history@[i].from < 64 && history@[i].to < 64,
    ensures
        r@ == pgn_text(history@),
{
    let mut out = String::new();
    let mut idx: usize = 0;
    assert(history@.subrange(0, 0) =~= Seq::<Move>::empty());
    while idx < history.len()
        invariant
            idx <= history@.len(),
            forall|i: int| 0 <= i < history@.len() ==> #[trigger] history@[i].from < 64 && history@[i].to < 64,
            out@ == pgn_text(history@.subrange(0, idx as int)),
        decreases history@.len() - idx,
    {
        let ghost prev = out@;
        let ghost next = history@.subrange(0, idx + 1);
        assert(next.drop_last() =~= history@.subrange(0, idx as int));
        let mv = history[idx];
        if idx % 2 == 0 {
            if idx > 0 {
                assert(move_text(history@[idx - 1]).len() > 0);
                push_char(&mut out, ' ');
            }
            push_decimal(&mut out, (idx / 2 + 1) as u64);
            push_char(&mut out, '.');
            push_str(&mut out, mv.coord_string().as_str());
        } else {
            push_char(&mut out, ' ');
            push_str(&mut out, mv.coord_string().as_str());
        }
        assert(out@ =~= pgn_text(next));
        idx += 1;
    }
    assert(history@.subrange(0, history@.len() as int) =~= history@);
    out
}

} // verus!
