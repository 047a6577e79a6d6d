use vstd::prelude::*;

use crate::board::Board;
use crate::rules::Position;
use crate::square::square_name;
use crate::text::{decimal, digit_char, push_char, push_decimal};
use crate::types::{fen_symbol_spec, Color};

verus! {

/// The digit for a run of `empty` empty squares, or nothing when there is none.
pub open spec fn run_text(empty: nat) -> Seq<char> {
    if empty > 0 {
        seq![digit_char(empty)]
    } else {
        seq![]
    }
}

/// The FEN text of rank `rank` from file `file` on, after a run of `empty` empty squares.
pub open spec fn row_text(p: Position, rank: int, file: int, empty: nat) -> Seq<char>
    decreases 8 - file,
{
    if file >= 8 {
        run_text(empty)
    } else {
        match p.squares[rank * 8 + file] {
            Some((c, k)) => run_text(empty) + seq![fen_symbol_spec(k, c)] + row_text(
                p,
                rank,
                file + 1,
                0,
            ),
            None => row_text(p, rank, file + 1, empty + 1),
        }
    }
}

/// The FEN text of the ranks from `rank` down to the first, separated by `/`.
pub open spec fn ranks_text(p: Position, rank: int) -> Seq<char>
    decreases rank,
{
    if rank <= 0 {
        row_text(p, 0, 0, 0)
    } else {
        row_text(p, rank, 0, 0) + seq!['/'] + ranks_text(p, rank - 1)
    }
}

pub open spec fn side_char(c: Color) -> char {
    match c {
        Color::White => 'w',
        Color::Black => 'b',
    }
}

/// The castling field: `-`, or the letters of the rights held, in the order `KQkq`.
pub open spec fn castling_text(c: u8) -> Seq<char> {
    if c == 0 {
        seq!['-']
    } else {
        (if c & 1 != 0 {
            seq!['K']
        } else {
            seq![]
        }) + (if c & 2 != 0 {
            seq!['Q']
        } else {
            seq![]
        }) + (if c & 4 != 0 {
            seq!['k']
        } else {
            seq![]
        }) + (if c & 8 != 0 {
            seq!['q']
        } else {
            seq![]
        })
    }
}

pub open spec fn en_passant_text(e: Option<u8>) -> Seq<char> {
    match e {
        None => seq!['-'],
        Some(s) => square_name(s as int),
    }
}

/// The FEN text of a position: six fields separated by single spaces.
pub open spec fn fen_of(p: Position) -> Seq<char> {
    ranks_text(p, 7) + seq![' ', side_char(p.side), ' '] + castling_text(p.castling) + seq![' ']
        + en_passant_text(p.en_passant) + seq![' '] + decimal(p.halfmove as nat) + seq![' ']
        + decimal(p.fullmove as nat)
}

fn push_run(out: &mut String, empty: u8)
    requires
        empty <= 8,
    ensures
        final(out)@ == old(out)@ + run_text(empty as nat),
{
    if empty > 0 {
        push_char(out, (48u8 + empty) as char);
    } else {
        assert(old(out)@ + run_text(empty as nat) =~= old(out)@);
    }
}

/// Appends the FEN text of square `sq`'s name.
pub(crate) fn push_square_name(out: &mut String, sq: u8)
    requires
        sq < 64,
    ensures
        final(out)@ == old(out)@ + square_name(sq as int),
{
    let ghost start = out@;
    push_char(out, (97u8 + sq % 8) as char);
    push_char(out, (49u8 + sq / 8) as char);
    assert(out@ =~= start + square_name(sq as int));
}

impl Board {
    /// Appends the FEN text of rank `rank`.
    fn push_row(&self, out: &mut String, rank: u8)
        requires
            self.wf(),
            rank < 8,
        ensures
            final(out)@ == old(out)@ + row_text(self@, rank as int, 0, 0),
    {
        let ghost start = out@;
        let ghost p = self@;
        let mut empty: u8 = 0;
        let mut file: u8 = 0;
        while file < 8
            invariant
                p == self@,
                rank < 8,
                file <= 8,
                empty <= file,
                out@ + row_text(p, rank as int, file as int, empty as nat) == start + row_text(
                    p,
                    rank as int,
                    0,
                    0,
                ),
            decreases 8 - file,
        {
            let ghost before = out@;
            let sq = rank * 8 + file;
            match self.piece_at(sq) {
                Some((c, k)) => {
                    push_run(out, empty);
                    push_char(out, k.fen_symbol(c));
                    assert(before + row_text(p, rank as int, file as int, empty as nat) =~= out@
                        + row_text(p, rank as int, file + 1, 0));
                    empty = 0;
                },
                None => {
                    empty = empty + 1;
                },
            }
            file = file + 1;
        }
        push_run(out, empty);
        assert(out@ =~= start + row_text(p, rank as int, 0, 0));
    }

    /// Appends the FEN text of the piece placement, from the eighth rank down.
    fn push_board(&self, out: &mut String)
        requires
            self.wf(),
        ensures
            final(out)@ == old(out)@ + ranks_text(self@, 7),
    {
        let ghost start = out@;
        let ghost p = self@;
        let mut rank: u8 = 7;
        while rank > 0
            invariant
                self.wf(),
                p == self@,
                rank < 8,
                out@ + ranks_text(p, rank as int) == start + ranks_text(p, 7),
            decreases rank,
        {
            let ghost before = out@;
            self.push_row(out, rank);
            push_char(out, '/');
            assert(before + ranks_text(p, rank as int) =~= out@ + ranks_text(p, rank - 1));
            rank = rank - 1;
        }
        self.push_row(out, 0);
        assert(out@ =~= start + ranks_text(p, 7));
    }

    /// The FEN text of the board.
    pub(crate) fn to_fen(&self) -> (r: String)
        requires
            self.wf(),
        ensures
            r@ == fen_of(self@),
    {
        let ghost p = self@;
        let mut out = String::new();
        self.push_board(&mut out);
        push_char(&mut out, ' ');
        push_char(&mut out, if self.side_to_move.is_white() { 'w' } else { 'b' });
        push_char(&mut out, ' ');
        push_castling(&mut out, self.castling);
        push_char(&mut out, ' ');
        push_en_passant(&mut out, self.en_passant);
        push_char(&mut out, ' ');
        push_decimal(&mut out, self.halfmove_clock as u64);
        push_char(&mut out, ' ');
        push_decimal(&mut out, self.fullmove_number as u64);
        assert(out@ =~= fen_of(p));
        out
    }
}

/// Appends the castling field.
fn push_castling(out: &mut String, c: u8)
    ensures
        final(out)@ == old(out)@ + castling_text(c),
{
    let ghost start = out@;
    if c == 0 {
        push_char(out, '-');
    } else {
        if c & 1 != 0 {
            push_char(out, 'K');
        }
        if c & 2 != 0 {
            push_char(out, 'Q');
        }
        if c & 4 != 0 {
            push_char(out, 'k');
        }
        if c & 8 != 0 {
            push_char(out, 'q');
        }
    }
    assert(out@ =~= start + castling_text(c));
}

/// Appends the en-passant field.
fn push_en_passant(out: &mut String, e: Option<u8>)
    requires
        e matches Some(s) ==> s < 64,
    ensures
        final(out)@ == old(out)@ + en_passant_text(e),
{
    let ghost start = out@;
    match e {
        Some(s) => push_square_name(out, s),
        None => push_char(out, '-'),
    }
    assert(out@ =~= start + en_passant_text(e));
}

} // verus!
