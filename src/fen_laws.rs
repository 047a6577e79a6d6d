use vstd::prelude::*;

use crate::fen::{
    castling_text, en_passant_text, fen_of, ranks_text, row_text, run_text, side_char,
};
use crate::fen_parse::{
    all_digits, board_scan, castle_char_bits, castle_scan, digit_value, digits_value,
    empty_squares, is_digit, is_space, parse_board, parse_castling, parse_en_passant, parse_fen,
    parse_side, parse_u32, scan_step, unsigned_digits, words, ScanState,
};
use crate::rules::Position;
use crate::square::{ascii_lower, coord_square, file_char, square_name};
use crate::text::{decimal, digit_char, lemma_decimal_nonempty};
use crate::types::{fen_symbol_spec, piece_of_char, Color, PieceKind};

verus! {

/// No character of `w` is a space.
pub open spec fn no_space(w: Seq<char>) -> bool {
    forall|i: int| 0 <= i < w.len() ==> !is_space(#[trigger] w[i])
}

proof fn lemma_digit_char(n: nat)
    requires
        n < 10,
    ensures
        digit_value(digit_char(n)) == n as int,
        is_digit(digit_char(n)),
        !is_space(digit_char(n)),
        digit_char(n) != '+',
        digit_char(n) != '/',
        1 <= n <= 8 ==> ('1' <= digit_char(n) && digit_char(n) <= '8'),
{
}

// ---------------------------------------------------------------------------------------------
// Words of joined fields
/// A word without spaces is its own only word.
proof fn lemma_words_single(w: Seq<char>)
    requires
        w.len() > 0,
        no_space(w),
    ensures
        words(w) == seq![w],
    decreases w.len(),
{
    assert(!is_space(w[w.len() - 1]));
    if w.len() > 1 {
        assert(!is_space(w[w.len() - 2]));
        assert forall|i: int| 0 <= i < w.drop_last().len() implies !is_space(
            #[trigger] w.drop_last()[i],
        ) by {
            assert(w.drop_last()[i] == w[i]);
        }
        lemma_words_single(w.drop_last());
        assert(w.drop_last().push(w.last()) =~= w);
        assert(seq![w.drop_last()].drop_last() =~= Seq::<Seq<char>>::empty());
    } else {
        assert(w.drop_last() =~= Seq::<char>::empty());
        assert(words(w.drop_last()) == Seq::<Seq<char>>::empty());
        assert(seq![w.last()] =~= w);
    }
}

/// Appending a space and a word without spaces appends that word.
proof fn lemma_words_append(x: Seq<char>, w: Seq<char>)
    requires
        w.len() > 0,
        no_space(w),
    ensures
        words(x + seq![' '] + w) == words(x).push(w),
    decreases w.len(),
{
    let s = x + seq![' '] + w;
    assert(s.drop_last() =~= x + seq![' '] + w.drop_last());
    assert(!is_space(w[w.len() - 1]));
    assert(s.last() == w[w.len() - 1]);
    if w.len() > 1 {
        assert(!is_space(w[w.len() - 2]));
        assert forall|i: int| 0 <= i < w.drop_last().len() implies !is_space(
            #[trigger] w.drop_last()[i],
        ) by {
            assert(w.drop_last()[i] == w[i]);
        }
        lemma_words_append(x, w.drop_last());
        assert(s[s.len() - 2] == w[w.len() - 2]);
        assert(w.drop_last().push(w.last()) =~= w);
        assert(words(x).push(w.drop_last()).drop_last() =~= words(x));
    } else {
        let xs = x + seq![' '];
        assert(xs.drop_last() =~= x);
        assert(s[s.len() - 2] == ' ');
        assert(words(xs) == words(x));
        assert(x + seq![' '] + w.drop_last() =~= xs);
        assert(seq![w.last()] =~= w);
    }
}

// ---------------------------------------------------------------------------------------------
// Scanning the board field piece by piece
/// The board scan from state `st` over the characters of `b`.
pub open spec fn scan_from(st: Option<ScanState>, b: Seq<char>) -> Option<ScanState>
    decreases b.len(),
{
    if b.len() == 0 {
        st
    } else {
        match scan_from(st, b.drop_last()) {
            None => None,
            Some(s) => scan_step(s, b.last()),
        }
    }
}

proof fn lemma_scan_one(st: Option<ScanState>, c: char)
    ensures
        scan_from(st, seq![c]) == match st {
            None => None,
            Some(s) => scan_step(s, c),
        },
{
    assert(seq![c].drop_last() =~= Seq::<char>::empty());
    assert(scan_from(st, Seq::<char>::empty()) == st);
}

proof fn lemma_scan_from_concat(st: Option<ScanState>, x: Seq<char>, y: Seq<char>)
    ensures
        scan_from(st, x + y) == scan_from(scan_from(st, x), y),
    decreases y.len(),
{
    if y.len() == 0 {
        assert(x + y =~= x);
    } else {
        lemma_scan_from_concat(st, x, y.drop_last());
        assert((x + y).drop_last() =~= x + y.drop_last());
    }
}

proof fn lemma_board_scan_is_scan_from(s: Seq<char>)
    ensures
        board_scan(s) == scan_from(
            Some(ScanState { rank: 7, file: 0, squares: empty_squares() }),
            s,
        ),
    decreases s.len(),
{
    if s.len() > 0 {
        lemma_board_scan_is_scan_from(s.drop_last());
    }
}

/// Squares of rank `r` from file `f0` on take the pieces of `p`; the others keep `sq`.
pub open spec fn fill_row(
    sq: Seq<Option<(Color, PieceKind)>>,
    p: Position,
    r: int,
    f0: int,
) -> Seq<Option<(Color, PieceKind)>> {
    Seq::new(
        64,
        |q: int|
            if q / 8 == r && q % 8 >= f0 && p.squares[q] is Some {
                p.squares[q]
            } else {
                sq[q]
            },
    )
}

/// Squares of the ranks up to `r` take the pieces of `p`; the others keep `sq`.
pub open spec fn fill_ranks(
    sq: Seq<Option<(Color, PieceKind)>>,
    p: Position,
    r: int,
) -> Seq<Option<(Color, PieceKind)>> {
    Seq::new(
        64,
        |q: int|
            if q / 8 <= r && p.squares[q] is Some {
                p.squares[q]
            } else {
                sq[q]
            },
    )
}

proof fn lemma_symbol_char(c: Color, k: PieceKind)
    ensures
        piece_of_char(fen_symbol_spec(k, c)) == Some((c, k)),
        !is_space(fen_symbol_spec(k, c)),
        fen_symbol_spec(k, c) != '/',
        !('1' <= fen_symbol_spec(k, c) && fen_symbol_spec(k, c) <= '8'),
{
}

proof fn lemma_row_scan(p: Position, r: int, file: int, empty: int, st: ScanState)
    requires
        p.squares.len() == 64,
        st.squares.len() == 64,
        0 <= r < 8,
        0 <= empty <= file <= 8,
        st.rank == r,
        st.file == file - empty,
        forall|f: int| st.file <= f < file ==> (#[trigger] p.squares[r * 8 + f]) is None,
    ensures
        scan_from(Some(st), row_text(p, r, file, empty as nat)) == Some(
            ScanState { rank: r, file: 8, squares: fill_row(st.squares, p, r, st.file) },
        ),
    decreases 8 - file,
{
    let run = run_text(empty as nat);
    let st1 = ScanState { file: file, ..st };
    if empty > 0 {
        lemma_digit_char(empty as nat);
        lemma_scan_one(Some(st), digit_char(empty as nat));
        assert(scan_from(Some(st), run) == Some(st1));
    } else {
        assert(st1 == st);
        assert(run.len() == 0);
        assert(scan_from(Some(st), run) == Some(st1));
    }
    if file >= 8 {
        assert(row_text(p, r, file, empty as nat) == run);
        assert(fill_row(st.squares, p, r, st.file) =~= st.squares) by {
            assert forall|q: int| 0 <= q < 64 && q / 8 == r && q % 8 >= st.file implies (
            #[trigger] p.squares[q]) is None by {
                assert(p.squares[r * 8 + q % 8] is None);
            }
        }
    } else {
        match p.squares[r * 8 + file] {
            Some((c, k)) => {
                let sym = fen_symbol_spec(k, c);
                lemma_symbol_char(c, k);
                let st2 = ScanState {
                    file: file + 1,
                    squares: st.squares.update(r * 8 + file, Some((c, k))),
                    ..st
                };
                assert(scan_step(st1, sym) == Some(st2));
                let rest = row_text(p, r, file + 1, 0);
                assert(row_text(p, r, file, empty as nat) == run + seq![sym] + rest);
                lemma_scan_from_concat(Some(st), run, seq![sym]);
                lemma_scan_one(Some(st1), sym);
                lemma_scan_from_concat(Some(st), run + seq![sym], rest);
                lemma_row_scan(p, r, file + 1, 0, st2);
                assert(fill_row(st2.squares, p, r, file + 1) =~= fill_row(
                    st.squares,
                    p,
                    r,
                    st.file,
                )) by {
                    assert forall|q: int|
                        0 <= q < 64 && q / 8 == r && st.file <= q % 8 < file implies (
                        #[trigger] p.squares[q]) is None by {
                        assert(p.squares[r * 8 + q % 8] is None);
                    }
                }
            },
            None => {
                assert(row_text(p, r, file, empty as nat) == row_text(
                    p,
                    r,
                    file + 1,
                    (empty + 1) as nat,
                ));
                lemma_row_scan(p, r, file + 1, empty + 1, st);
            },
        }
    }
}

proof fn lemma_ranks_scan(p: Position, r: int, st: ScanState)
    requires
        p.squares.len() == 64,
        st.squares.len() == 64,
        0 <= r < 8,
        st.rank == r,
        st.file == 0,
    ensures
        scan_from(Some(st), ranks_text(p, r)) == Some(
            ScanState { rank: 0, file: 8, squares: fill_ranks(st.squares, p, r) },
        ),
    decreases r,
{
    lemma_row_scan(p, r, 0, 0, st);
    let after_row = fill_row(st.squares, p, r, 0);
    if r == 0 {
        assert(after_row =~= fill_ranks(st.squares, p, r));
    } else {
        let row = row_text(p, r, 0, 0);
        let rest = ranks_text(p, r - 1);
        let st2 = ScanState { rank: r - 1, file: 0, squares: after_row };
        assert(ranks_text(p, r) == row + seq!['/'] + rest);
        lemma_scan_from_concat(Some(st), row, seq!['/']);
        lemma_scan_one(
            Some(ScanState { rank: r, file: 8, squares: after_row }),
            '/',
        );
        assert(scan_from(Some(st), row + seq!['/']) == Some(st2));
        lemma_scan_from_concat(Some(st), row + seq!['/'], rest);
        lemma_ranks_scan(p, r - 1, st2);
        assert(fill_ranks(after_row, p, r - 1) =~= fill_ranks(st.squares, p, r));
    }
}

/// The board field of a position reads back as its squares.
proof fn lemma_board_round_trip(p: Position)
    requires
        p.squares.len() == 64,
    ensures
        parse_board(ranks_text(p, 7)) == Some(p.squares),
{
    let init = ScanState { rank: 7, file: 0, squares: empty_squares() };
    lemma_board_scan_is_scan_from(ranks_text(p, 7));
    lemma_ranks_scan(p, 7, init);
    assert(fill_ranks(empty_squares(), p, 7) =~= p.squares);
}

proof fn lemma_row_no_space(p: Position, r: int, file: int, empty: nat)
    requires
        empty <= 8,
        empty + (8 - file) <= 8 || file >= 8,
    ensures
        no_space(row_text(p, r, file, empty)),
    decreases 8 - file,
{
    if empty > 0 {
        lemma_digit_char(empty);
    }
    if file < 8 {
        match p.squares[r * 8 + file] {
            Some((c, k)) => {
                lemma_symbol_char(c, k);
                lemma_row_no_space(p, r, file + 1, 0);
            },
            None => {
                lemma_row_no_space(p, r, file + 1, empty + 1);
            },
        }
    }
}

proof fn lemma_ranks_no_space(p: Position, r: int)
    requires
        0 <= r < 8,
    ensures
        no_space(ranks_text(p, r)),
        ranks_text(p, r).len() > 0 || r == 0,
    decreases r,
{
    lemma_row_no_space(p, r, 0, 0);
    if r > 0 {
        lemma_ranks_no_space(p, r - 1);
    }
}

// ---------------------------------------------------------------------------------------------
// The other fields
/// The letter `ch` when `c` holds bit `b`.
pub open spec fn opt_right(c: u8, b: u8, ch: char) -> Seq<char> {
    if c & b != 0 {
        seq![ch]
    } else {
        seq![]
    }
}

proof fn lemma_single_bit_or(c: u8, v: u8)
    ensures
        (c & 1 != 0 ==> v | 1 == v | (c & 1)) && (c & 1 == 0 ==> v == v | (c & 1)),
        (c & 2 != 0 ==> v | 2 == v | (c & 2)) && (c & 2 == 0 ==> v == v | (c & 2)),
        (c & 4 != 0 ==> v | 4 == v | (c & 4)) && (c & 4 == 0 ==> v == v | (c & 4)),
        (c & 8 != 0 ==> v | 8 == v | (c & 8)) && (c & 8 == 0 ==> v == v | (c & 8)),
{
    assert((c & 1 != 0 ==> v | 1 == v | (c & 1)) && (c & 1 == 0 ==> v == v | (c & 1)))
        by (bit_vector);
    assert((c & 2 != 0 ==> v | 2 == v | (c & 2)) && (c & 2 == 0 ==> v == v | (c & 2)))
        by (bit_vector);
    assert((c & 4 != 0 ==> v | 4 == v | (c & 4)) && (c & 4 == 0 ==> v == v | (c & 4)))
        by (bit_vector);
    assert((c & 8 != 0 ==> v | 8 == v | (c & 8)) && (c & 8 == 0 ==> v == v | (c & 8)))
        by (bit_vector);
}

proof fn lemma_rights_recombine(c: u8)
    requires
        c < 16,
    ensures
        (((0u8 | (c & 1)) | (c & 2)) | (c & 4)) | (c & 8) == c,
        c != 0 ==> (c & 1 != 0 || c & 2 != 0 || c & 4 != 0 || c & 8 != 0),
{
    assert((((0u8 | (c & 1)) | (c & 2)) | (c & 4)) | (c & 8) == c) by (bit_vector)
        requires
            c < 16,
    ;
    assert(c != 0 ==> (c & 1 != 0 || c & 2 != 0 || c & 4 != 0 || c & 8 != 0)) by (bit_vector)
        requires
            c < 16,
    ;
}

proof fn lemma_castle_scan_step(x: Seq<char>, c: u8, b: u8, ch: char, v: u8)
    requires
        castle_scan(x) == Some(v),
        castle_char_bits(ch) == Some(b),
    ensures
        castle_scan(x + opt_right(c, b, ch)) == Some(
            if c & b != 0 {
                v | b
            } else {
                v
            },
        ),
{
    if c & b != 0 {
        assert((x + seq![ch]).drop_last() =~= x);
    } else {
        assert(x + opt_right(c, b, ch) =~= x);
    }
}

/// The castling field reads back as the rights it was written from.
proof fn lemma_castling_round_trip(c: u8)
    requires
        c < 16,
    ensures
        parse_castling(castling_text(c)) == Some(c),
        castling_text(c).len() > 0,
        no_space(castling_text(c)),
{
    lemma_rights_recombine(c);
    if c != 0 {
        let t1 = opt_right(c, 1, 'K');
        let t2 = opt_right(c, 2, 'Q');
        let t4 = opt_right(c, 4, 'k');
        let t8 = opt_right(c, 8, 'q');
        assert(castling_text(c) =~= Seq::<char>::empty() + t1 + t2 + t4 + t8);
        let e = Seq::<char>::empty();
        assert(castle_scan(e) == Some(0u8));
        lemma_single_bit_or(c, 0u8);
        lemma_castle_scan_step(e, c, 1, 'K', 0u8);
        let v1 = 0u8 | (c & 1);
        lemma_single_bit_or(c, v1);
        lemma_castle_scan_step(e + t1, c, 2, 'Q', v1);
        let v2 = v1 | (c & 2);
        lemma_single_bit_or(c, v2);
        lemma_castle_scan_step(e + t1 + t2, c, 4, 'k', v2);
        let v4 = v2 | (c & 4);
        lemma_single_bit_or(c, v4);
        lemma_castle_scan_step(e + t1 + t2 + t4, c, 8, 'q', v4);
        let text = castling_text(c);
        assert(text.len() > 0);
        assert(text[0] == 'K' || text[0] == 'Q' || text[0] == 'k' || text[0] == 'q');
        assert(text != seq!['-']);
        assert forall|i: int| 0 <= i < text.len() implies !is_space(#[trigger] text[i]) by {
            assert(text[i] == 'K' || text[i] == 'Q' || text[i] == 'k' || text[i] == 'q');
        }
    } else {
        assert(castling_text(c) == seq!['-']);
    }
}

/// The en-passant field reads back as the square it was written from.
proof fn lemma_en_passant_round_trip(e: Option<u8>)
    requires
        e matches Some(s) ==> s < 64,
    ensures
        parse_en_passant(en_passant_text(e)) == Some(e),
        en_passant_text(e).len() > 0,
        no_space(en_passant_text(e)),
{
    match e {
        Some(s) => {
            let t = square_name(s as int);
            assert(t[0] == file_char(s as int));
            assert(t != seq!['-']);
            assert(ascii_lower(t[0]) == t[0]);
            assert(coord_square(t) == Some(s));
            assert forall|i: int| 0 <= i < t.len() implies !is_space(#[trigger] t[i]) by {}
        },
        None => {},
    }
}

/// A decimal text reads back as its number.
proof fn lemma_decimal_round_trip(n: nat)
    ensures
        digits_value(decimal(n)) == n,
        all_digits(decimal(n)),
        no_space(decimal(n)),
        decimal(n).len() > 0,
        decimal(n)[0] != '+',
    decreases n,
{
    lemma_decimal_nonempty(n);
    if n < 10 {
        lemma_digit_char(n);
        assert(decimal(n).drop_last() =~= Seq::<char>::empty());
        assert(digits_value(Seq::<char>::empty()) == 0);
    } else {
        lemma_decimal_round_trip(n / 10);
        lemma_digit_char(n % 10);
        let d = decimal(n / 10);
        assert(decimal(n).drop_last() =~= d);
        assert(decimal(n)[0] == d[0]);
        assert(digits_value(decimal(n)) == digits_value(d) * 10 + digit_value(digit_char(n % 10)));
        assert((n / 10) * 10 + n % 10 == n);
        assert forall|i: int| 0 <= i < decimal(n).len() implies is_digit(#[trigger] decimal(n)[i])
            && !is_space(decimal(n)[i]) by {
            if i < d.len() {
                assert(decimal(n)[i] == d[i]);
            }
        }
    }
}

proof fn lemma_u32_round_trip(n: u32)
    ensures
        parse_u32(decimal(n as nat)) == Some(n),
        no_space(decimal(n as nat)),
        decimal(n as nat).len() > 0,
{
    lemma_decimal_round_trip(n as nat);
    assert(unsigned_digits(decimal(n as nat)) == decimal(n as nat));
}

/// Reading back the FEN text of a position gives the position: for every position whose
/// castling rights are four bits and whose en-passant square is a square.
pub proof fn lemma_fen_round_trip(p: Position)
    requires
        p.squares.len() == 64,
        p.castling < 16,
        p.en_passant matches Some(e) ==> e < 64,
    ensures
        parse_fen(fen_of(p)) == Some(p),
{
    let f0 = ranks_text(p, 7);
    let f1 = seq![side_char(p.side)];
    let f2 = castling_text(p.castling);
    let f3 = en_passant_text(p.en_passant);
    let f4 = decimal(p.halfmove as nat);
    let f5 = decimal(p.fullmove as nat);
    lemma_ranks_no_space(p, 7);
    lemma_board_round_trip(p);
    assert(no_space(f1));
    lemma_castling_round_trip(p.castling);
    lemma_en_passant_round_trip(p.en_passant);
    lemma_u32_round_trip(p.halfmove);
    lemma_u32_round_trip(p.fullmove);
    let sp = seq![' '];
    let j1 = f0 + sp + f1;
    let j2 = j1 + sp + f2;
    let j3 = j2 + sp + f3;
    let j4 = j3 + sp + f4;
    let j5 = j4 + sp + f5;
    assert(fen_of(p) =~= j5);
    lemma_words_single(f0);
    lemma_words_append(f0, f1);
    lemma_words_append(j1, f2);
    lemma_words_append(j2, f3);
    lemma_words_append(j3, f4);
    lemma_words_append(j4, f5);
    let w = words(fen_of(p));
    assert(w =~= seq![f0, f1, f2, f3, f4, f5]);
    assert(parse_side(f1) == Some(p.side));
}

} // verus!
