use vstd::prelude::*;

use crate::board::Board;
use crate::rules::Position;
use crate::square::{coord_chars_to_square, coord_square};
use crate::text::{chars_of, owned};
use crate::types::{piece_of_char, Color, EngineError, PieceKind};

verus! {

/// The characters that Unicode gives the White_Space property.
pub open spec fn is_space(c: char) -> bool {
    ('\u{9}' <= c && c <= '\u{d}') || c == ' ' || c == '\u{85}' || c == '\u{a0}' || c == '\u{1680}'
        || ('\u{2000}' <= c && c <= '\u{200a}') || c == '\u{2028}' || c == '\u{2029}' || c
        == '\u{202f}' || c == '\u{205f}' || c == '\u{3000}'
}

fn is_space_exec(c: char) -> (r: bool)
    ensures
        r == is_space(c),
{
    ('\u{9}' <= c && c <= '\u{d}') || c == ' ' || c == '\u{85}' || c == '\u{a0}' || c == '\u{1680}'
        || ('\u{2000}' <= c && c <= '\u{200a}') || c == '\u{2028}' || c == '\u{2029}' || c
        == '\u{202f}' || c == '\u{205f}' || c == '\u{3000}'
}

/// The maximal runs of non-space characters of `s`, in order.
pub open spec fn words(s: Seq<char>) -> Seq<Seq<char>>
    decreases s.len(),
{
    if s.len() == 0 {
        seq![]
    } else {
        let w = words(s.drop_last());
        let c = s.last();
        if is_space(c) {
            w
        } else if s.len() >= 2 && !is_space(s[s.len() - 2]) {
            w.drop_last().push(w.last().push(c))
        } else {
            w.push(seq![c])
        }
    }
}

/// A prefix that ends in a non-space character has at least one word.
pub proof fn lemma_words_nonempty(s: Seq<char>)
    requires
        s.len() > 0,
        !is_space(s.last()),
    ensures
        words(s).len() > 0,
{
}

/// Splits `s` into its words.
fn split_words(s: &Vec<char>) -> (r: Vec<Vec<char>>)
    ensures
        r@.len() == words(s@).len(),
        forall|k: int| 0 <= k < r@.len() ==> (#[trigger] r@[k])@ == words(s@)[k],
{
    let mut fields: Vec<Vec<char>> = Vec::new();
    let ghost mut done: Seq<Seq<char>> = seq![];
    let mut cur: Vec<char> = Vec::new();
    let mut in_word = false;
    let mut i: usize = 0;
    while i < s.len()
        invariant
            i <= s@.len(),
            fields@.len() == done.len(),
            forall|k: int| 0 <= k < fields@.len() ==> (#[trigger] fields@[k])@ == done[k],
            in_word == (i > 0 && !is_space(s@[i - 1])),
            in_word ==> words(s@.subrange(0, i as int)) == done.push(cur@),
            !in_word ==> words(s@.subrange(0, i as int)) == done,
        decreases s@.len() - i,
    {
        let c = s[i];
        let ghost pre = s@.subrange(0, i as int);
        let ghost next = s@.subrange(0, i + 1);
        assert(next.drop_last() =~= pre);
        if is_space_exec(c) {
            if in_word {
                proof {
                    done = done.push(cur@);
                }
                fields.push(cur);
                cur = Vec::new();
            }
            in_word = false;
        } else {
            if in_word {
                proof {
                    lemma_words_nonempty(pre);
                }
                cur.push(c);
                assert(words(next) =~= done.push(cur@));
            } else {
                cur = Vec::new();
                cur.push(c);
                assert(words(next) =~= done.push(cur@));
            }
            in_word = true;
        }
        i += 1;
    }
    assert(s@.subrange(0, s@.len() as int) =~= s@);
    if in_word {
        proof {
            done = done.push(cur@);
        }
        fields.push(cur);
    }
    fields
}

/// Where the board field's reader stands: the rank and file of the next square, and what it
/// has placed.
pub struct ScanState {
    pub rank: int,
    pub file: int,
    pub squares: Seq<Option<(Color, PieceKind)>>,
}

pub open spec fn digit_value(c: char) -> int {
    c as int - '0' as int
}

/// One character of the board field: `/` closes a full rank, a digit skips empty squares, a
/// piece letter places a piece.
pub open spec fn scan_step(st: ScanState, c: char) -> Option<ScanState> {
    if c == '/' {
        if st.file != 8 || st.rank == 0 {
            None
        } else {
            Some(ScanState { rank: st.rank - 1, file: 0, ..st })
        }
    } else if '1' <= c && c <= '8' {
        if st.file + digit_value(c) > 8 {
            None
        } else {
            Some(ScanState { file: st.file + digit_value(c), ..st })
        }
    } else {
        match piece_of_char(c) {
            None => None,
            Some(pc) => if st.file >= 8 {
                None
            } else {
                Some(
                    ScanState {
                        file: st.file + 1,
                        squares: st.squares.update(st.rank * 8 + st.file, Some(pc)),
                        ..st
                    },
                )
            },
        }
    }
}

pub open spec fn empty_squares() -> Seq<Option<(Color, PieceKind)>> {
    Seq::new(64, |s: int| None::<(Color, PieceKind)>)
}

pub open spec fn board_scan(s: Seq<char>) -> Option<ScanState>
    decreases s.len(),
{
    if s.len() == 0 {
        Some(ScanState { rank: 7, file: 0, squares: empty_squares() })
    } else {
        match board_scan(s.drop_last()) {
            None => None,
            Some(st) => scan_step(st, s.last()),
        }
    }
}

/// The placement that a board field describes, when every rank holds exactly eight squares.
pub open spec fn parse_board(s: Seq<char>) -> Option<Seq<Option<(Color, PieceKind)>>> {
    match board_scan(s) {
        Some(st) => if st.rank == 0 && st.file == 8 {
            Some(st.squares)
        } else {
            None
        },
        None => None,
    }
}

pub open spec fn parse_side(s: Seq<char>) -> Option<Color> {
    if s == seq!['w'] {
        Some(Color::White)
    } else if s == seq!['b'] {
        Some(Color::Black)
    } else {
        None
    }
}

pub open spec fn castle_char_bits(c: char) -> Option<u8> {
    if c == 'K' {
        Some(1u8)
    } else if c == 'Q' {
        Some(2u8)
    } else if c == 'k' {
        Some(4u8)
    } else if c == 'q' {
        Some(8u8)
    } else {
        None
    }
}

pub open spec fn castle_scan(s: Seq<char>) -> Option<u8>
    decreases s.len(),
{
    if s.len() == 0 {
        Some(0u8)
    } else {
        match (castle_scan(s.drop_last()), castle_char_bits(s.last())) {
            (Some(v), Some(b)) => Some(v | b),
            _ => None,
        }
    }
}

/// The castling field: `-`, or letters of `KQkq` in any order, repeats allowed.
pub open spec fn parse_castling(s: Seq<char>) -> Option<u8> {
    if s == seq!['-'] {
        Some(0u8)
    } else {
        castle_scan(s)
    }
}

/// The en-passant field: `-`, or a coordinate.
pub open spec fn parse_en_passant(s: Seq<char>) -> Option<Option<u8>> {
    if s == seq!['-'] {
        Some(None)
    } else {
        match coord_square(s) {
            Some(sq) => Some(Some(sq)),
            None => None,
        }
    }
}

pub open spec fn is_digit(c: char) -> bool {
    '0' <= c && c <= '9'
}

/// The value of a string of decimal digits.
pub open spec fn digits_value(t: Seq<char>) -> nat
    decreases t.len(),
{
    if t.len() == 0 {
        0
    } else {
        (digits_value(t.drop_last()) * 10 + digit_value(t.last())) as nat
    }
}

/// The characters after an optional leading `+`.
pub open spec fn unsigned_digits(s: Seq<char>) -> Seq<char> {
    if s.len() > 0 && s[0] == '+' {
        s.drop_first()
    } else {
        s
    }
}

pub open spec fn all_digits(t: Seq<char>) -> bool {
    forall|i: int| 0 <= i < t.len() ==> is_digit(#[trigger] t[i])
}

/// A decimal number that fits 32 bits, with an optional leading `+`.
pub open spec fn parse_u32(s: Seq<char>) -> Option<u32> {
    let t = unsigned_digits(s);
    if t.len() > 0 && all_digits(t) && digits_value(t) <= u32::MAX {
        Some(digits_value(t) as u32)
    } else {
        None
    }
}

/// The position that a FEN text describes: exactly six space-separated fields.
pub open spec fn parse_fen(s: Seq<char>) -> Option<Position> {
    let w = words(s);
    if w.len() != 6 {
        None
    } else {
        match (
            parse_board(w[0]),
            parse_side(w[1]),
            parse_castling(w[2]),
            parse_en_passant(w[3]),
            parse_u32(w[4]),
            parse_u32(w[5]),
        ) {
            (Some(sq), Some(side), Some(c), Some(ep), Some(h), Some(f)) => Some(
                Position {
                    squares: sq,
                    side,
                    castling: c,
                    en_passant: ep,
                    halfmove: h,
                    fullmove: f,
                },
            ),
            _ => None,
        }
    }
}

fn invalid_fen(msg: &str) -> (r: EngineError)
    ensures
        r matches EngineError::InvalidFen(_),
{
    EngineError::InvalidFen(owned(msg))
}

fn parse_u32_exec(s: &Vec<char>) -> (r: Option<u32>)
    ensures
        r == parse_u32(s@),
{
    let start: usize = if s.len() > 0 && s[0] == '+' {
        1
    } else {
        0
    };
    let ghost t = unsigned_digits(s@);
    assert(t =~= s@.subrange(start as int, s@.len() as int));
    if start >= s.len() {
        return None;
    }
    let mut acc: u64 = 0;
    let mut over = false;
    let mut i: usize = start;
    while i < s.len()
        invariant
            start <= i <= s@.len(),
            t == s@.subrange(start as int, s@.len() as int),
            t == unsigned_digits(s@),
            forall|j: int| start <= j < i ==> is_digit(#[trigger] s@[j]),
            !over ==> acc == digits_value(s@.subrange(start as int, i as int)),
            !over ==> acc <= u32::MAX,
            over ==> digits_value(s@.subrange(start as int, i as int)) > u32::MAX,
        decreases s@.len() - i,
    {
        let c = s[i];
        if !('0' <= c && c <= '9') {
            assert(t[i - start] == c);
            assert(!is_digit(t[i - start]));
            assert(!all_digits(t));
            return None;
        }
        let ghost pre = s@.subrange(start as int, i as int);
        let ghost next = s@.subrange(start as int, i + 1);
        assert(next.drop_last() =~= pre);
        let d = (c as u32 - '0' as u32) as u64;
        if !over {
            acc = acc * 10 + d;
            if acc > 4294967295 {
                over = true;
            }
        }
        i += 1;
    }
    assert(s@.subrange(start as int, i as int) =~= t);
    assert forall|j: int| 0 <= j < t.len() implies is_digit(#[trigger] t[j]) by {
        assert(t[j] == s@[j + start]);
    }
    if over {
        None
    } else {
        Some(acc as u32)
    }
}

/// Whether `s` is the single character `c`.
fn is_single(s: &Vec<char>, c: char) -> (r: bool)
    ensures
        r == (s@ == seq![c]),
{
    if s.len() == 1 && s[0] == c {
        assert(s@ =~= seq![c]);
        true
    } else {
        false
    }
}

fn parse_castling_exec(s: &Vec<char>) -> (r: Option<u8>)
    ensures
        r == parse_castling(s@),
        r matches Some(v) ==> v < 16,
{
    if is_single(s, '-') {
        return Some(0);
    }
    let mut acc: u8 = 0;
    let mut i: usize = 0;
    while i < s.len()
        invariant
            i <= s@.len(),
            s@ != seq!['-'],
            castle_scan(s@.subrange(0, i as int)) == Some(acc),
            acc < 16,
        decreases s@.len() - i,
    {
        let ghost next = s@.subrange(0, i + 1);
        assert(next.drop_last() =~= s@.subrange(0, i as int));
        let c = s[i];
        if !(c == 'K' || c == 'Q' || c == 'k' || c == 'q') {
            proof {
                assert(castle_char_bits(s@[i as int]) is None);
                lemma_castle_scan_fails(s@, i as int + 1);
                assert(castle_scan(s@) is None);
                assert(s@ != seq!['-']);
            }
            return None;
        }
        let b: u8 = if c == 'K' {
            1
        } else if c == 'Q' {
            2
        } else if c == 'k' {
            4
        } else {
            8
        };
        proof {
            lemma_or_bit_small(acc, b);
        }
        acc = acc | b;
        i += 1;
    }
    assert(s@.subrange(0, s@.len() as int) =~= s@);
    Some(acc)
}

proof fn lemma_or_bit_small(v: u8, b: u8)
    requires
        v < 16,
        b == 1 || b == 2 || b == 4 || b == 8,
    ensures
        v | b < 16,
{
    assert(v | b < 16) by (bit_vector)
        requires
            v < 16,
            b == 1 || b == 2 || b == 4 || b == 8,
    ;
}

/// Once a prefix holds a character outside `KQkq`, the castling scan fails for good.
proof fn lemma_castle_scan_fails(s: Seq<char>, n: int)
    requires
        0 < n <= s.len(),
        castle_char_bits(s[n - 1]) is None,
    ensures
        castle_scan(s) is None,
    decreases s.len(),
{
    if s.len() > n {
        lemma_castle_scan_fails(s.drop_last(), n);
    }
}

fn parse_side_exec(s: &Vec<char>) -> (r: Option<Color>)
    ensures
        r == parse_side(s@),
{
    if is_single(s, 'w') {
        Some(Color::White)
    } else if is_single(s, 'b') {
        Some(Color::Black)
    } else {
        None
    }
}

fn parse_en_passant_exec(s: &Vec<char>) -> (r: Option<Option<u8>>)
    ensures
        r == parse_en_passant(s@),
{
    if is_single(s, '-') {
        Some(None)
    } else {
        match coord_chars_to_square(s) {
            Some(sq) => Some(Some(sq)),
            None => None,
        }
    }
}

/// Once the board scan fails on a prefix, it fails on the whole.
proof fn lemma_board_scan_fails(s: Seq<char>, n: int)
    requires
        0 <= n <= s.len(),
        board_scan(s.subrange(0, n)) is None,
    ensures
        board_scan(s) is None,
    decreases s.len() - n,
{
    if n < s.len() {
        assert(s.subrange(0, n + 1).drop_last() =~= s.subrange(0, n));
        lemma_board_scan_fails(s, n + 1);
    } else {
        assert(s.subrange(0, n) =~= s);
    }
}

/// The piece kind of a FEN letter.
fn kind_of_char(c: char) -> (r: PieceKind)
    requires
        piece_of_char(c) is Some,
    ensures
        r == piece_of_char(c).unwrap().1,
{
    if c == 'P' || c == 'p' {
        PieceKind::Pawn
    } else if c == 'N' || c == 'n' {
        PieceKind::Knight
    } else if c == 'B' || c == 'b' {
        PieceKind::Bishop
    } else if c == 'R' || c == 'r' {
        PieceKind::Rook
    } else if c == 'Q' || c == 'q' {
        PieceKind::Queen
    } else {
        PieceKind::King
    }
}

impl Board {
    /// Places the pieces of a board field on an empty board.
    fn parse_placement(s: &Vec<char>) -> (r: Option<Board>)
        ensures
            match parse_board(s@) {
                Some(sq) => r matches Some(b) && b.wf() && b@ == (Position {
                    squares: sq,
                    ..Board::empty_view()
                }),
                None => r is None,
            },
    {
        let mut board = Board::empty();
        let mut rank: i32 = 7;
        let mut file: i32 = 0;
        let mut i: usize = 0;
        while i < s.len()
            invariant
                i <= s@.len(),
                board.wf(),
                0 <= rank <= 7,
                0 <= file <= 8,
                board_scan(s@.subrange(0, i as int)) == Some(
                    ScanState { rank: rank as int, file: file as int, squares: board@.squares },
                ),
                board@ == (Position { squares: board@.squares, ..Board::empty_view() }),
                forall|q: int|
                    0 <= q < 64 && (q / 8 < rank || (q / 8 == rank && q % 8 >= file))
                        ==> #[trigger] board@.squares[q] is None,
            decreases s@.len() - i,
        {
            let ghost pre = s@.subrange(0, i as int);
            let ghost next = s@.subrange(0, i + 1);
            assert(next.drop_last() =~= pre);
            let c = s[i];
            if c == '/' {
                if file != 8 || rank == 0 {
                    proof {
                        lemma_board_scan_fails(s@, i + 1);
                    }
                    return None;
                }
                rank = rank - 1;
                file = 0;
            } else if '1' <= c && c <= '8' {
                let d = (c as u32 - '0' as u32) as i32;
                if file + d > 8 {
                    proof {
                        lemma_board_scan_fails(s@, i + 1);
                    }
                    return None;
                }
                file = file + d;
            } else {
                match Color::from_char(c) {
                    None => {
                        proof {
                            lemma_board_scan_fails(s@, i + 1);
                        }
                        return None;
                    },
                    Some(color) => {
                        if file >= 8 {
                            proof {
                                lemma_board_scan_fails(s@, i + 1);
                            }
                            return None;
                        }
                        let kind = kind_of_char(c);
                        let sq = (rank * 8 + file) as u8;
                        board.put_piece(sq, color, kind);
                        file = file + 1;
                        assert(board@.squares =~= board_scan(next).unwrap().squares);
                    },
                }
            }
            assert(board_scan(next) == Some(
                ScanState { rank: rank as int, file: file as int, squares: board@.squares },
            ));
            i += 1;
        }
        assert(s@.subrange(0, s@.len() as int) =~= s@);
        if rank != 0 || file != 8 {
            return None;
        }
        Some(board)
    }
}


impl Board {
    /// The board that a FEN text describes, or `InvalidFen`.
    pub(crate) fn from_fen(fen: &str) -> (r: Result<Board, EngineError>)
        ensures
            match parse_fen(fen@) {
                Some(p) => r matches Ok(b) && b.wf() && b@ == p,
                None => r matches Err(EngineError::InvalidFen(_)),
            },
    {
        let chars = chars_of(fen);
        let parts = split_words(&chars);
        if parts.len() != 6 {
            return Err(invalid_fen("FEN must have 6 space-separated fields"));
        }
        let mut board = match Board::parse_placement(&parts[0]) {
            Some(b) => b,
            None => {
                return Err(invalid_fen("invalid board layout"));
            },
        };
        let side = match parse_side_exec(&parts[1]) {
            Some(c) => c,
            None => {
                return Err(invalid_fen("invalid side to move"));
            },
        };
        let castling = match parse_castling_exec(&parts[2]) {
            Some(c) => c,
            None => {
                return Err(invalid_fen("invalid castling rights"));
            },
        };
        let en_passant = match parse_en_passant_exec(&parts[3]) {
            Some(e) => e,
            None => {
                return Err(invalid_fen("invalid en passant"));
            },
        };
        let halfmove = match parse_u32_exec(&parts[4]) {
            Some(n) => n,
            None => {
                return Err(invalid_fen("invalid halfmove"));
            },
        };
        let fullmove = match parse_u32_exec(&parts[5]) {
            Some(n) => n,
            None => {
                return Err(invalid_fen("invalid fullmove"));
            },
        };
        let ghost placed = board;
        board.side_to_move = side;
        board.castling = castling;
        board.en_passant = en_passant;
        board.halfmove_clock = halfmove;
        board.fullmove_number = fullmove;
        proof {
            assert(board.pieces == placed.pieces);
            assert(board@.squares =~= placed@.squares);
        }
        Ok(board)
    }
}

} // verus!
