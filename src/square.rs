use vstd::prelude::*;

verus! {

/// Whether square `sq` is set in `bb`.
pub open spec fn bit_set(bb: u64, sq: int) -> bool {
    0 <= sq < 64 && bb & (1u64 << (sq as u64)) != 0
}

pub open spec fn file_spec(sq: int) -> int {
    sq % 8
}

pub open spec fn rank_spec(sq: int) -> int {
    sq / 8
}

pub open spec fn square_spec(file: int, rank: int) -> int {
    rank * 8 + file
}

pub open spec fn on_board(file: int, rank: int) -> bool {
    0 <= file < 8 && 0 <= rank < 8
}

pub(crate) proof fn lemma_bit_set(bb: u64, s: u64, t: u64)
    requires
        s < 64,
        t < 64,
    ensures
        (bb | (1u64 << s)) & (1u64 << t) != 0 <==> (s == t || bb & (1u64 << t) != 0),
{
    assert((bb | (1u64 << s)) & (1u64 << t) != 0 <==> (s == t || bb & (1u64 << t) != 0))
        by (bit_vector)
        requires
            s < 64,
            t < 64,
    ;
}

pub(crate) proof fn lemma_bit_clear(bb: u64, s: u64, t: u64)
    requires
        s < 64,
        t < 64,
    ensures
        (bb & !(1u64 << s)) & (1u64 << t) != 0 <==> (s != t && bb & (1u64 << t) != 0),
{
    assert((bb & !(1u64 << s)) & (1u64 << t) != 0 <==> (s != t && bb & (1u64 << t) != 0))
        by (bit_vector)
        requires
            s < 64,
            t < 64,
    ;
}

pub(crate) proof fn lemma_bit_or(a: u64, b: u64, t: u64)
    requires
        t < 64,
    ensures
        (a | b) & (1u64 << t) != 0 <==> (a & (1u64 << t) != 0 || b & (1u64 << t) != 0),
{
    assert((a | b) & (1u64 << t) != 0 <==> (a & (1u64 << t) != 0 || b & (1u64 << t) != 0))
        by (bit_vector)
        requires
            t < 64,
    ;
}

pub(crate) proof fn lemma_bit_zero(t: u64)
    requires
        t < 64,
    ensures
        0u64 & (1u64 << t) == 0,
{
    assert(0u64 & (1u64 << t) == 0) by (bit_vector);
}

/// Setting a square adds exactly that square.
pub proof fn lemma_has_set(bb: u64, s: int)
    requires
        0 <= s < 64,
    ensures
        forall|t: int| #[trigger] bit_set(bb | (1u64 << (s as u64)), t) <==> (t == s || bit_set(bb, t)),
{
    assert forall|t: int| #[trigger] bit_set(bb | (1u64 << (s as u64)), t) <==> (t == s || bit_set(bb, t)) by {
        if 0 <= t < 64 {
            lemma_bit_set(bb, s as u64, t as u64);
        }
    }
}

/// Clearing a square removes exactly that square.
pub proof fn lemma_has_clear(bb: u64, s: int)
    requires
        0 <= s < 64,
    ensures
        forall|t: int| #[trigger] bit_set(bb & !(1u64 << (s as u64)), t) <==> (t != s && bit_set(bb, t)),
{
    assert forall|t: int| #[trigger] bit_set(bb & !(1u64 << (s as u64)), t) <==> (t != s && bit_set(bb, t)) by {
        if 0 <= t < 64 {
            lemma_bit_clear(bb, s as u64, t as u64);
        }
    }
}

/// A union holds a square when either part does.
pub proof fn lemma_has_or(a: u64, b: u64)
    ensures
        forall|t: int| #[trigger] bit_set(a | b, t) <==> (bit_set(a, t) || bit_set(b, t)),
{
    assert forall|t: int| #[trigger] bit_set(a | b, t) <==> (bit_set(a, t) || bit_set(b, t)) by {
        if 0 <= t < 64 {
            lemma_bit_or(a, b, t as u64);
        }
    }
}

/// The empty board holds no square.
pub proof fn lemma_has_zero()
    ensures
        forall|t: int| !#[trigger] bit_set(0u64, t),
{
    assert forall|t: int| !#[trigger] bit_set(0u64, t) by {
        if 0 <= t < 64 {
            lemma_bit_zero(t as u64);
        }
    }
}

/// Two bitboards that hold the same squares are equal.
pub proof fn lemma_bits_ext(a: u64, b: u64)
    requires
        forall|s: int| 0 <= s < 64 ==> (#[trigger] bit_set(a, s) <==> bit_set(b, s)),
    ensures
        a == b,
{
    assert(bit_set(a, 0) <==> bit_set(b, 0));
    assert(bit_set(a, 1) <==> bit_set(b, 1));
    assert(bit_set(a, 2) <==> bit_set(b, 2));
    assert(bit_set(a, 3) <==> bit_set(b, 3));
    assert(bit_set(a, 4) <==> bit_set(b, 4));
    assert(bit_set(a, 5) <==> bit_set(b, 5));
    assert(bit_set(a, 6) <==> bit_set(b, 6));
    assert(bit_set(a, 7) <==> bit_set(b, 7));
    assert(bit_set(a, 8) <==> bit_set(b, 8));
    assert(bit_set(a, 9) <==> bit_set(b, 9));
    assert(bit_set(a, 10) <==> bit_set(b, 10));
    assert(bit_set(a, 11) <==> bit_set(b, 11));
    assert(bit_set(a, 12) <==> bit_set(b, 12));
    assert(bit_set(a, 13) <==> bit_set(b, 13));
    assert(bit_set(a, 14) <==> bit_set(b, 14));
    assert(bit_set(a, 15) <==> bit_set(b, 15));
    assert(bit_set(a, 16) <==> bit_set(b, 16));
    assert(bit_set(a, 17) <==> bit_set(b, 17));
    assert(bit_set(a, 18) <==> bit_set(b, 18));
    assert(bit_set(a, 19) <==> bit_set(b, 19));
    assert(bit_set(a, 20) <==> bit_set(b, 20));
    assert(bit_set(a, 21) <==> bit_set(b, 21));
    assert(bit_set(a, 22) <==> bit_set(b, 22));
    assert(bit_set(a, 23) <==> bit_set(b, 23));
    assert(bit_set(a, 24) <==> bit_set(b, 24));
    assert(bit_set(a, 25) <==> bit_set(b, 25));
    assert(bit_set(a, 26) <==> bit_set(b, 26));
    assert(bit_set(a, 27) <==> bit_set(b, 27));
    assert(bit_set(a, 28) <==> bit_set(b, 28));
    assert(bit_set(a, 29) <==> bit_set(b, 29));
    assert(bit_set(a, 30) <==> bit_set(b, 30));
    assert(bit_set(a, 31) <==> bit_set(b, 31));
    assert(bit_set(a, 32) <==> bit_set(b, 32));
    assert(bit_set(a, 33) <==> bit_set(b, 33));
    assert(bit_set(a, 34) <==> bit_set(b, 34));
    assert(bit_set(a, 35) <==> bit_set(b, 35));
    assert(bit_set(a, 36) <==> bit_set(b, 36));
    assert(bit_set(a, 37) <==> bit_set(b, 37));
    assert(bit_set(a, 38) <==> bit_set(b, 38));
    assert(bit_set(a, 39) <==> bit_set(b, 39));
    assert(bit_set(a, 40) <==> bit_set(b, 40));
    assert(bit_set(a, 41) <==> bit_set(b, 41));
    assert(bit_set(a, 42) <==> bit_set(b, 42));
    assert(bit_set(a, 43) <==> bit_set(b, 43));
    assert(bit_set(a, 44) <==> bit_set(b, 44));
    assert(bit_set(a, 45) <==> bit_set(b, 45));
    assert(bit_set(a, 46) <==> bit_set(b, 46));
    assert(bit_set(a, 47) <==> bit_set(b, 47));
    assert(bit_set(a, 48) <==> bit_set(b, 48));
    assert(bit_set(a, 49) <==> bit_set(b, 49));
    assert(bit_set(a, 50) <==> bit_set(b, 50));
    assert(bit_set(a, 51) <==> bit_set(b, 51));
    assert(bit_set(a, 52) <==> bit_set(b, 52));
    assert(bit_set(a, 53) <==> bit_set(b, 53));
    assert(bit_set(a, 54) <==> bit_set(b, 54));
    assert(bit_set(a, 55) <==> bit_set(b, 55));
    assert(bit_set(a, 56) <==> bit_set(b, 56));
    assert(bit_set(a, 57) <==> bit_set(b, 57));
    assert(bit_set(a, 58) <==> bit_set(b, 58));
    assert(bit_set(a, 59) <==> bit_set(b, 59));
    assert(bit_set(a, 60) <==> bit_set(b, 60));
    assert(bit_set(a, 61) <==> bit_set(b, 61));
    assert(bit_set(a, 62) <==> bit_set(b, 62));
    assert(bit_set(a, 63) <==> bit_set(b, 63));
    assert(a == b) by (bit_vector)
        requires
            a & (1u64 << 0u64) != 0 <==> b & (1u64 << 0u64) != 0,
            a & (1u64 << 1u64) != 0 <==> b & (1u64 << 1u64) != 0,
            a & (1u64 << 2u64) != 0 <==> b & (1u64 << 2u64) != 0,
            a & (1u64 << 3u64) != 0 <==> b & (1u64 << 3u64) != 0,
            a & (1u64 << 4u64) != 0 <==> b & (1u64 << 4u64) != 0,
            a & (1u64 << 5u64) != 0 <==> b & (1u64 << 5u64) != 0,
            a & (1u64 << 6u64) != 0 <==> b & (1u64 << 6u64) != 0,
            a & (1u64 << 7u64) != 0 <==> b & (1u64 << 7u64) != 0,
            a & (1u64 << 8u64) != 0 <==> b & (1u64 << 8u64) != 0,
            a & (1u64 << 9u64) != 0 <==> b & (1u64 << 9u64) != 0,
            a & (1u64 << 10u64) != 0 <==> b & (1u64 << 10u64) != 0,
            a & (1u64 << 11u64) != 0 <==> b & (1u64 << 11u64) != 0,
            a & (1u64 << 12u64) != 0 <==> b & (1u64 << 12u64) != 0,
            a & (1u64 << 13u64) != 0 <==> b & (1u64 << 13u64) != 0,
            a & (1u64 << 14u64) != 0 <==> b & (1u64 << 14u64) != 0,
            a & (1u64 << 15u64) != 0 <==> b & (1u64 << 15u64) != 0,
            a & (1u64 << 16u64) != 0 <==> b & (1u64 << 16u64) != 0,
            a & (1u64 << 17u64) != 0 <==> b & (1u64 << 17u64) != 0,
            a & (1u64 << 18u64) != 0 <==> b & (1u64 << 18u64) != 0,
            a & (1u64 << 19u64) != 0 <==> b & (1u64 << 19u64) != 0,
            a & (1u64 << 20u64) != 0 <==> b & (1u64 << 20u64) != 0,
            a & (1u64 << 21u64) != 0 <==> b & (1u64 << 21u64) != 0,
            a & (1u64 << 22u64) != 0 <==> b & (1u64 << 22u64) != 0,
            a & (1u64 << 23u64) != 0 <==> b & (1u64 << 23u64) != 0,
            a & (1u64 << 24u64) != 0 <==> b & (1u64 << 24u64) != 0,
            a & (1u64 << 25u64) != 0 <==> b & (1u64 << 25u64) != 0,
            a & (1u64 << 26u64) != 0 <==> b & (1u64 << 26u64) != 0,
            a & (1u64 << 27u64) != 0 <==> b & (1u64 << 27u64) != 0,
            a & (1u64 << 28u64) != 0 <==> b & (1u64 << 28u64) != 0,
            a & (1u64 << 29u64) != 0 <==> b & (1u64 << 29u64) != 0,
            a & (1u64 << 30u64) != 0 <==> b & (1u64 << 30u64) != 0,
            a & (1u64 << 31u64) != 0 <==> b & (1u64 << 31u64) != 0,
            a & (1u64 << 32u64) != 0 <==> b & (1u64 << 32u64) != 0,
            a & (1u64 << 33u64) != 0 <==> b & (1u64 << 33u64) != 0,
            a & (1u64 << 34u64) != 0 <==> b & (1u64 << 34u64) != 0,
            a & (1u64 << 35u64) != 0 <==> b & (1u64 << 35u64) != 0,
            a & (1u64 << 36u64) != 0 <==> b & (1u64 << 36u64) != 0,
            a & (1u64 << 37u64) != 0 <==> b & (1u64 << 37u64) != 0,
            a & (1u64 << 38u64) != 0 <==> b & (1u64 << 38u64) != 0,
            a & (1u64 << 39u64) != 0 <==> b & (1u64 << 39u64) != 0,
            a & (1u64 << 40u64) != 0 <==> b & (1u64 << 40u64) != 0,
            a & (1u64 << 41u64) != 0 <==> b & (1u64 << 41u64) != 0,
            a & (1u64 << 42u64) != 0 <==> b & (1u64 << 42u64) != 0,
            a & (1u64 << 43u64) != 0 <==> b & (1u64 << 43u64) != 0,
            a & (1u64 << 44u64) != 0 <==> b & (1u64 << 44u64) != 0,
            a & (1u64 << 45u64) != 0 <==> b & (1u64 << 45u64) != 0,
            a & (1u64 << 46u64) != 0 <==> b & (1u64 << 46u64) != 0,
            a & (1u64 << 47u64) != 0 <==> b & (1u64 << 47u64) != 0,
            a & (1u64 << 48u64) != 0 <==> b & (1u64 << 48u64) != 0,
            a & (1u64 << 49u64) != 0 <==> b & (1u64 << 49u64) != 0,
            a & (1u64 << 50u64) != 0 <==> b & (1u64 << 50u64) != 0,
            a & (1u64 << 51u64) != 0 <==> b & (1u64 << 51u64) != 0,
            a & (1u64 << 52u64) != 0 <==> b & (1u64 << 52u64) != 0,
            a & (1u64 << 53u64) != 0 <==> b & (1u64 << 53u64) != 0,
            a & (1u64 << 54u64) != 0 <==> b & (1u64 << 54u64) != 0,
            a & (1u64 << 55u64) != 0 <==> b & (1u64 << 55u64) != 0,
            a & (1u64 << 56u64) != 0 <==> b & (1u64 << 56u64) != 0,
            a & (1u64 << 57u64) != 0 <==> b & (1u64 << 57u64) != 0,
            a & (1u64 << 58u64) != 0 <==> b & (1u64 << 58u64) != 0,
            a & (1u64 << 59u64) != 0 <==> b & (1u64 << 59u64) != 0,
            a & (1u64 << 60u64) != 0 <==> b & (1u64 << 60u64) != 0,
            a & (1u64 << 61u64) != 0 <==> b & (1u64 << 61u64) != 0,
            a & (1u64 << 62u64) != 0 <==> b & (1u64 << 62u64) != 0,
            a & (1u64 << 63u64) != 0 <==> b & (1u64 << 63u64) != 0,
    ;
}

/// The single-square bitboard of `square`.
pub(crate) fn bit(square: u8) -> (r: u64)
    requires
        square < 64,
    ensures
        r == 1u64 << (square as u64),
{
    1u64 << square
}

/// Whether `square` is set in `bb`.
pub(crate) fn test_bit(bb: u64, square: u8) -> (r: bool)
    requires
        square < 64,
    ensures
        r == bit_set(bb, square as int),
{
    bb & bit(square) != 0
}

pub(crate) fn file_of(square: u8) -> (r: u8)
    ensures
        r == file_spec(square as int),
{
    square % 8
}

pub(crate) fn rank_of(square: u8) -> (r: u8)
    ensures
        r == rank_spec(square as int),
{
    square / 8
}

/// The lower-case form of an ASCII letter; other characters are returned as they are.
pub open spec fn ascii_lower(c: char) -> char {
    if 'A' <= c && c <= 'Z' {
        ((c as u32) + 32) as char
    } else {
        c
    }
}

/// The square that an algebraic coordinate such as `e4` names; the file letter may be upper case.
pub open spec fn coord_square(s: Seq<char>) -> Option<u8> {
    if s.len() == 2 && 'a' <= ascii_lower(s[0]) && ascii_lower(s[0]) <= 'h' && '1' <= s[1] && s[1]
        <= '8' {
        Some(((s[1] as u32 - '1' as u32) * 8 + (ascii_lower(s[0]) as u32 - 'a' as u32)) as u8)
    } else {
        None
    }
}

pub open spec fn file_char(sq: int) -> char {
    (('a' as u32) + (sq % 8) as u32) as char
}

pub open spec fn rank_char(sq: int) -> char {
    (('1' as u32) + (sq / 8) as u32) as char
}

/// The algebraic name of a square, `a1` for square 0.
pub open spec fn square_name(sq: int) -> Seq<char> {
    seq![file_char(sq), rank_char(sq)]
}

pub(crate) fn coord_chars_to_square(s: &Vec<char>) -> (r: Option<u8>)
    ensures
        r == coord_square(s@),
{
    if s.len() != 2 {
        return None;
    }
    let f0 = s[0];
    let f = if 'A' <= f0 && f0 <= 'Z' {
        char_from_u32_ascii(f0 as u32 + 32)
    } else {
        f0
    };
    let r = s[1];
    if !('a' <= f && f <= 'h') || !('1' <= r && r <= '8') {
        return None;
    }
    let file_idx = (f as u32 - 'a' as u32) as u8;
    let rank_idx = (r as u32 - '1' as u32) as u8;
    Some(rank_idx * 8 + file_idx)
}

/// The ASCII character of code `v`.
pub(crate) fn char_from_u32_ascii(v: u32) -> (r: char)
    requires
        v < 128,
    ensures
        r == v as char,
{
    let b: u8 = v as u8;
    b as char
}

} // verus!
