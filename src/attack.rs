use vstd::prelude::*;

use crate::board::Board;
use crate::rules::{
    attacked, king_attack, king_safe, knight_attack, pawn_attack, ray_empty, ray_slider,
    slider_hits, step_mul,
};
use crate::square::{file_of, on_board, rank_of};
use crate::types::{Color, PieceKind};

verus! {

impl Board {
    /// Whether a piece of color `c` and kind `k` stands on the square at `(f, r)`.
    pub(crate) fn holds_exec(&self, f: i32, r: i32, c: Color, k: PieceKind) -> (res: bool)
        requires
            self.wf(),
            -16 <= f <= 16,
            -16 <= r <= 16,
        ensures
            res == self@.holds(f as int, r as int, c, k),
    {
        if 0 <= f && f < 8 && 0 <= r && r < 8 {
            let sq = (r * 8 + f) as u8;
            match self.piece_at(sq) {
                Some((c2, k2)) => c2 == c && k2 == k,
                None => false,
            }
        } else {
            false
        }
    }

    /// Whether the square at `(f, r)` is on the board and empty.
    pub(crate) fn empty_exec(&self, f: i32, r: i32) -> (res: bool)
        requires
            self.wf(),
            -16 <= f <= 16,
            -16 <= r <= 16,
        ensures
            res == self@.empty_at(f as int, r as int),
    {
        if 0 <= f && f < 8 && 0 <= r && r < 8 {
            let sq = (r * 8 + f) as u8;
            !self.is_occupied(sq)
        } else {
            false
        }
    }

    /// Walks from `(f, r)` along `(df, dr)` to the first occupied square, and tells whether it
    /// holds a queen or `major` of `color`.
    pub(crate) fn scan_ray(
        &self,
        f: i32,
        r: i32,
        df: i32,
        dr: i32,
        color: Color,
        major: PieceKind,
    ) -> (res: bool)
        requires
            self.wf(),
            on_board(f as int, r as int),
            -1 <= df <= 1,
            -1 <= dr <= 1,
            df != 0 || dr != 0,
        ensures
            res == slider_hits(self@, f as int, r as int, df as int, dr as int, color, major),
    {
        let ghost p = self@;
        let mut file = f + df;
        let mut rank = r + dr;
        let ghost mut i: int = 1;
        while 0 <= file && file < 8 && 0 <= rank && rank < 8
            invariant
                self.wf(),
                p == self@,
                on_board(f as int, r as int),
                -1 <= df <= 1,
                -1 <= dr <= 1,
                df != 0 || dr != 0,
                1 <= i <= 8,
                file == f + step_mul(i, df as int),
                rank == r + step_mul(i, dr as int),
                forall|j: int|
                    1 <= j < i ==> #[trigger] ray_empty(p, f as int, r as int, df as int, dr as int, j),
            decreases 8 - i,
        {
            let sq = (rank * 8 + file) as u8;
            match self.piece_at(sq) {
                Some((c, piece)) => {
                    if c == color && (piece == PieceKind::Queen || piece == major) {
                        assert(ray_slider(p, f as int, r as int, df as int, dr as int, i, color, major));
                        return true;
                    }
                    proof {
                        assert(!ray_empty(p, f as int, r as int, df as int, dr as int, i));
                        assert forall|i2: int|
                            1 <= i2 implies !(#[trigger] ray_slider(p, f as int, r as int, df as int, dr as int, i2, color, major)
                                && forall|j: int|
                                1 <= j < i2 ==> #[trigger] ray_empty(p, f as int, r as int, df as int, dr as int, j)) by {
                            if i2 > i {
                                assert(!ray_empty(p, f as int, r as int, df as int, dr as int, i));
                            } else if i2 < i {
                                assert(ray_empty(p, f as int, r as int, df as int, dr as int, i2));
                            }
                        }
                    }
                    return false;
                },
                None => {},
            }
            assert(ray_empty(p, f as int, r as int, df as int, dr as int, i));
            file = file + df;
            rank = rank + dr;
            proof {
                i = i + 1;
            }
        }
        proof {
            assert(!p.empty_at(f + step_mul(i, df as int), r + step_mul(i, dr as int)));
            assert forall|i2: int|
                1 <= i2 implies !(#[trigger] ray_slider(p, f as int, r as int, df as int, dr as int, i2, color, major)
                    && forall|j: int|
                    1 <= j < i2 ==> #[trigger] ray_empty(p, f as int, r as int, df as int, dr as int, j)) by {
                if i2 > i {
                    assert(!ray_empty(p, f as int, r as int, df as int, dr as int, i));
                } else if i2 < i {
                    assert(ray_empty(p, f as int, r as int, df as int, dr as int, i2));
                }
            }
        }
        false
    }

    fn pawn_attack_exec(&self, f: i32, r: i32, by: Color) -> (res: bool)
        requires
            self.wf(),
            on_board(f as int, r as int),
        ensures
            res == pawn_attack(self@, f as int, r as int, by),
    {
        let dr: i32 = if by.is_white() {
            -1
        } else {
            1
        };
        self.holds_exec(f - 1, r + dr, by, PieceKind::Pawn) || self.holds_exec(
            f + 1,
            r + dr,
            by,
            PieceKind::Pawn,
        )
    }

    fn knight_attack_exec(&self, f: i32, r: i32, by: Color) -> (res: bool)
        requires
            self.wf(),
            on_board(f as int, r as int),
        ensures
            res == knight_attack(self@, f as int, r as int, by),
    {
        let k = PieceKind::Knight;
        self.holds_exec(f + 1, r + 2, by, k) || self.holds_exec(f + 2, r + 1, by, k)
            || self.holds_exec(f + 2, r - 1, by, k) || self.holds_exec(f + 1, r - 2, by, k)
            || self.holds_exec(f - 1, r - 2, by, k) || self.holds_exec(f - 2, r - 1, by, k)
            || self.holds_exec(f - 2, r + 1, by, k) || self.holds_exec(f - 1, r + 2, by, k)
    }

    fn king_attack_exec(&self, f: i32, r: i32, by: Color) -> (res: bool)
        requires
            self.wf(),
            on_board(f as int, r as int),
        ensures
            res == king_attack(self@, f as int, r as int, by),
    {
        let k = PieceKind::King;
        self.holds_exec(f - 1, r - 1, by, k) || self.holds_exec(f - 1, r, by, k)
            || self.holds_exec(f - 1, r + 1, by, k) || self.holds_exec(f, r - 1, by, k)
            || self.holds_exec(f, r + 1, by, k) || self.holds_exec(f + 1, r - 1, by, k)
            || self.holds_exec(f + 1, r, by, k) || self.holds_exec(f + 1, r + 1, by, k)
    }

    /// Whether a piece of color `by` attacks `square`: pawns, knights, sliding pieces whose ray
    /// reaches it unblocked, and the king.
    pub(crate) fn is_square_attacked(&self, square: u8, by: Color) -> (res: bool)
        requires
            self.wf(),
            square < 64,
        ensures
            res == attacked(self@, square as int, by),
    {
        let f = file_of(square) as i32;
        let r = rank_of(square) as i32;
        let b = PieceKind::Bishop;
        let q = PieceKind::Rook;
        self.pawn_attack_exec(f, r, by) || self.knight_attack_exec(f, r, by) || self.scan_ray(
            f,
            r,
            1,
            1,
            by,
            b,
        ) || self.scan_ray(f, r, 1, -1, by, b) || self.scan_ray(f, r, -1, 1, by, b)
            || self.scan_ray(f, r, -1, -1, by, b) || self.scan_ray(f, r, 1, 0, by, q)
            || self.scan_ray(f, r, -1, 0, by, q) || self.scan_ray(f, r, 0, 1, by, q)
            || self.scan_ray(f, r, 0, -1, by, q) || self.king_attack_exec(f, r, by)
    }

    /// Whether no king of color `c` stands on a square that the opponent attacks.
    pub(crate) fn king_is_safe(&self, c: Color) -> (res: bool)
        requires
            self.wf(),
        ensures
            res == king_safe(self@, c),
    {
        let opp = c.opponent();
        let mut s: u8 = 0;
        while s < 64
            invariant
                self.wf(),
                opp == c.spec_opponent(),
                s <= 64,
                forall|t: int|
                    0 <= t < s && #[trigger] self@.squares[t] == Some((c, PieceKind::King))
                        ==> !attacked(self@, t, opp),
            decreases 64 - s,
        {
            let king_here = match self.piece_at(s) {
                Some((c2, k2)) => c2 == c && k2 == PieceKind::King,
                None => false,
            };
            if king_here && self.is_square_attacked(s, opp) {
                return false;
            }
            s += 1;
        }
        true
    }
}

} // verus!
