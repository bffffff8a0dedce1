//! Static evaluation in centipawns from the side to move's perspective:
//! material count, optionally refined by small piece-square terms (pawn
//! advancement and central placement of the minor pieces and the queen).
//! Scores are clamped strictly inside the mate range.
use vstd::prelude::*;
use crate::search::board::Pos;
use crate::search::see::{piece_at, piece_at_spec, piece_value, piece_value_spec};

verus! {

/// Score of a forced mate at the root; a mate at ply `p` scores
/// `MATE_SCORE - p` for the winner.
pub const MATE_SCORE: i32 = 30000;

/// Score of a drawn position.
pub const DRAW_SCORE: i32 = 0;

/// Distance of a file or rank index from the four center squares.
pub open spec fn cdist(x: int) -> int {
    if x <= 3 {
        3 - x
    } else {
        x - 4
    }
}

/// Piece-square term for a piece of kind `p` (0 = pawn .. 5 = king) of the
/// given color on square `sq`.
pub open spec fn pst_spec(p: int, sq: int, white: bool) -> int
    recommends
        0 <= sq < 64,
{
    let f = sq % 8;
    let r = sq / 8;
    let rel = if white {
        r
    } else {
        7 - r
    };
    let center = 6 - cdist(f) - cdist(r);
    if p == 0 {
        4 * rel + if (f == 3 || f == 4) && (rel == 3 || rel == 4) {
            10int
        } else {
            0int
        }
    } else if p == 1 {
        6 * center - 18
    } else if p == 2 {
        4 * center - 12
    } else if p == 4 {
        2 * center - 6
    } else {
        0
    }
}

/// Piece-square term, executable form.
pub fn pst_cp(p: u8, sq: u8, white: bool) -> (r: i32)
    requires
        sq < 64,
    ensures
        r == pst_spec(p as int, sq as int, white),
        -40 <= r <= 40,
{
    let f: i32 = (sq % 8) as i32;
    let rk: i32 = (sq / 8) as i32;
    let rel: i32 = if white {
        rk
    } else {
        7 - rk
    };
    let cf: i32 = if f <= 3 {
        3 - f
    } else {
        f - 4
    };
    let cr: i32 = if rk <= 3 {
        3 - rk
    } else {
        rk - 4
    };
    let center: i32 = 6 - cf - cr;
    if p == 0 {
        4 * rel + if (f == 3 || f == 4) && (rel == 3 || rel == 4) {
            10
        } else {
            0
        }
    } else if p == 1 {
        6 * center - 18
    } else if p == 2 {
        4 * center - 12
    } else if p == 4 {
        2 * center - 6
    } else {
        0
    }
}

/// Contribution of one square to the evaluation, from White's perspective.
pub open spec fn sq_term(pos: Pos, sq: int, use_pst: bool) -> int
    recommends
        0 <= sq < 64,
{
    match piece_at_spec(pos, sq as u64) {
        None => 0,
        Some((c, p)) => {
            let v = piece_value_spec(p) + if use_pst {
                pst_spec(p, sq, c)
            } else {
                0int
            };
            if c {
                v
            } else {
                -v
            }
        },
    }
}

/// Sum of the square contributions below `n`, from White's perspective.
pub open spec fn sum_upto(pos: Pos, n: int, use_pst: bool) -> int
    decreases n,
{
    if n <= 0 {
        0
    } else {
        sum_upto(pos, n - 1, use_pst) + sq_term(pos, n - 1, use_pst)
    }
}

/// Each square contributes at most one piece value plus its square term.
proof fn lemma_sum_bound(pos: Pos, n: int, use_pst: bool)
    requires
        0 <= n <= 64,
    ensures
        -20040 * n <= sum_upto(pos, n, use_pst) <= 20040 * n,
    decreases n,
{
    if n > 0 {
        lemma_sum_bound(pos, n - 1, use_pst);
    }
}

/// The full evaluation from the side to move's perspective, clamped
/// strictly inside the mate range.
pub open spec fn eval_spec(pos: Pos, use_pst: bool) -> int {
    let w = sum_upto(pos, 64, use_pst);
    let s = if pos.stm_white {
        w
    } else {
        -w
    };
    if s > (MATE_SCORE - 1) {
        (MATE_SCORE - 1) as int
    } else if s < -(MATE_SCORE - 1) {
        -(MATE_SCORE - 1) as int
    } else {
        s
    }
}

/// Evaluate a position: material, plus piece-square terms when `use_pst`.
pub fn eval_pos_cp(pos: &Pos, use_pst: bool) -> (r: i32)
    ensures
        r == eval_spec(*pos, use_pst),
        -MATE_SCORE < r < MATE_SCORE,
{
    let mut acc: i32 = 0;
    let mut sq: u8 = 0;
    while sq < 64
        invariant
            sq <= 64,
            acc == sum_upto(*pos, sq as int, use_pst),
            -20040 * sq <= acc <= 20040 * sq,
        decreases 64 - sq,
    {
        let term: i32 = match piece_at(pos, sq) {
            None => 0,
            Some((c, p)) => {
                let v = piece_value(p) + if use_pst {
                    pst_cp(p, sq, c)
                } else {
                    0
                };
                if c {
                    v
                } else {
                    -v
                }
            },
        };
        acc = acc + term;
        sq = sq + 1;
    }
    let s: i32 = if pos.stm_white {
        acc
    } else {
        -acc
    };
    if s > MATE_SCORE - 1 {
        MATE_SCORE - 1
    } else if s < -(MATE_SCORE - 1) {
        -(MATE_SCORE - 1)
    } else {
        s
    }
}

} // verus!
