//! Noise-filtered move sampling for self-play: draw uniformly among the
//! top-K ordered moves, but never one that static exchange evaluation
//! shows loses material beyond a threshold, nor one whose one-ply safety
//! probe exposes a heavy loss. When every top-K move is rejected, the
//! first move of the order is returned; an empty order yields nothing.
use vstd::prelude::*;
use crate::search::board::{mv_copy, mv_data, mv_of, pos_of};
use crate::search::board::extract_pos;
use crate::search::safety::{exposes_heavy_loss_after_move, probe_spec};
use crate::search::see::{see_on_pos, see_spec};

verus! {

/// A reply that gains at least this much material makes the safety probe
/// reject a sampled move.
pub const HEAVY_LOSS_CP: i32 = 300;

/// Declares `rand::rngs::SmallRng`, the sampler's random source, as an
/// opaque type.
#[verifier::external_type_specification]
#[verifier::external_body]
pub struct ExSmallRng(rand::rngs::SmallRng);

/// Relies on rand's `Rng::gen_range` over `0..n`: a draw below `n`.
#[verifier::external_body]
fn rng_below(rng: &mut rand::rngs::SmallRng, n: usize) -> (r: usize)
    requires
        n >= 1,
    ensures
        r < n,
{
    rand::Rng::gen_range(rng, 0..n)
}

/// Whether a move survives the noise filter on `b`: its exchange value is
/// not below `see_thresh`, and it exposes no heavy loss to one reply.
pub open spec fn survives(b: cozy_chess::Board, m: cozy_chess::Move, see_thresh: int) -> bool {
    &&& match see_spec(pos_of(b), mv_data(m).from as u64, mv_data(m).to as u64) {
        Some(v) => v >= see_thresh,
        None => true,
    }
    &&& !probe_spec(b, m, HEAVY_LOSS_CP as int)
}

/// Test the noise filter on one move.
fn survives_exec(board: &cozy_chess::Board, pos: &crate::search::board::Pos, m: &cozy_chess::Move, see_thresh: i32) -> (r:
    bool)
    requires
        *pos == pos_of(*board),
    ensures
        r == survives(*board, *m, see_thresh as int),
{
    let md = mv_of(m);
    let see_ok = match see_on_pos(pos, md.from, md.to) {
        Some(v) => v >= see_thresh,
        None => true,
    };
    if !see_ok {
        return false;
    }
    !exposes_heavy_loss_after_move(board, mv_copy(m), HEAVY_LOSS_CP)
}

/// Draw uniformly among the filter's survivors within the first
/// `top_k` moves of `order`; if none survives, fall back to the first move
/// of the order, and yield nothing only on an empty order.
pub fn choose_noisy_from_order_filtered(
    board: &cozy_chess::Board,
    order: &Vec<cozy_chess::Move>,
    top_k: usize,
    rng: &mut rand::rngs::SmallRng,
    see_threshold: i32,
) -> (r: Option<cozy_chess::Move>)
    ensures
        (r is Some) <==> order@.len() > 0,
        order@.len() > 0 ==> ({
            let k = if top_k > order@.len() {
                order@.len() as int
            } else if top_k < 1 {
                1int
            } else {
                top_k as int
            };
            &&& (r matches Some(m) ==> exists|i: int| 0 <= i < k && order@[i] == m)
            &&& ((exists|i: int|
                0 <= i < k && #[trigger] survives(*board, order@[i], see_threshold as int))
                ==> match r {
                Some(m) => survives(*board, m, see_threshold as int),
                None => false,
            })
        }),
{
    if order.len() == 0 {
        return None;
    }
    let mut k: usize = if top_k > order.len() {
        order.len()
    } else {
        top_k
    };
    if k < 1 {
        k = 1;
    }
    let pos = extract_pos(board);
    let mut survivors: Vec<usize> = Vec::new();
    let mut i: usize = 0;
    while i < k
        invariant
            1 <= k <= order@.len(),
            i <= k,
            pos == pos_of(*board),
            forall|j: int|
                0 <= j < survivors@.len() ==> #[trigger] survivors@[j] < k && survives(
                    *board,
                    order@[survivors@[j] as int],
                    see_threshold as int,
                ),
            survivors@.len() == 0 ==> forall|q: int|
                0 <= q < i ==> !survives(*board, #[trigger] order@[q], see_threshold as int),
        decreases k - i,
    {
        if survives_exec(board, &pos, &order[i], see_threshold) {
            survivors.push(i);
        }
        i = i + 1;
    }
    if survivors.len() > 0 {
        let pick = rng_below(rng, survivors.len());
        let idx = survivors[pick];
        Some(mv_copy(&order[idx]))
    } else {
        Some(mv_copy(&order[0]))
    }
}

} // verus!
