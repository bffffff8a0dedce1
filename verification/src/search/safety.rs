//! One-ply safety probe: does a move hand the opponent an immediate heavy
//! material gain? Every legal reply is scored by static exchange
//! evaluation; the probe fires when any reply gains at least the threshold.
//! Replies are scored by net exchange value rather than by the gross
//! material they pick up: a gross measure would fire on every well-defended
//! capture and reject nearly everything in a middlegame.
use vstd::prelude::*;
use crate::search::board::{b_legal, b_moves, b_play, extract_pos, legal_moves, mv_data, mv_of,
    mv_wf, Mv, pos_of, play_move};
use crate::search::see::{see_on_pos, see_spec};

verus! {

/// The exchange gain of the opponent's `i`-th legal reply after the move
/// with data `md` is played on `b`, from the replying side's perspective.
pub open spec fn reply_gain(b: cozy_chess::Board, md: Mv, i: int) -> int {
    let child = b_play(b, md);
    let r = b_moves(child)[i];
    match see_spec(pos_of(child), r.from as u64, r.to as u64) {
        Some(v) => v,
        None => 0,
    }
}

/// Whether playing `m` on `b` exposes a loss of at least `thresh`
/// centipawns to a single reply. An illegal move value exposes nothing.
pub open spec fn probe_spec(b: cozy_chess::Board, m: cozy_chess::Move, thresh: int) -> bool {
    &&& b_legal(b, m)
    &&& exists|i: int|
        0 <= i < b_moves(b_play(b, mv_data(m))).len() && #[trigger] reply_gain(
            b,
            mv_data(m),
            i,
        ) >= thresh
}

/// Play `mv`, then test every opponent reply: true exactly when some reply
/// wins at least `threshold_cp` centipawns of material by static exchange.
pub fn exposes_heavy_loss_after_move(
    board: &cozy_chess::Board,
    mv: cozy_chess::Move,
    threshold_cp: i32,
) -> (r: bool)
    ensures
        r == probe_spec(*board, mv, threshold_cp as int),
{
    let child = match play_move(board, &mv) {
        Some(c) => c,
        None => {
            return false;
        },
    };
    let cpos = extract_pos(&child);
    let replies = legal_moves(&child);
    let mut i: usize = 0;
    while i < replies.len()
        invariant
            child == b_play(*board, mv_data(mv)),
            cpos == pos_of(child),
            b_legal(*board, mv),
            replies@.map_values(|m: cozy_chess::Move| mv_data(m)) == b_moves(child),
            forall|q: int| 0 <= q < replies@.len() ==> mv_wf(mv_data(#[trigger] replies@[q])),
            forall|q: int|
                0 <= q < i ==> #[trigger] reply_gain(*board, mv_data(mv), q) < threshold_cp,
        decreases replies@.len() - i,
    {
        let rd = mv_of(&replies[i]);
        proof {
            assert(b_moves(child)[i as int] == mv_data(replies@[i as int]));
        }
        let gain: i32 = match see_on_pos(&cpos, rd.from, rd.to) {
            Some(v) => v,
            None => 0,
        };
        if gain >= threshold_cp {
            proof {
                assert(reply_gain(*board, mv_data(mv), i as int) >= threshold_cp);
            }
            return true;
        }
        i = i + 1;
    }
    false
}

} // verus!
