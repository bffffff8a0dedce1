//! Move ordering: the transposition-table move first, then captures by
//! MVV-LVA (most valuable victim, least valuable attacker), then the two
//! killer moves of the ply, then quiet moves by history counter, then the
//! rest in generator order. With the deterministic flag, ties are broken by
//! the total order on (from, to, promotion), so a position with a given
//! table state always yields the same traversal.
use vstd::prelude::*;
use vstd::multiset::Multiset;
use crate::search::board::{mv_copy, mv_data, mv_of, mv_wf, Mv, Pos};
use crate::search::see::{piece_at, piece_at_spec, piece_value, piece_value_spec};

verus! {

/// Whether a move is an en-passant capture: a pawn moves diagonally to an
/// empty square.
pub open spec fn is_ep_spec(pos: Pos, m: Mv) -> bool {
    match piece_at_spec(pos, m.from as u64) {
        Some((_c, p)) => p == 0 && m.from % 8 != m.to % 8 && piece_at_spec(
            pos,
            m.to as u64,
        ) is None,
        None => false,
    }
}

/// Whether a move captures: its target holds an opposing piece, or it is an
/// en-passant capture.
pub open spec fn is_capture_spec(pos: Pos, m: Mv) -> bool {
    match piece_at_spec(pos, m.to as u64) {
        Some((c, _p)) => c != pos.stm_white,
        None => is_ep_spec(pos, m),
    }
}

/// MVV-LVA score of a move: ten times the victim's value minus the
/// attacker's value.
pub open spec fn mvv_lva_spec(pos: Pos, m: Mv) -> int {
    let victim = match piece_at_spec(pos, m.to as u64) {
        Some((_c, p)) => piece_value_spec(p),
        None => 0,
    };
    let attacker = match piece_at_spec(pos, m.from as u64) {
        Some((_c, p)) => piece_value_spec(p),
        None => 0,
    };
    victim * 10 - attacker
}

/// Test whether a move is an en-passant capture.
pub fn is_en_passant(pos: &Pos, m: Mv) -> (r: bool)
    requires
        mv_wf(m),
    ensures
        r == is_ep_spec(*pos, m),
{
    match piece_at(pos, m.from) {
        Some((_c, p)) => p == 0 && m.from % 8 != m.to % 8 && piece_at(pos, m.to).is_none(),
        None => false,
    }
}

/// Test whether a move captures.
pub fn is_capture(pos: &Pos, m: Mv) -> (r: bool)
    requires
        mv_wf(m),
    ensures
        r == is_capture_spec(*pos, m),
{
    match piece_at(pos, m.to) {
        Some((c, _p)) => c != pos.stm_white,
        None => is_en_passant(pos, m),
    }
}

/// MVV-LVA score of a move.
pub fn mvv_lva(pos: &Pos, m: Mv) -> (r: i32)
    requires
        mv_wf(m),
    ensures
        r == mvv_lva_spec(*pos, m),
        -20000 <= r <= 200000,
{
    let victim: i32 = match piece_at(pos, m.to) {
        Some((_c, p)) => piece_value(p),
        None => 0,
    };
    let attacker: i32 = match piece_at(pos, m.from) {
        Some((_c, p)) => piece_value(p),
        None => 0,
    };
    victim * 10 - attacker
}

/// The inputs the orderer ranks against: the table move, the ply's killers,
/// and the feature toggles.
#[derive(Clone, Copy)]
pub struct OrderCtx {
    pub ttm: Option<Mv>,
    pub k0: Option<Mv>,
    pub k1: Option<Mv>,
    pub order_captures: bool,
    pub use_killers: bool,
    pub use_history: bool,
    pub deterministic: bool,
}

/// The primary rank of a move, highest first: table move, captures by
/// MVV-LVA, killers, history, rest.
pub open spec fn rank_key(pos: Pos, m: Mv, ctx: OrderCtx, hist: Seq<u32>) -> int
    recommends
        mv_wf(m),
        hist.len() == 4096,
{
    if ctx.ttm == Some(m) {
        3000000
    } else if ctx.order_captures && is_capture_spec(pos, m) {
        2000000 + mvv_lva_spec(pos, m)
    } else if ctx.use_killers && ctx.k0 == Some(m) {
        1500000
    } else if ctx.use_killers && ctx.k1 == Some(m) {
        1499999
    } else if ctx.use_history {
        let h = hist[m.from as int * 64 + m.to as int] as int;
        if h > 1000000 {
            1000000
        } else {
            h
        }
    } else {
        0
    }
}

/// The full sort key: the rank, with the deterministic tiebreak on
/// (from, to, promotion) packed into the low bits.
pub open spec fn full_key(pos: Pos, m: Mv, ctx: OrderCtx, hist: Seq<u32>) -> int {
    rank_key(pos, m, ctx, hist) * 32768 + if ctx.deterministic {
        m.from as int * 512 + m.to as int * 8 + m.promo as int
    } else {
        0int
    }
}

/// Compute the full sort key of one move.
pub fn move_key(pos: &Pos, m: Mv, ctx: &OrderCtx, hist: &Vec<u32>) -> (r: i64)
    requires
        mv_wf(m),
        hist@.len() == 4096,
    ensures
        r == full_key(*pos, m, *ctx, hist@),
{
    let rank: i64 = if match ctx.ttm {
        Some(t) => t == m,
        None => false,
    } {
        3000000
    } else if ctx.order_captures && is_capture(pos, m) {
        2000000 + mvv_lva(pos, m) as i64
    } else if ctx.use_killers && match ctx.k0 {
        Some(t) => t == m,
        None => false,
    } {
        1500000
    } else if ctx.use_killers && match ctx.k1 {
        Some(t) => t == m,
        None => false,
    } {
        1499999
    } else if ctx.use_history {
        let h = hist[(m.from as usize) * 64 + (m.to as usize)];
        if h > 1000000 {
            1000000
        } else {
            h as i64
        }
    } else {
        0
    };
    let tie: i64 = if ctx.deterministic {
        (m.from as i64) * 512 + (m.to as i64) * 8 + (m.promo as i64)
    } else {
        0
    };
    rank * 32768 + tie
}

/// The index of the pair with the greatest key in `s[i..]`, preferring the
/// earliest on ties.
pub open spec fn argmax_from(s: Seq<(i64, usize)>, i: int) -> int
    recommends
        0 <= i < s.len(),
    decreases s.len() - i,
{
    if i >= s.len() - 1 {
        i
    } else {
        let j = argmax_from(s, i + 1);
        if s[i].0 >= s[j].0 {
            i
        } else {
            j
        }
    }
}

/// The argmax lies in range.
pub proof fn lemma_argmax_range(s: Seq<(i64, usize)>, i: int)
    requires
        0 <= i < s.len(),
    ensures
        i <= argmax_from(s, i) < s.len(),
    decreases s.len() - i,
{
    if i < s.len() - 1 {
        lemma_argmax_range(s, i + 1);
    }
}

/// Stable selection sort, descending by key: repeatedly move the earliest
/// pair with the greatest key to the front.
pub open spec fn sel_sort(s: Seq<(i64, usize)>) -> Seq<(i64, usize)>
    decreases s.len(),
{
    if s.len() == 0 {
        Seq::empty()
    } else {
        let j = argmax_from(s, 0);
        if 0 <= j < s.len() {
            seq![s[j]] + sel_sort(s.remove(j))
        } else {
            s
        }
    }
}

/// Sorting keeps the length.
pub proof fn lemma_sel_sort_len(s: Seq<(i64, usize)>)
    ensures
        sel_sort(s).len() == s.len(),
    decreases s.len(),
{
    if s.len() > 0 {
        let j = argmax_from(s, 0);
        lemma_argmax_range(s, 0);
        lemma_sel_sort_len(s.remove(j));
    }
}

/// Every pair of the sorted sequence comes from the input.
pub proof fn lemma_sel_sort_contains(s: Seq<(i64, usize)>, x: (i64, usize))
    requires
        sel_sort(s).contains(x),
    ensures
        s.contains(x),
    decreases s.len(),
{
    if s.len() > 0 {
        let j = argmax_from(s, 0);
        lemma_argmax_range(s, 0);
        let sorted = seq![s[j]] + sel_sort(s.remove(j));
        if x == s[j] {
            assert(s.contains(x)) by {
                assert(s[j] == x);
            }
        } else {
            let k = choose|k: int| 0 <= k < sorted.len() && sorted[k] == x;
            assert(sel_sort(s.remove(j)).contains(x)) by {
                assert(sorted[k] == sel_sort(s.remove(j))[k - 1]);
            }
            lemma_sel_sort_contains(s.remove(j), x);
            let k2 = choose|k2: int| 0 <= k2 < s.remove(j).len() && s.remove(j)[k2] == x;
            if k2 < j {
                assert(s[k2] == x);
            } else {
                assert(s[k2 + 1] == x);
            }
        }
    }
}

/// Sorting permutes: the sorted sequence holds exactly the input pairs,
/// with multiplicity. With the length and containment facts above, the
/// orderer neither drops, invents nor duplicates a move.
pub proof fn lemma_sel_sort_permutes(s: Seq<(i64, usize)>)
    ensures
        sel_sort(s).to_multiset() == s.to_multiset(),
    decreases s.len(),
{
    broadcast use vstd::seq_lib::group_to_multiset_ensures;

    if s.len() > 0 {
        let j = argmax_from(s, 0);
        lemma_argmax_range(s, 0);
        lemma_sel_sort_permutes(s.remove(j));
        vstd::seq_lib::lemma_multiset_commutative(seq![s[j]], sel_sort(s.remove(j)));
        assert(seq![s[j]].to_multiset() =~= Multiset::<(i64, usize)>::empty().insert(s[j]));
        assert(s.remove(j).to_multiset() =~= s.to_multiset().remove(s[j]));
        assert(s.to_multiset().contains(s[j]));
        assert(sel_sort(s).to_multiset() =~= s.to_multiset());
    } else {
        assert(sel_sort(s).to_multiset() =~= s.to_multiset());
    }
}

/// Sort key/index pairs, descending by key, stable.
pub fn sort_pairs(v: Vec<(i64, usize)>) -> (r: Vec<(i64, usize)>)
    ensures
        r@ == sel_sort(v@),
        r@.len() == v@.len(),
        forall|k: int| 0 <= k < r@.len() ==> v@.contains(#[trigger] r@[k]),
{
    let ghost orig = v@;
    let mut rest = v;
    let mut out: Vec<(i64, usize)> = Vec::new();
    while rest.len() > 0
        invariant
            sel_sort(orig) =~= out@ + sel_sort(rest@),
            out@.len() + rest@.len() == orig.len(),
        decreases rest@.len(),
    {
        let ghost pre = rest@;
        proof {
            lemma_argmax_range(pre, 0);
        }
        let n = rest.len();
        let mut j: usize = n - 1;
        let mut i: usize = n - 1;
        while i > 0
            invariant
                rest@ == pre,
                rest@.len() == n,
                n >= 1,
                i < n,
                j < n,
                j == argmax_from(pre, i as int),
            decreases i,
        {
            i = i - 1;
            if rest[i].0 >= rest[j].0 {
                j = i;
            }
        }
        out.push(rest[j]);
        let _ = rest.remove(j);
        proof {
            lemma_sel_sort_len(rest@);
        }
    }
    proof {
        assert(out@ =~= sel_sort(orig));
        lemma_sel_sort_len(orig);
        assert forall|k: int| 0 <= k < out@.len() implies orig.contains(#[trigger] out@[k]) by {
            assert(sel_sort(orig).contains(out@[k])) by {
                assert(sel_sort(orig)[k] == out@[k]);
            }
            lemma_sel_sort_contains(orig, out@[k]);
        }
    }
    out
}

/// The keyed index pairs of a move list.
pub open spec fn pair_seq(pos: Pos, datas: Seq<Mv>, ctx: OrderCtx, hist: Seq<u32>) -> Seq<
    (i64, usize),
> {
    Seq::new(datas.len(), |i: int| (full_key(pos, datas[i], ctx, hist) as i64, i as usize))
}

/// The move data of a list, in sorted order.
pub open spec fn order_spec(pos: Pos, datas: Seq<Mv>, ctx: OrderCtx, hist: Seq<u32>) -> Seq<Mv> {
    let sorted = sel_sort(pair_seq(pos, datas, ctx, hist));
    Seq::new(sorted.len(), |k: int| datas[sorted[k].1 as int])
}

/// Order a move list for traversal.
pub fn order_moves(
    pos: &Pos,
    moves: &Vec<cozy_chess::Move>,
    ctx: &OrderCtx,
    hist: &Vec<u32>,
) -> (r: Vec<cozy_chess::Move>)
    requires
        hist@.len() == 4096,
        forall|i: int| 0 <= i < moves@.len() ==> mv_wf(mv_data(#[trigger] moves@[i])),
    ensures
        r@.len() == moves@.len(),
        r@.map_values(|m: cozy_chess::Move| mv_data(m)) == order_spec(
            *pos,
            moves@.map_values(|m: cozy_chess::Move| mv_data(m)),
            *ctx,
            hist@,
        ),
        forall|k: int|
            0 <= k < r@.len() ==> moves@.map_values(|m: cozy_chess::Move| mv_data(m)).contains(
                mv_data(#[trigger] r@[k]),
            ),
        forall|k: int| 0 <= k < r@.len() ==> moves@.contains(#[trigger] r@[k]),
{
    let ghost datas = moves@.map_values(|m: cozy_chess::Move| mv_data(m));
    let n = moves.len();
    let mut pairs: Vec<(i64, usize)> = Vec::new();
    let mut i: usize = 0;
    while i < n
        invariant
            i <= n,
            n == moves@.len(),
            hist@.len() == 4096,
            forall|q: int| 0 <= q < moves@.len() ==> mv_wf(mv_data(#[trigger] moves@[q])),
            datas == moves@.map_values(|m: cozy_chess::Move| mv_data(m)),
            pairs@ =~= pair_seq(*pos, datas, *ctx, hist@).take(i as int),
        decreases n - i,
    {
        let m = mv_of(&moves[i]);
        let key = move_key(pos, m, ctx, hist);
        pairs.push((key, i));
        proof {
            assert(pairs@ =~= pair_seq(*pos, datas, *ctx, hist@).take(i as int + 1));
        }
        i = i + 1;
    }
    proof {
        assert(pairs@ =~= pair_seq(*pos, datas, *ctx, hist@));
    }
    let sorted = sort_pairs(pairs);
    let mut out: Vec<cozy_chess::Move> = Vec::new();
    let mut k: usize = 0;
    while k < sorted.len()
        invariant
            k <= sorted@.len(),
            n == moves@.len(),
            datas == moves@.map_values(|m: cozy_chess::Move| mv_data(m)),
            sorted@ == sel_sort(pair_seq(*pos, datas, *ctx, hist@)),
            forall|q: int|
                0 <= q < sorted@.len() ==> pair_seq(*pos, datas, *ctx, hist@).contains(
                    #[trigger] sorted@[q],
                ),
            out@.len() == k,
            forall|q: int|
                0 <= q < k ==> mv_data(#[trigger] out@[q]) == datas[sorted@[q].1 as int],
            forall|q: int| 0 <= q < k ==> moves@.contains(#[trigger] out@[q]),
        decreases sorted@.len() - k,
    {
        let (_key, idx) = sorted[k];
        proof {
            assert(pair_seq(*pos, datas, *ctx, hist@).contains(sorted@[k as int]));
            let q = choose|q: int|
                0 <= q < pair_seq(*pos, datas, *ctx, hist@).len() && pair_seq(
                    *pos,
                    datas,
                    *ctx,
                    hist@,
                )[q] == sorted@[k as int];
            assert(sorted@[k as int].1 == q as usize);
        }
        let mv = mv_copy(&moves[idx]);
        proof {
            assert(moves@.contains(mv)) by {
                assert(moves@[idx as int] == mv);
            }
        }
        out.push(mv);
        k = k + 1;
    }
    proof {
        lemma_sel_sort_len(pair_seq(*pos, datas, *ctx, hist@));
        assert(out@.map_values(|m: cozy_chess::Move| mv_data(m)) =~= order_spec(
            *pos,
            datas,
            *ctx,
            hist@,
        ));
        assert forall|k2: int| 0 <= k2 < out@.len() implies datas.contains(
            mv_data(#[trigger] out@[k2]),
        ) by {
            let sorted_s = sel_sort(pair_seq(*pos, datas, *ctx, hist@));
            assert(pair_seq(*pos, datas, *ctx, hist@).contains(sorted_s[k2]));
            let q = choose|q: int|
                0 <= q < pair_seq(*pos, datas, *ctx, hist@).len() && pair_seq(
                    *pos,
                    datas,
                    *ctx,
                    hist@,
                )[q] == sorted_s[k2];
            assert(datas[q] == mv_data(out@[k2]));
        }
    }
    out
}

} // verus!
