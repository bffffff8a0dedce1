//! Static exchange evaluation: the net material outcome, in centipawns, of
//! the capture sequence on one square, assuming both sides recapture with
//! their cheapest attacker and may stop whenever continuing loses material.
//!
//! The algorithm is bitboard-based: attackers are recomputed against a
//! shrinking occupancy so that x-ray attackers appear once the piece in
//! front of them has captured. Its result is pinned exactly to the spec
//! functions below.
use vstd::prelude::*;
use crate::search::board::{
    Mv, Pos, att_bishop, att_king, att_knight, att_pawn, att_rook, bishop_attacks, king_attacks,
    knight_attacks, mv_data, mv_of, pawn_attacks, pos_of, rook_attacks, extract_pos,
};

verus! {

/// Piece values in centipawns, indexed 0 = pawn, 1 = knight, 2 = bishop,
/// 3 = rook, 4 = queen, 5 = king.
pub open spec fn piece_value_spec(p: int) -> int {
    if p == 0 {
        100
    } else if p == 1 {
        320
    } else if p == 2 {
        330
    } else if p == 3 {
        500
    } else if p == 4 {
        900
    } else {
        20000
    }
}

/// Centipawn value of a piece kind.
pub fn piece_value(p: u8) -> (r: i32)
    ensures
        r == piece_value_spec(p as int),
        100 <= r <= 20000,
{
    if p == 0 {
        100
    } else if p == 1 {
        320
    } else if p == 2 {
        330
    } else if p == 3 {
        500
    } else if p == 4 {
        900
    } else {
        20000
    }
}

/// Whether bit `sq` is set in `bb`.
pub open spec fn bit(bb: u64, sq: u64) -> bool
    recommends
        sq < 64,
{
    bb & (1u64 << sq) != 0
}

/// Bit test, executable form.
pub fn bit_test(bb: u64, sq: u8) -> (r: bool)
    requires
        sq < 64,
    ensures
        r == bit(bb, sq as u64),
{
    bb & (1u64 << (sq as u64)) != 0
}

/// The piece standing on a square: its color (true = white) and kind, or
/// `None` for an empty square. The white bitboard is consulted first.
pub open spec fn piece_at_spec(pos: Pos, sq: u64) -> Option<(bool, int)>
    recommends
        sq < 64,
{
    if !bit(pos.white, sq) && !bit(pos.black, sq) {
        None
    } else {
        let c = bit(pos.white, sq);
        if bit(pos.pawns, sq) {
            Some((c, 0))
        } else if bit(pos.knights, sq) {
            Some((c, 1))
        } else if bit(pos.bishops, sq) {
            Some((c, 2))
        } else if bit(pos.rooks, sq) {
            Some((c, 3))
        } else if bit(pos.queens, sq) {
            Some((c, 4))
        } else if bit(pos.kings, sq) {
            Some((c, 5))
        } else {
            None
        }
    }
}

/// Executable lookup of the piece on a square.
pub fn piece_at(pos: &Pos, sq: u8) -> (r: Option<(bool, u8)>)
    requires
        sq < 64,
    ensures
        match r {
            Some((c, p)) => piece_at_spec(*pos, sq as u64) == Some((c, p as int)) && p < 6,
            None => piece_at_spec(*pos, sq as u64) is None,
        },
{
    let w = bit_test(pos.white, sq);
    let b = bit_test(pos.black, sq);
    if !w && !b {
        return None;
    }
    if bit_test(pos.pawns, sq) {
        Some((w, 0))
    } else if bit_test(pos.knights, sq) {
        Some((w, 1))
    } else if bit_test(pos.bishops, sq) {
        Some((w, 2))
    } else if bit_test(pos.rooks, sq) {
        Some((w, 3))
    } else if bit_test(pos.queens, sq) {
        Some((w, 4))
    } else if bit_test(pos.kings, sq) {
        Some((w, 5))
    } else {
        None
    }
}

/// Attack set of a leaper standing on `sq`: kind 0 is a pawn of the given
/// color, kind 1 a knight, kind 2 a king.
pub open spec fn leaper_att(kind: int, white: bool, sq: int) -> u64 {
    if kind == 0 {
        att_pawn(sq, white)
    } else if kind == 1 {
        att_knight(sq)
    } else {
        att_king(sq)
    }
}

/// The squares below `n` holding a piece of `mask` whose leaper attack set
/// covers `target`.
pub open spec fn leaper_attackers_upto(
    kind: int,
    white: bool,
    mask: u64,
    target: u64,
    n: int,
) -> u64
    decreases n,
{
    if n <= 0 {
        0u64
    } else {
        let rest = leaper_attackers_upto(kind, white, mask, target, n - 1);
        if bit(mask, (n - 1) as u64) && bit(leaper_att(kind, white, n - 1), target) {
            rest | (1u64 << ((n - 1) as u64))
        } else {
            rest
        }
    }
}

/// Collect the leaper attackers of `target` among `mask`.
fn leaper_attackers(kind: u8, white: bool, mask: u64, target: u8) -> (r: u64)
    requires
        kind <= 2,
        target < 64,
    ensures
        r == leaper_attackers_upto(kind as int, white, mask, target as u64, 64),
{
    let mut acc: u64 = 0;
    let mut sq: u8 = 0;
    while sq < 64
        invariant
            sq <= 64,
            kind <= 2,
            target < 64,
            acc == leaper_attackers_upto(kind as int, white, mask, target as u64, sq as int),
        decreases 64 - sq,
    {
        let att: u64 = if kind == 0 {
            pawn_attacks(sq, white)
        } else if kind == 1 {
            knight_attacks(sq)
        } else {
            king_attacks(sq)
        };
        if bit_test(mask, sq) && bit_test(att, target) {
            acc = acc | (1u64 << (sq as u64));
        }
        sq = sq + 1;
    }
    acc
}

/// All pieces of one color that attack `target` under occupancy `occ`:
/// pawns, knights and the king by their leaper attack sets, bishops and
/// queens along the diagonal attacks from the target, rooks and queens
/// along the straight attacks from the target.
pub open spec fn attackers_spec(pos: Pos, target: u64, white: bool, occ: u64) -> u64 {
    let my = if white {
        pos.white
    } else {
        pos.black
    };
    leaper_attackers_upto(0, white, pos.pawns & my, target, 64) | leaper_attackers_upto(
        1,
        white,
        pos.knights & my,
        target,
        64,
    ) | leaper_attackers_upto(2, white, pos.kings & my, target, 64) | ((pos.bishops | pos.queens)
        & my & att_bishop(target as int, occ)) | ((pos.rooks | pos.queens) & my & att_rook(
        target as int,
        occ,
    ))
}

/// Collect the attackers of `target` for one side.
pub fn get_attackers(pos: &Pos, target: u8, white: bool, occ: u64) -> (r: u64)
    requires
        target < 64,
    ensures
        r == attackers_spec(*pos, target as u64, white, occ),
{
    let my: u64 = if white {
        pos.white
    } else {
        pos.black
    };
    let pawns = leaper_attackers(0, white, pos.pawns & my, target);
    let knights = leaper_attackers(1, white, pos.knights & my, target);
    let kings = leaper_attackers(2, white, pos.kings & my, target);
    let diag = (pos.bishops | pos.queens) & my & bishop_attacks(target, occ);
    let straight = (pos.rooks | pos.queens) & my & rook_attacks(target, occ);
    pawns | knights | kings | diag | straight
}

/// The least valuable attacker of `target` for one side under occupancy
/// `occ`: the cheapest piece kind with an attacker, and among those the
/// lowest square.
pub open spec fn lva_spec(pos: Pos, target: u64, white: bool, occ: u64) -> Option<(u64, int)> {
    let atts = attackers_spec(pos, target, white, occ) & occ;
    if pos.pawns & atts != 0 {
        Some((vstd::std_specs::bits::u64_trailing_zeros(pos.pawns & atts) as u64, 0))
    } else if pos.knights & atts != 0 {
        Some((vstd::std_specs::bits::u64_trailing_zeros(pos.knights & atts) as u64, 1))
    } else if pos.bishops & atts != 0 {
        Some((vstd::std_specs::bits::u64_trailing_zeros(pos.bishops & atts) as u64, 2))
    } else if pos.rooks & atts != 0 {
        Some((vstd::std_specs::bits::u64_trailing_zeros(pos.rooks & atts) as u64, 3))
    } else if pos.queens & atts != 0 {
        Some((vstd::std_specs::bits::u64_trailing_zeros(pos.queens & atts) as u64, 4))
    } else if pos.kings & atts != 0 {
        Some((vstd::std_specs::bits::u64_trailing_zeros(pos.kings & atts) as u64, 5))
    } else {
        None
    }
}

/// Find the least valuable attacker, returning its square and piece kind.
pub fn least_valuable_attacker(pos: &Pos, target: u8, white: bool, occ: u64) -> (r: Option<
    (u8, u8),
>)
    requires
        target < 64,
    ensures
        match r {
            Some((sq, p)) => lva_spec(*pos, target as u64, white, occ) == Some((sq as u64, p as int))
                && sq < 64 && p < 6,
            None => lva_spec(*pos, target as u64, white, occ) is None,
        },
{
    let atts = get_attackers(pos, target, white, occ) & occ;
    let masks: [u64; 6] = [
        pos.pawns & atts,
        pos.knights & atts,
        pos.bishops & atts,
        pos.rooks & atts,
        pos.queens & atts,
        pos.kings & atts,
    ];
    let mut p: u8 = 0;
    while p < 6
        invariant
            p <= 6,
            target < 64,
            atts == attackers_spec(*pos, target as u64, white, occ) & occ,
            masks@ == seq![
                pos.pawns & atts,
                pos.knights & atts,
                pos.bishops & atts,
                pos.rooks & atts,
                pos.queens & atts,
                pos.kings & atts,
            ],
            forall|j: int| 0 <= j < p ==> masks@[j] == 0,
        decreases 6 - p,
    {
        let m = masks[p as usize];
        if m != 0 {
            proof {
                vstd::std_specs::bits::axiom_u64_trailing_zeros(m);
            }
            let sq = m.trailing_zeros();
            return Some((sq as u8, p));
        }
        p = p + 1;
    }
    None
}

/// The sequence of capture gains on `target`, from the side `white` to move
/// onward: each entry is the value now standing on the target minus the
/// previous entry, and capturing pieces leave the occupancy as they go.
pub open spec fn see_gains(
    pos: Pos,
    target: u64,
    occ: u64,
    white: bool,
    cur_val: int,
    last_gain: int,
    fuel: nat,
) -> Seq<int>
    decreases fuel,
{
    if fuel == 0 {
        Seq::empty()
    } else {
        match lva_spec(pos, target, white, occ) {
            None => Seq::empty(),
            Some((sq, p)) => {
                let g = cur_val - last_gain;
                seq![g] + see_gains(
                    pos,
                    target,
                    occ & !(1u64 << sq),
                    !white,
                    piece_value_spec(p),
                    g,
                    (fuel - 1) as nat,
                )
            },
        }
    }
}

/// The minimax fold over a gains sequence: each side may stop capturing
/// when continuing would lose material.
pub open spec fn see_fold(s: Seq<int>) -> int
    recommends
        s.len() > 0,
    decreases s.len(),
{
    if s.len() <= 1 {
        s[0]
    } else {
        let rest = see_fold(s.drop_first());
        if -s[0] > rest {
            s[0]
        } else {
            -rest
        }
    }
}

/// The folded value stays within the bound of the sequence's entries.
proof fn lemma_fold_bound(s: Seq<int>, bnd: int)
    requires
        s.len() > 0,
        forall|j: int| 0 <= j < s.len() ==> -bnd <= #[trigger] s[j] <= bnd,
    ensures
        -bnd <= see_fold(s) <= bnd,
    decreases s.len(),
{
    if s.len() > 1 {
        lemma_fold_bound(s.drop_first(), bnd);
    }
}

/// The static exchange value of moving the piece on `from` to `to`:
/// `None` when `from` is empty, otherwise the folded gains of the capture
/// sequence that starts by removing the mover from the occupancy.
pub open spec fn see_spec(pos: Pos, from: u64, to: u64) -> Option<int>
    recommends
        from < 64,
        to < 64,
{
    match piece_at_spec(pos, from) {
        None => None,
        Some((_c, att)) => {
            let captured = match piece_at_spec(pos, to) {
                Some((_cc, v)) => piece_value_spec(v),
                None => 0,
            };
            let occ0 = (pos.white | pos.black) & !(1u64 << from);
            let gains = seq![captured] + see_gains(
                pos,
                to,
                occ0,
                !pos.stm_white,
                piece_value_spec(att),
                captured,
                64,
            );
            Some(see_fold(gains))
        },
    }
}

/// Entries of the gains sequence grow by at most one piece value per step.
proof fn lemma_gains_bound(
    pos: Pos,
    target: u64,
    occ: u64,
    white: bool,
    cur_val: int,
    last_gain: int,
    fuel: nat,
)
    requires
        0 <= cur_val <= 20000,
        -3000000 + 21000 * fuel <= last_gain <= 3000000 - 21000 * fuel,
    ensures
        forall|j: int|
            0 <= j < see_gains(pos, target, occ, white, cur_val, last_gain, fuel).len()
                ==> -3000000 <= #[trigger] see_gains(
                pos,
                target,
                occ,
                white,
                cur_val,
                last_gain,
                fuel,
            )[j] <= 3000000,
    decreases fuel,
{
    if fuel > 0 {
        match lva_spec(pos, target, white, occ) {
            None => {},
            Some((sq, p)) => {
                let g = cur_val - last_gain;
                lemma_gains_bound(
                    pos,
                    target,
                    occ & !(1u64 << sq),
                    !white,
                    piece_value_spec(p),
                    g,
                    (fuel - 1) as nat,
                );
                let rest = see_gains(
                    pos,
                    target,
                    occ & !(1u64 << sq),
                    !white,
                    piece_value_spec(p),
                    g,
                    (fuel - 1) as nat,
                );
                let whole = see_gains(pos, target, occ, white, cur_val, last_gain, fuel);
                assert(whole =~= seq![g] + rest);
                assert forall|j: int| 0 <= j < whole.len() implies -3000000 <= #[trigger] whole[j]
                    <= 3000000 by {
                    if j == 0 {
                        assert(whole[j] == g);
                    } else {
                        assert(whole[j] == rest[j - 1]);
                    }
                }
            },
        }
    }
}

/// Exchange evaluation on the extracted position model.
pub fn see_on_pos(pos: &Pos, from: u8, to: u8) -> (r: Option<i32>)
    requires
        from < 64,
        to < 64,
    ensures
        r is Some <==> see_spec(*pos, from as u64, to as u64) is Some,
        r matches Some(v) ==> see_spec(*pos, from as u64, to as u64) == Some(v as int),
{
    let attacker = match piece_at(pos, from) {
        None => {
            return None;
        },
        Some((_c, p)) => p,
    };
    let captured: i32 = match piece_at(pos, to) {
        Some((_c, v)) => piece_value(v),
        None => 0,
    };
    let occ0: u64 = (pos.white | pos.black) & !(1u64 << (from as u64));

    let ghost full_gains: Seq<int> = seq![captured as int] + see_gains(
        *pos,
        to as u64,
        occ0,
        !pos.stm_white,
        piece_value_spec(attacker as int),
        captured as int,
        64,
    );

    let mut gains: Vec<i32> = Vec::new();
    gains.push(captured);
    let mut occ: u64 = occ0;
    let mut white: bool = !pos.stm_white;
    let mut cur_val: i32 = piece_value(attacker);
    let mut last_gain: i32 = captured;
    let mut it: u8 = 0;
    let mut done: bool = false;

    proof {
        lemma_gains_bound(
            *pos,
            to as u64,
            occ0,
            !pos.stm_white,
            piece_value_spec(attacker as int),
            captured as int,
            64,
        );
        assert(full_gains =~= gains@.map_values(|x: i32| x as int) + see_gains(
            *pos,
            to as u64,
            occ,
            white,
            cur_val as int,
            last_gain as int,
            64,
        ));
    }

    while !done && it < 64
        invariant
            it <= 64,
            to < 64,
            gains@.len() == it + 1,
            0 <= cur_val <= 20000,
            -3000000 + 21000 * (64 - it) <= last_gain <= 3000000 - 21000 * (64 - it),
            forall|j: int| 0 <= j < gains@.len() ==> -3000000 <= #[trigger] gains@[j] <= 3000000,
            !done ==> full_gains =~= gains@.map_values(|x: i32| x as int) + see_gains(
                *pos,
                to as u64,
                occ,
                white,
                cur_val as int,
                last_gain as int,
                (64 - it) as nat,
            ),
            done ==> full_gains =~= gains@.map_values(|x: i32| x as int),
        decreases 64 - it, 1 - (done as int),
    {
        let ghost pre_gains = gains@;
        match least_valuable_attacker(pos, to, white, occ) {
            None => {
                proof {
                    assert(see_gains(
                        *pos,
                        to as u64,
                        occ,
                        white,
                        cur_val as int,
                        last_gain as int,
                        (64 - it) as nat,
                    ) =~= Seq::<int>::empty());
                }
                done = true;
            },
            Some((sq, p)) => {
                let g = cur_val - last_gain;
                gains.push(g);
                occ = occ & !(1u64 << (sq as u64));
                cur_val = piece_value(p);
                last_gain = g;
                white = !white;
                it = it + 1;
                proof {
                    assert(gains@.map_values(|x: i32| x as int) =~= pre_gains.map_values(
                        |x: i32| x as int,
                    ) + seq![g as int]);
                }
            },
        }
    }
    proof {
        if !done {
            assert(see_gains(
                *pos,
                to as u64,
                occ,
                white,
                cur_val as int,
                last_gain as int,
                0nat,
            ) =~= Seq::<int>::empty());
        }
        assert(full_gains =~= gains@.map_values(|x: i32| x as int));
        assert(full_gains.len() == gains@.len());
        assert(forall|j: int|
            0 <= j < full_gains.len() ==> -3000000 <= #[trigger] full_gains[j] <= 3000000);
    }

    // Fold from the back: gains[i] becomes -max(-gains[i], gains[i + 1]).
    let mut i: usize = gains.len() - 1;
    while i > 0
        invariant
            gains@.len() == full_gains.len(),
            full_gains.len() >= 1,
            i < gains@.len(),
            forall|j: int| 0 <= j < i ==> gains@[j] == full_gains[j],
            forall|j: int|
                i <= j < gains@.len() ==> gains@[j] as int == see_fold(
                    #[trigger] full_gains.skip(j),
                ),
            forall|j: int| 0 <= j < gains@.len() ==> -3000000 <= #[trigger] gains@[j] <= 3000000,
            forall|j: int| 0 <= j < full_gains.len() ==> -3000000 <= #[trigger] full_gains[j]
                <= 3000000,
        decreases i,
    {
        i = i - 1;
        let gi = gains[i];
        let a = -gi;
        let b = gains[i + 1];
        let m = if a > b {
            a
        } else {
            b
        };
        proof {
            let suf = full_gains.skip(i as int);
            assert(suf.len() > 1);
            assert(suf.drop_first() =~= full_gains.skip(i as int + 1));
            assert(suf[0] == full_gains[i as int]);
        }
        let folded = -m;
        gains.set(i, folded);
    }
    proof {
        assert(full_gains.skip(0) =~= full_gains);
    }
    Some(gains[0])
}

/// Static exchange evaluation of a move on a board, in centipawns from the
/// mover's perspective.
pub fn see_gain_cp(board: &cozy_chess::Board, mv: cozy_chess::Move) -> (r: Option<i32>)
    ensures
        r is Some <==> see_spec(
            pos_of(*board),
            mv_data(mv).from as u64,
            mv_data(mv).to as u64,
        ) is Some,
        r matches Some(v) ==> see_spec(
            pos_of(*board),
            mv_data(mv).from as u64,
            mv_data(mv).to as u64,
        ) == Some(v as int),
{
    let pos = extract_pos(board);
    let m: Mv = mv_of(&mv);
    see_on_pos(&pos, m.from, m.to)
}

/// When the mover's opponent has no attacker of the target square once the
/// mover has left its origin, the exchange value is exactly the value of
/// the piece captured (or zero on an empty target): nobody can recapture.
pub proof fn lemma_see_no_recapture(pos: Pos, from: u64, to: u64)
    requires
        from < 64,
        to < 64,
        piece_at_spec(pos, from) is Some,
        lva_spec(pos, to, !pos.stm_white, (pos.white | pos.black) & !(1u64 << from)) is None,
    ensures
        see_spec(pos, from, to) == Some(
            match piece_at_spec(pos, to) {
                Some((_c, v)) => piece_value_spec(v),
                None => 0,
            },
        ),
{
    let captured = match piece_at_spec(pos, to) {
        Some((_cc, v)) => piece_value_spec(v),
        None => 0int,
    };
    let att = piece_at_spec(pos, from)->Some_0.1;
    let occ0 = (pos.white | pos.black) & !(1u64 << from);
    let tail = see_gains(pos, to, occ0, !pos.stm_white, piece_value_spec(att), captured, 64);
    assert(tail =~= Seq::<int>::empty());
    let gains = seq![captured] + tail;
    assert(gains.len() == 1);
    assert(gains[0] == captured);
    assert(see_fold(gains) == captured);
}

} // verus!
