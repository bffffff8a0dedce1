//! Zobrist fingerprints: a 64-bit position key, the XOR of one pseudorandom
//! word per occupied (color, piece, square), one word when Black is to
//! move, one per enabled castling right, and one per en-passant file. The
//! word table derives from a compiled-in seed, so fingerprints are stable
//! across runs. Two positions with equal placement, side to move, castling
//! rights and en-passant file get equal fingerprints.
use vstd::prelude::*;
use crate::search::board::Pos;
use crate::search::see::{piece_at, piece_at_spec};

verus! {

/// Seed of the word table.
pub const ZOB_SEED: u64 = 0x9E3779B97F4A7C15;

/// One mixing round: the splitmix64 output function.
pub open spec fn mix_spec(z0: u64) -> u64 {
    let z1 = vstd::wrapping::u64_specs::wrapping_mul(
        z0 ^ (z0 >> 30u64),
        0xBF58476D1CE4E5B9u64,
    );
    let z2 = vstd::wrapping::u64_specs::wrapping_mul(
        z1 ^ (z1 >> 27u64),
        0x94D049BB133111EBu64,
    );
    z2 ^ (z2 >> 31u64)
}

/// The pseudorandom word with index `i`.
pub open spec fn zob_word(i: u64) -> u64 {
    mix_spec(
        vstd::wrapping::u64_specs::wrapping_add(
            ZOB_SEED,
            vstd::wrapping::u64_specs::wrapping_mul(i, 0x2545F4914F6CDD1Du64),
        ),
    )
}

/// Compute the pseudorandom word with index `i`.
pub fn word(i: u64) -> (r: u64)
    ensures
        r == zob_word(i),
{
    let z0 = ZOB_SEED.wrapping_add(i.wrapping_mul(0x2545F4914F6CDD1Du64));
    let z1 = (z0 ^ (z0 >> 30u64)).wrapping_mul(0xBF58476D1CE4E5B9u64);
    let z2 = (z1 ^ (z1 >> 27u64)).wrapping_mul(0x94D049BB133111EBu64);
    z2 ^ (z2 >> 31u64)
}

/// The word index of a piece of kind `p` and color `c` on square `sq`:
/// pieces fill indices 0 to 767, rank-major within each (color, kind).
pub open spec fn piece_word_index(white: bool, p: int, sq: int) -> int {
    ((if white {
        0int
    } else {
        1int
    }) * 6 + p) * 64 + sq
}

/// The word contributed by one square, or zero for an empty square.
pub open spec fn sq_word(pos: Pos, sq: int) -> u64
    recommends
        0 <= sq < 64,
{
    match piece_at_spec(pos, sq as u64) {
        None => 0u64,
        Some((c, p)) => zob_word(piece_word_index(c, p, sq) as u64),
    }
}

/// XOR of the square words below `n`.
pub open spec fn zob_pieces_upto(pos: Pos, n: int) -> u64
    decreases n,
{
    if n <= 0 {
        0u64
    } else {
        zob_pieces_upto(pos, n - 1) ^ sq_word(pos, n - 1)
    }
}

/// The fingerprint of a position model.
pub open spec fn zobrist_spec(pos: Pos) -> u64 {
    let pieces = zob_pieces_upto(pos, 64);
    let stm = if pos.stm_white {
        0u64
    } else {
        zob_word(768u64)
    };
    let cws = if pos.castle_ws {
        zob_word(769u64)
    } else {
        0u64
    };
    let cwl = if pos.castle_wl {
        zob_word(770u64)
    } else {
        0u64
    };
    let cbs = if pos.castle_bs {
        zob_word(771u64)
    } else {
        0u64
    };
    let cbl = if pos.castle_bl {
        zob_word(772u64)
    } else {
        0u64
    };
    let ep = match pos.ep_file {
        Some(f) => zob_word((773 + f as int) as u64),
        None => 0u64,
    };
    pieces ^ stm ^ cws ^ cwl ^ cbs ^ cbl ^ ep
}

/// Compute the fingerprint of a position model.
pub fn compute(pos: &Pos) -> (r: u64)
    ensures
        r == zobrist_spec(*pos),
{
    let mut acc: u64 = 0;
    let mut sq: u8 = 0;
    while sq < 64
        invariant
            sq <= 64,
            acc == zob_pieces_upto(*pos, sq as int),
        decreases 64 - sq,
    {
        let w: u64 = match piece_at(pos, sq) {
            None => 0,
            Some((c, p)) => {
                let color_base: u64 = if c {
                    0
                } else {
                    6
                };
                word((color_base + p as u64) * 64 + sq as u64)
            },
        };
        acc = acc ^ w;
        sq = sq + 1;
    }
    let stm: u64 = if pos.stm_white {
        0
    } else {
        word(768)
    };
    let cws: u64 = if pos.castle_ws {
        word(769)
    } else {
        0
    };
    let cwl: u64 = if pos.castle_wl {
        word(770)
    } else {
        0
    };
    let cbs: u64 = if pos.castle_bs {
        word(771)
    } else {
        0
    };
    let cbl: u64 = if pos.castle_bl {
        word(772)
    } else {
        0
    };
    let ep: u64 = match pos.ep_file {
        Some(f) => word(773 + f as u64),
        None => 0,
    };
    acc ^ stm ^ cws ^ cwl ^ cbs ^ cbl ^ ep
}

} // verus!
