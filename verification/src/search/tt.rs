//! Transposition table: a fixed-capacity, lossy cache of searched
//! positions, keyed by Zobrist fingerprint modulo the slot count. A lookup
//! answers only when the stored fingerprint matches exactly, so an index
//! collision reads as a miss. On a store over a different fingerprint the
//! replacement policy prefers the entry with the larger (generation, depth).
use vstd::prelude::*;
use crate::search::board::{mv_wf, Mv};
use crate::search::eval::MATE_SCORE;

verus! {

/// The relation of a stored score to the true value of its position:
/// exact, a lower bound (the search failed high), or an upper bound (the
/// search failed low).
#[derive(Clone, Copy, PartialEq, Eq, Structural, Debug)]
pub enum Bound {
    Exact,
    Lower,
    Upper,
}

/// One table entry: position fingerprint, remaining depth it was searched
/// to, its score, the best move found (if any), the bound kind, and the
/// generation of the search that stored it.
#[derive(Clone, Copy)]
pub struct Entry {
    pub key: u64,
    pub depth: u32,
    pub score: i32,
    pub best: Option<Mv>,
    pub bound: Bound,
    pub gen: u32,
}

/// Well-formedness of an entry: the score is a valid search score and the
/// move, if present, is on the board.
pub open spec fn entry_wf(e: Entry) -> bool {
    &&& -MATE_SCORE <= e.score <= MATE_SCORE
    &&& match e.best {
        Some(m) => mv_wf(m),
        None => true,
    }
}

/// The table: one optional entry per slot, and the current generation.
pub struct Tt {
    slots: Vec<Option<Entry>>,
    generation: u32,
}

/// Index of a fingerprint in a table of `len` slots.
pub open spec fn slot_index(key: u64, len: int) -> int
    recommends
        len >= 1,
{
    (key as int) % len
}

/// What a lookup of `key` finds in a slot sequence.
pub open spec fn lookup_spec(s: Seq<Option<Entry>>, key: u64) -> Option<Entry>
    recommends
        s.len() >= 1,
{
    match s[slot_index(key, s.len() as int)] {
        Some(e) => if e.key == key {
            Some(e)
        } else {
            None
        },
        None => None,
    }
}

/// Whether a store of `e` replaces the entry `old_e` occupying its slot:
/// always on a matching fingerprint, otherwise only when the new
/// (generation, depth) is at least the old one, lexicographically.
pub open spec fn replaces(e: Entry, old_e: Entry) -> bool {
    ||| e.key == old_e.key
    ||| e.gen > old_e.gen
    ||| (e.gen == old_e.gen && e.depth >= old_e.depth)
}

/// The slot sequence after a store of `e`.
pub open spec fn put_spec(s: Seq<Option<Entry>>, e: Entry) -> Seq<Option<Entry>>
    recommends
        s.len() >= 1,
{
    let i = slot_index(e.key, s.len() as int);
    match s[i] {
        None => s.update(i, Some(e)),
        Some(old_e) => if replaces(e, old_e) {
            s.update(i, Some(e))
        } else {
            s
        },
    }
}

/// Every slot either kept its old entry or now holds one of depth at most
/// `d`: how a search at depth `d` is allowed to grow the table.
pub open spec fn grows_bounded(old_s: Seq<Option<Entry>>, new_s: Seq<Option<Entry>>, d: int) -> bool {
    &&& new_s.len() == old_s.len()
    &&& forall|i: int|
        0 <= i < new_s.len() ==> (#[trigger] new_s[i] == old_s[i] || match new_s[i] {
            Some(e) => e.depth <= d,
            None => false,
        })
}

/// A depth cap never below one: a search at depth `d` may store entries up
/// to depth `d`, and check extension can lift a depth-zero node to one.
pub open spec fn dmax(d: int) -> int {
    if d < 1 {
        1
    } else {
        d
    }
}

/// Every `Exact` entry of the sequence has depth at most `d`.
pub open spec fn all_exact_le(s: Seq<Option<Entry>>, d: int) -> bool {
    forall|i: int|
        0 <= i < s.len() ==> match #[trigger] s[i] {
            Some(e) => !(e.bound is Exact) || e.depth <= d,
            None => true,
        }
}

/// Every slot either kept its old entry or now holds one that, if `Exact`,
/// has depth at most `d`.
pub open spec fn grows_exact_le(old_s: Seq<Option<Entry>>, new_s: Seq<Option<Entry>>, d: int) -> bool {
    &&& new_s.len() == old_s.len()
    &&& forall|i: int|
        0 <= i < new_s.len() ==> (#[trigger] new_s[i] == old_s[i] || match new_s[i] {
            Some(e) => !(e.bound is Exact) || e.depth <= d,
            None => false,
        })
}

/// A depth-bounded growth is in particular an `Exact`-bounded growth.
pub proof fn lemma_bounded_implies_exact(
    old_s: Seq<Option<Entry>>,
    new_s: Seq<Option<Entry>>,
    d: int,
)
    requires
        grows_bounded(old_s, new_s, d),
    ensures
        grows_exact_le(old_s, new_s, d),
{
}

/// Growth bounds weaken upward.
pub proof fn lemma_grows_mono(old_s: Seq<Option<Entry>>, new_s: Seq<Option<Entry>>, d1: int, d2: int)
    requires
        grows_bounded(old_s, new_s, d1),
        d1 <= d2,
    ensures
        grows_bounded(old_s, new_s, d2),
{
}

/// `Exact` growth bounds compose along a search.
pub proof fn lemma_grows_exact_trans(
    a: Seq<Option<Entry>>,
    b: Seq<Option<Entry>>,
    c: Seq<Option<Entry>>,
    d1: int,
    d2: int,
    d: int,
)
    requires
        grows_exact_le(a, b, d1),
        grows_exact_le(b, c, d2),
        d1 <= d,
        d2 <= d,
    ensures
        grows_exact_le(a, c, d),
{
    assert forall|i: int| 0 <= i < c.len() implies (#[trigger] c[i] == a[i] || match c[i] {
        Some(e) => !(e.bound is Exact) || e.depth <= d,
        None => false,
    }) by {
        assert(b[i] == a[i] || match b[i] {
            Some(e) => !(e.bound is Exact) || e.depth <= d1,
            None => false,
        });
    }
}

/// A table whose `Exact` entries all sit at depth at most `d` keeps that
/// bound under an `Exact`-bounded growth.
pub proof fn lemma_all_exact_grows(old_s: Seq<Option<Entry>>, new_s: Seq<Option<Entry>>, d: int)
    requires
        grows_exact_le(old_s, new_s, d),
        all_exact_le(old_s, d),
    ensures
        all_exact_le(new_s, d),
{
}

/// A store changes at most the stored entry's slot, so the growth is
/// `Exact`-bounded by any cap its own entry respects.
pub proof fn lemma_put_exact(s: Seq<Option<Entry>>, e: Entry, d: int)
    requires
        s.len() >= 1,
        e.bound is Exact ==> e.depth <= d,
    ensures
        grows_exact_le(s, put_spec(s, e), d),
{
}

/// Growth bounds compose along a search.
pub proof fn lemma_grows_trans(
    a: Seq<Option<Entry>>,
    b: Seq<Option<Entry>>,
    c: Seq<Option<Entry>>,
    d1: int,
    d2: int,
    d: int,
)
    requires
        grows_bounded(a, b, d1),
        grows_bounded(b, c, d2),
        d1 <= d,
        d2 <= d,
    ensures
        grows_bounded(a, c, d),
{
    assert forall|i: int| 0 <= i < c.len() implies (#[trigger] c[i] == a[i] || match c[i] {
        Some(e) => e.depth <= d,
        None => false,
    }) by {
        assert(b[i] == a[i] || match b[i] {
            Some(e) => e.depth <= d1,
            None => false,
        });
    }
}

/// A store is found again: after `put_spec(s, e)`, a lookup of `e.key`
/// yields `e` whenever its slot was free or the replacement policy admits
/// `e`; in particular a store over the same fingerprint always overwrites.
pub proof fn lemma_put_then_get(s: Seq<Option<Entry>>, e: Entry)
    requires
        s.len() >= 1,
        match s[slot_index(e.key, s.len() as int)] {
            None => true,
            Some(old_e) => replaces(e, old_e),
        },
    ensures
        lookup_spec(put_spec(s, e), e.key) == Some(e),
{
    let i = slot_index(e.key, s.len() as int);
    assert(put_spec(s, e)[i] == Some(e));
}

/// The largest power of two not exceeding `n` (one for `n` below two).
pub open spec fn pow2_floor(n: int) -> int
    decreases n,
{
    if n < 2 {
        1
    } else {
        2 * pow2_floor(n / 2)
    }
}

/// The power-of-two floor stays within `[1, max(n, 1)]`.
pub proof fn lemma_pow2_floor_bounds(n: int)
    ensures
        1 <= pow2_floor(n),
        n >= 1 ==> pow2_floor(n) <= n,
    decreases n,
{
    if n >= 2 {
        lemma_pow2_floor_bounds(n / 2);
    }
}

/// The slot count a capacity request of `n` entries yields: the request is
/// clamped to at least one and at most `0x1000_0000`, then rounded down to
/// a power of two.
pub open spec fn cap_slots(n: int) -> int {
    pow2_floor(
        if n < 1 {
            1
        } else if n > 0x1000_0000 {
            0x1000_0000
        } else {
            n
        },
    )
}

/// The slot count a capacity request of `mb` megabytes yields, at 40 bytes
/// per slot, with the megabyte count clamped.
pub open spec fn mb_slots(mb: int) -> int {
    cap_slots(
        (if mb > 2047 {
            2047
        } else {
            mb
        }) * 1048576 / 40,
    )
}

/// Compute the largest power of two not exceeding `n`.
fn pow2_floor_exec(n: usize) -> (r: usize)
    ensures
        r as int == pow2_floor(n as int),
        1 <= r,
        n >= 1 ==> r <= n,
    decreases n,
{
    if n < 2 {
        1
    } else {
        let h = pow2_floor_exec(n / 2);
        proof {
            lemma_pow2_floor_bounds(n as int / 2);
        }
        2 * h
    }
}

impl Tt {
    /// The slot contents.
    pub closed spec fn view(&self) -> Seq<Option<Entry>> {
        self.slots@
    }

    /// The current generation.
    pub closed spec fn spec_generation(&self) -> u32 {
        self.generation
    }

    /// Well-formedness: at least one slot, every entry well formed and
    /// filed under its own fingerprint.
    pub open spec fn wf(&self) -> bool {
        &&& self@.len() >= 1
        &&& forall|i: int|
            0 <= i < self@.len() ==> match #[trigger] self@[i] {
                Some(e) => entry_wf(e) && slot_index(e.key, self@.len() as int) == i,
                None => true,
            }
    }

    /// An empty table with the default capacity.
    pub fn new() -> (r: Tt)
        ensures
            r.wf(),
            r@.len() == 4096,
            forall|i: int| 0 <= i < r@.len() ==> #[trigger] r@[i] is None,
            r.spec_generation() == 0,
    {
        let mut slots: Vec<Option<Entry>> = Vec::new();
        let mut n: usize = 0;
        while n < 4096
            invariant
                n <= 4096,
                slots@.len() == n,
                forall|i: int| 0 <= i < n ==> #[trigger] slots@[i] is None,
            decreases 4096 - n,
        {
            slots.push(None);
            n = n + 1;
        }
        Tt { slots, generation: 0 }
    }

    /// Discard the contents and resize to `n` slots, clamped to at least
    /// one and rounded down to a power of two.
    pub fn set_capacity_entries(&mut self, n: usize)
        ensures
            final(self).wf(),
            final(self)@.len() as int == cap_slots(n as int),
            final(self)@.len() >= 1,
            forall|i: int| 0 <= i < final(self)@.len() ==> #[trigger] final(self)@[i] is None,
            final(self).spec_generation() == old(self).spec_generation(),
    {
        let want: usize = if n < 1 {
            1
        } else if n > 0x1000_0000 {
            0x1000_0000
        } else {
            n
        };
        let p2: usize = pow2_floor_exec(want);
        let mut slots: Vec<Option<Entry>> = Vec::new();
        let mut k: usize = 0;
        while k < p2
            invariant
                k <= p2,
                slots@.len() == k,
                forall|i: int| 0 <= i < k ==> #[trigger] slots@[i] is None,
            decreases p2 - k,
        {
            slots.push(None);
            k = k + 1;
        }
        self.slots = slots;
    }

    /// Resize (discarding contents) to the largest power-of-two slot count
    /// whose storage fits in `mb` megabytes, at 40 bytes per slot; invalid
    /// sizes are clamped.
    pub fn set_capacity_mb(&mut self, mb: usize)
        ensures
            final(self).wf(),
            final(self)@.len() as int == mb_slots(mb as int),
            final(self)@.len() >= 1,
            forall|i: int| 0 <= i < final(self)@.len() ==> #[trigger] final(self)@[i] is None,
            final(self).spec_generation() == old(self).spec_generation(),
    {
        let mbc: usize = if mb > 2047 {
            2047
        } else {
            mb
        };
        let entries: usize = mbc * 1048576 / 40;
        self.set_capacity_entries(entries);
    }

    /// Start a new search generation.
    pub fn new_generation(&mut self)
        ensures
            final(self)@ == old(self)@,
            final(self).spec_generation() as int == if old(self).spec_generation() == u32::MAX {
                u32::MAX as int
            } else {
                old(self).spec_generation() + 1
            },
    {
        if self.generation < u32::MAX {
            self.generation = self.generation + 1;
        }
    }

    /// The current generation, for stamping entries.
    pub fn generation(&self) -> (r: u32)
        ensures
            r == self.spec_generation(),
    {
        self.generation
    }

    /// Look up a fingerprint: answers only when the stored fingerprint
    /// matches exactly, so a collision or a torn slot reads as a miss.
    pub fn get(&self, key: u64) -> (r: Option<Entry>)
        requires
            self.wf(),
        ensures
            r == lookup_spec(self@, key),
            r matches Some(e) ==> entry_wf(e) && e.key == key,
    {
        let len = self.slots.len();
        let idx = (key % (len as u64)) as usize;
        match &self.slots[idx] {
            Some(e) => {
                if e.key == key {
                    Some(*e)
                } else {
                    None
                }
            },
            None => None,
        }
    }

    /// Install an entry at its fingerprint's slot, subject to the
    /// replacement policy.
    pub fn put(&mut self, e: Entry)
        requires
            old(self).wf(),
            entry_wf(e),
        ensures
            final(self).wf(),
            final(self)@ == put_spec(old(self)@, e),
            grows_bounded(old(self)@, final(self)@, e.depth as int),
            final(self).spec_generation() == old(self).spec_generation(),
    {
        let len = self.slots.len();
        let idx = (e.key % (len as u64)) as usize;
        let replace: bool = match &self.slots[idx] {
            None => true,
            Some(old_e) => e.key == old_e.key || e.gen > old_e.gen || (e.gen == old_e.gen
                && e.depth >= old_e.depth),
        };
        if replace {
            self.slots.set(idx, Some(e));
        }
    }
}

} // verus!
