//! The main searcher: iterative-deepening negamax with alpha-beta windows,
//! a shared transposition table, killer and history move ordering, check
//! extension, null-move pruning with a zugzwang guard, late-move reductions,
//! aspiration windows, and quiescence at the horizon.
//!
//! Scores are centipawns from the side to move's perspective and always lie
//! in `[-MATE_SCORE, MATE_SCORE]`. A best move reported at the root is
//! always one of the position's legal moves. After an aborted iteration at
//! depth `d`, the table holds no `Exact` entry of depth `d` or more.
use vstd::prelude::*;
use crate::search::board::{
    b_checkers, b_legal, b_moves, checkers_bb, extract_pos, legal_moves, mv_copy, mv_data, mv_of,
    mv_wf, null_move, play_move, pos_of, uci_of, uci_spec, Mv, Pos,
};
use crate::search::eval::{eval_pos_cp, eval_spec, DRAW_SCORE, MATE_SCORE};
use crate::search::order::{is_capture, order_moves, OrderCtx};
use crate::search::see::see_on_pos;
use crate::search::tt::{
    all_exact_le, dmax, grows_bounded, grows_exact_le, lemma_all_exact_grows,
    lemma_bounded_implies_exact, lemma_grows_exact_trans, lemma_grows_mono, lemma_grows_trans,
    lemma_put_exact, lookup_spec, Bound, Entry, Tt,
};
use crate::search::zobrist;

verus! {

/// The deepest ply the search will reach, extensions included.
pub const MAX_PLY: u32 = 128;

/// Which evaluator the searcher consults: bare material, or material with
/// piece-square terms.
#[derive(Clone, Copy, Debug)]
pub enum EvalMode {
    Material,
    Pst,
}

/// Caller-supplied search configuration.
#[derive(Clone, Copy, Debug)]
pub struct SearchParams {
    /// Maximum iterative-deepening depth; 0 means unbounded (stop on the
    /// node or time budget).
    pub depth: u32,
    /// When false, the search starts from an empty table.
    pub use_tt: bool,
    /// Optional node budget.
    pub max_nodes: Option<u64>,
    /// Optional wall-clock budget in milliseconds.
    pub movetime: Option<u64>,
    pub order_captures: bool,
    pub use_history: bool,
    pub use_killers: bool,
    pub use_lmr: bool,
    pub use_nullmove: bool,
    pub use_aspiration: bool,
    /// Initial aspiration half-window in centipawns.
    pub aspiration_window_cp: i32,
    /// Minimum remaining depth at which a null move is considered.
    pub null_min_depth: u32,
    /// Worker threads for root parallelism; this searcher runs its moves
    /// sequentially whatever the value, so results do not depend on it.
    pub threads: usize,
    /// Break move-ordering ties by a total order on moves, so that equal
    /// inputs traverse identically.
    pub deterministic: bool,
}

impl Default for SearchParams {
    /// Everything off: fixed depth 0, no budgets, no ordering heuristics.
    fn default() -> (r: SearchParams)
        ensures
            r.depth == 0,
            r.use_tt == false,
            r.max_nodes is None,
            r.movetime is None,
            r.order_captures == false,
            r.use_history == false,
            r.use_killers == false,
            r.use_lmr == false,
            r.use_nullmove == false,
            r.use_aspiration == false,
            r.aspiration_window_cp == 50,
            r.null_min_depth == 3,
            r.threads == 1,
            r.deterministic == false,
    {
        SearchParams {
            depth: 0,
            use_tt: false,
            max_nodes: None,
            movetime: None,
            order_captures: false,
            use_history: false,
            use_killers: false,
            use_lmr: false,
            use_nullmove: false,
            use_aspiration: false,
            aspiration_window_cp: 50,
            null_min_depth: 3,
            threads: 1,
            deterministic: false,
        }
    }
}

/// What a search hands back: the best move in long algebraic form (absent
/// only when the position has no legal move), its score in centipawns from
/// the root side to move's perspective, and the nodes examined.
#[derive(Clone, Debug)]
pub struct SearchResult {
    pub bestmove: Option<String>,
    pub score_cp: i32,
    pub nodes: u64,
}

/// Declares `std::time::Instant`, the monotonic timestamp behind the
/// wall-clock budget, as an opaque type.
#[verifier::external_type_specification]
#[verifier::external_body]
pub struct ExInstant(std::time::Instant);

/// Relies on `std::time::Instant::now`: an opaque monotonic timestamp.
pub assume_specification[ std::time::Instant::now ]() -> std::time::Instant;

/// Relies on `std::time::Instant::elapsed`: milliseconds since the
/// timestamp was taken. Nothing can be promised of a clock reading.
#[verifier::external_body]
fn elapsed_ms(t: &std::time::Instant) -> u64 {
    let ms = t.elapsed().as_millis();
    if ms > u64::MAX as u128 {
        u64::MAX
    } else {
        ms as u64
    }
}

/// Adjust a mate score for storage: push it away from zero by the ply, so
/// the stored distance counts from the entry's own position.
fn score_to_tt(s: i32, ply: u32) -> (r: i32)
    requires
        -MATE_SCORE <= s <= MATE_SCORE,
        ply <= MAX_PLY,
    ensures
        -MATE_SCORE <= r <= MATE_SCORE,
{
    if s > MATE_SCORE - 1000 {
        let t = s + ply as i32;
        if t > MATE_SCORE {
            MATE_SCORE
        } else {
            t
        }
    } else if s < -(MATE_SCORE - 1000) {
        let t = s - ply as i32;
        if t < -MATE_SCORE {
            -MATE_SCORE
        } else {
            t
        }
    } else {
        s
    }
}

/// The stored-to-node adjustment of a mate score, as a function.
pub open spec fn from_tt_spec(s: int, ply: int) -> int {
    if s > MATE_SCORE - 1000 {
        let t = s - ply;
        if t < -MATE_SCORE {
            -MATE_SCORE as int
        } else {
            t
        }
    } else if s < -(MATE_SCORE - 1000) {
        let t = s + ply;
        if t > MATE_SCORE {
            MATE_SCORE as int
        } else {
            t
        }
    } else {
        s
    }
}

/// Adjust a stored mate score for use at a node `ply` from the root.
fn score_from_tt(s: i32, ply: u32) -> (r: i32)
    requires
        -MATE_SCORE <= s <= MATE_SCORE,
        ply <= MAX_PLY,
    ensures
        -MATE_SCORE <= r <= MATE_SCORE,
        r as int == from_tt_spec(s as int, ply as int),
{
    if s > MATE_SCORE - 1000 {
        let t = s - ply as i32;
        if t < -MATE_SCORE {
            -MATE_SCORE
        } else {
            t
        }
    } else if s < -(MATE_SCORE - 1000) {
        let t = s + ply as i32;
        if t > MATE_SCORE {
            MATE_SCORE
        } else {
            t
        }
    } else {
        s
    }
}

/// The engine: a transposition table, per-search budgets, feature toggles,
/// and the killer and history tables.
pub struct Searcher {
    pub tt: Tt,
    pub nodes: u64,
    pub node_limit: u64,
    pub start: Option<std::time::Instant>,
    pub budget_ms: Option<u64>,
    pub eval_mode: EvalMode,
    pub order_captures: bool,
    pub use_history: bool,
    pub use_killers: bool,
    pub use_lmr: bool,
    pub use_nullmove: bool,
    pub use_aspiration: bool,
    pub aspiration_window_cp: i32,
    pub null_min_depth: u32,
    pub threads: usize,
    pub deterministic: bool,
    pub killers: Vec<(Option<Mv>, Option<Mv>)>,
    pub history: Vec<u32>,
    pub last_depth: u32,
}

impl Searcher {
    /// Structural well-formedness: a sound table and full-size killer and
    /// history tables.
    pub open spec fn wf(&self) -> bool {
        &&& self.tt.wf()
        &&& self.killers@.len() == MAX_PLY
        &&& self.history@.len() == 4096
    }

    /// Whether the evaluator includes piece-square terms.
    pub open spec fn spec_use_pst(&self) -> bool {
        match self.eval_mode {
            EvalMode::Pst => true,
            EvalMode::Material => false,
        }
    }

    /// The configuration fields a search never changes.
    pub open spec fn same_config(&self, other: &Searcher) -> bool {
        &&& self.node_limit == other.node_limit
        &&& self.budget_ms == other.budget_ms
        &&& self.eval_mode == other.eval_mode
        &&& self.order_captures == other.order_captures
        &&& self.use_history == other.use_history
        &&& self.use_killers == other.use_killers
        &&& self.use_lmr == other.use_lmr
        &&& self.use_nullmove == other.use_nullmove
        &&& self.use_aspiration == other.use_aspiration
        &&& self.aspiration_window_cp == other.aspiration_window_cp
        &&& self.null_min_depth == other.null_min_depth
        &&& self.threads == other.threads
        &&& self.deterministic == other.deterministic
        &&& self.last_depth == other.last_depth
        &&& self.tt@.len() == other.tt@.len()
    }

    /// A fresh searcher with empty tables.
    fn make_default() -> (r: Searcher)
        ensures
            r.wf(),
            r.tt@.len() >= 1,
            forall|i: int| 0 <= i < r.tt@.len() ==> #[trigger] r.tt@[i] is None,
            r.last_depth == 0,
    {
        let mut killers: Vec<(Option<Mv>, Option<Mv>)> = Vec::new();
        let mut i: usize = 0;
        while i < 128
            invariant
                i <= 128,
                killers@.len() == i,
            decreases 128 - i,
        {
            killers.push((None, None));
            i = i + 1;
        }
        let mut history: Vec<u32> = Vec::new();
        let mut j: usize = 0;
        while j < 4096
            invariant
                j <= 4096,
                history@.len() == j,
            decreases 4096 - j,
        {
            history.push(0);
            j = j + 1;
        }
        Searcher {
            tt: Tt::new(),
            nodes: 0,
            node_limit: u64::MAX,
            start: None,
            budget_ms: None,
            eval_mode: EvalMode::Pst,
            order_captures: true,
            use_history: true,
            use_killers: true,
            use_lmr: false,
            use_nullmove: false,
            use_aspiration: false,
            aspiration_window_cp: 50,
            null_min_depth: 3,
            threads: 1,
            deterministic: false,
            killers,
            history,
            last_depth: 0,
        }
    }

    /// Replace the table by an empty one whose power-of-two slot count is
    /// the largest fitting in `mb` megabytes; nothing else changes.
    pub fn set_tt_capacity_mb(&mut self, mb: usize)
        requires
            old(self).wf(),
        ensures
            final(self).wf(),
            final(self).tt@.len() as int == crate::search::tt::mb_slots(mb as int),
            forall|i: int| 0 <= i < final(self).tt@.len() ==> #[trigger] final(self).tt@[i] is None,
            final(self).tt.spec_generation() == 0,
            *final(self) == (Searcher { tt: final(self).tt, ..*old(self) }),
    {
        let mut tt = Tt::new();
        tt.set_capacity_mb(mb);
        self.tt = tt;
    }

    /// Choose the evaluator.
    pub fn set_eval_mode(&mut self, mode: EvalMode)
        requires
            old(self).wf(),
        ensures
            final(self).wf(),
            final(self).eval_mode == mode,
            *final(self) == (Searcher { eval_mode: mode, ..*old(self) }),
    {
        self.eval_mode = mode;
    }

    /// Toggle capture-first ordering.
    pub fn set_order_captures(&mut self, on: bool)
        requires
            old(self).wf(),
        ensures
            final(self).wf(),
            final(self).order_captures == on,
            *final(self) == (Searcher { order_captures: on, ..*old(self) }),
    {
        self.order_captures = on;
    }

    /// Toggle the history heuristic.
    pub fn set_use_history(&mut self, on: bool)
        requires
            old(self).wf(),
        ensures
            final(self).wf(),
            final(self).use_history == on,
            *final(self) == (Searcher { use_history: on, ..*old(self) }),
    {
        self.use_history = on;
    }

    /// Toggle killer-move ordering.
    pub fn set_use_killers(&mut self, on: bool)
        requires
            old(self).wf(),
        ensures
            final(self).wf(),
            final(self).use_killers == on,
            *final(self) == (Searcher { use_killers: on, ..*old(self) }),
    {
        self.use_killers = on;
    }

    /// Toggle late-move reductions.
    pub fn set_use_lmr(&mut self, on: bool)
        requires
            old(self).wf(),
        ensures
            final(self).wf(),
            final(self).use_lmr == on,
            *final(self) == (Searcher { use_lmr: on, ..*old(self) }),
    {
        self.use_lmr = on;
    }

    /// Toggle null-move pruning.
    pub fn set_use_nullmove(&mut self, on: bool)
        requires
            old(self).wf(),
        ensures
            final(self).wf(),
            final(self).use_nullmove == on,
            *final(self) == (Searcher { use_nullmove: on, ..*old(self) }),
    {
        self.use_nullmove = on;
    }

    /// Set the minimum remaining depth for null-move pruning.
    pub fn set_null_min_depth(&mut self, d: u32)
        requires
            old(self).wf(),
        ensures
            final(self).wf(),
            final(self).null_min_depth == d,
            *final(self) == (Searcher { null_min_depth: d, ..*old(self) }),
    {
        self.null_min_depth = d;
    }

    /// Toggle aspiration windows.
    pub fn set_use_aspiration(&mut self, on: bool)
        requires
            old(self).wf(),
        ensures
            final(self).wf(),
            final(self).use_aspiration == on,
            *final(self) == (Searcher { use_aspiration: on, ..*old(self) }),
    {
        self.use_aspiration = on;
    }

    /// Set the worker-thread count. The searcher traverses its root moves
    /// sequentially whatever the value, so results never depend on it.
    pub fn set_threads(&mut self, n: usize)
        requires
            old(self).wf(),
        ensures
            final(self).wf(),
            final(self).threads == if n < 1 {
                1usize
            } else {
                n
            },
            *final(self) == (Searcher {
                threads: if n < 1 {
                    1usize
                } else {
                    n
                },
                ..*old(self)
            }),
    {
        self.threads = if n < 1 {
            1
        } else {
            n
        };
    }

    /// Toggle the deterministic move-ordering tiebreak.
    pub fn set_deterministic(&mut self, on: bool)
        requires
            old(self).wf(),
        ensures
            final(self).wf(),
            final(self).deterministic == on,
            *final(self) == (Searcher { deterministic: on, ..*old(self) }),
    {
        self.deterministic = on;
    }

    /// The depth of the last completed iteration.
    pub fn last_depth(&self) -> (r: u32)
        ensures
            r == self.last_depth,
    {
        self.last_depth
    }

    /// Evaluate a position with the configured evaluator.
    fn eval_current(&self, pos: &Pos) -> (r: i32)
        ensures
            r == eval_spec(*pos, self.spec_use_pst()),
            -MATE_SCORE < r < MATE_SCORE,
    {
        let use_pst = match self.eval_mode {
            EvalMode::Pst => true,
            EvalMode::Material => false,
        };
        eval_pos_cp(pos, use_pst)
    }

    /// Whether a budget has run out: the node limit is reached or the
    /// deadline has passed.
    fn aborted_now(&self) -> (r: bool)
        ensures
            self.nodes >= self.node_limit ==> r,
    {
        if self.nodes >= self.node_limit {
            return true;
        }
        match (&self.start, &self.budget_ms) {
            (Some(t), Some(ms)) => elapsed_ms(t) >= *ms,
            _ => false,
        }
    }

    /// Quiescence: extend the horizon through captures (and through every
    /// evasion while in check) so that the returned score stands on a quiet
    /// position. The score is in `[-MATE_SCORE, MATE_SCORE]`; a moveless
    /// position answers the mate or draw score (or the static eval when a
    /// budget tripped), and out of check the answer is never below the
    /// stand-pat floor, the smaller of the static eval and beta.
    fn qsearch(&self, b: &cozy_chess::Board, alpha0: i32, beta: i32, ply: u32) -> (r: i32)
        requires
            self.wf(),
            -MATE_SCORE <= alpha0 < beta <= MATE_SCORE,
            ply <= MAX_PLY,
        ensures
            -MATE_SCORE <= r <= MATE_SCORE,
            b_moves(*b).len() == 0 ==> r as int == (if b_checkers(*b) != 0 {
                -MATE_SCORE + ply as int
            } else {
                0int
            }) || r as int == eval_spec(pos_of(*b), self.spec_use_pst()),
            b_moves(*b).len() > 0 && b_checkers(*b) == 0 ==> r as int >= (if eval_spec(
                pos_of(*b),
                self.spec_use_pst(),
            ) < beta as int {
                eval_spec(pos_of(*b), self.spec_use_pst())
            } else {
                beta as int
            }),
        decreases MAX_PLY - ply, 0int,
    {
        let mut alpha = alpha0;
        let pos = extract_pos(b);
        if ply >= MAX_PLY {
            return self.eval_current(&pos);
        }
        if self.aborted_now() {
            return self.eval_current(&pos);
        }
        let moves = legal_moves(b);
        if moves.len() == 0 {
            if pos.checkers != 0 {
                return -MATE_SCORE + ply as i32;
            } else {
                return DRAW_SCORE;
            }
        }
        let in_check = pos.checkers != 0;

        if in_check {
            // Explore every evasion; no stand-pat while in check.
            let mut i: usize = 0;
            while i < moves.len()
                invariant
                    self.wf(),
                    -MATE_SCORE <= alpha < beta <= MATE_SCORE,
                    ply < MAX_PLY,
                    moves@.map_values(|m: cozy_chess::Move| mv_data(m)) == b_moves(*b),
                decreases moves@.len() - i,
            {
                let m = &moves[i];
                proof {
                    assert(b_moves(*b)[i as int] == mv_data(moves@[i as int]));
                }
                match play_move(b, m) {
                    Some(child) => {
                        let score = -self.qsearch(&child, -beta, -alpha, ply + 1);
                        if score >= beta {
                            return beta;
                        }
                        if score > alpha {
                            alpha = score;
                        }
                    },
                    None => {},
                }
                i = i + 1;
            }
            return alpha;
        }

        // Stand pat.
        let stand = self.eval_current(&pos);
        if stand >= beta {
            return beta;
        }
        if stand > alpha {
            alpha = stand;
        }

        // Captures only, best victims first; skip clearly losing captures.
        let mut caps: Vec<cozy_chess::Move> = Vec::new();
        let mut i: usize = 0;
        while i < moves.len()
            invariant
                moves@.map_values(|m: cozy_chess::Move| mv_data(m)) == b_moves(*b),
                forall|q: int|
                    0 <= q < caps@.len() ==> b_moves(*b).contains(
                        mv_data(#[trigger] caps@[q]),
                    ) && mv_wf(mv_data(caps@[q])),
            decreases moves@.len() - i,
        {
            let md = mv_of(&moves[i]);
            proof {
                assert(b_moves(*b)[i as int] == mv_data(moves@[i as int]));
            }
            if is_capture(&pos, md) {
                let keep = match see_on_pos(&pos, md.from, md.to) {
                    Some(v) => v >= 0,
                    None => true,
                };
                if keep {
                    caps.push(mv_copy(&moves[i]));
                }
            }
            i = i + 1;
        }
        let ctx = OrderCtx {
            ttm: None,
            k0: None,
            k1: None,
            order_captures: true,
            use_killers: false,
            use_history: false,
            deterministic: self.deterministic,
        };
        let ordered = order_moves(&pos, &caps, &ctx, &self.history);
        let mut k: usize = 0;
        while k < ordered.len()
            invariant
                self.wf(),
                -MATE_SCORE <= alpha < beta <= MATE_SCORE,
                ply < MAX_PLY,
                stand as int == eval_spec(pos_of(*b), self.spec_use_pst()),
                stand <= alpha,
            decreases ordered@.len() - k,
        {
            let m = &ordered[k];
            match play_move(b, m) {
                Some(child) => {
                    let score = -self.qsearch(&child, -beta, -alpha, ply + 1);
                    if score >= beta {
                        return beta;
                    }
                    if score > alpha {
                        alpha = score;
                    }
                },
                None => {},
            }
            k = k + 1;
        }
        alpha
    }

    /// Null-move pruning: hand the opponent a free tempo and search the
    /// reply shallower with a zero-width window; if even that cannot bring
    /// the score below beta, answer beta. The step never fires while the
    /// side to move is in check, nor when it has nothing but pawns and the
    /// king (the zugzwang guard), nor when the static eval sits below beta:
    /// in each of those cases the searcher is left untouched.
    fn try_null_prune(&mut self, b: &cozy_chess::Board, pos: &Pos, depth1: u32, beta: i32, ply: u32) -> (r:
        Option<i32>)
        requires
            old(self).wf(),
            *pos == pos_of(*b),
            -MATE_SCORE < beta <= MATE_SCORE,
            1 <= depth1 <= MAX_PLY,
            ply < MAX_PLY,
        ensures
            final(self).wf(),
            old(self).same_config(final(self)),
            grows_bounded(old(self).tt@, final(self).tt@, dmax(depth1 as int - 1)),
            r matches Some(v) ==> v == beta,
            pos.checkers != 0 ==> *final(self) == *old(self) && r is None,
            ({
                let my = if pos.stm_white {
                    pos.white
                } else {
                    pos.black
                };
                my & (pos.knights | pos.bishops | pos.rooks | pos.queens) == 0
            }) ==> *final(self) == *old(self) && r is None,
            !old(self).use_nullmove ==> *final(self) == *old(self) && r is None,
        decreases MAX_PLY - ply, 0int,
    {
        if !self.use_nullmove || pos.checkers != 0 || depth1 < self.null_min_depth {
            return None;
        }
        let my: u64 = if pos.stm_white {
            pos.white
        } else {
            pos.black
        };
        if my & (pos.knights | pos.bishops | pos.rooks | pos.queens) == 0 {
            return None;
        }
        if self.eval_current(pos) < beta {
            return None;
        }
        match null_move(b) {
            Some(nb) => {
                let r_red: u32 = 2 + depth1 / 6;
                let nd: u32 = if depth1 > r_red {
                    depth1 - 1 - r_red
                } else {
                    0
                };
                let score = -self.alphabeta(&nb, nd, -beta, -beta + 1, ply + 1);
                proof {
                    lemma_grows_mono(
                        old(self).tt@,
                        self.tt@,
                        dmax(nd as int),
                        dmax(depth1 as int - 1),
                    );
                }
                if score >= beta {
                    Some(beta)
                } else {
                    None
                }
            },
            None => None,
        }
    }

    /// One negamax node: budget check, check extension, table probe,
    /// null-move pruning, ordered move loop with late-move reductions,
    /// killer and history updates on cutoff, and a table store gated on the
    /// budget check standing immediately before it.
    #[verifier::rlimit(100)]
    fn alphabeta(&mut self, b: &cozy_chess::Board, depth: u32, alpha0: i32, beta: i32, ply: u32) -> (r:
        i32)
        requires
            old(self).wf(),
            -MATE_SCORE <= alpha0 < beta <= MATE_SCORE,
            ply <= MAX_PLY,
            depth <= MAX_PLY,
        ensures
            final(self).wf(),
            -MATE_SCORE <= r <= MATE_SCORE,
            grows_bounded(old(self).tt@, final(self).tt@, dmax(depth as int)),
            old(self).same_config(final(self)),
            old(self).nodes >= old(self).node_limit ==> r as int == eval_spec(
                pos_of(*b),
                old(self).spec_use_pst(),
            ) && final(self).tt@ == old(self).tt@,
            b_moves(*b).len() == 0 ==> r as int == (if b_checkers(*b) != 0 {
                -MATE_SCORE + ply as int
            } else {
                0int
            }) || r as int == eval_spec(pos_of(*b), old(self).spec_use_pst()) || (lookup_spec(
                old(self).tt@,
                zobrist::zobrist_spec(pos_of(*b)),
            ) matches Some(e) && r as int == from_tt_spec(e.score as int, ply as int)),
        decreases MAX_PLY - ply, 1int,
    {
        if self.nodes < u64::MAX {
            self.nodes = self.nodes + 1;
        }
        let pos = extract_pos(b);
        if ply >= MAX_PLY {
            return self.eval_current(&pos);
        }
        if self.aborted_now() {
            // Tripped budget: answer with the static eval, store nothing.
            return self.eval_current(&pos);
        }
        let in_check = pos.checkers != 0;
        // Check extension at the horizon.
        let depth1: u32 = if depth == 0 && in_check {
            1
        } else {
            depth
        };
        proof {
            assert(dmax(depth1 as int) == dmax(depth as int));
        }
        if depth1 == 0 {
            return self.qsearch(b, alpha0, beta, ply);
        }
        let mut alpha = alpha0;
        let key = zobrist::compute(&pos);

        // Table probe: a deep-enough entry can answer outright.
        let mut ttm: Option<Mv> = None;
        match self.tt.get(key) {
            Some(e) => {
                if e.depth >= depth1 {
                    let s = score_from_tt(e.score, ply);
                    match e.bound {
                        Bound::Exact => {
                            return s;
                        },
                        Bound::Lower => {
                            if s >= beta {
                                return s;
                            }
                        },
                        Bound::Upper => {
                            if s <= alpha {
                                return s;
                            }
                        },
                    }
                }
                match (e.best, e.bound) {
                    (Some(m), Bound::Exact) => {
                        ttm = Some(m);
                    },
                    _ => {},
                }
            },
            None => {},
        }

        let moves = legal_moves(b);
        if moves.len() == 0 {
            if in_check {
                return -MATE_SCORE + ply as i32;
            } else {
                return DRAW_SCORE;
            }
        }

        match self.try_null_prune(b, &pos, depth1, beta, ply) {
            Some(v) => {
                proof {
                    lemma_grows_mono(
                        old(self).tt@,
                        self.tt@,
                        dmax(depth1 as int - 1),
                        dmax(depth as int),
                    );
                }
                return v;
            },
            None => {
                proof {
                    lemma_grows_mono(
                        old(self).tt@,
                        self.tt@,
                        dmax(depth1 as int - 1),
                        dmax(depth as int),
                    );
                }
            },
        }

        let (k0, k1) = if self.use_killers {
            let ks = self.killers[ply as usize];
            (ks.0, ks.1)
        } else {
            (None, None)
        };
        let ctx = OrderCtx {
            ttm,
            k0,
            k1,
            order_captures: self.order_captures,
            use_killers: self.use_killers,
            use_history: self.use_history,
            deterministic: self.deterministic,
        };
        let ordered = order_moves(&pos, &moves, &ctx, &self.history);

        let mut best: i32 = -MATE_SCORE;
        let mut best_mv: Option<Mv> = None;
        let mut i: usize = 0;
        while i < ordered.len()
            invariant_except_break
                alpha < beta,
            invariant
                self.wf(),
                old(self).same_config(self),
                grows_bounded(old(self).tt@, self.tt@, dmax(depth as int)),
                -MATE_SCORE <= alpha <= MATE_SCORE,
                -MATE_SCORE < beta <= MATE_SCORE,
                alpha0 <= alpha,
                -MATE_SCORE <= best <= MATE_SCORE,
                best_mv matches Some(m) ==> mv_wf(m),
                ply < MAX_PLY,
                1 <= depth1 <= MAX_PLY,
                dmax(depth1 as int) == dmax(depth as int),
                forall|q: int| 0 <= q < ordered@.len() ==> mv_wf(mv_data(#[trigger] ordered@[q])),
            decreases ordered@.len() - i,
        {
            let m = &ordered[i];
            let md = mv_of(m);
            match play_move(b, m) {
                Some(child) => {
                    let mut score: i32;
                    let mut searched_full = false;
                    // Late-move reduction: a quiet, late, non-check move is
                    // first tried shallower with a null window.
                    let quiet = !is_capture(&pos, md);
                    let is_killer = match (k0, k1) {
                        (Some(a), _) if a == md => true,
                        (_, Some(c)) if c == md => true,
                        _ => false,
                    };
                    if self.use_lmr && depth1 >= 3 && i >= 3 && !in_check && quiet && md.promo == 0
                        && !is_killer && checkers_bb(&child) == 0 {
                        let r_lmr: u32 = if i >= 6 && depth1 >= 5 {
                            2
                        } else {
                            1
                        };
                        let nd = depth1 - 1 - r_lmr;
                        let ghost tt_pre = self.tt@;
                        score = -self.alphabeta(&child, nd, -alpha - 1, -alpha, ply + 1);
                        proof {
                            lemma_grows_mono(tt_pre, self.tt@, dmax(nd as int), dmax(depth as int));
                            lemma_grows_trans(
                                old(self).tt@,
                                tt_pre,
                                self.tt@,
                                dmax(depth as int),
                                dmax(depth as int),
                                dmax(depth as int),
                            );
                        }
                        if score <= alpha {
                            searched_full = true;
                        }
                    } else {
                        score = 0;
                    }
                    if !searched_full {
                        let ghost tt_pre = self.tt@;
                        score = -self.alphabeta(&child, depth1 - 1, -beta, -alpha, ply + 1);
                        proof {
                            lemma_grows_mono(
                                tt_pre,
                                self.tt@,
                                dmax(depth1 as int - 1),
                                dmax(depth as int),
                            );
                            lemma_grows_trans(
                                old(self).tt@,
                                tt_pre,
                                self.tt@,
                                dmax(depth as int),
                                dmax(depth as int),
                                dmax(depth as int),
                            );
                        }
                    }
                    if score > best {
                        best = score;
                        best_mv = Some(md);
                    }
                    if best > alpha {
                        alpha = best;
                    }
                    if alpha >= beta {
                        // Cutoff bookkeeping: killers and history reward the
                        // quiet move that refuted this line.
                        if quiet && self.use_killers {
                            let old_k = self.killers[ply as usize];
                            self.killers.set(ply as usize, (Some(md), old_k.0));
                        }
                        if quiet && self.use_history {
                            let idx = (md.from as usize) * 64 + (md.to as usize);
                            let cur = self.history[idx];
                            proof {
                                assert((depth1 as int) * (depth1 as int) <= 16384)
                                    by (nonlinear_arith)
                                    requires
                                        1 <= depth1 <= 128,
                                ;
                            }
                            let bump = depth1 * depth1;
                            let nv = if cur > 1000000 {
                                cur
                            } else {
                                cur + bump
                            };
                            self.history.set(idx, nv);
                        }
                        break ;
                    }
                },
                None => {},
            }
            i = i + 1;
        }

        let bound = if best <= alpha0 {
            Bound::Upper
        } else if best >= beta {
            Bound::Lower
        } else {
            Bound::Exact
        };
        // The budget check stands immediately before the store: an aborted
        // subtree writes nothing.
        if !self.aborted_now() {
            let e = Entry {
                key,
                depth: depth1,
                score: score_to_tt(best, ply),
                best: best_mv,
                bound,
                gen: self.tt.generation(),
            };
            let ghost tt_pre = self.tt@;
            self.tt.put(e);
            proof {
                lemma_grows_mono(tt_pre, self.tt@, e.depth as int, dmax(depth as int));
                lemma_grows_trans(
                    old(self).tt@,
                    tt_pre,
                    self.tt@,
                    dmax(depth as int),
                    dmax(depth as int),
                    dmax(depth as int),
                );
            }
        }
        best
    }

    /// One full-width pass over the root moves at a fixed depth. Returns
    /// the best score, the best move, and whether the pass completed within
    /// its budget; an incomplete pass stores nothing at the root, so no
    /// `Exact` entry of this depth appears for it.
    #[verifier::rlimit(100)]
    fn search_root(&mut self, b: &cozy_chess::Board, depth: u32, alpha0: i32, beta: i32) -> (r: (
        i32,
        Option<Mv>,
        bool,
    ))
        requires
            old(self).wf(),
            -MATE_SCORE <= alpha0 < beta <= MATE_SCORE,
            1 <= depth <= 64,
        ensures
            final(self).wf(),
            old(self).same_config(final(self)),
            -MATE_SCORE <= r.0 <= MATE_SCORE,
            r.1 matches Some(m) ==> b_moves(*b).contains(m) && mv_wf(m),
            r.2 ==> ((r.1 is Some) <==> b_moves(*b).len() > 0),
            grows_bounded(old(self).tt@, final(self).tt@, dmax(depth as int)),
            !(r.2 && alpha0 < r.0 < beta) ==> grows_exact_le(
                old(self).tt@,
                final(self).tt@,
                dmax(depth as int - 1),
            ),
    {
        let pos = extract_pos(b);
        let in_check = pos.checkers != 0;
        let moves = legal_moves(b);
        if moves.len() == 0 {
            let sc = if in_check {
                -MATE_SCORE
            } else {
                DRAW_SCORE
            };
            return (sc, None, true);
        }
        let key = zobrist::compute(&pos);
        let mut ttm: Option<Mv> = None;
        match self.tt.get(key) {
            Some(e) => {
                match (e.best, e.bound) {
                    (Some(m), Bound::Exact) => {
                        ttm = Some(m);
                    },
                    _ => {},
                }
            },
            None => {},
        }
        let (k0, k1) = if self.use_killers {
            let ks = self.killers[0];
            (ks.0, ks.1)
        } else {
            (None, None)
        };
        let ctx = OrderCtx {
            ttm,
            k0,
            k1,
            order_captures: self.order_captures,
            use_killers: self.use_killers,
            use_history: self.use_history,
            deterministic: self.deterministic,
        };
        let ordered = order_moves(&pos, &moves, &ctx, &self.history);
        proof {
            assert forall|q: int| 0 <= q < ordered@.len() implies b_legal(
                *b,
                #[trigger] ordered@[q],
            ) by {
                assert(moves@.contains(ordered@[q]));
                let j = choose|j: int| 0 <= j < moves@.len() && moves@[j] == ordered@[q];
                assert(b_legal(*b, moves@[j]));
            }
        }

        let mut alpha = alpha0;
        let mut best: i32 = -MATE_SCORE;
        let mut best_mv: Option<Mv> = None;
        let mut completed = true;
        let mut searched_any = false;
        let mut stop = false;
        let mut i: usize = 0;
        while i < ordered.len() && !stop
            invariant
                self.wf(),
                old(self).same_config(self),
                grows_bounded(old(self).tt@, self.tt@, dmax(depth as int - 1)),
                -MATE_SCORE <= alpha <= MATE_SCORE,
                !stop ==> alpha < beta,
                -MATE_SCORE < beta <= MATE_SCORE,
                alpha0 <= alpha,
                -MATE_SCORE <= best <= MATE_SCORE,
                best_mv matches Some(m) ==> b_moves(*b).contains(m) && mv_wf(m),
                searched_any ==> best_mv is Some,
                i > 0 ==> searched_any || !completed,
                completed && stop ==> searched_any,
                1 <= depth <= 64,
                moves@.map_values(|m: cozy_chess::Move| mv_data(m)) == b_moves(*b),
                forall|q: int| 0 <= q < ordered@.len() ==> b_legal(*b, #[trigger] ordered@[q]),
            decreases ordered@.len() - i, 1 - (stop as int),
        {
            if self.aborted_now() {
                completed = false;
                stop = true;
            } else {
                let m = &ordered[i];
                let md = mv_of(m);
                match play_move(b, m) {
                    Some(child) => {
                        let ghost tt_pre = self.tt@;
                        let score = -self.alphabeta(&child, depth - 1, -beta, -alpha, 1);
                        proof {
                            lemma_grows_trans(
                                old(self).tt@,
                                tt_pre,
                                self.tt@,
                                dmax(depth as int - 1),
                                dmax(depth as int - 1),
                                dmax(depth as int - 1),
                            );
                        }
                        let first = !searched_any;
                        searched_any = true;
                        if score > best || first {
                            best = score;
                            best_mv = Some(md);
                        }
                        if best > alpha {
                            alpha = best;
                        }
                        if alpha >= beta {
                            stop = true;
                        }
                    },
                    None => {
                        // Unreachable: every ordered move is one of the
                        // position's legal moves, so playing it succeeds.
                        proof {
                            assert(b_legal(*b, ordered@[i as int]));
                            assert(false);
                        }
                    },
                }
                i = i + 1;
            }
        }
        if self.aborted_now() {
            completed = false;
        }
        proof {
            lemma_bounded_implies_exact(old(self).tt@, self.tt@, dmax(depth as int - 1));
        }
        if completed {
            proof {
                if b_moves(*b).len() > 0 {
                    assert(ordered@.len() > 0);
                }
            }
            let bound = if best <= alpha0 {
                Bound::Upper
            } else if best >= beta {
                Bound::Lower
            } else {
                Bound::Exact
            };
            let e = Entry {
                key,
                depth,
                score: score_to_tt(best, 0),
                best: best_mv,
                bound,
                gen: self.tt.generation(),
            };
            let ghost tt_pre = self.tt@;
            self.tt.put(e);
            proof {
                lemma_grows_mono(tt_pre, self.tt@, e.depth as int, dmax(depth as int));
                lemma_grows_mono(
                    old(self).tt@,
                    tt_pre,
                    dmax(depth as int - 1),
                    dmax(depth as int),
                );
                lemma_grows_trans(
                    old(self).tt@,
                    tt_pre,
                    self.tt@,
                    dmax(depth as int),
                    dmax(depth as int),
                    dmax(depth as int),
                );
                if !(alpha0 < best < beta) {
                    lemma_put_exact(tt_pre, e, dmax(depth as int - 1));
                    lemma_grows_exact_trans(
                        old(self).tt@,
                        tt_pre,
                        self.tt@,
                        dmax(depth as int - 1),
                        dmax(depth as int - 1),
                        dmax(depth as int - 1),
                    );
                }
            }
            (best, best_mv, true)
        } else {
            proof {
                lemma_grows_mono(
                    old(self).tt@,
                    self.tt@,
                    dmax(depth as int - 1),
                    dmax(depth as int),
                );
            }
            (best, best_mv, false)
        }
    }

    /// The table move the orderer would trust for this position: the best
    /// move of an `Exact` entry.
    pub open spec fn spec_ttm(&self, b: cozy_chess::Board) -> Option<Mv> {
        match lookup_spec(self.tt@, crate::search::zobrist::zobrist_spec(pos_of(b))) {
            Some(e) => match (e.best, e.bound) {
                (Some(m), Bound::Exact) => Some(m),
                _ => None,
            },
            None => None,
        }
    }

    /// The ordering context a root traversal of `b` uses.
    pub open spec fn root_ctx(&self, b: cozy_chess::Board) -> OrderCtx
        recommends
            self.wf(),
    {
        OrderCtx {
            ttm: self.spec_ttm(b),
            k0: if self.use_killers {
                self.killers@[0].0
            } else {
                None
            },
            k1: if self.use_killers {
                self.killers@[0].1
            } else {
                None
            },
            order_captures: self.order_captures,
            use_killers: self.use_killers,
            use_history: self.use_history,
            deterministic: self.deterministic,
        }
    }

    /// Search with the given configuration: iterative deepening with
    /// aspiration windows, committing only completed iterations.
    ///
    /// The score always lies in `[-MATE_SCORE, MATE_SCORE]`; the best move
    /// is present exactly when the position has a legal move, and is then
    /// the long-algebraic form of one of them. `Exact` table entries never
    /// exceed the depth of the last completed iteration, so an aborted
    /// iteration leaves no `Exact` entry at its own depth.
    pub fn search_with_params(&mut self, board: &cozy_chess::Board, params: SearchParams) -> (r:
        SearchResult)
        requires
            old(self).wf(),
        ensures
            final(self).wf(),
            -MATE_SCORE <= r.score_cp <= MATE_SCORE,
            (r.bestmove is Some) <==> b_moves(*board).len() > 0,
            r.bestmove matches Some(s) ==> exists|i: int|
                0 <= i < b_moves(*board).len() && s@ == uci_spec(#[trigger] b_moves(*board)[i]),
            r.nodes == final(self).nodes,
            b_moves(*board).len() == 0 ==> r.score_cp as int == (if b_checkers(*board) != 0 {
                -MATE_SCORE as int
            } else {
                0int
            }),
            b_moves(*board).len() > 0 && final(self).last_depth == 0 ==> (r.bestmove matches Some(
                s,
            ) && s@ == uci_spec(b_moves(*board)[0]) && r.score_cp as int == eval_spec(
                pos_of(*board),
                final(self).spec_use_pst(),
            )),
            params.use_tt ==> grows_exact_le(
                old(self).tt@,
                final(self).tt@,
                dmax(final(self).last_depth as int),
            ),
            !params.use_tt ==> all_exact_le(final(self).tt@, dmax(final(self).last_depth as int)),
    {
        self.order_captures = params.order_captures;
        self.use_history = params.use_history;
        self.use_killers = params.use_killers;
        self.use_lmr = params.use_lmr;
        self.use_nullmove = params.use_nullmove;
        self.use_aspiration = params.use_aspiration;
        self.aspiration_window_cp = if params.aspiration_window_cp < 1 {
            50
        } else {
            params.aspiration_window_cp
        };
        self.null_min_depth = if params.null_min_depth < 1 {
            1
        } else {
            params.null_min_depth
        };
        self.threads = if params.threads < 1 {
            1
        } else {
            params.threads
        };
        self.deterministic = params.deterministic;
        self.nodes = 0;
        self.node_limit = match params.max_nodes {
            Some(n) => n,
            None => u64::MAX,
        };
        match params.movetime {
            Some(ms) => {
                self.start = Some(std::time::Instant::now());
                self.budget_ms = Some(ms);
            },
            None => {
                self.start = None;
                self.budget_ms = None;
            },
        }
        if !params.use_tt {
            self.tt = Tt::new();
        }
        // Killers start empty each top-level search.
        let mut p: usize = 0;
        while p < 128
            invariant
                old(self).wf(),
                self.killers@.len() == MAX_PLY,
                self.history@.len() == 4096,
                params.use_tt ==> self.tt == old(self).tt,
                !params.use_tt ==> forall|q: int|
                    0 <= q < self.tt@.len() ==> #[trigger] self.tt@[q] is None,
                self.tt.wf(),
            decreases 128 - p,
        {
            self.killers.set(p, (None, None));
            p = p + 1;
        }
        self.last_depth = 0;
        let ghost tt_start = self.tt@;

        let root_moves = legal_moves(board);
        if root_moves.len() == 0 {
            let pos = extract_pos(board);
            let sc = if pos.checkers != 0 {
                -MATE_SCORE
            } else {
                DRAW_SCORE
            };
            return SearchResult { bestmove: None, score_cp: sc, nodes: self.nodes };
        }
        let max_depth: u32 = if params.depth == 0 {
            64
        } else if params.depth > 64 {
            64
        } else {
            params.depth
        };

        let mut best_sc: i32 = 0;
        let mut best_mv: Option<Mv> = None;
        let mut d: u32 = 1;
        let mut done = false;
        while d <= max_depth && !done
            invariant
                self.wf(),
                1 <= d <= 65,
                max_depth <= 64,
                grows_exact_le(tt_start, self.tt@, dmax(self.last_depth as int)),
                best_mv matches Some(m) ==> b_moves(*board).contains(m) && mv_wf(m),
                (best_mv is Some) == (self.last_depth > 0),
                -MATE_SCORE <= best_sc <= MATE_SCORE,
                !done ==> self.last_depth + 1 == d,
                self.last_depth <= 64,
                params.use_tt ==> tt_start == old(self).tt@,
                !params.use_tt ==> forall|q: int|
                    0 <= q < tt_start.len() ==> #[trigger] tt_start[q] is None,
                root_moves@.map_values(|m: cozy_chess::Move| mv_data(m)) == b_moves(*board),
                root_moves@.len() > 0,
            decreases 65 - d, 1 - (done as int),
        {
            self.tt.new_generation();
            let mut w: i32 = if self.aspiration_window_cp < 1 {
                50
            } else if self.aspiration_window_cp > 30000 {
                30000
            } else {
                self.aspiration_window_cp
            };
            let use_asp = self.use_aspiration && self.last_depth > 0;
            let mut attempts: u32 = 0;
            let mut accepted = false;
            let mut aborted = false;
            let mut cand_sc: i32 = 0;
            let mut cand_mv: Option<Mv> = None;
            while attempts < 40 && !accepted && !aborted
                invariant
                    self.wf(),
                    1 <= d <= 64,
                    self.last_depth + 1 == d,
                    1 <= w <= 60000,
                    -MATE_SCORE <= best_sc <= MATE_SCORE,
                    grows_exact_le(
                        tt_start,
                        self.tt@,
                        if accepted {
                            dmax(d as int)
                        } else {
                            dmax(self.last_depth as int)
                        },
                    ),
                    accepted ==> (cand_mv matches Some(m) && b_moves(*board).contains(m) && mv_wf(
                        m,
                    )),
                    accepted ==> -MATE_SCORE <= cand_sc <= MATE_SCORE,
                    root_moves@.map_values(|m: cozy_chess::Move| mv_data(m)) == b_moves(*board),
                    root_moves@.len() > 0,
                decreases 40 - attempts,
            {
                attempts = attempts + 1;
                let (a, bw): (i32, i32) = if use_asp {
                    let lo = if best_sc - w < -MATE_SCORE {
                        -MATE_SCORE
                    } else {
                        best_sc - w
                    };
                    let hi = if best_sc + w > MATE_SCORE {
                        MATE_SCORE
                    } else {
                        best_sc + w
                    };
                    (lo, hi)
                } else {
                    (-MATE_SCORE, MATE_SCORE)
                };
                let ghost tt_pre = self.tt@;
                let (sc, mv, completed) = self.search_root(board, d, a, bw);
                if !completed {
                    aborted = true;
                    proof {
                        lemma_grows_exact_trans(
                            tt_start,
                            tt_pre,
                            self.tt@,
                            dmax(self.last_depth as int),
                            dmax(d as int - 1),
                            dmax(self.last_depth as int),
                        );
                    }
                } else {
                    let fail_low = sc <= a && a > -MATE_SCORE;
                    let fail_high = sc >= bw && bw < MATE_SCORE;
                    if fail_low || fail_high {
                        proof {
                            lemma_grows_exact_trans(
                                tt_start,
                                tt_pre,
                                self.tt@,
                                dmax(self.last_depth as int),
                                dmax(d as int - 1),
                                dmax(self.last_depth as int),
                            );
                        }
                        w = if w > 30000 {
                            60000
                        } else {
                            w * 2
                        };
                    } else {
                        cand_sc = sc;
                        cand_mv = mv;
                        accepted = true;
                        proof {
                            if a < sc < bw {
                                lemma_bounded_implies_exact(tt_pre, self.tt@, dmax(d as int));
                                lemma_grows_exact_trans(
                                    tt_start,
                                    tt_pre,
                                    self.tt@,
                                    dmax(self.last_depth as int),
                                    dmax(d as int),
                                    dmax(d as int),
                                );
                            } else {
                                lemma_grows_exact_trans(
                                    tt_start,
                                    tt_pre,
                                    self.tt@,
                                    dmax(self.last_depth as int),
                                    dmax(d as int - 1),
                                    dmax(d as int),
                                );
                            }
                        }
                    }
                }
            }
            if accepted {
                best_sc = cand_sc;
                best_mv = cand_mv;
                self.last_depth = d;
                if best_sc > MATE_SCORE - 256 || best_sc < -(MATE_SCORE - 256) {
                    done = true;
                }
                if self.aborted_now() {
                    done = true;
                }
                d = d + 1;
            } else {
                done = true;
            }
        }

        proof {
            if !params.use_tt {
                assert(all_exact_le(tt_start, dmax(self.last_depth as int)));
                lemma_all_exact_grows(tt_start, self.tt@, dmax(self.last_depth as int));
            }
        }
        let result: SearchResult = match best_mv {
            Some(m) => {
                let s = uci_of(m);
                proof {
                    let i = choose|i: int|
                        0 <= i < b_moves(*board).len() && b_moves(*board)[i] == m;
                    assert(s@ == uci_spec(b_moves(*board)[i]));
                }
                SearchResult { bestmove: Some(s), score_cp: best_sc, nodes: self.nodes }
            },
            None => {
                // The budget ran out before depth one finished: answer with
                // the first legal move and the static eval.
                let pos = extract_pos(board);
                let m0 = mv_of(&root_moves[0]);
                proof {
                    assert(b_moves(*board)[0] == mv_data(root_moves@[0]));
                }
                let s = uci_of(m0);
                proof {
                    assert(s@ == uci_spec(b_moves(*board)[0]));
                }
                SearchResult {
                    bestmove: Some(s),
                    score_cp: self.eval_current(&pos),
                    nodes: self.nodes,
                }
            },
        };
        result
    }

    /// Search to a fixed depth with a full window and the searcher's
    /// current settings.
    pub fn search_depth(&mut self, board: &cozy_chess::Board, depth: u32) -> (r: SearchResult)
        requires
            old(self).wf(),
        ensures
            final(self).wf(),
            -MATE_SCORE <= r.score_cp <= MATE_SCORE,
            r.bestmove matches Some(s) ==> exists|i: int|
                0 <= i < b_moves(*board).len() && s@ == uci_spec(#[trigger] b_moves(*board)[i]),
            (r.bestmove is Some) <==> b_moves(*board).len() > 0,
            b_moves(*board).len() == 0 ==> r.score_cp as int == (if b_checkers(*board) != 0 {
                -MATE_SCORE as int
            } else {
                0int
            }),
    {
        let d: u32 = if depth < 1 {
            1
        } else if depth > 64 {
            64
        } else {
            depth
        };
        let root_moves = legal_moves(board);
        if root_moves.len() == 0 {
            let pos = extract_pos(board);
            let sc = if pos.checkers != 0 {
                -MATE_SCORE
            } else {
                DRAW_SCORE
            };
            return SearchResult { bestmove: None, score_cp: sc, nodes: self.nodes };
        }
        self.tt.new_generation();
        let (sc, mv, completed) = self.search_root(board, d, -MATE_SCORE, MATE_SCORE);
        if completed {
            self.last_depth = d;
        }
        match mv {
            Some(m) => {
                let s = uci_of(m);
                proof {
                    let i = choose|i: int|
                        0 <= i < b_moves(*board).len() && b_moves(*board)[i] == m;
                    assert(s@ == uci_spec(b_moves(*board)[i]));
                }
                SearchResult { bestmove: Some(s), score_cp: sc, nodes: self.nodes }
            },
            None => {
                let pos = extract_pos(board);
                let m0 = mv_of(&root_moves[0]);
                proof {
                    assert(b_moves(*board)[0] == mv_data(root_moves@[0]));
                }
                let s = uci_of(m0);
                proof {
                    assert(s@ == uci_spec(b_moves(*board)[0]));
                }
                SearchResult {
                    bestmove: Some(s),
                    score_cp: self.eval_current(&pos),
                    nodes: self.nodes,
                }
            },
        }
    }

    /// Search under a wall-clock budget in milliseconds, using the
    /// searcher's configured heuristics; depth 0 means unbounded.
    pub fn search_movetime(&mut self, board: &cozy_chess::Board, millis: u64, depth: u32) -> (r: (
        Option<String>,
        i32,
        u64,
    ))
        requires
            old(self).wf(),
        ensures
            final(self).wf(),
            -MATE_SCORE <= r.1 <= MATE_SCORE,
            (r.0 is Some) <==> b_moves(*board).len() > 0,
            r.0 matches Some(s) ==> exists|i: int|
                0 <= i < b_moves(*board).len() && s@ == uci_spec(#[trigger] b_moves(*board)[i]),
    {
        let p = SearchParams {
            depth,
            use_tt: true,
            max_nodes: None,
            movetime: Some(millis),
            order_captures: self.order_captures,
            use_history: self.use_history,
            use_killers: self.use_killers,
            use_lmr: self.use_lmr,
            use_nullmove: self.use_nullmove,
            use_aspiration: self.use_aspiration,
            aspiration_window_cp: self.aspiration_window_cp,
            null_min_depth: self.null_min_depth,
            threads: self.threads,
            deterministic: self.deterministic,
        };
        let r = self.search_with_params(board, p);
        (r.bestmove, r.score_cp, r.nodes)
    }

    /// Quiescence score of a position over the full window: the test hook
    /// for the horizon evaluation.
    pub fn qsearch_eval_cp(&mut self, board: &cozy_chess::Board) -> (r: i32)
        requires
            old(self).wf(),
        ensures
            final(self).wf(),
            *final(self) == *old(self),
            -MATE_SCORE <= r <= MATE_SCORE,
            b_moves(*board).len() == 0 ==> r as int == (if b_checkers(*board) != 0 {
                -MATE_SCORE as int
            } else {
                0int
            }) || r as int == eval_spec(pos_of(*board), old(self).spec_use_pst()),
            b_moves(*board).len() > 0 && b_checkers(*board) == 0 ==> r as int >= eval_spec(
                pos_of(*board),
                old(self).spec_use_pst(),
            ),
    {
        self.qsearch(board, -MATE_SCORE, MATE_SCORE, 0)
    }

    /// Diagnostic read of the table entry for a position: its depth and
    /// bound kind, if the position is present.
    pub fn tt_probe(&self, board: &cozy_chess::Board) -> (r: Option<(u32, Bound)>)
        requires
            self.wf(),
        ensures
            r == match lookup_spec(
                self.tt@,
                crate::search::zobrist::zobrist_spec(pos_of(*board)),
            ) {
                Some(e) => Some((e.depth, e.bound)),
                None => None,
            },
    {
        let pos = extract_pos(board);
        let key = zobrist::compute(&pos);
        match self.tt.get(key) {
            Some(e) => Some((e.depth, e.bound)),
            None => None,
        }
    }

    /// The first `limit` moves of the position in the orderer's traversal
    /// order, under the searcher's current settings: the test hook exposing
    /// the orderer.
    pub fn debug_order_for_parent(&self, board: &cozy_chess::Board, limit: usize) -> (r: Vec<
        cozy_chess::Move,
    >)
        requires
            self.wf(),
        ensures
            r@.map_values(|m: cozy_chess::Move| mv_data(m)) == crate::search::order::order_spec(
                pos_of(*board),
                b_moves(*board),
                self.root_ctx(*board),
                self.history@,
            ).take(
                if limit < b_moves(*board).len() {
                    limit as int
                } else {
                    b_moves(*board).len() as int
                },
            ),
            forall|k: int|
                0 <= k < r@.len() ==> b_moves(*board).contains(mv_data(#[trigger] r@[k])),
    {
        let pos = extract_pos(board);
        let moves = legal_moves(board);
        let key = zobrist::compute(&pos);
        let mut ttm: Option<Mv> = None;
        match self.tt.get(key) {
            Some(e) => {
                match (e.best, e.bound) {
                    (Some(m), Bound::Exact) => {
                        ttm = Some(m);
                    },
                    _ => {},
                }
            },
            None => {},
        }
        let (k0, k1) = if self.use_killers {
            let ks = self.killers[0];
            (ks.0, ks.1)
        } else {
            (None, None)
        };
        let ctx = OrderCtx {
            ttm,
            k0,
            k1,
            order_captures: self.order_captures,
            use_killers: self.use_killers,
            use_history: self.use_history,
            deterministic: self.deterministic,
        };
        proof {
            assert(ctx == self.root_ctx(*board));
        }
        let ordered = order_moves(&pos, &moves, &ctx, &self.history);
        let n_take: usize = if limit < ordered.len() {
            limit
        } else {
            ordered.len()
        };
        let mut out: Vec<cozy_chess::Move> = Vec::new();
        let mut k: usize = 0;
        while k < n_take
            invariant
                k <= n_take,
                n_take <= ordered@.len(),
                out@ =~= ordered@.take(k as int),
            decreases n_take - k,
        {
            out.push(mv_copy(&ordered[k]));
            proof {
                assert(out@ =~= ordered@.take(k as int + 1));
            }
            k = k + 1;
        }
        proof {
            assert(out@ =~= ordered@.take(n_take as int));
            assert(out@.map_values(|m: cozy_chess::Move| mv_data(m)) =~= ordered@.map_values(
                |m: cozy_chess::Move| mv_data(m),
            ).take(n_take as int));
        }
        out
    }
}

impl Default for Searcher {
    /// A searcher with a 4096-entry table, the piece-square evaluator, and
    /// capture, killer and history ordering enabled.
    fn default() -> (r: Searcher)
        ensures
            r.wf(),
            r.last_depth == 0,
    {
        Searcher::make_default()
    }
}

} // verus!
