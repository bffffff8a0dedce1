use cozy_chess::Board;
use rand::SeedableRng;
use piebot::search::alphabeta::{SearchParams, Searcher};

// Two runs with identical inputs, deterministic ordering and one thread
// produce identical (bestmove, score, nodes).
#[test]
fn deterministic_runs_are_identical() {
    let fen = "r1bqkbnr/pppp1ppp/2n5/4p3/2B1P3/5N2/PPPP1PPP/RNBQK2R w KQkq - 2 3";
    let board = Board::from_fen(fen, false).expect("valid FEN");
    let mut p = SearchParams::default();
    p.depth = 3;
    p.use_tt = true;
    p.order_captures = true;
    p.use_history = true;
    p.use_killers = true;
    p.use_lmr = true;
    p.use_nullmove = true;
    p.use_aspiration = true;
    p.aspiration_window_cp = 50;
    p.threads = 1;
    p.deterministic = true;

    let mut s1 = Searcher::default();
    let r1 = s1.search_with_params(&board, p);
    let mut s2 = Searcher::default();
    let r2 = s2.search_with_params(&board, p);
    assert_eq!(r1.bestmove, r2.bestmove);
    assert_eq!(r1.score_cp, r2.score_cp);
    assert_eq!(r1.nodes, r2.nodes);
}

// The Exact root entry a fixed-depth search stores agrees with what a
// fresh full-window search of the same depth returns.
#[test]
fn tt_exact_root_entry_matches_research() {
    let fen = "r1bqkbnr/pppp1ppp/2n5/4p3/2B1P3/5N2/PPPP1PPP/RNBQK2R w KQkq - 2 3";
    let board = Board::from_fen(fen, false).expect("valid FEN");
    let mut s1 = Searcher::default();
    let r1 = s1.search_depth(&board, 3);
    match s1.tt_probe(&board) {
        Some((depth, bound)) => {
            assert_eq!(depth, 3);
            assert!(matches!(bound, piebot::search::tt::Bound::Exact));
        },
        None => panic!("expected a root entry after a completed search"),
    }
    let mut s2 = Searcher::default();
    let r2 = s2.search_depth(&board, 3);
    assert_eq!(r1.score_cp, r2.score_cp);
    assert_eq!(r1.bestmove, r2.bestmove);
}

// A checkmated root has no best move and the mate score.
#[test]
fn checkmated_root_returns_none_and_mate_score() {
    let fen = "k7/8/8/8/8/8/R7/1R5K b - - 0 1";
    let board = Board::from_fen(fen, false).expect("valid FEN");
    let mut s = Searcher::default();
    let mut p = SearchParams::default();
    p.depth = 3;
    p.use_tt = true;
    let r = s.search_with_params(&board, p);
    assert!(r.bestmove.is_none());
    assert_eq!(r.score_cp, -30000);
}

// A stalemated root has no best move and the draw score.
#[test]
fn stalemated_root_returns_none_and_draw_score() {
    let fen = "7k/5Q2/6K1/8/8/8/8/8 b - - 0 1";
    let board = Board::from_fen(fen, false).expect("valid FEN");
    let mut s = Searcher::default();
    let mut p = SearchParams::default();
    p.depth = 3;
    p.use_tt = true;
    let r = s.search_with_params(&board, p);
    assert!(r.bestmove.is_none());
    assert_eq!(r.score_cp, 0);
}

// Promotions print with the piece letter in long algebraic form.
#[test]
fn promotion_bestmove_is_long_algebraic() {
    let fen = "7k/P7/8/8/8/8/8/7K w - - 0 1";
    let board = Board::from_fen(fen, false).expect("valid FEN");
    let mut s = Searcher::default();
    let r = s.search_depth(&board, 2);
    assert_eq!(r.bestmove.as_deref(), Some("a7a8q"));
}

// The evaluation is zero on the symmetric starting position and counts a
// bare extra queen at face value.
#[test]
fn eval_counts_material_exactly() {
    let start = Board::default();
    let pos = piebot::search::board::extract_pos(&start);
    assert_eq!(piebot::search::eval::eval_pos_cp(&pos, false), 0);
    assert_eq!(piebot::search::eval::eval_pos_cp(&pos, true), 0);

    let fen = "7k/8/8/8/8/8/8/KQ6 w - - 0 1";
    let board = Board::from_fen(fen, false).expect("valid FEN");
    let qpos = piebot::search::board::extract_pos(&board);
    assert_eq!(piebot::search::eval::eval_pos_cp(&qpos, false), 900);
}

// Fingerprints are stable across reads and differ when the side to move
// differs.
#[test]
fn zobrist_is_stable_and_stm_sensitive() {
    let w = Board::from_fen("4k3/8/8/8/8/8/8/4K3 w - - 0 1", false).unwrap();
    let b = Board::from_fen("4k3/8/8/8/8/8/8/4K3 b - - 0 1", false).unwrap();
    let pw1 = piebot::search::board::extract_pos(&w);
    let pw2 = piebot::search::board::extract_pos(&w);
    let pb = piebot::search::board::extract_pos(&b);
    let h1 = piebot::search::zobrist::compute(&pw1);
    let h2 = piebot::search::zobrist::compute(&pw2);
    let h3 = piebot::search::zobrist::compute(&pb);
    assert_eq!(h1, h2);
    assert_ne!(h1, h3);
}

// A zero-megabyte table request clamps instead of failing, and the
// searcher still works.
#[test]
fn tiny_tt_capacity_is_clamped() {
    let board = Board::from_fen("k7/8/6Q1/8/8/8/8/K7 w - - 0 1", false).unwrap();
    let mut s = Searcher::default();
    s.set_tt_capacity_mb(0);
    let r = s.search_depth(&board, 2);
    assert!(r.bestmove.is_some());
}

// The noise filter yields nothing on an empty order.
#[test]
fn noise_filter_empty_order_yields_none() {
    let board = Board::default();
    let order: Vec<cozy_chess::Move> = Vec::new();
    let mut rng = rand::rngs::SmallRng::seed_from_u64(7);
    let r = piebot::search::noise::choose_noisy_from_order_filtered(&board, &order, 3, &mut rng, -150);
    assert!(r.is_none());
}

// The quiescence hook stays within the score range and sees a hanging
// queen: from the loser's side the horizon score reflects the loss.
#[test]
fn qsearch_eval_reflects_hanging_material() {
    // White queen on b1 is attacked by the rook on a1; black to move.
    let fen = "k7/8/8/8/8/8/7P/rQ2K3 b - - 0 1";
    let board = Board::from_fen(fen, false).unwrap();
    let mut s = Searcher::default();
    let v = s.qsearch_eval_cp(&board);
    assert!(v >= -30000 && v <= 30000);
    assert!(v > 0, "black to move wins the queen with Rxb1, got {}", v);
}
