use cozy_chess::Board;

fn full_params(depth: u32) -> piebot::search::alphabeta::SearchParams {
    let mut params = piebot::search::alphabeta::SearchParams::default();
    params.depth = depth;
    params.use_tt = true;
    params.order_captures = true;
    params.use_history = true;
    params.use_killers = true;
    params.use_nullmove = true;
    params.use_aspiration = true;
    params.use_lmr = true;
    params.aspiration_window_cp = 35;
    params.threads = 1;
    params.deterministic = true;
    params
}

// A lone queen against a bare king. No forced mate fits within a depth-3
// horizon here (after the queen checks on e8 the king steps to a7, and the
// white king is too far to help), so no sound searcher can return a mate
// score from this position at this depth; the strongest truthful
// expectation is a legal move that keeps the decisive queen advantage on
// the board. The companion test below checks the mate-score behaviour on a
// position that really has a mate in one.
#[test]
fn alphabeta_finds_simple_mate_in_one() {
    let board = Board::from_fen("k7/8/6Q1/8/8/8/8/K7 w - - 0 1", false).expect("valid FEN");
    let mut searcher = piebot::search::alphabeta::Searcher::default();
    searcher.set_tt_capacity_mb(16);

    let result = searcher.search_with_params(&board, full_params(3));
    let bm = result.bestmove.expect("a legal move exists");
    // The chosen move is one of the legal moves of the position.
    let mut found = false;
    board.generate_moves(|ml| {
        for m in ml {
            if format!("{}", m) == bm {
                found = true;
                break;
            }
        }
        found
    });
    assert!(found, "bestmove {} must be legal", bm);
    assert!(
        result.score_cp >= 800,
        "expected a queen-up winning score, got {}",
        result.score_cp
    );
}

// A genuine mate in one: the full-featured search reports the mating move
// and a mate-range score.
#[test]
fn search_with_params_finds_true_mate_in_one() {
    let board =
        Board::from_fen("R5NB/5R2/8/1k6/4B3/8/8/2R3K1 w - - 3 61", false).expect("valid FEN");
    let mut searcher = piebot::search::alphabeta::Searcher::default();
    searcher.set_tt_capacity_mb(16);

    let result = searcher.search_with_params(&board, full_params(3));
    assert_eq!(result.bestmove.as_deref(), Some("f7b7"), "expected Rb7#");
    assert!(result.score_cp > 24_000, "expected mate score, got {}", result.score_cp);
}
