use cozy_chess::{Board, Square};

#[test]
fn see_detects_bad_exchange_rook_x_pawn_on_h7() {
    // After Rxh7, ...Kxh7 wins the rook; SEE must be negative.
    let fen = "6k1/2R4p/6p1/8/6K1/6P1/8/8 w - - 3 38";
    let board = Board::from_fen(fen, false).unwrap();
    let mut rxh7 = None;
    board.generate_moves(|ml| {
        for m in ml {
            if m.from == Square::C7 && m.to == Square::H7 {
                rxh7 = Some(m);
                break;
            }
        }
        rxh7.is_some()
    });
    let m = rxh7.expect("Rxh7 must be legal in this position");
    let see = piebot::search::see::see_gain_cp(&board, m).expect("SEE must return some");
    assert!(see < 0, "SEE should be negative for losing exchange, got {}", see);
}

// With no recapture available, the exchange value is exactly the victim's
// worth: a rook takes an undefended pawn for the full pawn value.
#[test]
fn see_equals_victim_value_when_no_recapture() {
    // White rook a1 takes the black pawn on a7; nothing defends a7.
    let fen = "7k/p7/8/8/8/8/8/R6K w - - 0 1";
    let board = Board::from_fen(fen, false).unwrap();
    let mut rxa7 = None;
    board.generate_moves(|ml| {
        for m in ml {
            if format!("{}", m) == "a1a7" {
                rxa7 = Some(m);
                break;
            }
        }
        rxa7.is_some()
    });
    let m = rxa7.expect("Rxa7 must be legal");
    let see = piebot::search::see::see_gain_cp(&board, m).expect("SEE must return some");
    assert_eq!(see, 100, "undefended pawn capture is worth exactly the pawn");
}

// A defended-pawn capture by a rook costs the exchange: victim minus
// attacker.
#[test]
fn see_accounts_for_single_recapture() {
    // White rook a1 takes the pawn a7, defended by the rook on a8.
    let fen = "r6k/p7/8/8/8/8/8/R6K w - - 0 1";
    let board = Board::from_fen(fen, false).unwrap();
    let mut rxa7 = None;
    board.generate_moves(|ml| {
        for m in ml {
            if format!("{}", m) == "a1a7" {
                rxa7 = Some(m);
                break;
            }
        }
        rxa7.is_some()
    });
    let m = rxa7.expect("Rxa7 must be legal");
    let see = piebot::search::see::see_gain_cp(&board, m).expect("SEE must return some");
    assert_eq!(see, 100 - 500, "pawn for rook is a losing exchange");
}
