//! Boundary to the `cozy_chess` move generator and board representation.
//!
//! The board and its move type are opaque to the verifier. What the search
//! logic reads out of them — bitboards, the side to move, the legal move
//! list, attack sets — is exposed here through trusted wrappers whose results
//! are pinned to uninterpreted names. Everything downstream is verified
//! against those names, so two reads of the same board are known to agree.
use vstd::prelude::*;

verus! {

/// A move in the engine's own representation: from-square and to-square as
/// rank-major indices (a1 = 0, b1 = 1, ..., h8 = 63), and a promotion code
/// (0 = none, 1 = knight, 2 = bishop, 3 = rook, 4 = queen).
#[derive(Clone, Copy, PartialEq, Eq, Structural, Debug)]
pub struct Mv {
    pub from: u8,
    pub to: u8,
    pub promo: u8,
}

/// Well-formedness of a move: both squares on the board, promotion code in
/// range.
pub open spec fn mv_wf(m: Mv) -> bool {
    m.from < 64 && m.to < 64 && m.promo <= 4
}

/// Everything the search logic reads from a position, as plain values:
/// one bitboard per color and per piece kind, the side to move, the
/// checkers bitboard, castling rights, and the en-passant file.
#[derive(Clone, Copy)]
pub struct Pos {
    pub white: u64,
    pub black: u64,
    pub pawns: u64,
    pub knights: u64,
    pub bishops: u64,
    pub rooks: u64,
    pub queens: u64,
    pub kings: u64,
    pub stm_white: bool,
    pub checkers: u64,
    pub castle_ws: bool,
    pub castle_wl: bool,
    pub castle_bs: bool,
    pub castle_bl: bool,
    pub ep_file: Option<u8>,
}

/// Declares `cozy_chess::Board`, the outside board representation, as an
/// opaque type: positions are carried through, never inspected directly.
#[verifier::external_type_specification]
#[verifier::external_body]
pub struct ExBoard(cozy_chess::Board);

/// Declares `cozy_chess::Move`, the outside move value, as an opaque type;
/// its data is read out through `mv_of`.
#[verifier::external_type_specification]
#[verifier::external_body]
pub struct ExMove(cozy_chess::Move);

// ---------------------------------------------------------------------------
// Names for what the outside functions return. Each is a pure function of
// its arguments; the wrappers below pin their results to these names.
// ---------------------------------------------------------------------------

/// The bitboard of squares occupied by the given color (`Board::colors`).
pub uninterp spec fn b_colors(b: cozy_chess::Board, white: bool) -> u64;

/// The bitboard of squares occupied by the given piece kind, both colors
/// (`Board::pieces`); kinds are 0 = pawn, 1 = knight, 2 = bishop, 3 = rook,
/// 4 = queen, 5 = king.
pub uninterp spec fn b_pieces(b: cozy_chess::Board, piece: int) -> u64;

/// Whether White is to move (`Board::side_to_move`).
pub uninterp spec fn b_stm_white(b: cozy_chess::Board) -> bool;

/// The bitboard of pieces giving check to the side to move
/// (`Board::checkers`).
pub uninterp spec fn b_checkers(b: cozy_chess::Board) -> u64;

/// The castling rights of the given color as (short, long)
/// (`Board::castle_rights`).
pub uninterp spec fn b_castle(b: cozy_chess::Board, white: bool) -> (bool, bool);

/// The en-passant file, if one exists (`Board::en_passant`).
pub uninterp spec fn b_ep_file(b: cozy_chess::Board) -> Option<u8>;

/// The legal moves of the position, in generator order
/// (`Board::generate_moves`).
pub uninterp spec fn b_moves(b: cozy_chess::Board) -> Seq<Mv>;

/// Whether a move value is legal on the position (`Board::is_legal`). This
/// is over the outside move value itself, not its data: a generated move is
/// legal, but a value with the same squares and a junk promotion field is
/// not.
pub uninterp spec fn b_legal(b: cozy_chess::Board, m: cozy_chess::Move) -> bool;

/// The position reached by playing a legal move (`Board::try_play`).
pub uninterp spec fn b_play(b: cozy_chess::Board, m: Mv) -> cozy_chess::Board;

/// The position reached by passing the turn (`Board::null_move`), defined
/// where the side to move is not in check.
pub uninterp spec fn b_null(b: cozy_chess::Board) -> cozy_chess::Board;

/// The (from, to, promotion) data of an outside move value.
pub uninterp spec fn mv_data(m: cozy_chess::Move) -> Mv;

/// Rook attacks from a square against an occupancy (`get_rook_moves`).
pub uninterp spec fn att_rook(sq: int, occ: u64) -> u64;

/// Bishop attacks from a square against an occupancy (`get_bishop_moves`).
pub uninterp spec fn att_bishop(sq: int, occ: u64) -> u64;

/// Knight attacks from a square (`get_knight_moves`).
pub uninterp spec fn att_knight(sq: int) -> u64;

/// King attacks from a square (`get_king_moves`).
pub uninterp spec fn att_king(sq: int) -> u64;

/// Squares attacked by a pawn of the given color standing on a square
/// (`get_pawn_attacks`).
pub uninterp spec fn att_pawn(sq: int, white: bool) -> u64;

/// The position model assembled from the names above.
pub open spec fn pos_of(b: cozy_chess::Board) -> Pos {
    Pos {
        white: b_colors(b, true),
        black: b_colors(b, false),
        pawns: b_pieces(b, 0),
        knights: b_pieces(b, 1),
        bishops: b_pieces(b, 2),
        rooks: b_pieces(b, 3),
        queens: b_pieces(b, 4),
        kings: b_pieces(b, 5),
        stm_white: b_stm_white(b),
        checkers: b_checkers(b),
        castle_ws: b_castle(b, true).0,
        castle_wl: b_castle(b, true).1,
        castle_bs: b_castle(b, false).0,
        castle_bl: b_castle(b, false).1,
        ep_file: b_ep_file(b),
    }
}

// ---------------------------------------------------------------------------
// Trusted wrappers around the outside calls.
// ---------------------------------------------------------------------------

/// Relies on `cozy_chess::Board::colors`: the occupancy of one color.
#[verifier::external_body]
pub fn colors_bb(b: &cozy_chess::Board, white: bool) -> (r: u64)
    ensures
        r == b_colors(*b, white),
{
    let c = if white { cozy_chess::Color::White } else { cozy_chess::Color::Black };
    b.colors(c).0
}

/// Relies on `cozy_chess::Board::pieces`: the occupancy of one piece kind.
#[verifier::external_body]
pub fn pieces_bb(b: &cozy_chess::Board, piece: u8) -> (r: u64)
    requires
        piece < 6,
    ensures
        r == b_pieces(*b, piece as int),
{
    let p = match piece {
        0 => cozy_chess::Piece::Pawn,
        1 => cozy_chess::Piece::Knight,
        2 => cozy_chess::Piece::Bishop,
        3 => cozy_chess::Piece::Rook,
        4 => cozy_chess::Piece::Queen,
        _ => cozy_chess::Piece::King,
    };
    b.pieces(p).0
}

/// Relies on `cozy_chess::Board::side_to_move`.
#[verifier::external_body]
pub fn stm_white(b: &cozy_chess::Board) -> (r: bool)
    ensures
        r == b_stm_white(*b),
{
    b.side_to_move() == cozy_chess::Color::White
}

/// Relies on `cozy_chess::Board::checkers`: the pieces giving check.
#[verifier::external_body]
pub fn checkers_bb(b: &cozy_chess::Board) -> (r: u64)
    ensures
        r == b_checkers(*b),
{
    b.checkers().0
}

/// Relies on `cozy_chess::Board::castle_rights`: (short, long) rights of one
/// color.
#[verifier::external_body]
pub fn castle_rights_of(b: &cozy_chess::Board, white: bool) -> (r: (bool, bool))
    ensures
        r == b_castle(*b, white),
{
    let c = if white { cozy_chess::Color::White } else { cozy_chess::Color::Black };
    let cr = b.castle_rights(c);
    (cr.short.is_some(), cr.long.is_some())
}

/// Relies on `cozy_chess::Board::en_passant`: the en-passant file if any.
#[verifier::external_body]
pub fn ep_file_of(b: &cozy_chess::Board) -> (r: Option<u8>)
    ensures
        r == b_ep_file(*b),
{
    b.en_passant().map(|f| f as u8)
}

/// Relies on `cozy_chess::Board::generate_moves`: calls the listener with
/// every legal move exactly once; collected here in generator order. Every
/// yielded value is accepted by `Board::is_legal`.
#[verifier::external_body]
pub fn legal_moves(b: &cozy_chess::Board) -> (r: Vec<cozy_chess::Move>)
    ensures
        r@.map_values(|m: cozy_chess::Move| mv_data(m)) == b_moves(*b),
        forall|i: int| 0 <= i < r@.len() ==> mv_wf(mv_data(#[trigger] r@[i])),
        forall|i: int| 0 <= i < r@.len() ==> b_legal(*b, #[trigger] r@[i]),
{
    let mut v: Vec<cozy_chess::Move> = Vec::new();
    b.generate_moves(|ml| {
        for m in ml {
            v.push(m);
        }
        false
    });
    v
}

/// Relies on the public fields of `cozy_chess::Move` (squares in rank-major
/// order) and on `cozy_chess::Piece` for the promotion kind.
#[verifier::external_body]
pub fn mv_of(m: &cozy_chess::Move) -> (r: Mv)
    ensures
        r == mv_data(*m),
        mv_wf(r),
{
    let promo: u8 = match m.promotion {
        None => 0,
        Some(cozy_chess::Piece::Knight) => 1,
        Some(cozy_chess::Piece::Bishop) => 2,
        Some(cozy_chess::Piece::Rook) => 3,
        Some(cozy_chess::Piece::Queen) => 4,
        Some(_) => 0,
    };
    Mv { from: m.from as u8, to: m.to as u8, promo }
}

/// Relies on `cozy_chess::Move` being `Copy`: hands back the same move value.
#[verifier::external_body]
pub fn mv_copy(m: &cozy_chess::Move) -> (r: cozy_chess::Move)
    ensures
        r == *m,
{
    *m
}

/// Relies on `cozy_chess::Board::try_play`: succeeds exactly on the move
/// values `Board::is_legal` accepts, and returns the resulting position.
/// An accepted value is one of the moves `generate_moves` yields (a junk
/// promotion field is rejected), so its data is in the legal move list.
#[verifier::external_body]
pub fn play_move(b: &cozy_chess::Board, m: &cozy_chess::Move) -> (r: Option<
    cozy_chess::Board,
>)
    ensures
        r.is_some() <==> b_legal(*b, *m),
        r matches Some(c) ==> c == b_play(*b, mv_data(*m)) && b_moves(*b).contains(mv_data(*m)),
{
    let mut child = b.clone();
    match child.try_play(*m) {
        Ok(()) => Some(child),
        Err(_) => None,
    }
}

/// Relies on `cozy_chess::Board::null_move`: passes the turn, succeeding
/// exactly when the side to move is not in check.
#[verifier::external_body]
pub fn null_move(b: &cozy_chess::Board) -> (r: Option<cozy_chess::Board>)
    ensures
        r.is_some() <==> b_checkers(*b) == 0,
        r matches Some(c) ==> c == b_null(*b),
{
    b.null_move()
}

/// Relies on `cozy_chess::get_rook_moves`.
#[verifier::external_body]
pub fn rook_attacks(sq: u8, occ: u64) -> (r: u64)
    requires
        sq < 64,
    ensures
        r == att_rook(sq as int, occ),
{
    cozy_chess::get_rook_moves(cozy_chess::Square::index(sq as usize), cozy_chess::BitBoard(occ)).0
}

/// Relies on `cozy_chess::get_bishop_moves`.
#[verifier::external_body]
pub fn bishop_attacks(sq: u8, occ: u64) -> (r: u64)
    requires
        sq < 64,
    ensures
        r == att_bishop(sq as int, occ),
{
    cozy_chess::get_bishop_moves(cozy_chess::Square::index(sq as usize), cozy_chess::BitBoard(occ)).0
}

/// Relies on `cozy_chess::get_knight_moves`.
#[verifier::external_body]
pub fn knight_attacks(sq: u8) -> (r: u64)
    requires
        sq < 64,
    ensures
        r == att_knight(sq as int),
{
    cozy_chess::get_knight_moves(cozy_chess::Square::index(sq as usize)).0
}

/// Relies on `cozy_chess::get_king_moves`.
#[verifier::external_body]
pub fn king_attacks(sq: u8) -> (r: u64)
    requires
        sq < 64,
    ensures
        r == att_king(sq as int),
{
    cozy_chess::get_king_moves(cozy_chess::Square::index(sq as usize)).0
}

/// Relies on `cozy_chess::get_pawn_attacks`.
#[verifier::external_body]
pub fn pawn_attacks(sq: u8, white: bool) -> (r: u64)
    requires
        sq < 64,
    ensures
        r == att_pawn(sq as int, white),
{
    let c = if white { cozy_chess::Color::White } else { cozy_chess::Color::Black };
    cozy_chess::get_pawn_attacks(cozy_chess::Square::index(sq as usize), c).0
}

/// The file letter of a square index.
pub open spec fn file_seq(f: int) -> Seq<char> {
    if f == 0 {
        "a"@
    } else if f == 1 {
        "b"@
    } else if f == 2 {
        "c"@
    } else if f == 3 {
        "d"@
    } else if f == 4 {
        "e"@
    } else if f == 5 {
        "f"@
    } else if f == 6 {
        "g"@
    } else {
        "h"@
    }
}

/// The rank digit of a square index.
pub open spec fn rank_seq(r: int) -> Seq<char> {
    if r == 0 {
        "1"@
    } else if r == 1 {
        "2"@
    } else if r == 2 {
        "3"@
    } else if r == 3 {
        "4"@
    } else if r == 4 {
        "5"@
    } else if r == 5 {
        "6"@
    } else if r == 6 {
        "7"@
    } else {
        "8"@
    }
}

/// The long-algebraic text of a square: file letter then rank digit.
pub open spec fn square_seq(sq: int) -> Seq<char> {
    file_seq(sq % 8) + rank_seq(sq / 8)
}

/// The promotion suffix of a move: empty, or the promoted piece's letter.
pub open spec fn promo_seq(p: int) -> Seq<char> {
    if p == 1 {
        "n"@
    } else if p == 2 {
        "b"@
    } else if p == 3 {
        "r"@
    } else if p == 4 {
        "q"@
    } else {
        ""@
    }
}

/// The long-algebraic text of a move: from-square, to-square, promotion.
pub open spec fn uci_spec(m: Mv) -> Seq<char> {
    square_seq(m.from as int) + square_seq(m.to as int) + promo_seq(m.promo as int)
}

/// The file letter of a square index, as a string slice.
fn file_str(f: u8) -> (r: &'static str)
    requires
        f < 8,
    ensures
        r@ == file_seq(f as int),
{
    if f == 0 {
        "a"
    } else if f == 1 {
        "b"
    } else if f == 2 {
        "c"
    } else if f == 3 {
        "d"
    } else if f == 4 {
        "e"
    } else if f == 5 {
        "f"
    } else if f == 6 {
        "g"
    } else {
        "h"
    }
}

/// The rank digit of a square index, as a string slice.
fn rank_str(r: u8) -> (res: &'static str)
    requires
        r < 8,
    ensures
        res@ == rank_seq(r as int),
{
    if r == 0 {
        "1"
    } else if r == 1 {
        "2"
    } else if r == 2 {
        "3"
    } else if r == 3 {
        "4"
    } else if r == 4 {
        "5"
    } else if r == 5 {
        "6"
    } else if r == 6 {
        "7"
    } else {
        "8"
    }
}

/// Format a move in long algebraic form, e.g. `e2e4` or `a7a8q`.
pub fn uci_of(m: Mv) -> (r: String)
    requires
        mv_wf(m),
    ensures
        r@ == uci_spec(m),
{
    let mut s = String::from_str(file_str(m.from % 8));
    s.append(rank_str(m.from / 8));
    s.append(file_str(m.to % 8));
    s.append(rank_str(m.to / 8));
    let p: &'static str = if m.promo == 1 {
        "n"
    } else if m.promo == 2 {
        "b"
    } else if m.promo == 3 {
        "r"
    } else if m.promo == 4 {
        "q"
    } else {
        ""
    };
    s.append(p);
    s
}

/// Read the full position model out of a board.
pub fn extract_pos(b: &cozy_chess::Board) -> (r: Pos)
    ensures
        r == pos_of(*b),
{
    let (ws, wl) = castle_rights_of(b, true);
    let (bs, bl) = castle_rights_of(b, false);
    Pos {
        white: colors_bb(b, true),
        black: colors_bb(b, false),
        pawns: pieces_bb(b, 0),
        knights: pieces_bb(b, 1),
        bishops: pieces_bb(b, 2),
        rooks: pieces_bb(b, 3),
        queens: pieces_bb(b, 4),
        kings: pieces_bb(b, 5),
        stm_white: stm_white(b),
        checkers: checkers_bb(b),
        castle_ws: ws,
        castle_wl: wl,
        castle_bs: bs,
        castle_bl: bl,
        ep_file: ep_file_of(b),
    }
}

} // verus!
