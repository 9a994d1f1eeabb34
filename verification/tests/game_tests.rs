use organic_chess::game::{decode_cell, get_color_points, get_id, get_points, Color, Piece};
use owlchess::Board;

#[test]
fn piece_points_follow_usual_scale() {
    assert_eq!(get_points(Piece::Pawn), 1);
    assert_eq!(get_points(Piece::King), 0);
    assert_eq!(get_points(Piece::Knight), 3);
    assert_eq!(get_points(Piece::Bishop), 3);
    assert_eq!(get_points(Piece::Rook), 5);
    assert_eq!(get_points(Piece::Queen), 9);
}

#[test]
fn piece_ids_follow_engine_order() {
    assert_eq!(get_id(Piece::Pawn), 0);
    assert_eq!(get_id(Piece::King), 1);
    assert_eq!(get_id(Piece::Knight), 2);
    assert_eq!(get_id(Piece::Bishop), 3);
    assert_eq!(get_id(Piece::Rook), 4);
    assert_eq!(get_id(Piece::Queen), 5);
}

#[test]
fn piece_ids_match_owlchess_index() {
    let pairs = [
        (Piece::Pawn, owlchess::Piece::Pawn),
        (Piece::King, owlchess::Piece::King),
        (Piece::Knight, owlchess::Piece::Knight),
        (Piece::Bishop, owlchess::Piece::Bishop),
        (Piece::Rook, owlchess::Piece::Rook),
        (Piece::Queen, owlchess::Piece::Queen),
    ];
    for (mine, theirs) in pairs {
        assert_eq!(get_id(mine), theirs.index());
    }
}

#[test]
fn decode_cell_matches_owlchess_cells() {
    assert_eq!(decode_cell(0), None);
    for idx in 1..13usize {
        let cell = owlchess::Cell::from_index(idx);
        let decoded = decode_cell(idx).unwrap();
        assert_eq!(get_id(decoded.0), cell.piece().unwrap().index());
        let white = cell.color().unwrap() == owlchess::Color::White;
        assert_eq!(decoded.1 == Color::White, white);
    }
    assert_eq!(decode_cell(1), Some((Piece::Pawn, Color::White)));
    assert_eq!(decode_cell(6), Some((Piece::Queen, Color::White)));
    assert_eq!(decode_cell(8), Some((Piece::King, Color::Black)));
    assert_eq!(decode_cell(13), None);
}

#[test]
fn initial_material_skips_square_h1() {
    let board = Board::initial();
    // White has 39 points, but its rook on h1 (square 63) is not counted.
    assert_eq!(get_color_points(&board, &Color::White), 34);
    assert_eq!(get_color_points(&board, &Color::Black), 39);
}

#[test]
fn material_of_sparse_board() {
    let board = Board::from_fen("4k3/8/8/3q4/8/8/8/R3K3 w Q - 0 1").unwrap();
    assert_eq!(get_color_points(&board, &Color::White), 5);
    assert_eq!(get_color_points(&board, &Color::Black), 9);
}

#[test]
fn material_only_kings_is_zero() {
    let board = Board::from_fen("4k3/8/8/8/8/8/8/4K3 w - - 0 1").unwrap();
    assert_eq!(get_color_points(&board, &Color::White), 0);
    assert_eq!(get_color_points(&board, &Color::Black), 0);
}
