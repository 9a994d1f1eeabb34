use organic_chess::game::Color;
use organic_chess::player::agent::{input_layer, move_for_slot, pick_slot};
use organic_chess::player::brain::OrganicNNBrain;
use organic_chess::training::tournament::{calc_score, ScoreTerm};
use organic_chess::training::{initial_pool, next_pool};
use owlchess::Board;

#[test]
fn input_layer_of_initial_board() {
    let board = Board::initial();
    let input = input_layer(&board, &Color::White);
    assert_eq!(input.len(), 385);
    // a8 holds a black rook (id 4), a7 a black pawn (id 0), e1 the white king (id 1).
    assert_eq!(input[4], 1);
    assert_eq!(input[8 * 6], 1);
    assert_eq!(input[60 * 6 + 1], 1);
    // h1 (square 63) is not encoded, the side flag is off for white.
    assert_eq!(input[384], 0);
    assert_eq!(input.iter().filter(|x| **x == 1).count(), 31);
    assert!(input.iter().all(|x| *x <= 1));
    assert!(input[16 * 6..48 * 6].iter().all(|x| *x == 0));
}

#[test]
fn input_layer_marks_black_to_move() {
    let board = Board::initial();
    let input = input_layer(&board, &Color::Black);
    assert_eq!(input[384], 1);
    assert_eq!(input.iter().filter(|x| **x == 1).count(), 32);
}

#[test]
fn pick_slot_cycles() {
    let items = vec![10, 20, 30];
    assert_eq!(pick_slot(&items, 0), Some(10));
    assert_eq!(pick_slot(&items, 4), Some(20));
    assert_eq!(pick_slot(&items, 127), Some(20));
    let empty: Vec<u32> = Vec::new();
    assert_eq!(pick_slot(&empty, 3), None);
}

#[test]
fn move_for_slot_cycles_through_legal_moves() {
    let board = Board::initial();
    let first = move_for_slot(&board, 0).unwrap();
    assert_eq!(move_for_slot(&board, 20), Some(first));
    assert_ne!(move_for_slot(&board, 1), Some(first));
    assert!(board.make_move(move_for_slot(&board, 7).unwrap()).is_ok());
}

#[test]
fn move_for_slot_without_moves() {
    // Black is checkmated (fool's mate).
    let board = Board::from_fen("rnb1kbnr/pppp1ppp/8/4p3/6Pq/5P2/PPPPP2P/RNBQKBNR w KQkq - 1 3").unwrap();
    assert_eq!(move_for_slot(&board, 5), None);
}

#[test]
fn scores_of_drawn_initial_position() {
    let board = Board::initial();
    let (w, b) = calc_score(&board, None);
    assert_eq!(w, ScoreTerm { halves: 1, numerator: 34, denominator: 39 });
    assert_eq!(b, ScoreTerm { halves: 1, numerator: 39, denominator: 34 });
}

#[test]
fn scores_of_decided_games_are_zero_sum() {
    let board = Board::initial();
    let (w, b) = calc_score(&board, Some(Color::White));
    assert_eq!(w, ScoreTerm { halves: 2, numerator: 34, denominator: 39 });
    assert_eq!(b, ScoreTerm { halves: -2, numerator: 34, denominator: 39 });
    let (w, b) = calc_score(&board, Some(Color::Black));
    assert_eq!(w, ScoreTerm { halves: -2, numerator: 39, denominator: 34 });
    assert_eq!(b, ScoreTerm { halves: 2, numerator: 39, denominator: 34 });
}

#[test]
fn scores_clamp_material_to_one() {
    let board = Board::from_fen("4k3/8/8/8/8/8/8/4K2Q w - - 0 1").unwrap();
    // The queen stands on h1, which is not counted: both sides count as 1.
    let (w, b) = calc_score(&board, Some(Color::White));
    assert_eq!(w, ScoreTerm { halves: 2, numerator: 1, denominator: 1 });
    assert_eq!(b, ScoreTerm { halves: -2, numerator: 1, denominator: 1 });
    let board = Board::from_fen("4k3/8/8/8/8/8/8/3QK3 w - - 0 1").unwrap();
    let (w, b) = calc_score(&board, Some(Color::Black));
    assert_eq!(w, ScoreTerm { halves: -2, numerator: 1, denominator: 9 });
    assert_eq!(b, ScoreTerm { halves: 2, numerator: 1, denominator: 9 });
}

#[test]
fn initial_pool_has_requested_shape() {
    let pool = initial_pool(5, 32, 10).unwrap();
    assert_eq!(pool.len(), 5);
    for brain in &pool {
        assert_eq!(brain.genome().len(), 90);
        assert_eq!(brain.connections().len(), 10);
        assert_eq!(brain.get_size(1), 32);
    }
    assert!(initial_pool(0, 0, 0).unwrap().is_empty());
    assert_eq!(initial_pool(2, 65536, 0).unwrap().len(), 2);
}

#[test]
fn next_pool_cycles_through_best_parents() {
    let parents: Vec<OrganicNNBrain> = (0..6u8)
        .map(|p| OrganicNNBrain::new(&vec![p.wrapping_mul(41); 27], 16))
        .collect();
    let ranked: Vec<&OrganicNNBrain> = parents.iter().collect();
    let pool = next_pool(&ranked, 7, 3, 1).unwrap();
    assert_eq!(pool.len(), 7);
    for (k, child) in pool.iter().enumerate() {
        let parent = ranked[k % 3];
        assert_eq!(child.get_size(1), 16);
        for (a, b) in parent.genome().iter().zip(child.genome().iter()) {
            assert_eq!((a ^ b).count_ones(), 1);
        }
        let rebuilt = OrganicNNBrain::new(child.genome(), 16);
        assert_eq!(child.connections(), rebuilt.connections());
    }
}

#[test]
fn next_pool_of_size_zero_needs_no_parents() {
    let ranked: Vec<&OrganicNNBrain> = Vec::new();
    assert!(next_pool(&ranked, 0, 0, 0).unwrap().is_empty());
}

#[test]
fn next_pool_accepts_zero_period_for_empty_parents() {
    let parent = OrganicNNBrain::new(&[], 8);
    let ranked = vec![&parent];
    let pool = next_pool(&ranked, 3, 1, 0).unwrap();
    assert_eq!(pool.len(), 3);
    assert!(pool.iter().all(|b| b.genome().is_empty() && b.get_size(1) == 8));
}

#[test]
fn next_pool_with_empty_inner_layer_fails_only_on_inner_use() {
    let genome = vec![0b0100_0000, 0, 1, 0, 2, 0, 0, 0, 0];
    let parent = OrganicNNBrain::new(&genome, 65536);
    let ranked = vec![&parent];
    for _ in 0..30 {
        if let Some(pool) = next_pool(&ranked, 2, 1, 1) {
            for child in &pool {
                let head = child.genome()[0];
                assert!(head & 0x80 == 0 && head & 0x40 != 0);
            }
        }
    }
}
