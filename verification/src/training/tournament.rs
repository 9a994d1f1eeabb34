//! Scoring a finished game.
use crate::game::{
    board_cells, color_points_of, color_points_upto, lemma_points_same_cells, BoardCells, Color,
};
use owlchess::Board;
use vstd::prelude::*;

verus! {

/// A game score, kept exactly: `halves / 2` times the material ratio
/// `numerator / denominator`.
#[derive(Clone, Copy, Debug, PartialEq, Eq, Structural)]
pub struct ScoreTerm {
    pub halves: i64,
    pub numerator: usize,
    pub denominator: usize,
}

/// Material of `color` as the scores count it: the points on squares 0 through 62,
/// raised to at least 1.
pub open spec fn clamped_points(cells: Seq<usize>, color: Color) -> nat {
    let p = color_points_upto(cells, color, 63);
    if p < 1 {
        1
    } else {
        p
    }
}

/// Base scores of white and black, in halves: a draw gives each a half, a win gives
/// the winner one and the loser minus one.
pub open spec fn base_halves(winner: Option<Color>) -> (i64, i64) {
    match winner {
        None => (1i64, 1i64),
        Some(Color::White) => (2i64, -2i64),
        Some(Color::Black) => (-2i64, 2i64),
    }
}

/// The scores of white and black when white has material `w` and black `b`: a
/// positive base score is multiplied by the side's own material over the opponent's,
/// a negative one by the opponent's material over the side's own.
pub open spec fn score_terms(w: nat, b: nat, winner: Option<Color>) -> (ScoreTerm, ScoreTerm) {
    let (hw, hb) = base_halves(winner);
    let white = if hw > 0 {
        ScoreTerm { halves: hw, numerator: w as usize, denominator: b as usize }
    } else {
        ScoreTerm { halves: hw, numerator: b as usize, denominator: w as usize }
    };
    let black = if hb > 0 {
        ScoreTerm { halves: hb, numerator: b as usize, denominator: w as usize }
    } else {
        ScoreTerm { halves: hb, numerator: w as usize, denominator: b as usize }
    };
    (white, black)
}

/// The scores of white and black for a game that ended in the position `cells` with
/// `winner` (`None` for a draw).
pub fn score_of(cells: &BoardCells, winner: Option<Color>) -> (r: (ScoreTerm, ScoreTerm))
    ensures
        r == score_terms(
            clamped_points(cells@, Color::White),
            clamped_points(cells@, Color::Black),
            winner,
        ),
        r.0.denominator >= 1,
        r.1.denominator >= 1,
        ({
            let w = clamped_points(cells@, Color::White) as usize;
            let b = clamped_points(cells@, Color::Black) as usize;
            &&& winner == Some(Color::White) ==> r.0 == (ScoreTerm { halves: 2i64, numerator: w, denominator: b })
                && r.1 == (ScoreTerm { halves: -2i64, numerator: w, denominator: b })
            &&& winner == Some(Color::Black) ==> r.0 == (ScoreTerm { halves: -2i64, numerator: b, denominator: w })
                && r.1 == (ScoreTerm { halves: 2i64, numerator: b, denominator: w })
            &&& winner is None ==> r.0 == (ScoreTerm { halves: 1i64, numerator: w, denominator: b })
                && r.1 == (ScoreTerm { halves: 1i64, numerator: b, denominator: w })
        }),
{
    let mut white_points = color_points_of(cells, &Color::White);
    if white_points < 1 {
        white_points = 1;
    }
    let mut black_points = color_points_of(cells, &Color::Black);
    if black_points < 1 {
        black_points = 1;
    }
    let (hw, hb): (i64, i64) = match winner {
        None => (1, 1),
        Some(Color::White) => (2, -2),
        Some(Color::Black) => (-2, 2),
    };
    let white = if hw > 0 {
        ScoreTerm { halves: hw, numerator: white_points, denominator: black_points }
    } else {
        ScoreTerm { halves: hw, numerator: black_points, denominator: white_points }
    };
    let black = if hb > 0 {
        ScoreTerm { halves: hb, numerator: black_points, denominator: white_points }
    } else {
        ScoreTerm { halves: hb, numerator: white_points, denominator: black_points }
    };
    (white, black)
}

/// The scores of white and black for a game that ended on `board` with `winner`
/// (`None` for a draw).
pub fn calc_score(board: &Board, winner: Option<Color>) -> (r: (ScoreTerm, ScoreTerm))
    ensures
        r == score_terms(
            clamped_points(board_cells(*board), Color::White),
            clamped_points(board_cells(*board), Color::Black),
            winner,
        ),
        r.0.denominator >= 1,
        r.1.denominator >= 1,
        ({
            let w = clamped_points(board_cells(*board), Color::White) as usize;
            let b = clamped_points(board_cells(*board), Color::Black) as usize;
            &&& winner == Some(Color::White) ==> r.0 == (ScoreTerm { halves: 2i64, numerator: w, denominator: b })
                && r.1 == (ScoreTerm { halves: -2i64, numerator: w, denominator: b })
            &&& winner == Some(Color::Black) ==> r.0 == (ScoreTerm { halves: -2i64, numerator: b, denominator: w })
                && r.1 == (ScoreTerm { halves: 2i64, numerator: b, denominator: w })
            &&& winner is None ==> r.0 == (ScoreTerm { halves: 1i64, numerator: w, denominator: b })
                && r.1 == (ScoreTerm { halves: 1i64, numerator: b, denominator: w })
        }),
{
    let cells = BoardCells::from_board(board);
    proof {
        lemma_points_same_cells(cells@, board_cells(*board), Color::White, 63);
        lemma_points_same_cells(cells@, board_cells(*board), Color::Black, 63);
    }
    score_of(&cells, winner)
}

/// Each side's score by outcome, in terms of the two sides' material: the winner
/// gets one times its own material over the loser's, the loser minus one times the
/// winner's material over its own, and in a draw each side a half times its own
/// material over the opponent's.
pub proof fn lemma_score_by_outcome(w: nat, b: nat, winner: Option<Color>)
    ensures
        ({
            let (white, black) = score_terms(w, b, winner);
            &&& winner == Some(Color::White) ==> white == (ScoreTerm {
                halves: 2i64,
                numerator: w as usize,
                denominator: b as usize,
            }) && black == (ScoreTerm { halves: -2i64, numerator: w as usize, denominator: b as usize })
            &&& winner == Some(Color::Black) ==> white == (ScoreTerm {
                halves: -2i64,
                numerator: b as usize,
                denominator: w as usize,
            }) && black == (ScoreTerm { halves: 2i64, numerator: b as usize, denominator: w as usize })
            &&& winner is None ==> white == (ScoreTerm {
                halves: 1i64,
                numerator: w as usize,
                denominator: b as usize,
            }) && black == (ScoreTerm { halves: 1i64, numerator: b as usize, denominator: w as usize })
        }),
{
}

/// A decided game is zero-sum: the loser's score is exactly the negation of the
/// winner's, and the winner's score is positive.
pub proof fn lemma_decided_game_zero_sum(w: nat, b: nat, c: Color)
    ensures
        ({
            let (white, black) = score_terms(w, b, Some(c));
            &&& white.halves == -black.halves
            &&& white.numerator == black.numerator
            &&& white.denominator == black.denominator
            &&& (c == Color::White ==> white.halves > 0)
            &&& (c == Color::Black ==> black.halves > 0)
        }),
{
}

/// In a draw both sides score a half times their own material over the opponent's,
/// so the two material ratios are reciprocal.
pub proof fn lemma_draw_ratios_reciprocal(w: nat, b: nat)
    ensures
        ({
            let (white, black) = score_terms(w, b, None);
            &&& white.halves == 1 && black.halves == 1
            &&& white.numerator == black.denominator
            &&& white.denominator == black.numerator
        }),
{
}

} // verus!
