//! Chess pieces, colors and material counting.
use owlchess::Board;
use vstd::prelude::*;

verus! {

/// The kind of a chess piece, in the order the chess engine numbers them.
#[derive(Clone, Copy, Debug, PartialEq, Eq, Structural)]
pub enum Piece {
    Pawn,
    King,
    Knight,
    Bishop,
    Rook,
    Queen,
}

/// The color of a piece or of the side to move.
#[derive(Clone, Copy, Debug, PartialEq, Eq, Structural)]
pub enum Color {
    White,
    Black,
}

/// Material value of a piece: the usual 1/3/3/5/9 scale, the king counting nothing.
pub open spec fn piece_points(p: Piece) -> nat {
    match p {
        Piece::Pawn => 1,
        Piece::King => 0,
        Piece::Knight => 3,
        Piece::Bishop => 3,
        Piece::Rook => 5,
        Piece::Queen => 9,
    }
}

/// Position of a piece kind in the per-square one-hot block of the network input.
pub open spec fn piece_id(p: Piece) -> nat {
    match p {
        Piece::Pawn => 0,
        Piece::King => 1,
        Piece::Knight => 2,
        Piece::Bishop => 3,
        Piece::Rook => 4,
        Piece::Queen => 5,
    }
}

/// Material value of `p`.
pub fn get_points(p: Piece) -> (r: usize)
    ensures
        r == piece_points(p),
{
    match p {
        Piece::Pawn => 1,
        Piece::King => 0,
        Piece::Knight => 3,
        Piece::Bishop => 3,
        Piece::Rook => 5,
        Piece::Queen => 9,
    }
}

/// Index of `p` among the six piece kinds.
pub fn get_id(p: Piece) -> (r: usize)
    ensures
        r == piece_id(p),
        r < 6,
{
    match p {
        Piece::Pawn => 0,
        Piece::King => 1,
        Piece::Knight => 2,
        Piece::Bishop => 3,
        Piece::Rook => 4,
        Piece::Queen => 5,
    }
}


/// The piece kind with index `i` in the engine's numbering (`Piece::index`).
pub open spec fn piece_with_index(i: int) -> Piece {
    if i == 0 {
        Piece::Pawn
    } else if i == 1 {
        Piece::King
    } else if i == 2 {
        Piece::Knight
    } else if i == 3 {
        Piece::Bishop
    } else if i == 4 {
        Piece::Rook
    } else {
        Piece::Queen
    }
}

/// What a cell index holds: nothing for 0, a white piece for 1..=6 and a black one
/// for 7..=12, the pieces in the engine's order within each color.
pub open spec fn cell_contents(cell: int) -> Option<(Piece, Color)> {
    if cell <= 0 || cell >= 13 {
        None
    } else if cell <= 6 {
        Some((piece_with_index(cell - 1), Color::White))
    } else {
        Some((piece_with_index(cell - 7), Color::Black))
    }
}

/// Points that the square holding `cell` contributes to `color`'s material.
pub open spec fn square_points(cell: int, color: Color) -> nat {
    match cell_contents(cell) {
        Some((p, c)) => if c == color {
            piece_points(p)
        } else {
            0
        },
        None => 0,
    }
}

/// Material of `color` on the first `n` squares of `cells`.
pub open spec fn color_points_upto(cells: Seq<usize>, color: Color, n: int) -> nat
    decreases n,
{
    if n <= 0 {
        0
    } else {
        color_points_upto(cells, color, n - 1) + square_points(cells[n - 1] as int, color)
    }
}

/// Piece ids and the engine's piece numbering agree: the piece with index
/// `piece_id(p)` is `p`, so distinct pieces have distinct ids.
pub proof fn lemma_piece_id_roundtrip(p: Piece)
    ensures
        piece_with_index(piece_id(p) as int) == p,
        piece_id(p) < 6,
{
}

#[verifier::external_type_specification]
#[verifier::external_body]
pub struct ExBoard(owlchess::Board);

/// The cell index (as `owlchess::Cell::index` gives it) of every square of a board,
/// by square index (`owlchess::Coord::index`: a8 is 0, h1 is 63).
pub uninterp spec fn board_cells(board: Board) -> Seq<usize>;

/// Reads square `idx` of `board` with `owlchess::Board::get` at
/// `owlchess::Coord::from_index(idx)` and hands back `owlchess::Cell::index` of it.
/// Claimed: the result is entry `idx` of `board_cells(board)`, and it is below 13,
/// the number of distinct cells (`Cell::COUNT`). `Coord::from_index` panics from 64 on,
/// which `requires` leaves out.
#[verifier::external_body]
fn cell_index_at(board: &Board, idx: usize) -> (r: usize)
    requires
        idx < 64,
    ensures
        r == board_cells(*board)[idx as int],
        r < 13,
{
    board.get(owlchess::Coord::from_index(idx)).index()
}

/// Decodes a cell index into the piece and color it holds, if any.
pub fn decode_cell(cell: usize) -> (r: Option<(Piece, Color)>)
    ensures
        r == cell_contents(cell as int),
{
    if cell == 0 || cell >= 13 {
        None
    } else if cell <= 6 {
        Some((piece_from_index(cell - 1), Color::White))
    } else {
        Some((piece_from_index(cell - 7), Color::Black))
    }
}

fn piece_from_index(i: usize) -> (r: Piece)
    requires
        i < 6,
    ensures
        r == piece_with_index(i as int),
{
    if i == 0 {
        Piece::Pawn
    } else if i == 1 {
        Piece::King
    } else if i == 2 {
        Piece::Knight
    } else if i == 3 {
        Piece::Bishop
    } else if i == 4 {
        Piece::Rook
    } else {
        Piece::Queen
    }
}

proof fn lemma_square_points_bound(cell: int, color: Color)
    ensures
        square_points(cell, color) <= 9,
{
}

/// The squares of a position as cell indices, by square index (a8 is 0, h1 is 63).
pub struct BoardCells {
    cells: Vec<usize>,
}

/// 64 cell indices, each a valid cell (below 13).
pub open spec fn valid_cells(cells: Seq<usize>) -> bool {
    cells.len() == 64 && forall|i: int| 0 <= i < 64 ==> #[trigger] cells[i] < 13
}

impl View for BoardCells {
    type V = Seq<usize>;

    closed spec fn view(&self) -> Seq<usize> {
        self.cells@
    }
}

impl BoardCells {
    #[verifier::type_invariant]
    spec fn well_formed(&self) -> bool {
        valid_cells(self.cells@)
    }

    /// The position whose squares hold `cells`, if these are 64 valid cell indices.
    pub fn from_cells(cells: Vec<usize>) -> (r: Option<BoardCells>)
        ensures
            r is Some <==> valid_cells(cells@),
            r matches Some(b) ==> b@ == cells@,
    {
        if cells.len() != 64 {
            return None;
        }
        let mut i: usize = 0;
        while i < 64
            invariant
                cells@.len() == 64,
                i <= 64,
                forall|j: int| 0 <= j < i ==> #[trigger] cells@[j] < 13,
            decreases 64 - i,
        {
            if cells[i] >= 13 {
                return None;
            }
            i = i + 1;
        }
        Some(BoardCells { cells })
    }

    /// The cells of `board`, read square by square.
    pub fn from_board(board: &Board) -> (r: BoardCells)
        ensures
            valid_cells(r@),
            forall|i: int| 0 <= i < 64 ==> #[trigger] r@[i] == board_cells(*board)[i],
    {
        let mut cells: Vec<usize> = Vec::new();
        let mut i: usize = 0;
        while i < 64
            invariant
                i <= 64,
                cells@.len() == i,
                forall|j: int| 0 <= j < i ==> #[trigger] cells@[j] == board_cells(*board)[j],
                forall|j: int| 0 <= j < i ==> #[trigger] cells@[j] < 13,
            decreases 64 - i,
        {
            let c = cell_index_at(board, i);
            cells.push(c);
            i = i + 1;
        }
        BoardCells { cells }
    }

    /// The cell index of square `idx`.
    pub fn cell(&self, idx: usize) -> (r: usize)
        requires
            idx < 64,
        ensures
            r == self@[idx as int],
            r < 13,
    {
        proof {
            use_type_invariant(self);
        }
        self.cells[idx]
    }
}

/// Material counts that read the same cells agree.
pub proof fn lemma_points_same_cells(a: Seq<usize>, b: Seq<usize>, color: Color, n: int)
    requires
        forall|i: int| 0 <= i < n ==> a[i] == b[i],
    ensures
        color_points_upto(a, color, n) == color_points_upto(b, color, n),
    decreases n,
{
    if n > 0 {
        lemma_points_same_cells(a, b, color, n - 1);
    }
}

/// Total material of `color` over the squares with index 0 through 62 of the position
/// `cells` (the square with index 63, h1, is not visited).
pub fn color_points_of(cells: &BoardCells, color: &Color) -> (r: usize)
    ensures
        r == color_points_upto(cells@, *color, 63),
        r <= 9 * 63,
{
    let mut total: usize = 0;
    let mut x: usize = 0;
    while x < 63
        invariant
            x <= 63,
            total == color_points_upto(cells@, *color, x as int),
            total <= 9 * x,
        decreases 63 - x,
    {
        let cell = cells.cell(x);
        proof {
            lemma_square_points_bound(cell as int, *color);
        }
        if let Some((piece, c)) = decode_cell(cell) {
            if *color == c {
                total = total + get_points(piece);
            }
        }
        x = x + 1;
    }
    total
}

/// Total material of `color` over the squares with index 0 through 62 of `board`
/// (the square with index 63, h1, is not visited).
pub fn get_color_points(board: &Board, color: &Color) -> (r: usize)
    ensures
        r == color_points_upto(board_cells(*board), *color, 63),
        r <= 9 * 63,
{
    let cells = BoardCells::from_board(board);
    let r = color_points_of(&cells, color);
    proof {
        lemma_points_same_cells(cells@, board_cells(*board), *color, 63);
    }
    r
}

} // verus!
