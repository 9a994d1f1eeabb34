//! What a player derives from a position: the network input, and the legal move
//! that an output slot stands for.
use crate::game::{
    board_cells, cell_contents, decode_cell, get_id, piece_id, BoardCells, Color, Piece,
};
use owlchess::{Board, Move};
use vstd::prelude::*;

verus! {

/// Entry `k` of the network input for a position whose squares hold `cells`, with
/// `color` to move: entries `6 * s .. 6 * s + 6` are a one-hot code of the piece kind on
/// square `s` (all zero for an empty square), for squares 0 through 62 (square 63, h1,
/// is left out); entries 378 to 383 stay zero; entry 384 is set when black is to move.
pub open spec fn input_bit(cells: Seq<usize>, color: Color, k: int) -> u8 {
    if k == 384 {
        if color == Color::Black {
            1
        } else {
            0
        }
    } else if k / 6 < 63 && (match cell_contents(cells[k / 6] as int) {
        Some((p, _)) => piece_id(p) == k % 6,
        None => false,
    }) {
        1
    } else {
        0
    }
}

/// Every piece on a square below 63 switches on exactly the input of its kind in that
/// square's block of six, whatever the other squares hold.
pub proof fn lemma_input_marks_piece(cells: Seq<usize>, color: Color, s: int, p: Piece, c: Color)
    requires
        0 <= s < 63,
        cell_contents(cells[s] as int) == Some((p, c)),
    ensures
        input_bit(cells, color, 6 * s + piece_id(p)) == 1,
        forall|q: int|
            0 <= q < 6 && q != piece_id(p) ==> #[trigger] input_bit(cells, color, 6 * s + q) == 0,
{
    assert((6 * s + piece_id(p)) / 6 == s && (6 * s + piece_id(p)) % 6 == piece_id(p));
    assert forall|q: int| 0 <= q < 6 && q != piece_id(p) implies #[trigger] input_bit(
        cells,
        color,
        6 * s + q,
    ) == 0 by {
        assert((6 * s + q) / 6 == s && (6 * s + q) % 6 == q);
    }
}

/// An empty square below 63 switches on none of the six inputs of its block.
pub proof fn lemma_input_empty_square(cells: Seq<usize>, color: Color, s: int)
    requires
        0 <= s < 63,
        cell_contents(cells[s] as int) is None,
    ensures
        forall|q: int| 0 <= q < 6 ==> #[trigger] input_bit(cells, color, 6 * s + q) == 0,
{
    assert forall|q: int| 0 <= q < 6 implies #[trigger] input_bit(cells, color, 6 * s + q) == 0 by {
        assert((6 * s + q) / 6 == s);
    }
}

/// The last input says whose move it is: it is on exactly when black is to move.
pub proof fn lemma_input_side_to_move(cells: Seq<usize>, color: Color)
    ensures
        input_bit(cells, color, 384) == 1 <==> color == Color::Black,
{
}

/// The network input for the position `cells` with `color` to move, one 0/1 entry per
/// input neuron.
pub fn input_layer_of(cells: &BoardCells, color: &Color) -> (r: Vec<u8>)
    ensures
        r@.len() == 385,
        forall|k: int| 0 <= k < 385 ==> #[trigger] r@[k] == input_bit(cells@, *color, k),
        r@[384] == 1 <==> *color == Color::Black,
        forall|k: int| 0 <= k < 385 ==> #[trigger] r@[k] <= 1,
        forall|k: int| 378 <= k < 384 ==> #[trigger] r@[k] == 0,
        forall|k: int|
            #![trigger r@[k]]
            0 <= k < 378 ==> (r@[k] == 1 <==> match cell_contents(cells@[k / 6] as int) {
                Some((p, _)) => piece_id(p) == k % 6,
                None => false,
            }),
{
    let mut out: Vec<u8> = Vec::new();
    let mut k: usize = 0;
    while k < 385
        invariant
            k <= 385,
            out@.len() == k,
            forall|j: int| 0 <= j < k ==> #[trigger] out@[j] == 0,
        decreases 385 - k,
    {
        out.push(0);
        k = k + 1;
    }
    let ghost seq = cells@;
    let mut i: usize = 0;
    while i < 63
        invariant
            i <= 63,
            seq == cells@,
            out@.len() == 385,
            forall|j: int|
                0 <= j < 384 ==> #[trigger] out@[j] == (if j / 6 < i && (match cell_contents(
                    seq[j / 6] as int,
                ) {
                    Some((p, _)) => piece_id(p) == j % 6,
                    None => false,
                }) {
                    1u8
                } else {
                    0u8
                }),
            out@[384] == 0,
        decreases 63 - i,
    {
        let cell = cells.cell(i);
        if let Some((p, _)) = decode_cell(cell) {
            let idx = i * 6 + get_id(p);
            out.set(idx, 1);
        }
        i = i + 1;
    }
    if *color == Color::Black {
        out.set(384, 1);
    }
    out
}

/// The network input for `board` with `color` to move, one 0/1 entry per input neuron.
pub fn input_layer(board: &Board, color: &Color) -> (r: Vec<u8>)
    ensures
        r@.len() == 385,
        forall|k: int| 0 <= k < 385 ==> #[trigger] r@[k] == input_bit(board_cells(*board), *color, k),
        r@[384] == 1 <==> *color == Color::Black,
        forall|k: int| 0 <= k < 385 ==> #[trigger] r@[k] <= 1,
        forall|k: int| 378 <= k < 384 ==> #[trigger] r@[k] == 0,
        forall|k: int|
            #![trigger r@[k]]
            0 <= k < 378 ==> (r@[k] == 1 <==> match cell_contents(board_cells(*board)[k / 6] as int) {
                Some((p, _)) => piece_id(p) == k % 6,
                None => false,
            }),
{
    let cells = BoardCells::from_board(board);
    let r = input_layer_of(&cells, color);
    assert forall|k: int| 0 <= k < 385 implies #[trigger] r@[k] == input_bit(
        board_cells(*board),
        *color,
        k,
    ) by {
        if k / 6 < 63 {
            assert(cells@[k / 6] == board_cells(*board)[k / 6]);
        }
    }
    r
}

#[verifier::external_type_specification]
#[verifier::external_body]
pub struct ExMove(owlchess::Move);

/// The legal moves of a board, in the order in which the chess engine generates them.
pub uninterp spec fn legal_moves_of(board: Board) -> Seq<Move>;

/// The legal moves of `board` as `owlchess::movegen::legal::gen_all` lists them, in
/// its order. Claimed: the list is `legal_moves_of(board)` (the generator is a function
/// of the board alone) and holds at most 256 moves (the capacity of
/// `owlchess::MoveList`); nothing is claimed of which moves they are.
#[verifier::external_body]
fn legal_moves(board: &Board) -> (r: Vec<Move>)
    ensures
        r@ == legal_moves_of(*board),
        r@.len() <= 256,
{
    owlchess::movegen::legal::gen_all(board).iter().copied().collect()
}

/// The item that slot `slot` stands for when the slots cycle through `items`; `None`
/// when there is no item.
pub fn pick_slot<T: Copy>(items: &Vec<T>, slot: usize) -> (r: Option<T>)
    ensures
        items@.len() == 0 ==> r is None,
        items@.len() > 0 ==> r == Some(items@[slot as int % items@.len() as int]),
{
    if items.len() == 0 {
        None
    } else {
        Some(items[slot % items.len()])
    }
}

/// The legal move of `board` that output slot `slot` stands for: the legal moves in
/// generation order, taken cyclically. `None` when there is no legal move.
pub fn move_for_slot(board: &Board, slot: usize) -> (r: Option<Move>)
    ensures
        legal_moves_of(*board).len() == 0 ==> r is None,
        legal_moves_of(*board).len() > 0 ==> r == Some(
            legal_moves_of(*board)[slot as int % legal_moves_of(*board).len() as int],
        ),
{
    let moves = legal_moves(board);
    pick_slot(&moves, slot)
}

} // verus!
