//! What holds of boards and of the moves on them, whatever the board.

use vstd::prelude::*;
use crate::cell::CellMarker;
use crate::counting::{
    count_below, lemma_count_full, lemma_count_le, lemma_count_same, lemma_count_zero,
};
use crate::grid::{
    lemma_adjacent_mines_same, lemma_flood_start, lemma_flood_stops, slot, touching, toward,
    BoardState,
};

verus! {

/// The number of mines round a square is the sum over its eight neighbours
/// of one for each that is on the board and holds a mine; it is at most
/// eight.
pub proof fn lemma_adjacent_mines_by_hand(s: BoardState, x: int, y: int)
    ensures
        s.adjacent_mines(x, y) == s.mine_value(x - 1, y - 1) + s.mine_value(x, y - 1)
            + s.mine_value(x + 1, y - 1) + s.mine_value(x - 1, y) + s.mine_value(x + 1, y)
            + s.mine_value(x - 1, y + 1) + s.mine_value(x, y + 1) + s.mine_value(x + 1, y + 1),
        s.adjacent_mines(x, y) <= 8,
{
    reveal_with_fuel(count_below, 10);
}

/// A pick of a square that is already revealed changes nothing and sets
/// off no mine.
pub proof fn lemma_pick_revealed(s: BoardState, x: int, y: int)
    requires
        s.wf(),
        s.valid(x, y),
        s.cell(x, y).revealed,
    ensures
        s.picked(x, y) == s,
        !s.can_pick(x, y),
{
    lemma_pick_refused(s, x, y);
}

/// A pick of a square that cannot be picked (one off the board, a marked
/// or a revealed one) changes nothing.
pub proof fn lemma_pick_refused(s: BoardState, x: int, y: int)
    requires
        s.wf(),
        !s.can_pick(x, y),
    ensures
        s.picked(x, y) == s,
{
    assert forall|k: int| 0 <= k < 900 implies #[trigger] s.picked(x, y).cells[k] == s.cells[k] by {
        lemma_flood_stops(s, (x, y), (k / 30, k % 30));
    }
    assert(s.picked(x, y).cells =~= s.cells);
}

/// After a pick the square cannot be picked again: a second pick of it
/// changes nothing and sets off no mine.
pub proof fn lemma_pick_twice(s: BoardState, x: int, y: int)
    requires
        s.wf(),
    ensures
        !s.picked(x, y).can_pick(x, y),
        s.picked(x, y).picked(x, y) == s.picked(x, y),
{
    let t = s.picked(x, y);
    if s.can_pick(x, y) {
        lemma_flood_start(s, (x, y));
        assert(0 <= slot(x, y) < 900);
        assert(slot(x, y) / 30 == x && slot(x, y) % 30 == y);
        assert(t.cells[slot(x, y)].revealed);
    } else {
        lemma_pick_refused(s, x, y);
    }
    lemma_pick_refused(t, x, y);
}

/// On a populated board a pick reveals no mine but the one that is picked:
/// the flood stops before every mine.
pub proof fn lemma_flood_spares_mines(s: BoardState, from: (int, int), to: (int, int))
    requires
        s.populated(),
        s.flood_reaches(from, to),
        to != from,
    ensures
        !s.cell(to.0, to.1).mine,
{
    let p = choose|p: Seq<(int, int)>| #[trigger] s.flood_path(p) && p[0] == from && p.last() == to;
    let i = p.len() - 2;
    let a = p[i];
    assert(s.spreads(a.0, a.1) && touching(a, p[i + 1]));
    assert(s.cell(a.0, a.1).adjacent == s.adjacent_mines(a.0, a.1));
    lemma_count_zero(|j: int| s.neighbour_mine(a.0, a.1, j), 9);
    let j = (to.1 - a.1 + 1) * 3 + (to.0 - a.0 + 1);
    assert(toward(a.0, a.1, j) == to);
    assert(!(|j: int| s.neighbour_mine(a.0, a.1, j))(j));
    assert(s.can_pick(to.0, to.1));
}

/// A pick takes no square back: what was revealed stays revealed, and
/// mines, markers and counts stay as they were.
pub proof fn lemma_pick_only_reveals(s: BoardState, x: int, y: int, k: int)
    requires
        s.wf(),
        0 <= k < 900,
    ensures
        s.cells[k].revealed ==> s.picked(x, y).cells[k].revealed,
        s.picked(x, y).cells[k].mine == s.cells[k].mine,
        s.picked(x, y).cells[k].marker == s.cells[k].marker,
        s.picked(x, y).cells[k].adjacent == s.cells[k].adjacent,
{
}

/// A pick leaves a populated board populated.
pub proof fn lemma_pick_keeps_populated(s: BoardState, x: int, y: int)
    requires
        s.populated(),
    ensures
        s.picked(x, y).populated(),
{
    let t = s.picked(x, y);
    lemma_count_same(|k: int| t.mine_at(k), |k: int| s.mine_at(k), 900);
    assert forall|a: int, b: int| t.valid(a, b) && !(#[trigger] t.cell(a, b)).mine implies t.cell(
        a,
        b,
    ).adjacent == t.adjacent_mines(a, b) by {
        lemma_adjacent_mines_same(t, s, a, b);
        assert(0 <= slot(a, b) < 900);
        assert(!s.cell(a, b).mine);
    }
}

/// Marking a square leaves a populated board populated.
pub proof fn lemma_mark_keeps_populated(s: BoardState, x: int, y: int)
    requires
        s.populated(),
    ensures
        s.marked(x, y).populated(),
{
    let t = s.marked(x, y);
    lemma_count_same(|k: int| t.mine_at(k), |k: int| s.mine_at(k), 900);
    assert forall|a: int, b: int| t.valid(a, b) && !(#[trigger] t.cell(a, b)).mine implies t.cell(
        a,
        b,
    ).adjacent == t.adjacent_mines(a, b) by {
        lemma_adjacent_mines_same(t, s, a, b);
        assert(0 <= slot(a, b) < 900);
        assert(!s.cell(a, b).mine);
    }
}

/// Marking a hidden, unmarked square of the board three times sets a flag,
/// then a question mark, and then leaves the board as it was at first.
pub proof fn lemma_mark_cycle(s: BoardState, x: int, y: int)
    requires
        s.wf(),
        s.valid(x, y),
        !s.cell(x, y).revealed,
        s.cell(x, y).marker == CellMarker::Unmarked,
    ensures
        s.marked(x, y).cell(x, y).marker == CellMarker::HasBomb,
        s.marked(x, y).marked(x, y).cell(x, y).marker == CellMarker::GuessBomb,
        s.marked(x, y).marked(x, y).marked(x, y) == s,
{
    lemma_mark_thrice(s, x, y);
}

/// Marking any square three times leaves the board as it was.
pub proof fn lemma_mark_thrice(s: BoardState, x: int, y: int)
    requires
        s.wf(),
    ensures
        s.marked(x, y).marked(x, y).marked(x, y) == s,
{
    let t = s.marked(x, y).marked(x, y).marked(x, y);
    if s.valid(x, y) {
        assert(0 <= slot(x, y) < 900);
    }
    assert(t.cells =~= s.cells);
}

/// A board on which a square without a mine is still hidden is not won,
/// whatever is flagged.
pub proof fn lemma_hidden_square_blocks_win(s: BoardState, x: int, y: int)
    requires
        s.valid(x, y),
        !s.cell(x, y).mine,
        !s.cell(x, y).revealed,
    ensures
        !s.won(),
{
}

/// No more mines carry a flag than there are mines.
pub proof fn lemma_flags_within_mines(s: BoardState)
    ensures
        s.flagged_mines() <= s.mine_count(),
{
    lemma_count_le(|k: int| s.flagged_mine_at(k), |k: int| s.mine_at(k), 900);
}

/// A populated board is won if and only if every mine of it carries a flag
/// and every other square of it is revealed.
pub proof fn lemma_won_exactly(s: BoardState)
    requires
        s.populated(),
    ensures
        s.won() <==> forall|x: int, y: int|
            s.valid(x, y) ==> if (#[trigger] s.cell(x, y)).mine {
                s.cell(x, y).marker == CellMarker::HasBomb
            } else {
                s.cell(x, y).revealed
            },
{
    let f = |k: int| s.flagged_mine_at(k);
    let m = |k: int| s.mine_at(k);
    if s.won() {
        lemma_count_full(f, m, 900);
        assert forall|x: int, y: int| s.valid(x, y) implies if (#[trigger] s.cell(x, y)).mine {
            s.cell(x, y).marker == CellMarker::HasBomb
        } else {
            s.cell(x, y).revealed
        } by {
            let k = slot(x, y);
            assert(k / 30 == x && k % 30 == y);
            if s.cell(x, y).mine {
                assert(m(k));
                assert(f(k));
            }
        }
    }
    if (forall|x: int, y: int|
        s.valid(x, y) ==> if (#[trigger] s.cell(x, y)).mine {
            s.cell(x, y).marker == CellMarker::HasBomb
        } else {
            s.cell(x, y).revealed
        }) {
        assert forall|k: int| 0 <= k < 900 implies #[trigger] f(k) == #[trigger] m(k) by {
            if s.on_board(k) {
                assert(slot(k / 30, k % 30) == k);
                assert(s.cell(k / 30, k % 30) == s.cells[k]);
            }
        }
        lemma_count_same(f, m, 900);
    }
}

} // verus!
