//! The mathematical model of a board: its dimensions, its mine budget and
//! the state of every square of the storage.

use vstd::prelude::*;
use crate::cell::{CellMarker, CellState};
use crate::counting::{count_below, lemma_count_same, lemma_count_skip};

verus! {

/// The widest board the storage can hold.
pub const MAX_BOARD_WIDTH: usize = 30;

/// The tallest board the storage can hold.
pub const MAX_BOARD_HEIGHT: usize = 30;

/// The number of squares of the storage.
pub const BOARD_CAPACITY: usize = 900;

/// The place of square `(x, y)` in the storage, which is laid out column by
/// column.
pub open spec fn slot(x: int, y: int) -> int {
    x * 30 + y
}

/// The value of a board. `cells` is the whole storage; the board proper is
/// the `width` by `height` rectangle at its origin.
pub struct BoardState {
    pub width: nat,
    pub height: nat,
    pub budget: nat,
    pub cells: Seq<CellState>,
}

impl BoardState {
    /// The storage is complete, the board fits into it, and the budget fits
    /// on the board.
    pub open spec fn wf(self) -> bool {
        &&& self.width <= 30
        &&& self.height <= 30
        &&& self.cells.len() == 900
        &&& self.budget <= self.width * self.height
    }

    /// `(x, y)` is a square of the board.
    pub open spec fn valid(self, x: int, y: int) -> bool {
        0 <= x < self.width && 0 <= y < self.height
    }

    /// The square at `(x, y)`.
    pub open spec fn cell(self, x: int, y: int) -> CellState {
        self.cells[slot(x, y)]
    }

    /// Storage place `k` belongs to the board.
    pub open spec fn on_board(self, k: int) -> bool {
        0 <= k < 900 && self.valid(k / 30, k % 30)
    }

    /// Storage place `k` is a square of the board with a mine.
    pub open spec fn mine_at(self, k: int) -> bool {
        self.on_board(k) && self.cells[k].mine
    }

    /// Storage place `k` is a square of the board without a mine.
    pub open spec fn free_at(self, k: int) -> bool {
        self.on_board(k) && !self.cells[k].mine
    }

    /// Storage place `k` is a square of the board with a mine and a flag.
    pub open spec fn flagged_mine_at(self, k: int) -> bool {
        self.on_board(k) && self.cells[k].mine && self.cells[k].marker == CellMarker::HasBomb
    }

    /// Storage place `k` is a square of the board that is not revealed.
    pub open spec fn hidden_at(self, k: int) -> bool {
        self.on_board(k) && !self.cells[k].revealed
    }

    /// The number of mines on the board.
    pub open spec fn mine_count(self) -> nat {
        count_below(|k: int| self.mine_at(k), 900)
    }

    /// The number of squares of the board without a mine among the first
    /// `n` places of the storage.
    pub open spec fn free_below(self, n: int) -> nat {
        count_below(|k: int| self.free_at(k), n)
    }

    /// The number of squares of the board without a mine.
    pub open spec fn free_count(self) -> nat {
        self.free_below(900)
    }

    /// The number of mines that carry a flag.
    pub open spec fn flagged_mines(self) -> nat {
        count_below(|k: int| self.flagged_mine_at(k), 900)
    }

    /// The number of squares of the board that are not revealed.
    pub open spec fn hidden_count(self) -> nat {
        count_below(|k: int| self.hidden_at(k), 900)
    }

    /// The `j`-th of the nine offsets `(-1, -1)`, `(0, -1)`, .. `(1, 1)` from
    /// `(x, y)` is another square of the board and holds a mine.
    pub open spec fn neighbour_mine(self, x: int, y: int, j: int) -> bool {
        let nx = x + j % 3 - 1;
        let ny = y + j / 3 - 1;
        j != 4 && self.valid(nx, ny) && self.cell(nx, ny).mine
    }

    /// One if `(x, y)` is a square of the board and holds a mine, else zero.
    pub open spec fn mine_value(self, x: int, y: int) -> nat {
        if self.valid(x, y) && self.cell(x, y).mine {
            1
        } else {
            0
        }
    }

    /// The number of mines among the up to eight neighbours of `(x, y)`.
    pub open spec fn adjacent_mines(self, x: int, y: int) -> nat {
        count_below(|j: int| self.neighbour_mine(x, y, j), 9)
    }

    /// Every square without a mine stores the number of its neighbours that
    /// hold one.
    pub open spec fn counts_consistent(self) -> bool {
        forall|x: int, y: int|
            self.valid(x, y) && !(#[trigger] self.cell(x, y)).mine ==> self.cell(x, y).adjacent
                == self.adjacent_mines(x, y)
    }

    /// The board holds exactly its budget of mines, and the stored counts
    /// are right.
    pub open spec fn populated(self) -> bool {
        &&& self.wf()
        &&& self.mine_count() == self.budget
        &&& self.counts_consistent()
    }

    /// As many mines carry a flag as the budget counts, and every square
    /// without a mine is revealed.
    pub open spec fn won(self) -> bool {
        &&& self.flagged_mines() == self.budget
        &&& forall|x: int, y: int|
            self.valid(x, y) && !(#[trigger] self.cell(x, y)).mine ==> self.cell(x, y).revealed
    }

    /// The same board with the square at `(x, y)` replaced.
    pub open spec fn with_cell(self, x: int, y: int, c: CellState) -> BoardState {
        BoardState { cells: self.cells.update(slot(x, y), c), ..self }
    }

    /// The marker that follows `m` in the cycle of marks.
    pub open spec fn next_marker(m: CellMarker) -> CellMarker {
        match m {
            CellMarker::Unmarked => CellMarker::HasBomb,
            CellMarker::HasBomb => CellMarker::GuessBomb,
            CellMarker::GuessBomb => CellMarker::Unmarked,
        }
    }

    /// The board after the player has marked `(x, y)`: a hidden square of
    /// the board gets the next marker, anything else changes nothing.
    pub open spec fn marked(self, x: int, y: int) -> BoardState {
        if self.valid(x, y) && !self.cell(x, y).revealed {
            self.with_cell(
                x,
                y,
                CellState { marker: Self::next_marker(self.cell(x, y).marker), ..self.cell(x, y) },
            )
        } else {
            self
        }
    }

    /// The two boards have the same dimensions and budget.
    pub open spec fn same_frame(self, other: BoardState) -> bool {
        &&& self.width == other.width
        &&& self.height == other.height
        &&& self.budget == other.budget
        &&& self.cells.len() == other.cells.len()
    }

    /// The square at `(x, y)` can be picked: it is on the board, hidden and
    /// unmarked.
    pub open spec fn can_pick(self, x: int, y: int) -> bool {
        self.valid(x, y) && self.cell(x, y).marker == CellMarker::Unmarked && !self.cell(
            x,
            y,
        ).revealed
    }

    /// A pick of the square at `(x, y)` spreads to its neighbours: it can be
    /// picked, holds no mine and stores the count zero.
    pub open spec fn spreads(self, x: int, y: int) -> bool {
        self.can_pick(x, y) && !self.cell(x, y).mine && self.cell(x, y).adjacent == 0
    }

    /// `path` is a way that a pick can spread along: each square on it can
    /// be picked, each but the last spreads, and each touches the next.
    pub open spec fn flood_path(self, path: Seq<(int, int)>) -> bool {
        &&& path.len() > 0
        &&& forall|i: int| 0 <= i < path.len() ==> self.can_pick((#[trigger] path[i]).0, path[i].1)
        &&& forall|i: int|
            0 <= i < path.len() - 1 ==> self.spreads((#[trigger] path[i]).0, path[i].1)
                && touching(path[i], path[i + 1])
    }

    /// A pick of `from` reveals `to`.
    pub open spec fn flood_reaches(self, from: (int, int), to: (int, int)) -> bool {
        exists|path: Seq<(int, int)>|
            #[trigger] self.flood_path(path) && path[0] == from && path.last() == to
    }

    /// The board after a pick of `(x, y)`: every square that the pick
    /// reaches is revealed, and nothing else changes.
    pub open spec fn picked(self, x: int, y: int) -> BoardState {
        BoardState {
            cells: Seq::new(
                900,
                |k: int|
                    if self.flood_reaches((x, y), (k / 30, k % 30)) {
                        CellState { revealed: true, ..self.cells[k] }
                    } else {
                        self.cells[k]
                    },
            ),
            ..self
        }
    }

    /// While a pick of `from` on `before` is under way, `self` differs from
    /// `before` only in revealed squares, each of which the pick reaches.
    pub open spec fn flooding(self, before: BoardState, from: (int, int)) -> bool {
        &&& self.same_frame(before)
        &&& forall|k: int|
            0 <= k < 900 ==> #[trigger] self.cells[k] == before.cells[k] || (self.cells[k] == (
            CellState { revealed: true, ..before.cells[k] }) && before.flood_reaches(
                from,
                (k / 30, k % 30),
            ))
    }

    /// The `j`-th neighbour of `(x, y)` is revealed if it could be picked on
    /// `before`.
    pub open spec fn settled_toward(self, before: BoardState, x: int, y: int, j: int) -> bool {
        let n = toward(x, y, j);
        before.can_pick(n.0, n.1) ==> self.cell(n.0, n.1).revealed
    }

    /// The first `upto` neighbours of `(x, y)` are settled.
    pub open spec fn settled(self, before: BoardState, x: int, y: int, upto: int) -> bool {
        forall|j: int| 0 <= j < upto ==> #[trigger] self.settled_toward(before, x, y, j)
    }

    /// `self` is `before` with mines added: every square keeps its marker
    /// and whether it is revealed, no mine is taken away, and nothing off
    /// the board is touched.
    pub open spec fn adds_mines_to(self, before: BoardState) -> bool {
        &&& self.same_frame(before)
        &&& forall|k: int|
            0 <= k < 900 ==> {
                &&& (#[trigger] self.cells[k]).marker == before.cells[k].marker
                &&& self.cells[k].revealed == before.cells[k].revealed
                &&& before.cells[k].mine ==> self.cells[k].mine
                &&& self.cells[k].mine ==> self.cells[k].adjacent == before.cells[k].adjacent
                &&& !self.on_board(k) ==> self.cells[k] == before.cells[k]
            }
    }

    /// No square of the storage is revealed or marked, no square off the
    /// board holds anything, and no mine stores a count.
    pub open spec fn fresh(self) -> bool {
        forall|k: int|
            0 <= k < 900 ==> {
                &&& !(#[trigger] self.cells[k]).revealed
                &&& self.cells[k].marker == CellMarker::Unmarked
                &&& self.cells[k].mine ==> self.cells[k].adjacent == 0
                &&& !self.on_board(k) ==> self.cells[k] == CellState::blank()
            }
    }
}

/// The two squares are neighbours: different, and at most one step apart in
/// each direction.
pub open spec fn touching(a: (int, int), b: (int, int)) -> bool {
    a != b && -1 <= a.0 - b.0 <= 1 && -1 <= a.1 - b.1 <= 1
}

/// The square that lies at the `j`-th of the nine offsets `(-1, -1)`,
/// `(0, -1)`, .. `(1, 1)` from `(x, y)`.
pub open spec fn toward(x: int, y: int, j: int) -> (int, int) {
    (x + j % 3 - 1, y + j / 3 - 1)
}

/// `(x, y)` is one of the first `n` entries of `mines`.
pub open spec fn listed_below(mines: Seq<(usize, usize)>, n: int, x: int, y: int) -> bool {
    exists|i: int| 0 <= i < n && i < mines.len() && (#[trigger] mines[i]).0 == x && mines[i].1 == y
}

/// `mines` can be laid out on a board of `width` by `height` squares: the
/// board fits the storage, every entry is a square of the board, and no
/// square is named twice.
pub open spec fn layout_fits(width: int, height: int, mines: Seq<(usize, usize)>) -> bool {
    &&& width <= 30
    &&& height <= 30
    &&& forall|i: int|
        0 <= i < mines.len() ==> (#[trigger] mines[i]).0 < width && mines[i].1 < height
    &&& forall|i: int, j: int|
        0 <= i < j < mines.len() ==> #[trigger] mines[i] != #[trigger] mines[j]
}

/// A board of `w` by `h` squares has `w * h` squares.
pub proof fn lemma_board_squares(s: BoardState)
    requires
        s.width <= 30,
        s.height <= 30,
    ensures
        count_below(|k: int| s.on_board(k), 900) == s.width * s.height,
{
    let p = |k: int| s.on_board(k);
    if s.width > 0 {
        lemma_squares_below(s, s.width - 1, 30);
        assert((s.width - 1) * s.height + s.height == s.width * s.height) by (nonlinear_arith);
    } else {
        assert(s.width * s.height == 0) by (nonlinear_arith)
            requires
                s.width == 0,
        ;
    }
    lemma_count_skip(p, s.width as int * 30, 900);
}

/// The first `y` places of column `x` and the columns before it hold
/// `x * h` squares of the board and the smaller of `y` and `h` more.
proof fn lemma_squares_below(s: BoardState, x: int, y: int)
    requires
        s.width <= 30,
        s.height <= 30,
        0 <= x < s.width,
        0 <= y <= 30,
    ensures
        count_below(|k: int| s.on_board(k), x * 30 + y) == x * s.height + if y < s.height {
            y
        } else {
            s.height as int
        },
    decreases x, y,
{
    if y > 0 {
        lemma_squares_below(s, x, y - 1);
        let k = x * 30 + y - 1;
        assert(k / 30 == x && k % 30 == y - 1);
    } else if x > 0 {
        lemma_squares_below(s, x - 1, 30);
        assert((x - 1) * s.height + s.height == x * s.height) by (nonlinear_arith);
    } else {
        assert(x * s.height == 0) by (nonlinear_arith)
            requires
                x == 0,
        ;
    }
}

/// A board holds no more mines than it has squares, and its mines and its
/// free squares together are its squares.
pub proof fn lemma_mines_and_free(s: BoardState)
    requires
        s.width <= 30,
        s.height <= 30,
    ensures
        s.mine_count() + s.free_count() == s.width * s.height,
{
    lemma_board_squares(s);
    lemma_split(s, 900);
}

proof fn lemma_split(s: BoardState, n: int)
    ensures
        count_below(|k: int| s.mine_at(k), n) + count_below(|k: int| s.free_at(k), n)
            == count_below(|k: int| s.on_board(k), n),
    decreases n,
{
    if n > 0 {
        lemma_split(s, n - 1);
    }
}

/// The number of mines round a square depends on the mines alone.
pub proof fn lemma_adjacent_mines_same(a: BoardState, b: BoardState, x: int, y: int)
    requires
        a.same_frame(b),
        a.cells.len() == 900,
        a.width <= 30,
        a.height <= 30,
        forall|k: int| 0 <= k < 900 ==> (#[trigger] a.cells[k]).mine == b.cells[k].mine,
    ensures
        a.adjacent_mines(x, y) == b.adjacent_mines(x, y),
{
    let pa = |j: int| a.neighbour_mine(x, y, j);
    let pb = |j: int| b.neighbour_mine(x, y, j);
    assert forall|j: int| 0 <= j < 9 implies #[trigger] pa(j) == #[trigger] pb(j) by {
        let nx = x + j % 3 - 1;
        let ny = y + j / 3 - 1;
        if a.valid(nx, ny) {
            assert(0 <= slot(nx, ny) < 900);
            assert(a.cells[slot(nx, ny)].mine == b.cells[slot(nx, ny)].mine);
        }
    }
    lemma_count_same(pa, pb, 9);
}

/// A pick reveals the square that is picked, if it can be picked.
pub proof fn lemma_flood_start(b: BoardState, from: (int, int))
    requires
        b.can_pick(from.0, from.1),
    ensures
        b.flood_reaches(from, from),
{
    let p = seq![from];
    assert(b.flood_path(p));
    assert(p[0] == from && p.last() == from);
}

/// A pick that reaches a square which spreads also reaches each neighbour
/// of it that can be picked.
pub proof fn lemma_flood_step(b: BoardState, from: (int, int), via: (int, int), to: (int, int))
    requires
        b.flood_reaches(from, via),
        b.spreads(via.0, via.1),
        touching(via, to),
        b.can_pick(to.0, to.1),
    ensures
        b.flood_reaches(from, to),
{
    let p = choose|p: Seq<(int, int)>| #[trigger] b.flood_path(p) && p[0] == from && p.last() == via;
    let q = p.push(to);
    assert forall|i: int| 0 <= i < q.len() implies b.can_pick((#[trigger] q[i]).0, q[i].1) by {
        if i < p.len() {
            assert(q[i] == p[i]);
        }
    }
    assert forall|i: int| 0 <= i < q.len() - 1 implies b.spreads((#[trigger] q[i]).0, q[i].1)
        && touching(q[i], q[i + 1]) by {
        assert(q[i] == p[i]);
        if i < p.len() - 1 {
            assert(q[i + 1] == p[i + 1]);
        }
    }
    assert(b.flood_path(q));
    assert(q[0] == p[0] && q.last() == to);
}

/// A pick of a square that cannot be picked reaches nothing, and a pick of
/// one that does not spread reaches that square alone.
pub proof fn lemma_flood_stops(b: BoardState, from: (int, int), to: (int, int))
    requires
        !b.spreads(from.0, from.1),
    ensures
        b.flood_reaches(from, to) <==> b.can_pick(from.0, from.1) && to == from,
{
    if b.flood_reaches(from, to) {
        let p = choose|p: Seq<(int, int)>| #[trigger] b.flood_path(p) && p[0] == from && p.last() == to;
        assert(b.can_pick(p[0].0, p[0].1));
        if p.len() > 1 {
            assert(b.spreads(p[0].0, p[0].1));
        }
    }
    if b.can_pick(from.0, from.1) {
        lemma_flood_start(b, from);
    }
}

/// Where the picked square is revealed and every revealed square that
/// spreads has all its neighbours settled, every square on a way from the
/// picked one is revealed.
pub proof fn lemma_flood_complete(
    cur: BoardState,
    before: BoardState,
    path: Seq<(int, int)>,
    i: int,
)
    requires
        before.flood_path(path),
        0 <= i < path.len(),
        cur.cell(path[0].0, path[0].1).revealed,
        forall|x: int, y: int|
            before.spreads(x, y) && (#[trigger] cur.cell(x, y)).revealed ==> cur.settled(
                before,
                x,
                y,
                9,
            ),
    ensures
        cur.cell(path[i].0, path[i].1).revealed,
    decreases i,
{
    if i > 0 {
        lemma_flood_complete(cur, before, path, i - 1);
        let a = path[i - 1];
        let b = path[i];
        assert(before.spreads(a.0, a.1) && touching(a, b));
        assert(before.can_pick(b.0, b.1));
        assert(cur.cell(a.0, a.1).revealed);
        let j = (b.1 - a.1 + 1) * 3 + (b.0 - a.0 + 1);
        assert(toward(a.0, a.1, j) == b);
        assert(cur.settled_toward(before, a.0, a.1, j));
    }
}

/// Revealing more squares leaves settled neighbours settled.
pub proof fn lemma_settled_stays(
    cur: BoardState,
    next: BoardState,
    before: BoardState,
    x: int,
    y: int,
    upto: int,
)
    requires
        cur.settled(before, x, y, upto),
        cur.cells.len() == 900,
        next.cells.len() == 900,
        before.width <= 30,
        before.height <= 30,
        forall|k: int| 0 <= k < 900 && (#[trigger] cur.cells[k]).revealed ==> next.cells[k].revealed,
    ensures
        next.settled(before, x, y, upto),
{
    assert forall|j: int| 0 <= j < upto implies #[trigger] next.settled_toward(before, x, y, j) by {
        assert(cur.settled_toward(before, x, y, j));
        let n = toward(x, y, j);
        if before.can_pick(n.0, n.1) {
            assert(0 <= slot(n.0, n.1) < 900);
            assert(cur.cells[slot(n.0, n.1)].revealed);
        }
    }
}

} // verus!
