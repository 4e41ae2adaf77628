//! The board: a fixed storage of squares, of which a rectangle at the origin
//! is in play.

use vstd::prelude::*;
use vstd::string::StringExecFns;
use crate::cell::{Cell, CellMarker, CellState, RenderHint};
use crate::chance::random_below;
use crate::counting::{
    count_below, lemma_count_bound, lemma_count_gain, lemma_count_monotone, lemma_count_same,
    lemma_count_skip,
};
use crate::laws::{lemma_mark_keeps_populated, lemma_pick_keeps_populated};
use crate::grid::{
    layout_fits, lemma_adjacent_mines_same, lemma_flood_complete, lemma_flood_start,
    lemma_flood_step, lemma_flood_stops, lemma_mines_and_free, lemma_settled_stays, listed_below,
    slot, toward, BoardState,
    BOARD_CAPACITY, MAX_BOARD_HEIGHT, MAX_BOARD_WIDTH,
};

verus! {

/// The side of a small board.
pub const SMALL_BOARD_SIDE: usize = 10;

/// The side of a medium board.
pub const MEDIUM_BOARD_SIDE: usize = 20;

/// The side of a large board.
pub const LARGE_BOARD_SIDE: usize = 30;

/// A normal board holds one mine for this many squares.
pub const NORMAL_SQUARES_PER_MINE: usize = 10;

/// A difficult board holds one mine for this many squares.
pub const DIFFICULT_SQUARES_PER_MINE: usize = 5;

/// The number of random draws after which the mines still to be placed go to
/// the first free squares instead.
pub const DRAW_LIMIT: u32 = 1_000_000;

/// The size of a board, which is also how hard the game is.
#[derive(Copy, Clone, Debug, PartialEq, Eq, Structural)]
pub enum BoardSize {
    Small,
    Medium,
    Large,
}

impl BoardSize {
    /// The side of the square board of this size.
    pub open spec fn side(self) -> nat {
        match self {
            BoardSize::Small => 10,
            BoardSize::Medium => 20,
            BoardSize::Large => 30,
        }
    }
}

impl Default for BoardSize {
    fn default() -> (s: BoardSize)
        ensures
            s == BoardSize::Small,
    {
        BoardSize::Small
    }
}

/// The game board.
#[derive(Clone, Debug)]
pub struct Board {
    width: usize,
    height: usize,
    max_bombs: u16,
    cell: Vec<Cell>,
}

impl View for Board {
    type V = BoardState;

    closed spec fn view(&self) -> BoardState {
        BoardState {
            width: self.width as nat,
            height: self.height as nat,
            budget: self.max_bombs as nat,
            cells: Seq::new(self.cell@.len(), |k: int| self.cell@[k]@),
        }
    }
}

impl Board {
    /// A storage of empty, unmarked, hidden squares.
    fn blank_cells() -> (cells: Vec<Cell>)
        ensures
            cells@.len() == 900,
            forall|k: int| 0 <= k < 900 ==> (#[trigger] cells@[k])@ == CellState::blank(),
    {
        let mut cells: Vec<Cell> = Vec::with_capacity(BOARD_CAPACITY);
        let mut k: usize = 0;
        while k < BOARD_CAPACITY
            invariant
                k <= 900,
                cells@.len() == k,
                forall|i: int| 0 <= i < k ==> (#[trigger] cells@[i])@ == CellState::blank(),
            decreases 900 - k,
        {
            cells.push(Cell::new());
            k += 1;
        }
        cells
    }

    /// A new board of the given size, with its mines placed at random: one
    /// mine for every ten squares, or for every five where `difficult` is
    /// set.
    pub fn new(board_size: BoardSize, difficult: bool) -> (b: Board)
        ensures
            b@.populated(),
            b@.fresh(),
            b@.width == board_size.side(),
            b@.height == board_size.side(),
            b@.budget == (board_size.side() * board_size.side()) / (if difficult {
                5nat
            } else {
                10nat
            }),
    {
        let (w, h) = match board_size {
            BoardSize::Small => (SMALL_BOARD_SIDE, SMALL_BOARD_SIDE),
            BoardSize::Medium => (MEDIUM_BOARD_SIDE, MEDIUM_BOARD_SIDE),
            BoardSize::Large => (LARGE_BOARD_SIDE, LARGE_BOARD_SIDE),
        };
        let squares_per_mine = if difficult {
            DIFFICULT_SQUARES_PER_MINE
        } else {
            NORMAL_SQUARES_PER_MINE
        };
        assert(w * h <= 900) by (nonlinear_arith)
            requires
                w <= 30,
                h <= 30,
        ;
        let mut new_board = Board {
            width: w,
            height: h,
            max_bombs: (w * h / squares_per_mine) as u16,
            cell: Self::blank_cells(),
        };
        proof {
            lemma_count_skip(|k: int| new_board@.mine_at(k), 0, 900);
            lemma_mines_and_free(new_board@);
        }
        new_board.populate_cells();
        new_board
    }

    /// A board of `width` by `height` squares with a mine on each square
    /// that `mines` names and on no other. There is no such board where the
    /// dimensions exceed the storage, where an entry is off the board, or
    /// where a square is named twice.
    pub fn with_mines(width: usize, height: usize, mines: &Vec<(usize, usize)>) -> (r: Option<
        Board,
    >)
        ensures
            r is Some <==> layout_fits(width as int, height as int, mines@),
            r matches Some(b) ==> {
                &&& b@.populated()
                &&& b@.fresh()
                &&& b@.width == width
                &&& b@.height == height
                &&& b@.budget == mines@.len()
                &&& forall|x: int, y: int|
                    b@.valid(x, y) ==> ((#[trigger] b@.cell(x, y)).mine <==> listed_below(
                        mines@,
                        mines@.len() as int,
                        x,
                        y,
                    ))
            },
    {
        if width > MAX_BOARD_WIDTH || height > MAX_BOARD_HEIGHT {
            return None;
        }
        let mut board = Board { width, height, max_bombs: 0, cell: Self::blank_cells() };
        let ghost empty = board@;
        proof {
            lemma_count_skip(|k: int| board@.mine_at(k), 0, 900);
            assert(0 <= width * height) by (nonlinear_arith);
        }
        let mut i: usize = 0;
        while i < mines.len()
            invariant
                i <= mines@.len(),
                board@.wf(),
                board@.adds_mines_to(empty),
                forall|k: int| 0 <= k < 900 ==> #[trigger] empty.cells[k] == CellState::blank(),
                board@.width == width,
                board@.height == height,
                board@.budget == 0,
                board@.mine_count() == i,
                forall|k: int| 0 <= k < 900 ==> (#[trigger] board@.cells[k]).adjacent == 0,
                forall|j: int| 0 <= j < i ==> (#[trigger] mines@[j]).0 < width && mines@[j].1 < height,
                forall|j: int, l: int| 0 <= j < l < i ==> #[trigger] mines@[j] != #[trigger] mines@[l],
                forall|x: int, y: int|
                    board@.valid(x, y) ==> ((#[trigger] board@.cell(x, y)).mine <==> listed_below(
                        mines@,
                        i as int,
                        x,
                        y,
                    )),
            decreases mines@.len() - i,
        {
            let (x, y) = mines[i];
            if x >= width || y >= height {
                return None;
            }
            if board.square(x, y).is_bomb() {
                proof {
                    let j = choose|j: int|
                        0 <= j < i && (#[trigger] mines@[j]).0 == x && mines@[j].1 == y;
                    assert(mines@[j] == mines@[i as int]);
                }
                return None;
            }
            let ghost before = board@;
            proof {
                let k = slot(x as int, y as int);
                assert(k / 30 == x && k % 30 == y);
            }
            board.plant(x, y);
            proof {
                assert forall|a: int, b: int| board@.valid(a, b) implies ((#[trigger] board@.cell(
                    a,
                    b,
                )).mine <==> listed_below(mines@, i + 1, a, b)) by {
                    if a == x && b == y {
                        assert(mines@[i as int].0 == a && mines@[i as int].1 == b);
                    } else {
                        assert(slot(a, b) != slot(x as int, y as int));
                        assert(board@.cell(a, b) == before.cell(a, b));
                        if listed_below(mines@, i + 1, a, b) {
                            let j = choose|j: int|
                                0 <= j < i + 1 && (#[trigger] mines@[j]).0 == a && mines@[j].1
                                    == b;
                            assert(j < i);
                        }
                    }
                }
                assert forall|j: int, l: int| 0 <= j < l < i + 1 implies #[trigger] mines@[j]
                    != #[trigger] mines@[l] by {
                    if l == i && mines@[j] == mines@[l] {
                        assert(listed_below(mines@, i as int, x as int, y as int));
                        assert(before.cell(x as int, y as int).mine);
                    }
                }
            }
            i += 1;
        }
        proof {
            lemma_count_bound(|k: int| board@.mine_at(k), 900);
            lemma_mines_and_free(board@);
        }
        let ghost laid = board@;
        board.max_bombs = i as u16;
        let ghost planted = board@;
        assert(planted == BoardState { budget: i as nat, ..laid });
        board.count_all_around();
        proof {
            lemma_count_same(|k: int| planted.mine_at(k), |k: int| laid.mine_at(k), 900);
            assert forall|x: int, y: int| board@.valid(x, y) implies ((#[trigger] board@.cell(
                x,
                y,
            )).mine <==> listed_below(mines@, mines@.len() as int, x, y)) by {
                assert(0 <= slot(x, y) < 900);
                assert(board@.cell(x, y).mine == planted.cell(x, y).mine);
                assert(planted.cell(x, y) == laid.cell(x, y));
                assert(laid.valid(x, y));
            }
        }
        Some(board)
    }

    /// The square at `(x, y)` of the storage.
    fn square(&self, x: usize, y: usize) -> (c: Cell)
        requires
            self@.cells.len() == 900,
            x < 30,
            y < 30,
        ensures
            c@ == self@.cell(x as int, y as int),
    {
        self.cell[x * MAX_BOARD_HEIGHT + y]
    }

    /// Replaces the square at `(x, y)` of the storage.
    fn store(&mut self, x: usize, y: usize, c: Cell)
        requires
            old(self)@.cells.len() == 900,
            x < 30,
            y < 30,
        ensures
            final(self)@ == old(self)@.with_cell(x as int, y as int, c@),
    {
        self.cell.set(x * MAX_BOARD_HEIGHT + y, c);
        assert(self@.cells =~= old(self)@.cells.update(slot(x as int, y as int), c@));
    }

    /// Resets every square of the storage to an empty, unmarked, hidden one.
    pub fn clear(&mut self)
        requires
            old(self)@.wf(),
        ensures
            final(self)@.same_frame(old(self)@),
            forall|k: int| 0 <= k < 900 ==> final(self)@.cells[k] == CellState::blank(),
    {
        let mut k: usize = 0;
        while k < BOARD_CAPACITY
            invariant
                k <= 900,
                self@.same_frame(old(self)@),
                self@.cells.len() == 900,
                forall|i: int| 0 <= i < k ==> self@.cells[i] == CellState::blank(),
            decreases 900 - k,
        {
            self.store(k / MAX_BOARD_HEIGHT, k % MAX_BOARD_HEIGHT, Cell::new());
            k += 1;
        }
    }

    /// Starts a new game on this board: every square is reset and the budget
    /// of mines is placed afresh.
    pub fn reset(&mut self)
        requires
            old(self)@.wf(),
        ensures
            final(self)@.same_frame(old(self)@),
            final(self)@.populated(),
            final(self)@.fresh(),
    {
        self.clear();
        proof {
            lemma_count_skip(|k: int| self@.mine_at(k), 0, 900);
            lemma_mines_and_free(self@);
        }
        self.populate_cells();
    }

    /// Puts a mine on the free square at `(x, y)`.
    fn plant(&mut self, x: usize, y: usize)
        requires
            old(self)@.wf(),
            old(self)@.valid(x as int, y as int),
            !old(self)@.cell(x as int, y as int).mine,
        ensures
            final(self)@ == old(self)@.with_cell(
                x as int,
                y as int,
                CellState { mine: true, ..old(self)@.cell(x as int, y as int) },
            ),
            final(self)@.mine_count() == old(self)@.mine_count() + 1,
            final(self)@.free_count() + 1 == old(self)@.free_count(),
            forall|n: int|
                0 <= n <= slot(x as int, y as int) ==> #[trigger] final(self)@.free_below(n) == old(
                    self,
                )@.free_below(n),
    {
        let mut c = self.square(x, y);
        c.set_content_bomb();
        self.store(x, y, c);
        proof {
            let k = slot(x as int, y as int);
            assert(k / 30 == x && k % 30 == y);
            lemma_count_gain(|k: int| old(self)@.mine_at(k), |k: int| self@.mine_at(k), k, 900);
            lemma_count_gain(|k: int| self@.free_at(k), |k: int| old(self)@.free_at(k), k, 900);
            assert forall|n: int| 0 <= n <= k implies #[trigger] self@.free_below(n) == old(
                self,
            )@.free_below(n) by {
                lemma_count_same(|k: int| self@.free_at(k), |k: int| old(self)@.free_at(k), n);
            }
        }
    }

    /// Places as many mines as the budget says on free squares of the board:
    /// by drawing squares at random, and should that not have done after
    /// `DRAW_LIMIT` draws, on the first free squares.
    fn place_mines(&mut self)
        requires
            old(self)@.wf(),
            old(self)@.free_count() >= old(self)@.budget,
        ensures
            final(self)@.adds_mines_to(old(self)@),
            final(self)@.mine_count() == old(self)@.mine_count() + old(self)@.budget,
            forall|k: int| 0 <= k < 900 ==> (#[trigger] final(self)@.cells[k]).adjacent == old(
                self,
            )@.cells[k].adjacent,
    {
        let mut bombs: u16 = 0;
        let mut draws: u32 = 0;
        while bombs < self.max_bombs && draws < DRAW_LIMIT
            invariant
                self@.wf(),
                self@.adds_mines_to(old(self)@),
                forall|k: int| 0 <= k < 900 ==> (#[trigger] self@.cells[k]).adjacent == old(
                    self,
                )@.cells[k].adjacent,
                bombs <= self.max_bombs == self@.budget,
                self.width == self@.width,
                self.height == self@.height,
                self@.mine_count() == old(self)@.mine_count() + bombs,
                self@.free_count() + bombs >= self@.budget,
                draws <= DRAW_LIMIT,
            decreases DRAW_LIMIT - draws,
        {
            proof {
                lemma_mines_and_free(self@);
                assert(self@.width > 0 && self@.height > 0) by (nonlinear_arith)
                    requires
                        self@.width * self@.height > 0,
                ;
            }
            let x: usize = random_below(self.width);
            let y: usize = random_below(self.height);
            if !self.square(x, y).is_bomb() {
                assert(self@.on_board(slot(x as int, y as int)));
                self.plant(x, y);
                bombs += 1;
            }
            draws += 1;
        }
        let mut x: usize = 0;
        while x < self.width && bombs < self.max_bombs
            invariant
                self@.wf(),
                self@.adds_mines_to(old(self)@),
                forall|k: int| 0 <= k < 900 ==> (#[trigger] self@.cells[k]).adjacent == old(
                    self,
                )@.cells[k].adjacent,
                bombs <= self.max_bombs == self@.budget,
                x <= self.width == self@.width,
                self.height == self@.height,
                self@.mine_count() == old(self)@.mine_count() + bombs,
                self@.free_count() - self@.free_below(x * 30) >= self@.budget
                    - bombs,
            decreases self.width - x,
        {
            let mut y: usize = 0;
            while y < self.height && bombs < self.max_bombs
                invariant
                    self@.wf(),
                    self@.adds_mines_to(old(self)@),
                    forall|k: int| 0 <= k < 900 ==> (#[trigger] self@.cells[k]).adjacent == old(
                        self,
                    )@.cells[k].adjacent,
                    bombs <= self.max_bombs == self@.budget,
                    x < self.width == self@.width,
                    y <= self.height == self@.height,
                    self@.mine_count() == old(self)@.mine_count() + bombs,
                    self@.free_count() - self@.free_below(x * 30 + y)
                        >= self@.budget - bombs,
                decreases self.height - y,
            {
                let ghost k = slot(x as int, y as int);
                let ghost before = self@;
                assert(self@.on_board(k));
                assert(before.free_below(k + 1) == before.free_below(k) + if before.free_at(k) {
                    1nat
                } else {
                    0nat
                });
                if !self.square(x, y).is_bomb() {
                    self.plant(x, y);
                    bombs += 1;
                    assert(self@.free_below(k) == before.free_below(k));
                    assert(self@.free_below(k + 1) == self@.free_below(k) + if self@.free_at(k) {
                        1nat
                    } else {
                        0nat
                    });
                }
                y += 1;
            }
            proof {
                if bombs < self.max_bombs {
                    lemma_count_skip(|k: int| self@.free_at(k), x * 30 + y, x * 30 + 30);
                } else {
                    lemma_count_monotone(|k: int| self@.free_at(k), x * 30 + 30, 900);
                }
            }
            x += 1;
        }
        proof {
            if bombs < self.max_bombs {
                lemma_count_skip(|k: int| self@.free_at(k), x * 30, 900);
            }
        }
    }

    /// Stores in every square of the board without a mine the number of
    /// mines around it.
    fn count_all_around(&mut self)
        requires
            old(self)@.wf(),
        ensures
            final(self)@.same_frame(old(self)@),
            final(self)@.counts_consistent(),
            forall|k: int|
                0 <= k < 900 ==> #[trigger] final(self)@.cells[k] == (CellState {
                    adjacent: final(self)@.cells[k].adjacent,
                    ..old(self)@.cells[k]
                }),
            forall|k: int|
                0 <= k < 900 && !old(self)@.free_at(k) ==> #[trigger] final(self)@.cells[k] == old(
                    self,
                )@.cells[k],
            final(self)@.mine_count() == old(self)@.mine_count(),
    {
        let mut x: usize = 0;
        while x < self.width
            invariant
                self@.wf(),
                self@.same_frame(old(self)@),
                x <= self.width == self@.width,
                self.height == self@.height,
                forall|k: int|
                    0 <= k < 900 ==> #[trigger] self@.cells[k] == (CellState {
                        adjacent: self@.cells[k].adjacent,
                        ..old(self)@.cells[k]
                    }),
                forall|k: int|
                    0 <= k < 900 && !old(self)@.free_at(k) ==> #[trigger] self@.cells[k] == old(
                        self,
                    )@.cells[k],
                forall|i: int, j: int|
                    0 <= i < x && 0 <= j < self@.height && !(#[trigger] self@.cell(i, j)).mine
                        ==> self@.cell(i, j).adjacent == old(self)@.adjacent_mines(i, j),
            decreases self.width - x,
        {
            let mut y: usize = 0;
            while y < self.height
                invariant
                    self@.wf(),
                    self@.same_frame(old(self)@),
                    x < self.width == self@.width,
                    y <= self.height == self@.height,
                    forall|k: int|
                        0 <= k < 900 ==> #[trigger] self@.cells[k] == (CellState {
                            adjacent: self@.cells[k].adjacent,
                            ..old(self)@.cells[k]
                        }),
                    forall|k: int|
                        0 <= k < 900 && !old(self)@.free_at(k) ==> #[trigger] self@.cells[k]
                            == old(self)@.cells[k],
                    forall|i: int, j: int|
                        (0 <= i < x && 0 <= j < self@.height || i == x && 0 <= j < y) && !(
                        #[trigger] self@.cell(i, j)).mine ==> self@.cell(i, j).adjacent == old(
                            self,
                        )@.adjacent_mines(i, j),
                decreases self.height - y,
            {
                let mut c = self.square(x, y);
                if !c.is_bomb() {
                    let bombs_around = self.count_bombs_around(x, y);
                    proof {
                        lemma_adjacent_mines_same(self@, old(self)@, x as int, y as int);
                    }
                    c.set_bombs_around(bombs_around);
                    let ghost before = self@;
                    self.store(x, y, c);
                    proof {
                        let k = slot(x as int, y as int);
                        assert(k / 30 == x && k % 30 == y);
                        assert forall|i: int, j: int|
                            (0 <= i < x && 0 <= j < self@.height || i == x && 0 <= j < y + 1) && !(
                            #[trigger] self@.cell(i, j)).mine implies self@.cell(i, j).adjacent
                            == old(self)@.adjacent_mines(i, j) by {
                            if i == x && j == y {
                            } else {
                                assert(slot(i, j) != k);
                                assert(self@.cell(i, j) == before.cell(i, j));
                            }
                        }
                    }
                }
                y += 1;
            }
            x += 1;
        }
        proof {
            assert forall|i: int, j: int|
                self@.valid(i, j) && !(#[trigger] self@.cell(i, j)).mine implies self@.cell(
                i,
                j,
            ).adjacent == self@.adjacent_mines(i, j) by {
                lemma_adjacent_mines_same(self@, old(self)@, i, j);
            }
            lemma_count_same(|k: int| self@.mine_at(k), |k: int| old(self)@.mine_at(k), 900);
        }
    }

    /// Places the budget of mines on free squares of the board, chosen at
    /// random, and then stores in every square without a mine the number of
    /// mines around it. The board must have as many free squares as the
    /// budget asks for.
    pub fn populate_cells(&mut self)
        requires
            old(self)@.wf(),
            old(self)@.free_count() >= old(self)@.budget,
        ensures
            final(self)@.wf(),
            final(self)@.adds_mines_to(old(self)@),
            final(self)@.mine_count() == old(self)@.mine_count() + old(self)@.budget,
            final(self)@.counts_consistent(),
            old(self)@.mine_count() == 0 ==> final(self)@.populated(),
    {
        self.place_mines();
        self.count_all_around();
    }

    /// Whether `(x, y)` is a square of the board. The coordinates are signed,
    /// so that a step off the left or upper edge is told from a square.
    pub fn is_cell_valid(&self, x: isize, y: isize) -> (r: bool)
        requires
            self@.wf(),
        ensures
            r == self@.valid(x as int, y as int),
    {
        let w = self.width as isize;
        let h = self.height as isize;
        x >= 0 && x < w && y >= 0 && y < h
    }

    /// The width of the board.
    pub fn get_width(&self) -> (r: u16)
        requires
            self@.wf(),
        ensures
            r == self@.width,
    {
        self.width as u16
    }

    /// The height of the board.
    pub fn get_height(&self) -> (r: u16)
        requires
            self@.wf(),
        ensures
            r == self@.height,
    {
        self.height as u16
    }

    /// Counts the mines on the up to eight squares around `(x_pos, y_pos)`.
    pub fn count_bombs_around(&self, x_pos: usize, y_pos: usize) -> (r: u8)
        requires
            self@.wf(),
        ensures
            r == self@.adjacent_mines(x_pos as int, y_pos as int),
            r <= 8,
    {
        let ghost pred = |j: int| self@.neighbour_mine(x_pos as int, y_pos as int, j);
        if x_pos > MAX_BOARD_WIDTH || y_pos > MAX_BOARD_HEIGHT {
            proof {
                lemma_count_skip(pred, 0, 9);
            }
            return 0;
        }
        let mut bombs_around: u8 = 0;
        let mut y: isize = -1;
        while y <= 1
            invariant
                self@.wf(),
                x_pos <= 30,
                y_pos <= 30,
                -1 <= y <= 2,
                pred == |j: int| self@.neighbour_mine(x_pos as int, y_pos as int, j),
                bombs_around == count_below(pred, (y + 1) * 3),
                bombs_around <= (y + 1) * 3,
                y >= 1 ==> bombs_around < (y + 1) * 3,
            decreases 2 - y,
        {
            let mut x: isize = -1;
            while x <= 1
                invariant
                    self@.wf(),
                    x_pos <= 30,
                    y_pos <= 30,
                    -1 <= y <= 1,
                    -1 <= x <= 2,
                    pred == |j: int| self@.neighbour_mine(x_pos as int, y_pos as int, j),
                    bombs_around == count_below(pred, (y + 1) * 3 + (x + 1)),
                    bombs_around <= (y + 1) * 3 + (x + 1),
                    (y == 1 || (y == 0 && x >= 1)) ==> bombs_around < (y + 1) * 3 + (x + 1),
                decreases 2 - x,
            {
                let ghost j = (y + 1) * 3 + (x + 1);
                assert(j % 3 - 1 == x && j / 3 - 1 == y);
                if !(x == 0 && y == 0) {
                    let index_x = x_pos as isize + x;
                    let index_y = y_pos as isize + y;
                    if self.is_cell_valid(index_x, index_y) {
                        let new_x = index_x as usize;
                        let new_y = index_y as usize;
                        if self.square(new_x, new_y).is_bomb() {
                            assert(pred(j));
                            bombs_around += 1;
                        } else {
                            assert(!pred(j));
                        }
                    } else {
                        assert(!pred(j));
                    }
                } else {
                    assert(!pred(j));
                }
                x += 1;
            }
            y += 1;
        }
        bombs_around
    }

    /// The square at `(x, y)` in words, or a remark that there is no such
    /// square.
    pub fn print_cell(&self, x: usize, y: usize) -> (text: String)
        requires
            self@.wf(),
        ensures
            text@ == if self@.valid(x as int, y as int) {
                self@.cell(x as int, y as int).description()
            } else {
                "No valid cell"@
            },
    {
        if x < self.width && y < self.height {
            return self.square(x, y).describe();
        }
        String::from_str("No valid cell")
    }

    /// The drawing of the board: one row of hints for each line, from the
    /// top, each row from the left.
    pub fn get_gfx(&self) -> (rows: Vec<Vec<RenderHint>>)
        requires
            self@.wf(),
        ensures
            rows@.len() == self@.height,
            forall|y: int| 0 <= y < self@.height ==> (#[trigger] rows@[y])@.len() == self@.width,
            forall|x: int, y: int|
                self@.valid(x, y) ==> (#[trigger] rows@[y]@[x]) == self@.cell(x, y).render_hint(),
    {
        self.draw(false)
    }

    /// The drawing of the board as it would be with every square revealed.
    /// The board itself stays as it is.
    pub fn dbg_gfx(&mut self) -> (rows: Vec<Vec<RenderHint>>)
        requires
            old(self)@.wf(),
        ensures
            *final(self) == *old(self),
            rows@.len() == old(self)@.height,
            forall|y: int|
                0 <= y < old(self)@.height ==> (#[trigger] rows@[y])@.len() == old(self)@.width,
            forall|x: int, y: int|
                old(self)@.valid(x, y) ==> (#[trigger] rows@[y]@[x]) == (CellState {
                    revealed: true,
                    ..old(self)@.cell(x, y)
                }).render_hint(),
    {
        self.draw(true)
    }

    /// The rows of hints, each square taken as revealed where `uncover` is
    /// set.
    fn draw(&self, uncover: bool) -> (rows: Vec<Vec<RenderHint>>)
        requires
            self@.wf(),
        ensures
            rows@.len() == self@.height,
            forall|y: int| 0 <= y < self@.height ==> (#[trigger] rows@[y])@.len() == self@.width,
            forall|x: int, y: int|
                self@.valid(x, y) ==> (#[trigger] rows@[y]@[x]) == (CellState {
                    revealed: uncover || self@.cell(x, y).revealed,
                    ..self@.cell(x, y)
                }).render_hint(),
    {
        let mut gfx_vec: Vec<Vec<RenderHint>> = Vec::with_capacity(self.height);
        let mut y: usize = 0;
        while y < self.height
            invariant
                self@.wf(),
                y <= self.height == self@.height,
                self.width == self@.width,
                gfx_vec@.len() == y,
                forall|j: int| 0 <= j < y ==> (#[trigger] gfx_vec@[j])@.len() == self@.width,
                forall|i: int, j: int|
                    0 <= i < self@.width && 0 <= j < y ==> (#[trigger] gfx_vec@[j]@[i]) == (
                    CellState {
                        revealed: uncover || self@.cell(i, j).revealed,
                        ..self@.cell(i, j)
                    }).render_hint(),
            decreases self.height - y,
        {
            let mut line: Vec<RenderHint> = Vec::with_capacity(self.width);
            let mut x: usize = 0;
            while x < self.width
                invariant
                    self@.wf(),
                    y < self.height == self@.height,
                    x <= self.width == self@.width,
                    line@.len() == x,
                    forall|i: int|
                        0 <= i < x ==> (#[trigger] line@[i]) == (CellState {
                            revealed: uncover || self@.cell(i, y as int).revealed,
                            ..self@.cell(i, y as int)
                        }).render_hint(),
                decreases self.width - x,
            {
                let mut c = self.square(x, y);
                if uncover {
                    c.set_revealed(true);
                }
                line.push(c.get_gfx());
                x += 1;
            }
            gfx_vec.push(line);
            y += 1;
        }
        gfx_vec
    }

    /// Moves the marker of the square at `(x, y)` one step round its cycle:
    /// from no mark to a flag, from a flag to a question mark, from a
    /// question mark to no mark. A revealed square and coordinates off the
    /// board are left alone.
    pub fn mark_cell(&mut self, x: usize, y: usize)
        requires
            old(self)@.wf(),
        ensures
            final(self)@ == old(self)@.marked(x as int, y as int),
            old(self)@.populated() ==> final(self)@.populated(),
    {
        proof {
            if self@.populated() {
                lemma_mark_keeps_populated(self@, x as int, y as int);
            }
        }
        if x < self.width && y < self.height {
            let mut c = self.square(x, y);
            if !c.is_revealed() {
                match c.get_state() {
                    CellMarker::GuessBomb => c.set_state(CellMarker::Unmarked),
                    CellMarker::HasBomb => c.set_state(CellMarker::GuessBomb),
                    CellMarker::Unmarked => c.set_state(CellMarker::HasBomb),
                }
                self.store(x, y, c);
            }
        }
    }

    /// The mine budget less the number of mines that carry a flag: how many
    /// mines are still to be flagged.
    pub fn check_correct_flagged_bombs(&self) -> (r: u16)
        requires
            self@.wf(),
            self@.flagged_mines() <= self@.budget,
        ensures
            r == self@.budget - self@.flagged_mines(),
    {
        let correct_flag = self.count_flagged_mines();
        self.max_bombs - correct_flag
    }

    /// The number of mines that carry a flag.
    fn count_flagged_mines(&self) -> (r: u16)
        requires
            self@.wf(),
        ensures
            r == self@.flagged_mines(),
    {
        let ghost pred = |k: int| self@.flagged_mine_at(k);
        let mut correct_flag: u16 = 0;
        let mut x: usize = 0;
        while x < self.width
            invariant
                self@.wf(),
                x <= self.width == self@.width,
                self.height == self@.height,
                pred == |k: int| self@.flagged_mine_at(k),
                correct_flag == count_below(pred, x * 30),
            decreases self.width - x,
        {
            let mut y: usize = 0;
            while y < self.height
                invariant
                    self@.wf(),
                    x < self.width == self@.width,
                    y <= self.height == self@.height,
                    pred == |k: int| self@.flagged_mine_at(k),
                    correct_flag == count_below(pred, x * 30 + y),
                decreases self.height - y,
            {
                proof {
                    lemma_count_bound(pred, x * 30 + y);
                }
                let c = self.square(x, y);
                if c.get_state() == CellMarker::HasBomb && c.is_bomb() {
                    assert(pred(x * 30 + y));
                    correct_flag += 1;
                } else {
                    assert(!pred(x * 30 + y));
                }
                y += 1;
            }
            proof {
                lemma_count_skip(pred, x * 30 + y, x * 30 + 30);
            }
            x += 1;
        }
        proof {
            lemma_count_skip(pred, x * 30, 900);
        }
        correct_flag
    }

    /// Whether the game is won: every mine carries a flag and every square
    /// without a mine is revealed.
    pub fn check_win_condition(&self) -> (r: bool)
        requires
            self@.wf(),
        ensures
            r == self@.won(),
    {
        let correct_flag = self.count_flagged_mines();
        let mut all_open = true;
        let mut x: usize = 0;
        while x < self.width
            invariant
                self@.wf(),
                x <= self.width == self@.width,
                self.height == self@.height,
                all_open == forall|i: int, j: int|
                    0 <= i < x && 0 <= j < self@.height && !(#[trigger] self@.cell(i, j)).mine
                        ==> self@.cell(i, j).revealed,
            decreases self.width - x,
        {
            let mut y: usize = 0;
            while y < self.height
                invariant
                    self@.wf(),
                    x < self.width == self@.width,
                    y <= self.height == self@.height,
                    all_open == forall|i: int, j: int|
                        (0 <= i < x && 0 <= j < self@.height || i == x && 0 <= j < y) && !(
                        #[trigger] self@.cell(i, j)).mine ==> self@.cell(i, j).revealed,
                decreases self.height - y,
            {
                let c = self.square(x, y);
                if c.is_empty() && !c.is_revealed() {
                    assert(!self@.cell(x as int, y as int).mine);
                    all_open = false;
                }
                y += 1;
            }
            x += 1;
        }
        self.max_bombs == correct_flag && all_open
    }

    /// Reveals the square at `(x, y)` if it can be picked, and says whether
    /// it did.
    fn uncover(&mut self, x: usize, y: usize) -> (opened: bool)
        requires
            old(self)@.wf(),
            old(self)@.valid(x as int, y as int),
        ensures
            opened == old(self)@.can_pick(x as int, y as int),
            opened ==> final(self)@ == old(self)@.with_cell(
                x as int,
                y as int,
                CellState { revealed: true, ..old(self)@.cell(x as int, y as int) },
            ) && final(self)@.hidden_count() + 1 == old(self)@.hidden_count(),
            !opened ==> final(self)@ == old(self)@,
    {
        let mut c = self.square(x, y);
        if c.get_state() != CellMarker::Unmarked || c.is_revealed() {
            return false;
        }
        c.set_revealed(true);
        self.store(x, y, c);
        proof {
            let k = slot(x as int, y as int);
            assert(k / 30 == x && k % 30 == y);
            lemma_count_gain(|k: int| self@.hidden_at(k), |k: int| old(self)@.hidden_at(k), k, 900);
        }
        true
    }

    /// Picks the square at `(cell_x, cell_y)` and says whether that set off
    /// a mine. Coordinates off the board, a marked square and a revealed one
    /// change nothing. Otherwise the square is revealed, and if it holds no
    /// mine and has none around it, so is every neighbour that can be
    /// picked, and so on from each of those.
    pub fn pick_cell(&mut self, cell_x: usize, cell_y: usize) -> (r: bool)
        requires
            old(self)@.wf(),
        ensures
            final(self)@ == old(self)@.picked(cell_x as int, cell_y as int),
            r == (old(self)@.can_pick(cell_x as int, cell_y as int) && old(self)@.cell(
                cell_x as int,
                cell_y as int,
            ).mine),
            old(self)@.populated() ==> final(self)@.populated(),
    {
        let ghost before = self@;
        proof {
            if before.populated() {
                lemma_pick_keeps_populated(before, cell_x as int, cell_y as int);
            }
        }
        let ghost from = (cell_x as int, cell_y as int);
        if cell_x >= self.width || cell_y >= self.height {
            proof {
                lemma_stopped(before, before, from);
            }
            return false;
        }
        proof {
            assert(slot(from.0, from.1) / 30 == from.0 && slot(from.0, from.1) % 30 == from.1);
        }
        if !self.uncover(cell_x, cell_y) {
            proof {
                lemma_stopped(before, before, from);
            }
            return false;
        }
        proof {
            lemma_flood_start(before, from);
        }
        let c = self.square(cell_x, cell_y);
        if c.is_bomb() {
            proof {
                lemma_stopped(self@, before, from);
            }
            return true;
        }
        if c.get_bombs_around() > 0 {
            proof {
                lemma_stopped(self@, before, from);
            }
            return false;
        }
        let mut pending: Vec<(usize, usize)> = Vec::new();
        pending.push((cell_x, cell_y));
        assert(pending@[0] == (cell_x, cell_y));
        assert(self@.settled(before, from.0, from.1, 0));
        while pending.len() > 0
            invariant
                before.wf(),
                self@.wf(),
                self@.flooding(before, from),
                before.can_pick(from.0, from.1),
                self@.cell(from.0, from.1).revealed,
                self.width == self@.width,
                self.height == self@.height,
                forall|i: int|
                    0 <= i < pending@.len() ==> {
                        &&& before.spreads((#[trigger] pending@[i]).0 as int, pending@[i].1 as int)
                        &&& self@.cell(pending@[i].0 as int, pending@[i].1 as int).revealed
                    },
                forall|x: int, y: int|
                    before.spreads(x, y) && (#[trigger] self@.cell(x, y)).revealed ==> listed_below(
                        pending@,
                        pending@.len() as int,
                        x,
                        y,
                    ) || self@.settled(before, x, y, 9),
            decreases self@.hidden_count(), pending@.len(),
        {
            let ghost hidden_then = self@.hidden_count();
            let ghost waiting = pending@;
            let (x, y) = pending.pop().unwrap();
            assert(waiting[waiting.len() - 1] == (x, y));
            assert(before.spreads(x as int, y as int));
            proof {
                assert forall|a: int, b: int|
                    before.spreads(a, b) && (#[trigger] self@.cell(a, b)).revealed && !(a == x && b
                        == y) implies listed_below(pending@, pending@.len() as int, a, b)
                    || self@.settled(before, a, b, 9) by {
                    if !self@.settled(before, a, b, 9) {
                        let i = choose|i: int|
                            0 <= i < waiting.len() && (#[trigger] waiting[i]).0 == a && waiting[i].1
                                == b;
                        assert(i < waiting.len() - 1);
                        assert(pending@[i] == waiting[i]);
                    }
                }
            }
            let mut j: usize = 0;
            while j < 9
                invariant
                    j <= 9,
                    before.wf(),
                    self@.wf(),
                    self@.flooding(before, from),
                    before.can_pick(from.0, from.1),
                    self@.cell(from.0, from.1).revealed,
                    self.width == self@.width,
                    self.height == self@.height,
                    before.spreads(x as int, y as int),
                    self@.cell(x as int, y as int).revealed,
                    forall|i: int|
                        0 <= i < pending@.len() ==> {
                            &&& before.spreads(
                                (#[trigger] pending@[i]).0 as int,
                                pending@[i].1 as int,
                            )
                            &&& self@.cell(pending@[i].0 as int, pending@[i].1 as int).revealed
                        },
                    forall|a: int, b: int|
                        before.spreads(a, b) && (#[trigger] self@.cell(a, b)).revealed && !(a == x
                            && b == y) ==> listed_below(pending@, pending@.len() as int, a, b)
                            || self@.settled(before, a, b, 9),
                    self@.settled(before, x as int, y as int, j as int),
                    pending@.len() + 1 >= waiting.len(),
                    self@.hidden_count() + pending@.len() + 1 <= hidden_then + waiting.len(),
                decreases 9 - j,
            {
                let ghost n = toward(x as int, y as int, j as int);
                let ghost cur = self@;
                let ghost queue = pending@;
                let dx = j % 3;
                let dy = j / 3;
                if j != 4 && x + dx >= 1 && y + dy >= 1 && x + dx - 1 < self.width && y + dy - 1
                    < self.height {
                    let new_x = x + dx - 1;
                    let new_y = y + dy - 1;
                    let ghost k = slot(new_x as int, new_y as int);
                    assert(k / 30 == new_x && k % 30 == new_y);
                    assert(cur.cells[k] == cur.cell(n.0, n.1));
                    if self.uncover(new_x, new_y) {
                        proof {
                            assert(before.cells[k] == cur.cells[k]);
                            let via = (x as int, y as int);
                            assert(cur.cells[slot(via.0, via.1)] != before.cells[slot(via.0, via.1)]);
                            assert(slot(via.0, via.1) / 30 == via.0 && slot(via.0, via.1) % 30
                                == via.1);
                            lemma_flood_step(before, from, via, n);
                        }
                        let c = self.square(new_x, new_y);
                        if !c.is_bomb() && c.get_bombs_around() == 0 {
                            pending.push((new_x, new_y));
                            assert(pending@[queue.len() as int] == (new_x, new_y));
                        }
                        proof {
                            assert forall|i: int| 0 <= i < pending@.len() implies {
                                &&& before.spreads(
                                    (#[trigger] pending@[i]).0 as int,
                                    pending@[i].1 as int,
                                )
                                &&& self@.cell(pending@[i].0 as int, pending@[i].1 as int).revealed
                            } by {
                                if i < queue.len() {
                                    assert(pending@[i] == queue[i]);
                                    assert(cur.cell(queue[i].0 as int, queue[i].1 as int).revealed);
                                }
                            }
                            assert forall|a: int, b: int|
                                before.spreads(a, b) && (#[trigger] self@.cell(a, b)).revealed && !(
                                a == x && b == y) implies listed_below(
                                pending@,
                                pending@.len() as int,
                                a,
                                b,
                            ) || self@.settled(before, a, b, 9) by {
                                if a == new_x && b == new_y {
                                    assert(pending@[queue.len() as int] == (new_x, new_y));
                                } else {
                                    assert(slot(a, b) != k);
                                    assert(cur.cell(a, b).revealed);
                                    if cur.settled(before, a, b, 9) {
                                        lemma_settled_stays(cur, self@, before, a, b, 9);
                                    } else {
                                        let i = choose|i: int|
                                            0 <= i < queue.len() && (#[trigger] queue[i]).0 == a
                                                && queue[i].1 == b;
                                        assert(pending@[i] == queue[i]);
                                    }
                                }
                            }
                        }
                    }
                }
                proof {
                    lemma_settled_stays(cur, self@, before, x as int, y as int, j as int);
                    assert(self@.settled_toward(before, x as int, y as int, j as int)) by {
                        if before.can_pick(n.0, n.1) {
                            assert(0 <= slot(n.0, n.1) < 900);
                            assert(slot(n.0, n.1) / 30 == n.0 && slot(n.0, n.1) % 30 == n.1);
                        }
                    }
                }
                j += 1;
            }
        }
        proof {
            assert forall|k: int| 0 <= k < 900 implies #[trigger] self@.cells[k] == before.picked(
                from.0,
                from.1,
            ).cells[k] by {
                let to = (k / 30, k % 30);
                if before.flood_reaches(from, to) {
                    let p = choose|p: Seq<(int, int)>|
                        #[trigger] before.flood_path(p) && p[0] == from && p.last() == to;
                    lemma_flood_complete(self@, before, p, p.len() - 1);
                    assert(before.can_pick(p[p.len() - 1].0, p[p.len() - 1].1));
                    assert(slot(to.0, to.1) == k);
                }
            }
            assert(self@.cells =~= before.picked(from.0, from.1).cells);
        }
        false
    }
}

/// A pick that has revealed at most the picked square, which does not
/// spread, is complete.
proof fn lemma_stopped(cur: BoardState, before: BoardState, from: (int, int))
    requires
        before.wf(),
        !before.spreads(from.0, from.1) || !before.valid(from.0, from.1),
        cur == if before.can_pick(from.0, from.1) {
            before.with_cell(
                from.0,
                from.1,
                CellState { revealed: true, ..before.cell(from.0, from.1) },
            )
        } else {
            before
        },
    ensures
        cur == before.picked(from.0, from.1),
{
    assert forall|k: int| 0 <= k < 900 implies #[trigger] cur.cells[k] == before.picked(
        from.0,
        from.1,
    ).cells[k] by {
        lemma_flood_stops(before, from, (k / 30, k % 30));
        if before.can_pick(from.0, from.1) {
            assert(slot(from.0, from.1) / 30 == from.0 && slot(from.0, from.1) % 30 == from.1);
        }
    }
    assert(cur.cells =~= before.picked(from.0, from.1).cells);
}

} // verus!
