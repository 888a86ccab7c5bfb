//! The playfield: a fixed grid of cells with collision queries, commit,
//! line detection and row collapse.
use vstd::prelude::*;
use vstd::relations::{sorted_by, total_ordering};
use super::piece::Piece;

verus! {

broadcast use {
    vstd::seq_lib::group_to_multiset_ensures,
    vstd::string::group_string_axioms,
    vstd::array::group_array_axioms,
    vstd::multiset::group_multiset_axioms,
};

/// A position on, above or beside the playfield. `y` grows downwards and is
/// negative in the headroom above the visible field.
#[derive(Clone, Copy, Debug, PartialEq, Eq, Structural)]
pub struct Coordinate {
    pub x: isize,
    pub y: isize,
}

impl Coordinate {
    pub fn new(x: isize, y: isize) -> (c: Coordinate)
        ensures
            c == (Coordinate { x, y }),
    {
        Coordinate { x, y }
    }
}

/// One square of the playfield.
#[derive(Clone, Copy, Debug, PartialEq, Eq, Structural)]
pub struct Cell {
    pub filled: bool,
    /// Set while the cell belongs to a completed row that awaits removal.
    pub marked: bool,
}

impl Cell {
    pub open spec fn blank() -> Cell {
        Cell { filled: false, marked: false }
    }

    /// An empty, unmarked cell.
    pub fn new() -> (c: Cell)
        ensures
            c == Cell::blank(),
    {
        Cell { filled: false, marked: false }
    }
}

/// The grid, row after row, and the rows that wait to be collapsed.
pub struct Board {
    /// Cell (x, y) stands at offset `y * WIDTH + x`.
    pub cells: [Cell; 200],
    /// Indices of the completed rows that have not been collapsed yet.
    pub pending: Vec<isize>,
}

/// What a board holds: its cells in row order, and the pending rows in
/// the order in which the board lists them.
pub struct BoardView {
    pub cells: Seq<Cell>,
    pub pending: Seq<isize>,
}

/// The order in which a collapse takes up the pending rows: from the
/// bottom of the field to the top, that is, by falling index.
pub open spec fn bottom_up() -> spec_fn(isize, isize) -> bool {
    |a: isize, b: isize| a >= b
}

/// Falling order of indices is a total order.
pub proof fn lemma_bottom_up_is_total()
    ensures
        total_ordering(bottom_up()),
{
    let leq = bottom_up();
    assert(vstd::relations::reflexive(leq));
    assert(vstd::relations::antisymmetric(leq));
    assert(vstd::relations::transitive(leq));
    assert(vstd::relations::strongly_connected(leq));
}

/// Points for completing `count` rows at once.
pub open spec fn row_score(count: nat, level: nat) -> nat {
    if count == 1 {
        100 * level
    } else if count == 2 {
        300 * level
    } else if count == 3 {
        500 * level
    } else if count == 4 {
        800 * level
    } else {
        0
    }
}

impl BoardView {
    pub open spec fn wf(self) -> bool {
        &&& self.cells.len() == 200
        &&& forall|o: int| 0 <= o < 200 ==> ((#[trigger] self.cells[o]).marked ==> self.cells[o].filled)
        &&& forall|i: int| 0 <= i < self.pending.len() ==> 0 <= #[trigger] self.pending[i] < 20
    }

    pub open spec fn blank() -> BoardView {
        BoardView { cells: Seq::new(200, |o: int| Cell::blank()), pending: Seq::empty() }
    }

    /// Whether the position (x, y) counts as occupied. Nothing is occupied
    /// above the field; everything is from the end of the grid on.
    pub open spec fn filled_at(self, x: int, y: int) -> bool {
        if y < 0 {
            false
        } else if y * 10 + x >= 200 {
            true
        } else {
            self.cells[y * 10 + x].filled
        }
    }

    /// The board with the four cells of a piece filled.
    pub open spec fn with_piece(self, piece: Piece) -> BoardView {
        BoardView {
            cells: Seq::new(
                200,
                |o: int|
                    if piece.covers(o) {
                        Cell { filled: true, marked: self.cells[o].marked }
                    } else {
                        self.cells[o]
                    },
            ),
            pending: self.pending,
        }
    }

    /// A row is complete when each of its cells is filled.
    pub open spec fn row_complete(self, row: int) -> bool {
        forall|col: int| 0 <= col < 10 ==> (#[trigger] self.cells[row * 10 + col]).filled
    }

    /// The complete rows among the first `n`, from the top down.
    pub open spec fn complete_below(self, n: int) -> Seq<isize>
        decreases n,
    {
        if n <= 0 {
            Seq::empty()
        } else if self.row_complete(n - 1) {
            self.complete_below(n - 1).push((n - 1) as isize)
        } else {
            self.complete_below(n - 1)
        }
    }

    /// The complete rows among the first `n` are rows of those `n`, each
    /// listed once.
    pub proof fn lemma_complete_below(self, n: int)
        requires
            0 <= n <= 20,
        ensures
            self.complete_below(n).len() <= n,
            forall|j: int|
                0 <= j < self.complete_below(n).len() ==> 0 <= #[trigger] self.complete_below(n)[j]
                    < n,
        decreases n,
    {
        if n > 0 {
            self.lemma_complete_below(n - 1);
        }
    }

    /// All complete rows, from the top down.
    pub open spec fn complete_rows(self) -> Seq<isize> {
        self.complete_below(20)
    }

    /// The board after a scan: the cells of each complete row are marked and
    /// the row is pending, behind the rows that were pending before.
    pub open spec fn scanned(self) -> BoardView {
        BoardView {
            cells: Seq::new(
                200,
                |o: int|
                    if self.row_complete(o / 10) {
                        Cell { filled: self.cells[o].filled, marked: true }
                    } else {
                        self.cells[o]
                    },
            ),
            pending: self.pending + self.complete_rows(),
        }
    }

    /// A scan keeps a board well formed.
    pub proof fn lemma_scanned_wf(self)
        requires
            self.wf(),
        ensures
            self.scanned().wf(),
    {
        self.lemma_complete_below(20);
        assert forall|o: int| 0 <= o < 200 && (#[trigger] self.scanned().cells[o]).marked implies
            self.scanned().cells[o].filled by {
            if self.row_complete(o / 10) {
                assert(self.cells[(o / 10) * 10 + o % 10].filled);
            }
        }
    }

    /// The pending rows as a collapse takes them up: from the bottom of the
    /// field to the top, so that the row nearest to the top comes last.
    pub open spec fn pending_bottom_up(self) -> Seq<isize> {
        self.pending.sort_by(bottom_up())
    }

    /// The pending row nearest to the top of the field.
    pub open spec fn topmost_pending(self) -> isize {
        self.pending_bottom_up().last()
    }

    /// The pending rows, put in falling order, are the same rows, and the
    /// last of them is a pending row above which no row is pending.
    pub proof fn lemma_pending_bottom_up(self)
        ensures
            self.pending_bottom_up().len() == self.pending.len(),
            self.pending_bottom_up().to_multiset() == self.pending.to_multiset(),
            sorted_by(self.pending_bottom_up(), bottom_up()),
            forall|i: int|
                0 <= i < self.pending.len() ==> self.pending.contains(
                    #[trigger] self.pending_bottom_up()[i],
                ),
            self.pending.len() > 0 ==> self.pending.contains(self.topmost_pending()),
            forall|i: int|
                0 <= i < self.pending.len() ==> self.topmost_pending() <= #[trigger] self.pending[i],
    {
        lemma_bottom_up_is_total();
        self.pending.lemma_sort_by_ensures(bottom_up());
        let sorted = self.pending_bottom_up();
        assert(sorted.len() == sorted.to_multiset().len());
        assert(self.pending.len() == self.pending.to_multiset().len());
        assert forall|i: int| 0 <= i < sorted.len() implies self.pending.contains(
            #[trigger] sorted[i],
        ) by {
            assert(sorted.contains(sorted[i]));
            assert(sorted.to_multiset().count(sorted[i]) > 0);
        }
        assert forall|i: int| 0 <= i < self.pending.len() implies sorted.last()
            <= #[trigger] self.pending[i] by {
            assert(self.pending.contains(self.pending[i]));
            assert(self.pending.to_multiset().count(self.pending[i]) > 0);
            assert(sorted.contains(self.pending[i]));
            let j = choose|j: int| 0 <= j < sorted.len() && sorted[j] == self.pending[i];
            if j < sorted.len() - 1 {
                assert(bottom_up()(sorted[j], sorted[sorted.len() - 1]));
            }
        }
    }

    /// The cells after `row` was emptied and everything above it moved down
    /// by one row. Rows below stay as they are.
    pub open spec fn cells_without_row(self, row: int) -> Seq<Cell> {
        Seq::new(
            200,
            |o: int|
                if o >= (row + 1) * 10 {
                    self.cells[o]
                } else if o < 10 {
                    Cell::blank()
                } else {
                    Cell { filled: self.cells[o - 10].filled, marked: false }
                },
        )
    }

    /// The board after its topmost pending row was collapsed. The rows
    /// still pending stand from the bottom of the field to the top.
    pub open spec fn collapsed(self) -> BoardView {
        BoardView {
            cells: self.cells_without_row(self.topmost_pending() as int),
            pending: self.pending_bottom_up().drop_last(),
        }
    }

    /// Collapsing the topmost pending row keeps a board well formed.
    pub proof fn lemma_collapsed_wf(self)
        requires
            self.wf(),
            self.pending.len() > 0,
        ensures
            0 <= self.topmost_pending() < 20,
            self.collapsed().wf(),
    {
        self.lemma_pending_bottom_up();
        let sorted = self.pending_bottom_up();
        let after = self.collapsed();
        assert forall|i: int| 0 <= i < sorted.len() implies 0 <= #[trigger] sorted[i] < 20 by {
            assert(self.pending.contains(sorted[i]));
            let j = choose|j: int| 0 <= j < self.pending.len() && self.pending[j] == sorted[i];
            assert(0 <= self.pending[j] < 20);
        }
        assert(sorted.last() == sorted[sorted.len() - 1]);
        assert forall|i: int| 0 <= i < after.pending.len() implies 0 <= #[trigger] after.pending[i]
            < 20 by {
            assert(after.pending[i] == sorted[i]);
        }
        assert forall|o: int| 0 <= o < 200 && (#[trigger] after.cells[o]).marked implies
            after.cells[o].filled by {
            assert(after.cells[o] == self.cells[o]);
        }
    }

    /// The positions of the grid, row after row.
    pub open spec fn positions() -> Seq<Coordinate> {
        Seq::new(200, |o: int| Coordinate { x: (o % 10) as isize, y: (o / 10) as isize })
    }

    /// The filled cells that are not marked, row after row.
    pub open spec fn pile(self) -> Seq<Coordinate> {
        Self::positions().filter(
            |c: Coordinate| self.cells[c.y * 10 + c.x].filled && !self.cells[c.y * 10 + c.x].marked,
        )
    }

    /// The filled cells that are marked, row after row.
    pub open spec fn marked_cells(self) -> Seq<Coordinate> {
        Self::positions().filter(
            |c: Coordinate| self.cells[c.y * 10 + c.x].filled && self.cells[c.y * 10 + c.x].marked,
        )
    }

    /// Whether some cell above `row` is filled.
    pub open spec fn filled_above(self, row: int) -> bool {
        exists|o: int| 0 <= o < row * 10 && (#[trigger] self.cells[o]).filled
    }
}

impl View for Board {
    type V = BoardView;

    open spec fn view(&self) -> BoardView {
        BoardView { cells: self.cells@, pending: self.pending@ }
    }
}

impl Board {
    pub const WIDTH: isize = 10;

    pub const HEIGHT: isize = 20;

    pub const SIZE: isize = 200;

    pub open spec fn wf(&self) -> bool {
        self@.wf()
    }

    /// A board with no cell filled and no row pending.
    pub fn blank() -> (b: Board)
        ensures
            b@ == BoardView::blank(),
            b.wf(),
    {
        let b = Board { cells: [Cell { filled: false, marked: false };200], pending: Vec::new() };
        assert(b@.cells =~= BoardView::blank().cells);
        b
    }

    /// Whether a position counts as occupied. Positions above the field
    /// never do, positions from the end of the grid on always do. The
    /// horizontal bounds are the caller's to check: a position beside the
    /// field reads the cell that its offset falls on, and needs that offset
    /// not to lie before the grid.
    pub fn filled(&self, coord: Coordinate) -> (r: bool)
        requires
            coord.y >= 0 ==> coord.y * 10 + coord.x >= 0,
        ensures
            r == self@.filled_at(coord.x as int, coord.y as int),
    {
        if coord.y < 0 {
            return false;
        }
        let offset: i128 = (coord.y as i128) * 10 + (coord.x as i128);
        if offset >= 200 {
            return true;
        }
        self.cells[offset as usize].filled
    }
}

/// The text of the error that a commit above the top of the field gives.
pub open spec fn underflow_message() -> Seq<char> {
    "Integer underflow"@
}

impl Board {
    /// Commits a piece: each of its cells becomes filled. A piece that
    /// reaches above the top of the field cannot be committed; the board
    /// is then left as it was. Each cell of a piece that lies below the top
    /// must fall on an offset of the grid.
    pub fn add(&mut self, piece: &Piece) -> (r: Result<(), String>)
        requires
            piece.cells_fit(0, 0),
            piece.below_top() ==> piece.on_grid(),
        ensures
            old(self).wf() ==> final(self).wf(),
            piece.below_top() ==> r is Ok && final(self)@ == old(self)@.with_piece(*piece),
            !piece.below_top() ==> final(self)@ == old(self)@ && (r matches Err(e) && e@
                == underflow_message()),
    {
        let ghost pre = self@;
        proof {
            super::piece::lemma_shape_is_tetromino(piece.kind, piece.rotation);
        }
        let cells = piece.get_cells();
        let mut i: usize = 0;
        while i < 4
            invariant
                i <= 4,
                pre == old(self)@,
                cells@ == piece.cells(),
                piece.cells_fit(0, 0),
                piece.below_top() ==> piece.on_grid(),
                i > 0 ==> piece.below_top(),
                forall|k: int| 0 <= k < 4 ==> piece.cell_y(0) <= #[trigger] piece.cell_y(k),
                self.pending@ == pre.pending,
                forall|o: int|
                    0 <= o < 200 ==> #[trigger] self.cells@[o] == (if exists|k: int|
                        0 <= k < i && piece.cell_offset(k) == o {
                        Cell { filled: true, marked: pre.cells[o].marked }
                    } else {
                        pre.cells[o]
                    }),
            decreases 4 - i,
        {
            let cell = cells[i];
            assert(cell == piece.cells()[i as int]);
            if cell.y < 0 {
                assert(!piece.below_top());
                assert(self@.cells =~= pre.cells);
                return Err("Integer underflow".to_string());
            }
            assert(piece.below_top()) by {
                assert(piece.cell_y(0) >= 0);
            }
            assert(0 <= piece.cell_offset(i as int) < 200);
            let offset: i128 = (cell.y as i128) * 10 + (cell.x as i128);
            let ghost before = self.cells@;
            self.cells[offset as usize].filled = true;
            assert(self.cells@ =~= before.update(
                offset as int,
                Cell { filled: true, marked: before[offset as int].marked },
            ));
            i = i + 1;
        }
        assert(self@.cells =~= pre.with_piece(*piece).cells) by {
            assert forall|o: int| 0 <= o < 200 implies (piece.covers(o) <==> exists|k: int|
                0 <= k < 4 && piece.cell_offset(k) == o) by {}
        }
        Ok(())
    }

    /// Looks for complete rows. The cells of each complete row are marked
    /// and the row is recorded as pending; the rows found together are paid
    /// for at once, by their number and the level. Says whether any row was
    /// found.
    pub fn has_patterns(&mut self, points: &mut usize, level: &mut usize) -> (found: bool)
        requires
            *old(points) + row_score(old(self)@.complete_rows().len(), *old(level) as nat)
                <= usize::MAX,
        ensures
            old(self).wf() ==> final(self).wf(),
            final(self)@ == old(self)@.scanned(),
            *final(points) == *old(points) + row_score(
                old(self)@.complete_rows().len(),
                *old(level) as nat,
            ),
            *final(level) == *old(level),
            found == (old(self)@.complete_rows().len() > 0),
    {
        let ghost pre = self@;
        let mut count: usize = 0;
        let mut row: isize = 0;
        while row < 20
            invariant
                0 <= row <= 20,
                pre.cells.len() == 200,
                count == pre.complete_below(row as int).len(),
                count <= row,
                self.pending@ == pre.pending + pre.complete_below(row as int),
                forall|o: int|
                    0 <= o < 200 ==> #[trigger] self.cells@[o] == (if o < row * 10
                        && pre.row_complete(o / 10) {
                        Cell { filled: pre.cells[o].filled, marked: true }
                    } else {
                        pre.cells[o]
                    }),
            decreases 20 - row,
        {
            let mut filled: usize = 0;
            let mut col: isize = 0;
            while col < 10
                invariant
                    0 <= col <= 10,
                    0 <= row < 20,
                    filled <= col,
                    filled == col <==> forall|c: int|
                        0 <= c < col ==> (#[trigger] self.cells@[row * 10 + c]).filled,
                decreases 10 - col,
            {
                let offset = (row * 10 + col) as usize;
                if self.cells[offset].filled {
                    filled = filled + 1;
                }
                col = col + 1;
            }
            assert(filled == 10 <==> pre.row_complete(row as int)) by {
                assert forall|c: int| 0 <= c < 10 implies (#[trigger] self.cells@[row * 10 + c]).filled
                    == pre.cells[row * 10 + c].filled by {}
                assert forall|c: int| 0 <= c < 10 implies self.cells@[row * 10 + c].filled == (
                #[trigger] pre.cells[row * 10 + c]).filled by {}
            }
            if filled == 10 {
                let ghost scanned = self.cells@;
                let ghost waiting = self.pending@;
                let mut col: isize = 0;
                while col < 10
                    invariant
                        0 <= col <= 10,
                        self.pending@ == waiting,
                        0 <= row < 20,
                        scanned.len() == 200,
                        forall|o: int|
                            0 <= o < 200 ==> #[trigger] self.cells@[o] == (if row * 10 <= o < row
                                * 10 + col {
                                Cell { filled: scanned[o].filled, marked: true }
                            } else {
                                scanned[o]
                            }),
                    decreases 10 - col,
                {
                    let offset = (row * 10 + col) as usize;
                    self.cells[offset].marked = true;
                    col = col + 1;
                }
                self.pending.push(row);
                assert(pre.complete_below(row + 1) == pre.complete_below(row as int).push(row));
                assert(self.pending@ =~= pre.pending + pre.complete_below(row + 1));
                count = count + 1;
            }
            row = row + 1;
        }
        proof {
            pre.lemma_complete_below(20);
            assert(self@.cells =~= pre.scanned().cells);
            if pre.wf() {
                pre.lemma_scanned_wf();
            }
        }
        if count == 1 {
            *points = *points + 100 * *level;
        } else if count == 2 {
            *points = *points + 300 * *level;
        } else if count == 3 {
            *points = *points + 500 * *level;
        } else if count == 4 {
            *points = *points + 800 * *level;
        }
        count > 0
    }
}

impl Board {
    /// Puts the pending rows in falling order: the row nearest to the
    /// bottom first, the row nearest to the top last.
    fn sort_pending(&mut self)
        ensures
            final(self)@ == (BoardView {
                cells: old(self)@.cells,
                pending: old(self)@.pending_bottom_up(),
            }),
    {
        let ghost before = self.pending@;
        let ghost cells = self.cells@;
        let n = self.pending.len();
        let mut i: usize = 0;
        while i < n
            invariant
                i <= n,
                n == self.pending@.len(),
                self.cells@ == cells,
                self.pending@.to_multiset() == before.to_multiset(),
                forall|a: int, b: int| 0 <= a < b < i ==> self.pending@[a] >= self.pending@[b],
            decreases n - i,
        {
            let mut j: usize = i;
            while j > 0 && self.pending[j - 1] < self.pending[j]
                invariant
                    j <= i < n,
                    n == self.pending@.len(),
                    self.cells@ == cells,
                    self.pending@.to_multiset() == before.to_multiset(),
                    forall|a: int, b: int|
                        0 <= a < b <= i && a != j && b != j ==> self.pending@[a] >= self.pending@[b],
                    forall|b: int| j < b <= i ==> self.pending@[j as int] >= self.pending@[b],
                decreases j,
            {
                let ghost rows = self.pending@;
                let upper = self.pending[j - 1];
                let lower = self.pending[j];
                self.pending[j - 1] = lower;
                self.pending[j] = upper;
                proof {
                    let half = rows.update(j - 1, lower);
                    assert(self.pending@ =~= half.update(j as int, upper));
                    vstd::seq_lib::to_multiset_update(rows, j - 1, lower);
                    vstd::seq_lib::to_multiset_update(half, j as int, upper);
                    assert(self.pending@.to_multiset() =~= rows.to_multiset());
                }
                j = j - 1;
            }
            i = i + 1;
        }
        proof {
            lemma_bottom_up_is_total();
            before.lemma_sort_by_ensures(bottom_up());
            assert(sorted_by(self.pending@, bottom_up()));
            vstd::seq_lib::lemma_sorted_unique(
                self.pending@,
                before.sort_by(bottom_up()),
                bottom_up(),
            );
        }
    }

    /// Collapses one pending row, the one nearest to the top, so that the
    /// rows still pending, all further down, keep their places: the row is
    /// emptied and every row above it moves down by one. Says whether a
    /// filled cell moved; with no row pending nothing happens and the
    /// answer is no.
    pub fn clear_marked(&mut self) -> (moved: bool)
        requires
            old(self).wf(),
        ensures
            final(self).wf(),
            old(self)@.pending.len() == 0 ==> !moved && final(self)@ == old(self)@,
            old(self)@.pending.len() > 0 ==> final(self)@ == old(self)@.collapsed() && moved
                == old(self)@.filled_above(old(self)@.topmost_pending() as int),
    {
        let ghost pre = self@;
        if self.pending.len() == 0 {
            return false;
        }
        self.sort_pending();
        proof {
            pre.lemma_pending_bottom_up();
            pre.lemma_collapsed_wf();
        }
        let cleared_row = self.pending.pop().unwrap();
        let ghost rest = self.pending@;
        assert(rest =~= pre.collapsed().pending);
        let mut col: isize = 0;
        while col < 10
            invariant
                0 <= col <= 10,
                0 <= cleared_row < 20,
                pre.cells.len() == 200,
                self.pending@ == rest,
                forall|o: int|
                    0 <= o < 200 ==> #[trigger] self.cells@[o] == (if cleared_row * 10 <= o
                        < cleared_row * 10 + col {
                        Cell::blank()
                    } else {
                        pre.cells[o]
                    }),
            decreases 10 - col,
        {
            let offset = (cleared_row * 10 + col) as usize;
            self.cells[offset] = Cell::new();
            col = col + 1;
        }
        let mut moved_cell = false;
        let mut row: isize = cleared_row;
        while row > 0
            invariant
                0 <= row <= cleared_row < 20,
                pre.wf(),
                self.pending@ == rest,
                moved_cell == exists|o: int|
                    row * 10 <= o < cleared_row * 10 && (#[trigger] pre.cells[o]).filled,
                forall|o: int|
                    0 <= o < 200 ==> #[trigger] self.cells@[o] == (if o >= (cleared_row + 1) * 10 {
                        pre.cells[o]
                    } else if o >= (row + 1) * 10 {
                        Cell { filled: pre.cells[o - 10].filled, marked: false }
                    } else if o >= row * 10 {
                        Cell::blank()
                    } else {
                        pre.cells[o]
                    }),
            decreases row,
        {
            row = row - 1;
            let ghost moved_before = moved_cell;
            let mut col: isize = 0;
            while col < 10
                invariant
                    0 <= col <= 10,
                    0 <= row < cleared_row < 20,
                    pre.wf(),
                    self.pending@ == rest,
                    moved_cell == (moved_before || exists|c: int|
                        0 <= c < col && (#[trigger] pre.cells[row * 10 + c]).filled),
                    forall|o: int|
                        0 <= o < 200 ==> #[trigger] self.cells@[o] == (if o >= (cleared_row + 1)
                            * 10 {
                            pre.cells[o]
                        } else if o >= (row + 2) * 10 {
                            Cell { filled: pre.cells[o - 10].filled, marked: false }
                        } else if o >= (row + 1) * 10 + col {
                            Cell::blank()
                        } else if o >= (row + 1) * 10 {
                            Cell { filled: pre.cells[o - 10].filled, marked: false }
                        } else if row * 10 <= o < row * 10 + col {
                            Cell::blank()
                        } else {
                            pre.cells[o]
                        }),
                decreases 10 - col,
            {
                let offset = (row * 10 + col) as usize;
                let offset_below = ((row + 1) * 10 + col) as usize;
                if self.cells[offset].filled {
                    moved_cell = true;
                    self.cells[offset] = Cell::new();
                    self.cells[offset_below].filled = true;
                }
                col = col + 1;
            }
            proof {
                if moved_cell && !moved_before {
                    let c = choose|c: int| 0 <= c < 10 && (#[trigger] pre.cells[row * 10 + c]).filled;
                    assert(pre.cells[row * 10 + c].filled);
                }
                if exists|o: int|
                    row * 10 <= o < cleared_row * 10 && (#[trigger] pre.cells[o]).filled {
                    let o = choose|o: int|
                        row * 10 <= o < cleared_row * 10 && (#[trigger] pre.cells[o]).filled;
                    if o < (row + 1) * 10 {
                        assert(pre.cells[row * 10 + (o - row * 10)].filled);
                    }
                }
            }
        }
        assert(self@.cells =~= pre.collapsed().cells);
        moved_cell
    }
}

/// One, two, three or four rows completed at once pay 100, 300, 500 or
/// 800 times the level; no other number of rows pays anything.
pub proof fn lemma_scoring_table(level: nat)
    ensures
        row_score(1, level) == 100 * level,
        row_score(2, level) == 300 * level,
        row_score(3, level) == 500 * level,
        row_score(4, level) == 800 * level,
        forall|count: nat| count == 0 || count > 4 ==> #[trigger] row_score(count, level) == 0,
{
}

/// A board on which `row` is the one complete row, with no row pending:
/// a scan marks the cells of that row and no others, fills or empties
/// nothing, and makes that row the one pending row. The collapse that
/// follows empties the row and moves every row above it down by one, so
/// that the top row is blank; the rows below stay as they were, and
/// no row is pending any more.
pub proof fn lemma_single_row_clear(board: BoardView, row: int)
    requires
        board.wf(),
        board.pending.len() == 0,
        0 <= row < 20,
        forall|r: int| 0 <= r < 20 ==> (#[trigger] board.row_complete(r) <==> r == row),
    ensures
        board.complete_rows() == seq![row as isize],
        forall|o: int|
            0 <= o < 200 ==> (#[trigger] board.scanned().cells[o]).filled == board.cells[o].filled
                && board.scanned().cells[o].marked == (board.cells[o].marked || o / 10 == row),
        board.scanned().pending == seq![row as isize],
        board.scanned().topmost_pending() == row,
        forall|o: int|
            (row + 1) * 10 <= o < 200 ==> #[trigger] board.scanned().collapsed().cells[o]
                == board.scanned().cells[o],
        forall|o: int|
            10 <= o < (row + 1) * 10 ==> #[trigger] board.scanned().collapsed().cells[o] == (Cell {
                filled: board.cells[o - 10].filled,
                marked: false,
            }),
        forall|o: int|
            0 <= o < 10 ==> #[trigger] board.scanned().collapsed().cells[o] == Cell::blank(),
        board.scanned().collapsed().pending.len() == 0,
{
    lemma_complete_rows_single(board, row, 20);
    let scanned = board.scanned();
    assert(scanned.pending =~= seq![row as isize]);
    scanned.lemma_pending_bottom_up();
    assert(scanned.pending.contains(scanned.topmost_pending()));
}

/// Where `row` is the one complete row, the complete rows among the first
/// `n` are that row, if it is among them, and nothing else.
pub proof fn lemma_complete_rows_single(board: BoardView, row: int, n: int)
    requires
        0 <= row < 20,
        0 <= n <= 20,
        forall|r: int| 0 <= r < 20 ==> (#[trigger] board.row_complete(r) <==> r == row),
    ensures
        board.complete_below(n) == (if n > row {
            seq![row as isize]
        } else {
            Seq::<isize>::empty()
        }),
    decreases n,
{
    if n > 0 {
        lemma_complete_rows_single(board, row, n - 1);
        if n - 1 == row {
            assert(board.complete_below(n) =~= seq![row as isize]);
        }
    }
}

} // verus!
