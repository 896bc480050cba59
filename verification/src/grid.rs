use vstd::prelude::*;

use crate::material::CellType;

verus! {

/// One grid slot: a material, and the transient per-tick processed marker.
/// The marker is false between ticks; within a tick it guards each cell
/// against a second rule application.
#[derive(Clone, Copy, PartialEq, Eq, Structural, Debug)]
pub struct Cell {
    pub cell_type: CellType,
    pub updated: bool,
}

/// The cell at (row, column) of a flat row-major grid of width `n`.
pub open spec fn cell_at(g: Seq<Cell>, n: int, r: int, c: int) -> Cell {
    g[r * n + c]
}

/// The material at (row, column).
pub open spec fn mat_at(g: Seq<Cell>, n: int, r: int, c: int) -> CellType {
    cell_at(g, n, r, c).cell_type
}

/// The grid with the whole cell at (row, column) replaced.
pub open spec fn with_cell(g: Seq<Cell>, n: int, r: int, c: int, cell: Cell) -> Seq<Cell> {
    g.update(r * n + c, cell)
}

/// The grid with the material at (row, column) replaced; the processed marker
/// of that cell is kept.
pub open spec fn with_material(g: Seq<Cell>, n: int, r: int, c: int, m: CellType) -> Seq<Cell> {
    g.update(r * n + c, (Cell { cell_type: m, updated: cell_at(g, n, r, c).updated }))
}

/// The grid with the cell at (row, column) marked processed; its material is
/// kept.
pub open spec fn with_processed(g: Seq<Cell>, n: int, r: int, c: int) -> Seq<Cell> {
    g.update(r * n + c, (Cell { cell_type: mat_at(g, n, r, c), updated: true }))
}

/// The grid with every processed marker cleared and every material kept.
pub open spec fn clear_processed(g: Seq<Cell>) -> Seq<Cell> {
    Seq::new(g.len(), |i: int| Cell { cell_type: g[i].cell_type, updated: false })
}

/// In a square grid of side `n`, each in-range (row, column) pair names one
/// flat index, and distinct pairs name distinct indices.
pub proof fn lemma_flat_index(n: int, r1: int, c1: int, r2: int, c2: int)
    ensures
        0 <= r1 < n && 0 <= c1 < n ==> 0 <= r1 * n + c1 < n * n,
        0 <= r2 < n && 0 <= c2 < n ==> 0 <= r2 * n + c2 < n * n,
        (0 <= r1 < n && 0 <= c1 < n && 0 <= r2 < n && 0 <= c2 < n && (r1 != r2 || c1 != c2))
            ==> r1 * n + c1 != r2 * n + c2,
{
    assert(0 <= r1 < n && 0 <= c1 < n ==> 0 <= r1 * n + c1 < n * n) by (nonlinear_arith);
    assert(0 <= r2 < n && 0 <= c2 < n ==> 0 <= r2 * n + c2 < n * n) by (nonlinear_arith);
    assert((0 <= r1 < n && 0 <= c1 < n && 0 <= r2 < n && 0 <= c2 < n && (r1 != r2 || c1 != c2))
        ==> r1 * n + c1 != r2 * n + c2) by (nonlinear_arith);
}

/// A fixed-size square container of cells, addressed by (row, column).
/// Row 0 is the bottom row.  Storage is a single flat row-major vector, so
/// every neighbor access is plain index arithmetic.
pub struct Grid {
    pub rows: usize,
    pub columns: usize,
    pub cells: Vec<Cell>,
}

impl Grid {
    /// The structural invariant: the grid is square, nonempty, and holds
    /// exactly one cell per coordinate pair.
    pub open spec fn wf(&self) -> bool {
        &&& self.rows == self.columns
        &&& 1 <= self.rows
        &&& self.cells@.len() == self.rows * self.columns
    }

    /// The side length, as a spec value.
    pub open spec fn side(&self) -> int {
        self.rows as int
    }

    /// Builds a `world_size` x `world_size` grid of empty, unprocessed cells.
    pub fn new(world_size: usize) -> (g: Grid)
        requires
            1 <= world_size,
            world_size * world_size <= usize::MAX,
        ensures
            g.wf(),
            g.rows == world_size,
            g.columns == world_size,
            forall|i: int|
                0 <= i < g.cells@.len() ==> g.cells@[i] == (Cell {
                    cell_type: CellType::Empty,
                    updated: false,
                }),
    {
        let count = world_size * world_size;
        let mut cells: Vec<Cell> = Vec::new();
        let mut i: usize = 0;
        while i < count
            invariant
                i <= count,
                cells@.len() == i,
                forall|j: int|
                    0 <= j < i ==> cells@[j] == (Cell {
                        cell_type: CellType::Empty,
                        updated: false,
                    }),
            decreases count - i,
        {
            cells.push(Cell { cell_type: CellType::Empty, updated: false });
            i = i + 1;
        }
        Grid { rows: world_size, columns: world_size, cells }
    }

    /// Reads the cell at (row, column); the coordinates must be in range.
    pub fn get(&self, row: usize, column: usize) -> (cell: Cell)
        requires
            self.wf(),
            row < self.rows,
            column < self.columns,
        ensures
            cell == cell_at(self.cells@, self.side(), row as int, column as int),
    {
        let len = self.cells.len();
        proof {
            lemma_flat_index(self.side(), row as int, column as int, 0, 0);
            assert(row * self.side() + column < len);
        }
        self.cells[row * self.columns + column]
    }

    /// Reads the material at (row, column); the coordinates must be in range.
    pub fn material(&self, row: usize, column: usize) -> (m: CellType)
        requires
            self.wf(),
            row < self.rows,
            column < self.columns,
        ensures
            m == mat_at(self.cells@, self.side(), row as int, column as int),
    {
        self.get(row, column).cell_type
    }

    /// Replaces the whole cell at (row, column).
    pub fn set_cell(&mut self, row: usize, column: usize, cell: Cell)
        requires
            old(self).wf(),
            row < old(self).rows,
            column < old(self).columns,
        ensures
            final(self).wf(),
            final(self).rows == old(self).rows,
            final(self).columns == old(self).columns,
            final(self).cells@ == with_cell(
                old(self).cells@,
                old(self).side(),
                row as int,
                column as int,
                cell,
            ),
    {
        let len = self.cells.len();
        proof {
            lemma_flat_index(self.side(), row as int, column as int, 0, 0);
            assert(row * self.side() + column < len);
        }
        let idx = row * self.columns + column;
        self.cells.set(idx, cell);
    }

    /// Paints the material at (row, column), leaving the processed marker as
    /// it is.
    pub fn set_material(&mut self, row: usize, column: usize, m: CellType)
        requires
            old(self).wf(),
            row < old(self).rows,
            column < old(self).columns,
        ensures
            final(self).wf(),
            final(self).rows == old(self).rows,
            final(self).columns == old(self).columns,
            final(self).cells@ == with_material(
                old(self).cells@,
                old(self).side(),
                row as int,
                column as int,
                m,
            ),
    {
        let kept = self.get(row, column).updated;
        self.set_cell(row, column, Cell { cell_type: m, updated: kept });
    }

    /// Marks the cell at (row, column) processed, leaving its material as it
    /// is.
    pub fn mark_processed(&mut self, row: usize, column: usize)
        requires
            old(self).wf(),
            row < old(self).rows,
            column < old(self).columns,
        ensures
            final(self).wf(),
            final(self).rows == old(self).rows,
            final(self).columns == old(self).columns,
            final(self).cells@ == with_processed(
                old(self).cells@,
                old(self).side(),
                row as int,
                column as int,
            ),
    {
        let kept = self.get(row, column).cell_type;
        self.set_cell(row, column, Cell { cell_type: kept, updated: true });
    }

    /// Clears every processed marker, keeping every material: the order-free
    /// pass that ends a tick.
    pub fn reset_processed(&mut self)
        requires
            old(self).wf(),
        ensures
            final(self).wf(),
            final(self).rows == old(self).rows,
            final(self).columns == old(self).columns,
            final(self).cells@ == clear_processed(old(self).cells@),
    {
        let len = self.cells.len();
        let mut i: usize = 0;
        while i < len
            invariant
                i <= len,
                self.cells@.len() == len,
                self.rows == old(self).rows,
                self.columns == old(self).columns,
                forall|j: int|
                    0 <= j < i ==> self.cells@[j] == (Cell {
                        cell_type: old(self).cells@[j].cell_type,
                        updated: false,
                    }),
                forall|j: int| i <= j < len ==> self.cells@[j] == old(self).cells@[j],
            decreases len - i,
        {
            let kept = self.cells[i].cell_type;
            self.cells.set(i, Cell { cell_type: kept, updated: false });
            i = i + 1;
        }
        assert(self.cells@ =~= clear_processed(old(self).cells@));
    }

    /// Sets every cell to `Empty` with a cleared marker.
    pub fn fill_empty(&mut self)
        requires
            old(self).wf(),
        ensures
            final(self).wf(),
            final(self).rows == old(self).rows,
            final(self).columns == old(self).columns,
            final(self).cells@.len() == old(self).cells@.len(),
            forall|i: int|
                0 <= i < final(self).cells@.len() ==> final(self).cells@[i] == (Cell {
                    cell_type: CellType::Empty,
                    updated: false,
                }),
    {
        let len = self.cells.len();
        let mut i: usize = 0;
        while i < len
            invariant
                i <= len,
                self.cells@.len() == len,
                self.rows == old(self).rows,
                self.columns == old(self).columns,
                forall|j: int|
                    0 <= j < i ==> self.cells@[j] == (Cell {
                        cell_type: CellType::Empty,
                        updated: false,
                    }),
            decreases len - i,
        {
            self.cells.set(i, Cell { cell_type: CellType::Empty, updated: false });
            i = i + 1;
        }
    }
}

} // verus!
