use vstd::prelude::*;

use crate::engine::{block_step, row_upto, rows_upto, step_cell, tick, visit_cell};
use crate::grid::{cell_at, clear_processed, Cell, Grid};
use crate::material::{material_from_code, material_of_code, CellType};
use crate::rng::{seeded, RandomSource};

use rayon::iter::IntoParallelRefMutIterator;
use rayon::iter::ParallelIterator;

verus! {

/// Clears the processed marker of one cell.
pub fn clear_marker(cell: &mut Cell)
    ensures
        *final(cell) == (Cell { cell_type: old(cell).cell_type, updated: false }),
{
    cell.updated = false;
}

/// Relies on rayon's `par_iter_mut().for_each`: the closure is applied to
/// every element of the vector exactly once, in place.
#[verifier::external_body]
fn reset_markers_parallel(cells: &mut Vec<Cell>)
    ensures
        final(cells)@.len() == old(cells)@.len(),
        forall|i: int|
            0 <= i < old(cells)@.len() ==> final(cells)@[i] == (Cell {
                cell_type: old(cells)@[i].cell_type,
                updated: false,
            }),
{
    cells.par_iter_mut().for_each(|cell| clear_marker(cell));
}

/// The whole simulation: a step counter and a square grid of cells, advanced
/// one tick at a time, with an explicit random source for tie-breaks and
/// condensation rolls.
pub struct World {
    pub steps: u32,
    pub world_size: usize,
    pub grid: Grid,
    pub rng: RandomSource,
}

impl World {
    /// The structural invariant: the grid is well formed and its side is the
    /// recorded world size.
    pub open spec fn wf(&self) -> bool {
        &&& self.grid.wf()
        &&& self.grid.rows == self.world_size
    }

    /// The side length, as a spec value.
    pub open spec fn side(&self) -> int {
        self.world_size as int
    }

    /// A fresh world of empty cells, its random source seeded from ambient
    /// entropy.
    pub fn new(world_size: usize) -> (w: World)
        requires
            1 <= world_size,
            world_size * world_size <= usize::MAX,
        ensures
            w.wf(),
            w.steps == 0,
            w.world_size == world_size,
            forall|i: int|
                0 <= i < w.grid.cells@.len() ==> w.grid.cells@[i] == (Cell {
                    cell_type: CellType::Empty,
                    updated: false,
                }),
    {
        World {
            steps: 0,
            world_size,
            grid: Grid::new(world_size),
            rng: RandomSource::fresh(),
        }
    }

    /// A fresh world of empty cells with a deterministic random source: the
    /// same seed always reproduces the same simulation.
    pub fn with_seed(world_size: usize, seed: u64) -> (w: World)
        requires
            1 <= world_size,
            world_size * world_size <= usize::MAX,
        ensures
            w.wf(),
            w.steps == 0,
            w.world_size == world_size,
            w.rng.state == seeded(seed),
            forall|i: int|
                0 <= i < w.grid.cells@.len() ==> w.grid.cells@[i] == (Cell {
                    cell_type: CellType::Empty,
                    updated: false,
                }),
    {
        World {
            steps: 0,
            world_size,
            grid: Grid::new(world_size),
            rng: RandomSource::from_seed(seed),
        }
    }

    /// One engine pass over a block of the grid: rows are visited bottom row
    /// first, and columns ascending within a row.  Every visited cell ends
    /// marked processed; a cell already marked when the scan reaches it is
    /// skipped, which is what limits every cell to one rule application per
    /// tick.
    pub fn update_block(&mut self, start_column: usize, start_row: usize, columns: usize, rows: usize)
        requires
            old(self).wf(),
            start_column + columns <= old(self).world_size,
            start_row + rows <= old(self).world_size,
        ensures
            final(self).wf(),
            final(self).steps == old(self).steps,
            final(self).world_size == old(self).world_size,
            final(self).grid.cells@ == block_step(
                old(self).grid.cells@,
                old(self).side(),
                start_column as int,
                start_row as int,
                columns as nat,
                rows as nat,
                old(self).rng.state,
            ).0,
            final(self).rng.state == block_step(
                old(self).grid.cells@,
                old(self).side(),
                start_column as int,
                start_row as int,
                columns as nat,
                rows as nat,
                old(self).rng.state,
            ).1,
    {
        let ghost g0 = self.grid.cells@;
        let ghost s0 = self.rng.state;
        let ghost n = self.side();
        let mut row = start_row;
        while row < start_row + rows
            invariant
                self.wf(),
                self.steps == old(self).steps,
                self.world_size == old(self).world_size,
                n == self.side(),
                start_row <= row <= start_row + rows,
                start_column + columns <= self.world_size,
                start_row + rows <= self.world_size,
                self.grid.cells@ == rows_upto(
                    g0,
                    n,
                    start_row as int,
                    start_column as int,
                    columns as nat,
                    (row - start_row) as nat,
                    s0,
                ).0,
                self.rng.state == rows_upto(
                    g0,
                    n,
                    start_row as int,
                    start_column as int,
                    columns as nat,
                    (row - start_row) as nat,
                    s0,
                ).1,
            decreases start_row + rows - row,
        {
            let ghost g_row = self.grid.cells@;
            let ghost s_row = self.rng.state;
            let mut col = start_column;
            while col < start_column + columns
                invariant
                    self.wf(),
                    self.steps == old(self).steps,
                    self.world_size == old(self).world_size,
                    n == self.side(),
                    start_column <= col <= start_column + columns,
                    start_column + columns <= self.world_size,
                    row < self.world_size,
                    self.grid.cells@ == row_upto(
                        g_row,
                        n,
                        row as int,
                        start_column as int,
                        (col - start_column) as nat,
                        s_row,
                    ).0,
                    self.rng.state == row_upto(
                        g_row,
                        n,
                        row as int,
                        start_column as int,
                        (col - start_column) as nat,
                        s_row,
                    ).1,
                decreases start_column + columns - col,
            {
                let ghost g_prev = self.grid.cells@;
                let ghost s_prev = self.rng.state;
                step_cell(&mut self.grid, &mut self.rng, row, col);
                col = col + 1;
                proof {
                    assert(row_upto(
                        g_row,
                        n,
                        row as int,
                        start_column as int,
                        (col - start_column) as nat,
                        s_row,
                    ) == visit_cell(g_prev, n, row as int, col - 1, s_prev));
                }
            }
            row = row + 1;
            proof {
                assert(rows_upto(
                    g0,
                    n,
                    start_row as int,
                    start_column as int,
                    columns as nat,
                    (row - start_row) as nat,
                    s0,
                ) == row_upto(
                    g_row,
                    n,
                    row - 1,
                    start_column as int,
                    columns as nat,
                    s_row,
                ));
            }
        }
    }

    /// One tick: the step counter advances, the engine scans the whole grid
    /// once, and every processed marker is then cleared for the next tick.
    pub fn update(&mut self)
        requires
            old(self).wf(),
            old(self).steps < u32::MAX,
        ensures
            final(self).wf(),
            final(self).steps == old(self).steps + 1,
            final(self).world_size == old(self).world_size,
            final(self).grid.cells@ == tick(
                old(self).grid.cells@,
                old(self).side(),
                old(self).rng.state,
            ).0,
            final(self).rng.state == tick(
                old(self).grid.cells@,
                old(self).side(),
                old(self).rng.state,
            ).1,
    {
        self.steps = self.steps + 1;
        let n = self.world_size;
        self.update_block(0, 0, n, n);
        self.grid.reset_processed();
    }

    /// One tick whose final marker-reset pass runs with data parallelism.
    /// The reset has no cross-cell dependency, so the result is the same as
    /// `update`'s.
    pub fn update_parallel(&mut self)
        requires
            old(self).wf(),
            old(self).steps < u32::MAX,
        ensures
            final(self).wf(),
            final(self).steps == old(self).steps + 1,
            final(self).world_size == old(self).world_size,
            final(self).grid.cells@ == tick(
                old(self).grid.cells@,
                old(self).side(),
                old(self).rng.state,
            ).0,
            final(self).rng.state == tick(
                old(self).grid.cells@,
                old(self).side(),
                old(self).rng.state,
            ).1,
    {
        self.steps = self.steps + 1;
        let n = self.world_size;
        self.update_block(0, 0, n, n);
        reset_markers_parallel(&mut self.grid.cells);
        assert(self.grid.cells@ =~= clear_processed(
            block_step(
                old(self).grid.cells@,
                old(self).side(),
                0,
                0,
                old(self).world_size as nat,
                old(self).world_size as nat,
                old(self).rng.state,
            ).0,
        ));
    }

    /// Sets every cell to `Empty` with a cleared marker; the step counter is
    /// untouched.
    pub fn clear(&mut self)
        requires
            old(self).wf(),
        ensures
            final(self).wf(),
            final(self).steps == old(self).steps,
            final(self).world_size == old(self).world_size,
            final(self).rng == old(self).rng,
            final(self).grid.cells@.len() == old(self).grid.cells@.len(),
            forall|i: int|
                0 <= i < final(self).grid.cells@.len() ==> final(self).grid.cells@[i] == (Cell {
                    cell_type: CellType::Empty,
                    updated: false,
                }),
    {
        self.grid.fill_empty();
    }
}

/// Builds a world from a square matrix of layout codes: cell (r, c) holds
/// the material of `codes[r][c]` under the layout codec, with a cleared
/// marker.  The world's random source is seeded from ambient entropy.
pub fn populate_world(codes: &Vec<Vec<u8>>) -> (w: World)
    requires
        1 <= codes@.len(),
        codes@.len() * codes@.len() <= usize::MAX,
        forall|r: int| 0 <= r < codes@.len() ==> #[trigger] codes@[r]@.len() == codes@.len(),
    ensures
        w.wf(),
        w.steps == 0,
        w.world_size == codes@.len(),
        forall|r: int, c: int|
            0 <= r < codes@.len() && 0 <= c < codes@.len() ==> cell_at(
                w.grid.cells@,
                w.side(),
                r,
                c,
            ) == (Cell { cell_type: material_of_code(codes@[r]@[c]), updated: false }),
{
    let size = codes.len();
    let ghost sz = size as int;
    let mut w = World::new(size);
    proof {
        assert forall|r: int, c: int| 0 <= r < sz && 0 <= c < sz implies cell_at(
            w.grid.cells@,
            sz,
            r,
            c,
        ) == (Cell { cell_type: CellType::Empty, updated: false }) by {
            crate::grid::lemma_flat_index(sz, r, c, 0, 0);
        }
    }
    let mut row: usize = 0;
    while row < size
        invariant
            w.wf(),
            w.steps == 0,
            w.world_size == size,
            row <= size,
            size == codes@.len(),
            sz == size as int,
            forall|r: int| 0 <= r < codes@.len() ==> #[trigger] codes@[r]@.len() == codes@.len(),
            forall|r: int, c: int|
                0 <= r < row && 0 <= c < sz ==> cell_at(w.grid.cells@, sz, r, c) == (Cell {
                    cell_type: material_of_code(codes@[r]@[c]),
                    updated: false,
                }),
            forall|r: int, c: int|
                row <= r < sz && 0 <= c < sz ==> cell_at(w.grid.cells@, sz, r, c) == (Cell {
                    cell_type: CellType::Empty,
                    updated: false,
                }),
        decreases size - row,
    {
        let mut col: usize = 0;
        while col < size
            invariant
                w.wf(),
                w.steps == 0,
                w.world_size == size,
                row < size,
                col <= size,
                size == codes@.len(),
                sz == size as int,
                forall|r: int| 0 <= r < codes@.len() ==> #[trigger] codes@[r]@.len() == codes@.len(),
                forall|r: int, c: int|
                    0 <= r < row && 0 <= c < sz ==> cell_at(w.grid.cells@, sz, r, c) == (Cell {
                        cell_type: material_of_code(codes@[r]@[c]),
                        updated: false,
                    }),
                forall|c: int|
                    0 <= c < col ==> cell_at(w.grid.cells@, sz, row as int, c) == (Cell {
                        cell_type: material_of_code(codes@[row as int]@[c]),
                        updated: false,
                    }),
                forall|c: int|
                    col <= c < sz ==> cell_at(w.grid.cells@, sz, row as int, c) == (Cell {
                        cell_type: CellType::Empty,
                        updated: false,
                    }),
                forall|r: int, c: int|
                    row < r < sz && 0 <= c < sz ==> cell_at(w.grid.cells@, sz, r, c) == (Cell {
                        cell_type: CellType::Empty,
                        updated: false,
                    }),
            decreases size - col,
        {
            let m = material_from_code(codes[row][col]);
            let ghost before = w.grid.cells@;
            w.grid.set_material(row, col, m);
            proof {
                assert(cell_at(before, sz, row as int, col as int) == (Cell {
                    cell_type: CellType::Empty,
                    updated: false,
                }));
                assert(w.grid.cells@ == before.update(
                    row as int * sz + col as int,
                    Cell { cell_type: m, updated: false },
                ));
                assert forall|r: int, c: int| 0 <= r < sz && 0 <= c < sz implies cell_at(
                    w.grid.cells@,
                    sz,
                    r,
                    c,
                ) == (if r == row as int && c == col as int {
                    Cell { cell_type: material_of_code(codes@[r]@[c]), updated: false }
                } else {
                    cell_at(before, sz, r, c)
                }) by {
                    crate::grid::lemma_flat_index(sz, r, c, row as int, col as int);
                    crate::grid::lemma_flat_index(sz, row as int, col as int, 0, 0);
                    assert(w.grid.cells@[r * sz + c] == before.update(
                        row as int * sz + col as int,
                        Cell { cell_type: m, updated: false },
                    )[r * sz + c]);
                }
            }
            col = col + 1;
        }
        row = row + 1;
    }
    proof {
        assert forall|r: int, c: int| 0 <= r < codes@.len() && 0 <= c < codes@.len() implies
            cell_at(w.grid.cells@, w.side(), r, c) == (Cell {
                cell_type: material_of_code(codes@[r]@[c]),
                updated: false,
            }) by {
            assert(cell_at(w.grid.cells@, sz, r, c) == (Cell {
                cell_type: material_of_code(codes@[r]@[c]),
                updated: false,
            }));
        }
    }
    w
}

} // verus!
