use vstd::prelude::*;

use crate::engine::{
    block_step, displace_below_step, liquid_bottom_step, liquid_spread_step, oil_step, row_upto,
    rows_upto, rule_step, sand_step, steam_step, tick, visit_cell, water_step,
};
use crate::grid::{cell_at, clear_processed, lemma_flat_index, mat_at, with_processed, Cell};
use crate::material::{is_inert, CellType};
use crate::rng::{condense_of, next_state};

verus! {

// ---------------------------------------------------------------------------
// Laws of one visit of the scan.
// ---------------------------------------------------------------------------

/// No processed marker that was set is ever cleared by `h`.
pub open spec fn marks_monotone(g: Seq<Cell>, h: Seq<Cell>) -> bool {
    forall|i: int| 0 <= i < g.len() && g[i].updated ==> #[trigger] h[i].updated
}

/// Every cell of `h` more than one row or column away from (r, c) is exactly
/// the cell of `g`.
pub open spec fn frame_outside(g: Seq<Cell>, h: Seq<Cell>, n: int, r: int, c: int) -> bool {
    forall|rr: int, cc: int|
        0 <= rr < n && 0 <= cc < n && (rr < r - 1 || rr > r + 1 || cc < c - 1 || cc > c + 1)
            ==> #[trigger] cell_at(h, n, rr, cc) == cell_at(g, n, rr, cc)
}

/// The displacement rule writes only within one cell of (r, c), never clears
/// a marker, and keeps the grid's size.
pub proof fn lemma_displace_cells(g: Seq<Cell>, n: int, r: int, c: int, s: u64, m: CellType)
    requires
        g.len() == n * n,
        1 <= r < n,
        0 <= c < n,
    ensures
        displace_below_step(g, n, r, c, s, m).0.len() == g.len(),
        marks_monotone(g, displace_below_step(g, n, r, c, s, m).0),
        frame_outside(g, displace_below_step(g, n, r, c, s, m).0, n, r, c),
{
    let h = displace_below_step(g, n, r, c, s, m).0;
    lemma_flat_index(n, r, c, 0, 0);
    lemma_flat_index(n, r - 1, c, 0, 0);
    lemma_flat_index(n, r, c - 1, 0, 0);
    lemma_flat_index(n, r, c + 1, 0, 0);
    assert forall|rr: int, cc: int|
        0 <= rr < n && 0 <= cc < n && (rr < r - 1 || rr > r + 1 || cc < c - 1 || cc > c + 1)
            implies #[trigger] cell_at(h, n, rr, cc) == cell_at(g, n, rr, cc) by {
        lemma_flat_index(n, rr, cc, r, c);
        lemma_flat_index(n, rr, cc, r - 1, c);
        lemma_flat_index(n, rr, cc, r, c - 1);
        lemma_flat_index(n, rr, cc, r, c + 1);
    }
}

/// The spreading rule for a blocked liquid writes only within one cell of
/// (r, c), never clears a marker, and keeps the grid's size.
pub proof fn lemma_spread_cells(g: Seq<Cell>, n: int, r: int, c: int, s: u64, m: CellType)
    requires
        g.len() == n * n,
        1 <= r < n,
        0 <= c < n,
    ensures
        liquid_spread_step(g, n, r, c, s, m).0.len() == g.len(),
        marks_monotone(g, liquid_spread_step(g, n, r, c, s, m).0),
        frame_outside(g, liquid_spread_step(g, n, r, c, s, m).0, n, r, c),
{
    let h = liquid_spread_step(g, n, r, c, s, m).0;
    lemma_flat_index(n, r, c, 0, 0);
    lemma_flat_index(n, r - 1, c - 1, 0, 0);
    lemma_flat_index(n, r - 1, c + 1, 0, 0);
    lemma_flat_index(n, r, c - 1, 0, 0);
    lemma_flat_index(n, r, c + 1, 0, 0);
    assert forall|rr: int, cc: int|
        0 <= rr < n && 0 <= cc < n && (rr < r - 1 || rr > r + 1 || cc < c - 1 || cc > c + 1)
            implies #[trigger] cell_at(h, n, rr, cc) == cell_at(g, n, rr, cc) by {
        lemma_flat_index(n, rr, cc, r, c);
        lemma_flat_index(n, rr, cc, r - 1, c - 1);
        lemma_flat_index(n, rr, cc, r - 1, c + 1);
        lemma_flat_index(n, rr, cc, r, c - 1);
        lemma_flat_index(n, rr, cc, r, c + 1);
    }
}

/// The bottom-row spreading rule writes only within one cell of (r, c),
/// never clears a marker, and keeps the grid's size.
pub proof fn lemma_bottom_cells(g: Seq<Cell>, n: int, r: int, c: int, s: u64, m: CellType)
    requires
        g.len() == n * n,
        0 <= r < n,
        0 <= c < n,
    ensures
        liquid_bottom_step(g, n, r, c, s, m).0.len() == g.len(),
        marks_monotone(g, liquid_bottom_step(g, n, r, c, s, m).0),
        frame_outside(g, liquid_bottom_step(g, n, r, c, s, m).0, n, r, c),
{
    let h = liquid_bottom_step(g, n, r, c, s, m).0;
    lemma_flat_index(n, r, c, 0, 0);
    lemma_flat_index(n, r, c - 1, 0, 0);
    lemma_flat_index(n, r, c + 1, 0, 0);
    assert forall|rr: int, cc: int|
        0 <= rr < n && 0 <= cc < n && (rr < r - 1 || rr > r + 1 || cc < c - 1 || cc > c + 1)
            implies #[trigger] cell_at(h, n, rr, cc) == cell_at(g, n, rr, cc) by {
        lemma_flat_index(n, rr, cc, r, c);
        lemma_flat_index(n, rr, cc, r, c - 1);
        lemma_flat_index(n, rr, cc, r, c + 1);
    }
}

/// The sand rule writes only within one cell of (r, c), never clears a
/// marker, and keeps the grid's size.
pub proof fn lemma_sand_cells(g: Seq<Cell>, n: int, r: int, c: int, s: u64)
    requires
        g.len() == n * n,
        0 <= r < n,
        0 <= c < n,
    ensures
        sand_step(g, n, r, c, s).0.len() == g.len(),
        marks_monotone(g, sand_step(g, n, r, c, s).0),
        frame_outside(g, sand_step(g, n, r, c, s).0, n, r, c),
{
    let h = sand_step(g, n, r, c, s).0;
    if r > 0 {
        lemma_displace_cells(g, n, r, c, s, CellType::Sand);
        lemma_flat_index(n, r, c, 0, 0);
        lemma_flat_index(n, r - 1, c, 0, 0);
        lemma_flat_index(n, r - 1, c - 1, 0, 0);
        lemma_flat_index(n, r - 1, c + 1, 0, 0);
        assert forall|rr: int, cc: int|
            0 <= rr < n && 0 <= cc < n && (rr < r - 1 || rr > r + 1 || cc < c - 1 || cc > c + 1)
                implies #[trigger] cell_at(h, n, rr, cc) == cell_at(g, n, rr, cc) by {
            lemma_flat_index(n, rr, cc, r, c);
            lemma_flat_index(n, rr, cc, r - 1, c);
            lemma_flat_index(n, rr, cc, r - 1, c - 1);
            lemma_flat_index(n, rr, cc, r - 1, c + 1);
        }
    }
}

/// The water rule writes only within one cell of (r, c), never clears a
/// marker, and keeps the grid's size.
pub proof fn lemma_water_cells(g: Seq<Cell>, n: int, r: int, c: int, s: u64)
    requires
        g.len() == n * n,
        0 <= r < n,
        0 <= c < n,
    ensures
        water_step(g, n, r, c, s).0.len() == g.len(),
        marks_monotone(g, water_step(g, n, r, c, s).0),
        frame_outside(g, water_step(g, n, r, c, s).0, n, r, c),
{
    let h = water_step(g, n, r, c, s).0;
    if r > 0 {
        lemma_displace_cells(g, n, r, c, s, CellType::Water);
        lemma_spread_cells(g, n, r, c, s, CellType::Water);
        lemma_flat_index(n, r, c, 0, 0);
        lemma_flat_index(n, r - 1, c, 0, 0);
        assert forall|rr: int, cc: int|
            0 <= rr < n && 0 <= cc < n && (rr < r - 1 || rr > r + 1 || cc < c - 1 || cc > c + 1)
                implies #[trigger] cell_at(h, n, rr, cc) == cell_at(g, n, rr, cc) by {
            lemma_flat_index(n, rr, cc, r, c);
            lemma_flat_index(n, rr, cc, r - 1, c);
        }
    } else {
        lemma_bottom_cells(g, n, r, c, s, CellType::Water);
    }
}

/// The oil rule writes only within one cell of (r, c), never clears a
/// marker, and keeps the grid's size.
pub proof fn lemma_oil_cells(g: Seq<Cell>, n: int, r: int, c: int, s: u64)
    requires
        g.len() == n * n,
        0 <= r < n,
        0 <= c < n,
    ensures
        oil_step(g, n, r, c, s).0.len() == g.len(),
        marks_monotone(g, oil_step(g, n, r, c, s).0),
        frame_outside(g, oil_step(g, n, r, c, s).0, n, r, c),
{
    let h = oil_step(g, n, r, c, s).0;
    if r > 0 {
        lemma_spread_cells(g, n, r, c, s, CellType::Oil);
        lemma_flat_index(n, r, c, 0, 0);
        lemma_flat_index(n, r - 1, c, 0, 0);
        assert forall|rr: int, cc: int|
            0 <= rr < n && 0 <= cc < n && (rr < r - 1 || rr > r + 1 || cc < c - 1 || cc > c + 1)
                implies #[trigger] cell_at(h, n, rr, cc) == cell_at(g, n, rr, cc) by {
            lemma_flat_index(n, rr, cc, r, c);
            lemma_flat_index(n, rr, cc, r - 1, c);
        }
    } else {
        lemma_bottom_cells(g, n, r, c, s, CellType::Oil);
    }
}

/// The steam rule writes only within one cell of (r, c), never clears a
/// marker, and keeps the grid's size.
pub proof fn lemma_steam_cells(g: Seq<Cell>, n: int, r: int, c: int, s: u64)
    requires
        g.len() == n * n,
        0 <= r < n,
        0 <= c < n,
    ensures
        steam_step(g, n, r, c, s).0.len() == g.len(),
        marks_monotone(g, steam_step(g, n, r, c, s).0),
        frame_outside(g, steam_step(g, n, r, c, s).0, n, r, c),
{
    let h = steam_step(g, n, r, c, s).0;
    lemma_flat_index(n, r, c, 0, 0);
    lemma_flat_index(n, r + 1, c, 0, 0);
    lemma_flat_index(n, r + 1, c - 1, 0, 0);
    lemma_flat_index(n, r + 1, c + 1, 0, 0);
    lemma_flat_index(n, r, c - 1, 0, 0);
    lemma_flat_index(n, r, c + 1, 0, 0);
    assert forall|rr: int, cc: int|
        0 <= rr < n && 0 <= cc < n && (rr < r - 1 || rr > r + 1 || cc < c - 1 || cc > c + 1)
            implies #[trigger] cell_at(h, n, rr, cc) == cell_at(g, n, rr, cc) by {
        lemma_flat_index(n, rr, cc, r, c);
        lemma_flat_index(n, rr, cc, r + 1, c);
        lemma_flat_index(n, rr, cc, r + 1, c - 1);
        lemma_flat_index(n, rr, cc, r + 1, c + 1);
        lemma_flat_index(n, rr, cc, r, c - 1);
        lemma_flat_index(n, rr, cc, r, c + 1);
    }
}

/// One visit never clears a processed marker, marks the visited cell, and
/// keeps the grid's size.
pub proof fn lemma_visit_cell_marks(g: Seq<Cell>, n: int, r: int, c: int, s: u64)
    requires
        g.len() == n * n,
        0 <= r < n,
        0 <= c < n,
    ensures
        visit_cell(g, n, r, c, s).0.len() == g.len(),
        cell_at(visit_cell(g, n, r, c, s).0, n, r, c).updated,
        marks_monotone(g, visit_cell(g, n, r, c, s).0),
{
    lemma_flat_index(n, r, c, 0, 0);
    if !cell_at(g, n, r, c).updated {
        match mat_at(g, n, r, c) {
            CellType::Sand => lemma_sand_cells(g, n, r, c, s),
            CellType::Water => lemma_water_cells(g, n, r, c, s),
            CellType::Oil => lemma_oil_cells(g, n, r, c, s),
            CellType::Steam => lemma_steam_cells(g, n, r, c, s),
            _ => {},
        }
    }
}

/// Steam in the top row with no empty cell beside it can go nowhere: when
/// its condensation roll does not fire, the rule leaves the grid exactly as
/// it was, having drawn only that one roll, and a visit of the cell changes
/// nothing but its processed marker.
pub proof fn lemma_steam_blocked_top_row(g: Seq<Cell>, n: int, r: int, c: int, s: u64)
    requires
        g.len() == n * n,
        0 <= c < n,
        0 <= r < n,
        r == n - 1,
        mat_at(g, n, r, c) == CellType::Steam,
        c > 0 ==> mat_at(g, n, r, c - 1) != CellType::Empty,
        c + 1 < n ==> mat_at(g, n, r, c + 1) != CellType::Empty,
        !condense_of(next_state(s)),
    ensures
        steam_step(g, n, r, c, s) == (g, next_state(s)),
        !cell_at(g, n, r, c).updated ==> visit_cell(g, n, r, c, s) == (
            with_processed(g, n, r, c),
            next_state(s),
        ),
{
}

/// A cell that is already marked when the scan reaches it is skipped
/// entirely: the visit leaves the grid and the random state untouched.
/// Together with `lemma_visit_cell_marks` this is what limits every cell to
/// at most one rule application per tick.
pub proof fn lemma_marked_cell_unchanged(g: Seq<Cell>, n: int, r: int, c: int, s: u64)
    requires
        g.len() == n * n,
        0 <= r < n,
        0 <= c < n,
        cell_at(g, n, r, c).updated,
    ensures
        visit_cell(g, n, r, c, s) == (g, s),
{
    lemma_flat_index(n, r, c, 0, 0);
    assert(visit_cell(g, n, r, c, s).0 =~= g);
}

/// No rule reads or writes outside the grid, and none reaches past the 3 x 3
/// neighborhood of the visited cell: every cell more than one row or column
/// away is left exactly as it was.
pub proof fn lemma_visit_cell_local(g: Seq<Cell>, n: int, r: int, c: int, s: u64)
    requires
        g.len() == n * n,
        0 <= r < n,
        0 <= c < n,
    ensures
        visit_cell(g, n, r, c, s).0.len() == g.len(),
        frame_outside(g, visit_cell(g, n, r, c, s).0, n, r, c),
{
    lemma_flat_index(n, r, c, 0, 0);
    if !cell_at(g, n, r, c).updated {
        match mat_at(g, n, r, c) {
            CellType::Sand => lemma_sand_cells(g, n, r, c, s),
            CellType::Water => lemma_water_cells(g, n, r, c, s),
            CellType::Oil => lemma_oil_cells(g, n, r, c, s),
            CellType::Steam => lemma_steam_cells(g, n, r, c, s),
            _ => {},
        }
    }
    let p0 = if !cell_at(g, n, r, c).updated {
        rule_step(g, n, r, c, s).0
    } else {
        g
    };
    assert forall|rr: int, cc: int|
        0 <= rr < n && 0 <= cc < n && (rr < r - 1 || rr > r + 1 || cc < c - 1 || cc > c + 1)
            implies #[trigger] cell_at(visit_cell(g, n, r, c, s).0, n, rr, cc) == cell_at(
        g,
        n,
        rr,
        cc,
    ) by {
        lemma_flat_index(n, rr, cc, r, c);
        assert(cell_at(p0, n, rr, cc) == cell_at(g, n, rr, cc));
    }
}

// ---------------------------------------------------------------------------
// Laws of a whole pass: every cell is marked processed exactly once.
// ---------------------------------------------------------------------------

/// After the first `k` visits of a row, those `k` cells are marked, earlier
/// marks survive, and the grid's size is kept.
pub proof fn lemma_row_upto_marks(g: Seq<Cell>, n: int, r: int, c0: int, k: nat, s: u64)
    requires
        g.len() == n * n,
        0 <= r < n,
        0 <= c0,
        c0 + k <= n,
    ensures
        row_upto(g, n, r, c0, k, s).0.len() == g.len(),
        forall|i: int|
            0 <= i < g.len() && g[i].updated ==> #[trigger] row_upto(g, n, r, c0, k, s).0[i].updated,
        forall|c: int|
            c0 <= c < c0 + k ==> cell_at(row_upto(g, n, r, c0, k, s).0, n, r, c).updated,
    decreases k,
{
    if k > 0 {
        let p = row_upto(g, n, r, c0, (k - 1) as nat, s);
        lemma_row_upto_marks(g, n, r, c0, (k - 1) as nat, s);
        lemma_visit_cell_marks(p.0, n, r, c0 + k - 1, p.1);
        assert forall|c: int|
            c0 <= c < c0 + k implies cell_at(row_upto(g, n, r, c0, k, s).0, n, r, c).updated by {
            lemma_flat_index(n, r, c, 0, 0);
            if c < c0 + k - 1 {
                assert(cell_at(row_upto(g, n, r, c0, (k - 1) as nat, s).0, n, r, c).updated);
            }
        }
    }
}

/// After the first `k` rows of a block, every cell of those rows is marked,
/// earlier marks survive, and the grid's size is kept.
pub proof fn lemma_rows_upto_marks(g: Seq<Cell>, n: int, r0: int, c0: int, w: nat, k: nat, s: u64)
    requires
        g.len() == n * n,
        0 <= r0,
        r0 + k <= n,
        0 <= c0,
        c0 + w <= n,
    ensures
        rows_upto(g, n, r0, c0, w, k, s).0.len() == g.len(),
        forall|i: int|
            0 <= i < g.len() && g[i].updated ==> #[trigger] rows_upto(
                g,
                n,
                r0,
                c0,
                w,
                k,
                s,
            ).0[i].updated,
        forall|r: int, c: int|
            r0 <= r < r0 + k && c0 <= c < c0 + w ==> cell_at(
                rows_upto(g, n, r0, c0, w, k, s).0,
                n,
                r,
                c,
            ).updated,
    decreases k,
{
    if k > 0 {
        let p = rows_upto(g, n, r0, c0, w, (k - 1) as nat, s);
        lemma_rows_upto_marks(g, n, r0, c0, w, (k - 1) as nat, s);
        lemma_row_upto_marks(p.0, n, r0 + k - 1, c0, w, p.1);
        assert forall|r: int, c: int|
            r0 <= r < r0 + k && c0 <= c < c0 + w implies cell_at(
            rows_upto(g, n, r0, c0, w, k, s).0,
            n,
            r,
            c,
        ).updated by {
            lemma_flat_index(n, r, c, 0, 0);
            if r < r0 + k - 1 {
                assert(cell_at(rows_upto(g, n, r0, c0, w, (k - 1) as nat, s).0, n, r, c).updated);
            } else {
                assert(cell_at(row_upto(p.0, n, r0 + k - 1, c0, w, p.1).0, n, r, c).updated);
            }
        }
    }
}

/// After one engine pass over the whole grid, every cell is marked processed.
/// A marked cell is skipped by any later visit (`lemma_marked_cell_unchanged`),
/// so every cell's material after the pass comes from at most one rule
/// application.
pub proof fn lemma_pass_marks_every_cell(g: Seq<Cell>, n: int, s: u64)
    requires
        g.len() == n * n,
        1 <= n,
    ensures
        block_step(g, n, 0, 0, n as nat, n as nat, s).0.len() == g.len(),
        forall|r: int, c: int|
            0 <= r < n && 0 <= c < n ==> #[trigger] cell_at(
                block_step(g, n, 0, 0, n as nat, n as nat, s).0,
                n,
                r,
                c,
            ).updated,
{
    lemma_rows_upto_marks(g, n, 0, 0, n as nat, n as nat, s);
}

// ---------------------------------------------------------------------------
// Determinism: a tick is a pure function of grid and generator state.
// ---------------------------------------------------------------------------

/// The grid and generator state after `k` ticks.
pub open spec fn run_ticks(g: Seq<Cell>, n: int, s: u64, k: nat) -> (Seq<Cell>, u64)
    decreases k,
{
    if k == 0 {
        (g, s)
    } else {
        let p = run_ticks(g, n, s, (k - 1) as nat);
        tick(p.0, n, p.1)
    }
}

/// Determinism under a fixed seed: two runs from equal grids and equal
/// generator states produce the same sequence of grids, however many ticks
/// are taken.
pub proof fn lemma_run_deterministic(
    g1: Seq<Cell>,
    g2: Seq<Cell>,
    n: int,
    s1: u64,
    s2: u64,
    k: nat,
)
    requires
        g1 == g2,
        s1 == s2,
    ensures
        run_ticks(g1, n, s1, k) == run_ticks(g2, n, s2, k),
{
}

// ---------------------------------------------------------------------------
// Inert worlds are fixed points.
// ---------------------------------------------------------------------------

/// Every cell of the grid holds an immovable or empty material.
pub open spec fn all_inert(g: Seq<Cell>) -> bool {
    forall|i: int| 0 <= i < g.len() ==> is_inert(#[trigger] g[i].cell_type)
}

/// A visit of an inert cell moves nothing and draws no randomness: only the
/// processed marker is set.
pub proof fn lemma_inert_visit(g: Seq<Cell>, n: int, r: int, c: int, s: u64)
    requires
        g.len() == n * n,
        0 <= r < n,
        0 <= c < n,
        is_inert(mat_at(g, n, r, c)),
    ensures
        visit_cell(g, n, r, c, s) == (with_processed(g, n, r, c), s),
{
}

/// Scanning a row of an inert grid changes no material and no random state.
pub proof fn lemma_inert_row_upto(g: Seq<Cell>, n: int, r: int, c0: int, k: nat, s: u64)
    requires
        g.len() == n * n,
        0 <= r < n,
        0 <= c0,
        c0 + k <= n,
        all_inert(g),
    ensures
        row_upto(g, n, r, c0, k, s).1 == s,
        row_upto(g, n, r, c0, k, s).0.len() == g.len(),
        forall|i: int|
            0 <= i < g.len() ==> #[trigger] row_upto(g, n, r, c0, k, s).0[i].cell_type
                == g[i].cell_type,
    decreases k,
{
    if k > 0 {
        let p = row_upto(g, n, r, c0, (k - 1) as nat, s);
        lemma_inert_row_upto(g, n, r, c0, (k - 1) as nat, s);
        assert(all_inert(p.0)) by {
            assert forall|i: int| 0 <= i < p.0.len() implies is_inert(
                #[trigger] p.0[i].cell_type,
            ) by {
                assert(p.0[i].cell_type == g[i].cell_type);
            }
        }
        lemma_flat_index(n, r, c0 + k - 1, 0, 0);
        lemma_inert_visit(p.0, n, r, c0 + k - 1, p.1);
    }
}

/// Scanning any rows of an inert grid changes no material and no random
/// state.
pub proof fn lemma_inert_rows_upto(g: Seq<Cell>, n: int, r0: int, c0: int, w: nat, k: nat, s: u64)
    requires
        g.len() == n * n,
        0 <= r0,
        r0 + k <= n,
        0 <= c0,
        c0 + w <= n,
        all_inert(g),
    ensures
        rows_upto(g, n, r0, c0, w, k, s).1 == s,
        rows_upto(g, n, r0, c0, w, k, s).0.len() == g.len(),
        forall|i: int|
            0 <= i < g.len() ==> #[trigger] rows_upto(g, n, r0, c0, w, k, s).0[i].cell_type
                == g[i].cell_type,
    decreases k,
{
    if k > 0 {
        let p = rows_upto(g, n, r0, c0, w, (k - 1) as nat, s);
        lemma_inert_rows_upto(g, n, r0, c0, w, (k - 1) as nat, s);
        assert(all_inert(p.0)) by {
            assert forall|i: int| 0 <= i < p.0.len() implies is_inert(
                #[trigger] p.0[i].cell_type,
            ) by {
                assert(p.0[i].cell_type == g[i].cell_type);
            }
        }
        lemma_inert_row_upto(p.0, n, r0 + k - 1, c0, w, p.1);
    }
}

/// A world holding only walls, wood and empty cells, with no marker set, is
/// a fixed point: a tick returns exactly the same grid and the same random
/// state.
pub proof fn lemma_inert_fixed_point(g: Seq<Cell>, n: int, s: u64)
    requires
        1 <= n,
        g.len() == n * n,
        all_inert(g),
        forall|i: int| 0 <= i < g.len() ==> !(#[trigger] g[i].updated),
    ensures
        tick(g, n, s) == (g, s),
{
    lemma_inert_rows_upto(g, n, 0, 0, n as nat, n as nat, s);
    let p = block_step(g, n, 0, 0, n as nat, n as nat, s);
    assert forall|i: int| 0 <= i < g.len() implies #[trigger] tick(g, n, s).0[i] == g[i] by {
        assert(p.0[i].cell_type == g[i].cell_type);
        assert(!g[i].updated);
    }
    assert(tick(g, n, s).0 =~= g);
}

/// However many ticks are taken, an inert world never changes.
pub proof fn lemma_inert_fixed_point_iter(g: Seq<Cell>, n: int, s: u64, k: nat)
    requires
        1 <= n,
        g.len() == n * n,
        all_inert(g),
        forall|i: int| 0 <= i < g.len() ==> !(#[trigger] g[i].updated),
    ensures
        run_ticks(g, n, s, k) == (g, s),
    decreases k,
{
    if k > 0 {
        lemma_inert_fixed_point_iter(g, n, s, (k - 1) as nat);
        lemma_inert_fixed_point(g, n, s);
    }
}

// ---------------------------------------------------------------------------
// Conservation of materials.
// ---------------------------------------------------------------------------

/// How many cells of the grid hold material `m`.
pub open spec fn count_of(g: Seq<Cell>, m: CellType) -> nat
    decreases g.len(),
{
    if g.len() == 0 {
        0
    } else {
        count_of(g.drop_last(), m) + (if g.last().cell_type == m {
            1nat
        } else {
            0nat
        })
    }
}

/// Replacing one cell removes its old material from the tally and adds the
/// new one.
pub broadcast proof fn lemma_count_update(g: Seq<Cell>, i: int, v: Cell, m: CellType)
    requires
        0 <= i < g.len(),
    ensures
        #[trigger] count_of(g.update(i, v), m) + (if g[i].cell_type == m {
            1nat
        } else {
            0nat
        }) == count_of(g, m) + (if v.cell_type == m {
            1nat
        } else {
            0nat
        }),
    decreases g.len(),
{
    let h = g.update(i, v);
    if i == g.len() - 1 {
        assert(h.drop_last() =~= g.drop_last());
    } else {
        assert(h.drop_last() =~= g.drop_last().update(i, v));
        lemma_count_update(g.drop_last(), i, v, m);
    }
}

/// The tally of every material is the same in `g` and `h`.
pub open spec fn counts_equal(g: Seq<Cell>, h: Seq<Cell>) -> bool {
    forall|m: CellType| #[trigger] count_of(h, m) == count_of(g, m)
}

/// The displacement rule only swaps materials around: every tally is kept.
pub proof fn lemma_displace_counts(g: Seq<Cell>, n: int, r: int, c: int, s: u64, m: CellType)
    requires
        g.len() == n * n,
        1 <= r < n,
        0 <= c < n,
        m == mat_at(g, n, r, c),
    ensures
        displace_below_step(g, n, r, c, s, m).0.len() == g.len(),
        counts_equal(g, displace_below_step(g, n, r, c, s, m).0),
{
    let h = displace_below_step(g, n, r, c, s, m).0;
    lemma_flat_index(n, r, c, r - 1, c);
    lemma_flat_index(n, r, c - 1, r, c);
    lemma_flat_index(n, r, c + 1, r, c);
    assert forall|x: CellType| #[trigger] count_of(h, x) == count_of(g, x) by {
        broadcast use lemma_count_update;

        lemma_flat_index(n, r, c, r - 1, c);
        lemma_flat_index(n, r, c - 1, r - 1, c);
        lemma_flat_index(n, r, c + 1, r - 1, c);
        lemma_flat_index(n, r, c - 1, r, c);
        lemma_flat_index(n, r, c + 1, r, c);
    }
}

/// The spreading rule only swaps materials around: every tally is kept.
pub proof fn lemma_spread_counts(g: Seq<Cell>, n: int, r: int, c: int, s: u64, m: CellType)
    requires
        g.len() == n * n,
        1 <= r < n,
        0 <= c < n,
        m == mat_at(g, n, r, c),
    ensures
        liquid_spread_step(g, n, r, c, s, m).0.len() == g.len(),
        counts_equal(g, liquid_spread_step(g, n, r, c, s, m).0),
{
    let h = liquid_spread_step(g, n, r, c, s, m).0;
    lemma_flat_index(n, r - 1, c - 1, r, c);
    lemma_flat_index(n, r - 1, c + 1, r, c);
    lemma_flat_index(n, r, c - 1, r, c);
    lemma_flat_index(n, r, c + 1, r, c);
    assert forall|x: CellType| #[trigger] count_of(h, x) == count_of(g, x) by {
        broadcast use lemma_count_update;

        lemma_flat_index(n, r - 1, c - 1, r, c);
        lemma_flat_index(n, r - 1, c + 1, r, c);
        lemma_flat_index(n, r, c - 1, r, c);
        lemma_flat_index(n, r, c + 1, r, c);
    }
}

/// The bottom-row spreading rule only swaps materials: every tally is kept.
pub proof fn lemma_bottom_counts(g: Seq<Cell>, n: int, r: int, c: int, s: u64, m: CellType)
    requires
        g.len() == n * n,
        0 <= r < n,
        0 <= c < n,
        m == mat_at(g, n, r, c),
    ensures
        liquid_bottom_step(g, n, r, c, s, m).0.len() == g.len(),
        counts_equal(g, liquid_bottom_step(g, n, r, c, s, m).0),
{
    let h = liquid_bottom_step(g, n, r, c, s, m).0;
    lemma_flat_index(n, r, c - 1, r, c);
    lemma_flat_index(n, r, c + 1, r, c);
    assert forall|x: CellType| #[trigger] count_of(h, x) == count_of(g, x) by {
        broadcast use lemma_count_update;

        lemma_flat_index(n, r, c - 1, r, c);
        lemma_flat_index(n, r, c + 1, r, c);
    }
}

/// A falling or piling grain of sand only swaps materials: every tally is
/// kept.
pub proof fn lemma_sand_counts(g: Seq<Cell>, n: int, r: int, c: int, s: u64)
    requires
        g.len() == n * n,
        0 <= r < n,
        0 <= c < n,
        mat_at(g, n, r, c) == CellType::Sand,
    ensures
        sand_step(g, n, r, c, s).0.len() == g.len(),
        counts_equal(g, sand_step(g, n, r, c, s).0),
{
    let h = sand_step(g, n, r, c, s).0;
    if r > 0 {
        lemma_displace_counts(g, n, r, c, s, CellType::Sand);
        lemma_flat_index(n, r - 1, c, r, c);
        lemma_flat_index(n, r - 1, c - 1, r, c);
        lemma_flat_index(n, r - 1, c + 1, r, c);
        assert forall|x: CellType| #[trigger] count_of(h, x) == count_of(g, x) by {
            broadcast use lemma_count_update;

            lemma_flat_index(n, r - 1, c, r, c);
            lemma_flat_index(n, r - 1, c - 1, r, c);
            lemma_flat_index(n, r - 1, c + 1, r, c);
        }
    }
}

/// Falling or spreading water only swaps materials: every tally is kept.
pub proof fn lemma_water_counts(g: Seq<Cell>, n: int, r: int, c: int, s: u64)
    requires
        g.len() == n * n,
        0 <= r < n,
        0 <= c < n,
        mat_at(g, n, r, c) == CellType::Water,
    ensures
        water_step(g, n, r, c, s).0.len() == g.len(),
        counts_equal(g, water_step(g, n, r, c, s).0),
{
    let h = water_step(g, n, r, c, s).0;
    if r > 0 {
        lemma_displace_counts(g, n, r, c, s, CellType::Water);
        lemma_spread_counts(g, n, r, c, s, CellType::Water);
        lemma_flat_index(n, r - 1, c, r, c);
        assert forall|x: CellType| #[trigger] count_of(h, x) == count_of(g, x) by {
            broadcast use lemma_count_update;

            lemma_flat_index(n, r - 1, c, r, c);
        }
    } else {
        lemma_bottom_counts(g, n, r, c, s, CellType::Water);
    }
}

/// Falling or spreading oil only swaps materials: every tally is kept.
pub proof fn lemma_oil_counts(g: Seq<Cell>, n: int, r: int, c: int, s: u64)
    requires
        g.len() == n * n,
        0 <= r < n,
        0 <= c < n,
        mat_at(g, n, r, c) == CellType::Oil,
    ensures
        oil_step(g, n, r, c, s).0.len() == g.len(),
        counts_equal(g, oil_step(g, n, r, c, s).0),
{
    let h = oil_step(g, n, r, c, s).0;
    if r > 0 {
        lemma_spread_counts(g, n, r, c, s, CellType::Oil);
        lemma_flat_index(n, r - 1, c, r, c);
        assert forall|x: CellType| #[trigger] count_of(h, x) == count_of(g, x) by {
            broadcast use lemma_count_update;

            lemma_flat_index(n, r - 1, c, r, c);
        }
    } else {
        lemma_bottom_counts(g, n, r, c, s, CellType::Oil);
    }
}

/// Steam either moves - keeping every tally - or condenses: one steam cell
/// becomes one water cell, and nothing else changes.
pub proof fn lemma_steam_counts(g: Seq<Cell>, n: int, r: int, c: int, s: u64)
    requires
        g.len() == n * n,
        0 <= r < n,
        0 <= c < n,
        mat_at(g, n, r, c) == CellType::Steam,
    ensures
        steam_step(g, n, r, c, s).0.len() == g.len(),
        forall|x: CellType|
            x != CellType::Steam && x != CellType::Water ==> #[trigger] count_of(
                steam_step(g, n, r, c, s).0,
                x,
            ) == count_of(g, x),
        count_of(steam_step(g, n, r, c, s).0, CellType::Steam) + count_of(
            steam_step(g, n, r, c, s).0,
            CellType::Water,
        ) == count_of(g, CellType::Steam) + count_of(g, CellType::Water),
        count_of(steam_step(g, n, r, c, s).0, CellType::Steam) <= count_of(
            g,
            CellType::Steam,
        ),
{
    let h = steam_step(g, n, r, c, s).0;
    lemma_flat_index(n, r, c, 0, 0);
    lemma_flat_index(n, r + 1, c, r, c);
    lemma_flat_index(n, r + 1, c - 1, r, c);
    lemma_flat_index(n, r + 1, c + 1, r, c);
    lemma_flat_index(n, r, c - 1, r, c);
    lemma_flat_index(n, r, c + 1, r, c);
    assert forall|x: CellType|
        x != CellType::Steam && x != CellType::Water implies #[trigger] count_of(h, x)
            == count_of(g, x) by {
        broadcast use lemma_count_update;

        lemma_flat_index(n, r, c, 0, 0);
        lemma_flat_index(n, r + 1, c, r, c);
        lemma_flat_index(n, r + 1, c - 1, r, c);
        lemma_flat_index(n, r + 1, c + 1, r, c);
        lemma_flat_index(n, r, c - 1, r, c);
        lemma_flat_index(n, r, c + 1, r, c);
    }
    assert(count_of(h, CellType::Steam) + count_of(h, CellType::Water) == count_of(
        g,
        CellType::Steam,
    ) + count_of(g, CellType::Water) && count_of(h, CellType::Steam) <= count_of(
        g,
        CellType::Steam,
    )) by {
        broadcast use lemma_count_update;

        lemma_flat_index(n, r, c, 0, 0);
        lemma_flat_index(n, r + 1, c, r, c);
        lemma_flat_index(n, r + 1, c - 1, r, c);
        lemma_flat_index(n, r + 1, c + 1, r, c);
        lemma_flat_index(n, r, c - 1, r, c);
        lemma_flat_index(n, r, c + 1, r, c);
    }
}

/// What one tick may do to the material tallies: every material except steam
/// and water is conserved exactly; steam may only condense into water, never
/// the reverse and never into anything else.
pub open spec fn materials_conserved(g: Seq<Cell>, h: Seq<Cell>) -> bool {
    &&& forall|m: CellType|
        m != CellType::Steam && m != CellType::Water ==> #[trigger] count_of(h, m) == count_of(
            g,
            m,
        )
    &&& count_of(h, CellType::Steam) + count_of(h, CellType::Water) == count_of(
        g,
        CellType::Steam,
    ) + count_of(g, CellType::Water)
    &&& count_of(h, CellType::Steam) <= count_of(g, CellType::Steam)
}

/// One visit conserves the materials as `materials_conserved` says.
pub proof fn lemma_visit_cell_conserves(g: Seq<Cell>, n: int, r: int, c: int, s: u64)
    requires
        g.len() == n * n,
        0 <= r < n,
        0 <= c < n,
    ensures
        visit_cell(g, n, r, c, s).0.len() == g.len(),
        materials_conserved(g, visit_cell(g, n, r, c, s).0),
{
    lemma_flat_index(n, r, c, 0, 0);
    let p0 = if !cell_at(g, n, r, c).updated {
        rule_step(g, n, r, c, s).0
    } else {
        g
    };
    if !cell_at(g, n, r, c).updated {
        match mat_at(g, n, r, c) {
            CellType::Sand => lemma_sand_counts(g, n, r, c, s),
            CellType::Water => lemma_water_counts(g, n, r, c, s),
            CellType::Oil => lemma_oil_counts(g, n, r, c, s),
            CellType::Steam => lemma_steam_counts(g, n, r, c, s),
            _ => {},
        }
    }
    assert forall|m: CellType| #[trigger] count_of(visit_cell(g, n, r, c, s).0, m) == count_of(
        p0,
        m,
    ) by {
        broadcast use lemma_count_update;

    }
}

/// Scanning part of a row conserves the materials.
pub proof fn lemma_row_upto_conserves(g: Seq<Cell>, n: int, r: int, c0: int, k: nat, s: u64)
    requires
        g.len() == n * n,
        0 <= r < n,
        0 <= c0,
        c0 + k <= n,
    ensures
        row_upto(g, n, r, c0, k, s).0.len() == g.len(),
        materials_conserved(g, row_upto(g, n, r, c0, k, s).0),
    decreases k,
{
    if k > 0 {
        let p = row_upto(g, n, r, c0, (k - 1) as nat, s);
        lemma_row_upto_conserves(g, n, r, c0, (k - 1) as nat, s);
        lemma_visit_cell_conserves(p.0, n, r, c0 + k - 1, p.1);
    }
}

/// Scanning any rows conserves the materials.
pub proof fn lemma_rows_upto_conserves(g: Seq<Cell>, n: int, r0: int, c0: int, w: nat, k: nat, s: u64)
    requires
        g.len() == n * n,
        0 <= r0,
        r0 + k <= n,
        0 <= c0,
        c0 + w <= n,
    ensures
        rows_upto(g, n, r0, c0, w, k, s).0.len() == g.len(),
        materials_conserved(g, rows_upto(g, n, r0, c0, w, k, s).0),
    decreases k,
{
    if k > 0 {
        let p = rows_upto(g, n, r0, c0, w, (k - 1) as nat, s);
        lemma_rows_upto_conserves(g, n, r0, c0, w, (k - 1) as nat, s);
        lemma_row_upto_conserves(p.0, n, r0 + k - 1, c0, w, p.1);
    }
}

/// Clearing the processed markers touches no material tally.
pub proof fn lemma_clear_counts(g: Seq<Cell>, m: CellType)
    ensures
        count_of(clear_processed(g), m) == count_of(g, m),
    decreases g.len(),
{
    if g.len() > 0 {
        assert(clear_processed(g).drop_last() =~= clear_processed(g.drop_last()));
        lemma_clear_counts(g.drop_last(), m);
    }
}

/// Conservation over a whole tick: materials move, they are not created or
/// destroyed - except that steam may condense, trading steam cells one for
/// one against water cells.
pub proof fn lemma_tick_conserves(g: Seq<Cell>, n: int, s: u64)
    requires
        1 <= n,
        g.len() == n * n,
    ensures
        materials_conserved(g, tick(g, n, s).0),
{
    lemma_rows_upto_conserves(g, n, 0, 0, n as nat, n as nat, s);
    let p = block_step(g, n, 0, 0, n as nat, n as nat, s);
    assert forall|m: CellType| #[trigger] count_of(tick(g, n, s).0, m) == count_of(p.0, m) by {
        lemma_clear_counts(p.0, m);
    }
}


} // verus!
