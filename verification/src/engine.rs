use vstd::prelude::*;

use crate::grid::{cell_at, mat_at, with_cell, with_material, with_processed, Cell, Grid};
use crate::material::{blocks_liquid, blocks_oil, blocks_sand, blocks_water, CellType};
use crate::rng::{flip_of, next_state, condense_of, RandomSource};

verus! {

// ---------------------------------------------------------------------------
// The functional specification of one tick.
//
// Every rule below is a pure function from (grid contents, side length, cell
// coordinates, generator state) to (new grid contents, new generator state).
// The executable engine is proved equal to these functions, so one tick is a
// deterministic function of the grid and the generator seed.
// ---------------------------------------------------------------------------

/// The particle of material `m` at (r, c) moves to (tr, tc): it takes the
/// target cell, which is marked processed, and the target's old material
/// takes its place at (r, c), whose marker is kept.
pub open spec fn swap_move(g: Seq<Cell>, n: int, r: int, c: int, tr: int, tc: int, m: CellType) -> Seq<
    Cell,
> {
    let displaced = mat_at(g, n, tr, tc);
    let g1 = with_material(g, n, r, c, displaced);
    with_cell(g1, n, tr, tc, Cell { cell_type: m, updated: true })
}

/// The particle of material `m` at (r, c) takes the liquid cell below, and
/// the displaced liquid is vented sideways into the empty cell at (r, vc) of
/// the current row; (r, c) is left empty.  Both cells written with material
/// are marked processed.
pub open spec fn vent_move(g: Seq<Cell>, n: int, r: int, c: int, vc: int, m: CellType) -> Seq<
    Cell,
> {
    let displaced = mat_at(g, n, r - 1, c);
    let g1 = with_cell(g, n, r, vc, Cell { cell_type: displaced, updated: true });
    let g2 = with_cell(g1, n, r - 1, c, Cell { cell_type: m, updated: true });
    with_material(g2, n, r, c, CellType::Empty)
}

/// The particle of material `m` at (r, c) displaces the lighter liquid
/// directly below: the liquid is vented into an adjacent empty cell of the
/// current row if one is available (a coin picks between two), else the two
/// simply swap in place.
pub open spec fn displace_below_step(
    g: Seq<Cell>,
    n: int,
    r: int,
    c: int,
    s: u64,
    m: CellType,
) -> (Seq<Cell>, u64) {
    let vent_left = c > 0 && mat_at(g, n, r, c - 1) == CellType::Empty;
    let vent_right = c + 1 < n && mat_at(g, n, r, c + 1) == CellType::Empty;
    if vent_left && vent_right {
        let s1 = next_state(s);
        if flip_of(s1) {
            (vent_move(g, n, r, c, c + 1, m), s1)
        } else {
            (vent_move(g, n, r, c, c - 1, m), s1)
        }
    } else if vent_left {
        (vent_move(g, n, r, c, c - 1, m), s)
    } else if vent_right {
        (vent_move(g, n, r, c, c + 1, m), s)
    } else {
        (swap_move(g, n, r, c, r - 1, c, m), s)
    }
}

/// One tick of the sand grain at (r, c): fall straight down, displacing a
/// liquid if one is below; else fall diagonally; else rest.
pub open spec fn sand_step(g: Seq<Cell>, n: int, r: int, c: int, s: u64) -> (Seq<Cell>, u64) {
    if r > 0 {
        let below = mat_at(g, n, r - 1, c);
        if !blocks_sand(below) {
            if below == CellType::Water || below == CellType::Oil {
                displace_below_step(g, n, r, c, s, CellType::Sand)
            } else {
                (swap_move(g, n, r, c, r - 1, c, CellType::Sand), s)
            }
        } else {
            let left_ok = c > 0 && !blocks_sand(mat_at(g, n, r - 1, c - 1));
            let right_ok = c + 1 < n && !blocks_sand(mat_at(g, n, r - 1, c + 1));
            if left_ok && right_ok {
                let s1 = next_state(s);
                if flip_of(s1) {
                    (swap_move(g, n, r, c, r - 1, c + 1, CellType::Sand), s1)
                } else {
                    (swap_move(g, n, r, c, r - 1, c - 1, CellType::Sand), s1)
                }
            } else if left_ok {
                (swap_move(g, n, r, c, r - 1, c - 1, CellType::Sand), s)
            } else if right_ok {
                (swap_move(g, n, r, c, r - 1, c + 1, CellType::Sand), s)
            } else {
                (g, s)
            }
        }
    } else {
        (g, s)
    }
}

/// One tick of a blocked liquid above the bottom row: prefer a diagonal-down
/// move over a horizontal one, a coin breaking each tied pair.  A diagonal
/// target may hold anything the liquid's density does not block; a straight
/// left/right move is valid only into an empty cell.  Both coins are drawn
/// (diagonal pair first) before either tier is applied.
pub open spec fn liquid_spread_step(
    g: Seq<Cell>,
    n: int,
    r: int,
    c: int,
    s: u64,
    m: CellType,
) -> (Seq<Cell>, u64) {
    let dl = c > 0 && !blocks_liquid(m, mat_at(g, n, r - 1, c - 1));
    let lt = c > 0 && mat_at(g, n, r, c - 1) == CellType::Empty;
    let dr = c + 1 < n && !blocks_liquid(m, mat_at(g, n, r - 1, c + 1));
    let rt = c + 1 < n && mat_at(g, n, r, c + 1) == CellType::Empty;
    let s1 = if dl && dr {
        next_state(s)
    } else {
        s
    };
    let dl2 = if dl && dr {
        !flip_of(s1)
    } else {
        dl
    };
    let dr2 = if dl && dr {
        flip_of(s1)
    } else {
        dr
    };
    let s2 = if lt && rt {
        next_state(s1)
    } else {
        s1
    };
    let lt2 = if lt && rt {
        !flip_of(s2)
    } else {
        lt
    };
    let rt2 = if lt && rt {
        flip_of(s2)
    } else {
        rt
    };
    if dl2 || dr2 {
        if dl2 {
            (swap_move(g, n, r, c, r - 1, c - 1, m), s2)
        } else {
            (swap_move(g, n, r, c, r - 1, c + 1, m), s2)
        }
    } else if rt2 {
        (swap_move(g, n, r, c, r, c + 1, m), s2)
    } else if lt2 {
        (swap_move(g, n, r, c, r, c - 1, m), s2)
    } else {
        (g, s2)
    }
}

/// One tick of a liquid on the bottom row: only horizontal spreading into an
/// empty cell applies.
pub open spec fn liquid_bottom_step(
    g: Seq<Cell>,
    n: int,
    r: int,
    c: int,
    s: u64,
    m: CellType,
) -> (Seq<Cell>, u64) {
    let lt = c > 0 && mat_at(g, n, r, c - 1) == CellType::Empty;
    let rt = c + 1 < n && mat_at(g, n, r, c + 1) == CellType::Empty;
    let s1 = if lt && rt {
        next_state(s)
    } else {
        s
    };
    let lt2 = if lt && rt {
        !flip_of(s1)
    } else {
        lt
    };
    let rt2 = if lt && rt {
        flip_of(s1)
    } else {
        rt
    };
    if rt2 {
        (swap_move(g, n, r, c, r, c + 1, m), s1)
    } else if lt2 {
        (swap_move(g, n, r, c, r, c - 1, m), s1)
    } else {
        (g, s1)
    }
}

/// One tick of the water at (r, c): fall, displacing oil below; else spread.
pub open spec fn water_step(g: Seq<Cell>, n: int, r: int, c: int, s: u64) -> (Seq<Cell>, u64) {
    if r > 0 {
        let below = mat_at(g, n, r - 1, c);
        if !blocks_water(below) {
            if below == CellType::Oil {
                displace_below_step(g, n, r, c, s, CellType::Water)
            } else {
                (swap_move(g, n, r, c, r - 1, c, CellType::Water), s)
            }
        } else {
            liquid_spread_step(g, n, r, c, s, CellType::Water)
        }
    } else {
        liquid_bottom_step(g, n, r, c, s, CellType::Water)
    }
}

/// One tick of the oil at (r, c): fall into anything lighter; else spread.
/// Oil never displaces water - water is denser and wins.
pub open spec fn oil_step(g: Seq<Cell>, n: int, r: int, c: int, s: u64) -> (Seq<Cell>, u64) {
    if r > 0 {
        let below = mat_at(g, n, r - 1, c);
        if !blocks_oil(below) {
            (swap_move(g, n, r, c, r - 1, c, CellType::Oil), s)
        } else {
            liquid_spread_step(g, n, r, c, s, CellType::Oil)
        }
    } else {
        liquid_bottom_step(g, n, r, c, s, CellType::Oil)
    }
}

/// One tick of the steam at (r, c): first the condensation roll (always
/// drawn); if it hits, the cell turns to water in place.  Otherwise steam
/// rises into an empty cell above, diagonally above, or sideways, coins
/// breaking ties; at the top row only sideways moves remain.
pub open spec fn steam_step(g: Seq<Cell>, n: int, r: int, c: int, s: u64) -> (Seq<Cell>, u64) {
    let s1 = next_state(s);
    if condense_of(s1) {
        (with_material(g, n, r, c, CellType::Water), s1)
    } else if r + 1 < n {
        if mat_at(g, n, r + 1, c) == CellType::Empty {
            (swap_move(g, n, r, c, r + 1, c, CellType::Steam), s1)
        } else {
            let ul = c > 0 && mat_at(g, n, r + 1, c - 1) == CellType::Empty;
            let lt = c > 0 && mat_at(g, n, r, c - 1) == CellType::Empty;
            let ur = c + 1 < n && mat_at(g, n, r + 1, c + 1) == CellType::Empty;
            let rt = c + 1 < n && mat_at(g, n, r, c + 1) == CellType::Empty;
            let s2 = if ul && ur {
                next_state(s1)
            } else {
                s1
            };
            let ul2 = if ul && ur {
                !flip_of(s2)
            } else {
                ul
            };
            let ur2 = if ul && ur {
                flip_of(s2)
            } else {
                ur
            };
            let s3 = if lt && rt {
                next_state(s2)
            } else {
                s2
            };
            let lt2 = if lt && rt {
                !flip_of(s3)
            } else {
                lt
            };
            let rt2 = if lt && rt {
                flip_of(s3)
            } else {
                rt
            };
            if ul2 || ur2 {
                if ul2 {
                    (swap_move(g, n, r, c, r + 1, c - 1, CellType::Steam), s3)
                } else {
                    (swap_move(g, n, r, c, r + 1, c + 1, CellType::Steam), s3)
                }
            } else if rt2 {
                (swap_move(g, n, r, c, r, c + 1, CellType::Steam), s3)
            } else if lt2 {
                (swap_move(g, n, r, c, r, c - 1, CellType::Steam), s3)
            } else {
                (g, s3)
            }
        }
    } else {
        let lt = c > 0 && mat_at(g, n, r, c - 1) == CellType::Empty;
        let rt = c + 1 < n && mat_at(g, n, r, c + 1) == CellType::Empty;
        let s2 = if lt && rt {
            next_state(s1)
        } else {
            s1
        };
        let lt2 = if lt && rt {
            !flip_of(s2)
        } else {
            lt
        };
        let rt2 = if lt && rt {
            flip_of(s2)
        } else {
            rt
        };
        if rt2 {
            (swap_move(g, n, r, c, r, c + 1, CellType::Steam), s2)
        } else if lt2 {
            (swap_move(g, n, r, c, r, c - 1, CellType::Steam), s2)
        } else {
            (g, s2)
        }
    }
}

/// The material-specific rule for the cell at (r, c).  Immovable and empty
/// cells have no rule: the grid and the generator are left as they are.
pub open spec fn rule_step(g: Seq<Cell>, n: int, r: int, c: int, s: u64) -> (Seq<Cell>, u64) {
    match mat_at(g, n, r, c) {
        CellType::Sand => sand_step(g, n, r, c, s),
        CellType::Water => water_step(g, n, r, c, s),
        CellType::Oil => oil_step(g, n, r, c, s),
        CellType::Steam => steam_step(g, n, r, c, s),
        _ => (g, s),
    }
}

/// One visit of the scan at (r, c): the rule is applied only if the cell has
/// not been processed this tick, and the cell is then marked processed either
/// way.
pub open spec fn visit_cell(g: Seq<Cell>, n: int, r: int, c: int, s: u64) -> (Seq<Cell>, u64) {
    let p = if !cell_at(g, n, r, c).updated {
        rule_step(g, n, r, c, s)
    } else {
        (g, s)
    };
    (with_processed(p.0, n, r, c), p.1)
}

/// The first `k` visits of row `r`: columns c0, c0+1, ..., c0+k-1, in order.
pub open spec fn row_upto(g: Seq<Cell>, n: int, r: int, c0: int, k: nat, s: u64) -> (
    Seq<Cell>,
    u64,
)
    decreases k,
{
    if k == 0 {
        (g, s)
    } else {
        let p = row_upto(g, n, r, c0, (k - 1) as nat, s);
        visit_cell(p.0, n, r, c0 + k - 1, p.1)
    }
}

/// The first `k` rows of a block: rows r0, r0+1, ..., r0+k-1, each scanned
/// over the `w` columns starting at c0.
pub open spec fn rows_upto(g: Seq<Cell>, n: int, r0: int, c0: int, w: nat, k: nat, s: u64) -> (
    Seq<Cell>,
    u64,
)
    decreases k,
{
    if k == 0 {
        (g, s)
    } else {
        let p = rows_upto(g, n, r0, c0, w, (k - 1) as nat, s);
        row_upto(p.0, n, r0 + k - 1, c0, w, p.1)
    }
}

/// One engine pass over a block of `w` columns and `h` rows whose lowest-left
/// cell is (r0, c0): the bottom row first, columns ascending within a row.
pub open spec fn block_step(
    g: Seq<Cell>,
    n: int,
    c0: int,
    r0: int,
    w: nat,
    h: nat,
    s: u64,
) -> (Seq<Cell>, u64) {
    rows_upto(g, n, r0, c0, w, h, s)
}

/// One full tick over an n x n grid: the engine pass over the whole grid,
/// then the order-free reset of every processed marker.
pub open spec fn tick(g: Seq<Cell>, n: int, s: u64) -> (Seq<Cell>, u64) {
    let p = block_step(g, n, 0, 0, n as nat, n as nat, s);
    (crate::grid::clear_processed(p.0), p.1)
}

// ---------------------------------------------------------------------------
// The executable engine, proved equal to the specification above.
// ---------------------------------------------------------------------------

/// Decides whether `m` blocks falling sand.
fn is_blocking_sand(m: CellType) -> (b: bool)
    ensures
        b == blocks_sand(m),
{
    m == CellType::Sand || m == CellType::Wall || m == CellType::Wood
}

/// Decides whether `m` blocks flowing water.
fn is_blocking_water(m: CellType) -> (b: bool)
    ensures
        b == blocks_water(m),
{
    m == CellType::Sand || m == CellType::Wall || m == CellType::Water || m == CellType::Wood
}

/// Decides whether `m` blocks flowing oil.
fn is_blocking_oil(m: CellType) -> (b: bool)
    ensures
        b == blocks_oil(m),
{
    m == CellType::Sand || m == CellType::Wall || m == CellType::Water || m == CellType::Oil
        || m == CellType::Wood
}

/// Applies `swap_move` to the grid in place.
fn apply_swap_move(g: &mut Grid, r: usize, c: usize, tr: usize, tc: usize, m: CellType)
    requires
        old(g).wf(),
        r < old(g).rows,
        c < old(g).columns,
        tr < old(g).rows,
        tc < old(g).columns,
    ensures
        final(g).wf(),
        final(g).rows == old(g).rows,
        final(g).columns == old(g).columns,
        final(g).cells@ == swap_move(
            old(g).cells@,
            old(g).side(),
            r as int,
            c as int,
            tr as int,
            tc as int,
            m,
        ),
{
    let displaced = g.material(tr, tc);
    g.set_material(r, c, displaced);
    g.set_cell(tr, tc, Cell { cell_type: m, updated: true });
}

/// Applies `vent_move` to the grid in place.
fn apply_vent_move(g: &mut Grid, r: usize, c: usize, vc: usize, m: CellType)
    requires
        old(g).wf(),
        1 <= r < old(g).rows,
        c < old(g).columns,
        vc < old(g).columns,
    ensures
        final(g).wf(),
        final(g).rows == old(g).rows,
        final(g).columns == old(g).columns,
        final(g).cells@ == vent_move(old(g).cells@, old(g).side(), r as int, c as int, vc as int, m),
{
    let displaced = g.material(r - 1, c);
    g.set_cell(r, vc, Cell { cell_type: displaced, updated: true });
    g.set_cell(r - 1, c, Cell { cell_type: m, updated: true });
    g.set_material(r, c, CellType::Empty);
}

/// Applies `displace_below_step` to the grid in place.
fn displace_below(g: &mut Grid, rng: &mut RandomSource, r: usize, c: usize, m: CellType)
    requires
        old(g).wf(),
        1 <= r < old(g).rows,
        c < old(g).columns,
    ensures
        final(g).wf(),
        final(g).rows == old(g).rows,
        final(g).columns == old(g).columns,
        final(g).cells@ == displace_below_step(
            old(g).cells@,
            old(g).side(),
            r as int,
            c as int,
            old(rng).state,
            m,
        ).0,
        final(rng).state == displace_below_step(
            old(g).cells@,
            old(g).side(),
            r as int,
            c as int,
            old(rng).state,
            m,
        ).1,
{
    let mut vent_left = false;
    if c > 0 {
        if g.material(r, c - 1) == CellType::Empty {
            vent_left = true;
        }
    }
    let mut vent_right = false;
    if c + 1 < g.columns {
        if g.material(r, c + 1) == CellType::Empty {
            vent_right = true;
        }
    }
    if vent_left && vent_right {
        if rng.flip() {
            apply_vent_move(g, r, c, c + 1, m);
        } else {
            apply_vent_move(g, r, c, c - 1, m);
        }
    } else if vent_left {
        apply_vent_move(g, r, c, c - 1, m);
    } else if vent_right {
        apply_vent_move(g, r, c, c + 1, m);
    } else {
        apply_swap_move(g, r, c, r - 1, c, m);
    }
}

/// Applies `sand_step` to the grid in place.
fn sand_tick(g: &mut Grid, rng: &mut RandomSource, r: usize, c: usize)
    requires
        old(g).wf(),
        r < old(g).rows,
        c < old(g).columns,
    ensures
        final(g).wf(),
        final(g).rows == old(g).rows,
        final(g).columns == old(g).columns,
        final(g).cells@ == sand_step(
            old(g).cells@,
            old(g).side(),
            r as int,
            c as int,
            old(rng).state,
        ).0,
        final(rng).state == sand_step(
            old(g).cells@,
            old(g).side(),
            r as int,
            c as int,
            old(rng).state,
        ).1,
{
    if r > 0 {
        let below = g.material(r - 1, c);
        if !is_blocking_sand(below) {
            if below == CellType::Water || below == CellType::Oil {
                displace_below(g, rng, r, c, CellType::Sand);
            } else {
                apply_swap_move(g, r, c, r - 1, c, CellType::Sand);
            }
        } else {
            let mut left_ok = false;
            if c > 0 {
                if !is_blocking_sand(g.material(r - 1, c - 1)) {
                    left_ok = true;
                }
            }
            let mut right_ok = false;
            if c + 1 < g.columns {
                if !is_blocking_sand(g.material(r - 1, c + 1)) {
                    right_ok = true;
                }
            }
            if left_ok && right_ok {
                if rng.flip() {
                    apply_swap_move(g, r, c, r - 1, c + 1, CellType::Sand);
                } else {
                    apply_swap_move(g, r, c, r - 1, c - 1, CellType::Sand);
                }
            } else if left_ok {
                apply_swap_move(g, r, c, r - 1, c - 1, CellType::Sand);
            } else if right_ok {
                apply_swap_move(g, r, c, r - 1, c + 1, CellType::Sand);
            }
        }
    }
}

/// Decides whether `m` blocks the given liquid.
fn is_blocking_liquid(liquid: CellType, m: CellType) -> (b: bool)
    ensures
        b == blocks_liquid(liquid, m),
{
    if liquid == CellType::Water {
        is_blocking_water(m)
    } else {
        is_blocking_oil(m)
    }
}

/// Applies `liquid_spread_step` to the grid in place.
fn liquid_spread(g: &mut Grid, rng: &mut RandomSource, r: usize, c: usize, m: CellType)
    requires
        old(g).wf(),
        1 <= r < old(g).rows,
        c < old(g).columns,
    ensures
        final(g).wf(),
        final(g).rows == old(g).rows,
        final(g).columns == old(g).columns,
        final(g).cells@ == liquid_spread_step(
            old(g).cells@,
            old(g).side(),
            r as int,
            c as int,
            old(rng).state,
            m,
        ).0,
        final(rng).state == liquid_spread_step(
            old(g).cells@,
            old(g).side(),
            r as int,
            c as int,
            old(rng).state,
            m,
        ).1,
{
    let mut down_left = false;
    let mut left = false;
    if c > 0 {
        if !is_blocking_liquid(m, g.material(r - 1, c - 1)) {
            down_left = true;
        }
        if g.material(r, c - 1) == CellType::Empty {
            left = true;
        }
    }
    let mut down_right = false;
    let mut right = false;
    if c + 1 < g.columns {
        if !is_blocking_liquid(m, g.material(r - 1, c + 1)) {
            down_right = true;
        }
        if g.material(r, c + 1) == CellType::Empty {
            right = true;
        }
    }
    if down_left && down_right {
        if rng.flip() {
            down_left = false;
        } else {
            down_right = false;
        }
    }
    if left && right {
        if rng.flip() {
            left = false;
        } else {
            right = false;
        }
    }
    if down_left || down_right {
        if down_left {
            apply_swap_move(g, r, c, r - 1, c - 1, m);
        } else {
            apply_swap_move(g, r, c, r - 1, c + 1, m);
        }
    } else if right {
        apply_swap_move(g, r, c, r, c + 1, m);
    } else if left {
        apply_swap_move(g, r, c, r, c - 1, m);
    }
}

/// Applies `liquid_bottom_step` to the grid in place.
fn liquid_bottom(g: &mut Grid, rng: &mut RandomSource, r: usize, c: usize, m: CellType)
    requires
        old(g).wf(),
        r < old(g).rows,
        c < old(g).columns,
    ensures
        final(g).wf(),
        final(g).rows == old(g).rows,
        final(g).columns == old(g).columns,
        final(g).cells@ == liquid_bottom_step(
            old(g).cells@,
            old(g).side(),
            r as int,
            c as int,
            old(rng).state,
            m,
        ).0,
        final(rng).state == liquid_bottom_step(
            old(g).cells@,
            old(g).side(),
            r as int,
            c as int,
            old(rng).state,
            m,
        ).1,
{
    let mut left = false;
    if c > 0 {
        if g.material(r, c - 1) == CellType::Empty {
            left = true;
        }
    }
    let mut right = false;
    if c + 1 < g.columns {
        if g.material(r, c + 1) == CellType::Empty {
            right = true;
        }
    }
    if left && right {
        if rng.flip() {
            left = false;
        } else {
            right = false;
        }
    }
    if right {
        apply_swap_move(g, r, c, r, c + 1, m);
    } else if left {
        apply_swap_move(g, r, c, r, c - 1, m);
    }
}

/// Applies `water_step` to the grid in place.
fn water_tick(g: &mut Grid, rng: &mut RandomSource, r: usize, c: usize)
    requires
        old(g).wf(),
        r < old(g).rows,
        c < old(g).columns,
    ensures
        final(g).wf(),
        final(g).rows == old(g).rows,
        final(g).columns == old(g).columns,
        final(g).cells@ == water_step(
            old(g).cells@,
            old(g).side(),
            r as int,
            c as int,
            old(rng).state,
        ).0,
        final(rng).state == water_step(
            old(g).cells@,
            old(g).side(),
            r as int,
            c as int,
            old(rng).state,
        ).1,
{
    if r > 0 {
        let below = g.material(r - 1, c);
        if !is_blocking_water(below) {
            if below == CellType::Oil {
                displace_below(g, rng, r, c, CellType::Water);
            } else {
                apply_swap_move(g, r, c, r - 1, c, CellType::Water);
            }
        } else {
            liquid_spread(g, rng, r, c, CellType::Water);
        }
    } else {
        liquid_bottom(g, rng, r, c, CellType::Water);
    }
}

/// Applies `oil_step` to the grid in place.
fn oil_tick(g: &mut Grid, rng: &mut RandomSource, r: usize, c: usize)
    requires
        old(g).wf(),
        r < old(g).rows,
        c < old(g).columns,
    ensures
        final(g).wf(),
        final(g).rows == old(g).rows,
        final(g).columns == old(g).columns,
        final(g).cells@ == oil_step(
            old(g).cells@,
            old(g).side(),
            r as int,
            c as int,
            old(rng).state,
        ).0,
        final(rng).state == oil_step(
            old(g).cells@,
            old(g).side(),
            r as int,
            c as int,
            old(rng).state,
        ).1,
{
    if r > 0 {
        let below = g.material(r - 1, c);
        if !is_blocking_oil(below) {
            apply_swap_move(g, r, c, r - 1, c, CellType::Oil);
        } else {
            liquid_spread(g, rng, r, c, CellType::Oil);
        }
    } else {
        liquid_bottom(g, rng, r, c, CellType::Oil);
    }
}

/// Applies `steam_step` to the grid in place.
fn steam_tick(g: &mut Grid, rng: &mut RandomSource, r: usize, c: usize)
    requires
        old(g).wf(),
        r < old(g).rows,
        c < old(g).columns,
    ensures
        final(g).wf(),
        final(g).rows == old(g).rows,
        final(g).columns == old(g).columns,
        final(g).cells@ == steam_step(
            old(g).cells@,
            old(g).side(),
            r as int,
            c as int,
            old(rng).state,
        ).0,
        final(rng).state == steam_step(
            old(g).cells@,
            old(g).side(),
            r as int,
            c as int,
            old(rng).state,
        ).1,
{
    if rng.condense_roll() {
        g.set_material(r, c, CellType::Water);
    } else if r + 1 < g.rows {
        if g.material(r + 1, c) == CellType::Empty {
            apply_swap_move(g, r, c, r + 1, c, CellType::Steam);
        } else {
            let mut up_left = false;
            let mut left = false;
            if c > 0 {
                if g.material(r + 1, c - 1) == CellType::Empty {
                    up_left = true;
                }
                if g.material(r, c - 1) == CellType::Empty {
                    left = true;
                }
            }
            let mut up_right = false;
            let mut right = false;
            if c + 1 < g.columns {
                if g.material(r + 1, c + 1) == CellType::Empty {
                    up_right = true;
                }
                if g.material(r, c + 1) == CellType::Empty {
                    right = true;
                }
            }
            if up_left && up_right {
                if rng.flip() {
                    up_left = false;
                } else {
                    up_right = false;
                }
            }
            if left && right {
                if rng.flip() {
                    left = false;
                } else {
                    right = false;
                }
            }
            if up_left || up_right {
                if up_left {
                    apply_swap_move(g, r, c, r + 1, c - 1, CellType::Steam);
                } else {
                    apply_swap_move(g, r, c, r + 1, c + 1, CellType::Steam);
                }
            } else if right {
                apply_swap_move(g, r, c, r, c + 1, CellType::Steam);
            } else if left {
                apply_swap_move(g, r, c, r, c - 1, CellType::Steam);
            }
        }
    } else {
        let mut left = false;
        if c > 0 {
            if g.material(r, c - 1) == CellType::Empty {
                left = true;
            }
        }
        let mut right = false;
        if c + 1 < g.columns {
            if g.material(r, c + 1) == CellType::Empty {
                right = true;
            }
        }
        if left && right {
            if rng.flip() {
                left = false;
            } else {
                right = false;
            }
        }
        if right {
            apply_swap_move(g, r, c, r, c + 1, CellType::Steam);
        } else if left {
            apply_swap_move(g, r, c, r, c - 1, CellType::Steam);
        }
    }
}

/// Applies `visit_cell` to the grid in place: one visit of the scan.
pub fn step_cell(g: &mut Grid, rng: &mut RandomSource, r: usize, c: usize)
    requires
        old(g).wf(),
        r < old(g).rows,
        c < old(g).columns,
    ensures
        final(g).wf(),
        final(g).rows == old(g).rows,
        final(g).columns == old(g).columns,
        final(g).cells@ == visit_cell(
            old(g).cells@,
            old(g).side(),
            r as int,
            c as int,
            old(rng).state,
        ).0,
        final(rng).state == visit_cell(
            old(g).cells@,
            old(g).side(),
            r as int,
            c as int,
            old(rng).state,
        ).1,
{
    let cell = g.get(r, c);
    if !cell.updated {
        match cell.cell_type {
            CellType::Sand => sand_tick(g, rng, r, c),
            CellType::Water => water_tick(g, rng, r, c),
            CellType::Oil => oil_tick(g, rng, r, c),
            CellType::Steam => steam_tick(g, rng, r, c),
            _ => {},
        }
    }
    g.mark_processed(r, c);
}

} // verus!
