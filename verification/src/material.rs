use vstd::prelude::*;

verus! {

/// The substance occupying one grid cell.
///
/// The relative density ordering `Wall`/`Wood` (immovable) > `Sand` > `Water`
/// > `Oil` > `Steam` > `Empty` drives every movement rule: a material may move
/// into a strictly less dense material's cell, displacing it.
#[derive(Clone, Copy, PartialEq, Eq, Structural, Debug)]
pub enum CellType {
    Empty,
    Wall,
    Wood,
    Sand,
    Water,
    Oil,
    Steam,
}

/// Materials that a grain of sand cannot fall into or past.
pub open spec fn blocks_sand(m: CellType) -> bool {
    m == CellType::Sand || m == CellType::Wall || m == CellType::Wood
}

/// Materials that water cannot fall or slide diagonally into: anything at
/// least as dense, and the immovables.  Straight sideways, water spreads only
/// into empty cells.
pub open spec fn blocks_water(m: CellType) -> bool {
    m == CellType::Sand || m == CellType::Wall || m == CellType::Water || m == CellType::Wood
}

/// Materials that oil cannot fall or slide diagonally into: anything at
/// least as dense, and the immovables.  Straight sideways, oil spreads only
/// into empty cells.
pub open spec fn blocks_oil(m: CellType) -> bool {
    m == CellType::Sand || m == CellType::Wall || m == CellType::Water || m == CellType::Oil
        || m == CellType::Wood
}

/// What blocks a liquid's fall or diagonal slide, by the liquid's own
/// density.  Only ever applied to `Water` or `Oil`.
pub open spec fn blocks_liquid(liquid: CellType, m: CellType) -> bool {
    if liquid == CellType::Water {
        blocks_water(m)
    } else {
        blocks_oil(m)
    }
}

/// Materials with no rule of their own: a world of these alone never changes.
pub open spec fn is_inert(m: CellType) -> bool {
    m == CellType::Empty || m == CellType::Wall || m == CellType::Wood
}

/// The layout codec: the integer code a loader uses for each material.
pub open spec fn material_of_code(code: u8) -> CellType {
    if code == 1 {
        CellType::Wall
    } else if code == 2 {
        CellType::Wood
    } else if code == 3 {
        CellType::Sand
    } else if code == 4 {
        CellType::Water
    } else if code == 5 {
        CellType::Oil
    } else if code == 6 {
        CellType::Steam
    } else {
        CellType::Empty
    }
}

/// Decodes one layout code; any unassigned code stands for `Empty`.
pub fn material_from_code(code: u8) -> (m: CellType)
    ensures
        m == material_of_code(code),
{
    if code == 1 {
        CellType::Wall
    } else if code == 2 {
        CellType::Wood
    } else if code == 3 {
        CellType::Sand
    } else if code == 4 {
        CellType::Water
    } else if code == 5 {
        CellType::Oil
    } else if code == 6 {
        CellType::Steam
    } else {
        CellType::Empty
    }
}

/// The material a paint cursor cycles to next.
pub open spec fn next_material(m: CellType) -> CellType {
    match m {
        CellType::Empty => CellType::Wall,
        CellType::Wall => CellType::Wood,
        CellType::Wood => CellType::Sand,
        CellType::Sand => CellType::Water,
        CellType::Water => CellType::Oil,
        CellType::Oil => CellType::Steam,
        CellType::Steam => CellType::Empty,
    }
}

/// Cycles a paint cursor through every material and back to `Empty`.
pub fn toggle(current_type: CellType) -> (next: CellType)
    ensures
        next == next_material(current_type),
{
    match current_type {
        CellType::Empty => CellType::Wall,
        CellType::Wall => CellType::Wood,
        CellType::Wood => CellType::Sand,
        CellType::Sand => CellType::Water,
        CellType::Water => CellType::Oil,
        CellType::Oil => CellType::Steam,
        CellType::Steam => CellType::Empty,
    }
}

} // verus!
