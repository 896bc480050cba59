//! A falling-sand cellular automaton.
//!
//! A square grid of cells, each holding one material, is advanced one discrete
//! tick at a time by local rules: sand falls and piles, liquids fall and
//! spread by density, steam rises and may condense.  Every cell is mutated at
//! most once per tick, guarded by a per-cell processed marker, and the whole
//! tick is a deterministic function of the grid and the state of an explicit,
//! seedable random source.

mod engine;
mod grid;
mod material;
mod props;
mod rng;
mod world;

pub use grid::Cell;
pub use grid::Grid;
pub use material::toggle;
pub use material::CellType;
pub use rng::RandomSource;
pub use world::populate_world;
pub use world::World;


