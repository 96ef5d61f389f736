//! Transport simulation for a diffusible substance ("nanite mass") on a
//! square-shaped hexagonal grid.
//!
//! The crate models per-cell substance state with fixed-point integers
//! (thousandths of a unit), hex neighbor addressing with row-parity offset
//! tables, a drifting wind field, a global reserve pool, and the scheduler
//! passes that move mass between cells: wind advection, overflow diffusion,
//! edge injection, and the pending-delta commit.

pub mod clickable;
pub mod grid_pos;
pub mod hex_grid;
pub mod input;
pub mod macc;
pub mod mass;
pub mod nanite;
pub mod reserve;
pub mod rng;
pub mod systems;
pub mod terrain;
pub mod timing;
pub mod weather;

pub use clickable::ClickSignal;
pub use grid_pos::GridPos;
pub use hex_grid::Cell;
pub use hex_grid::HexDirection;
pub use hex_grid::HexGrid;
pub use hex_grid::HexNeighbors;
pub use input::GameEntitiesClickable;
pub use macc::Team;
pub use nanite::Nanite;
pub use reserve::NaniteReserve;
pub use terrain::Terrain;
pub use timing::TickTimer;
pub use weather::Weather;
