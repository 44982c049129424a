//! Index arithmetic for regular grids: wraparound stepping on closed integer
//! intervals, conversion between flat and cartesian coordinates, and the
//! decomposition of a one-dimensional extent into contiguous tiles.
//!
//! Every type has a mathematical model (its view), and every function states
//! its result over that model.

pub mod error;
pub mod circular_index;
pub mod linear_accessors;
pub mod tiled_grid;

pub use circular_index::Circular2dIndex;
pub use circular_index::CircularIndex;
pub use circular_index::Interval;
pub use circular_index::Torus;
pub use error::IndexError;
pub use linear_accessors::Extents;
pub use linear_accessors::LinearAccessor2d;
pub use tiled_grid::TiledGridAccessor1d;
pub use tiled_grid::Tiling;
