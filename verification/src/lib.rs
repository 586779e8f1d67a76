//! Simulation core of a side-scrolling runner game: axis-aligned geometry,
//! a sprite-sheet lookup, the character's physics and animation state
//! machine, obstacles with collision consequences, procedural segment
//! generation, and the session state machine that sequences
//! ready -> walking -> game-over -> ready.

pub mod boy;
pub mod character;
pub mod geometry;
pub mod obstacles;
pub mod segments;
pub mod session;
pub mod sprites;
pub mod ui;
pub mod walk;

pub use geometry::Point;
pub use geometry::Rect;
pub use sprites::Cell;
pub use sprites::Sheet;
