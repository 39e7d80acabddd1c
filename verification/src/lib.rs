//! Retained-mode scene core for an interactive 2D vector canvas.
//!
//! The crate keeps a flat arena of drawable shapes addressed by an opaque
//! 128-bit identity, a single-slot mutation cursor, a viewport (zoom and
//! pan), and a render planner that walks the shape forest and emits a flat
//! list of drawing operations for a rasterization backend to execute.
//!
//! Coordinates, rotations and transform coefficients are stored as the bit
//! patterns of single-precision floats supplied by the host; the core never
//! interprets them numerically, it only stores, composes lists of, and
//! forwards them.

pub mod arena;
pub mod color;
pub mod geom;
pub mod render;
pub mod shapes;
pub mod state;
pub mod uuid;
pub mod viewbox;
