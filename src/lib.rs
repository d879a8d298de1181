//! Geometry, input and frame bookkeeping for a small immediate-mode 2D engine.
//!
//! Shapes are lowered into a per-frame vertex and 16-bit index buffer (`mesh`),
//! decorated boxes get their tick placement from `decor`, the window's event loop
//! decides through `event_loop`, and input callbacks are kept in `input`. The tile
//! grid of the city-builder lives in `coord` and `grid`; `text` measures widget text.
pub mod coord;
pub mod decor;
pub mod event_loop;
pub mod grid;
pub mod input;
pub mod mesh;
pub mod text;
