//! Software rasterizer for a packed monochrome framebuffer: lines, circles,
//! rectangles and rounded rectangles, with clip regions and per-row dirty flags.
pub mod api;
pub mod fb;
pub mod sweep;
pub mod op;
pub mod bresenham;
pub mod laws;
