//! Drawing of the terminal.

pub mod atlas;
pub mod content;
pub mod batch;
pub mod rects;
pub mod surface;
pub mod pipeline;
pub mod glyph_cache;
pub mod gl;
pub mod frame;
pub mod immediate;
