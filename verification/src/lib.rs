//! A software-rasterized framebuffer library: a pixel buffer of packed
//! 32-bit colors, drawing primitives that stamp shapes into it, and a
//! per-frame snapshot/reset cycle that hands the finished frame to a
//! platform presentation layer.

pub mod pixel_buffer;
pub mod renderer;
