//! Framebuffer storage for a software renderer: a fixed-size, row-major grid
//! of pixels that is created uniform and then overwritten cell by cell.
pub mod canvas;
