//! A double-buffered character-grid renderer for text terminals.
//!
//! A [`framebuffer::Framebuffer`] holds a fixed grid of styled cells,
//! [`framebuffer::diff::compare`] lists the cells that differ between two
//! grids in row-major order, and [`renderer::Terminal`] turns those changes
//! into ANSI commands written to a [`terminal::Sink`].
pub mod text;
pub mod terminal;
pub mod framebuffer;
pub mod renderer;
