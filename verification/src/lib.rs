//! Core of a screen-rendered code editor: a line-addressed text buffer,
//! a cursor with pixel-offset caching, viewport scrolling and
//! virtualization, a syntax-highlighting span pipeline, and the panels that
//! compose them.
//!
//! Text storage is backed by a rope; syntax highlighting is backed by
//! grammar-driven tokenizers. Pixel geometry is modelled in integer pixels;
//! glyph advance widths enter the library as plain data.

pub mod buffer;
pub mod code_view;
pub mod editor;
pub mod fs_tree;
pub mod highlight;
pub mod input;
pub mod measure;
pub mod text;
pub mod viewport;
