//! Parsing and serialization of a family of CSS value grammars: `<position>`,
//! `grid-template-areas`, `aspect-ratio`, `grid-auto-flow`,
//! `masonry-auto-flow` and the anchor-positioning identifiers.
//!
//! Every grammar reads from a [`cursor::Cursor`], a token cursor with
//! checkpoint and rewind, and states its result over the tokens that the
//! cursor has left.

pub mod anchor;
pub mod aspect_ratio;
pub mod cursor;
pub mod error;
pub mod flow;
pub mod grid;
pub mod grid_cells;
pub mod grid_laws;
pub mod grid_normal;
pub mod length;
pub mod position;
pub mod token;
