//! A falling-sand cellular automaton: a grid of cells that evolves one
//! generation at a time under local movement rules, and a view that maps
//! the committed generation to a display-sized image.
//!
//! Every generation is computed from the previous one alone and written to
//! storage disjoint from it, so the outcome does not depend on the order in
//! which the cells are evaluated.

pub mod cell;
pub mod conservation;
pub mod error;
pub mod frame;
pub mod grid;
pub mod laws;
pub mod move_pass;
pub mod rules;
pub mod upload;
pub mod world_view;
