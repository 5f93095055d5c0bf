//! A falling-sand simulation engine: a grid of cells, each holding one element
//! of a fixed catalog, advanced one tick at a time by per-category rules.
pub mod element_type;
pub mod elements;
pub mod grid;
pub mod laws;
mod random;
