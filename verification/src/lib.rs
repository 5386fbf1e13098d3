//! Finds CSS stacking-order declarations in front-end source text and renders
//! them as a report sorted by numeric value.

pub mod collect;
pub mod entry;
pub mod error;
pub mod number;
pub mod pattern;
pub mod report;
pub mod scan;
pub mod sort;
pub mod text;
pub mod walk;
