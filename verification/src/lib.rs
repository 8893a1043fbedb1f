//! Structured-event capture layer: accumulates span attributes into ordered
//! documents and renders each event as one self-contained JSON line.

pub mod record;
pub mod adapter;
pub mod fizzbuzz;
pub mod layer;
pub mod parse;
pub mod scope;
pub mod ser;
pub mod visitor;
pub mod value;
