//! Translation units: their symbols, data objects and functions.

pub mod collect_laws;
pub mod data;
pub mod data_laws;
pub mod finish;
pub mod laws;
pub mod link_laws;
pub mod plan;
pub mod statics;
pub mod strings;
pub mod symbols;
