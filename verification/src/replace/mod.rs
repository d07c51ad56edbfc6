//! Macro replacement.
//!
//! This module does no parsing and accepts only tokens.

pub mod call;
pub mod call_laws;
pub mod definition;
pub mod expand;
pub mod laws;
pub mod model;
pub mod stream;
pub mod token;
