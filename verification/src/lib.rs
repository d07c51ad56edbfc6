//! Cosmic C's SIA32 lowering path.

pub mod bundle;
pub mod error;
pub mod hir;
pub mod ir;
pub mod lower;
pub mod replace;
pub mod text;
pub mod text_laws;
pub mod type_laws;
pub mod types;
pub mod unit;
