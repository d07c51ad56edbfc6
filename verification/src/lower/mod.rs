//! Lowering of C function bodies to code generator steps.

pub mod access_laws;
pub mod block_laws;
pub mod branch_laws;
pub mod call_laws;
pub mod copy_laws;
pub mod expr;
pub mod expr_laws;
pub mod expr_model;
pub mod failure_laws;
pub mod float_laws;
pub mod flow_laws;
pub mod function;
pub mod function_laws;
pub mod init;
pub mod init_laws;
pub mod init_model;
pub mod jump_laws;
pub mod laws;
pub mod layout_laws;
pub mod local_laws;
pub mod loop_laws;
pub mod machine;
pub mod parameter_laws;
pub mod pointer_laws;
pub mod slot_laws;
pub mod state;
pub mod step_laws;
pub mod stmt;
pub mod stmt_laws;
pub mod stmt_model;
pub mod unary_laws;
pub mod value_laws;
