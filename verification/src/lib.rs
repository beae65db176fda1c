//! The MIR stage of the Soul compiler: lowering type-checked functions into
//! MIR, the MIR model itself, and the layout and naming rules of the
//! backend, each function with a contract that Verus proves.

pub mod layout;
pub mod types;
pub mod vec_map;
pub mod mir;
pub mod fault;
pub mod ast;
pub mod lower;
pub mod backend;
pub mod ir_rules;
pub mod codegen;
