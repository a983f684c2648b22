//! A compiler for the Drewno Mars language: name analysis, type checking,
//! lowering to three-address code, and x86-64 code generation, with the
//! behaviour of every pass stated in contracts and proved.

pub mod ast;
pub mod display;
pub mod driver;
pub mod error;
pub mod model;
pub mod name_analysis;
pub mod quads;
pub mod render;
pub mod source_position;
pub mod symbol_table;
pub mod three_ac;
pub mod type_analysis;
pub mod x64;

