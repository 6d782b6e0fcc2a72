//! Static memory layout of a compiled program: the table of global variables,
//! the graph of their types, and the resolution of dotted and indexed symbol
//! expressions to an address and a type.

pub mod class_info;
pub mod container;
pub mod demangle;
pub mod entries;
pub mod extract;
pub mod laws;
pub mod messages;
pub mod name_map;
pub mod offset;
pub mod parse;
pub mod pipeline;
pub mod symbol;
pub mod text;
pub mod typereader;
pub mod types;
pub mod views;
