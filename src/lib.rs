//! A compiler from the syntax tree of a small scripting language to
//! WebAssembly: scope analysis of the tree, lowering to a typed IR,
//! unreachable-code elimination, code generation, and a model of a Wasm
//! module with its binary serializer and LEB128 encoding.
pub mod leb;
pub mod module;
pub mod serialize;
pub mod code;
pub mod scratch;
pub mod estree;
pub mod ir;
pub mod prune;
pub mod resolve;
pub mod lower;
pub mod codegen;
pub mod compile;
