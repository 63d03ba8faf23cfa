//! Emission of WebAssembly modules in the binary format, with contracts
//! that state, byte for byte, what each encoder appends.
pub mod leb;
pub mod encode;
pub mod types;
pub mod expr;
pub mod items;
pub mod custom;
pub mod names;
pub mod module;
