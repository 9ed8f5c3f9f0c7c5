//! Back end of a circuit compiler: a bucket intermediate representation,
//! two code generators (a stack-machine text emitter and a native-source
//! emitter) that walk the same IR, field arithmetic over the Pallas base
//! field, and the witness-generation runtime protocol shared by both
//! emitted artifacts.

pub mod components;
pub mod field;
pub mod ir;
pub mod rust_gen;
pub mod text;
pub mod wasm_gen;
pub mod witness;
