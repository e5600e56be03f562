//! Reconstructs schema source text from a decoded file descriptor.
//!
//! The emitter (`proto_writer`) accumulates indented text, the decompiler
//! (`decompile`) walks a descriptor tree depth-first and states in its
//! contracts exactly which text each entity produces.

pub mod descriptor;
pub mod text;
pub mod proto_writer;
pub mod decompile;
pub mod proto_result;
pub mod laws;
pub mod cytrus;
