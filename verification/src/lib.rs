//! Core of a compiler/linker driver emulator: a declarative parser for
//! GCC/Clang-style argument vectors, derivation of the driver mode and output
//! kind, a parser for the "show commands" diagnostic dumps of GCC and Clang,
//! and a synthesizer for the final linker command line.
//!
//! Everything here is pure transformation over in-memory strings; process
//! creation, filesystem probing and environment access live with the callers.

pub mod arch;
pub mod arg_parser;
pub mod args;
pub mod dump;
pub mod emit;
pub mod laws;
pub mod link;
pub mod outputs_cleanup;
pub mod text;
