//! The evaluation engine of an interactive Rust session: fragments of source
//! text are accepted one at a time, assembled into a complete program, handed
//! to the build toolchain, and committed to the session only when the
//! toolchain's verdict allows it.

pub mod body;
pub mod error;
pub mod paths;
pub mod printer;
pub mod roundtrip;
pub mod session;
pub mod source;
pub mod synth;
pub mod text;
pub mod verdict;
