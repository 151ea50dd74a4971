//! A verified interpreter for a one-instruction (SUBLEQ-class) machine.
//!
//! Every instruction is the same three-operand subtract-and-branch-if-
//! non-positive operation over a flat space of 65536 sixteen-bit words.
//! Two reserved operand patterns turn an instruction into byte input or
//! byte output, driven against an in-memory byte source and sink.

pub mod io;
pub mod laws;
pub mod machine;

pub use io::fgetc;
pub use io::fputc;
pub use io::InputSource;
pub use io::OutputSink;
pub use machine::State;
pub use machine::VM;
