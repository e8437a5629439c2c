//! An emulator for the LC-3, a 16-bit educational computer architecture:
//! eight general-purpose registers, a 64K-word memory with memory-mapped
//! keyboard registers, and a fetch-decode-execute loop interpreting a
//! fixed instruction set loaded from a big-endian program image.
//!
//! Console input and output are modelled as byte queues held by the
//! machine, so the whole engine — loader, decoder, every instruction's
//! semantics, and the trap service routines — is verified. A host
//! program feeds keystrokes into the input queue and drains the output
//! queue between runs of the engine.

pub mod bits;
pub mod isa;
pub mod laws;
pub mod vm;

pub use crate::bits::be16;
pub use crate::bits::sign_extend;
pub use crate::bits::sign_extend16;
pub use crate::bits::swap_endian;
pub use crate::vm::Registers;
pub use crate::vm::VM;
