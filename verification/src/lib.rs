//! An emulator core for a 14-instruction register machine on 32-bit words.
//!
//! The crate holds the execution engine only: the loader that turns a byte
//! stream into words, the instruction decoder, the memory manager with its
//! recycled handles, and the machine that steps through a program. Console
//! input and output stay with the caller: a step tells the caller which byte
//! to print or that a line of input is wanted, and the caller answers.

pub mod fault;
pub mod instruction;
pub mod loader;
pub mod machine;
pub mod memory;

pub use crate::fault::Fault;
pub use crate::instruction::{decode, Instruction};
pub use crate::loader::{from_bytes, LoadError};
pub use crate::machine::{Action, Machine, Status};
pub use crate::memory::Memory;
