//! A verified model of a minimal cooperative kernel core for a single-core
//! RISC-V machine: a firmware call gateway, a buffered console sink, a trap
//! vector, two statically sized execution contexts, and the cooperative
//! context-switch primitive that lets them take turns on one CPU.
//!
//! The hardware itself (privileged call instructions, control registers, the
//! live register file) is represented by explicit data: the firmware is the
//! sequence of console bytes it has received, the CPU is its callee-owned
//! register set plus a stack pointer, and a context's stack is a word array.
//! Every operation of the core is an ordinary function over this state, with
//! a contract that pins down exactly what it does.

pub mod console;
pub mod hex;
pub mod kernel;
pub mod sbi;
pub mod trap;
pub mod thread;
