//! Control surface for an interactive instruction-set debugger.
//!
//! The crate owns the machine state of a debugging session — a program
//! counter, a general register file, two accumulators and a memory made of
//! non-overlapping mounted regions — and the protocol that drives it:
//! configuring a session from program regions or an assembler's outcome,
//! running to a breakpoint with cooperative interruption, single-stepping,
//! pausing, stopping, and inspecting or mutating memory and registers.
//!
//! Executing a single instruction is the one operation delegated outward,
//! through the [`controller::InstructionRunner`] trait; everything the
//! controller decides at an instruction boundary is verified here.

pub mod assembler;
pub mod controller;
pub mod frame;
pub mod inspection;
pub mod machine;
pub mod memory;
pub mod session;
