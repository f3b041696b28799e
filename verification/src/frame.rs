//! Run modes and the immutable machine-state snapshot handed to callers.

use vstd::prelude::*;

verus! {

/// The run mode of a session, as reported in a debug frame.
#[derive(Clone, Copy, Debug, PartialEq, Eq, Structural)]
pub enum Mode {
    /// A session exists and nothing is executing.
    Ready,
    /// A resume operation is executing instructions.
    Running,
    /// Execution honored a pause request and suspended at an instruction
    /// boundary.
    Paused,
    /// Execution halted because the program counter reached a member of the
    /// supplied breakpoint set.
    Breakpoint,
    /// Execution reached a fatal condition and cannot continue.
    Fault,
}

/// An immutable snapshot of machine state taken at an instruction boundary
/// and returned to the caller after a control operation.
#[derive(Clone, Copy, Debug, PartialEq, Eq)]
pub struct DebugFrame {
    /// Run mode at the moment of the snapshot.
    pub mode: Mode,
    /// Program counter.
    pub pc: u32,
    /// The general register file.
    pub registers: [u32; 32],
    /// High accumulator.
    pub hi: u32,
    /// Low accumulator.
    pub lo: u32,
}

} // verus!
