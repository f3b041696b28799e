//! Sessions and the single-slot registry that owns at most one of them.
//!
//! A [`Session`] binds a configured program's machine state to its
//! execution-control metadata: the current run mode and the cooperative
//! interrupt flag that pause requests raise and the resume loop observes at
//! instruction boundaries. A [`SessionSlot`] holds zero or one session;
//! configuring a new program replaces (and thereby cancels) any previous
//! session, and every other operation on an empty slot is a benign no-op
//! rather than an error.

use vstd::prelude::*;

use crate::assembler::fault_outcome;
use crate::assembler::fault_outcome_ok;
use crate::assembler::AssembledProgram;
use crate::assembler::AssemblerOutcome;
use crate::assembler::AssemblyFault;
use crate::controller::resume;
use crate::controller::step;
use crate::controller::InstructionRunner;
use crate::frame::DebugFrame;
use crate::frame::Mode;
use crate::machine::MachineState;
use crate::machine::bytes_written;
use crate::machine::build_machine;
use crate::machine::built_memory;
use crate::machine::layout_ok;
use crate::machine::read_window;
use crate::machine::register_set;
use crate::machine::DEFAULT_HEAP_SIZE;
use crate::memory::Region;

verus! {

/// A live debugging session: one machine state plus execution-control
/// metadata.
pub struct Session {
    /// The machine being debugged.
    pub machine: MachineState,
    /// Current run mode.
    pub mode: Mode,
    /// Cooperative interrupt flag: raised by pause requests, observed by
    /// the resume loop at each instruction boundary, consumed when a resume
    /// starts.
    pub interrupted: bool,
}

impl Session {
    /// The snapshot a control operation returns for this session.
    pub open spec fn frame_spec(self) -> DebugFrame {
        DebugFrame {
            mode: self.mode,
            pc: self.machine.pc,
            registers: self.machine.registers,
            hi: self.machine.hi,
            lo: self.machine.lo,
        }
    }

    /// A fresh session over `machine`, ready to run and not interrupted.
    pub fn new(machine: MachineState) -> (r: Session)
        ensures
            r.machine == machine,
            r.mode == Mode::Ready,
            !r.interrupted,
    {
        Session { machine, mode: Mode::Ready, interrupted: false }
    }

    /// Takes the snapshot of the current state.
    pub fn frame(&self) -> (r: DebugFrame)
        ensures
            r == self.frame_spec(),
    {
        DebugFrame {
            mode: self.mode,
            pc: self.machine.pc,
            registers: self.machine.registers,
            hi: self.machine.hi,
            lo: self.machine.lo,
        }
    }

    /// Requests a cooperative pause: raises the interrupt flag, moves a
    /// running session to paused, and returns the frame at the moment of
    /// the request. The machine state itself is untouched.
    pub fn pause(&mut self) -> (r: DebugFrame)
        ensures
            final(self).interrupted,
            final(self).machine == old(self).machine,
            final(self).mode == (if old(self).mode is Running {
                Mode::Paused
            } else {
                old(self).mode
            }),
            r == final(self).frame_spec(),
    {
        self.interrupted = true;
        if self.mode == Mode::Running {
            self.mode = Mode::Paused;
        }
        self.frame()
    }
}

/// The process-wide single-slot registry: zero or one active session.
pub struct SessionSlot {
    /// The active session, if any.
    pub active: Option<Session>,
}

impl SessionSlot {
    /// An empty slot: no active session.
    pub fn new() -> (r: SessionSlot)
        ensures
            r.active is None,
    {
        SessionSlot { active: None }
    }

    /// Discards the session, cancelling any run that would next observe it.
    pub fn stop(&mut self)
        ensures
            final(self).active is None,
    {
        self.active = None;
    }

    /// Configures a session from an executable image's regions and entry
    /// address, replacing any previous session. Succeeds exactly when the
    /// requested layout fits; on failure the slot is left unchanged.
    pub fn configure_image(&mut self, regions: Vec<Region>, entry: u32) -> (r: bool)
        ensures
            r == layout_ok(regions@, DEFAULT_HEAP_SIZE),
            r ==> (final(self).active matches Some(s) && s.mode == Mode::Ready && !s.interrupted
                && s.machine.pc == entry && s.machine.hi == 0 && s.machine.lo == 0 && (forall|
                i: int,
            |
                0 <= i < 32 ==> s.machine.registers@[i] == 0) && built_memory(
                regions@,
                DEFAULT_HEAP_SIZE,
                s.machine.memory,
            )),
            !r ==> *final(self) == *old(self),
    {
        match build_machine(regions, entry, DEFAULT_HEAP_SIZE) {
            Some(machine) => {
                self.active = Some(Session::new(machine));
                true
            },
            None => false,
        }
    }

    /// Reads `count` optional bytes at `address` from the active session's
    /// machine, or reports the absent session.
    pub fn read_bytes(&self, address: u32, count: u32) -> (r: Option<Vec<Option<u8>>>)
        ensures
            (r is Some) == (self.active is Some),
            self.active matches Some(s) ==> (r matches Some(v) && v@ == read_window(
                s.machine.memory,
                address,
                count,
            )),
    {
        match &self.active {
            Some(s) => Some(s.machine.read_bytes(address, count)),
            None => None,
        }
    }

    /// Writes `bytes` at `address` into the active session's machine,
    /// silently skipping unmapped addresses; a no-op without a session.
    pub fn write_bytes(&mut self, address: u32, bytes: &Vec<u8>)
        ensures
            old(self).active is None ==> *final(self) == *old(self),
            old(self).active matches Some(s) ==> (final(self).active matches Some(s2)
                && bytes_written(s.machine.memory, s2.machine.memory, address, bytes@)
                && s2.machine.pc == s.machine.pc && s2.machine.registers == s.machine.registers
                && s2.machine.hi == s.machine.hi && s2.machine.lo == s.machine.lo && s2.mode
                == s.mode && s2.interrupted == s.interrupted),
    {
        match &mut self.active {
            Some(s) => s.machine.write_bytes(address, bytes),
            None => {},
        }
    }

    /// Sets one register of the active session's machine by index; indices
    /// outside the register file and the two accumulators are silently
    /// ignored, as is the call without a session.
    pub fn set_register(&mut self, register: u32, value: u32)
        ensures
            old(self).active is None ==> *final(self) == *old(self),
            old(self).active matches Some(s) ==> (final(self).active matches Some(s2)
                && register_set(s.machine, s2.machine, register, value) && s2.mode == s.mode
                && s2.interrupted == s.interrupted),
    {
        match &mut self.active {
            Some(s) => s.machine.set_register(register, value),
            None => {},
        }
    }

    /// Requests a cooperative pause of the active session and returns its
    /// frame, or reports the absent session.
    pub fn pause(&mut self) -> (r: Option<DebugFrame>)
        ensures
            (r is Some) == (old(self).active is Some),
            old(self).active is None ==> *final(self) == *old(self),
            old(self).active matches Some(s) ==> (final(self).active matches Some(s2)
                && s2.interrupted && s2.machine == s.machine && s2.mode == (
            if s.mode is Running {
                Mode::Paused
            } else {
                s.mode
            }) && r == Some(s2.frame_spec())),
    {
        match &mut self.active {
            Some(s) => Some(s.pause()),
            None => None,
        }
    }

    /// Configures a session from an assembler's result, replacing any
    /// previous session on success. A failed assembly, and an assembled
    /// program whose regions do not fit the fixed memory layout, leave the
    /// slot unchanged and report the failure in the outcome.
    pub fn configure_assembled(
        &mut self,
        result: Result<AssembledProgram, AssemblyFault>,
        source: &Vec<u8>,
    ) -> (r: AssemblerOutcome)
        requires
            source@.len() < usize::MAX,
        ensures
            result matches Err(f) ==> (*final(self) == *old(self) && fault_outcome_ok(
                r,
                f.offset,
                f.message@,
                source@,
            )),
            result matches Ok(p) ==> (if layout_ok(p.regions@, DEFAULT_HEAP_SIZE) {
                final(self).active matches Some(s) && s.mode == Mode::Ready && !s.interrupted
                    && s.machine.pc == p.entry && s.machine.hi == 0 && s.machine.lo == 0 && (forall|
                    i: int,
                |
                    0 <= i < 32 ==> s.machine.registers@[i] == 0) && built_memory(
                    p.regions@,
                    DEFAULT_HEAP_SIZE,
                    s.machine.memory,
                ) && (r matches AssemblerOutcome::Success { breakpoints } && breakpoints@
                    == p.breakpoints@)
            } else {
                *final(self) == *old(self) && (r matches AssemblerOutcome::Error {
                    marker,
                    body,
                    ..
                } && marker is None && body is None)
            }),
    {
        match result {
            Err(fault) => fault_outcome(fault, source),
            Ok(program) => {
                let AssembledProgram { regions, entry, breakpoints } = program;
                match build_machine(regions, entry, DEFAULT_HEAP_SIZE) {
                    Some(machine) => {
                        self.active = Some(Session::new(machine));
                        AssemblerOutcome::Success { breakpoints }
                    },
                    None => AssemblerOutcome::Error {
                        marker: None,
                        message: program_layout_message(),
                        body: None,
                    },
                }
            },
        }
    }

    /// Runs the active session until it halts on a breakpoint, a pause
    /// request or a fault, executing instructions through `runner`; reports
    /// the absent session without running anything. Returns the halt frame
    /// and the number of instructions executed.
    pub fn resume<R: InstructionRunner>(
        &mut self,
        runner: &mut R,
        breakpoints: &Vec<u32>,
    ) -> (r: Option<(DebugFrame, u64)>)
        ensures
            (r is Some) == (old(self).active is Some),
            old(self).active is None ==> *final(self) == *old(self),
            old(self).active is Some ==> (final(self).active matches Some(s2) && (r matches Some(p)
                && p.0 == s2.frame_spec() && (p.0.mode is Breakpoint ==> breakpoints@.contains(
                p.0.pc,
            ) && p.1 >= 1) && (p.0.mode is Paused ==> s2.interrupted) && (p.0.mode is Breakpoint
                || p.0.mode is Paused || p.0.mode is Fault))),
    {
        match &mut self.active {
            Some(s) => Some(resume(runner, s, breakpoints)),
            None => None,
        }
    }

    /// Executes exactly one instruction of the active session through
    /// `runner` and returns the resulting frame, or reports the absent
    /// session.
    pub fn step<R: InstructionRunner>(&mut self, runner: &mut R) -> (r: Option<DebugFrame>)
        ensures
            (r is Some) == (old(self).active is Some),
            old(self).active is None ==> *final(self) == *old(self),
            old(self).active is Some ==> (final(self).active matches Some(s2) && r == Some(
                s2.frame_spec(),
            ) && (s2.mode is Ready || s2.mode is Fault)),
    {
        match &mut self.active {
            Some(s) => Some(step(runner, s)),
            None => None,
        }
    }
}

/// The message reported when an assembled program's regions cannot be
/// mounted into the fixed memory layout.
fn program_layout_message() -> String {
    String::from_str("program regions do not fit the memory layout")
}

} // verus!
