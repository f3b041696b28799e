//! The execution controller: run-to-breakpoint with cooperative pause.
//!
//! Executing a single instruction is delegated through
//! [`InstructionRunner`]; everything the controller decides at an
//! instruction boundary — breakpoint membership, honoring a pause request,
//! halting on a fault — is verified here. Breakpoints are evaluated only
//! after at least one instruction has executed, so resuming from a stop
//! exactly on a breakpoint makes forward progress instead of re-triggering
//! immediately.

use vstd::prelude::*;

use crate::frame::DebugFrame;
use crate::frame::Mode;
use crate::session::Session;

verus! {

/// What one instruction's execution came to.
#[derive(Clone, Copy, Debug, PartialEq, Eq, Structural)]
pub enum StepOutcome {
    /// The instruction completed and the machine can continue.
    Normal,
    /// Execution cannot continue: an invalid instruction, an exit, or any
    /// other fatal condition of the machine.
    Fault,
}

/// A backend that executes a single instruction on a session's machine
/// state. Between instructions a backend may also surface an externally
/// requested pause by raising the session's interrupt flag; the controller
/// observes the flag at the next boundary. The controller assumes nothing
/// about what a cycle does to the machine: every guarantee it gives holds
/// for any backend.
pub trait InstructionRunner {
    /// Executes exactly one instruction on `session`'s machine.
    fn cycle(&mut self, session: &mut Session) -> StepOutcome;
}

/// Why the resume loop halts at a given instruction boundary, if at all:
/// a faulted machine halts; a raised interrupt flag halts as paused; after
/// at least one executed instruction, a program counter in the breakpoint
/// set halts as a breakpoint.
pub open spec fn halt_reason(session: Session, steps: u64, breakpoints: Seq<u32>) -> Option<Mode> {
    if session.mode is Fault {
        Some(Mode::Fault)
    } else if session.interrupted {
        Some(Mode::Paused)
    } else if steps >= 1 && breakpoints.contains(session.machine.pc) {
        Some(Mode::Breakpoint)
    } else {
        None
    }
}

/// Whether `pc` is a member of the supplied breakpoint set.
fn breakpoint_member(breakpoints: &Vec<u32>, pc: u32) -> (r: bool)
    ensures
        r == breakpoints@.contains(pc),
{
    let mut i: usize = 0;
    while i < breakpoints.len()
        invariant
            i <= breakpoints@.len(),
            forall|k: int| 0 <= k < i ==> breakpoints@[k] != pc,
        decreases breakpoints@.len() - i,
    {
        if breakpoints[i] == pc {
            return true;
        }
        i += 1;
    }
    proof {
        if breakpoints@.contains(pc) {
            let j = choose|j: int| 0 <= j < breakpoints@.len() && breakpoints@[j] == pc;
            assert(false);
        }
    }
    false
}

/// Decides at an instruction boundary whether the run loop must halt, and
/// with which mode; `steps` is the number of instructions executed since
/// the resume began. A driver that runs the per-instruction loop itself —
/// for instance to release and reacquire a lock between instructions —
/// calls this at every boundary.
pub fn halt_check(session: &Session, steps: u64, breakpoints: &Vec<u32>) -> (r: Option<Mode>)
    ensures
        r == halt_reason(*session, steps, breakpoints@),
{
    if session.mode == Mode::Fault {
        Some(Mode::Fault)
    } else if session.interrupted {
        Some(Mode::Paused)
    } else if steps >= 1 && breakpoint_member(breakpoints, session.machine.pc) {
        Some(Mode::Breakpoint)
    } else {
        None
    }
}

/// Runs the session until it halts: repeatedly executes one instruction,
/// then checks the boundary — fault, raised interrupt flag, or (once at
/// least one instruction has run) a program counter in `breakpoints`.
/// Returns the halt frame and the number of instructions executed. Any
/// interrupt request still pending from before the call is consumed first,
/// so the run always starts fresh; a session already faulted returns its
/// frame untouched. As a safeguard against a breakpoint set that is never
/// reached, the controller raises the interrupt flag itself once the step
/// counter saturates, and suspends as paused.
pub fn resume<R: InstructionRunner>(
    runner: &mut R,
    session: &mut Session,
    breakpoints: &Vec<u32>,
) -> (r: (DebugFrame, u64))
    ensures
        r.0 == final(session).frame_spec(),
        r.0.mode is Breakpoint ==> breakpoints@.contains(r.0.pc) && r.1 >= 1,
        r.0.mode is Paused ==> final(session).interrupted,
        r.0.mode is Breakpoint || r.0.mode is Paused || r.0.mode is Fault,
        old(session).mode is Fault ==> *final(session) == *old(session) && r.1 == 0,
{
    if session.mode == Mode::Fault {
        return (session.frame(), 0);
    }
    session.interrupted = false;
    session.mode = Mode::Running;
    let mut steps: u64 = 0;
    loop
        invariant
            !(old(session).mode is Fault),
        decreases u64::MAX - steps,
    {
        if let Some(halt_mode) = halt_check(session, steps, breakpoints) {
            session.mode = halt_mode;
            return (session.frame(), steps);
        }
        match runner.cycle(session) {
            StepOutcome::Normal => {
                if steps < u64::MAX {
                    steps += 1;
                } else {
                    session.interrupted = true;
                    session.mode = Mode::Paused;
                    return (session.frame(), steps);
                }
            },
            StepOutcome::Fault => {
                session.mode = Mode::Fault;
                return (session.frame(), steps);
            },
        }
    }
}

/// Executes exactly one instruction with no breakpoint set and returns the
/// resulting frame immediately: ready again if the instruction completed,
/// faulted if it could not.
pub fn step<R: InstructionRunner>(runner: &mut R, session: &mut Session) -> (r: DebugFrame)
    ensures
        r == final(session).frame_spec(),
        final(session).mode is Ready || final(session).mode is Fault,
{
    let outcome = runner.cycle(session);
    session.mode = if outcome == StepOutcome::Normal {
        Mode::Ready
    } else {
        Mode::Fault
    };
    session.frame()
}

/// A minimal built-in backend: it treats every instruction as a four-byte
/// fall-through, faulting when the program counter points outside mapped
/// memory or would advance past the end of the address space. It executes
/// no real instruction set; it exists so the controller can be driven and
/// exercised without an external machine emulation.
pub struct StrideRunner {
    /// Instructions executed by this backend since it was created.
    pub executed: u64,
}

impl InstructionRunner for StrideRunner {
    fn cycle(&mut self, session: &mut Session) -> StepOutcome {
        let pc = session.machine.pc;
        if pc > u32::MAX - 4 {
            return StepOutcome::Fault;
        }
        let fetched = session.machine.memory.get(pc);
        if fetched.is_none() {
            return StepOutcome::Fault;
        }
        session.machine.pc = pc + 4;
        if self.executed < u64::MAX {
            self.executed += 1;
        }
        StepOutcome::Normal
    }
}

/// A breakpoint that execution reaches is never run past: once at least
/// one instruction has executed, a boundary whose program counter is a
/// member of the breakpoint set always halts the run.
pub proof fn lemma_reached_breakpoint_halts(session: Session, steps: u64, breakpoints: Seq<u32>)
    requires
        breakpoints.contains(session.machine.pc),
        steps >= 1,
    ensures
        halt_reason(session, steps, breakpoints) is Some,
{
}

/// Resuming makes forward progress: at the entry boundary, before any
/// instruction has executed, a breakpoint on the current program counter
/// does not halt the run, so at least one instruction always executes
/// before breakpoints are evaluated.
pub proof fn lemma_resume_entry_progress(session: Session, breakpoints: Seq<u32>)
    requires
        !(session.mode is Fault),
        !session.interrupted,
    ensures
        halt_reason(session, 0, breakpoints) is None,
{
}

/// A pause request is honored within one instruction: a boundary reached
/// with the interrupt flag raised never continues, whatever the breakpoint
/// set — the run suspends there (or reports the fault that stopped it).
pub proof fn lemma_pause_halts_at_boundary(session: Session, steps: u64, breakpoints: Seq<u32>)
    requires
        session.interrupted,
    ensures
        halt_reason(session, steps, breakpoints) matches Some(m) && (m is Paused || m is Fault),
{
}

} // verus!
