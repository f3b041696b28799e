use mips_debug_core::controller::halt_check;
use mips_debug_core::controller::InstructionRunner;
use mips_debug_core::controller::StepOutcome;
use mips_debug_core::controller::StrideRunner;
use mips_debug_core::frame::Mode;
use mips_debug_core::memory::Region;
use mips_debug_core::session::Session;
use mips_debug_core::session::SessionSlot;

/// A scripted backend for driving the controller: each cycle advances the
/// program counter by four; it can raise the session's interrupt flag at a
/// chosen cycle (standing in for a concurrent pause request surfacing at
/// an instruction boundary) or fault at a chosen cycle.
struct ScriptedRunner {
    cycles: u64,
    interrupt_at: Option<u64>,
    fault_at: Option<u64>,
    wrap_to: Option<(u32, u32)>,
}

impl ScriptedRunner {
    fn plain() -> ScriptedRunner {
        ScriptedRunner { cycles: 0, interrupt_at: None, fault_at: None, wrap_to: None }
    }
}

impl InstructionRunner for ScriptedRunner {
    fn cycle(&mut self, session: &mut Session) -> StepOutcome {
        self.cycles += 1;
        if Some(self.cycles) == self.fault_at {
            return StepOutcome::Fault;
        }
        if Some(self.cycles) == self.interrupt_at {
            session.interrupted = true;
        }
        let pc = session.machine.pc;
        session.machine.pc = match self.wrap_to {
            Some((at, target)) if pc == at => target,
            _ => pc.wrapping_add(4),
        };
        StepOutcome::Normal
    }
}

fn slot_with_entry(entry: u32) -> SessionSlot {
    let mut slot = SessionSlot::new();
    let ok = slot.configure_image(vec![Region { start: entry, data: vec![0; 32] }], entry);
    assert!(ok);
    slot
}

#[test]
fn resume_halts_on_breakpoint_member() {
    let mut slot = slot_with_entry(0x1000);
    let mut runner = ScriptedRunner::plain();
    let (frame, steps) = slot.resume(&mut runner, &vec![0x1008, 0x2000]).unwrap();
    assert_eq!(frame.mode, Mode::Breakpoint);
    assert_eq!(frame.pc, 0x1008);
    assert_eq!(steps, 2);
    assert_eq!(runner.cycles, 2);
}

#[test]
fn resume_on_breakpoint_makes_forward_progress() {
    // The entry itself is a breakpoint: the run must execute at least one
    // instruction before evaluating membership, and so halts at the next
    // breakpoint instead of re-triggering immediately.
    let mut slot = slot_with_entry(0x1000);
    let mut runner = ScriptedRunner::plain();
    let (frame, steps) = slot.resume(&mut runner, &vec![0x1000, 0x1008]).unwrap();
    assert_eq!(frame.mode, Mode::Breakpoint);
    assert_eq!(frame.pc, 0x1008);
    assert!(steps >= 1);
    assert_eq!(steps, 2);
}

#[test]
fn resume_on_breakpoint_can_loop_back_to_it() {
    // A program that jumps back to the entry: the breakpoint at the entry
    // triggers again only after real execution.
    let mut slot = slot_with_entry(0x1000);
    let mut runner = ScriptedRunner {
        cycles: 0,
        interrupt_at: None,
        fault_at: None,
        wrap_to: Some((0x100C, 0x1000)),
    };
    let (frame, steps) = slot.resume(&mut runner, &vec![0x1000]).unwrap();
    assert_eq!(frame.mode, Mode::Breakpoint);
    assert_eq!(frame.pc, 0x1000);
    assert_eq!(steps, 4);
}

#[test]
fn resume_honors_interrupt_at_next_boundary() {
    let mut slot = slot_with_entry(0x1000);
    let mut runner = ScriptedRunner {
        cycles: 0,
        interrupt_at: Some(3),
        fault_at: None,
        wrap_to: None,
    };
    let (frame, steps) = slot.resume(&mut runner, &vec![]).unwrap();
    assert_eq!(frame.mode, Mode::Paused);
    // The flag was raised during the third cycle and honored at the very
    // next boundary: exactly three instructions executed.
    assert_eq!(steps, 3);
    assert_eq!(frame.pc, 0x1000 + 12);
}

#[test]
fn resume_halts_on_fault() {
    let mut slot = slot_with_entry(0x1000);
    let mut runner = ScriptedRunner {
        cycles: 0,
        interrupt_at: None,
        fault_at: Some(2),
        wrap_to: None,
    };
    let (frame, steps) = slot.resume(&mut runner, &vec![0x9999_0000]).unwrap();
    assert_eq!(frame.mode, Mode::Fault);
    assert_eq!(steps, 1);
}

#[test]
fn pause_before_resume_is_consumed() {
    let mut slot = slot_with_entry(0x1000);
    let paused = slot.pause().unwrap();
    assert_eq!(paused.mode, Mode::Ready);
    let mut runner = ScriptedRunner::plain();
    let (frame, steps) = slot.resume(&mut runner, &vec![0x1004]).unwrap();
    assert_eq!(frame.mode, Mode::Breakpoint);
    assert_eq!(frame.pc, 0x1004);
    assert_eq!(steps, 1);
}

#[test]
fn step_executes_one_instruction() {
    let mut slot = slot_with_entry(0x1000);
    let mut runner = ScriptedRunner::plain();
    let frame = slot.step(&mut runner).unwrap();
    assert_eq!(frame.mode, Mode::Ready);
    assert_eq!(frame.pc, 0x1004);
    assert_eq!(runner.cycles, 1);
}

#[test]
fn resume_without_session_reports_absence() {
    let mut slot = SessionSlot::new();
    let mut runner = ScriptedRunner::plain();
    assert!(slot.resume(&mut runner, &vec![0x1000]).is_none());
    assert!(slot.step(&mut runner).is_none());
}

#[test]
fn stride_runner_walks_code_and_faults_off_the_end() {
    let mut slot = SessionSlot::new();
    let ok = slot.configure_image(vec![Region { start: 0x1000, data: vec![0; 8] }], 0x1000);
    assert!(ok);
    let mut runner = StrideRunner { executed: 0 };
    let frame = slot.step(&mut runner).unwrap();
    assert_eq!(frame.mode, Mode::Ready);
    assert_eq!(frame.pc, 0x1004);
    let frame = slot.step(&mut runner).unwrap();
    assert_eq!(frame.pc, 0x1008);
    // 0x1008 is unmapped: the fetch fails and the machine faults.
    let frame = slot.step(&mut runner).unwrap();
    assert_eq!(frame.mode, Mode::Fault);
    assert_eq!(frame.pc, 0x1008);
    assert_eq!(runner.executed, 2);
}

#[test]
fn stride_runner_resume_halts_at_breakpoint() {
    let mut slot = SessionSlot::new();
    let ok = slot.configure_image(vec![Region { start: 0x1000, data: vec![0; 64] }], 0x1000);
    assert!(ok);
    let mut runner = StrideRunner { executed: 0 };
    let (frame, steps) = slot.resume(&mut runner, &vec![0x1010]).unwrap();
    assert_eq!(frame.mode, Mode::Breakpoint);
    assert_eq!(frame.pc, 0x1010);
    assert_eq!(steps, 4);
}

#[test]
fn configure_replaces_session_with_fresh_state() {
    let mut slot = slot_with_entry(0x1000);
    slot.set_register(3, 999);
    slot.set_register(33, 123);
    let mut runner = ScriptedRunner::plain();
    let _ = slot.step(&mut runner);
    let ok = slot.configure_image(vec![Region { start: 0x2000, data: vec![0; 16] }], 0x2000);
    assert!(ok);
    let frame = slot.pause().unwrap();
    assert_eq!(frame.pc, 0x2000);
    assert_eq!(frame.registers, [0u32; 32]);
    assert_eq!(frame.lo, 0);
    assert_eq!(frame.hi, 0);
}

#[test]
fn halt_check_ignores_breakpoints_before_any_step() {
    let slot = slot_with_entry(0x1000);
    let session = slot.active.as_ref().unwrap();
    assert_eq!(halt_check(session, 0, &vec![0x1000]), None);
    assert_eq!(halt_check(session, 1, &vec![0x1000]), Some(Mode::Breakpoint));
    assert_eq!(halt_check(session, 1, &vec![0x2000]), None);
}

#[test]
fn halt_check_honors_interrupt_whatever_the_breakpoints() {
    let mut slot = slot_with_entry(0x1000);
    slot.pause();
    let session = slot.active.as_ref().unwrap();
    assert_eq!(halt_check(session, 0, &vec![]), Some(Mode::Paused));
    assert_eq!(halt_check(session, 5, &vec![0x1000]), Some(Mode::Paused));
}

#[test]
fn resume_of_faulted_session_returns_its_frame_untouched() {
    let mut slot = slot_with_entry(0x1000);
    let mut runner = ScriptedRunner {
        cycles: 0,
        interrupt_at: None,
        fault_at: Some(1),
        wrap_to: None,
    };
    let (frame, steps) = slot.resume(&mut runner, &vec![]).unwrap();
    assert_eq!(frame.mode, Mode::Fault);
    assert_eq!(steps, 0);
    let (frame, steps) = slot.resume(&mut runner, &vec![0x1000]).unwrap();
    assert_eq!(frame.mode, Mode::Fault);
    assert_eq!(frame.pc, 0x1000);
    assert_eq!(steps, 0);
    assert_eq!(runner.cycles, 1);
}
