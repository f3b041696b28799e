use mips_debug_core::assembler::AssembledProgram;
use mips_debug_core::assembler::AssemblerOutcome;
use mips_debug_core::assembler::AssemblyFault;
use mips_debug_core::assembler::fault_outcome;
use mips_debug_core::memory::Region;
use mips_debug_core::session::SessionSlot;

fn fault(offset: Option<usize>, message: &str) -> AssemblyFault {
    AssemblyFault { offset, message: message.to_string() }
}

#[test]
fn localized_error_marks_line_and_quotes_it() {
    // An unknown mnemonic on line 3: the assembler reports the byte offset
    // of "bar", four bytes into that line.
    let source = b"li $t0, 1\nadd $t1, $t2\nfoo bar baz\nnop\n".to_vec();
    let offset = 10 + 13 + 4;
    let outcome = fault_outcome(fault(Some(offset), "unknown instruction"), &source);
    match outcome {
        AssemblerOutcome::Error { marker, message, body } => {
            let marker = marker.unwrap();
            assert_eq!(marker.line, 3);
            assert_eq!(marker.offset, 3);
            assert_eq!(message, "unknown instruction");
            let body = body.unwrap();
            assert_eq!(body.line_text, b"foo bar baz".to_vec());
            assert_eq!(body.caret, b"    ^".to_vec());
        }
        AssemblerOutcome::Success { .. } => panic!("expected an error outcome"),
    }
}

#[test]
fn error_at_offset_zero_marks_first_line() {
    let source = b"first\nsecond".to_vec();
    let outcome = fault_outcome(fault(Some(0), "bad start"), &source);
    match outcome {
        AssemblerOutcome::Error { marker, body, .. } => {
            let marker = marker.unwrap();
            assert_eq!(marker.line, 1);
            let body = body.unwrap();
            assert_eq!(body.line_text, b"first".to_vec());
            assert_eq!(body.caret, b"^".to_vec());
        }
        AssemblerOutcome::Success { .. } => panic!("expected an error outcome"),
    }
}

#[test]
fn error_offset_past_end_is_clamped_to_last_line() {
    let source = b"one\ntwo".to_vec();
    let outcome = fault_outcome(fault(Some(1000), "late"), &source);
    match outcome {
        AssemblerOutcome::Error { marker, body, .. } => {
            assert_eq!(marker.unwrap().line, 2);
            let body = body.unwrap();
            assert_eq!(body.line_text, b"two".to_vec());
            assert_eq!(body.caret, b"   ^".to_vec());
        }
        AssemblerOutcome::Success { .. } => panic!("expected an error outcome"),
    }
}

#[test]
fn non_localized_error_has_no_marker_or_body() {
    let source = b"anything".to_vec();
    let outcome = fault_outcome(fault(None, "out of memory"), &source);
    match outcome {
        AssemblerOutcome::Error { marker, message, body } => {
            assert!(marker.is_none());
            assert!(body.is_none());
            assert_eq!(message, "out of memory");
        }
        AssemblerOutcome::Success { .. } => panic!("expected an error outcome"),
    }
}

#[test]
fn configure_assembled_success_installs_session_and_echoes_breakpoints() {
    let mut slot = SessionSlot::new();
    let program = AssembledProgram {
        regions: vec![Region { start: 0x4000, data: vec![0; 16] }],
        entry: 0x4000,
        breakpoints: vec![(1, 0x4000), (2, 0x4004)],
    };
    let source = b"line one\nline two\n".to_vec();
    let outcome = slot.configure_assembled(Ok(program), &source);
    match outcome {
        AssemblerOutcome::Success { breakpoints } => {
            assert_eq!(breakpoints, vec![(1, 0x4000), (2, 0x4004)]);
        }
        AssemblerOutcome::Error { .. } => panic!("expected a success outcome"),
    }
    let frame = slot.pause().unwrap();
    assert_eq!(frame.pc, 0x4000);
}

#[test]
fn configure_assembled_failure_leaves_slot_unchanged() {
    let mut slot = SessionSlot::new();
    let ok = slot.configure_image(vec![Region { start: 0x1000, data: vec![7; 4] }], 0x1000);
    assert!(ok);
    let source = b"bad\n".to_vec();
    let outcome = slot.configure_assembled(Err(fault(Some(0), "nope")), &source);
    assert!(matches!(outcome, AssemblerOutcome::Error { .. }));
    // The previous session is still there, untouched.
    let frame = slot.pause().unwrap();
    assert_eq!(frame.pc, 0x1000);
    assert_eq!(slot.read_bytes(0x1000, 1).unwrap(), vec![Some(7)]);
}

#[test]
fn configure_assembled_overlapping_program_reports_error() {
    let mut slot = SessionSlot::new();
    let program = AssembledProgram {
        regions: vec![
            Region { start: 0x5000, data: vec![0; 8] },
            Region { start: 0x5004, data: vec![0; 8] },
        ],
        entry: 0x5000,
        breakpoints: vec![],
    };
    let source = b"x\n".to_vec();
    let outcome = slot.configure_assembled(Ok(program), &source);
    match outcome {
        AssemblerOutcome::Error { marker, body, .. } => {
            assert!(marker.is_none());
            assert!(body.is_none());
        }
        AssemblerOutcome::Success { .. } => panic!("expected an error outcome"),
    }
    assert!(slot.active.is_none());
}
