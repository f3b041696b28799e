//! Normalization of the disassembly renderer's result.
//!
//! The renderer itself — reading an executable image and producing one text
//! line per instruction plus a line-to-address breakpoint map — is an
//! external collaborator. This module owns the command's result shape: a
//! single record in which failure carries the reader's message and empty
//! contents, and success carries the rendered lines and the map with no
//! error.

use vstd::prelude::*;

verus! {

/// What a disassembly renders to: one text line per instruction and the
/// map from rendered line numbers to instruction addresses.
pub struct Rendering {
    /// The rendered instruction lines, in order.
    pub lines: Vec<String>,
    /// Pairs of rendered line number and the address of its instruction.
    pub breakpoints: Vec<(u32, u32)>,
}

/// The disassembly command's result: rendered lines and breakpoint map on
/// success, the reader's error message and empty contents on failure.
pub struct DisassembleOutcome {
    /// The image reader's error message, absent on success.
    pub error: Option<String>,
    /// The rendered instruction lines; empty on failure.
    pub lines: Vec<String>,
    /// Pairs of rendered line number and instruction address; empty on
    /// failure.
    pub breakpoints: Vec<(u32, u32)>,
}

/// Normalizes the renderer's result into the command's single record: a
/// failure keeps only its message, a success keeps only its contents.
pub fn disassemble_outcome(result: Result<Rendering, String>) -> (r: DisassembleOutcome)
    ensures
        result matches Ok(rendering) ==> (r.error is None && r.lines@ == rendering.lines@
            && r.breakpoints@ == rendering.breakpoints@),
        result matches Err(message) ==> (r.error == Some(message) && r.lines@.len() == 0
            && r.breakpoints@.len() == 0),
{
    match result {
        Ok(rendering) => DisassembleOutcome {
            error: None,
            lines: rendering.lines,
            breakpoints: rendering.breakpoints,
        },
        Err(message) => DisassembleOutcome {
            error: Some(message),
            lines: Vec::new(),
            breakpoints: Vec::new(),
        },
    }
}

} // verus!
