//! The assembler front: one discriminated outcome for both results of an
//! external assembler run.
//!
//! A successful assembly carries the program plus a mapping from source
//! line numbers to instruction addresses, used to translate line-based
//! breakpoints into address-based ones. A failure carries the assembler's
//! message; when the assembler reports a byte offset into the source, the
//! front translates it into a 1-based line number, the exact text of that
//! line, and a caret line pointing at the error column. A failure without
//! an offset is representable too: marker and excerpt are simply absent.

use vstd::prelude::*;

use crate::memory::Region;

verus! {

/// The number of newline bytes in `s`.
pub open spec fn newline_count(s: Seq<u8>) -> nat
    decreases s.len(),
{
    if s.len() == 0 {
        0
    } else {
        newline_count(s.drop_last()) + (if s.last() == 10u8 {
            1nat
        } else {
            0nat
        })
    }
}

/// The start of the line containing offset `off`: just past the last
/// newline before it, or the start of the text.
pub open spec fn line_start(s: Seq<u8>, off: int) -> int
    decreases off,
{
    if off <= 0 {
        0
    } else if s[off - 1] == 10u8 {
        off
    } else {
        line_start(s, off - 1)
    }
}

/// One past the last byte of the line containing `off`: the next newline
/// at or after `off`, or the end of the text.
pub open spec fn line_end(s: Seq<u8>, off: int) -> int
    decreases s.len() - off,
{
    if off >= s.len() {
        s.len() as int
    } else if s[off] == 10u8 {
        off
    } else {
        line_end(s, off + 1)
    }
}

/// The caret line for an error at byte column `column`: that many spaces
/// followed by a single caret.
pub open spec fn caret_spec(column: int) -> Seq<u8> {
    Seq::new(
        (column + 1) as nat,
        |i: int|
            if i < column {
                32u8
            } else {
                94u8
            },
    )
}

/// A marker pointing a client at the source line an error lies on.
///
/// Both fields deliberately report the same 1-based line number: consumers
/// of this interface treat `offset` as a duplicate line indicator, and the
/// error's column is conveyed by the excerpt's caret line instead.
pub struct LineMarker {
    /// 1-based source line number of the error.
    pub line: usize,
    /// The same 1-based line number, repeated.
    pub offset: usize,
}

/// The two-line diagnostic excerpt for a localized assembly error: the
/// offending source line, then a caret line pointing at the error column.
pub struct Excerpt {
    /// The exact bytes of the offending source line, without its newline.
    pub line_text: Vec<u8>,
    /// Spaces up to the error column, then a caret.
    pub caret: Vec<u8>,
}

/// An assembly failure as the external assembler reports it: a rendered
/// message and, when the error is localized, a byte offset into the source.
pub struct AssemblyFault {
    /// Byte offset of the error in the source text, if the assembler
    /// localized it.
    pub offset: Option<usize>,
    /// The assembler's rendered error message.
    pub message: String,
}

/// A successfully assembled program: its regions, its entry address, and
/// the mapping from source line numbers to instruction addresses.
pub struct AssembledProgram {
    /// The program's regions, each at its declared address.
    pub regions: Vec<Region>,
    /// Address of the first instruction to execute.
    pub entry: u32,
    /// Pairs of source line number and the code address its instruction
    /// was placed at, for translating line breakpoints to addresses.
    pub breakpoints: Vec<(u32, u32)>,
}

/// The discriminated result of an assembly: success with the breakpoint
/// mapping, or failure with a message and, when localized, marker and
/// excerpt.
pub enum AssemblerOutcome {
    /// The source assembled; carries the line-to-address breakpoint map.
    Success {
        /// Pairs of source line number and instruction address.
        breakpoints: Vec<(u32, u32)>,
    },
    /// The source did not assemble.
    Error {
        /// The error's line, when the assembler localized the error.
        marker: Option<LineMarker>,
        /// The assembler's rendered message.
        message: String,
        /// The offending line and its caret line, when localized.
        body: Option<Excerpt>,
    },
}

/// What the outcome built from a failure must hold: the message passed
/// through; marker and excerpt absent for a non-localized error, and for a
/// localized one the marker's line counting the newlines before the offset
/// and the excerpt quoting exactly the line the (clamped) offset falls on,
/// with the caret at its byte column.
pub open spec fn fault_outcome_ok(
    r: AssemblerOutcome,
    offset: Option<usize>,
    message: Seq<char>,
    src: Seq<u8>,
) -> bool {
    match r {
        AssemblerOutcome::Error { marker, message: m, body } => {
            &&& m@ == message
            &&& match offset {
                None => marker is None && body is None,
                Some(reported) => {
                    let off = if reported <= src.len() {
                        reported as int
                    } else {
                        src.len() as int
                    };
                    &&& marker matches Some(mk) && mk.line == newline_count(src.take(off)) + 1
                        && mk.offset == mk.line
                    &&& body matches Some(b) && b.line_text@ == src.subrange(
                        line_start(src, off),
                        line_end(src, off),
                    ) && b.caret@ == caret_spec(off - line_start(src, off))
                },
            }
        },
        AssemblerOutcome::Success { .. } => false,
    }
}

/// Scans the source once and returns, for the line containing `off`: its
/// 1-based number, its start, and one past its end.
fn locate_line(source: &Vec<u8>, off: usize) -> (r: (usize, usize, usize))
    requires
        off <= source@.len(),
        source@.len() < usize::MAX,
    ensures
        r.0 == newline_count(source@.take(off as int)) + 1,
        r.1 == line_start(source@, off as int),
        r.2 == line_end(source@, off as int),
        r.1 <= off,
        off <= r.2 <= source@.len(),
{
    let mut count: usize = 0;
    let mut start: usize = 0;
    let mut i: usize = 0;
    while i < off
        invariant
            off <= source@.len() < usize::MAX,
            i <= off,
            count == newline_count(source@.take(i as int)),
            count <= i,
            start == line_start(source@, i as int),
            start <= i,
        decreases off - i,
    {
        proof {
            assert(source@.take(i + 1).drop_last() =~= source@.take(i as int));
            assert(source@.take(i + 1).last() == source@[i as int]);
        }
        if source[i] == 10u8 {
            count += 1;
            start = i + 1;
        }
        i += 1;
    }
    let mut end: usize = off;
    while end < source.len() && source[end] != 10u8
        invariant
            off <= end <= source@.len(),
            line_end(source@, off as int) == line_end(source@, end as int),
        decreases source@.len() - end,
    {
        end += 1;
    }
    (count + 1, start, end)
}

/// Copies `source[start .. end]` into a fresh vector.
fn copy_range(source: &Vec<u8>, start: usize, end: usize) -> (r: Vec<u8>)
    requires
        start <= end <= source@.len(),
    ensures
        r@ == source@.subrange(start as int, end as int),
{
    let mut out: Vec<u8> = Vec::new();
    let mut j: usize = start;
    while j < end
        invariant
            start <= j <= end <= source@.len(),
            out@.len() == j - start,
            forall|k: int| 0 <= k < out@.len() ==> out@[k] == source@[start + k],
        decreases end - j,
    {
        out.push(source[j]);
        j += 1;
    }
    proof {
        assert(out@ =~= source@.subrange(start as int, end as int));
    }
    out
}

/// Builds the caret line for an error at byte column `column`.
fn caret_line(column: usize) -> (r: Vec<u8>)
    requires
        column < usize::MAX,
    ensures
        r@ == caret_spec(column as int),
{
    let mut out: Vec<u8> = Vec::new();
    let mut c: usize = 0;
    while c < column
        invariant
            c <= column,
            out@.len() == c,
            forall|k: int| 0 <= k < c ==> out@[k] == 32u8,
        decreases column - c,
    {
        out.push(32u8);
        c += 1;
    }
    out.push(94u8);
    proof {
        assert(out@ =~= caret_spec(column as int));
    }
    out
}

/// Normalizes an assembly failure into the discriminated outcome: the
/// message passes through; a reported byte offset (clamped to the end of
/// the source) becomes a line marker and the two-line excerpt, and a
/// failure without an offset carries neither.
pub fn fault_outcome(fault: AssemblyFault, source: &Vec<u8>) -> (r: AssemblerOutcome)
    requires
        source@.len() < usize::MAX,
    ensures
        fault_outcome_ok(r, fault.offset, fault.message@, source@),
{
    match fault.offset {
        None => AssemblerOutcome::Error { marker: None, message: fault.message, body: None },
        Some(reported) => {
            let off = if reported <= source.len() {
                reported
            } else {
                source.len()
            };
            let (line, start, end) = locate_line(source, off);
            let line_text = copy_range(source, start, end);
            let caret = caret_line(off - start);
            AssemblerOutcome::Error {
                marker: Some(LineMarker { line, offset: line }),
                message: fault.message,
                body: Some(Excerpt { line_text, caret }),
            }
        },
    }
}

/// Normalizes an assembly result, successful or not, into the
/// discriminated outcome: a success keeps its line-to-address breakpoint
/// map, a failure is rendered as [`fault_outcome`] describes.
pub fn outcome_from_result(
    result: Result<AssembledProgram, AssemblyFault>,
    source: &Vec<u8>,
) -> (r: AssemblerOutcome)
    requires
        source@.len() < usize::MAX,
    ensures
        result matches Ok(p) ==> (r matches AssemblerOutcome::Success { breakpoints }
            && breakpoints@ == p.breakpoints@),
        result matches Err(f) ==> fault_outcome_ok(r, f.offset, f.message@, source@),
{
    match result {
        Ok(program) => AssemblerOutcome::Success { breakpoints: program.breakpoints },
        Err(fault) => fault_outcome(fault, source),
    }
}

} // verus!
