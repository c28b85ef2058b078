//! Rendering one file's surviving traces into editor diagnostics: a marker
//! per uncovered line, spanning the line's trimmed content.

use vstd::prelude::*;

use crate::coverage::Trace;
use crate::coverage::TraceData;
use crate::events::Severity;
use crate::line_slice::LineSlice;
use crate::line_slice::lemma_line_slices_bounds;
use crate::line_slice::line_slices;

verus! {

/// One rendered diagnostic: a zero-based line and the column range of that
/// line's trimmed content. Severity, source tag and message are the same for
/// every diagnostic; see the fixed values below.
#[derive(Debug, Clone, Copy, PartialEq, Eq, Structural)]
pub struct Diagnostic {
    pub line: u32,
    pub begin_character: u32,
    pub end_character: u32,
}

/// The fixed severity of every coverage diagnostic.
pub fn diagnostic_severity() -> (r: Severity)
    ensures
        r == Severity::Warning,
{
    Severity::Warning
}

/// The fixed source tag on every coverage diagnostic.
pub fn diagnostic_source() -> (r: String)
    ensures
        r@ == "lsp-tarpaulin"@,
{
    "lsp-tarpaulin".to_owned()
}

/// The fixed message on every coverage diagnostic.
pub fn diagnostic_message() -> (r: String)
    ensures
        r@ == "not covered by tests"@,
{
    "not covered by tests".to_owned()
}

/// The 0-based line of a trace: its 1-based line, saturating at zero.
pub open spec fn zero_based_line(line: u32) -> int {
    if line == 0 {
        0
    } else {
        line - 1
    }
}

/// Whether a trace's line is uncovered: its hit count is zero.
pub open spec fn uncovered(t: TraceData) -> bool {
    t.stats.line == 0
}

/// The diagnostic for one uncovered trace, given the file's line records.
pub open spec fn diag_for(lines: Seq<LineSlice>, t: TraceData) -> Diagnostic {
    let ls = lines[zero_based_line(t.line)];
    Diagnostic {
        line: zero_based_line(t.line) as u32,
        begin_character: (ls.begin - ls.start) as u32,
        end_character: (ls.end - ls.start) as u32,
    }
}

/// The diagnostics owed for a trace list: one per uncovered trace, in trace
/// order.
pub open spec fn diags_spec(lines: Seq<LineSlice>, ts: Seq<TraceData>) -> Seq<Diagnostic>
    decreases ts.len(),
{
    if ts.len() == 0 {
        Seq::empty()
    } else {
        let rest = diags_spec(lines, ts.drop_last());
        if uncovered(ts.last()) {
            rest.push(diag_for(lines, ts.last()))
        } else {
            rest
        }
    }
}

/// Render the diagnostics for one file from its current content and the
/// traces that survived filtering: one warning per uncovered trace, spanning
/// the trimmed content of its line. Every uncovered trace must lie on a line
/// the content has.
pub fn build_diagnostics(content: &[u8], traces: &Vec<Trace>) -> (diags: Vec<Diagnostic>)
    requires
        content@.len() <= u32::MAX,
        forall|i: int|
            0 <= i < traces.deep_view().len() && uncovered(#[trigger] traces.deep_view()[i])
                ==> zero_based_line(traces.deep_view()[i].line) < line_slices(content@).len(),
    ensures
        diags@ == diags_spec(line_slices(content@), traces.deep_view()),
{
    proof {
        lemma_line_slices_bounds(content@);
    }
    let lines = LineSlice::build(content);
    let mut diags: Vec<Diagnostic> = Vec::new();
    let mut i: usize = 0;
    while i < traces.len()
        invariant
            i <= traces.len(),
            content@.len() <= u32::MAX,
            lines@ == line_slices(content@),
            forall|j: int|
                0 <= j < lines@.len() ==> {
                    let ls = #[trigger] lines@[j];
                    ls.start <= ls.begin && ls.begin <= ls.end && ls.end < content@.len()
                },
            forall|j: int|
                0 <= j < traces.deep_view().len() && uncovered(#[trigger] traces.deep_view()[j])
                    ==> zero_based_line(traces.deep_view()[j].line) < lines@.len(),
            diags@ == diags_spec(lines@, traces.deep_view().take(i as int)),
        decreases traces.len() - i,
    {
        proof {
            assert(traces.deep_view().take(i as int + 1).drop_last() =~= traces.deep_view().take(
                i as int,
            ));
            assert(traces.deep_view().take(i as int + 1).last() == traces.deep_view()[i as int]);
        }
        let trace = &traces[i];
        if trace.stats.line == 0 {
            let line_idx: u32 = if trace.line == 0 {
                0
            } else {
                trace.line - 1
            };
            let ls = lines[line_idx as usize];
            diags.push(
                Diagnostic {
                    line: line_idx,
                    begin_character: (ls.begin - ls.start) as u32,
                    end_character: (ls.end - ls.start) as u32,
                },
            );
        }
        i = i + 1;
    }
    proof {
        assert(traces.deep_view().take(traces@.len() as int) =~= traces.deep_view());
    }
    diags
}

} // verus!
