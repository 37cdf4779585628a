//! The protocol values the library produces: positions, ranges, edits,
//! diagnostics and code actions.

use vstd::prelude::*;

verus! {

/// A zero-based line / character position.
#[derive(Debug, Clone, Copy, PartialEq, Eq, Structural)]
pub struct Position {
    pub line: u32,
    pub character: u32,
}

/// A range between two positions.
#[derive(Debug, Clone, Copy, PartialEq, Eq, Structural)]
pub struct Range {
    pub start: Position,
    pub end: Position,
}

#[derive(Debug, Clone, Copy, PartialEq, Eq, Structural)]
pub enum DiagnosticSeverity {
    Error,
    Warning,
    Information,
    Hint,
}

/// A diagnostic message attached to a range.
#[derive(Debug, Clone)]
pub struct Diagnostic {
    pub range: Range,
    pub severity: Option<DiagnosticSeverity>,
    pub message: String,
    pub source: Option<String>,
    /// Machine-readable code of the kind of diagnostic, where it has one.
    pub code: Option<String>,
}

/// Replace the text of `range` by `new_text`.
#[derive(Debug, Clone)]
pub struct TextEdit {
    pub range: Range,
    pub new_text: String,
}

/// A quick-fix code action: edits to one document.
#[derive(Debug, Clone)]
pub struct CodeAction {
    pub title: String,
    /// The document the edits apply to.
    pub uri: String,
    pub edits: Vec<TextEdit>,
    pub is_preferred: bool,
}

pub open spec fn pos(line: int, character: int) -> Position {
    Position { line: line as u32, character: character as u32 }
}

pub open spec fn rng(sl: int, sc: int, el: int, ec: int) -> Range {
    Range { start: pos(sl, sc), end: pos(el, ec) }
}

pub fn position(line: u32, character: u32) -> (p: Position)
    ensures
        p.line == line && p.character == character,
{
    Position { line, character }
}

/// An empty range at `p`.
pub fn point_range(p: Position) -> (r: Range)
    ensures
        r.start == p && r.end == p,
{
    Range { start: p, end: p }
}

} // verus!
