//! Plain-value models of the Language Server Protocol position types.

use vstd::prelude::*;

verus! {

/// A zero-based line and character offset, as the protocol exchanges it.
#[derive(Debug, Clone, Copy, Default, PartialEq, Eq, Structural)]
pub struct LspPosition {
    /// Zero-based line index.
    pub line: u32,
    /// Character offset within the line, in the negotiated encoding.
    pub character: u32,
}

/// A protocol range: `start` inclusive, `end` exclusive.
#[derive(Debug, Clone, Copy, Default, PartialEq, Eq, Structural)]
pub struct LspRange {
    pub start: LspPosition,
    pub end: LspPosition,
}

/// The protocol's position order: by line, then by character.
pub open spec fn lsp_position_le(a: LspPosition, b: LspPosition) -> bool {
    a.line < b.line || (a.line == b.line && a.character <= b.character)
}

/// Compares two positions by line, then by character.
pub fn lsp_position_le_exec(a: LspPosition, b: LspPosition) -> (r: bool)
    ensures
        r == lsp_position_le(a, b),
{
    a.line < b.line || (a.line == b.line && a.character <= b.character)
}

} // verus!
