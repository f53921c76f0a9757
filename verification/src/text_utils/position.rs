//! Line and column positions.

use vstd::prelude::*;

use crate::protocol::LspPosition;
use crate::syntax::TsPoint;

verus! {

/// A zero-based line and column position.
#[derive(Debug, Default, Clone, Copy, PartialEq, Eq, Hash, Structural)]
pub struct Position {
    /// Zero-based line index.
    pub line: usize,
    /// Column offset within the line, in the units of the encoding in use.
    pub col: usize,
}

impl Position {
    /// Creates a position from a protocol position.
    pub fn from_lsp(position: LspPosition) -> (r: Self)
        ensures
            r.line == position.line,
            r.col == position.character,
    {
        Position { line: position.line as usize, col: position.character as usize }
    }

    /// Converts the position into a protocol position; lines and columns
    /// beyond `u32` keep their low 32 bits.
    pub fn into_lsp(self) -> (r: LspPosition)
        ensures
            r.line == self.line as u32,
            r.character == self.col as u32,
    {
        LspPosition { line: self.line as u32, character: self.col as u32 }
    }

    /// Creates a position from a tree-sitter point.
    pub fn from_ts(point: TsPoint) -> (r: Self)
        ensures
            r.line == point.row,
            r.col == point.column,
    {
        Position { line: point.row, col: point.column }
    }

    /// Converts the position into a tree-sitter point.
    pub fn into_ts(self) -> (r: TsPoint)
        ensures
            r.row == self.line,
            r.column == self.col,
    {
        TsPoint { row: self.line, column: self.col }
    }
}

/// A position converted to a protocol position and back is unchanged when
/// it fits in `u32`; one converted to a tree-sitter point and back is
/// always unchanged.
pub proof fn law_position_round_trips(position: Position, lsp: LspPosition)
    ensures
        position.line <= u32::MAX && position.col <= u32::MAX ==> (Position {
            line: (position.line as u32) as usize,
            col: (position.col as u32) as usize,
        }) == position,
        (LspPosition { line: (lsp.line as usize) as u32, character: (lsp.character as usize) as u32 })
            == lsp,
{
}

} // verus!
