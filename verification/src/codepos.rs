//! Source positions: a line/column pair with an optional file name, attached
//! to every token for diagnostics.

use vstd::prelude::*;

verus! {

/// A position in the source text. Lines and columns are 1-based; a newline
/// resets the column to 1 and advances the line.
#[derive(Debug, Clone, PartialEq, Eq)]
pub struct Codepos {
    pub line: usize,
    pub col: usize,
    pub file: Option<String>,
}

impl Codepos {
    pub fn new(line: usize, col: usize, file: Option<String>) -> (r: Codepos)
        ensures
            r.line == line,
            r.col == col,
            r.file == file,
    {
        Codepos { line, col, file }
    }

    /// The starting position of a fresh source text: line 1, column 1, no file.
    pub fn zero() -> (r: Codepos)
        ensures
            r.line == 1,
            r.col == 1,
            r.file is None,
    {
        Codepos::new(1, 1, None)
    }
}

} // verus!
