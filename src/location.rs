use vstd::prelude::*;

verus! {

/// A position in source text: zero-based line and column.
#[derive(Copy, Clone, PartialEq, Eq, Debug, Default, Structural)]
pub struct Loc {
    pub line: usize,
    pub column: usize,
}

impl Loc {
    pub fn new(line: usize, column: usize) -> (r: Loc)
        ensures
            r.line == line,
            r.column == column,
    {
        Loc { line, column }
    }

    /// Moves one column to the right.
    pub fn advance(&mut self)
        requires
            old(self).column < usize::MAX,
        ensures
            final(self).line == old(self).line,
            final(self).column == old(self).column + 1,
    {
        self.column += 1;
    }

    /// Moves to the first column of the next line.
    pub fn new_line(&mut self)
        requires
            old(self).line < usize::MAX,
        ensures
            final(self).line == old(self).line + 1,
            final(self).column == 0,
    {
        self.line += 1;
        self.column = 0;
    }
}

impl From<(usize, usize)> for Loc {
    fn from(pair: (usize, usize)) -> (r: Loc) {
        Loc { line: pair.0, column: pair.1 }
    }
}

impl vstd::std_specs::convert::FromSpecImpl<(usize, usize)> for Loc {
    open spec fn obeys_from_spec() -> bool {
        true
    }

    open spec fn from_spec(pair: (usize, usize)) -> Loc {
        Loc { line: pair.0, column: pair.1 }
    }
}

} // verus!
