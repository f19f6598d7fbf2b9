use vstd::prelude::*;

verus! {

/// A line and a column in a text, both counted from 1.
#[derive(Clone, Copy, Debug, PartialEq, Eq, Structural)]
pub struct Pos {
    pub line: usize,
    pub column: usize,
}

/// The number of newlines among the first `n` characters of `t`.
pub open spec fn newlines(t: Seq<char>, n: int) -> nat
    decreases n,
{
    if n <= 0 {
        0
    } else if t[n - 1] == '\n' {
        newlines(t, n - 1) + 1
    } else {
        newlines(t, n - 1)
    }
}

/// The number of characters between the last newline before `n` and `n`.
pub open spec fn line_offset(t: Seq<char>, n: int) -> nat
    decreases n,
{
    if n <= 0 {
        0
    } else if t[n - 1] == '\n' {
        0
    } else {
        line_offset(t, n - 1) + 1
    }
}

impl Pos {
    /// The line and column of the character at `offset` in `text`.
    pub fn find(text: &str, offset: usize) -> (r: Pos)
        requires
            offset <= text@.len(),
            offset < usize::MAX,
        ensures
            r.line == newlines(text@, offset as int) + 1,
            r.column == line_offset(text@, offset as int) + 1,
    {
        let mut line: usize = 1;
        let mut column: usize = 1;
        let mut i: usize = 0;
        while i < offset
            invariant
                offset <= text@.len(),
                offset < usize::MAX,
                i <= offset,
                line == newlines(text@, i as int) + 1,
                column == line_offset(text@, i as int) + 1,
                line <= i + 1,
                column <= i + 1,
            decreases offset - i,
        {
            if text.get_char(i) == '\n' {
                line = line + 1;
                column = 1;
            } else {
                column = column + 1;
            }
            i = i + 1;
        }
        Pos { line, column }
    }
}

} // verus!
