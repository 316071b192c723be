//! A document as characters, with the byte offset and line/column of every
//! character position computed once.

use vstd::prelude::*;
use crate::text::{byte_offset, char_width};
use crate::{LineCol, Span};

verus! {

/// Number of `\n` among the first `i` characters.
pub open spec fn newlines_before(cs: Seq<char>, i: int) -> nat
    decreases i,
{
    if i <= 0 || i > cs.len() {
        0
    } else {
        newlines_before(cs, i - 1) + if cs[i - 1] == '\n' { 1nat } else { 0nat }
    }
}

/// Index of the first character of the line that holds position `i`: just
/// after the nearest `\n` before `i`, or 0.
pub open spec fn line_start(cs: Seq<char>, i: int) -> int
    decreases i,
{
    if i <= 0 || i > cs.len() {
        0
    } else if cs[i - 1] == '\n' {
        i
    } else {
        line_start(cs, i - 1)
    }
}

/// The 1-based line and column of character position `i`: the line counts the
/// newlines before it, the column counts bytes from the start of its line.
pub open spec fn line_col_at(cs: Seq<char>, i: int) -> LineCol {
    LineCol {
        line: (newlines_before(cs, i) + 1) as usize,
        col: (byte_offset(cs, i) - byte_offset(cs, line_start(cs, i)) + 1) as usize,
    }
}

/// `span` starts at a character position of `cs` whose line and column are
/// `position`.
pub open spec fn located(cs: Seq<char>, span: Span, position: LineCol) -> bool {
    exists|i: int|
        0 <= i <= cs.len() && #[trigger] byte_offset(cs, i) == span.start && position
            == line_col_at(cs, i)
}

/// The largest document this library takes, in characters: every byte offset
/// then fits in a `usize`.
pub const MAX_CHARS: usize = usize::MAX / 8;

pub proof fn lemma_byte_offset_mono(cs: Seq<char>, i: int, j: int)
    requires
        0 <= i <= j <= cs.len(),
    ensures
        byte_offset(cs, i) + (j - i) <= byte_offset(cs, j) <= byte_offset(cs, i) + 4 * (j - i),
    decreases j - i,
{
    if i < j {
        lemma_byte_offset_mono(cs, i, j - 1);
    }
}

/// Byte offsets grow strictly with character positions, so a span's start
/// names one character position.
pub proof fn lemma_start_index(cs: Seq<char>, span: Span, i: int)
    requires
        0 <= i <= cs.len(),
        byte_offset(cs, i) == span.start,
    ensures
        crate::start_index(cs, span) == i,
{
    let j = crate::start_index(cs, span);
    assert(0 <= j <= cs.len() && byte_offset(cs, j) == span.start);
    if j < i {
        lemma_byte_offset_mono(cs, j, i);
    } else if i < j {
        lemma_byte_offset_mono(cs, i, j);
    }
}

pub proof fn lemma_line_start_le(cs: Seq<char>, i: int)
    requires
        0 <= i <= cs.len(),
    ensures
        0 <= line_start(cs, i) <= i,
    decreases i,
{
    if i > 0 {
        lemma_line_start_le(cs, i - 1);
    }
}

pub struct Source {
    pub cs: Vec<char>,
    pub bytes: Vec<usize>,
    pub lines: Vec<usize>,
    pub cols: Vec<usize>,
}

impl Source {
    pub open spec fn wf(&self) -> bool {
        &&& self.cs@.len() <= MAX_CHARS
        &&& self.bytes@.len() == self.cs@.len() + 1
        &&& self.lines@.len() == self.cs@.len() + 1
        &&& self.cols@.len() == self.cs@.len() + 1
        &&& forall|i: int|
            0 <= i <= self.cs@.len() ==> #[trigger] self.bytes@[i] == byte_offset(self.cs@, i)
        &&& forall|i: int|
            0 <= i <= self.cs@.len() ==> #[trigger] self.lines@[i] == line_col_at(self.cs@, i).line
                && self.cols@[i] == line_col_at(self.cs@, i).col
    }

    pub fn new(cs: Vec<char>) -> (r: Source)
        requires
            cs@.len() <= MAX_CHARS,
        ensures
            r.wf(),
            r.cs@ == cs@,
    {
        let n = cs.len();
        let mut bytes: Vec<usize> = Vec::new();
        let mut lines: Vec<usize> = Vec::new();
        let mut cols: Vec<usize> = Vec::new();
        let mut b: usize = 0;
        let mut line: usize = 1;
        let mut begin: usize = 0;
        let mut i: usize = 0;
        proof {
            lemma_byte_offset_mono(cs@, 0, n as int);
        }
        while i < n
            invariant
                n == cs@.len(),
                n <= MAX_CHARS,
                i <= n,
                bytes@.len() == i,
                lines@.len() == i,
                cols@.len() == i,
                b == byte_offset(cs@, i as int),
                line == newlines_before(cs@, i as int) + 1,
                begin == byte_offset(cs@, line_start(cs@, i as int)),
                forall|k: int| 0 <= k < i ==> #[trigger] bytes@[k] == byte_offset(cs@, k),
                forall|k: int|
                    0 <= k < i ==> #[trigger] lines@[k] == line_col_at(cs@, k).line && cols@[k]
                        == line_col_at(cs@, k).col,
            decreases n - i,
        {
            proof {
                lemma_byte_offset_mono(cs@, 0, i as int);
                lemma_line_start_le(cs@, i as int);
                lemma_byte_offset_mono(cs@, line_start(cs@, i as int), i as int);
                lemma_byte_offset_mono(cs@, 0, line_start(cs@, i as int));
                assert(newlines_before(cs@, i as int) <= i) by {
                    lemma_newlines_le(cs@, i as int);
                }
            }
            bytes.push(b);
            lines.push(line);
            cols.push(b - begin + 1);
            let c = cs[i];
            proof {
                lemma_byte_offset_mono(cs@, 0, i + 1);
            }
            b = b + char_width(c);
            if c == '\n' {
                line = line + 1;
                begin = b;
            }
            i = i + 1;
        }
        proof {
            lemma_line_start_le(cs@, i as int);
            lemma_byte_offset_mono(cs@, line_start(cs@, i as int), i as int);
            lemma_newlines_le(cs@, i as int);
        }
        bytes.push(b);
        lines.push(line);
        cols.push(b - begin + 1);
        Source { cs, bytes, lines, cols }
    }

    /// The byte offset of character position `i`.
    pub fn byte_at(&self, i: usize) -> (r: usize)
        requires
            self.wf(),
            i <= self.cs@.len(),
        ensures
            r == byte_offset(self.cs@, i as int),
    {
        self.bytes[i]
    }

    /// Line and column of character position `i`.
    pub fn position(&self, i: usize) -> (r: LineCol)
        requires
            self.wf(),
            i <= self.cs@.len(),
        ensures
            r == line_col_at(self.cs@, i as int),
    {
        let r = LineCol { line: self.lines[i], col: self.cols[i] };
        assert(r == line_col_at(self.cs@, i as int));
        r
    }

    /// The span from character position `a` to `b`, and where it starts.
    pub fn locate(&self, a: usize, b: usize) -> (r: (Span, LineCol))
        requires
            self.wf(),
            a <= b <= self.cs@.len(),
        ensures
            located(self.cs@, r.0, r.1),
            r.0.start == byte_offset(self.cs@, a as int),
            r.0.end == byte_offset(self.cs@, b as int),
            crate::start_index(self.cs@, r.0) == a,
    {
        let span = Span { start: self.byte_at(a), end: self.byte_at(b) };
        let p = self.position(a);
        assert(byte_offset(self.cs@, a as int) == span.start);
        proof {
            lemma_start_index(self.cs@, span, a as int);
        }
        (span, p)
    }
}

pub proof fn lemma_newlines_le(cs: Seq<char>, i: int)
    requires
        0 <= i <= cs.len(),
    ensures
        newlines_before(cs, i) <= i,
    decreases i,
{
    if i > 0 {
        lemma_newlines_le(cs, i - 1);
    }
}

} // verus!
