//! Where the lines of a text start, counted in characters.
use vstd::prelude::*;

use crate::Error;
use crate::outside::str_from_utf8;
use crate::text::chars_of;

verus! {

/// The offsets at which the lines of `text` start: 0, and the offset behind
/// every newline.
pub open spec fn line_starts(text: Seq<char>) -> Seq<int>
    decreases text.len(),
{
    if text.len() == 0 {
        seq![0int]
    } else if text.last() == '\n' {
        line_starts(text.drop_last()).push(text.len() as int)
    } else {
        line_starts(text.drop_last())
    }
}

/// Line starts begin at 0 and grow strictly.
pub open spec fn starts_wf(starts: Seq<int>) -> bool {
    &&& starts.len() > 0
    &&& starts[0] == 0
    &&& forall|i: int, j: int| 0 <= i < j < starts.len() ==> starts[i] < starts[j]
}

/// The offset behind the last character.
pub open spec fn eof(starts: Seq<int>, leftover: int) -> int {
    starts.last() + leftover
}

/// The line that holds `offset` and the column of `offset` in it: the line is
/// the last one that starts at or before `offset`.
pub open spec fn spec_offset_to_line(starts: Seq<int>, offset: int) -> (int, int)
    decreases starts.len(),
{
    if starts.len() <= 1 || starts.last() <= offset {
        (starts.len() - 1, offset - starts.last())
    } else {
        spec_offset_to_line(starts.drop_last(), offset)
    }
}

/// The offset of column `col` in line `line`, and the end of the text where
/// that lies behind it or where there is no such line.
pub open spec fn spec_line_to_offset(starts: Seq<int>, leftover: int, line: int, col: int) -> int {
    if 0 <= line < starts.len() && starts[line] + col <= eof(starts, leftover) {
        starts[line] + col
    } else {
        eof(starts, leftover)
    }
}

/// Whether column `col` of line `line` lies within the text: on a line that a
/// newline ends, before the start of the next one; on the last line, at most
/// at the end of the text.
pub open spec fn within_body(starts: Seq<int>, leftover: int, line: int, col: int) -> bool {
    &&& 0 <= line < starts.len()
    &&& 0 <= col
    &&& if line + 1 < starts.len() {
        starts[line] + col < starts[line + 1]
    } else {
        col <= leftover
    }
}

pub proof fn lemma_line_starts_wf(text: Seq<char>)
    ensures
        starts_wf(line_starts(text)),
        line_starts(text).last() <= text.len(),
    decreases text.len(),
{
    if text.len() > 0 {
        lemma_line_starts_wf(text.drop_last());
    }
}

/// What `spec_offset_to_line` returns is the one line that holds the offset.
pub proof fn lemma_offset_to_line(starts: Seq<int>, offset: int)
    requires
        starts_wf(starts),
        0 <= offset,
    ensures
        ({
            let (line, col) = spec_offset_to_line(starts, offset);
            &&& 0 <= line < starts.len()
            &&& starts[line] <= offset
            &&& line + 1 < starts.len() ==> offset < starts[line + 1]
            &&& col == offset - starts[line]
        }),
    decreases starts.len(),
{
    if starts.len() <= 1 || starts.last() <= offset {
    } else {
        lemma_offset_to_line(starts.drop_last(), offset);
    }
}

/// A line that starts at or before `offset`, with the next one behind it, is
/// the line of `offset`.
pub proof fn lemma_offset_to_line_unique(starts: Seq<int>, offset: int, line: int)
    requires
        starts_wf(starts),
        0 <= line < starts.len(),
        starts[line] <= offset,
        line + 1 < starts.len() ==> offset < starts[line + 1],
    ensures
        spec_offset_to_line(starts, offset) == (line, offset - starts[line]),
    decreases starts.len(),
{
    if starts.len() <= 1 || starts.last() <= offset {
        if line + 1 < starts.len() {
            assert(starts[line + 1] <= starts.last());
        }
    } else {
        lemma_offset_to_line_unique(starts.drop_last(), offset, line);
    }
}

/// Going from a line and column within the text to the offset and back gives
/// the same line and column.
pub proof fn lemma_offset_line_round_trip(starts: Seq<int>, leftover: int, line: int, col: int)
    requires
        starts_wf(starts),
        0 <= leftover,
        within_body(starts, leftover, line, col),
    ensures
        spec_offset_to_line(starts, spec_line_to_offset(starts, leftover, line, col)) == (
            line,
            col,
        ),
{
    if line + 1 < starts.len() {
        assert(starts[line + 1] <= starts.last());
    }
    lemma_offset_to_line_unique(starts, starts[line] + col, line);
}

/// Outside the text `spec_line_to_offset` gives the end of the text, and it
/// never gives more.
pub proof fn lemma_line_to_offset_clamps(starts: Seq<int>, leftover: int, line: int, col: int)
    requires
        starts_wf(starts),
        0 <= leftover,
        0 <= col,
    ensures
        spec_line_to_offset(starts, leftover, line, col) <= eof(starts, leftover),
        !(0 <= line < starts.len()) ==> spec_line_to_offset(starts, leftover, line, col) == eof(
            starts,
            leftover,
        ),
        0 <= line < starts.len() ==> spec_line_to_offset(starts, leftover, line, col) == if starts[line]
            + col <= eof(starts, leftover) {
            starts[line] + col
        } else {
            eof(starts, leftover)
        },
{
}

/// The line starts of a text and the number of characters behind the last
/// newline.
#[derive(Debug)]
pub struct NlOffsets {
    nl: Vec<u64>,
    leftover: u64,
}

impl NlOffsets {
    #[verifier::type_invariant]
    spec fn inv(self) -> bool {
        &&& starts_wf(self.starts())
        &&& self.starts().last() + self.leftover <= u64::MAX
    }

    /// The offsets at which the lines start.
    pub closed spec fn starts(self) -> Seq<int> {
        self.nl@.map_values(|o: u64| o as int)
    }

    /// The number of characters behind the last newline.
    pub closed spec fn tail(self) -> int {
        self.leftover as int
    }

    /// The index of the text that `bytes` encode in UTF-8. Bytes that are
    /// not UTF-8 are refused.
    pub fn new(bytes: &[u8]) -> (r: Result<NlOffsets, Error>)
        ensures
            match r {
                Ok(n) => {
                    let text = vstd::utf8::decode_utf8(bytes@);
                    &&& vstd::utf8::valid_utf8(bytes@)
                    &&& n.starts() == line_starts(text)
                    &&& n.tail() == text.len() - line_starts(text).last()
                },
                Err(e) => e == Error::Utf8 && !vstd::utf8::valid_utf8(bytes@),
            },
    {
        match str_from_utf8(bytes) {
            Some(text) => Ok(NlOffsets::of_text(text)),
            None => Err(Error::Utf8),
        }
    }

    /// The index of `text`: its line starts and what is left behind the last
    /// newline.
    pub fn of_text(text: &str) -> (n: NlOffsets)
        ensures
            n.starts() == line_starts(text@),
            n.tail() == text@.len() - line_starts(text@).last(),
    {
        let v = chars_of(text);
        let mut nl: Vec<u64> = Vec::new();
        nl.push(0);
        let mut i: usize = 0;
        let mut last: usize = 0;
        assert(v@.take(0) == Seq::<char>::empty());
        assert(nl@.map_values(|o: u64| o as int) == seq![0int]);
        while i < v.len()
            invariant
                i <= v.len(),
                last <= i,
                v@ == text@,
                nl@.map_values(|o: u64| o as int) == line_starts(v@.take(i as int)),
                last == line_starts(v@.take(i as int)).last(),
            decreases v.len() - i,
        {
            proof {
                assert(v@.take(i + 1).drop_last() == v@.take(i as int));
                lemma_line_starts_wf(v@.take(i as int));
            }
            if v[i] == '\n' {
                nl.push((i + 1) as u64);
                last = i + 1;
                assert(nl@.map_values(|o: u64| o as int) == line_starts(v@.take(i as int)).push(
                    i + 1,
                ));
            }
            i += 1;
        }
        proof {
            assert(v@.take(v.len() as int) == v@);
            lemma_line_starts_wf(v@);
        }
        NlOffsets { nl, leftover: (v.len() - last) as u64 }
    }

    /// The line and the column of `offset`.
    pub fn offset_to_line(&self, offset: u64) -> (r: (u64, u64))
        ensures
            (r.0 as int, r.1 as int) == spec_offset_to_line(self.starts(), offset as int),
    {
        proof {
            use_type_invariant(self);
        }
        let mut i: usize = self.nl.len() - 1;
        proof {
            assert(self.starts().take(i + 1) == self.starts());
        }
        while i > 0 && self.nl[i] > offset
            invariant
                i < self.nl.len(),
                starts_wf(self.starts()),
                spec_offset_to_line(self.starts(), offset as int) == spec_offset_to_line(
                    self.starts().take(i + 1),
                    offset as int,
                ),
            decreases i,
        {
            proof {
                assert(self.starts().take(i + 1).drop_last() == self.starts().take(i as int));
            }
            i -= 1;
        }
        proof {
            assert(self.starts().take(i + 1).last() == self.nl@[i as int]);
        }
        (i as u64, offset - self.nl[i])
    }

    /// The offset of column `col` of line `line`, at most the end of the
    /// text.
    pub fn line_to_offset(&self, line: u64, col: u64) -> (o: u64)
        ensures
            o as int == spec_line_to_offset(self.starts(), self.tail(), line as int, col as int),
    {
        proof {
            use_type_invariant(self);
        }
        let eof: u64 = self.nl[self.nl.len() - 1] + self.leftover;
        if line >= self.nl.len() as u64 {
            return eof;
        }
        let start: u64 = self.nl[line as usize];
        proof {
            assert(self.starts()[line as int] == start);
            assert(self.starts().last() == self.nl@[self.nl.len() - 1]);
            if line + 1 < self.nl.len() {
                assert(self.starts()[line as int] < self.starts()[self.nl.len() - 1]);
            }
        }
        if col > eof - start {
            eof
        } else {
            start + col
        }
    }

    /// The line and the column of the end of the text.
    pub fn last(&self) -> (r: (u64, u64))
        ensures
            r.0 as int == self.starts().len() - 1,
            r.1 as int == self.tail(),
    {
        proof {
            use_type_invariant(self);
        }
        ((self.nl.len() - 1) as u64, self.leftover)
    }
}

} // verus!
