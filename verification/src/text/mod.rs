//! Source text and the arithmetic of offsets into it.

use crate::text::offsets::{
    byte_len, byte_length, byte_offset, char_width, characters, find_position,
    lemma_byte_offset_before_end, lemma_byte_offset_ends, lemma_byte_offset_step,
    lemma_position_at, position_at,
};
use vstd::prelude::*;
use vstd::string::*;

pub mod decimal;
pub mod offsets;

verus! {

/// Number of line feeds in `s`.
pub open spec fn line_feeds(s: Seq<char>) -> nat {
    s.filter(|c: char| c == '\n').len()
}

/// Index of the line on which byte `offset` of `s` lies: the number of line
/// feeds that start before the offset.
pub open spec fn line_index_of(s: Seq<char>, offset: int) -> nat {
    line_feeds(s.take(position_at(s, 0, offset)))
}

/// The first position at or after `from` that has `index` line feeds before
/// it; the length of `s` where the text has fewer.
pub open spec fn line_start_position(s: Seq<char>, from: int, index: int) -> int
    decreases s.len() - from,
{
    if 0 <= from < s.len() && line_feeds(s.take(from)) < index {
        line_start_position(s, from + 1, index)
    } else {
        from
    }
}

/// The first position at or after `from` that holds a line feed; the length
/// of `s` where none follows.
pub open spec fn line_end_position(s: Seq<char>, from: int) -> int
    decreases s.len() - from,
{
    if 0 <= from < s.len() && s[from] != '\n' {
        line_end_position(s, from + 1)
    } else {
        from
    }
}

/// Byte offset at which line number `index` of `s` starts.
pub open spec fn line_start_of(s: Seq<char>, index: int) -> nat {
    byte_offset(s, line_start_position(s, 0, index))
}

/// The text of line number `index` of `s`, without its line feed.
pub open spec fn line_of(s: Seq<char>, index: int) -> Seq<char> {
    let start = line_start_position(s, 0, index);
    s.subrange(start, line_end_position(s, start))
}

/// The column of byte `offset`: its distance in bytes from the start of the
/// line on which it lies.
pub open spec fn column_of(s: Seq<char>, offset: int) -> int {
    offset - line_start_of(s, line_index_of(s, offset) as int)
}

/// One more character adds one line feed or none.
pub proof fn lemma_line_feeds_step(s: Seq<char>, i: int)
    requires
        0 <= i < s.len(),
    ensures
        line_feeds(s.take(i + 1)) == line_feeds(s.take(i)) + if s[i] == '\n' {
            1nat
        } else {
            0nat
        },
{
    reveal(Seq::filter);
    assert(s.take(i + 1).drop_last() == s.take(i));
}

/// A text without line feeds has none in any prefix.
pub proof fn lemma_line_feeds_none(s: Seq<char>)
    requires
        forall|k: int| 0 <= k < s.len() ==> s[k] != '\n',
    ensures
        line_feeds(s) == 0,
    decreases s.len(),
{
    reveal(Seq::filter);
    if s.len() > 0 {
        lemma_line_feeds_none(s.drop_last());
    }
}

/// `line_start_position` lies between `from` and the end of the text; every
/// position before it has fewer than `index` line feeds before it, and it
/// has not.
pub proof fn lemma_line_start_position(s: Seq<char>, from: int, index: int)
    requires
        0 <= from <= s.len(),
    ensures
        from <= line_start_position(s, from, index) <= s.len(),
        forall|i: int|
            from <= i < line_start_position(s, from, index) ==> #[trigger] line_feeds(s.take(i))
                < index,
        line_start_position(s, from, index) < s.len() ==> line_feeds(
            s.take(line_start_position(s, from, index)),
        ) >= index,
    decreases s.len() - from,
{
    if from < s.len() && line_feeds(s.take(from)) < index {
        lemma_line_start_position(s, from + 1, index);
    }
}

/// A line ends between its start and the end of the text, holds no line
/// feed, and is followed by one unless the text ends there.
pub proof fn lemma_line_end_position(s: Seq<char>, from: int)
    requires
        0 <= from <= s.len(),
    ensures
        from <= line_end_position(s, from) <= s.len(),
        forall|i: int| from <= i < line_end_position(s, from) ==> s[i] != '\n',
        line_end_position(s, from) < s.len() ==> s[line_end_position(s, from)] == '\n',
    decreases s.len() - from,
{
    if from < s.len() && s[from] != '\n' {
        lemma_line_end_position(s, from + 1);
    }
}

/// The line on which an offset lies starts at or before the offset: a
/// column is never negative.
pub proof fn lemma_line_starts_before(s: Seq<char>, offset: int)
    requires
        0 <= offset,
    ensures
        line_start_of(s, line_index_of(s, offset) as int) <= offset,
        column_of(s, offset) >= 0,
{
    let k = position_at(s, 0, offset);
    lemma_position_at(s, 0, offset);
    let index = line_feeds(s.take(k)) as int;
    let a = line_start_position(s, 0, index);
    lemma_line_start_position(s, 0, index);
    if a > k {
        assert(line_feeds(s.take(k)) < index);
    }
    lemma_byte_offset_ends(s);
    if a == 0 {
    } else if a < k {
        assert(byte_offset(s, a) < offset);
    } else {
        assert(line_feeds(s.take(a - 1)) < index);
        lemma_line_feeds_step(s, a - 1);
        assert(s[a - 1] == '\n');
        lemma_byte_offset_step(s, a - 1);
        assert(byte_offset(s, a - 1) < offset);
    }
}

/// On a text of a single line every offset is its own column: the line
/// index is zero, and line zero starts at offset zero.
pub proof fn lemma_single_line_column(s: Seq<char>, offset: int)
    requires
        forall|i: int| 0 <= i < s.len() ==> s[i] != '\n',
        0 <= offset,
    ensures
        line_index_of(s, offset) == 0,
        line_start_of(s, 0) == 0,
        column_of(s, offset) == offset,
{
    lemma_position_at(s, 0, offset);
    lemma_line_feeds_none(s.take(position_at(s, 0, offset)));
    lemma_byte_offset_ends(s);
}

/// A text of a single line is its own line zero.
pub proof fn lemma_single_line_text(s: Seq<char>)
    requires
        forall|i: int| 0 <= i < s.len() ==> s[i] != '\n',
    ensures
        line_of(s, 0) == s,
{
    lemma_line_end_position(s, 0);
    assert(s.subrange(0, s.len() as int) == s);
}

/// A source text, with the arithmetic of its lines. Offsets are byte offsets
/// into the text; lines are numbered from zero and end at a line feed.
pub struct SourceText {
    text: String,
    /// The characters of the text.
    chars: Vec<char>,
    /// Length of the text in bytes.
    length: usize,
}

impl View for SourceText {
    type V = Seq<char>;

    closed spec fn view(&self) -> Seq<char> {
        self.text@
    }
}

impl SourceText {
    #[verifier::type_invariant]
    spec fn inv(&self) -> bool {
        &&& self.chars@ == self.text@
        &&& self.length == byte_len(self.text@)
    }

    /// The source text `text`.
    pub fn new(text: &str) -> (source: Self)
        ensures
            source@ == text@,
    {
        Self { text: String::from_str(text), chars: characters(text), length: byte_length(text) }
    }

    /// The position and the byte offset at which line number `index` starts.
    fn locate_line(&self, index: usize) -> (found: (usize, usize))
        ensures
            found.0 == line_start_position(self@, 0, index as int),
            found.1 == line_start_of(self@, index as int),
            found.0 <= self@.len(),
    {
        proof {
            use_type_invariant(self);
            lemma_byte_offset_ends(self@);
        }
        let mut position: usize = 0;
        let mut offset: usize = 0;
        let mut count: usize = 0;
        while offset < self.length && count < index
            invariant
                self.chars@ == self@,
                self.length == byte_len(self@),
                position <= self.chars.len(),
                count <= position,
                count == line_feeds(self@.take(position as int)),
                offset == byte_offset(self@, position as int),
                line_start_position(self@, 0, index as int) == line_start_position(
                    self@,
                    position as int,
                    index as int,
                ),
            decreases self.chars.len() - position,
        {
            proof {
                lemma_byte_offset_before_end(self@, position as int);
                lemma_line_feeds_step(self@, position as int);
                lemma_byte_offset_step(self@, position as int);
                lemma_byte_offset_before_end(self@, position as int + 1);
            }
            let c = self.chars[position];
            if c == '\n' {
                count += 1;
            }
            offset += char_width(c);
            position += 1;
        }
        proof {
            lemma_byte_offset_before_end(self@, position as int);
        }
        (position, offset)
    }

    /// Index of the line on which the byte offset `position` lies.
    pub fn line_index(&self, position: usize) -> (index: usize)
        ensures
            index == line_index_of(self@, position as int),
    {
        proof {
            use_type_invariant(self);
            lemma_byte_offset_ends(self@);
        }
        let (end, _) = find_position(&self.chars, self.length, 0, 0, position);
        let mut count: usize = 0;
        let mut i: usize = 0;
        while i < end
            invariant
                self.chars@ == self@,
                i <= end <= self.chars.len(),
                count <= i,
                count == line_feeds(self@.take(i as int)),
            decreases end - i,
        {
            proof {
                lemma_line_feeds_step(self@, i as int);
            }
            if self.chars[i] == '\n' {
                count += 1;
            }
            i += 1;
        }
        count
    }

    /// The text of line number `index`, without its line feed; empty where
    /// the text has no such line.
    pub fn get_line(&self, index: usize) -> (line: &str)
        ensures
            line@ == line_of(self@, index as int),
    {
        proof {
            use_type_invariant(self);
        }
        let (start, _) = self.locate_line(index);
        let mut end: usize = start;
        while end < self.chars.len() && self.chars[end] != '\n'
            invariant
                self.chars@ == self@,
                start <= end <= self.chars.len(),
                line_end_position(self@, start as int) == line_end_position(self@, end as int),
            decreases self.chars.len() - end,
        {
            end += 1;
        }
        self.text.as_str().substring_char(start, end)
    }

    /// Byte offset at which line number `index` starts; the length of the
    /// text where it has no such line.
    pub fn line_start(&self, index: usize) -> (start: usize)
        ensures
            start == line_start_of(self@, index as int),
    {
        let (_, offset) = self.locate_line(index);
        offset
    }
}

} // verus!
