//! Byte offsets of characters in UTF-8 text.
//!
//! Text is modelled as a sequence of characters; positions handed to callers
//! are byte offsets into the UTF-8 encoding of that sequence.

use vstd::prelude::*;
use vstd::string::*;
use vstd::utf8::*;

verus! {

/// Number of bytes that the UTF-8 encoding of `s` occupies.
pub open spec fn byte_len(s: Seq<char>) -> nat {
    encode_utf8(s).len()
}

/// Byte offset at which character number `i` of `s` starts
/// (the length of `s` in bytes for `i == s.len()`).
pub open spec fn byte_offset(s: Seq<char>, i: int) -> nat {
    byte_len(s.take(i))
}

/// Number of bytes that one character occupies in UTF-8.
pub open spec fn width_of(c: char) -> nat {
    encode_scalar(c as u32).len()
}

/// Encoding distributes over concatenation.
pub proof fn lemma_encode_concat(a: Seq<char>, b: Seq<char>)
    ensures
        encode_utf8(a + b) == encode_utf8(a) + encode_utf8(b),
    decreases a.len(),
{
    if a.len() == 0 {
        assert(a + b == b);
        assert(encode_utf8(a) + encode_utf8(b) == encode_utf8(b));
    } else {
        assert((a + b).drop_first() == a.drop_first() + b);
        lemma_encode_concat(a.drop_first(), b);
        assert(encode_utf8(a + b) == encode_scalar(a[0] as u32) + (encode_utf8(a.drop_first())
            + encode_utf8(b)));
    }
}

/// A single character's encoding is the character's own width.
pub proof fn lemma_byte_len_single(c: char)
    ensures
        byte_len(seq![c]) == width_of(c),
{
    let s = seq![c];
    assert(s.drop_first() == Seq::<char>::empty());
    assert(encode_utf8(s) == encode_scalar(c as u32) + encode_utf8(s.drop_first()));
}

/// The byte length of a concatenation is the sum of the byte lengths.
pub proof fn lemma_byte_len_concat(a: Seq<char>, b: Seq<char>)
    ensures
        byte_len(a + b) == byte_len(a) + byte_len(b),
{
    lemma_encode_concat(a, b);
}

/// Stepping over one character advances the byte offset by its width.
pub proof fn lemma_byte_offset_step(s: Seq<char>, i: int)
    requires
        0 <= i < s.len(),
    ensures
        byte_offset(s, i + 1) == byte_offset(s, i) + width_of(s[i]),
{
    assert(s.take(i + 1) == s.take(i) + seq![s[i]]);
    lemma_byte_len_concat(s.take(i), seq![s[i]]);
    lemma_byte_len_single(s[i]);
}

/// Byte offsets grow with character positions.
pub proof fn lemma_byte_offset_monotonic(s: Seq<char>, i: int, j: int)
    requires
        0 <= i <= j <= s.len(),
    ensures
        byte_offset(s, i) <= byte_offset(s, j),
        byte_offset(s, j) - byte_offset(s, i) == byte_len(s.subrange(i, j)),
{
    assert(s.take(j) == s.take(i) + s.subrange(i, j));
    lemma_byte_len_concat(s.take(i), s.subrange(i, j));
}

/// The offset of the first character is zero and the offset past the last
/// character is the byte length of the text.
pub proof fn lemma_byte_offset_ends(s: Seq<char>)
    ensures
        byte_offset(s, 0) == 0,
        byte_offset(s, s.len() as int) == byte_len(s),
{
    assert(s.take(0) == Seq::<char>::empty());
    assert(s.take(s.len() as int) == s);
}

/// No byte offset lies past the byte length, and a position lies before the
/// end of the text exactly if its byte offset lies before the byte length.
pub proof fn lemma_byte_offset_before_end(s: Seq<char>, i: int)
    requires
        0 <= i <= s.len(),
    ensures
        byte_offset(s, i) <= byte_len(s),
        i < s.len() <==> byte_offset(s, i) < byte_len(s),
{
    lemma_byte_offset_ends(s);
    lemma_byte_offset_monotonic(s, i, s.len() as int);
    if i < s.len() {
        lemma_byte_offset_step(s, i);
        lemma_byte_offset_monotonic(s, i + 1, s.len() as int);
    }
}

/// On ASCII text byte offsets and character positions coincide.
pub proof fn lemma_byte_offset_ascii(s: Seq<char>, i: int)
    requires
        is_ascii_chars(s),
        0 <= i <= s.len(),
    ensures
        byte_offset(s, i) == i,
    decreases i,
{
    if i == 0 {
        lemma_byte_offset_ends(s);
    } else {
        lemma_byte_offset_ascii(s, i - 1);
        lemma_byte_offset_step(s, i - 1);
        assert(has_width_1_encoding(s[i - 1] as u32));
    }
}

/// Length of `s` in bytes. That it is a `usize` bounds every byte offset
/// into `s`.
pub fn byte_length(s: &str) -> (length: usize)
    ensures
        length == byte_len(s@),
{
    s.as_bytes().len()
}

/// Number of bytes that `c` occupies in UTF-8.
pub fn char_width(c: char) -> (w: usize)
    ensures
        w == width_of(c),
        1 <= w <= 4,
{
    let v: u32 = c as u32;
    if v < 0x80 {
        1
    } else if v < 0x800 {
        2
    } else if v < 0x10000 {
        3
    } else {
        4
    }
}

/// The first position at or after `from` whose byte offset in `s` is at least
/// `offset`; the length of `s` where no position reaches it.
pub open spec fn position_at(s: Seq<char>, from: int, offset: int) -> int
    decreases s.len() - from,
{
    if 0 <= from < s.len() && byte_offset(s, from) < offset {
        position_at(s, from + 1, offset)
    } else {
        from
    }
}

/// `position_at` lies between `from` and the end of the text; every position
/// before it starts before `offset`, and it does not.
pub proof fn lemma_position_at(s: Seq<char>, from: int, offset: int)
    requires
        0 <= from <= s.len(),
    ensures
        from <= position_at(s, from, offset) <= s.len(),
        forall|i: int|
            from <= i < position_at(s, from, offset) ==> #[trigger] byte_offset(s, i) < offset,
        position_at(s, from, offset) < s.len() ==> byte_offset(s, position_at(s, from, offset))
            >= offset,
    decreases s.len() - from,
{
    if from < s.len() && byte_offset(s, from) < offset {
        lemma_position_at(s, from + 1, offset);
    }
}

/// Searching from a position that starts before `offset` finds what a search
/// from the start finds.
pub proof fn lemma_position_at_resume(s: Seq<char>, from: int, offset: int)
    requires
        0 <= from <= s.len(),
        forall|i: int| 0 <= i < from ==> #[trigger] byte_offset(s, i) < offset,
    ensures
        position_at(s, 0, offset) == position_at(s, from, offset),
    decreases from,
{
    if from > 0 {
        lemma_position_at_resume(s, from - 1, offset);
        assert(byte_offset(s, from - 1) < offset);
    }
}

/// A later offset is reached at a later position, or at the same one.
pub proof fn lemma_position_at_monotonic(s: Seq<char>, first: int, second: int)
    requires
        first <= second,
    ensures
        0 <= position_at(s, 0, first) <= position_at(s, 0, second) <= s.len(),
        position_at(s, 0, second) == position_at(s, position_at(s, 0, first), second),
{
    lemma_position_at(s, 0, first);
    lemma_position_at(s, 0, second);
    let k = position_at(s, 0, first);
    let m = position_at(s, 0, second);
    if m < k {
        assert(byte_offset(s, m) < first);
    }
    lemma_position_at_resume(s, k, second);
}

/// The characters of `s`, one by one.
pub fn characters(s: &str) -> (chars: Vec<char>)
    ensures
        chars@ == s@,
{
    let mut chars: Vec<char> = Vec::new();
    for c in it: s.chars()
        invariant
            chars@ == it.seq().take(it.index() as int),
            it.seq() == s@,
    {
        chars.push(c);
    }
    chars
}

/// `String::push` of the standard library: appends one character to the end
/// of the string.
pub assume_specification[ std::string::String::push ](
    target: &mut std::string::String,
    ch: char,
)
    ensures
        final(target)@ == old(target)@.push(ch),
;

/// The characters of `chars` from position `from` up to position `to`, as a
/// string.
pub fn text_between(chars: &Vec<char>, from: usize, to: usize) -> (text: String)
    requires
        from <= to <= chars.len(),
    ensures
        text@ == chars@.subrange(from as int, to as int),
{
    let mut text = String::new();
    let mut i: usize = from;
    while i < to
        invariant
            from <= i <= to <= chars.len(),
            text@ == chars@.subrange(from as int, i as int),
        decreases to - i,
    {
        text.push(chars[i]);
        i += 1;
        assert(chars@.subrange(from as int, i as int) == chars@.subrange(
            from as int,
            i - 1,
        ).push(chars@[i - 1]));
    }
    text
}

/// The position of the first character of `chars` that starts at or after
/// byte `offset`, searched from position `from`, whose byte offset is `start`;
/// `length` is the length of the text in bytes. Returns the position and its
/// byte offset.
pub fn find_position(
    chars: &Vec<char>,
    length: usize,
    from: usize,
    start: usize,
    offset: usize,
) -> (found: (usize, usize))
    requires
        length == byte_len(chars@),
        from <= chars.len(),
        start == byte_offset(chars@, from as int),
    ensures
        found.0 == position_at(chars@, from as int, offset as int),
        found.1 == byte_offset(chars@, found.0 as int),
        from <= found.0 <= chars.len(),
{
    let mut position: usize = from;
    let mut reached: usize = start;
    while reached < length && reached < offset
        invariant
            from <= position <= chars.len(),
            reached == byte_offset(chars@, position as int),
            length == byte_len(chars@),
            position_at(chars@, from as int, offset as int) == position_at(
                chars@,
                position as int,
                offset as int,
            ),
        decreases chars.len() - position,
    {
        proof {
            lemma_byte_offset_before_end(chars@, position as int);
            lemma_byte_offset_step(chars@, position as int);
            lemma_byte_offset_before_end(chars@, position as int + 1);
        }
        reached += char_width(chars[position]);
        position += 1;
    }
    proof {
        lemma_byte_offset_before_end(chars@, position as int);
    }
    (position, reached)
}

} // verus!
