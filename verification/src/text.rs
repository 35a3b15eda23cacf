//! Mapping UTF-8 byte offsets (as reported by shaping clusters) back to characters.
use vstd::prelude::*;
use vstd::string::StringSliceAdditionalSpecFns;

verus! {

broadcast use vstd::string::group_string_axioms;

/// Number of bytes that UTF-8 uses to encode `c`.
pub open spec fn utf8_width(c: char) -> int {
    if (c as u32) < 0x80 {
        1
    } else if (c as u32) < 0x800 {
        2
    } else if (c as u32) < 0x10000 {
        3
    } else {
        4
    }
}

/// The character whose UTF-8 encoding covers byte `offset` of the text `s`,
/// or `None` when the offset lies past the end of the text.
pub open spec fn char_covering(s: Seq<char>, offset: int) -> Option<char>
    decreases s.len(),
{
    if s.len() == 0 {
        None
    } else if 0 <= offset < utf8_width(s[0]) {
        Some(s[0])
    } else {
        char_covering(s.drop_first(), offset - utf8_width(s[0]))
    }
}

/// UTF-8 width of a character, computed from its scalar value.
fn utf8_width_exec(c: char) -> (n: usize)
    ensures
        n == utf8_width(c),
{
    let cp = c as u32;
    if cp < 0x80 {
        1
    } else if cp < 0x800 {
        2
    } else if cp < 0x10000 {
        3
    } else {
        4
    }
}

/// Returns the character at the given UTF-8 byte offset, if valid.
/// An offset inside a multi-byte character yields that character.
pub fn char_at_byte_offset(text: &str, byte_offset: usize) -> (res: Option<char>)
    ensures
        res == char_covering(text@, byte_offset as int),
        byte_offset >= text.spec_bytes().len() ==> res is None,
{
    let mut pos: usize = 0;
    let ghost s = text@;
    assert(s.skip(0) =~= s);
    proof {
        lemma_char_covering_by_encoding(s, 0, byte_offset as int);
    }
    for c in it: text.chars()
        invariant
            it.seq() == s,
            s == text@,
            byte_offset >= vstd::utf8::encode_utf8(s).len() ==> char_covering(s, byte_offset as int) is None,
            pos <= byte_offset,
            char_covering(s, byte_offset as int) == char_covering(
                s.skip(it.index() as int),
                byte_offset - pos,
            ),
    {
        let ghost rest = s.skip(it.index() as int);
        assert(it.index() < s.len());
        assert(rest[0] == c);
        assert(rest.drop_first() =~= s.skip(it.index() + 1));
        let w = utf8_width_exec(c);
        if byte_offset - pos < w {
            assert(char_covering(rest, byte_offset - pos) == Some(c));
            return Some(c);
        }
        pos = pos + w;
    }
    assert(s.skip(s.len() as int).len() == 0);
    None
}

/// Byte offset at which character `i` of `s` starts in its UTF-8 encoding.
pub open spec fn byte_start(s: Seq<char>, i: int) -> int
    decreases i,
{
    if i <= 0 {
        0
    } else {
        byte_start(s, i - 1) + utf8_width(s[i - 1])
    }
}

proof fn lemma_byte_start_shift(s: Seq<char>, i: int)
    requires
        1 <= i <= s.len(),
    ensures
        byte_start(s, i) == utf8_width(s[0]) + byte_start(s.drop_first(), i - 1),
    decreases i,
{
    if i > 1 {
        lemma_byte_start_shift(s, i - 1);
        assert(s.drop_first()[i - 2] == s[i - 1]);
    } else {
        assert(byte_start(s, 0) == 0);
        assert(byte_start(s.drop_first(), 0) == 0);
    }
}

proof fn lemma_byte_start_nonneg(s: Seq<char>, i: int)
    ensures
        byte_start(s, i) >= 0,
        i >= 1 && i <= s.len() ==> byte_start(s, i) >= utf8_width(s[0]),
    decreases i,
{
    if i > 0 {
        lemma_byte_start_nonneg(s, i - 1);
    }
}

/// Every byte of the encoding of character `i` maps back to that character,
/// and every offset at or past the end of the encoding maps to `None`.
pub proof fn lemma_char_covering_matches_encoding(s: Seq<char>, i: int, offset: int)
    ensures
        0 <= i < s.len() && byte_start(s, i) <= offset < byte_start(s, i) + utf8_width(s[i])
            ==> char_covering(s, offset) == Some(s[i]),
        offset >= byte_start(s, s.len() as int) ==> char_covering(s, offset) is None,
    decreases s.len(),
{
    if s.len() > 0 {
        let w = utf8_width(s[0]);
        lemma_byte_start_nonneg(s, i);
        lemma_byte_start_nonneg(s, s.len() as int);
        lemma_char_covering_matches_encoding(s.drop_first(), i - 1, offset - w);
        if 1 <= i < s.len() {
            lemma_byte_start_shift(s, i);
            assert(s.drop_first()[i - 1] == s[i]);
        }
        lemma_byte_start_shift(s, s.len() as int);
    }
}

/// `utf8_width` is the length of a character's UTF-8 encoding: 1 byte below
/// U+0080, 2 below U+0800, 3 below U+10000 and 4 above.
pub proof fn lemma_utf8_width_is_encoding_length(c: char)
    ensures
        utf8_width(c) == vstd::utf8::encode_scalar(c as u32).len(),
        (c as u32) < 0x80 ==> utf8_width(c) == 1,
        0x80 <= (c as u32) < 0x800 ==> utf8_width(c) == 2,
        0x800 <= (c as u32) < 0x10000 ==> utf8_width(c) == 3,
        0x10000 <= (c as u32) ==> utf8_width(c) == 4,
{
    vstd::utf8::char_is_scalar(c);
}

proof fn lemma_byte_start_prefix(s: Seq<char>, t: Seq<char>, i: int)
    requires
        0 <= i <= s.len(),
        i <= t.len(),
        s.take(i) == t.take(i),
    ensures
        byte_start(s, i) == byte_start(t, i),
    decreases i,
{
    if i > 0 {
        assert(s.take(i - 1) =~= s.take(i).take(i - 1));
        assert(t.take(i - 1) =~= t.take(i).take(i - 1));
        assert(s[i - 1] == s.take(i)[i - 1]);
        assert(t[i - 1] == t.take(i)[i - 1]);
        lemma_byte_start_prefix(s, t, i - 1);
    }
}

proof fn lemma_encoded_length(s: Seq<char>)
    ensures
        vstd::utf8::encode_utf8(s).len() == byte_start(s, s.len() as int),
    decreases s.len(),
{
    if s.len() > 0 {
        lemma_encoded_length(s.drop_first());
        lemma_utf8_width_is_encoding_length(s[0]);
        lemma_byte_start_shift(s, s.len() as int);
    } else {
        assert(byte_start(s, 0) == 0);
    }
}

/// The byte offset at which character `i` starts is the length of the UTF-8
/// encoding of the characters before it.
pub proof fn lemma_byte_start_is_encoded_prefix_length(s: Seq<char>, i: int)
    requires
        0 <= i <= s.len(),
    ensures
        byte_start(s, i) == vstd::utf8::encode_utf8(s.take(i)).len(),
{
    let p = s.take(i);
    assert(p.take(i) =~= s.take(i));
    lemma_byte_start_prefix(s, p, i);
    lemma_encoded_length(p);
}

/// Stated over the UTF-8 encoding of the text: the character at a byte offset
/// is the one whose encoded bytes contain it, and offsets at or past the end
/// of the encoding give `None`.
pub proof fn lemma_char_covering_by_encoding(s: Seq<char>, i: int, offset: int)
    ensures
        0 <= i < s.len() && vstd::utf8::encode_utf8(s.take(i)).len() <= offset
            < vstd::utf8::encode_utf8(s.take(i + 1)).len() ==> char_covering(s, offset) == Some(s[i]),
        offset >= vstd::utf8::encode_utf8(s).len() ==> char_covering(s, offset) is None,
{
    lemma_encoded_length(s);
    lemma_char_covering_matches_encoding(s, i, offset);
    if 0 <= i < s.len() {
        lemma_byte_start_is_encoded_prefix_length(s, i);
        lemma_byte_start_is_encoded_prefix_length(s, i + 1);
    }
}

} // verus!
