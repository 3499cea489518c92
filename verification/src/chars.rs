use vstd::prelude::*;
use vstd::utf8::{char_is_scalar, encode_scalar, encode_utf8, is_scalar};

verus! {

/// Number of UTF-8 bytes that encode `c`.
pub open spec fn utf8_width(c: char) -> nat {
    if (c as u32) < 0x80 {
        1
    } else if (c as u32) < 0x800 {
        2
    } else if (c as u32) < 0x1_0000 {
        3
    } else {
        4
    }
}

/// Number of UTF-8 bytes that encode a run of characters.
pub open spec fn utf8_len(s: Seq<char>) -> nat
    decreases s.len(),
{
    if s.len() == 0 {
        0
    } else {
        utf8_len(s.drop_last()) + utf8_width(s.last())
    }
}

/// A run of characters takes between one and four bytes for each.
pub proof fn lemma_utf8_len_bounds(s: Seq<char>)
    ensures
        s.len() <= utf8_len(s) <= 4 * s.len(),
    decreases s.len(),
{
    if s.len() > 0 {
        lemma_utf8_len_bounds(s.drop_last());
    }
}

/// One more character adds its width.
pub proof fn lemma_utf8_len_push(s: Seq<char>, c: char)
    ensures
        utf8_len(s.push(c)) == utf8_len(s) + utf8_width(c),
{
    assert(s.push(c).drop_last() =~= s);
}

/// The first character adds its width to that of the rest.
pub proof fn lemma_utf8_len_first(s: Seq<char>)
    requires
        s.len() > 0,
    ensures
        utf8_len(s) == utf8_width(s[0]) + utf8_len(s.drop_first()),
    decreases s.len(),
{
    if s.len() == 1 {
        assert(s.drop_last() =~= s.drop_first());
        assert(utf8_len(s.drop_first()) == 0);
    } else {
        lemma_utf8_len_first(s.drop_last());
        assert(s.drop_last().drop_first() =~= s.drop_first().drop_last());
        assert(s.drop_last()[0] == s[0]);
        assert(s.drop_first().last() == s.last());
    }
}

/// [`utf8_len`] is the length of the UTF-8 encoding, and so the length in
/// bytes of a string that holds the characters.
pub proof fn lemma_utf8_len_is_encoded_len(s: Seq<char>)
    ensures
        utf8_len(s) == encode_utf8(s).len(),
    decreases s.len(),
{
    if s.len() > 0 {
        lemma_utf8_len_first(s);
        lemma_utf8_len_is_encoded_len(s.drop_first());
        char_is_scalar(s[0]);
        assert(is_scalar(s[0] as u32));
        assert(encode_scalar(s[0] as u32).len() == utf8_width(s[0]));
    }
}

/// Number of UTF-8 bytes that encode `c`.
pub fn char_len_utf8(c: char) -> (n: usize)
    ensures
        n == utf8_width(c),
{
    let v: u32 = c as u32;
    if v < 0x80 {
        1
    } else if v < 0x800 {
        2
    } else if v < 0x1_0000 {
        3
    } else {
        4
    }
}

/// Whether a character has the Unicode property White_Space, as
/// `char::is_whitespace` answers it.
pub uninterp spec fn white_space(c: char) -> bool;

/// `char::is_whitespace`: the answer depends on the character alone, and is
/// the one that [`white_space`] names.
#[verifier::external_body]
pub(crate) fn is_white_space(c: char) -> (b: bool)
    ensures
        b == white_space(c),
{
    c.is_whitespace()
}

/// `String::push`: the character is appended to the end.
#[verifier::external_body]
pub(crate) fn push_char(s: &mut String, c: char)
    ensures
        final(s)@ == old(s)@.push(c),
{
    s.push(c)
}

/// The characters `[from, to)` of `chars` as a string.
pub fn string_from(chars: &Vec<char>, from: usize, to: usize) -> (s: String)
    requires
        from <= to <= chars@.len(),
    ensures
        s@ == chars@.subrange(from as int, to as int),
{
    let mut s = String::new();
    let mut i = from;
    while i < to
        invariant
            from <= i <= to <= chars@.len(),
            s@ == chars@.subrange(from as int, i as int),
        decreases to - i,
    {
        push_char(&mut s, chars[i]);
        proof {
            assert(chars@.subrange(from as int, i as int).push(chars@[i as int])
                =~= chars@.subrange(from as int, i as int + 1));
        }
        i = i + 1;
    }
    s
}

/// The characters `[from, to)` of `chars` spell `word`.
pub fn range_is(chars: &Vec<char>, from: usize, to: usize, word: &Vec<char>) -> (b: bool)
    requires
        from <= to <= chars@.len(),
    ensures
        b == (chars@.subrange(from as int, to as int) == word@),
{
    if to - from != word.len() {
        return false;
    }
    let mut i: usize = 0;
    while i < word.len()
        invariant
            from <= to <= chars@.len(),
            to - from == word@.len(),
            i <= word@.len(),
            chars@.subrange(from as int, from + i) == word@.take(i as int),
        decreases word.len() - i,
    {
        if chars[from + i] != word[i] {
            proof {
                assert(chars@.subrange(from as int, to as int)[i as int] != word@[i as int]);
            }
            return false;
        }
        proof {
            assert(chars@.subrange(from as int, from + i).push(chars@[from + i])
                =~= chars@.subrange(from as int, from + i + 1));
            assert(word@.take(i as int).push(word@[i as int]) =~= word@.take(i as int + 1));
        }
        i = i + 1;
    }
    proof {
        assert(word@.take(word@.len() as int) =~= word@);
    }
    true
}

/// Index of the first `sep` in `s` at or after `from`, or the length of `s`
/// when there is none.
pub open spec fn next_sep(s: Seq<char>, sep: char, from: int) -> int
    decreases s.len() - from,
{
    if from >= s.len() {
        s.len() as int
    } else if s[from] == sep {
        from
    } else {
        next_sep(s, sep, from + 1)
    }
}

/// Index of the first `sep` in `chars` at or after `from`, or the length of
/// `chars` when there is none.
pub fn find_sep(chars: &Vec<char>, sep: char, from: usize) -> (at: usize)
    requires
        from <= chars@.len(),
    ensures
        at == next_sep(chars@, sep, from as int),
        from <= at <= chars@.len(),
{
    let mut i = from;
    while i < chars.len() && chars[i] != sep
        invariant
            from <= i <= chars@.len(),
            next_sep(chars@, sep, from as int) == next_sep(chars@, sep, i as int),
        decreases chars.len() - i,
    {
        i = i + 1;
    }
    i
}

} // verus!
