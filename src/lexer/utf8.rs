//! Byte widths of characters in UTF-8, and how they add up over a text.

use vstd::prelude::*;
use vstd::utf8::{
    encode_scalar, encode_utf8, encode_utf8_decode_utf8, encode_utf8_first_scalar,
    encode_utf8_valid_utf8, is_char_boundary, pop_first_scalar,
};
use vstd::string::StringSliceAdditionalSpecFns;

verus! {

/// Number of bytes of the UTF-8 encoding of `c`.
pub open spec fn width(c: char) -> nat {
    if (c as u32) < 0x80 {
        1
    } else if (c as u32) < 0x800 {
        2
    } else if (c as u32) < 0x10000 {
        3
    } else {
        4
    }
}

/// Computes the UTF-8 width of `c`.
pub fn char_width(c: char) -> (r: usize)
    ensures
        r == width(c),
{
    let v = c as u32;
    if v < 0x80 {
        1
    } else if v < 0x800 {
        2
    } else if v < 0x10000 {
        3
    } else {
        4
    }
}

pub proof fn lemma_scalar_width(c: char)
    ensures
        encode_scalar(c as u32).len() == width(c),
{
}

pub proof fn lemma_encode_append(a: Seq<char>, b: Seq<char>)
    ensures
        encode_utf8(a + b) == encode_utf8(a) + encode_utf8(b),
    decreases a.len(),
{
    if a.len() == 0 {
        assert(a + b =~= b);
        assert(encode_utf8(a) =~= Seq::<u8>::empty());
        assert(encode_utf8(a) + encode_utf8(b) =~= encode_utf8(b));
    } else {
        assert((a + b).drop_first() =~= a.drop_first() + b);
        lemma_encode_append(a.drop_first(), b);
        assert((a + b)[0] == a[0]);
        assert(encode_scalar(a[0] as u32) + (encode_utf8(a.drop_first()) + encode_utf8(b))
            =~= (encode_scalar(a[0] as u32) + encode_utf8(a.drop_first())) + encode_utf8(b));
    }
}

/// The encoding of a text one character longer is longer by that character's width.
pub proof fn lemma_encode_push(a: Seq<char>, c: char)
    ensures
        encode_utf8(a.push(c)).len() == encode_utf8(a).len() + width(c),
{
    lemma_encode_append(a, seq![c]);
    assert(a + seq![c] =~= a.push(c));
    lemma_scalar_width(c);
    assert(seq![c].drop_first() =~= Seq::<char>::empty());
    assert(encode_utf8(seq![c]) =~= encode_scalar(c as u32) + encode_utf8(Seq::<char>::empty()));
}

/// A prefix never encodes to more bytes than the whole text, and every
/// character takes at least one byte.
pub proof fn lemma_encode_prefix(s: Seq<char>, n: int)
    requires
        0 <= n <= s.len(),
    ensures
        n <= encode_utf8(s.subrange(0, n)).len() <= encode_utf8(s).len(),
    decreases s.len() - n,
{
    if n == s.len() {
        assert(s.subrange(0, n) =~= s);
        lemma_encode_count(s);
    } else {
        lemma_encode_prefix(s, n + 1);
        assert(s.subrange(0, n + 1) =~= s.subrange(0, n).push(s[n]));
        lemma_encode_push(s.subrange(0, n), s[n]);
        lemma_encode_count(s.subrange(0, n));
    }
}

proof fn lemma_encode_count(s: Seq<char>)
    ensures
        s.len() <= encode_utf8(s).len(),
    decreases s.len(),
{
    if s.len() > 0 {
        lemma_encode_count(s.drop_first());
        lemma_scalar_width(s[0]);
    }
}

/// The end of the encoding of a prefix is a character boundary of the
/// encoding of the whole text.
proof fn lemma_prefix_boundary(a: Seq<char>, b: Seq<char>)
    ensures
        is_char_boundary(encode_utf8(a + b), encode_utf8(a).len() as int),
    decreases a.len(),
{
    encode_utf8_valid_utf8(a + b);
    if a.len() > 0 {
        let bytes = encode_utf8(a + b);
        encode_utf8_first_scalar(a + b);
        assert((a + b)[0] == a[0]);
        assert((a + b).drop_first() =~= a.drop_first() + b);
        let first = encode_scalar(a[0] as u32);
        assert(bytes == first + encode_utf8(a.drop_first() + b));
        assert(pop_first_scalar(bytes) =~= encode_utf8(a.drop_first() + b));
        lemma_prefix_boundary(a.drop_first(), b);
        encode_utf8_valid_utf8(a.drop_first() + b);
        assert(encode_utf8(a).len() == first.len() + encode_utf8(a.drop_first()).len());
    }
}

/// Splits `text` after its first `k` characters, which take `w` bytes.
pub fn split_chars<'b>(text: &'b str, w: usize, Ghost(k): Ghost<int>) -> (r: (&'b str, &'b str))
    requires
        0 <= k <= text@.len(),
        w == encode_utf8(text@.subrange(0, k)).len(),
    ensures
        r.0@ == text@.subrange(0, k),
        r.1@ == text@.subrange(k, text@.len() as int),
{
    let ghost a = text@.subrange(0, k);
    let ghost b = text@.subrange(k, text@.len() as int);
    proof {
        assert(a + b =~= text@);
        lemma_prefix_boundary(a, b);
        lemma_encode_append(a, b);
    }
    let r = text.split_at(w);
    proof {
        let bytes = encode_utf8(text@);
        assert(bytes.subrange(0, w as int) =~= encode_utf8(a));
        assert(bytes.subrange(w as int, bytes.len() as int) =~= encode_utf8(b));
        assert(encode_utf8(r.0@) == encode_utf8(a));
        assert(encode_utf8(r.1@) == encode_utf8(b));
        encode_utf8_decode_utf8(r.0@);
        encode_utf8_decode_utf8(a);
        encode_utf8_decode_utf8(r.1@);
        encode_utf8_decode_utf8(b);
    }
    r
}

} // verus!
