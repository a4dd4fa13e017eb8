use vstd::prelude::*;
use vstd::utf8::*;

verus! {

broadcast use encode_utf8_valid_utf8, encode_utf8_decode_utf8;

/// The encoding of a concatenation is the concatenation of the encodings.
pub(crate) proof fn lemma_encode_concat(a: Seq<char>, b: Seq<char>)
    ensures
        encode_utf8(a + b) == encode_utf8(a) + encode_utf8(b),
    decreases a.len(),
{
    if a.len() == 0 {
        assert(a + b =~= b);
        assert(encode_utf8(a) + encode_utf8(b) =~= encode_utf8(b));
    } else {
        lemma_encode_concat(a.drop_first(), b);
        assert((a + b).drop_first() =~= a.drop_first() + b);
        assert(encode_utf8(a + b) =~= encode_utf8(a) + encode_utf8(b));
    }
}

/// Appending one character adds the length of its encoding.
pub(crate) proof fn lemma_encode_push(a: Seq<char>, c: char)
    ensures
        encode_utf8(a.push(c)).len() == encode_utf8(a).len() + encode_scalar(c as u32).len(),
{
    lemma_encode_concat(a, seq![c]);
    assert(a + seq![c] =~= a.push(c));
    assert(seq![c].drop_first() =~= Seq::<char>::empty());
    assert(encode_utf8(seq![c]) =~= encode_scalar(c as u32) + encode_utf8(Seq::<char>::empty()));
}

/// The end of an encoded prefix is a character boundary of the whole encoding.
proof fn lemma_prefix_boundary(a: Seq<char>, b: Seq<char>)
    ensures
        is_char_boundary(encode_utf8(a + b), encode_utf8(a).len() as int),
    decreases a.len(),
{
    lemma_encode_concat(a, b);
    if a.len() > 0 {
        let bytes = encode_utf8(a + b);
        encode_utf8_first_scalar(a + b);
        encode_utf8_first_scalar(a);
        assert((a + b).drop_first() =~= a.drop_first() + b);
        assert(pop_first_scalar(bytes) =~= encode_utf8(a.drop_first() + b));
        lemma_prefix_boundary(a.drop_first(), b);
    }
}

/// The number of bytes in the UTF-8 encoding of `c`.
pub(crate) fn utf8_width(c: char) -> (n: usize)
    ensures
        n == encode_scalar(c as u32).len(),
{
    let v = c as u32;
    if v <= 0x7F {
        1
    } else if v <= 0x7FF {
        2
    } else if v <= 0xFFFF {
        3
    } else {
        4
    }
}

/// Splits `s` after its first `k` characters, which take `b` bytes.
pub(crate) fn split_chars<'a>(s: &'a str, Ghost(k): Ghost<int>, b: usize) -> (r: (&'a str, &'a str))
    requires
        0 <= k <= s@.len(),
        b == encode_utf8(s@.take(k)).len(),
    ensures
        r.0@ == s@.take(k),
        r.1@ == s@.skip(k),
{
    proof {
        assert(s@ =~= s@.take(k) + s@.skip(k));
        lemma_encode_concat(s@.take(k), s@.skip(k));
        lemma_prefix_boundary(s@.take(k), s@.skip(k));
    }
    let r = s.split_at(b);
    proof {
        assert(encode_utf8(r.0@) =~= encode_utf8(s@.take(k)));
        assert(encode_utf8(r.1@) =~= encode_utf8(s@.skip(k)));
        assert(decode_utf8(encode_utf8(r.0@)) == decode_utf8(encode_utf8(s@.take(k))));
        assert(decode_utf8(encode_utf8(r.1@)) == decode_utf8(encode_utf8(s@.skip(k))));
    }
    r
}

} // verus!
