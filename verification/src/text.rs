//! Pieces of a string by their byte offsets.
use vstd::prelude::*;
use vstd::string::StringSliceAdditionalSpecFns;
use vstd::utf8::{decode_utf8, encode_utf8, is_char_boundary, pop_first_scalar};

verus! {

/// The number of bytes that a text takes as UTF-8.
pub open spec fn byte_len(s: Seq<char>) -> nat {
    encode_utf8(s).len()
}

/// Whether a string can be divided at a byte offset.
pub open spec fn is_boundary(s: Seq<char>, offset: int) -> bool {
    0 <= offset <= byte_len(s) && is_char_boundary(encode_utf8(s), offset)
}

/// Whether the bytes from `start` to `end` of a string are a string.
pub open spec fn is_piece(s: Seq<char>, start: int, end: int) -> bool {
    start <= end && is_boundary(s, start) && is_boundary(s, end)
}

/// The text whose bytes are those from `start` to `end` of the bytes of `s`.
pub open spec fn piece(s: Seq<char>, start: int, end: int) -> Seq<char> {
    decode_utf8(encode_utf8(s).subrange(start, end))
}

/// The piece of a string from one byte offset to another.
pub fn str_piece<'a>(s: &'a str, start: usize, end: usize) -> (r: &'a str)
    requires
        is_piece(s@, start as int, end as int),
    ensures
        r@ == piece(s@, start as int, end as int),
{
    proof {
        vstd::utf8::encode_utf8_valid_utf8(s@);
    }
    let (head, _) = s.split_at(end);
    proof {
        lemma_boundary_in_head(encode_utf8(s@), start as int, end as int);
    }
    let (_, r) = head.split_at(start);
    proof {
        assert(encode_utf8(s@).subrange(0, end as int).subrange(start as int, end as int)
            =~= encode_utf8(s@).subrange(start as int, end as int));
        vstd::utf8::encode_utf8_decode_utf8(r@);
    }
    r
}

/// The number of bytes of a string.
pub fn str_bytes(s: &str) -> (n: usize)
    ensures
        n == byte_len(s@),
{
    s.as_bytes().len()
}

/// A place where valid UTF-8 can be divided is one in what comes before a later such place.
proof fn lemma_boundary_in_head(bytes: Seq<u8>, start: int, end: int)
    requires
        vstd::utf8::valid_utf8(bytes),
        0 <= start <= end <= bytes.len(),
        is_char_boundary(bytes, start),
        is_char_boundary(bytes, end),
    ensures
        is_char_boundary(bytes.subrange(0, end), start),
{
    let head = bytes.subrange(0, end);
    vstd::utf8::valid_utf8_split(bytes, end);
    if start < end {
        vstd::utf8::is_char_boundary_iff_not_is_continuation_byte(bytes, start);
        vstd::utf8::is_char_boundary_iff_not_is_continuation_byte(head, start);
        assert(head[start] == bytes[start]);
    } else {
        vstd::utf8::is_char_boundary_start_end_of_seq(head);
    }
}

/// The bytes of two texts side by side are the bytes of both, and the string can be divided where
/// they meet.
pub proof fn lemma_encode_concat(a: Seq<char>, b: Seq<char>)
    ensures
        encode_utf8(a + b) == encode_utf8(a) + encode_utf8(b),
        is_boundary(a + b, byte_len(a) as int),
    decreases a.len(),
{
    vstd::utf8::encode_utf8_valid_utf8(a + b);
    if a.len() == 0 {
        assert(a + b =~= b);
        assert(encode_utf8(a) + encode_utf8(b) =~= encode_utf8(b));
    } else {
        let rest = a.drop_first();
        lemma_encode_concat(rest, b);
        vstd::utf8::encode_utf8_first_scalar(a + b);
        vstd::utf8::encode_utf8_valid_utf8(rest + b);
        assert((a + b).drop_first() =~= rest + b);
        assert(encode_utf8(a + b) =~= encode_utf8(a) + encode_utf8(b));
        assert(pop_first_scalar(encode_utf8(a + b)) =~= encode_utf8(rest + b));
    }
}

/// What stands between two other texts is the piece between their bytes.
pub proof fn lemma_piece_between(a: Seq<char>, b: Seq<char>, c: Seq<char>)
    ensures
        is_piece(a + b + c, byte_len(a) as int, byte_len(a + b) as int),
        piece(a + b + c, byte_len(a) as int, byte_len(a + b) as int) == b,
        byte_len(a + b) == byte_len(a) + byte_len(b),
        byte_len(a + b + c) == byte_len(a) + byte_len(b) + byte_len(c),
{
    lemma_encode_concat(a, b);
    lemma_encode_concat(a + b, c);
    assert(a + b + c =~= a + (b + c));
    lemma_encode_concat(a, b + c);
    assert(encode_utf8(a + b + c).subrange(byte_len(a) as int, byte_len(a + b) as int)
        =~= encode_utf8(b));
    vstd::utf8::encode_utf8_decode_utf8(b);
}

/// A text that is not empty has bytes.
pub proof fn lemma_byte_len_positive(s: Seq<char>)
    requires
        s.len() > 0,
    ensures
        byte_len(s) > 0,
{
}

} // verus!
