//! Reading values back out of encoded bytes: C strings, length-prefixed
//! values, and the UTF-8 facts that make a terminating zero byte unambiguous.

use vstd::prelude::*;
use vstd::utf8::{
    char_is_scalar, char_u32_cast, encode_scalar, encode_utf8, is_scalar, last_continuation_byte,
    leading_byte_width_1, leading_byte_width_2, leading_byte_width_3, leading_byte_width_4,
    second_last_continuation_byte, third_last_continuation_byte,
};

use crate::wire::read_be32;

verus! {

/// No character of the string is U+0000.
pub open spec fn has_no_nul(s: Seq<char>) -> bool {
    forall|i: int| 0 <= i < s.len() ==> s[i] != '\0'
}

/// No byte of the sequence is zero.
pub open spec fn has_no_zero_byte(b: Seq<u8>) -> bool {
    forall|i: int| 0 <= i < b.len() ==> b[i] != 0
}

/// The number of bytes before the first zero byte (all of them if there is none).
pub open spec fn c_string_len(bytes: Seq<u8>) -> nat
    decreases bytes.len(),
{
    if bytes.len() == 0 || bytes[0] == 0 {
        0
    } else {
        1 + c_string_len(bytes.drop_first())
    }
}

/// The bytes of a C string at the start of `bytes`: those before the first zero byte.
pub open spec fn read_c_string(bytes: Seq<u8>) -> Seq<u8> {
    bytes.take(c_string_len(bytes) as int)
}

/// Reads up to `count` values, each a four-byte length in network order
/// followed by that many bytes; gives the values and the bytes after them.
pub open spec fn read_values(bytes: Seq<u8>, count: nat) -> (Seq<Seq<u8>>, Seq<u8>)
    decreases count,
{
    if count == 0 || bytes.len() < 4 {
        (Seq::empty(), bytes)
    } else {
        let k = read_be32(bytes.take(4));
        let end = if 4 + k <= bytes.len() {
            4 + k
        } else {
            bytes.len() as int
        };
        let (more, rest) = read_values(bytes.skip(end), (count - 1) as nat);
        (seq![bytes.subrange(4, end)] + more, rest)
    }
}

/// Reads up to `count` records, each a C string followed by `width` more
/// bytes; gives, for each, the string's bytes and the bytes after its
/// terminator, then the bytes after the records.
pub open spec fn read_c_string_records(bytes: Seq<u8>, width: nat, count: nat) -> (
    Seq<(Seq<u8>, Seq<u8>)>,
    Seq<u8>,
)
    decreases count,
{
    if count == 0 {
        (Seq::empty(), bytes)
    } else {
        let name = read_c_string(bytes);
        let start: int = name.len() + 1int;
        let end: int = start + width;
        if end <= bytes.len() {
            let (more, rest) = read_c_string_records(bytes.skip(end), width, (count - 1) as nat);
            (seq![(name, bytes.subrange(start, end))] + more, rest)
        } else {
            (Seq::empty(), bytes)
        }
    }
}

/// Reads fields, each a nonzero code byte followed by a C string, up to a
/// zero code byte or the end of the bytes.
pub open spec fn read_coded_fields(bytes: Seq<u8>) -> Seq<(u8, Seq<u8>)>
    decreases bytes.len(),
{
    if bytes.len() == 0 || bytes[0] == 0 {
        Seq::empty()
    } else {
        let value = read_c_string(bytes.drop_first());
        let next: int = 2int + value.len();
        if next <= bytes.len() {
            seq![(bytes[0], value)] + read_coded_fields(bytes.skip(next))
        } else {
            seq![(bytes[0], value)]
        }
    }
}

proof fn lemma_scalar_bytes_nonzero(v: u32)
    requires
        is_scalar(v),
        v != 0,
    ensures
        has_no_zero_byte(encode_scalar(v)),
{
    assert(1 <= v <= 0x7F ==> leading_byte_width_1(v) != 0) by (bit_vector);
    assert(leading_byte_width_2(v) != 0) by (bit_vector);
    assert(leading_byte_width_3(v) != 0) by (bit_vector);
    assert(leading_byte_width_4(v) != 0) by (bit_vector);
    assert(last_continuation_byte(v) != 0) by (bit_vector);
    assert(second_last_continuation_byte(v) != 0) by (bit_vector);
    assert(third_last_continuation_byte(v) != 0) by (bit_vector);
}

/// The UTF-8 encoding of a string without U+0000 holds no zero byte.
pub proof fn lemma_utf8_has_no_zero_byte(s: Seq<char>)
    requires
        has_no_nul(s),
    ensures
        has_no_zero_byte(encode_utf8(s)),
    decreases s.len(),
{
    if s.len() > 0 {
        let c = s[0];
        char_is_scalar(c);
        assert(c != '\0');
        if c as u32 == 0 {
            char_u32_cast(c, c as u32);
            assert((0u32 as char) == '\0');
        }
        lemma_scalar_bytes_nonzero(c as u32);
        assert(has_no_nul(s.drop_first()));
        lemma_utf8_has_no_zero_byte(s.drop_first());
        let a = encode_scalar(c as u32);
        let b = encode_utf8(s.drop_first());
        assert(encode_utf8(s) == a + b);
        assert forall|i: int| 0 <= i < (a + b).len() implies (a + b)[i] != 0 by {
            if i < a.len() {
                assert((a + b)[i] == a[i]);
            } else {
                assert((a + b)[i] == b[i - a.len()]);
            }
        }
    }
}

/// A C string written as bytes without a zero, then a zero byte, reads back
/// as exactly those bytes, whatever follows.
pub proof fn lemma_read_c_string(b: Seq<u8>, rest: Seq<u8>)
    requires
        has_no_zero_byte(b),
    ensures
        c_string_len(b.push(0) + rest) == b.len(),
        read_c_string(b.push(0) + rest) == b,
    decreases b.len(),
{
    let s = b.push(0) + rest;
    if b.len() == 0 {
        assert(s[0] == 0);
    } else {
        assert(s[0] == b[0]);
        assert(s.drop_first() =~= b.drop_first().push(0) + rest);
        lemma_read_c_string(b.drop_first(), rest);
    }
    assert(s.take(b.len() as int) =~= b);
}

} // verus!
