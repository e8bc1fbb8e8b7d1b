//! Deterministic little-endian binary encoding of the token payloads.
//!
//! Strings are written as a 4-byte little-endian length followed by their
//! UTF-8 bytes; keys and UUIDs are written as their raw bytes.

use vstd::prelude::*;
use vstd::string::StringSliceAdditionalSpecFns;
use vstd::utf8::encode_utf8;

verus! {

/// The UTF-8 bytes of a character sequence; what `str::as_bytes` yields.
pub open spec fn str_bytes(s: Seq<char>) -> Seq<u8> {
    encode_utf8(s)
}

/// The four bytes of `v`, least significant first.
pub open spec fn u32_le_bytes(v: u32) -> Seq<u8> {
    seq![
        (v & 0xff) as u8,
        ((v >> 8) & 0xff) as u8,
        ((v >> 16) & 0xff) as u8,
        ((v >> 24) & 0xff) as u8,
    ]
}

/// The eight bytes of `v`, least significant first.
pub open spec fn u64_le_bytes(v: u64) -> Seq<u8> {
    seq![
        (v & 0xff) as u8,
        ((v >> 8) & 0xff) as u8,
        ((v >> 16) & 0xff) as u8,
        ((v >> 24) & 0xff) as u8,
        ((v >> 32) & 0xff) as u8,
        ((v >> 40) & 0xff) as u8,
        ((v >> 48) & 0xff) as u8,
        ((v >> 56) & 0xff) as u8,
    ]
}

/// A length-prefixed string: 4-byte little-endian byte count, then the bytes.
pub open spec fn encoded_str(bytes: Seq<u8>) -> Seq<u8> {
    u32_le_bytes(bytes.len() as u32) + bytes
}

/// A counted list of length-prefixed strings.
pub open spec fn encoded_str_list(items: Seq<Seq<u8>>) -> Seq<u8>
    decreases items.len(),
{
    if items.len() == 0 {
        Seq::empty()
    } else {
        encoded_str_list(items.drop_last()) + encoded_str(items.last())
    }
}

/// Append every byte of `bytes` to `buf`.
pub fn write_bytes(buf: &mut Vec<u8>, bytes: &[u8])
    ensures
        final(buf)@ == old(buf)@ + bytes@,
{
    let n = bytes.len();
    let mut i: usize = 0;
    while i < n
        invariant
            0 <= i <= n,
            n == bytes@.len(),
            buf@ == old(buf)@ + bytes@.subrange(0, i as int),
        decreases n - i,
    {
        let b = bytes[i];
        buf.push(b);
        proof {
            assert(bytes@.subrange(0, i + 1) =~= bytes@.subrange(0, i as int).push(bytes@[i as int]));
            assert(buf@ =~= old(buf)@ + bytes@.subrange(0, i + 1));
        }
        i += 1;
    }
    proof {
        assert(bytes@.subrange(0, n as int) =~= bytes@);
        assert(buf@ =~= old(buf)@ + bytes@);
    }
}

/// Append `v` to `buf` as four little-endian bytes.
pub fn write_u32_le(buf: &mut Vec<u8>, v: u32)
    ensures
        final(buf)@ == old(buf)@ + u32_le_bytes(v),
{
    proof {
        assert((v & 0xff) < 256 && ((v >> 8) & 0xff) < 256 && ((v >> 16) & 0xff) < 256 && ((v
            >> 24) & 0xff) < 256) by (bit_vector);
    }
    buf.push((v & 0xff) as u8);
    buf.push(((v >> 8) & 0xff) as u8);
    buf.push(((v >> 16) & 0xff) as u8);
    buf.push(((v >> 24) & 0xff) as u8);
    proof {
        assert(buf@ =~= old(buf)@ + u32_le_bytes(v));
    }
}

/// Append `v` to `buf` as eight little-endian bytes.
pub fn write_u64_le(buf: &mut Vec<u8>, v: u64)
    ensures
        final(buf)@ == old(buf)@ + u64_le_bytes(v),
{
    proof {
        assert((v & 0xff) < 256 && ((v >> 8) & 0xff) < 256 && ((v >> 16) & 0xff) < 256 && ((v
            >> 24) & 0xff) < 256 && ((v >> 32) & 0xff) < 256 && ((v >> 40) & 0xff) < 256 && ((v
            >> 48) & 0xff) < 256 && ((v >> 56) & 0xff) < 256) by (bit_vector);
    }
    buf.push((v & 0xff) as u8);
    buf.push(((v >> 8) & 0xff) as u8);
    buf.push(((v >> 16) & 0xff) as u8);
    buf.push(((v >> 24) & 0xff) as u8);
    buf.push(((v >> 32) & 0xff) as u8);
    buf.push(((v >> 40) & 0xff) as u8);
    buf.push(((v >> 48) & 0xff) as u8);
    buf.push(((v >> 56) & 0xff) as u8);
    proof {
        assert(buf@ =~= old(buf)@ + u64_le_bytes(v));
    }
}

/// Append a 256-bit key as its 32 raw bytes.
pub fn write_key(buf: &mut Vec<u8>, value: &[u8; 32])
    ensures
        final(buf)@ == old(buf)@ + value@,
{
    write_bytes(buf, value.as_slice());
}

/// Append a UUID as its 16 raw bytes (already in the serialized byte order).
pub fn write_uuid(buf: &mut Vec<u8>, value: &[u8; 16])
    ensures
        final(buf)@ == old(buf)@ + value@,
{
    write_bytes(buf, value.as_slice());
}

/// Append a string: 4-byte little-endian byte count, then its UTF-8 bytes.
pub fn write_str(buf: &mut Vec<u8>, value: &str)
    requires
        str_bytes(value@).len() <= u32::MAX,
    ensures
        final(buf)@ == old(buf)@ + encoded_str(str_bytes(value@)),
{
    let bytes = value.as_bytes();
    let len = bytes.len() as u32;
    write_u32_le(buf, len);
    write_bytes(buf, bytes);
    proof {
        assert(value.spec_bytes() == str_bytes(value@));
        assert(buf@ =~= old(buf)@ + encoded_str(str_bytes(value@)));
    }
}

/// Append a counted list of strings.
pub fn write_vec_str(buf: &mut Vec<u8>, value: &Vec<String>)
    requires
        value@.len() <= u32::MAX,
        forall|i: int| 0 <= i < value@.len() ==> str_bytes((#[trigger] value@[i])@).len()
            <= u32::MAX,
    ensures
        final(buf)@ == old(buf)@ + u32_le_bytes(value@.len() as u32) + encoded_str_list(
            value@.map_values(|s: String| str_bytes(s@)),
        ),
{
    let n = value.len();
    write_u32_le(buf, n as u32);
    let ghost items = value@.map_values(|s: String| str_bytes(s@));
    let mut i: usize = 0;
    while i < n
        invariant
            0 <= i <= n,
            n == value@.len(),
            items == value@.map_values(|s: String| str_bytes(s@)),
            forall|k: int| 0 <= k < value@.len() ==> str_bytes((#[trigger] value@[k])@).len()
                <= u32::MAX,
            buf@ == old(buf)@ + u32_le_bytes(n as u32) + encoded_str_list(
                items.subrange(0, i as int),
            ),
        decreases n - i,
    {
        write_str(buf, value[i].as_str());
        proof {
            assert(items.subrange(0, i + 1).drop_last() =~= items.subrange(0, i as int));
            assert(items.subrange(0, i + 1).last() == str_bytes(value@[i as int]@));
            assert(buf@ =~= old(buf)@ + u32_le_bytes(n as u32) + encoded_str_list(
                items.subrange(0, i + 1),
            ));
        }
        i += 1;
    }
    proof {
        assert(items.subrange(0, n as int) =~= items);
    }
}

} // verus!
