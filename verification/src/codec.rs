use vstd::prelude::*;

verus! {

/// The value of `b` reinterpreted as a signed two's-complement byte,
/// in the range [-128, 127].
pub open spec fn i8_of(b: u8) -> int {
    if b < 0x80 {
        b as int
    } else {
        b as int - 0x100
    }
}

/// The unsigned value of four little-endian bytes.
pub open spec fn u32_le(b: Seq<u8>) -> int
    recommends
        b.len() == 4,
{
    b[0] as int + 0x100 * (b[1] as int) + 0x1_0000 * (b[2] as int) + 0x100_0000 * (b[3] as int)
}

/// The signed two's-complement value of four little-endian bytes,
/// in the range [-2^31, 2^31).
pub open spec fn i32_le(b: Seq<u8>) -> int
    recommends
        b.len() == 4,
{
    if u32_le(b) < 0x8000_0000 {
        u32_le(b)
    } else {
        u32_le(b) - 0x1_0000_0000
    }
}

/// Width in bytes of the compact integer starting at `pos`: one byte carries
/// a value in [-127, 127]; the sentinel byte -128 announces a full signed
/// 32-bit little-endian word behind it, five bytes in all.
pub open spec fn compact_width(buf: Seq<u8>, pos: int) -> int
    recommends
        0 <= pos < buf.len(),
{
    if i8_of(buf[pos]) == -128 {
        5
    } else {
        1
    }
}

/// Whether a whole compact integer lies inside the buffer at `pos`.
pub open spec fn compact_readable(buf: Seq<u8>, pos: int) -> bool {
    &&& 0 <= pos
    &&& pos + 1 <= buf.len()
    &&& pos + compact_width(buf, pos) <= buf.len()
}

/// The value of the compact integer at `pos`.
pub open spec fn compact_val(buf: Seq<u8>, pos: int) -> int
    recommends
        compact_readable(buf, pos),
{
    if i8_of(buf[pos]) == -128 {
        i32_le(buf.subrange(pos + 1, pos + 5))
    } else {
        i8_of(buf[pos])
    }
}

/// The two's-complement byte of a value in [-128, 127].
pub open spec fn i8_byte(v: int) -> u8
    recommends
        -0x80 <= v <= 0x7f,
{
    if v >= 0 {
        v as u8
    } else {
        (v + 0x100) as u8
    }
}

/// The four little-endian bytes of a value in [0, 2^32).
pub open spec fn u32_le_bytes(n: int) -> Seq<u8>
    recommends
        0 <= n < 0x1_0000_0000,
{
    seq![
        (n % 0x100) as u8,
        ((n / 0x100) % 0x100) as u8,
        ((n / 0x1_0000) % 0x100) as u8,
        ((n / 0x100_0000) % 0x100) as u8,
    ]
}

/// The compact encoding of `v`: a single byte for values in [-127, 127],
/// otherwise the sentinel byte 0x80 followed by the four little-endian bytes
/// of `v`'s 32-bit two's-complement representation.
pub open spec fn compact_encoding(v: int) -> Seq<u8>
    recommends
        -0x8000_0000 <= v < 0x8000_0000,
{
    if -0x7f <= v <= 0x7f {
        seq![i8_byte(v)]
    } else {
        seq![0x80u8] + u32_le_bytes(if v >= 0 { v } else { v + 0x1_0000_0000 })
    }
}

/// Reassembling the four little-endian bytes of `n` gives back `n`.
proof fn lemma_u32_le_bytes_roundtrip(n: int)
    requires
        0 <= n < 0x1_0000_0000,
    ensures
        u32_le(u32_le_bytes(n)) == n,
{
    let m = n as u32;
    assert(m % 0x100 + 0x100 * ((m / 0x100) % 0x100) + 0x1_0000 * ((m / 0x1_0000) % 0x100)
        + 0x100_0000 * ((m / 0x100_0000) % 0x100) == m) by (bit_vector);
}

/// Law: decoding inverts the compact encoding. A value in [-127, 127]
/// round-trips through its single-byte form, and every other 32-bit value
/// round-trips through the five-byte sentinel form.
pub proof fn lemma_compact_roundtrip(v: int)
    requires
        -0x8000_0000 <= v < 0x8000_0000,
    ensures
        compact_readable(compact_encoding(v), 0),
        compact_width(compact_encoding(v), 0) == compact_encoding(v).len(),
        compact_val(compact_encoding(v), 0) == v,
{
    if -0x7f <= v <= 0x7f {
        assert(compact_encoding(v)[0] == i8_byte(v));
    } else {
        let m = if v >= 0 { v } else { v + 0x1_0000_0000 };
        lemma_u32_le_bytes_roundtrip(m);
        assert(compact_encoding(v)[0] == 0x80u8);
        assert(compact_encoding(v).subrange(1, 5) =~= u32_le_bytes(m));
    }
}

} // verus!
