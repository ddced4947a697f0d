//! Little-endian encoding of 32-bit signed integers.

use vstd::prelude::*;

verus! {

/// The two's complement value of `x`, read as an unsigned 32-bit number.
pub open spec fn unsigned_of(x: i32) -> int {
    if x < 0 {
        x + 0x1_0000_0000
    } else {
        x as int
    }
}

/// The four bytes of `x` in little-endian order.
pub open spec fn le_bytes(x: i32) -> Seq<u8> {
    let v = unsigned_of(x);
    seq![
        (v % 256) as u8,
        ((v / 256) % 256) as u8,
        ((v / 65536) % 256) as u8,
        (v / 16777216) as u8,
    ]
}

/// The unsigned value of the first four bytes of `b`, least significant first.
pub open spec fn le_unsigned(b: Seq<u8>) -> int
    recommends
        b.len() >= 4,
{
    b[0] + 256 * b[1] + 65536 * b[2] + 16777216 * b[3]
}

/// The signed 32-bit integer whose little-endian bytes start `b`.
pub open spec fn from_le(b: Seq<u8>) -> i32
    recommends
        b.len() >= 4,
{
    let v = le_unsigned(b);
    if v >= 0x8000_0000 {
        (v - 0x1_0000_0000) as i32
    } else {
        v as i32
    }
}

/// Decoding the bytes of `x` gives `x` back.
pub proof fn lemma_from_le_of_le_bytes(x: i32)
    ensures
        from_le(le_bytes(x)) == x,
        le_bytes(x).len() == 4,
{
    let v = unsigned_of(x);
    assert(0 <= v < 0x1_0000_0000);
    let b = le_bytes(x);
    assert(le_unsigned(b) == v) by (nonlinear_arith)
        requires
            0 <= v < 0x1_0000_0000,
            b[0] == v % 256,
            b[1] == (v / 256) % 256,
            b[2] == (v / 65536) % 256,
            b[3] == v / 16777216,
            le_unsigned(b) == b[0] + 256 * b[1] + 65536 * b[2] + 16777216 * b[3],
    ;
}

/// Every four bytes are the encoding of the integer they decode to.
pub proof fn lemma_le_bytes_of_from_le(b: Seq<u8>)
    requires
        b.len() == 4,
    ensures
        le_bytes(from_le(b)) == b,
{
    let v = le_unsigned(b);
    assert(0 <= v < 0x1_0000_0000);
    assert(unsigned_of(from_le(b)) == v);
    let e = le_bytes(from_le(b));
    assert(e[0] == b[0] && e[1] == b[1] && e[2] == b[2] && e[3] == b[3]) by (nonlinear_arith)
        requires
            0 <= b[0] < 256,
            0 <= b[1] < 256,
            0 <= b[2] < 256,
            0 <= b[3] < 256,
            v == b[0] + 256 * b[1] + 65536 * b[2] + 16777216 * b[3],
            e[0] == v % 256,
            e[1] == (v / 256) % 256,
            e[2] == (v / 65536) % 256,
            e[3] == v / 16777216,
    ;
    assert(e =~= b);
}

/// The decoded integer of four bytes is their little-endian two's
/// complement value: `b[0] + 256 b[1] + 65536 b[2] + 16777216 b[3]`, less
/// 2^32 when that sum reaches 2^31 (as `i32::from_le_bytes` reads them).
pub proof fn lemma_from_le_value(b: Seq<u8>)
    requires
        b.len() >= 4,
    ensures
        ({
            let v = b[0] as int + 256 * (b[1] as int) + 65536 * (b[2] as int) + 16777216 * (
            b[3] as int);
            from_le(b) as int == (if v >= 0x8000_0000 {
                v - 0x1_0000_0000
            } else {
                v
            })
        }),
{
    assert(0 <= le_unsigned(b) < 0x1_0000_0000);
}

/// The four bytes of `x` are its two's complement value written least
/// significant first (as `i32::to_le_bytes` writes them): each byte is below
/// 256 and `e[0] + 256 e[1] + 65536 e[2] + 16777216 e[3]` is `x`, plus 2^32
/// when `x` is negative.
pub proof fn lemma_le_bytes_value(x: i32)
    ensures
        le_bytes(x).len() == 4,
        ({
            let e = le_bytes(x);
            e[0] as int + 256 * (e[1] as int) + 65536 * (e[2] as int) + 16777216 * (e[3] as int)
                == (if x < 0 {
                x + 0x1_0000_0000
            } else {
                x as int
            })
        }),
{
    lemma_from_le_of_le_bytes(x);
    let v = unsigned_of(x);
    let e = le_bytes(x);
    assert(le_unsigned(e) == v) by (nonlinear_arith)
        requires
            0 <= v < 0x1_0000_0000,
            e[0] == v % 256,
            e[1] == (v / 256) % 256,
            e[2] == (v / 65536) % 256,
            e[3] == v / 16777216,
            le_unsigned(e) == e[0] + 256 * e[1] + 65536 * e[2] + 16777216 * e[3],
    ;
}

/// Appends the four little-endian bytes of `x` to `buf`.
pub fn push_i32_le(buf: &mut Vec<u8>, x: i32)
    ensures
        final(buf)@ == old(buf)@ + le_bytes(x),
        final(buf)@.len() == old(buf)@.len() + 4,
        final(buf)@.subrange(0, old(buf)@.len() as int) == old(buf)@,
        ({
            let n = old(buf)@.len() as int;
            let e = final(buf)@;
            e[n] as int + 256 * (e[n + 1] as int) + 65536 * (e[n + 2] as int) + 16777216 * (e[n
                + 3] as int) == (if x < 0 {
                x + 0x1_0000_0000
            } else {
                x as int
            })
        }),
{
    let v: i64 = if x < 0 {
        x as i64 + 0x1_0000_0000
    } else {
        x as i64
    };
    buf.push((v % 256) as u8);
    buf.push(((v / 256) % 256) as u8);
    buf.push(((v / 65536) % 256) as u8);
    buf.push((v / 16777216) as u8);
    assert(buf@ =~= old(buf)@ + le_bytes(x));
    assert(buf@.subrange(0, old(buf)@.len() as int) =~= old(buf)@);
    proof {
        lemma_le_bytes_value(x);
    }
}

/// The signed 32-bit integer stored little-endian at `at` in `b`.
pub fn read_i32_le(b: &[u8], at: usize) -> (x: i32)
    requires
        at + 4 <= b@.len(),
    ensures
        x == from_le(b@.subrange(at as int, at + 4)),
        ({
            let v = b@[at as int] as int + 256 * (b@[at + 1] as int) + 65536 * (b@[at + 2] as int)
                + 16777216 * (b@[at + 3] as int);
            x as int == (if v >= 0x8000_0000 {
                v - 0x1_0000_0000
            } else {
                v
            })
        }),
{
    let v: i64 = b[at] as i64 + 256 * (b[at + 1] as i64) + 65536 * (b[at + 2] as i64)
        + 16777216 * (b[at + 3] as i64);
    let ghost s = b@.subrange(at as int, at + 4);
    assert(v == le_unsigned(s));
    if v >= 0x8000_0000 {
        (v - 0x1_0000_0000) as i32
    } else {
        v as i32
    }
}

} // verus!
