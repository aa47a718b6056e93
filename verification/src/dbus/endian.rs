//! Byte order of a D-Bus message and the integers written in it.

use vstd::prelude::*;

verus! {

/// Byte order of a message, as its first byte announces it.
#[derive(Debug, Clone, Copy, PartialEq, Eq, Structural)]
pub enum Endian {
    Little,
    Big,
}

/// The four bytes of `n`, least significant first.
pub open spec fn le4(n: u32) -> Seq<u8> {
    seq![
        (n % 256) as u8,
        (n / 256 % 256) as u8,
        (n / 65536 % 256) as u8,
        (n / 16777216) as u8,
    ]
}

/// The four bytes of `n` in byte order `endian`.
#[verifier::opaque]
pub open spec fn u32_bytes(endian: Endian, n: u32) -> Seq<u8> {
    match endian {
        Endian::Little => le4(n),
        Endian::Big => le4(n).reverse(),
    }
}

/// The number that four bytes stand for in byte order `endian`.
#[verifier::opaque]
pub open spec fn u32_value(endian: Endian, b: Seq<u8>) -> u32 {
    match endian {
        Endian::Little => (b[0] + 256 * b[1] + 65536 * b[2] + 16777216 * b[3]) as u32,
        Endian::Big => (b[3] + 256 * b[2] + 65536 * b[1] + 16777216 * b[0]) as u32,
    }
}

/// A `u32` takes four bytes.
pub broadcast proof fn u32_bytes_len(endian: Endian, n: u32)
    ensures
        #[trigger] u32_bytes(endian, n).len() == 4,
{
    reveal(u32_bytes);
}

/// The base-256 digits of a `u32`.
proof fn digits_round_trip(n: u32, b0: u8, b1: u8, b2: u8, b3: u8)
    ensures
        n == n % 256 + 256 * (n / 256 % 256) + 65536 * (n / 65536 % 256) + 16777216 * (n
            / 16777216),
        n / 16777216 < 256,
        ({
            let v = (b0 + 256 * b1 + 65536 * b2 + 16777216 * b3) as u32;
            &&& v == b0 + 256 * b1 + 65536 * b2 + 16777216 * b3
            &&& v % 256 == b0
            &&& v / 256 % 256 == b1
            &&& v / 65536 % 256 == b2
            &&& v / 16777216 == b3
        }),
{
    assert(n == n % 256 + 256 * (n / 256 % 256) + 65536 * (n / 65536 % 256) + 16777216 * (n
        / 16777216)) by (bit_vector);
    let v = (b0 + 256 * b1 + 65536 * b2 + 16777216 * b3) as u32;
    assert(v % 256 == b0 && v / 256 % 256 == b1 && v / 65536 % 256 == b2 && v / 16777216 == b3)
        by (bit_vector)
        requires
            v == b0 + 256 * b1 + 65536 * b2 + 16777216 * b3,
    ;
}

/// Four bytes and the number they stand for determine each other.
pub proof fn u32_bytes_round_trip(endian: Endian, n: u32, b: Seq<u8>)
    requires
        b.len() == 4,
    ensures
        u32_bytes(endian, n).len() == 4,
        u32_value(endian, u32_bytes(endian, n)) == n,
        u32_bytes(endian, u32_value(endian, b)) == b,
{
    reveal(u32_bytes);
    reveal(u32_value);
    let v = u32_value(endian, b);
    match endian {
        Endian::Little => {
            digits_round_trip(n, b[0], b[1], b[2], b[3]);
        },
        Endian::Big => {
            digits_round_trip(n, b[3], b[2], b[1], b[0]);
        },
    }
    assert(u32_bytes(endian, v) =~= b);
}

/// Writes `n` in byte order `endian`.
pub fn endian_u32(endian: Endian, n: u32) -> (out: [u8; 4])
    ensures
        out@ == u32_bytes(endian, n),
{
    let b0: u8 = (n % 256) as u8;
    let b1: u8 = (n / 256 % 256) as u8;
    let b2: u8 = (n / 65536 % 256) as u8;
    let b3: u8 = (n / 16777216) as u8;
    let out: [u8; 4] = match endian {
        Endian::Little => [b0, b1, b2, b3],
        Endian::Big => [b3, b2, b1, b0],
    };
    proof {
        reveal(u32_bytes);
        assert(out@ =~= u32_bytes(endian, n));
    }
    out
}

/// Reads the `u32` at `buf[at..at + 4]`.
pub fn read_u32(endian: Endian, buf: &[u8], at: usize) -> (n: u32)
    requires
        at + 4 <= buf@.len(),
    ensures
        n == u32_value(endian, buf@.subrange(at as int, at + 4)),
{
    proof {
        reveal(u32_value);
    }
    let b0: u32 = buf[at] as u32;
    let b1: u32 = buf[at + 1] as u32;
    let b2: u32 = buf[at + 2] as u32;
    let b3: u32 = buf[at + 3] as u32;
    match endian {
        Endian::Little => b0 + 256 * b1 + 65536 * b2 + 16777216 * b3,
        Endian::Big => b3 + 256 * b2 + 65536 * b1 + 16777216 * b0,
    }
}

/// The four bytes of `n` in two's complement and byte order `endian`.
pub open spec fn i32_bytes(endian: Endian, n: i32) -> Seq<u8> {
    u32_bytes(
        endian,
        if n < 0 {
            (n + 0x1_0000_0000) as u32
        } else {
            n as u32
        },
    )
}

/// The signed number that four bytes stand for in byte order `endian`.
pub open spec fn i32_value(endian: Endian, b: Seq<u8>) -> i32 {
    wrapped(u32_value(endian, b) as int)
}

/// The `i32` that differs from `n` by a multiple of 2^32, for an `n` that is at
/// most so far out of range.
pub open spec fn wrapped(n: int) -> i32 {
    if n > i32::MAX {
        (n - 0x1_0000_0000) as i32
    } else if n < i32::MIN {
        (n + 0x1_0000_0000) as i32
    } else {
        n as i32
    }
}

/// Four bytes and the signed number they stand for determine each other.
pub proof fn i32_bytes_round_trip(endian: Endian, n: i32, b: Seq<u8>)
    requires
        b.len() == 4,
    ensures
        i32_bytes(endian, n).len() == 4,
        i32_value(endian, i32_bytes(endian, n)) == n,
        i32_bytes(endian, i32_value(endian, b)) == b,
{
    u32_bytes_round_trip(
        endian,
        if n < 0 {
            (n + 0x1_0000_0000) as u32
        } else {
            n as u32
        },
        b,
    );
}

/// Writes `n` in two's complement and byte order `endian`.
pub fn endian_i32(endian: Endian, n: i32) -> (out: [u8; 4])
    ensures
        out@ == i32_bytes(endian, n),
{
    endian_u32(
        endian,
        if n < 0 {
            (n as i64 + 0x1_0000_0000) as u32
        } else {
            n as u32
        },
    )
}

/// Reads the `i32` at `buf[at..at + 4]`.
pub fn read_i32(endian: Endian, buf: &[u8], at: usize) -> (n: i32)
    requires
        at + 4 <= buf@.len(),
    ensures
        n == i32_value(endian, buf@.subrange(at as int, at + 4)),
{
    let n: u32 = read_u32(endian, buf, at);
    if n <= 0x7fff_ffff {
        n as i32
    } else {
        (n as i64 - 0x1_0000_0000) as i32
    }
}

/// Adds with wrap-around.
pub fn wrapping_sum(a: i32, b: i32) -> (sum: i32)
    ensures
        sum == wrapped(a + b),
{
    let n: i64 = a as i64 + b as i64;
    if n > 0x7fff_ffff {
        (n - 0x1_0000_0000) as i32
    } else if n < -0x8000_0000 {
        (n + 0x1_0000_0000) as i32
    } else {
        n as i32
    }
}

/// The eight bytes of `n` in byte order `endian`.
pub open spec fn u64_bytes(endian: Endian, n: u64) -> Seq<u8> {
    let low = u32_bytes(endian, (n % 0x1_0000_0000) as u32);
    let high = u32_bytes(endian, (n / 0x1_0000_0000) as u32);
    match endian {
        Endian::Little => low + high,
        Endian::Big => high + low,
    }
}

/// The number that eight bytes stand for in byte order `endian`.
pub open spec fn u64_value(endian: Endian, b: Seq<u8>) -> u64 {
    let first = u32_value(endian, b.take(4));
    let second = u32_value(endian, b.skip(4));
    match endian {
        Endian::Little => (first + 0x1_0000_0000 * second) as u64,
        Endian::Big => (second + 0x1_0000_0000 * first) as u64,
    }
}

/// A number is read back from its eight bytes.
pub proof fn u64_bytes_round_trip(endian: Endian, n: u64)
    ensures
        u64_bytes(endian, n).len() == 8,
        u64_value(endian, u64_bytes(endian, n)) == n,
{
    broadcast use u32_bytes_len;

    let low = (n % 0x1_0000_0000) as u32;
    let high = (n / 0x1_0000_0000) as u32;
    u32_bytes_round_trip(endian, low, u32_bytes(endian, low));
    u32_bytes_round_trip(endian, high, u32_bytes(endian, high));
    let b = u64_bytes(endian, n);
    match endian {
        Endian::Little => {
            assert(b.take(4) =~= u32_bytes(endian, low));
            assert(b.skip(4) =~= u32_bytes(endian, high));
        },
        Endian::Big => {
            assert(b.take(4) =~= u32_bytes(endian, high));
            assert(b.skip(4) =~= u32_bytes(endian, low));
        },
    }
}

/// The two bytes of `n` in byte order `endian`.
pub open spec fn u16_bytes(endian: Endian, n: u16) -> Seq<u8> {
    match endian {
        Endian::Little => seq![(n % 256) as u8, (n / 256) as u8],
        Endian::Big => seq![(n / 256) as u8, (n % 256) as u8],
    }
}

/// The number that two bytes stand for in byte order `endian`.
pub open spec fn u16_value(endian: Endian, b: Seq<u8>) -> u16 {
    match endian {
        Endian::Little => (b[0] + 256 * b[1]) as u16,
        Endian::Big => (b[1] + 256 * b[0]) as u16,
    }
}

/// A number is read back from its two bytes.
pub proof fn u16_bytes_round_trip(endian: Endian, n: u16)
    ensures
        u16_bytes(endian, n).len() == 2,
        u16_value(endian, u16_bytes(endian, n)) == n,
{
}

/// An `i16` in two's complement.
pub open spec fn i16_bits(n: i16) -> u16 {
    if n < 0 {
        (n + 0x1_0000) as u16
    } else {
        n as u16
    }
}

/// The `i16` of two's complement bits.
pub open spec fn i16_of_bits(bits: u16) -> i16 {
    if bits > i16::MAX {
        (bits - 0x1_0000) as i16
    } else {
        bits as i16
    }
}

/// An `i64` in two's complement.
pub open spec fn i64_bits(n: i64) -> u64 {
    if n < 0 {
        (n + 0x1_0000_0000_0000_0000) as u64
    } else {
        n as u64
    }
}

/// The `i64` of two's complement bits.
pub open spec fn i64_of_bits(bits: u64) -> i64 {
    if bits > i64::MAX {
        (bits - 0x1_0000_0000_0000_0000) as i64
    } else {
        bits as i64
    }
}

/// Signed numbers are read back from their bits.
pub proof fn bits_round_trip(n: i16, m: i64)
    ensures
        i16_of_bits(i16_bits(n)) == n,
        i64_of_bits(i64_bits(m)) == m,
{
}

/// Writes an `i16` in two's complement.
pub fn bits_of_i16(n: i16) -> (bits: u16)
    ensures
        bits == i16_bits(n),
{
    if n < 0 {
        (n as i32 + 0x1_0000) as u16
    } else {
        n as u16
    }
}

/// Reads two's complement bits as an `i16`.
pub fn i16_from_bits(bits: u16) -> (n: i16)
    ensures
        n == i16_of_bits(bits),
{
    if bits > 0x7fff {
        (bits as i32 - 0x1_0000) as i16
    } else {
        bits as i16
    }
}

/// Writes an `i64` in two's complement.
pub fn bits_of_i64(n: i64) -> (bits: u64)
    ensures
        bits == i64_bits(n),
{
    if n < 0 {
        (n as i128 + 0x1_0000_0000_0000_0000) as u64
    } else {
        n as u64
    }
}

/// Reads two's complement bits as an `i64`.
pub fn i64_from_bits(bits: u64) -> (n: i64)
    ensures
        n == i64_of_bits(bits),
{
    if bits > 0x7fff_ffff_ffff_ffff {
        (bits as i128 - 0x1_0000_0000_0000_0000) as i64
    } else {
        bits as i64
    }
}

} // verus!
