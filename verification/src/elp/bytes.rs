//! Integers in host byte order, read from bytes.
use vstd::prelude::*;

verus! {

/// The value of the two bytes at `at`, little- or big-endian.
pub open spec fn u16_at(b: Seq<u8>, at: int, little_endian: bool) -> u16 {
    if little_endian {
        (b[at] + 256 * b[at + 1]) as u16
    } else {
        (b[at + 1] + 256 * b[at]) as u16
    }
}

/// The value of the four bytes at `at`, little- or big-endian.
pub open spec fn u32_at(b: Seq<u8>, at: int, little_endian: bool) -> u32 {
    if little_endian {
        (b[at] + 256 * b[at + 1] + 65536 * b[at + 2] + 16777216 * b[at + 3]) as u32
    } else {
        (b[at + 3] + 256 * b[at + 2] + 65536 * b[at + 1] + 16777216 * b[at]) as u32
    }
}

/// Reads the two bytes at `at` as an integer in the given byte order.
pub fn read_u16(bytes: &[u8], at: usize, little_endian: bool) -> (r: u16)
    requires
        at + 2 <= bytes@.len(),
    ensures
        r == u16_at(bytes@, at as int, little_endian),
{
    let b0 = bytes[at] as u16;
    let b1 = bytes[at + 1] as u16;
    if little_endian {
        b0 + 256 * b1
    } else {
        b1 + 256 * b0
    }
}

/// Reads the four bytes at `at` as an integer in the given byte order.
pub fn read_u32(bytes: &[u8], at: usize, little_endian: bool) -> (r: u32)
    requires
        at + 4 <= bytes@.len(),
    ensures
        r == u32_at(bytes@, at as int, little_endian),
{
    let b0 = bytes[at] as u32;
    let b1 = bytes[at + 1] as u32;
    let b2 = bytes[at + 2] as u32;
    let b3 = bytes[at + 3] as u32;
    if little_endian {
        b0 + 256 * b1 + 65536 * b2 + 16777216 * b3
    } else {
        b3 + 256 * b2 + 65536 * b1 + 16777216 * b0
    }
}

/// The two bytes of `x`, in the given byte order.
pub open spec fn u16_bytes(x: u16, little_endian: bool) -> Seq<u8> {
    let lo = (x % 256) as u8;
    let hi = (x / 256) as u8;
    if little_endian {
        seq![lo, hi]
    } else {
        seq![hi, lo]
    }
}

/// The four bytes of `x`, in the given byte order.
pub open spec fn u32_bytes(x: u32, little_endian: bool) -> Seq<u8> {
    let b0 = (x % 256) as u8;
    let b1 = ((x / 256) % 256) as u8;
    let b2 = ((x / 65536) % 256) as u8;
    let b3 = (x / 16777216) as u8;
    if little_endian {
        seq![b0, b1, b2, b3]
    } else {
        seq![b3, b2, b1, b0]
    }
}

/// Appends the two bytes of `x` in the given byte order.
pub fn push_u16(out: &mut Vec<u8>, x: u16, little_endian: bool)
    ensures
        final(out)@ == old(out)@ + u16_bytes(x, little_endian),
{
    let lo = (x % 256) as u8;
    let hi = (x / 256) as u8;
    if little_endian {
        out.push(lo);
        out.push(hi);
    } else {
        out.push(hi);
        out.push(lo);
    }
    proof {
        assert(final(out)@ =~= old(out)@ + u16_bytes(x, little_endian));
    }
}

/// Appends the four bytes of `x` in the given byte order.
pub fn push_u32(out: &mut Vec<u8>, x: u32, little_endian: bool)
    ensures
        final(out)@ == old(out)@ + u32_bytes(x, little_endian),
{
    let b0 = (x % 256) as u8;
    let b1 = ((x / 256) % 256) as u8;
    let b2 = ((x / 65536) % 256) as u8;
    let b3 = (x / 16777216) as u8;
    if little_endian {
        out.push(b0);
        out.push(b1);
        out.push(b2);
        out.push(b3);
    } else {
        out.push(b3);
        out.push(b2);
        out.push(b1);
        out.push(b0);
    }
    proof {
        assert(final(out)@ =~= old(out)@ + u32_bytes(x, little_endian));
    }
}

/// Reading back the bytes of an integer gives the integer.
pub proof fn lemma_u32_round_trip(x: u32, little_endian: bool, prefix: Seq<u8>, suffix: Seq<u8>)
    ensures
        u32_at(prefix + u32_bytes(x, little_endian) + suffix, prefix.len() as int, little_endian) == x,
{
    let b = prefix + u32_bytes(x, little_endian) + suffix;
    let n = prefix.len() as int;
    assert(b[n] == u32_bytes(x, little_endian)[0]);
    assert(b[n + 1] == u32_bytes(x, little_endian)[1]);
    assert(b[n + 2] == u32_bytes(x, little_endian)[2]);
    assert(b[n + 3] == u32_bytes(x, little_endian)[3]);
    let xi = x as int;
    assert(xi == xi % 256 + 256 * ((xi / 256) % 256) + 65536 * ((xi / 65536) % 256) + 16777216 * (xi / 16777216)) by (nonlinear_arith)
        requires
            0 <= xi < 0x1_0000_0000,
    ;
}

/// Reading back the bytes of an integer gives the integer.
pub proof fn lemma_u16_round_trip(x: u16, little_endian: bool, prefix: Seq<u8>, suffix: Seq<u8>)
    ensures
        u16_at(prefix + u16_bytes(x, little_endian) + suffix, prefix.len() as int, little_endian) == x,
{
    let b = prefix + u16_bytes(x, little_endian) + suffix;
    let n = prefix.len() as int;
    assert(b[n] == u16_bytes(x, little_endian)[0]);
    assert(b[n + 1] == u16_bytes(x, little_endian)[1]);
}

} // verus!
