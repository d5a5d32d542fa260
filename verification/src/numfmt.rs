//! Verified textual encoding of numbers into byte buffers: decimal for
//! coordinates and sizes, hexadecimal for color channels.
use vstd::prelude::*;
use vstd::string::StringSliceAdditionalSpecFns;

verus! {

/// The decimal digits of `n`, most significant first, as ASCII bytes.
pub open spec fn dec_digits(n: nat) -> Seq<u8>
    decreases n,
{
    if n < 10 {
        seq![(48 + n) as u8]
    } else {
        dec_digits(n / 10) + seq![(48 + n % 10) as u8]
    }
}

/// The decimal rendering of `v`: its digits, preceded by `-` if negative.
pub open spec fn dec_bytes(v: int) -> Seq<u8> {
    if v < 0 {
        seq![45u8] + dec_digits((-v) as nat)
    } else {
        dec_digits(v as nat)
    }
}

/// Appends the decimal digits of `v` to `buf`.
pub fn push_u64(buf: &mut Vec<u8>, v: u64)
    ensures
        final(buf)@ == old(buf)@ + dec_digits(v as nat),
    decreases v,
{
    if v >= 10 {
        push_u64(buf, v / 10);
    }
    buf.push(48 + (v % 10) as u8);
    proof {
        if v >= 10 {
            assert(buf@ =~= old(buf)@ + dec_digits(v as nat));
        } else {
            assert(buf@ =~= old(buf)@ + dec_digits(v as nat));
        }
    }
}

/// Appends the decimal rendering of `v`, with its sign, to `buf`.
pub fn push_i64(buf: &mut Vec<u8>, v: i64)
    ensures
        final(buf)@ == old(buf)@ + dec_bytes(v as int),
{
    if v >= 0 {
        push_u64(buf, v as u64);
    } else {
        buf.push(45);
        let mag: u64 = ((-(v + 1)) as u64) + 1;
        assert(mag == -(v as int));
        push_u64(buf, mag);
        assert(buf@ =~= old(buf)@ + dec_bytes(v as int));
    }
}

/// The lowercase hexadecimal digit for a value below 16, as an ASCII byte.
pub open spec fn hex_digit(n: nat) -> u8 {
    if n < 10 {
        (48 + n) as u8
    } else {
        (87 + n) as u8
    }
}

/// Two lowercase hexadecimal digits for one byte.
pub open spec fn hex_byte(b: u8) -> Seq<u8> {
    seq![hex_digit((b >> 4) as nat), hex_digit((b & 15) as nat)]
}

fn hex_digit_exec(n: u8) -> (r: u8)
    requires
        n < 16,
    ensures
        r == hex_digit(n as nat),
{
    if n < 10 {
        48 + n
    } else {
        87 + n
    }
}

/// Appends the two hexadecimal digits of `b` to `buf`.
pub fn push_hex_byte(buf: &mut Vec<u8>, b: u8)
    ensures
        final(buf)@ == old(buf)@ + hex_byte(b),
{
    let hi = b >> 4;
    let lo = b & 15;
    assert(hi < 16 && lo < 16) by (bit_vector)
        requires
            hi == b >> 4 && lo == b & 15,
    ;
    buf.push(hex_digit_exec(hi));
    buf.push(hex_digit_exec(lo));
    assert(buf@ =~= old(buf)@ + hex_byte(b));
}

/// Appends the bytes of `s` to `buf`.
pub fn push_str_bytes(buf: &mut Vec<u8>, s: &str)
    ensures
        final(buf)@ == old(buf)@ + s.spec_bytes(),
{
    let bs = s.as_bytes();
    buf.extend_from_slice(bs);
}

} // verus!
