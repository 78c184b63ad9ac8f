//! FNV-1a hashing of byte strings, and hexadecimal rendering of numbers.
use vstd::prelude::*;
use vstd::string::StringSliceAdditionalSpecFns;

verus! {

/// The FNV-1a 64-bit offset basis.
pub const FNV_OFFSET: u64 = 0xcbf29ce484222325;

/// The FNV-1a 64-bit prime.
pub const FNV_PRIME: u64 = 0x100000001b3;

/// One FNV-1a step: mix in a byte, then multiply (wrapping).
pub open spec fn fnv_step(h: u64, b: u8) -> u64 {
    vstd::wrapping::u64_specs::wrapping_mul(h ^ (b as u64), FNV_PRIME)
}

/// FNV-1a of `bytes`, starting from hash state `h`.
pub open spec fn fnv_from(h: u64, bytes: Seq<u8>) -> u64
    decreases bytes.len(),
{
    if bytes.len() == 0 {
        h
    } else {
        fnv_step(fnv_from(h, bytes.drop_last()), bytes.last())
    }
}

/// FNV-1a of `bytes`.
pub open spec fn fnv(bytes: Seq<u8>) -> u64 {
    fnv_from(FNV_OFFSET, bytes)
}

/// Continues an FNV-1a hash over `bytes`.
pub fn fnv_extend(h: u64, bytes: &[u8]) -> (r: u64)
    ensures
        r == fnv_from(h, bytes@),
{
    let mut hash = h;
    let mut i: usize = 0;
    while i < bytes.len()
        invariant
            i <= bytes@.len(),
            hash == fnv_from(h, bytes@.take(i as int)),
        decreases bytes@.len() - i,
    {
        assert(bytes@.take(i + 1).drop_last() =~= bytes@.take(i as int));
        hash = (hash ^ (bytes[i] as u64)).wrapping_mul(FNV_PRIME);
        i = i + 1;
    }
    assert(bytes@.take(i as int) =~= bytes@);
    hash
}

/// FNV-1a of the UTF-8 bytes of a string.
pub fn simple_hash(s: &str) -> (r: u64)
    ensures
        r == fnv(s.spec_bytes()),
{
    fnv_extend(FNV_OFFSET, s.as_bytes())
}

/// The lowercase hexadecimal digit for `d < 16`.
pub open spec fn hex_digit(d: nat) -> char {
    if d < 10 {
        (('0' as nat) + d) as char
    } else {
        (('a' as nat) + d - 10) as char
    }
}

/// The lowercase hexadecimal rendering of `n`, without leading zeros.
pub open spec fn hex_of(n: nat) -> Seq<char>
    decreases n,
{
    if n < 16 {
        seq![hex_digit(n)]
    } else {
        hex_of(n / 16).push(hex_digit(n % 16))
    }
}

fn hex_digit_exec(d: u64) -> (c: char)
    requires
        d < 16,
    ensures
        c == hex_digit(d as nat),
{
    if d < 10 {
        let v: u8 = (48 + d) as u8;
        v as char
    } else {
        let v: u8 = (87 + d) as u8;
        v as char
    }
}

/// Appends the hexadecimal rendering of `n` to `out`.
pub fn push_hex(n: u64, out: &mut String)
    ensures
        final(out)@ == old(out)@ + hex_of(n as nat),
    decreases n,
{
    if n >= 16 {
        push_hex(n / 16, out);
    }
    let ghost mid = out@;
    crate::text::push_char(out, hex_digit_exec(n % 16));
    proof {
        if n >= 16 {
            assert(out@ =~= old(out)@ + hex_of(n as nat));
        } else {
            assert(out@ =~= old(out)@ + hex_of(n as nat));
        }
    }
}

/// The lowercase hexadecimal rendering of `n` (as `format!("{:x}", n)` gives).
pub fn to_hex(n: u64) -> (r: String)
    ensures
        r@ == hex_of(n as nat),
{
    let mut r = String::new();
    push_hex(n, &mut r);
    assert(r@ =~= hex_of(n as nat));
    r
}

} // verus!
