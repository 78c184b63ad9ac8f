//! SHA-256 and hexadecimal encoding of byte strings.
use vstd::prelude::*;
use sha2::Digest;
use vstd::string::StringSliceAdditionalSpecFns;
use vstd::utf8::encode_utf8;
use crate::hashing::hex_digit;

verus! {

/// What SHA-256 gives for a byte string.
pub uninterp spec fn sha256_digest(data: Seq<u8>) -> Seq<u8>;

/// SHA-256 of a byte string (`sha2::Sha256::digest`): a digest of 32 bytes
/// that depends on the bytes alone; the contract names it and says nothing
/// more of its value.
#[verifier::external_body]
pub(crate) fn sha256(data: &[u8]) -> (r: Vec<u8>)
    ensures
        r@ == sha256_digest(data@),
        r@.len() == 32,
{
    sha2::Sha256::digest(data).to_vec()
}

/// Lowercase hexadecimal, two digits per byte, high digit first.
pub open spec fn hex_bytes(b: Seq<u8>) -> Seq<char>
    decreases b.len(),
{
    if b.len() == 0 {
        Seq::empty()
    } else {
        hex_bytes(b.drop_last()) + seq![hex_digit((b.last() / 16) as nat), hex_digit((b.last() % 16) as nat)]
    }
}

/// `hex::encode`: each byte as two lowercase hexadecimal digits, high digit
/// first, as the crate's documentation and source give it.
#[verifier::external_body]
pub(crate) fn hex_encode(data: &[u8]) -> (r: String)
    ensures
        r@ == hex_bytes(data@),
{
    hex::encode(data)
}

/// SHA-256 of a byte string, in hexadecimal.
pub open spec fn sha256_hex(data: Seq<u8>) -> Seq<char> {
    hex_bytes(sha256_digest(data))
}

/// SHA-256 of a byte string, in hexadecimal.
pub fn sha256_hex_of(data: &[u8]) -> (r: String)
    ensures
        r@ == sha256_hex(data@),
        r@.len() == 64,
{
    let d = sha256(data);
    proof { lemma_hex_bytes_at(d@); }
    hex_encode(d.as_slice())
}

/// The text of the error `hex::decode` gives for bytes it cannot decode.
pub uninterp spec fn hex_decode_error(data: Seq<u8>) -> Seq<char>;

/// The value of a hexadecimal digit (either case).
pub open spec fn hex_val(b: u8) -> Option<u8> {
    if 48 <= b <= 57 {
        Some((b - 48) as u8)
    } else if 97 <= b <= 102 {
        Some((b - 87) as u8)
    } else if 65 <= b <= 70 {
        Some((b - 55) as u8)
    } else {
        None
    }
}

/// The bytes that pairs of hexadecimal digits stand for, high digit first.
pub open spec fn hex_pairs(d: Seq<u8>) -> Option<Seq<u8>>
    decreases d.len(),
{
    if d.len() < 2 {
        if d.len() == 0 { Some(Seq::empty()) } else { None }
    } else {
        match (hex_val(d[0]), hex_val(d[1]), hex_pairs(d.subrange(2, d.len() as int))) {
            (Some(h), Some(l), Some(rest)) => Some(seq![(h * 16 + l) as u8] + rest),
            _ => None,
        }
    }
}

/// What `hex::decode` gives for bytes: defined for an even number of
/// hexadecimal digits.
pub open spec fn hex_decoded(d: Seq<u8>) -> Option<Seq<u8>> {
    if d.len() % 2 != 0 { None } else { hex_pairs(d) }
}

/// `hex::decode` of a string's bytes.
#[verifier::external_body]
pub(crate) fn hex_decode(s: &str) -> (r: Result<Vec<u8>, String>)
    ensures
        match r {
            Ok(v) => hex_decoded(s.spec_bytes()) == Some(v@),
            Err(t) => hex_decoded(s.spec_bytes()) is None && t@ == hex_decode_error(s.spec_bytes()),
        },
{
    hex::decode(s).map_err(|e| e.to_string())
}

/// The UTF-8 bytes of ASCII text are the codes of its characters.
pub proof fn lemma_ascii_utf8(s: Seq<char>)
    requires
        forall|i: int| 0 <= i < s.len() ==> (#[trigger] s[i] as u32) < 128,
    ensures
        encode_utf8(s).len() == s.len(),
        forall|i: int| 0 <= i < s.len() ==> encode_utf8(s)[i] == (#[trigger] s[i] as u32) as u8,
    decreases s.len(),
{
    if s.len() > 0 {
        let c = s[0] as u32;
        assert(c < 128);
        assert((c & 0x7F) == c) by (bit_vector)
            requires
                c < 128,
        ;
        let t = s.drop_first();
        assert forall|i: int| 0 <= i < t.len() implies (#[trigger] t[i] as u32) < 128 by {
            assert(t[i] == s[i + 1]);
        }
        lemma_ascii_utf8(t);
        assert(encode_utf8(s) == seq![c as u8] + encode_utf8(t));
        assert forall|i: int| 0 <= i < s.len() implies encode_utf8(s)[i] == (#[trigger] s[i] as u32) as u8 by {
            if i > 0 {
                assert(t[i - 1] == s[i]);
            }
        }
    }
}

/// The digits of `hex_bytes`, position by position.
pub proof fn lemma_hex_bytes_at(b: Seq<u8>)
    ensures
        hex_bytes(b).len() == 2 * b.len(),
        forall|i: int| #![trigger b[i]] 0 <= i < b.len() ==> hex_bytes(b)[2 * i] == hex_digit((b[i] / 16) as nat)
            && hex_bytes(b)[2 * i + 1] == hex_digit((b[i] % 16) as nat),
    decreases b.len(),
{
    if b.len() > 0 {
        let t = b.drop_last();
        lemma_hex_bytes_at(t);
        assert forall|i: int| #![trigger b[i]] 0 <= i < b.len() implies hex_bytes(b)[2 * i] == hex_digit((b[i] / 16) as nat)
            && hex_bytes(b)[2 * i + 1] == hex_digit((b[i] % 16) as nat) by {
            if i < b.len() - 1 {
                assert(t[i] == b[i]);
            }
        }
    }
}

/// A hexadecimal digit is an ASCII character whose value is the digit's.
pub proof fn lemma_hex_digit(d: nat)
    requires
        d < 16,
    ensures
        (hex_digit(d) as u32) < 128,
        hex_val((hex_digit(d) as u32) as u8) == Some(d as u8),
{
}

/// The bytes of an even run of hexadecimal digits, pair by pair.
pub proof fn lemma_hex_pairs_at(d: Seq<u8>)
    requires
        d.len() % 2 == 0,
        forall|i: int| 0 <= i < d.len() ==> hex_val(#[trigger] d[i]) is Some,
    ensures
        hex_pairs(d) is Some,
        hex_pairs(d)->Some_0.len() * 2 == d.len(),
        forall|k: int| 0 <= k < d.len() / 2 ==> #[trigger] hex_pairs(d)->Some_0[k]
            == (hex_val(d[2 * k])->Some_0 * 16 + hex_val(d[2 * k + 1])->Some_0) as u8,
    decreases d.len(),
{
    if d.len() >= 2 {
        let t = d.subrange(2, d.len() as int);
        assert forall|i: int| 0 <= i < t.len() implies hex_val(#[trigger] t[i]) is Some by {
            assert(t[i] == d[i + 2]);
        }
        lemma_hex_pairs_at(t);
        assert(hex_val(d[0]) is Some && hex_val(d[1]) is Some);
        let r = hex_pairs(d)->Some_0;
        assert forall|k: int| 0 <= k < d.len() / 2 implies #[trigger] r[k]
            == (hex_val(d[2 * k])->Some_0 * 16 + hex_val(d[2 * k + 1])->Some_0) as u8 by {
            if k > 0 {
                assert(r[k] == hex_pairs(t)->Some_0[k - 1]);
                assert(t[2 * (k - 1)] == d[2 * k]);
                assert(t[2 * (k - 1) + 1] == d[2 * k + 1]);
            }
        }
    }
}

/// `hex::decode` gives back what `hex::encode` wrote.
#[verifier::spinoff_prover]
#[verifier::rlimit(40)]
pub proof fn lemma_hex_roundtrip(b: Seq<u8>)
    ensures
        hex_decoded(encode_utf8(hex_bytes(b))) == Some(b),
{
    let h = hex_bytes(b);
    lemma_hex_bytes_at(b);
    assert forall|i: int| 0 <= i < h.len() implies (#[trigger] h[i] as u32) < 128 && hex_val((h[i] as u32) as u8)
        == Some((if i % 2 == 0 { b[i / 2] / 16 } else { b[i / 2] % 16 }) as u8) by {
        let j = i / 2;
        assert(b[j] == b[j]);
        if i % 2 == 0 {
            assert(i == 2 * j);
            lemma_hex_digit((b[j] / 16) as nat);
        } else {
            assert(i == 2 * j + 1);
            lemma_hex_digit((b[j] % 16) as nat);
        }
    }
    lemma_ascii_utf8(h);
    let d = encode_utf8(h);
    assert forall|i: int| 0 <= i < d.len() implies hex_val(#[trigger] d[i]) is Some by {
        assert(d[i] == (h[i] as u32) as u8);
    }
    lemma_hex_pairs_at(d);
    let r = hex_pairs(d)->Some_0;
    assert forall|k: int| 0 <= k < b.len() implies r[k] == b[k] by {
        assert(r[k] == (hex_val(d[2 * k])->Some_0 * 16 + hex_val(d[2 * k + 1])->Some_0) as u8);
        assert(d[2 * k] == (h[2 * k] as u32) as u8);
        assert(d[2 * k + 1] == (h[2 * k + 1] as u32) as u8);
        assert((2 * k) % 2 == 0 && (2 * k) / 2 == k);
        assert((2 * k + 1) % 2 == 1 && (2 * k + 1) / 2 == k);
        assert(hex_val((h[2 * k] as u32) as u8) == Some((b[k] / 16) as u8));
        assert(hex_val((h[2 * k + 1] as u32) as u8) == Some((b[k] % 16) as u8));
    }
    assert(r =~= b);
}

} // verus!
