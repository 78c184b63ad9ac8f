//! Receipts: hash-linked records of state transitions.
//!
//! A receipt binds an observation, an action and a state delta by their
//! SHA-256 hashes, and its own hash is the SHA-256 of the three hashes put
//! together. A chain links each receipt to the hash of the one before it,
//! numbers them from zero, and may sign each receipt hash with Ed25519.
use vstd::prelude::*;
use vstd::utf8::encode_utf8;
use ed25519_dalek::Signer;
use crate::digest::{hex_bytes, hex_decode, hex_decode_error, hex_decoded, hex_encode, lemma_hex_roundtrip, sha256_hex, sha256_hex_of};
use crate::json::{JsonValue, JsonView, clone_json};
use crate::text::{dec_of, owned, push_decimal, push_str, str_eq};
use crate::ambient::now_rfc3339;

verus! {

/// An Ed25519 signing key (`ed25519_dalek::SigningKey`).
#[verifier::external_type_specification]
#[verifier::external_body]
pub struct ExSigningKey(ed25519_dalek::SigningKey);

/// The signature Ed25519 gives for a message under a secret key.
pub uninterp spec fn ed25519_signature(secret: Seq<u8>, msg: Seq<u8>) -> Seq<u8>;

/// The public key of a secret key.
pub uninterp spec fn ed25519_public(secret: Seq<u8>) -> Seq<u8>;

/// What `VerifyingKey::from_bytes` says of 32 bytes: `None` for a valid
/// public key, else the text of its error.
pub uninterp spec fn ed25519_key_check(pk: Seq<u8>) -> Option<Seq<char>>;

/// What `VerifyingKey::verify` says of a signature of a message under a
/// valid public key: `None` when it verifies, else the text of its error.
pub uninterp spec fn ed25519_verify_check(pk: Seq<u8>, sig: Seq<u8>, msg: Seq<u8>) -> Option<Seq<char>>;

/// `SigningKey::to_bytes`: the 32 bytes of the secret key.
#[verifier::external_body]
fn secret_bytes(key: &ed25519_dalek::SigningKey) -> (r: Vec<u8>)
    ensures
        r@.len() == 32,
{
    key.to_bytes().to_vec()
}

/// `SigningKey::sign` (deterministic Ed25519, RFC 8032) of a message under
/// the key with these secret bytes. As Ed25519 promises, the signature
/// verifies under the public key of the secret.
#[verifier::external_body]
fn ed25519_sign(secret: &[u8], msg: &[u8]) -> (r: Vec<u8>)
    requires
        secret@.len() == 32,
    ensures
        r@ == ed25519_signature(secret@, msg@),
        r@.len() == 64,
        ed25519_verify_check(ed25519_public(secret@), r@, msg@) is None,
{
    let bytes: [u8; 32] = secret.try_into().unwrap();
    ed25519_dalek::SigningKey::from_bytes(&bytes).sign(msg).to_bytes().to_vec()
}

/// `SigningKey::verifying_key`: the public key of the key with these secret
/// bytes, as its 32 bytes; `VerifyingKey::from_bytes` accepts it again.
#[verifier::external_body]
fn ed25519_public_of(secret: &[u8]) -> (r: Vec<u8>)
    requires
        secret@.len() == 32,
    ensures
        r@ == ed25519_public(secret@),
        r@.len() == 32,
        ed25519_key_check(r@) is None,
{
    let bytes: [u8; 32] = secret.try_into().unwrap();
    ed25519_dalek::SigningKey::from_bytes(&bytes).verifying_key().to_bytes().to_vec()
}

/// Why a signature check failed.
pub enum SignatureFault {
    /// The public key is not a valid Ed25519 key.
    BadKey(String),
    /// The signature does not verify.
    BadSignature(String),
}

/// `VerifyingKey::from_bytes` and then `VerifyingKey::verify` of a message
/// against a signature; the error texts are the crate's.
#[verifier::external_body]
fn ed25519_verify(pk: &[u8], sig: &[u8], msg: &[u8]) -> (r: Result<(), SignatureFault>)
    requires
        pk@.len() == 32,
        sig@.len() == 64,
    ensures
        match r {
            Ok(()) => ed25519_key_check(pk@) is None && ed25519_verify_check(pk@, sig@, msg@) is None,
            Err(SignatureFault::BadKey(e)) => ed25519_key_check(pk@) == Some(e@),
            Err(SignatureFault::BadSignature(e)) => ed25519_key_check(pk@) is None
                && ed25519_verify_check(pk@, sig@, msg@) == Some(e@),
        },
{
    let pk_bytes: [u8; 32] = pk.try_into().unwrap();
    let sig_bytes: [u8; 64] = sig.try_into().unwrap();
    match ed25519_dalek::VerifyingKey::from_bytes(&pk_bytes) {
        Err(e) => Err(SignatureFault::BadKey(e.to_string())),
        Ok(key) => match ed25519_dalek::Verifier::verify(&key, msg, &ed25519_dalek::Signature::from_bytes(&sig_bytes)) {
            Ok(()) => Ok(()),
            Err(e) => Err(SignatureFault::BadSignature(e.to_string())),
        },
    }
}

/// Why a receipt operation failed.
#[derive(Debug, Clone)]
pub enum ReceiptError {
    ChainIntegrityViolation { index: usize, reason: String },
    SignatureVerificationFailed { receipt_hash: String, reason: String },
    InvalidSignature(String),
    InvalidPublicKey(String),
    EmptyChain,
    HexDecode(String),
}

/// The abstract content of a receipt error.
pub enum ReceiptErrorView {
    ChainIntegrityViolation { index: usize, reason: Seq<char> },
    SignatureVerificationFailed { receipt_hash: Seq<char>, reason: Seq<char> },
    InvalidSignature(Seq<char>),
    InvalidPublicKey(Seq<char>),
    EmptyChain,
    HexDecode(Seq<char>),
}

impl View for ReceiptError {
    type V = ReceiptErrorView;

    open spec fn view(&self) -> ReceiptErrorView {
        match self {
            ReceiptError::ChainIntegrityViolation { index, reason } => ReceiptErrorView::ChainIntegrityViolation {
                index: *index,
                reason: reason@,
            },
            ReceiptError::SignatureVerificationFailed { receipt_hash, reason } => ReceiptErrorView::SignatureVerificationFailed {
                receipt_hash: receipt_hash@,
                reason: reason@,
            },
            ReceiptError::InvalidSignature(s) => ReceiptErrorView::InvalidSignature(s@),
            ReceiptError::InvalidPublicKey(s) => ReceiptErrorView::InvalidPublicKey(s@),
            ReceiptError::EmptyChain => ReceiptErrorView::EmptyChain,
            ReceiptError::HexDecode(s) => ReceiptErrorView::HexDecode(s@),
        }
    }
}

/// The view of an outcome.
pub open spec fn outcome_view(r: Result<(), ReceiptError>) -> Result<(), ReceiptErrorView> {
    match r {
        Ok(()) => Ok(()),
        Err(e) => Err(e@),
    }
}

/// SHA-256 of data, in hexadecimal.
pub fn compute_hash(data: &[u8]) -> (r: String)
    ensures
        r@ == sha256_hex(data@),
        r@.len() == 64,
{
    sha256_hex_of(data)
}

/// The hash of a receipt: SHA-256 of its three hashes written one after the
/// other.
pub open spec fn receipt_digest(o: Seq<char>, a: Seq<char>, d: Seq<char>) -> Seq<char> {
    sha256_hex(encode_utf8(o + a + d))
}

/// The hash of a receipt from its three hashes.
pub fn compute_receipt_hash(observation_hash: &str, action_hash: &str, delta_hash: &str) -> (r: String)
    ensures
        r@ == receipt_digest(observation_hash@, action_hash@, delta_hash@),
        r@.len() == 64,
{
    let mut combined = owned(observation_hash);
    push_str(&mut combined, action_hash);
    push_str(&mut combined, delta_hash);
    compute_hash(combined.as_str().as_bytes())
}

/// A record of one state transition.
#[derive(Debug)]
pub struct Receipt {
    /// Its position in its chain.
    pub sequence: u64,
    /// When it was made, in RFC 3339.
    pub timestamp: String,
    pub observation_hash: String,
    pub action_hash: String,
    pub delta_hash: String,
    pub receipt_hash: String,
    /// The hash of the receipt before it in its chain.
    pub previous_hash: Option<String>,
    /// The Ed25519 signature of the receipt hash, in hexadecimal.
    pub signature: Option<String>,
    /// The public key of the signature, in hexadecimal.
    pub public_key: Option<String>,
    pub metadata: Option<JsonValue>,
}

/// The abstract content of a receipt.
pub struct ReceiptView {
    pub sequence: u64,
    pub timestamp: Seq<char>,
    pub observation_hash: Seq<char>,
    pub action_hash: Seq<char>,
    pub delta_hash: Seq<char>,
    pub receipt_hash: Seq<char>,
    pub previous_hash: Option<Seq<char>>,
    pub signature: Option<Seq<char>>,
    pub public_key: Option<Seq<char>>,
    pub metadata: Option<JsonView>,
}

/// The view of an optional string.
pub open spec fn opt_view(o: Option<String>) -> Option<Seq<char>> {
    match o {
        Some(s) => Some(s@),
        None => None,
    }
}

impl View for Receipt {
    type V = ReceiptView;

    open spec fn view(&self) -> ReceiptView {
        ReceiptView {
            sequence: self.sequence,
            timestamp: self.timestamp@,
            observation_hash: self.observation_hash@,
            action_hash: self.action_hash@,
            delta_hash: self.delta_hash@,
            receipt_hash: self.receipt_hash@,
            previous_hash: opt_view(self.previous_hash),
            signature: opt_view(self.signature),
            public_key: opt_view(self.public_key),
            metadata: match self.metadata {
                Some(m) => Some(m@),
                None => None,
            },
        }
    }
}

fn clone_opt_text(o: &Option<String>) -> (r: Option<String>)
    ensures
        opt_view(r) == opt_view(*o),
{
    match o {
        Some(t) => Some(t.clone()),
        None => None,
    }
}

impl Clone for Receipt {
    fn clone(&self) -> (r: Self)
        ensures
            r@ == self@,
    {
        Receipt {
            sequence: self.sequence,
            timestamp: self.timestamp.clone(),
            observation_hash: self.observation_hash.clone(),
            action_hash: self.action_hash.clone(),
            delta_hash: self.delta_hash.clone(),
            receipt_hash: self.receipt_hash.clone(),
            previous_hash: clone_opt_text(&self.previous_hash),
            signature: clone_opt_text(&self.signature),
            public_key: clone_opt_text(&self.public_key),
            metadata: match &self.metadata {
                Some(m) => Some(clone_json(m)),
                None => None,
            },
        }
    }
}

/// What checking a receipt's own hash gives.
pub open spec fn hashes_outcome(r: ReceiptView) -> Result<(), ReceiptErrorView> {
    let expected = receipt_digest(r.observation_hash, r.action_hash, r.delta_hash);
    if expected != r.receipt_hash {
        Err(ReceiptErrorView::ChainIntegrityViolation {
            index: r.sequence as usize,
            reason: "Receipt hash mismatch: expected "@ + expected + ", got "@ + r.receipt_hash,
        })
    } else {
        Ok(())
    }
}

/// What checking a receipt's signature gives.
pub open spec fn signature_outcome(r: ReceiptView) -> Result<(), ReceiptErrorView> {
    match r.signature {
        None => Err(ReceiptErrorView::SignatureVerificationFailed {
            receipt_hash: r.receipt_hash,
            reason: "No signature present"@,
        }),
        Some(sig) => match r.public_key {
            None => Err(ReceiptErrorView::SignatureVerificationFailed {
                receipt_hash: r.receipt_hash,
                reason: "No public key present"@,
            }),
            Some(pk) => match hex_decoded(encode_utf8(sig)) {
                None => Err(ReceiptErrorView::InvalidSignature(hex_decode_error(encode_utf8(sig)))),
                Some(sb) => if sb.len() != 64 {
                    Err(ReceiptErrorView::InvalidSignature("Invalid signature length"@))
                } else {
                    match hex_decoded(encode_utf8(pk)) {
                        None => Err(ReceiptErrorView::InvalidPublicKey(hex_decode_error(encode_utf8(pk)))),
                        Some(pb) => if pb.len() != 32 {
                            Err(ReceiptErrorView::InvalidPublicKey("Invalid public key length"@))
                        } else {
                            match ed25519_key_check(pb) {
                                Some(e) => Err(ReceiptErrorView::InvalidPublicKey(e)),
                                None => match ed25519_verify_check(pb, sb, encode_utf8(r.receipt_hash)) {
                                    Some(e) => Err(ReceiptErrorView::SignatureVerificationFailed {
                                        receipt_hash: r.receipt_hash,
                                        reason: e,
                                    }),
                                    None => Ok(()),
                                },
                            }
                        },
                    }
                },
            },
        },
    }
}

/// A receipt made from an observation, an action and a delta.
pub open spec fn fresh_receipt(r: ReceiptView, o: Seq<u8>, a: Seq<u8>, d: Seq<u8>) -> bool {
    &&& r.observation_hash == sha256_hex(o)
    &&& r.action_hash == sha256_hex(a)
    &&& r.delta_hash == sha256_hex(d)
    &&& r.receipt_hash == receipt_digest(sha256_hex(o), sha256_hex(a), sha256_hex(d))
    &&& r.signature is None
    &&& r.public_key is None
    &&& r.metadata is None
}

impl Receipt {
    /// A receipt of a transition, numbered 0 and linked to nothing.
    pub fn new(observation: &[u8], action: &[u8], delta: &[u8]) -> (r: Self)
        ensures
            fresh_receipt(r@, observation@, action@, delta@),
            r.sequence == 0,
            r.previous_hash is None,
    {
        let observation_hash = compute_hash(observation);
        let action_hash = compute_hash(action);
        let delta_hash = compute_hash(delta);
        let receipt_hash = compute_receipt_hash(observation_hash.as_str(), action_hash.as_str(), delta_hash.as_str());
        Receipt {
            sequence: 0,
            timestamp: now_rfc3339(),
            observation_hash,
            action_hash,
            delta_hash,
            receipt_hash,
            previous_hash: None,
            signature: None,
            public_key: None,
            metadata: None,
        }
    }

    /// A receipt of a transition with its place in a chain.
    pub fn with_chain_context(
        observation: &[u8],
        action: &[u8],
        delta: &[u8],
        sequence: u64,
        previous_hash: Option<String>,
    ) -> (r: Self)
        ensures
            fresh_receipt(r@, observation@, action@, delta@),
            r.sequence == sequence,
            r.previous_hash == previous_hash,
    {
        let mut receipt = Receipt::new(observation, action, delta);
        receipt.sequence = sequence;
        receipt.previous_hash = previous_hash;
        receipt
    }

    /// Signs the receipt hash with the key, and records the signature and
    /// the public key in hexadecimal.
    pub fn sign(&mut self, signing_key: &ed25519_dalek::SigningKey)
        ensures
            signature_outcome(final(self)@) is Ok,
            final(self).sequence == old(self).sequence,
            final(self).timestamp == old(self).timestamp,
            final(self).observation_hash == old(self).observation_hash,
            final(self).action_hash == old(self).action_hash,
            final(self).delta_hash == old(self).delta_hash,
            final(self).receipt_hash == old(self).receipt_hash,
            final(self).previous_hash == old(self).previous_hash,
            final(self).metadata == old(self).metadata,
            exists|secret: Seq<u8>| secret.len() == 32
                && final(self)@.signature == Some(hex_bytes(ed25519_signature(secret, encode_utf8(old(self).receipt_hash@))))
                && final(self)@.public_key == Some(hex_bytes(ed25519_public(secret))),
    {
        let secret = secret_bytes(signing_key);
        let sig = ed25519_sign(secret.as_slice(), self.receipt_hash.as_str().as_bytes());
        let pk = ed25519_public_of(secret.as_slice());
        self.signature = Some(hex_encode(sig.as_slice()));
        self.public_key = Some(hex_encode(pk.as_slice()));
        proof {
            lemma_hex_roundtrip(sig@);
            lemma_hex_roundtrip(pk@);
            assert(self@.signature == Some(hex_bytes(ed25519_signature(secret@, encode_utf8(self.receipt_hash@)))));
        }
    }

    /// Checks the signature of the receipt hash against the recorded
    /// public key.
    pub fn verify_signature(&self) -> (r: Result<(), ReceiptError>)
        ensures
            outcome_view(r) == signature_outcome(self@),
    {
        let sig = match &self.signature {
            Some(s) => s,
            None => {
                return Err(ReceiptError::SignatureVerificationFailed {
                    receipt_hash: self.receipt_hash.clone(),
                    reason: owned("No signature present"),
                });
            },
        };
        let pk = match &self.public_key {
            Some(p) => p,
            None => {
                return Err(ReceiptError::SignatureVerificationFailed {
                    receipt_hash: self.receipt_hash.clone(),
                    reason: owned("No public key present"),
                });
            },
        };
        let sig_bytes = match hex_decode(sig.as_str()) {
            Ok(b) => b,
            Err(e) => {
                return Err(ReceiptError::InvalidSignature(e));
            },
        };
        if sig_bytes.len() != 64 {
            return Err(ReceiptError::InvalidSignature(owned("Invalid signature length")));
        }
        let pk_bytes = match hex_decode(pk.as_str()) {
            Ok(b) => b,
            Err(e) => {
                return Err(ReceiptError::InvalidPublicKey(e));
            },
        };
        if pk_bytes.len() != 32 {
            return Err(ReceiptError::InvalidPublicKey(owned("Invalid public key length")));
        }
        match ed25519_verify(pk_bytes.as_slice(), sig_bytes.as_slice(), self.receipt_hash.as_str().as_bytes()) {
            Ok(()) => Ok(()),
            Err(SignatureFault::BadKey(e)) => Err(ReceiptError::InvalidPublicKey(e)),
            Err(SignatureFault::BadSignature(e)) => Err(ReceiptError::SignatureVerificationFailed {
                receipt_hash: self.receipt_hash.clone(),
                reason: e,
            }),
        }
    }

    /// Checks that the receipt hash is the hash of the three hashes.
    pub fn verify_hashes(&self) -> (r: Result<(), ReceiptError>)
        ensures
            outcome_view(r) == hashes_outcome(self@),
    {
        let expected = compute_receipt_hash(self.observation_hash.as_str(), self.action_hash.as_str(), self.delta_hash.as_str());
        if !str_eq(expected.as_str(), self.receipt_hash.as_str()) {
            let mut reason = owned("Receipt hash mismatch: expected ");
            push_str(&mut reason, expected.as_str());
            push_str(&mut reason, ", got ");
            push_str(&mut reason, self.receipt_hash.as_str());
            return Err(ReceiptError::ChainIntegrityViolation { index: self.sequence as usize, reason });
        }
        Ok(())
    }

    /// The receipt with metadata attached.
    pub fn with_metadata(self, metadata: JsonValue) -> (r: Self)
        ensures
            r.metadata == Some(metadata),
            r.sequence == self.sequence,
            r.timestamp == self.timestamp,
            r.observation_hash == self.observation_hash,
            r.action_hash == self.action_hash,
            r.delta_hash == self.delta_hash,
            r.receipt_hash == self.receipt_hash,
            r.previous_hash == self.previous_hash,
            r.signature == self.signature,
            r.public_key == self.public_key,
    {
        let mut r = self;
        r.metadata = Some(metadata);
        r
    }
}


/// What the checks of the receipt at position `i` of a chain give: its
/// number, its own hash, its link to the receipt before it, and its
/// signature when it has one.
pub open spec fn link_outcome(s: Seq<ReceiptView>, i: int) -> Result<(), ReceiptErrorView> {
    let r = s[i];
    let signed = if r.signature is Some { signature_outcome(r) } else { Ok(()) };
    if r.sequence != i {
        Err(ReceiptErrorView::ChainIntegrityViolation {
            index: i as usize,
            reason: "Sequence mismatch: expected "@ + dec_of(i as nat) + ", got "@ + dec_of(r.sequence as nat),
        })
    } else if hashes_outcome(r) is Err {
        hashes_outcome(r)
    } else if i == 0 {
        if r.previous_hash is Some {
            Err(ReceiptErrorView::ChainIntegrityViolation {
                index: 0,
                reason: "Genesis receipt should not have previous hash"@,
            })
        } else {
            signed
        }
    } else {
        match r.previous_hash {
            Some(p) => if p == s[i - 1].receipt_hash {
                signed
            } else {
                Err(ReceiptErrorView::ChainIntegrityViolation {
                    index: i as usize,
                    reason: "Previous hash mismatch: expected "@ + s[i - 1].receipt_hash + ", got "@ + p,
                })
            },
            None => Err(ReceiptErrorView::ChainIntegrityViolation { index: i as usize, reason: "Missing previous hash"@ }),
        }
    }
}

/// The first failing check from position `i` on, if any.
pub open spec fn chain_from(s: Seq<ReceiptView>, i: int) -> Result<(), ReceiptErrorView>
    decreases s.len() - i,
{
    if i < 0 || i >= s.len() {
        Ok(())
    } else if link_outcome(s, i) is Err {
        link_outcome(s, i)
    } else {
        chain_from(s, i + 1)
    }
}

/// Every receipt passes its checks.
pub open spec fn intact(s: Seq<ReceiptView>) -> bool {
    chain_from(s, 0) is Ok
}

/// What verifying a chain gives: an empty chain is refused, else the first
/// failing check, if any.
pub open spec fn chain_outcome(s: Seq<ReceiptView>) -> Result<(), ReceiptErrorView> {
    if s.len() == 0 { Err(ReceiptErrorView::EmptyChain) } else { chain_from(s, 0) }
}

/// The views of receipts.
pub open spec fn receipts_view(v: Seq<Receipt>) -> Seq<ReceiptView> {
    v.map_values(|r: Receipt| r@)
}

/// The checks of the receipts already there do not change when one is
/// appended.
proof fn lemma_chain_push(s: Seq<ReceiptView>, x: ReceiptView, i: int)
    requires
        0 <= i <= s.len(),
        chain_from(s, i) is Ok,
    ensures
        chain_from(s.push(x), i) == chain_from(s.push(x), s.len() as int),
    decreases s.len() - i,
{
    if i < s.len() {
        let t = s.push(x);
        assert(t[i] == s[i]);
        if i > 0 {
            assert(t[i - 1] == s[i - 1]);
        }
        assert(link_outcome(t, i) == link_outcome(s, i));
        lemma_chain_push(s, x, i + 1);
    }
}

/// A receipt appended with the right number and link, whose own hash is
/// right and whose signature, if any, verifies, keeps a chain intact.
pub proof fn lemma_append_intact(s: Seq<ReceiptView>, x: ReceiptView)
    requires
        intact(s),
        x.sequence == s.len(),
        x.previous_hash == (if s.len() == 0 { None } else { Some(s.last().receipt_hash) }),
        hashes_outcome(x) is Ok,
        x.signature is Some ==> signature_outcome(x) is Ok,
    ensures
        intact(s.push(x)),
{
    lemma_chain_push(s, x, 0);
    let t = s.push(x);
    assert(t[s.len() as int] == x);
    if s.len() > 0 {
        assert(t[s.len() - 1] == s.last());
    }
    assert(link_outcome(t, s.len() as int) is Ok);
    assert(chain_from(t, (s.len() + 1) as int) is Ok);
}

/// A chain of receipts, each linked to the one before it.
#[derive(Debug)]
pub struct ReceiptChain {
    pub receipts: Vec<Receipt>,
    pub metadata: Option<JsonValue>,
}

impl ReceiptChain {
    /// An empty chain.
    pub fn new() -> (r: Self)
        ensures
            r.receipts@.len() == 0,
            r.metadata is None,
    {
        ReceiptChain { receipts: Vec::new(), metadata: None }
    }

    /// The hash of the last receipt, if any.
    fn last_hash(&self) -> (r: Option<String>)
        ensures
            r matches Some(h) ==> self.receipts@.len() > 0 && h@ == self.receipts@.last().receipt_hash@,
            r is None ==> self.receipts@.len() == 0,
    {
        let n = self.receipts.len();
        if n == 0 {
            None
        } else {
            Some(self.receipts[n - 1].receipt_hash.clone())
        }
    }

    /// Appends a receipt, numbering it and linking it to the last one.
    pub fn add_receipt(&mut self, receipt: Receipt)
        requires
            old(self).receipts@.len() < u64::MAX,
        ensures
            final(self).metadata == old(self).metadata,
            final(self).receipts@.len() == old(self).receipts@.len() + 1,
            final(self).receipts@.drop_last() == old(self).receipts@,
            ({
                let x = final(self).receipts@.last();
                &&& x.sequence == old(self).receipts@.len()
                &&& x@.previous_hash == (if old(self).receipts@.len() == 0 { None } else {
                    Some(old(self).receipts@.last().receipt_hash@) })
                &&& x.timestamp == receipt.timestamp
                &&& x.observation_hash == receipt.observation_hash
                &&& x.action_hash == receipt.action_hash
                &&& x.delta_hash == receipt.delta_hash
                &&& x.receipt_hash == receipt.receipt_hash
                &&& x.signature == receipt.signature
                &&& x.public_key == receipt.public_key
                &&& x.metadata == receipt.metadata
            }),
            intact(receipts_view(old(self).receipts@)) && hashes_outcome(receipt@) is Ok
                && (receipt.signature is Some ==> signature_outcome(receipt@) is Ok)
                ==> intact(receipts_view(final(self).receipts@)),
    {
        let ghost before = self.receipts@;
        let mut receipt = receipt;
        let ghost orig = receipt;
        receipt.sequence = self.receipts.len() as u64;
        receipt.previous_hash = self.last_hash();
        let ghost x = receipt@;
        self.receipts.push(receipt);
        proof {
            assert(self.receipts@.drop_last() =~= before);
            assert(receipts_view(self.receipts@) =~= receipts_view(before).push(x));
            if before.len() > 0 {
                assert(receipts_view(before).last() == before.last()@);
            }
            if intact(receipts_view(before)) && hashes_outcome(orig@) is Ok
                && (orig.signature is Some ==> signature_outcome(orig@) is Ok) {
                assert(hashes_outcome(x) == hashes_outcome(orig@)) by {
                    assert(x.observation_hash == orig@.observation_hash);
                }
                assert(x.signature is Some ==> signature_outcome(x) == signature_outcome(orig@));
                lemma_append_intact(receipts_view(before), x);
            }
        }
    }

    /// Records a transition as the next receipt of the chain.
    pub fn add_transition(&mut self, observation: &[u8], action: &[u8], delta: &[u8]) -> (r: &Receipt)
        requires
            old(self).receipts@.len() < u64::MAX,
        ensures
            final(self).metadata == old(self).metadata,
            final(self).receipts@.len() == old(self).receipts@.len() + 1,
            final(self).receipts@.drop_last() == old(self).receipts@,
            fresh_receipt(final(self).receipts@.last()@, observation@, action@, delta@),
            final(self).receipts@.last().sequence == old(self).receipts@.len(),
            final(self).receipts@.last()@.previous_hash == (if old(self).receipts@.len() == 0 { None } else {
                Some(old(self).receipts@.last().receipt_hash@) }),
            intact(receipts_view(old(self).receipts@)) ==> intact(receipts_view(final(self).receipts@)),
            *r == final(self).receipts@.last(),
    {
        let ghost before = self.receipts@;
        let sequence = self.receipts.len() as u64;
        let previous_hash = self.last_hash();
        let receipt = Receipt::with_chain_context(observation, action, delta, sequence, previous_hash);
        let ghost x = receipt@;
        self.receipts.push(receipt);
        proof {
            assert(self.receipts@.drop_last() =~= before);
            assert(receipts_view(self.receipts@) =~= receipts_view(before).push(x));
            if before.len() > 0 {
                assert(receipts_view(before).last() == before.last()@);
            }
            if intact(receipts_view(before)) {
                lemma_append_intact(receipts_view(before), x);
            }
        }
        let n = self.receipts.len();
        &self.receipts[n - 1]
    }

    /// Records a transition as the next receipt of the chain, signed.
    pub fn add_signed_transition(
        &mut self,
        observation: &[u8],
        action: &[u8],
        delta: &[u8],
        signing_key: &ed25519_dalek::SigningKey,
    ) -> (r: &Receipt)
        requires
            old(self).receipts@.len() < u64::MAX,
        ensures
            final(self).metadata == old(self).metadata,
            final(self).receipts@.len() == old(self).receipts@.len() + 1,
            final(self).receipts@.drop_last() == old(self).receipts@,
            ({
                let x = final(self).receipts@.last()@;
                &&& x.observation_hash == sha256_hex(observation@)
                &&& x.action_hash == sha256_hex(action@)
                &&& x.delta_hash == sha256_hex(delta@)
                &&& x.receipt_hash == receipt_digest(x.observation_hash, x.action_hash, x.delta_hash)
                &&& signature_outcome(x) is Ok
                &&& x.metadata is None
            }),
            final(self).receipts@.last().sequence == old(self).receipts@.len(),
            final(self).receipts@.last()@.previous_hash == (if old(self).receipts@.len() == 0 { None } else {
                Some(old(self).receipts@.last().receipt_hash@) }),
            intact(receipts_view(old(self).receipts@)) ==> intact(receipts_view(final(self).receipts@)),
            *r == final(self).receipts@.last(),
    {
        let ghost before = self.receipts@;
        let sequence = self.receipts.len() as u64;
        let previous_hash = self.last_hash();
        let mut receipt = Receipt::with_chain_context(observation, action, delta, sequence, previous_hash);
        receipt.sign(signing_key);
        let ghost x = receipt@;
        self.receipts.push(receipt);
        proof {
            assert(self.receipts@.drop_last() =~= before);
            assert(receipts_view(self.receipts@) =~= receipts_view(before).push(x));
            if before.len() > 0 {
                assert(receipts_view(before).last() == before.last()@);
            }
            if intact(receipts_view(before)) {
                lemma_append_intact(receipts_view(before), x);
            }
        }
        let n = self.receipts.len();
        &self.receipts[n - 1]
    }

    /// Checks every receipt: its number, its own hash, its link to the one
    /// before it, and its signature when it has one. An empty chain is
    /// refused.
    pub fn verify_integrity(&self) -> (r: Result<(), ReceiptError>)
        ensures
            outcome_view(r) == chain_outcome(receipts_view(self.receipts@)),
    {
        let ghost s = receipts_view(self.receipts@);
        let n = self.receipts.len();
        if n == 0 {
            return Err(ReceiptError::EmptyChain);
        }
        let mut i: usize = 0;
        while i < n
            invariant
                s == receipts_view(self.receipts@),
                n == self.receipts@.len(),
                i <= n,
                chain_from(s, 0) == chain_from(s, i as int),
            decreases n - i,
        {
            let receipt = &self.receipts[i];
            assert(s[i as int] == receipt@);
            if i > 0 {
                assert(s[i - 1] == self.receipts@[i - 1]@);
            }
            let ghost link = link_outcome(s, i as int);
            if receipt.sequence != i as u64 {
                let mut reason = owned("Sequence mismatch: expected ");
                push_decimal(i as u64, &mut reason);
                push_str(&mut reason, ", got ");
                push_decimal(receipt.sequence, &mut reason);
                return Err(ReceiptError::ChainIntegrityViolation { index: i, reason });
            }
            match receipt.verify_hashes() {
                Ok(()) => {},
                Err(e) => {
                    return Err(e);
                },
            }
            if i == 0 {
                if receipt.previous_hash.is_some() {
                    return Err(ReceiptError::ChainIntegrityViolation {
                        index: i,
                        reason: owned("Genesis receipt should not have previous hash"),
                    });
                }
            } else {
                let expected = &self.receipts[i - 1].receipt_hash;
                match &receipt.previous_hash {
                    Some(prev) => {
                        if !str_eq(prev.as_str(), expected.as_str()) {
                            let mut reason = owned("Previous hash mismatch: expected ");
                            push_str(&mut reason, expected.as_str());
                            push_str(&mut reason, ", got ");
                            push_str(&mut reason, prev.as_str());
                            return Err(ReceiptError::ChainIntegrityViolation { index: i, reason });
                        }
                    },
                    None => {
                        return Err(ReceiptError::ChainIntegrityViolation { index: i, reason: owned("Missing previous hash") });
                    },
                }
            }
            if receipt.signature.is_some() {
                match receipt.verify_signature() {
                    Ok(()) => {},
                    Err(e) => {
                        return Err(e);
                    },
                }
            }
            assert(link is Ok);
            i = i + 1;
        }
        Ok(())
    }

    /// The number of receipts.
    pub fn len(&self) -> (r: usize)
        ensures
            r == self.receipts@.len(),
    {
        self.receipts.len()
    }

    /// `true` iff the chain holds no receipt.
    pub fn is_empty(&self) -> (r: bool)
        ensures
            r == (self.receipts@.len() == 0),
    {
        self.receipts.len() == 0
    }

    /// The receipt with this number, if any.
    pub fn get(&self, sequence: u64) -> (r: Option<&Receipt>)
        ensures
            r == (if sequence < self.receipts@.len() { Some(&self.receipts@[sequence as int]) } else { None }),
    {
        if sequence < self.receipts.len() as u64 {
            Some(&self.receipts[sequence as usize])
        } else {
            None
        }
    }

    /// The last receipt, if any.
    pub fn latest(&self) -> (r: Option<&Receipt>)
        ensures
            r == (if self.receipts@.len() > 0 { Some(&self.receipts@.last()) } else { None }),
    {
        let n = self.receipts.len();
        if n == 0 {
            None
        } else {
            Some(&self.receipts[n - 1])
        }
    }

    /// The chain with metadata attached.
    pub fn with_metadata(self, metadata: JsonValue) -> (r: Self)
        ensures
            r.receipts == self.receipts,
            r.metadata == Some(metadata),
    {
        let mut r = self;
        r.metadata = Some(metadata);
        r
    }

    /// A short description: `ReceiptChain(length=N)`.
    pub fn describe(&self) -> (r: String)
        ensures
            r@ == "ReceiptChain(length="@ + dec_of(self.receipts@.len() as nat) + ")"@,
    {
        let mut r = owned("ReceiptChain(length=");
        push_decimal(self.receipts.len() as u64, &mut r);
        push_str(&mut r, ")");
        r
    }
}

impl Default for ReceiptChain {
    fn default() -> (r: Self)
        ensures
            r.receipts@.len() == 0,
            r.metadata is None,
    {
        ReceiptChain::new()
    }
}

/// An empty chain is intact, and verifying it fails only because it is
/// empty.
pub proof fn lemma_empty_chain()
    ensures
        intact(Seq::<ReceiptView>::empty()),
        chain_outcome(Seq::<ReceiptView>::empty()) == Err::<(), ReceiptErrorView>(ReceiptErrorView::EmptyChain),
{
}


} // verus!
