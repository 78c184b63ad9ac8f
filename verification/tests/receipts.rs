use a2a_rs::receipts::{compute_hash, compute_receipt_hash, Receipt, ReceiptChain, ReceiptError};
use ed25519_dalek::SigningKey;

fn signing_key() -> SigningKey {
    let mut secret_bytes = [0u8; 32];
    for (i, b) in secret_bytes.iter_mut().enumerate() {
        *b = (i as u8).wrapping_mul(37).wrapping_add(11);
    }
    SigningKey::from_bytes(&secret_bytes)
}

#[test]
fn test_receipt_creation() {
    let receipt = Receipt::new(b"observation", b"action", b"delta");

    assert_eq!(receipt.sequence, 0);
    assert!(receipt.previous_hash.is_none());
    assert!(!receipt.observation_hash.is_empty());
    assert!(!receipt.action_hash.is_empty());
    assert!(!receipt.delta_hash.is_empty());
    assert!(!receipt.receipt_hash.is_empty());
}

#[test]
fn test_receipt_hash_verification() {
    let receipt = Receipt::new(b"observation", b"action", b"delta");
    assert!(receipt.verify_hashes().is_ok());
}

#[test]
fn test_receipt_chain_creation() {
    let mut chain = ReceiptChain::new();
    assert!(chain.is_empty());

    chain.add_transition(b"obs1", b"act1", b"delta1");
    chain.add_transition(b"obs2", b"act2", b"delta2");

    assert_eq!(chain.len(), 2);
    assert!(chain.verify_integrity().is_ok());
}

#[test]
fn test_receipt_chain_linking() {
    let mut chain = ReceiptChain::new();

    chain.add_transition(b"obs1", b"act1", b"delta1");
    chain.add_transition(b"obs2", b"act2", b"delta2");
    chain.add_transition(b"obs3", b"act3", b"delta3");

    assert!(chain.get(0).unwrap().previous_hash.is_none());

    let receipt1_hash = &chain.get(0).unwrap().receipt_hash;
    assert_eq!(chain.get(1).unwrap().previous_hash.as_ref().unwrap(), receipt1_hash);

    let receipt2_hash = &chain.get(1).unwrap().receipt_hash;
    assert_eq!(chain.get(2).unwrap().previous_hash.as_ref().unwrap(), receipt2_hash);
}

#[test]
fn test_chain_integrity_verification() {
    let mut chain = ReceiptChain::new();

    chain.add_transition(b"obs1", b"act1", b"delta1");
    chain.add_transition(b"obs2", b"act2", b"delta2");

    assert!(chain.verify_integrity().is_ok());
}

#[test]
fn test_chain_tamper_detection() {
    let mut chain = ReceiptChain::new();

    chain.add_transition(b"obs1", b"act1", b"delta1");
    chain.add_transition(b"obs2", b"act2", b"delta2");

    chain.receipts[1].observation_hash = "tampered".to_string();

    assert!(chain.verify_integrity().is_err());
}

#[test]
fn test_receipt_signing() {
    let signing_key = signing_key();

    let mut receipt = Receipt::new(b"observation", b"action", b"delta");
    receipt.sign(&signing_key);

    assert!(receipt.signature.is_some());
    assert!(receipt.public_key.is_some());
    assert!(receipt.verify_signature().is_ok());
}

#[test]
fn test_signed_chain() {
    let signing_key = signing_key();

    let mut chain = ReceiptChain::new();
    chain.add_signed_transition(b"obs1", b"act1", b"delta1", &signing_key);
    chain.add_signed_transition(b"obs2", b"act2", b"delta2", &signing_key);

    assert!(chain.verify_integrity().is_ok());
}

#[test]
fn test_deterministic_hashing() {
    let hash1 = compute_hash(b"test data");
    let hash2 = compute_hash(b"test data");

    assert_eq!(hash1, hash2);
}

#[test]
fn test_hash_uniqueness() {
    let hash1 = compute_hash(b"data1");
    let hash2 = compute_hash(b"data2");

    assert_ne!(hash1, hash2);
}

#[test]
fn hashes_are_sha256_in_hex() {
    assert_eq!(
        compute_hash(b""),
        "e3b0c44298fc1c149afbf4c8996fb92427ae41e4649b934ca495991b7852b855"
    );
    assert_eq!(compute_receipt_hash("a", "b", "c"), compute_hash(b"abc"));
}

#[test]
fn verification_errors() {
    let chain = ReceiptChain::default();
    assert!(matches!(chain.verify_integrity(), Err(ReceiptError::EmptyChain)));
    assert_eq!(chain.describe(), "ReceiptChain(length=0)");

    let mut chain = ReceiptChain::new();
    chain.add_transition(b"o", b"a", b"d");
    chain.add_transition(b"o", b"a", b"d");
    chain.receipts[1].sequence = 5;
    match chain.verify_integrity() {
        Err(ReceiptError::ChainIntegrityViolation { index, reason }) => {
            assert_eq!(index, 1);
            assert_eq!(reason, "Sequence mismatch: expected 1, got 5");
        }
        other => panic!("unexpected {:?}", other),
    }
    chain.receipts[1].sequence = 1;
    chain.receipts[1].previous_hash = None;
    match chain.verify_integrity() {
        Err(ReceiptError::ChainIntegrityViolation { index, reason }) => {
            assert_eq!(index, 1);
            assert_eq!(reason, "Missing previous hash");
        }
        other => panic!("unexpected {:?}", other),
    }
    chain.receipts[0].previous_hash = Some("x".to_string());
    match chain.verify_integrity() {
        Err(ReceiptError::ChainIntegrityViolation { index, reason }) => {
            assert_eq!(index, 0);
            assert_eq!(reason, "Genesis receipt should not have previous hash");
        }
        other => panic!("unexpected {:?}", other),
    }

    let mut r = Receipt::new(b"o", b"a", b"d");
    assert!(matches!(r.verify_signature(), Err(ReceiptError::SignatureVerificationFailed { .. })));
    r.sign(&signing_key());
    r.receipt_hash = compute_hash(b"other");
    assert!(matches!(r.verify_signature(), Err(ReceiptError::SignatureVerificationFailed { .. })));
    r.signature = Some("abc".to_string());
    assert!(matches!(r.verify_signature(), Err(ReceiptError::InvalidSignature(_))));
    r.signature = Some("abcd".to_string());
    match r.verify_signature() {
        Err(ReceiptError::InvalidSignature(m)) => assert_eq!(m, "Invalid signature length"),
        other => panic!("unexpected {:?}", other),
    }
}
