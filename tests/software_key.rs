use ed25519_dalek::{Signature, Verifier};
use tmkms_core::engine::{SigningEngine, SigningRequest};
use tmkms_core::error::SigningError;
use tmkms_core::provider::SoftwareKey;
use tmkms_core::vote::{BlockID, PartsSetHeader, SignVoteMsg, Time, Vote};

fn hex_bytes(s: &str) -> Vec<u8> {
    (0..s.len()).step_by(2).map(|i| u8::from_str_radix(&s[i..i + 2], 16).unwrap()).collect()
}

fn seed() -> [u8; 32] {
    hex_bytes("9d61b19deffd5a60ba844af492ec2cc44449c5697b326919703bac031cae7f60").try_into().unwrap()
}

fn request(height: i64, block: &[u8]) -> SigningRequest {
    SigningRequest {
        chain_id: "chain".to_string(),
        message: SignVoteMsg {
            vote: Some(Vote {
                validator_address: vec![1; 20],
                validator_index: 0,
                height,
                round: 0,
                timestamp: Some(Time { seconds: 1, nanos: 0 }),
                vote_type: 2,
                block_id: Some(BlockID {
                    hash: block.to_vec(),
                    parts_header: Some(PartsSetHeader { total: 1, hash: vec![7] }),
                }),
                signature: None,
            }),
        },
    }
}

#[test]
fn software_key_matches_known_answer() {
    let key = SoftwareKey::from_seed(seed());
    let mut want = hex_bytes("e5564300c360ac729086e2cc806e828a84877f1eb8e5d974d873e06522490155");
    want.extend(hex_bytes("5fb8821590a33bacc61e39701cf9b46bd25bf5f0595bbe24655141438e7a100b"));
    assert_eq!(key.sign(""), want);
}

#[test]
fn software_public_key_matches_known_answer() {
    let key = SoftwareKey::from_seed(seed());
    let want = hex_bytes("d75a980182b10ab7d54bfed3c964073a0ee172f3daa62325af021a68f707511a");
    assert_eq!(key.public_key(), want);
    assert_eq!(key.public_key(), key.public_key());
}

#[test]
fn software_signature_verifies_over_canonical_text() {
    let key = SoftwareKey::from_seed(seed());
    let req = request(5, b"block");
    let mut engine = SigningEngine::new();
    let sig = engine.handle_software(&req, &key).unwrap();
    assert_eq!(sig.len(), 64);
    let text = req.message.cannonicalize("chain").unwrap();
    let public_bytes: [u8; 32] = key.public_key().try_into().unwrap();
    let public = ed25519_dalek::VerifyingKey::from_bytes(&public_bytes).unwrap();
    let sig_bytes: [u8; 64] = sig.clone().try_into().unwrap();
    assert!(public.verify(text.as_bytes(), &Signature::from_bytes(&sig_bytes)).is_ok());
    assert_eq!(sig, key.sign(&text));
}

#[test]
fn software_engine_replays_and_refuses() {
    let key = SoftwareKey::from_seed(seed());
    let mut engine = SigningEngine::new();
    let first = engine.handle_software(&request(5, b"block"), &key).unwrap();
    assert_eq!(engine.handle_software(&request(5, b"block"), &key), Ok(first));
    assert_eq!(
        engine.handle_software(&request(5, b"other"), &key),
        Err(SigningError::DoubleSign { chain_id: "chain".to_string(), height: 5, round: 0 })
    );
    assert_eq!(
        engine.handle_software(&request(4, b"block"), &key),
        Err(SigningError::DoubleSign { chain_id: "chain".to_string(), height: 4, round: 0 })
    );
    assert!(engine.handle_software(&request(6, b"other"), &key).is_ok());
}
