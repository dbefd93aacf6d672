//! Key providers: the closed set of places a signing key can live, and how
//! their failures are reported to the caller.

use vstd::prelude::*;

use ed25519_dalek::Signer;

use crate::error::SigningError;

verus! {

/// Where the signing key lives: a seed held in memory, or an Ed25519 key
/// object inside an HSM.
#[derive(Clone, Copy, Debug, PartialEq, Eq, Structural)]
pub enum KeyHandle {
    Software,
    Hsm { object_id: u16 },
}

/// How a provider's signing call went wrong.
#[derive(Clone, Copy, Debug, PartialEq, Eq, Structural)]
pub enum ProviderFailure {
    /// The connector did not answer before its deadline.
    Timeout,
    /// Transient transport error talking to the device.
    Io,
    /// The device refused the credentials.
    Authentication,
    /// The session was lost or is no longer valid.
    Session,
    /// The key object is not an Ed25519 key.
    Algorithm,
}

/// `e` reports provider failure `f` for the given chain, height and round:
/// timeouts and transport errors as `ProviderUnavailable`, credential and
/// session errors as `ProviderAuthFailure`, a key of another algorithm as
/// `ProviderAlgorithmMismatch`.
pub open spec fn reports_failure(e: SigningError, f: ProviderFailure, chain_id: Seq<char>, height: i64, round: i64) -> bool {
    match f {
        ProviderFailure::Timeout | ProviderFailure::Io => e matches SigningError::ProviderUnavailable {
            chain_id: c,
            height: h,
            round: r,
        } && c@ == chain_id && h == height && r == round,
        ProviderFailure::Authentication | ProviderFailure::Session => e matches SigningError::ProviderAuthFailure {
            chain_id: c,
            height: h,
            round: r,
        } && c@ == chain_id && h == height && r == round,
        ProviderFailure::Algorithm => e matches SigningError::ProviderAlgorithmMismatch {
            chain_id: c,
            height: h,
            round: r,
        } && c@ == chain_id && h == height && r == round,
    }
}

/// Report a provider failure on a request: timeouts and transport errors may
/// be retried (`ProviderUnavailable`), credential and session errors need a
/// new session (`ProviderAuthFailure`), and a key of another algorithm is a
/// configuration error (`ProviderAlgorithmMismatch`).
pub fn provider_error(f: ProviderFailure, chain_id: &String, height: i64, round: i64) -> (e: SigningError)
    ensures
        reports_failure(e, f, chain_id@, height, round),
{
    let chain_id = chain_id.clone();
    match f {
        ProviderFailure::Timeout | ProviderFailure::Io => SigningError::ProviderUnavailable { chain_id, height, round },
        ProviderFailure::Authentication | ProviderFailure::Session => SigningError::ProviderAuthFailure {
            chain_id,
            height,
            round,
        },
        ProviderFailure::Algorithm => SigningError::ProviderAlgorithmMismatch { chain_id, height, round },
    }
}

/// The Ed25519 signature (RFC 8032) that the key with a 32-byte seed makes
/// over the UTF-8 bytes of a text. Ed25519 signing is deterministic: the
/// signature depends on the seed and the text alone.
pub uninterp spec fn ed25519_signature(seed: Seq<u8>, text: Seq<char>) -> Seq<u8>;

/// Relies on `ed25519_dalek::SigningKey::from_bytes` and its `Signer::sign`,
/// whose `try_sign` never fails: the deterministic 64-byte signature of the
/// text's UTF-8 bytes under the seed.
#[verifier::external_body]
fn ed25519_sign(seed: &[u8; 32], text: &str) -> (r: Vec<u8>)
    ensures
        r@ == ed25519_signature(seed@, text@),
        r@.len() == 64,
{
    ed25519_dalek::SigningKey::from_bytes(seed).sign(text.as_bytes()).to_bytes().to_vec()
}

/// The 32-byte Ed25519 public key (RFC 8032) of the key with a given seed.
pub uninterp spec fn ed25519_public_key(seed: Seq<u8>) -> Seq<u8>;

/// Relies on `ed25519_dalek::SigningKey::from_bytes`, `verifying_key` and
/// `VerifyingKey::to_bytes`: the compressed 32-byte public key, which depends
/// on the seed alone.
#[verifier::external_body]
fn ed25519_verifying_key(seed: &[u8; 32]) -> (r: Vec<u8>)
    ensures
        r@ == ed25519_public_key(seed@),
        r@.len() == 32,
{
    ed25519_dalek::SigningKey::from_bytes(seed).verifying_key().to_bytes().to_vec()
}

/// A software key: the 32-byte Ed25519 seed, held in memory.
pub struct SoftwareKey {
    seed: [u8; 32],
}

impl SoftwareKey {
    /// The seed.
    pub closed spec fn seed(&self) -> Seq<u8> {
        self.seed@
    }

    /// A key from its seed, as loaded once at startup.
    pub fn from_seed(seed: [u8; 32]) -> (k: SoftwareKey)
        ensures
            k.seed() == seed@,
    {
        SoftwareKey { seed }
    }

    /// The public key; the same on every call.
    pub fn public_key(&self) -> (r: Vec<u8>)
        ensures
            r@ == ed25519_public_key(self.seed()),
            r@.len() == 32,
    {
        ed25519_verifying_key(&self.seed)
    }

    /// Sign a canonical text. A local key cannot be unreachable: this never fails.
    pub fn sign(&self, text: &str) -> (r: Vec<u8>)
        ensures
            r@ == ed25519_signature(self.seed(), text@),
            r@.len() == 64,
    {
        ed25519_sign(&self.seed, text)
    }
}

} // verus!
