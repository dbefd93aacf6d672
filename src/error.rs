//! Errors of the signing path. Each carries the chain, height and round of
//! the request it answers.

use vstd::prelude::*;

verus! {

/// Why a signing request was not answered with a signature.
#[derive(Clone, Debug, PartialEq, Eq)]
pub enum SigningError {
    /// The request conflicts with a message already signed for the same chain,
    /// height, round and kind, or reaches below the chain's highest signed height.
    DoubleSign { chain_id: String, height: i64, round: i64 },
    /// The key's device or connector could not be reached; the request may be retried.
    ProviderUnavailable { chain_id: String, height: i64, round: i64 },
    /// The provider refused the session or its credentials.
    ProviderAuthFailure { chain_id: String, height: i64, round: i64 },
    /// The key is not an Ed25519 key, or what it returned is not an Ed25519 signature.
    ProviderAlgorithmMismatch { chain_id: String, height: i64, round: i64 },
    /// The message cannot be signed as it stands: no vote, an unknown vote
    /// type, a negative height or round, or a timestamp the canonical form
    /// cannot write. Height and round are given when the message holds a vote.
    MalformedMessage { chain_id: String, height: Option<i64>, round: Option<i64> },
}

/// `e` is a refusal for the given chain, height and round.
pub open spec fn is_double_sign(e: SigningError, chain_id: Seq<char>, height: i64, round: i64) -> bool {
    e matches SigningError::DoubleSign { chain_id: c, height: h, round: r } && c@ == chain_id && h == height
        && r == round
}

/// `e` reports a malformed message on the given chain, at the given height
/// and round when known.
pub open spec fn is_malformed(e: SigningError, chain_id: Seq<char>, height: Option<i64>, round: Option<i64>) -> bool {
    e matches SigningError::MalformedMessage { chain_id: c, height: h, round: r } && c@ == chain_id && h == height
        && r == round
}

} // verus!
