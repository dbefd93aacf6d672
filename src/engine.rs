//! The signing engine: canonicalise, consult the guard, and record what the
//! key provider signed. The provider's call itself happens between `begin`
//! and `complete`, outside this module.

use vstd::prelude::*;

use crate::error::{is_double_sign, is_malformed, SigningError};
use crate::guard::{Decision, Guard, MessageKind, Verdict};
use crate::provider::{ed25519_signature, provider_error, reports_failure, ProviderFailure, SoftwareKey};
use crate::vote::{block_hash, canonical_vote, lemma_signed_fields_covered, parts_hash, parts_total, vote_time_ok, vote_type_of, SignVoteMsg, Vote, VoteType};

verus! {

/// A vote to sign on a chain.
#[derive(Clone, Debug)]
pub struct SigningRequest {
    pub chain_id: String,
    pub message: SignVoteMsg,
}

/// What the key provider is asked to sign, and the key under which the
/// guard records it.
#[derive(Clone, Debug)]
pub struct SignTicket {
    pub chain_id: String,
    pub height: i64,
    pub round: i64,
    pub kind: MessageKind,
    pub canonical: String,
}

/// The engine's next step on a request: answer at once, or have the provider
/// sign the ticket's canonical text.
#[derive(Debug)]
pub enum Step {
    Reply(Result<Vec<u8>, SigningError>),
    Sign(SignTicket),
}

/// The guard's message kind for a vote type code.
pub open spec fn vote_kind(code: u32) -> Option<MessageKind> {
    match vote_type_of(code) {
        Some(VoteType::PreVote) => Some(MessageKind::PreVote),
        Some(VoteType::PreCommit) => Some(MessageKind::PreCommit),
        None => None,
    }
}

/// A vote the engine will consider: a known type, a height and round that
/// are not negative, and a timestamp the canonical form can write.
pub open spec fn vote_ok(v: Vote) -> bool {
    vote_kind(v.vote_type) is Some && v.height >= 0 && v.round >= 0 && vote_time_ok(v)
}

/// Signs votes for one validator key, never twice for one key with different text.
pub struct SigningEngine {
    guard: Guard,
}

impl SigningEngine {
    /// The guard's state.
    pub closed spec fn state(&self) -> Guard {
        self.guard
    }

    /// The guard's invariant holds.
    pub open spec fn wf(&self) -> bool {
        self.state().wf()
    }

    /// An engine that has signed nothing.
    pub fn new() -> (e: SigningEngine)
        ensures
            e.wf(),
            forall|c: Seq<char>, h: int, r: int, k: MessageKind| e.state().signed(c, h, r, k) is None,
            forall|c: Seq<char>, h: int| !e.state().signed_above(c, h),
    {
        SigningEngine { guard: Guard::new() }
    }

    /// The first step on a request. A missing or malformed vote is refused
    /// with `MalformedMessage`; otherwise the vote's canonical text is the
    /// fingerprint the guard decides on: a refusal becomes `DoubleSign`, a
    /// replay hands back the stored signature, and leave to sign becomes a
    /// ticket for the provider.
    pub fn begin(&self, req: &SigningRequest) -> (r: Step)
        requires
            self.wf(),
        ensures
            r matches Step::Reply(Ok(sig)) ==> sig@.len() == 64,
            match req.message.vote {
                None => r matches Step::Reply(Err(e)) && is_malformed(e, req.chain_id@, None, None),
                Some(v) => if !vote_ok(v) {
                    r matches Step::Reply(Err(e)) && is_malformed(e, req.chain_id@, Some(v.height), Some(v.round))
                } else {
                    let kind = vote_kind(v.vote_type)->0;
                    let fp = canonical_vote(req.chain_id@, v);
                    match self.state().verdict(req.chain_id@, v.height as int, v.round as int, kind, fp) {
                        Verdict::Allow => r matches Step::Sign(t) && t.chain_id@ == req.chain_id@
                            && t.height == v.height && t.round == v.round && t.kind == kind
                            && t.canonical@ == fp,
                        Verdict::Replay(s) => r matches Step::Reply(Ok(sig)) && sig@ == s,
                        Verdict::Refuse => r matches Step::Reply(Err(e))
                            && is_double_sign(e, req.chain_id@, v.height, v.round),
                    }
                },
            },
    {
        let vote = match &req.message.vote {
            None => return Step::Reply(Err(SigningError::MalformedMessage {
                chain_id: req.chain_id.clone(),
                height: None,
                round: None,
            })),
            Some(v) => v,
        };
        let malformed = SigningError::MalformedMessage {
            chain_id: req.chain_id.clone(),
            height: Some(vote.height),
            round: Some(vote.round),
        };
        let kind = match vote.vote_type {
            1 => MessageKind::PreVote,
            2 => MessageKind::PreCommit,
            _ => return Step::Reply(Err(malformed)),
        };
        if vote.height < 0 || vote.round < 0 {
            return Step::Reply(Err(malformed));
        }
        let canonical = match req.message.cannonicalize(req.chain_id.as_str()) {
            Ok(s) => s,
            Err(_) => return Step::Reply(Err(malformed)),
        };
        match self.guard.check(&req.chain_id, vote.height, vote.round, kind, &canonical) {
            Decision::Allow => Step::Sign(SignTicket {
                chain_id: req.chain_id.clone(),
                height: vote.height,
                round: vote.round,
                kind,
                canonical,
            }),
            Decision::Replay(sig) => Step::Reply(Ok(sig)),
            Decision::Refuse => Step::Reply(Err(SigningError::DoubleSign {
                chain_id: req.chain_id.clone(),
                height: vote.height,
                round: vote.round,
            })),
        }
    }

    /// The last step: the provider's outcome for a ticket. A provider failure
    /// is reported with the ticket's chain, height and round, and nothing is
    /// recorded; so is a result that is not a 64-byte signature, as an
    /// algorithm mismatch. A signature is recorded and returned if the guard
    /// still allows the ticket; if the same text was recorded meanwhile its
    /// signature is returned, and if other text was, the request is refused.
    pub fn complete(&mut self, ticket: SignTicket, outcome: Result<Vec<u8>, ProviderFailure>) -> (r: Result<Vec<u8>, SigningError>)
        requires
            old(self).wf(),
        ensures
            final(self).wf(),
            r matches Ok(sig) ==> sig@.len() == 64,
            match outcome {
                Err(f) => r matches Err(e) && reports_failure(e, f, ticket.chain_id@, ticket.height, ticket.round)
                    && final(self).state() == old(self).state(),
                Ok(sig) => if sig@.len() != 64 {
                    r matches Err(e) && reports_failure(e, ProviderFailure::Algorithm, ticket.chain_id@, ticket.height, ticket.round)
                        && final(self).state() == old(self).state()
                } else {
                    match old(self).state().verdict(ticket.chain_id@, ticket.height as int, ticket.round as int, ticket.kind, ticket.canonical@) {
                        Verdict::Allow => r == Ok::<Vec<u8>, SigningError>(sig)
                            && final(self).state().signed(ticket.chain_id@, ticket.height as int, ticket.round as int, ticket.kind)
                                == Some((ticket.canonical@, sig@))
                            && (forall|c: Seq<char>, h: int, rd: int, k: MessageKind|
                                !(c == ticket.chain_id@ && h == ticket.height && rd == ticket.round && k == ticket.kind)
                                ==> #[trigger] final(self).state().signed(c, h, rd, k) == old(self).state().signed(c, h, rd, k))
                            && (forall|c: Seq<char>, h: int| #[trigger] final(self).state().signed_above(c, h)
                                == (old(self).state().signed_above(c, h) || (c == ticket.chain_id@ && ticket.height > h))),
                        Verdict::Replay(s) => r matches Ok(s2) && s2@ == s && final(self).state() == old(self).state(),
                        Verdict::Refuse => r matches Err(e) && is_double_sign(e, ticket.chain_id@, ticket.height, ticket.round)
                            && final(self).state() == old(self).state(),
                    }
                },
            },
    {
        let sig = match outcome {
            Err(f) => return Err(provider_error(f, &ticket.chain_id, ticket.height, ticket.round)),
            Ok(sig) => sig,
        };
        if sig.len() != 64 {
            return Err(provider_error(ProviderFailure::Algorithm, &ticket.chain_id, ticket.height, ticket.round));
        }
        match self.guard.check(&ticket.chain_id, ticket.height, ticket.round, ticket.kind, &ticket.canonical) {
            Decision::Allow => {
                let stored = sig.clone();
                self.guard.commit(ticket.chain_id, ticket.height, ticket.round, ticket.kind, ticket.canonical, stored);
                Ok(sig)
            },
            Decision::Replay(s) => Ok(s),
            Decision::Refuse => Err(SigningError::DoubleSign {
                chain_id: ticket.chain_id,
                height: ticket.height,
                round: ticket.round,
            }),
        }
    }

    /// Answer a request with a software key: `begin`, then, only if the guard
    /// allows it, the key's signature over the canonical text, recorded by
    /// `complete`. Nothing is recorded unless a new signature is made.
    pub fn handle_software(&mut self, req: &SigningRequest, key: &SoftwareKey) -> (r: Result<Vec<u8>, SigningError>)
        requires
            old(self).wf(),
        ensures
            final(self).wf(),
            r matches Ok(sig) ==> sig@.len() == 64,
            match req.message.vote {
                None => r matches Err(e) && is_malformed(e, req.chain_id@, None, None)
                    && final(self).state() == old(self).state(),
                Some(v) => if !vote_ok(v) {
                    r matches Err(e) && is_malformed(e, req.chain_id@, Some(v.height), Some(v.round))
                        && final(self).state() == old(self).state()
                } else {
                    let kind = vote_kind(v.vote_type)->0;
                    let fp = canonical_vote(req.chain_id@, v);
                    match old(self).state().verdict(req.chain_id@, v.height as int, v.round as int, kind, fp) {
                        Verdict::Allow => r matches Ok(sig) && sig@ == ed25519_signature(key.seed(), fp)
                            && final(self).state().signed(req.chain_id@, v.height as int, v.round as int, kind)
                                == Some((fp, sig@))
                            && (forall|c: Seq<char>, h: int, rd: int, k: MessageKind|
                                !(c == req.chain_id@ && h == v.height && rd == v.round && k == kind)
                                ==> #[trigger] final(self).state().signed(c, h, rd, k) == old(self).state().signed(c, h, rd, k))
                            && (forall|c: Seq<char>, h: int| #[trigger] final(self).state().signed_above(c, h)
                                == (old(self).state().signed_above(c, h) || (c == req.chain_id@ && v.height > h))),
                        Verdict::Replay(s) => r matches Ok(sig) && sig@ == s && final(self).state() == old(self).state(),
                        Verdict::Refuse => r matches Err(e) && is_double_sign(e, req.chain_id@, v.height, v.round)
                            && final(self).state() == old(self).state(),
                    }
                },
            },
    {
        match self.begin(req) {
            Step::Reply(r) => r,
            Step::Sign(ticket) => {
                let sig = key.sign(ticket.canonical.as_str());
                self.complete(ticket, Ok(sig))
            },
        }
    }
}

/// After a vote's canonical text was recorded with a signature, `begin` on a
/// vote for the same chain, height, round and kind replays that signature when
/// the canonical text is the same, without a new ticket for the provider, and
/// refuses it when the text differs, as it does whenever the block hash, parts hash or parts total differs.
pub proof fn lemma_second_request(e: SigningEngine, chain_id: Seq<char>, v1: Vote, v2: Vote, signature: Seq<u8>)
    requires
        e.wf(),
        vote_ok(v1),
        vote_ok(v2),
        v1.height == v2.height,
        v1.round == v2.round,
        vote_kind(v1.vote_type) == vote_kind(v2.vote_type),
        e.state().signed(chain_id, v1.height as int, v1.round as int, vote_kind(v1.vote_type)->0)
            == Some((canonical_vote(chain_id, v1), signature)),
    ensures
        canonical_vote(chain_id, v2) == canonical_vote(chain_id, v1) ==> e.state().verdict(
            chain_id, v2.height as int, v2.round as int, vote_kind(v2.vote_type)->0, canonical_vote(chain_id, v2),
        ) == Verdict::Replay(signature),
        canonical_vote(chain_id, v2) != canonical_vote(chain_id, v1) ==> e.state().verdict(
            chain_id, v2.height as int, v2.round as int, vote_kind(v2.vote_type)->0, canonical_vote(chain_id, v2),
        ) == Verdict::Refuse,
        (block_hash(v2) != block_hash(v1) || parts_hash(v2) != parts_hash(v1) || parts_total(v2) != parts_total(v1))
            ==> e.state().verdict(
            chain_id, v2.height as int, v2.round as int, vote_kind(v2.vote_type)->0, canonical_vote(chain_id, v2),
        ) == Verdict::Refuse,
{
    if block_hash(v2) != block_hash(v1) || parts_hash(v2) != parts_hash(v1) || parts_total(v2) != parts_total(v1) {
        lemma_signed_fields_covered(chain_id, v1, v2);
    }
}

} // verus!
