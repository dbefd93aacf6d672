//! The double-sign guard: memory of what was signed for each chain, height,
//! round and message kind, and the decision whether a new request may be signed.

use vstd::prelude::*;

verus! {

/// The kind of consensus message a signature is for. A vote and a proposal at
/// the same height and round are kept apart by it.
#[derive(Clone, Copy, Debug, PartialEq, Eq, Structural)]
pub enum MessageKind {
    PreVote,
    PreCommit,
    Proposal,
    Heartbeat,
}

/// One signed message: its key, the canonical text that was signed, and the
/// signature produced for it.
#[derive(Clone, Debug)]
pub struct SignedEntry {
    pub chain_id: String,
    pub height: i64,
    pub round: i64,
    pub kind: MessageKind,
    pub fingerprint: String,
    pub signature: Vec<u8>,
}

/// The guard's answer to a request, in spec terms.
pub enum Verdict {
    /// Nothing was signed for this key: the request may be signed.
    Allow,
    /// The same text was signed for this key: its signature is handed back.
    Replay(Seq<u8>),
    /// Signing would conflict with what was signed before.
    Refuse,
}

/// The guard's answer to a request.
#[derive(Clone, Debug, PartialEq, Eq)]
pub enum Decision {
    Allow,
    Replay(Vec<u8>),
    Refuse,
}

impl Decision {
    /// The decision in spec terms.
    pub open spec fn view(&self) -> Verdict {
        match self {
            Decision::Allow => Verdict::Allow,
            Decision::Replay(s) => Verdict::Replay(s@),
            Decision::Refuse => Verdict::Refuse,
        }
    }
}

/// Whether an entry is for the given chain, height, round and kind.
pub open spec fn has_key(e: SignedEntry, chain_id: Seq<char>, height: int, round: int, kind: MessageKind) -> bool {
    e.chain_id@ == chain_id && e.height as int == height && e.round as int == round && e.kind == kind
}

/// Signed state of one validator key across chains.
pub struct Guard {
    entries: Vec<SignedEntry>,
}

impl Guard {
    /// The entries, oldest first.
    pub closed spec fn entries(&self) -> Seq<SignedEntry> {
        self.entries@
    }

    /// No two entries share a key, and every stored signature is an Ed25519
    /// signature of 64 bytes.
    pub open spec fn wf(&self) -> bool {
        (forall|i: int| 0 <= i < self.entries().len() ==> (#[trigger] self.entries()[i]).signature@.len() == 64)
        && forall|i: int, j: int|
            #![trigger self.entries()[i], self.entries()[j]]
            0 <= i < j < self.entries().len() ==> !has_key(
                self.entries()[i],
                self.entries()[j].chain_id@,
                self.entries()[j].height as int,
                self.entries()[j].round as int,
                self.entries()[j].kind,
            )
    }

    /// The fingerprint and signature signed for a key, if any.
    pub open spec fn signed(&self, chain_id: Seq<char>, height: int, round: int, kind: MessageKind) -> Option<(Seq<char>, Seq<u8>)> {
        if exists|i: int| 0 <= i < self.entries().len() && has_key(#[trigger] self.entries()[i], chain_id, height, round, kind) {
            let i = choose|i: int| 0 <= i < self.entries().len() && has_key(#[trigger] self.entries()[i], chain_id, height, round, kind);
            Some((self.entries()[i].fingerprint@, self.entries()[i].signature@))
        } else {
            None
        }
    }

    /// Something was signed on the chain at a height above `height`.
    pub open spec fn signed_above(&self, chain_id: Seq<char>, height: int) -> bool {
        exists|i: int| 0 <= i < self.entries().len() && #[trigger] self.entries()[i].chain_id@ == chain_id
            && self.entries()[i].height > height
    }

    /// The guard's answer to a request for a key with a fingerprint: the
    /// stored signature if that very text was signed for the key, a refusal if
    /// other text was, or if the chain has already signed above this height,
    /// and leave to sign otherwise.
    pub open spec fn verdict(&self, chain_id: Seq<char>, height: int, round: int, kind: MessageKind, fingerprint: Seq<char>) -> Verdict {
        match self.signed(chain_id, height, round, kind) {
            Some((f, s)) => if f == fingerprint {
                Verdict::Replay(s)
            } else {
                Verdict::Refuse
            },
            None => if self.signed_above(chain_id, height) {
                Verdict::Refuse
            } else {
                Verdict::Allow
            },
        }
    }

    /// A guard that has signed nothing.
    pub fn new() -> (g: Guard)
        ensures
            g.wf(),
            g.entries().len() == 0,
            forall|c: Seq<char>, h: int, r: int, k: MessageKind| g.signed(c, h, r, k) is None,
            forall|c: Seq<char>, h: int| !g.signed_above(c, h),
    {
        Guard { entries: Vec::new() }
    }

    /// Decide on a request for the given key whose canonical text is `fingerprint`.
    pub fn check(&self, chain_id: &String, height: i64, round: i64, kind: MessageKind, fingerprint: &String) -> (d: Decision)
        requires
            self.wf(),
        ensures
            d@ == self.verdict(chain_id@, height as int, round as int, kind, fingerprint@),
            d matches Decision::Replay(s) ==> s@.len() == 64,
    {
        let mut above = false;
        let mut i: usize = 0;
        while i < self.entries.len()
            invariant
                self.wf(),
                i <= self.entries@.len(),
                forall|j: int| 0 <= j < i ==> !has_key(#[trigger] self.entries@[j], chain_id@, height as int, round as int, kind),
                above == exists|j: int| 0 <= j < i && #[trigger] self.entries@[j].chain_id@ == chain_id@
                    && self.entries@[j].height > height,
            decreases self.entries@.len() - i,
        {
            let e = &self.entries[i];
            let same_chain = e.chain_id == *chain_id;
            if same_chain && e.height == height && e.round == round && e.kind == kind {
                proof {
                    assert(has_key(self.entries@[i as int], chain_id@, height as int, round as int, kind));
                    let k = choose|k: int| 0 <= k < self.entries().len() && has_key(#[trigger] self.entries()[k], chain_id@, height as int, round as int, kind);
                    if k != i as int {
                        if k < i as int {
                            assert(!has_key(self.entries@[k], chain_id@, height as int, round as int, kind));
                        } else {
                            assert(!has_key(self.entries()[i as int], self.entries()[k].chain_id@, self.entries()[k].height as int, self.entries()[k].round as int, self.entries()[k].kind));
                        }
                    }
                }
                if e.fingerprint == *fingerprint {
                    return Decision::Replay(e.signature.clone());
                } else {
                    return Decision::Refuse;
                }
            }
            if same_chain && e.height > height {
                above = true;
            }
            i = i + 1;
        }
        if above {
            Decision::Refuse
        } else {
            Decision::Allow
        }
    }

    /// Record that `fingerprint` was signed with `signature` for a key that
    /// had nothing signed.
    pub fn commit(&mut self, chain_id: String, height: i64, round: i64, kind: MessageKind, fingerprint: String, signature: Vec<u8>)
        requires
            old(self).wf(),
            old(self).signed(chain_id@, height as int, round as int, kind) is None,
            signature@.len() == 64,
        ensures
            final(self).wf(),
            final(self).signed(chain_id@, height as int, round as int, kind) == Some((fingerprint@, signature@)),
            forall|c: Seq<char>, h: int, r: int, k: MessageKind|
                !(c == chain_id@ && h == height && r == round && k == kind)
                ==> #[trigger] final(self).signed(c, h, r, k) == old(self).signed(c, h, r, k),
            forall|c: Seq<char>, h: int| #[trigger] final(self).signed_above(c, h)
                == (old(self).signed_above(c, h) || (c == chain_id@ && height > h)),
    {
        let ghost before = self.entries@;
        let entry = SignedEntry { chain_id, height, round, kind, fingerprint, signature };
        self.entries.push(entry);
        proof {
            let n = before.len() as int;
            assert(self.entries@[n] == entry);
            assert forall|i: int| 0 <= i < n implies self.entries@[i] == before[i] by {}
            assert(has_key(self.entries@[n], entry.chain_id@, height as int, round as int, kind));
            assert forall|c: Seq<char>, h: int, r: int, k: MessageKind|
                !(c == entry.chain_id@ && h == height && r == round && k == kind)
                implies #[trigger] self.signed(c, h, r, k) == old(self).signed(c, h, r, k) by {
                if exists|i: int| 0 <= i < self.entries().len() && has_key(#[trigger] self.entries()[i], c, h, r, k) {
                    let i = choose|i: int| 0 <= i < self.entries().len() && has_key(#[trigger] self.entries()[i], c, h, r, k);
                    assert(i < n);
                    assert(has_key(old(self).entries()[i], c, h, r, k));
                }
                if exists|i: int| 0 <= i < old(self).entries().len() && has_key(#[trigger] old(self).entries()[i], c, h, r, k) {
                    let i = choose|i: int| 0 <= i < old(self).entries().len() && has_key(#[trigger] old(self).entries()[i], c, h, r, k);
                    assert(has_key(self.entries()[i], c, h, r, k));
                }
            }
            assert forall|c: Seq<char>, h: int| #[trigger] self.signed_above(c, h)
                == (old(self).signed_above(c, h) || (c == entry.chain_id@ && height > h)) by {
                if old(self).signed_above(c, h) {
                    let i = choose|i: int| 0 <= i < old(self).entries().len() && #[trigger] old(self).entries()[i].chain_id@ == c
                        && old(self).entries()[i].height > h;
                    assert(self.entries()[i].chain_id@ == c);
                }
                if c == entry.chain_id@ && height > h {
                    assert(self.entries()[n].chain_id@ == c);
                }
            }
            assert forall|i: int| 0 <= i < n implies !has_key(self.entries()[i], entry.chain_id@, height as int, round as int, kind) by {
                assert(!has_key(old(self).entries()[i], entry.chain_id@, height as int, round as int, kind));
            }
        }
    }
}

/// Every signature the guard hands back is 64 bytes long.
pub proof fn lemma_stored_signature_len(g: Guard, chain_id: Seq<char>, height: int, round: int, kind: MessageKind)
    requires
        g.wf(),
    ensures
        g.signed(chain_id, height, round, kind) matches Some((_, s)) ==> s.len() == 64,
{
}

/// Once text is signed for a key, a request with the same text gets the
/// stored signature back and a request with any other text is refused.
pub proof fn lemma_double_sign(g: Guard, chain_id: Seq<char>, height: int, round: int, kind: MessageKind, fingerprint: Seq<char>, signature: Seq<u8>, other: Seq<char>)
    requires
        g.signed(chain_id, height, round, kind) == Some((fingerprint, signature)),
    ensures
        g.verdict(chain_id, height, round, kind, fingerprint) == Verdict::Replay(signature),
        other != fingerprint ==> g.verdict(chain_id, height, round, kind, other) == Verdict::Refuse,
{
}

/// Once something is signed at a height on a chain, every request one height
/// lower is refused, whatever its round, kind and text, unless that very text
/// was signed for it before.
pub proof fn lemma_monotonic_height(g: Guard, chain_id: Seq<char>, height: int, round: int, kind: MessageKind)
    requires
        g.signed(chain_id, height, round, kind) is Some,
    ensures
        forall|r: int, k: MessageKind, fp: Seq<char>|
            !(g.signed(chain_id, height - 1, r, k) matches Some((f, _)) && f == fp)
            ==> #[trigger] g.verdict(chain_id, height - 1, r, k, fp) == Verdict::Refuse,
{
    let i = choose|i: int| 0 <= i < g.entries().len() && has_key(#[trigger] g.entries()[i], chain_id, height, round, kind);
    assert(g.entries()[i].chain_id@ == chain_id);
    assert(g.signed_above(chain_id, height - 1));
}

} // verus!
