//! Consensus votes and their canonical signable form.

use vstd::prelude::*;
use vstd::string::StringExecFns;

use crate::encoding::{
    decimal_digit, decimal_text, hex_upper, hex_upper_text, json_escaped, json_escaped_char,
    json_integer, json_quoted, json_string, lemma_decimal_text_injective, lemma_hex_text_injective, lemma_hex_text_shape, lower_digit,
    lemma_json_escaped_plain, nat_text, rfc3339_text, rfc3339_utc, TIMESTAMP_LIMIT,
};
use crate::error::{is_malformed, SigningError};

verus! {

/// The two kinds of vote.
#[derive(Clone, Copy, Debug, PartialEq, Eq)]
pub enum VoteType {
    PreVote,
    PreCommit,
}

/// An instant: seconds and nanoseconds after the Unix epoch.
#[derive(Clone, Copy, Debug, PartialEq, Eq)]
pub struct Time {
    pub seconds: i64,
    pub nanos: i32,
}

/// The header of the set of parts a block was split into.
#[derive(Clone, Debug, PartialEq, Eq)]
pub struct PartsSetHeader {
    pub total: i64,
    pub hash: Vec<u8>,
}

/// Reference to a block: its hash and its parts header.
#[derive(Clone, Debug, PartialEq, Eq)]
pub struct BlockID {
    pub hash: Vec<u8>,
    pub parts_header: Option<PartsSetHeader>,
}

/// A validator's vote at one height and round.
#[derive(Clone, Debug, PartialEq, Eq)]
pub struct Vote {
    pub validator_address: Vec<u8>,
    pub validator_index: i64,
    pub height: i64,
    pub round: i64,
    pub timestamp: Option<Time>,
    pub vote_type: u32,
    pub block_id: Option<BlockID>,
    pub signature: Option<Vec<u8>>,
}

/// A vote type code that names no vote type.
#[derive(Clone, Copy, Debug, PartialEq, Eq, Structural)]
pub struct InvalidVoteType {
    pub code: u32,
}

/// A request to sign a vote.
#[derive(Clone, Debug, PartialEq, Eq)]
pub struct SignVoteMsg {
    pub vote: Option<Vote>,
}

/// The single-character type code of a vote type.
pub open spec fn type_code(vt: VoteType) -> char {
    match vt {
        VoteType::PreVote => '\u{1}',
        VoteType::PreCommit => '\u{2}',
    }
}

/// The vote type that a numeric code stands for.
pub open spec fn vote_type_of(data: u32) -> Option<VoteType> {
    if data == 1 {
        Some(VoteType::PreVote)
    } else if data == 2 {
        Some(VoteType::PreCommit)
    } else {
        None
    }
}

/// The type code written in the canonical form: zero for an unknown code.
pub open spec fn canonical_type_code(data: u32) -> char {
    match vote_type_of(data) {
        Some(vt) => type_code(vt),
        None => '\0',
    }
}

/// The block hash of a vote; empty when the vote names no block.
pub open spec fn block_hash(v: Vote) -> Seq<u8> {
    match v.block_id {
        Some(b) => b.hash@,
        None => Seq::empty(),
    }
}

/// The parts hash of a vote; empty when it names no block or no parts header.
pub open spec fn parts_hash(v: Vote) -> Seq<u8> {
    match v.block_id {
        Some(b) => match b.parts_header {
            Some(p) => p.hash@,
            None => Seq::empty(),
        },
        None => Seq::empty(),
    }
}

/// The parts total of a vote; zero when it names no block or no parts header.
pub open spec fn parts_total(v: Vote) -> int {
    match v.block_id {
        Some(b) => match b.parts_header {
            Some(p) => p.total as int,
            None => 0,
        },
        None => 0,
    }
}

/// A timestamp that the canonical form can write: nanoseconds below one
/// second and seconds within `TIMESTAMP_LIMIT` of the epoch.
pub open spec fn time_ok(t: Time) -> bool {
    0 <= t.nanos < 1_000_000_000 && -TIMESTAMP_LIMIT <= t.seconds <= TIMESTAMP_LIMIT
}

/// A vote whose timestamp, if any, the canonical form can write.
pub open spec fn vote_time_ok(v: Vote) -> bool {
    match v.timestamp {
        Some(t) => time_ok(t),
        None => true,
    }
}

/// The timestamp text of a vote; the Unix epoch when it has none.
pub open spec fn timestamp_text(v: Vote) -> Seq<char> {
    match v.timestamp {
        Some(t) => rfc3339_utc(t.seconds as int, t.nanos as int),
        None => rfc3339_utc(0, 0),
    }
}

/// The canonical JSON object of a vote on a chain, given its timestamp text:
/// keys in sorted order, no white space. The validator address and index and
/// the signature do not appear in it.
pub open spec fn vote_json(chain_id: Seq<char>, v: Vote, ts: Seq<char>) -> Seq<char> {
    "{\"@chain_id\":"@ + json_quoted(chain_id)
        + ",\"@type\":\"vote\",\"block_id\":{\"hash\":"@ + json_quoted(hex_upper_text(block_hash(v)))
        + ",\"parts\":{\"hash\":"@ + json_quoted(hex_upper_text(parts_hash(v)))
        + ",\"total\":"@ + decimal_text(parts_total(v))
        + "}},\"height\":"@ + decimal_text(v.height as int)
        + ",\"round\":"@ + decimal_text(v.round as int)
        + ",\"timestamp\":"@ + json_quoted(ts)
        + ",\"type\":"@ + json_quoted(seq![canonical_type_code(v.vote_type)])
        + "}"@
}

/// The canonical signable text of a vote on a chain.
pub open spec fn canonical_vote(chain_id: Seq<char>, v: Vote) -> Seq<char> {
    vote_json(chain_id, v, timestamp_text(v))
}

/// The single-character type code of a vote type.
pub fn vote_type_to_char(vt: &VoteType) -> (c: char)
    ensures
        c == type_code(*vt),
{
    match *vt {
        VoteType::PreVote => '\u{1}',
        VoteType::PreCommit => '\u{2}',
    }
}

/// The vote type of a numeric code: 1 is a pre-vote, 2 a pre-commit, and any
/// other code is invalid.
pub fn u32_to_vote_type(data: u32) -> (r: Result<VoteType, InvalidVoteType>)
    ensures
        match vote_type_of(data) {
            Some(vt) => r == Ok::<VoteType, InvalidVoteType>(vt),
            None => r == Err::<VoteType, InvalidVoteType>(InvalidVoteType { code: data }),
        },
{
    match data {
        1 => Ok(VoteType::PreVote),
        2 => Ok(VoteType::PreCommit),
        _ => Err(InvalidVoteType { code: data }),
    }
}

/// Hex text of the vote's block hash and parts hash, and its parts total.
fn block_fields(v: &Vote) -> (r: (String, String, i64))
    ensures
        r.0@ == hex_upper_text(block_hash(*v)),
        r.1@ == hex_upper_text(parts_hash(*v)),
        r.2 as int == parts_total(*v),
{
    let empty: Vec<u8> = Vec::new();
    match &v.block_id {
        Some(b) => match &b.parts_header {
            Some(p) => (hex_upper(&b.hash), hex_upper(&p.hash), p.total),
            None => (hex_upper(&b.hash), hex_upper(&empty), 0),
        },
        None => (hex_upper(&empty), hex_upper(&empty), 0),
    }
}

/// The canonical JSON object of `vote` on `chain_id`, with `timestamp` as the
/// text of its timestamp.
pub fn canonical_vote_json(chain_id: &str, vote: &Vote, timestamp: &str) -> (r: String)
    ensures
        r@ == vote_json(chain_id@, *vote, timestamp@),
{
    let (hash, parts, total) = block_fields(vote);
    let code = match vote.vote_type {
        1 => "\u{1}",
        2 => "\u{2}",
        _ => "\0",
    };
    proof {
        reveal_strlit("\u{1}");
        reveal_strlit("\u{2}");
        reveal_strlit("\0");
        assert(code@ =~= seq![canonical_type_code(vote.vote_type)]);
    }
    let mut out = String::from_str("{\"@chain_id\":");
    out.append(json_string(chain_id).as_str());
    out.append(",\"@type\":\"vote\",\"block_id\":{\"hash\":");
    out.append(json_string(hash.as_str()).as_str());
    out.append(",\"parts\":{\"hash\":");
    out.append(json_string(parts.as_str()).as_str());
    out.append(",\"total\":");
    out.append(json_integer(total).as_str());
    out.append("}},\"height\":");
    out.append(json_integer(vote.height).as_str());
    out.append(",\"round\":");
    out.append(json_integer(vote.round).as_str());
    out.append(",\"timestamp\":");
    out.append(json_string(timestamp).as_str());
    out.append(",\"type\":");
    out.append(json_string(code).as_str());
    out.append("}");
    out
}

impl SignVoteMsg {
    /// The canonical signable text of the vote on `chain_id`; empty when the
    /// message holds no vote. Fails with `MalformedMessage` exactly when the
    /// vote's timestamp lies outside what the canonical form can write.
    pub fn cannonicalize(&self, chain_id: &str) -> (r: Result<String, SigningError>)
        ensures
            match self.vote {
                None => r matches Ok(s) && s@.len() == 0,
                Some(v) => if vote_time_ok(v) {
                    r matches Ok(s) && s@ == canonical_vote(chain_id@, v)
                } else {
                    r matches Err(e) && is_malformed(e, chain_id@, Some(v.height), Some(v.round))
                },
            },
    {
        match &self.vote {
            None => Ok(String::new()),
            Some(vote) => {
                let (secs, nanos) = match vote.timestamp {
                    Some(t) => (t.seconds, t.nanos),
                    None => (0i64, 0i32),
                };
                if nanos < 0 || nanos >= 1_000_000_000 || secs < -TIMESTAMP_LIMIT
                    || secs > TIMESTAMP_LIMIT {
                    return Err(SigningError::MalformedMessage {
                        chain_id: String::from_str(chain_id),
                        height: Some(vote.height),
                        round: Some(vote.round),
                    });
                }
                match rfc3339_text(secs, nanos as u32) {
                    Some(ts) => Ok(canonical_vote_json(chain_id, vote, ts.as_str())),
                    None => Err(SigningError::MalformedMessage {
                        chain_id: String::from_str(chain_id),
                        height: Some(vote.height),
                        round: Some(vote.round),
                    }),
                }
            },
        }
    }
}

/// The canonical text is a function of the chain and the vote: equal inputs
/// give equal text on every call.
pub proof fn lemma_canonical_deterministic(chain_id: Seq<char>, v1: Vote, v2: Vote)
    requires
        v1 == v2,
    ensures
        canonical_vote(chain_id, v1) == canonical_vote(chain_id, v2),
{
}

/// The validator address, the validator index and the signature are not
/// covered: votes that agree on everything else have the same canonical text.
pub proof fn lemma_metadata_excluded(chain_id: Seq<char>, v1: Vote, v2: Vote)
    requires
        v1.height == v2.height,
        v1.round == v2.round,
        v1.timestamp == v2.timestamp,
        v1.vote_type == v2.vote_type,
        v1.block_id == v2.block_id,
    ensures
        canonical_vote(chain_id, v1) == canonical_vote(chain_id, v2),
{
}

/// A vote with no block reference still carries the whole block shape: an
/// empty hash, empty parts hash and zero total, written exactly as for a
/// block reference that holds those empty values.
pub proof fn lemma_missing_block_shape(chain_id: Seq<char>, v1: Vote, v2: Vote)
    requires
        v1.block_id is None,
        v2.block_id matches Some(b) && b.hash@.len() == 0
            && (b.parts_header matches Some(p) && p.total == 0 && p.hash@.len() == 0),
        v1.height == v2.height,
        v1.round == v2.round,
        v1.timestamp == v2.timestamp,
        v1.vote_type == v2.vote_type,
    ensures
        json_quoted(hex_upper_text(block_hash(v1))) == seq!['"', '"'],
        json_quoted(hex_upper_text(parts_hash(v1))) == seq!['"', '"'],
        decimal_text(parts_total(v1)) == seq!['0'],
        canonical_vote(chain_id, v1) == canonical_vote(chain_id, v2),
{
    let b = v2.block_id->0;
    let p = b.parts_header->0;
    assert(b.hash@ =~= Seq::<u8>::empty());
    assert(p.hash@ =~= Seq::<u8>::empty());
    assert(block_hash(v1) =~= block_hash(v2));
    assert(parts_hash(v1) =~= parts_hash(v2));
    assert(json_escaped(Seq::empty()) =~= Seq::<char>::empty());
    assert(json_quoted(Seq::empty()) =~= seq!['"', '"']);
    assert(nat_text(0) == seq![decimal_digit(0)]);
}

/// The text of a hex string inside its JSON literal: the quotes and the
/// digits, nothing escaped.
proof fn lemma_quoted_hex(b: Seq<u8>)
    ensures
        json_quoted(hex_upper_text(b)) == seq!['"'] + hex_upper_text(b) + seq!['"'],
        forall|i: int| 0 <= i < hex_upper_text(b).len() ==> #[trigger] hex_upper_text(b)[i] != '"',
{
    let h = hex_upper_text(b);
    lemma_hex_text_shape(b);
    assert forall|i: int| 0 <= i < h.len() implies (#[trigger] h[i] as u32) >= 0x20 && h[i] != '"' && h[i] != '\\' by {
        let c = h[i] as u32;
        assert((48 <= c <= 57) || (65 <= c <= 70));
    }
    lemma_json_escaped_plain(h);
}

/// Two texts that agree up to a quoted hex string and hold the hex of
/// different byte strings there differ.
proof fn lemma_quoted_hex_distinct(a: Seq<char>, b1: Seq<u8>, b2: Seq<u8>, t1: Seq<char>, t2: Seq<char>)
    requires
        b1 != b2,
    ensures
        a + json_quoted(hex_upper_text(b1)) + t1 != a + json_quoted(hex_upper_text(b2)) + t2,
{
    let h1 = hex_upper_text(b1);
    let h2 = hex_upper_text(b2);
    lemma_quoted_hex(b1);
    lemma_quoted_hex(b2);
    let c1 = a + json_quoted(h1) + t1;
    let c2 = a + json_quoted(h2) + t2;
    if c1 == c2 {
        let base: int = a.len() + 1int;
        if h1.len() == h2.len() {
            assert forall|k: int| 0 <= k < h1.len() implies h1[k] == h2[k] by {
                assert(c1[base + k] == h1[k]);
                assert(c2[base + k] == h2[k]);
            }
            assert(h1 =~= h2);
            lemma_hex_text_injective(b1, b2);
        } else if h1.len() < h2.len() {
            assert(c1[base + h1.len() as int] == '"');
            assert(c2[base + h1.len() as int] == h2[h1.len() as int]);
        } else {
            assert(c2[base + h2.len() as int] == '"');
            assert(c1[base + h2.len() as int] == h1[h2.len() as int]);
        }
    }
}

/// The canonical text after the block hash literal, given the timestamp text.
spec fn after_block_hash(v: Vote, ts: Seq<char>) -> Seq<char> {
    ",\"parts\":{\"hash\":"@ + json_quoted(hex_upper_text(parts_hash(v)))
        + ",\"total\":"@ + decimal_text(parts_total(v))
        + "}},\"height\":"@ + decimal_text(v.height as int)
        + ",\"round\":"@ + decimal_text(v.round as int)
        + ",\"timestamp\":"@ + json_quoted(ts)
        + ",\"type\":"@ + json_quoted(seq![canonical_type_code(v.vote_type)])
        + "}"@
}

/// The canonical text after the parts hash literal, given the timestamp text.
spec fn after_parts_hash(v: Vote, ts: Seq<char>) -> Seq<char> {
    ",\"total\":"@ + decimal_text(parts_total(v))
        + "}},\"height\":"@ + decimal_text(v.height as int)
        + ",\"round\":"@ + decimal_text(v.round as int)
        + ",\"timestamp\":"@ + json_quoted(ts)
        + ",\"type\":"@ + json_quoted(seq![canonical_type_code(v.vote_type)])
        + "}"@
}

/// The text of a chain's canonical votes up to the block hash literal.
spec fn before_block_hash(chain_id: Seq<char>) -> Seq<char> {
    "{\"@chain_id\":"@ + json_quoted(chain_id) + ",\"@type\":\"vote\",\"block_id\":{\"hash\":"@
}

/// The canonical text split around its block hash and its parts hash.
#[verifier::rlimit(50)]
proof fn lemma_vote_json_split(chain_id: Seq<char>, v: Vote, ts: Seq<char>)
    ensures
        vote_json(chain_id, v, ts) == before_block_hash(chain_id) + json_quoted(hex_upper_text(block_hash(v)))
            + after_block_hash(v, ts),
        vote_json(chain_id, v, ts) == before_block_hash(chain_id) + json_quoted(hex_upper_text(block_hash(v)))
            + ",\"parts\":{\"hash\":"@ + json_quoted(hex_upper_text(parts_hash(v))) + after_parts_hash(v, ts),
{
    assert(vote_json(chain_id, v, ts) =~= before_block_hash(chain_id) + json_quoted(hex_upper_text(block_hash(v)))
        + after_block_hash(v, ts));
    assert(vote_json(chain_id, v, ts) =~= before_block_hash(chain_id) + json_quoted(hex_upper_text(block_hash(v)))
        + ",\"parts\":{\"hash\":"@ + json_quoted(hex_upper_text(parts_hash(v))) + after_parts_hash(v, ts));
}

/// The block hash is covered: votes with different block hashes have
/// different canonical text on every chain, so a second vote for another
/// block at a signed height and round cannot pass as a replay.
pub proof fn lemma_block_hash_covered(chain_id: Seq<char>, v1: Vote, v2: Vote)
    requires
        block_hash(v1) != block_hash(v2),
    ensures
        canonical_vote(chain_id, v1) != canonical_vote(chain_id, v2),
{
    lemma_vote_json_split(chain_id, v1, timestamp_text(v1));
    lemma_vote_json_split(chain_id, v2, timestamp_text(v2));
    lemma_quoted_hex_distinct(
        before_block_hash(chain_id),
        block_hash(v1),
        block_hash(v2),
        after_block_hash(v1, timestamp_text(v1)),
        after_block_hash(v2, timestamp_text(v2)),
    );
}

/// The parts hash is covered: votes for the same block hash with different
/// parts hashes have different canonical text on every chain.
pub proof fn lemma_parts_hash_covered(chain_id: Seq<char>, v1: Vote, v2: Vote)
    requires
        block_hash(v1) == block_hash(v2),
        parts_hash(v1) != parts_hash(v2),
    ensures
        canonical_vote(chain_id, v1) != canonical_vote(chain_id, v2),
{
    lemma_vote_json_split(chain_id, v1, timestamp_text(v1));
    lemma_vote_json_split(chain_id, v2, timestamp_text(v2));
    let a = before_block_hash(chain_id) + json_quoted(hex_upper_text(block_hash(v1))) + ",\"parts\":{\"hash\":"@;
    lemma_quoted_hex_distinct(
        a,
        parts_hash(v1),
        parts_hash(v2),
        after_parts_hash(v1, timestamp_text(v1)),
        after_parts_hash(v2, timestamp_text(v2)),
    );
}

/// The JSON literal of a type code: `"\u000d"` with `d` its digit.
proof fn lemma_type_code_literal(code: u32)
    ensures
        json_quoted(seq![canonical_type_code(code)]).len() == 8,
        json_quoted(seq![canonical_type_code(code)])[6] == lower_digit(canonical_type_code(code) as u32 as int % 16),
        canonical_type_code(code) as u32 <= 2,
{
    let c = canonical_type_code(code);
    assert(c == '\0' || c == '\u{1}' || c == '\u{2}');
    assert((c as u32) < 0x20 && c != '\x08' && c != '\t' && c != '\n' && c != '\x0C' && c != '\r' && c != '"' && c != '\\');
    let s = seq![c];
    assert(s.drop_last() =~= Seq::<char>::empty());
    assert(json_escaped(s) == json_escaped(s.drop_last()) + json_escaped_char(c));
    assert(json_escaped(s) =~= json_escaped_char(c));
}

/// The vote type is covered: votes whose type codes are written differently
/// have different canonical text on every chain.
pub proof fn lemma_type_covered(chain_id: Seq<char>, v1: Vote, v2: Vote)
    requires
        canonical_type_code(v1.vote_type) != canonical_type_code(v2.vote_type),
    ensures
        canonical_vote(chain_id, v1) != canonical_vote(chain_id, v2),
{
    let c1 = canonical_vote(chain_id, v1);
    let c2 = canonical_vote(chain_id, v2);
    lemma_type_code_literal(v1.vote_type);
    lemma_type_code_literal(v2.vote_type);
    reveal_strlit("}");
    let d = seq!['0', '1', '2', '3', '4', '5', '6', '7', '8', '9', 'a', 'b', 'c', 'd', 'e', 'f'];
    assert(d[0] == '0' && d[1] == '1' && d[2] == '2');
    let q1 = json_quoted(seq![canonical_type_code(v1.vote_type)]);
    let q2 = json_quoted(seq![canonical_type_code(v2.vote_type)]);
    assert(c1[c1.len() - 3] == q1[6]);
    assert(c2[c2.len() - 3] == q2[6]);
    if c1 == c2 {
        assert(canonical_type_code(v1.vote_type) as u32 == canonical_type_code(v2.vote_type) as u32);
    }
}

/// Two texts that agree up to a decimal integer, followed in each by `}` or
/// `,`, and hold different integers there differ.
proof fn lemma_decimal_distinct(a: Seq<char>, n1: int, n2: int, t1: Seq<char>, t2: Seq<char>)
    requires
        n1 != n2,
        t1.len() > 0 && (t1[0] == '}' || t1[0] == ','),
        t2.len() > 0 && (t2[0] == '}' || t2[0] == ','),
    ensures
        a + decimal_text(n1) + t1 != a + decimal_text(n2) + t2,
{
    let d1 = decimal_text(n1);
    let d2 = decimal_text(n2);
    lemma_decimal_text_injective(n1, n2);
    lemma_decimal_text_injective(n2, n1);
    let c1 = a + d1 + t1;
    let c2 = a + d2 + t2;
    if c1 == c2 {
        let base: int = a.len() as int;
        if d1.len() == d2.len() {
            assert forall|k: int| 0 <= k < d1.len() implies d1[k] == d2[k] by {
                assert(c1[base + k] == d1[k]);
                assert(c2[base + k] == d2[k]);
            }
            assert(d1 =~= d2);
        } else if d1.len() < d2.len() {
            assert(c1[base + d1.len() as int] == t1[0]);
            assert(c2[base + d1.len() as int] == d2[d1.len() as int]);
        } else {
            assert(c2[base + d2.len() as int] == t2[0]);
            assert(c1[base + d2.len() as int] == d1[d2.len() as int]);
        }
    }
}

/// The text of a vote's canonical form up to the parts total.
spec fn before_total(chain_id: Seq<char>, v: Vote) -> Seq<char> {
    before_block_hash(chain_id) + json_quoted(hex_upper_text(block_hash(v))) + ",\"parts\":{\"hash\":"@
        + json_quoted(hex_upper_text(parts_hash(v))) + ",\"total\":"@
}

/// The canonical text after the round, given the timestamp text.
spec fn after_round(v: Vote, ts: Seq<char>) -> Seq<char> {
    ",\"timestamp\":"@ + json_quoted(ts) + ",\"type\":"@ + json_quoted(seq![canonical_type_code(v.vote_type)])
        + "}"@
}

/// The canonical text split around its parts total, its height and its round.
#[verifier::rlimit(50)]
proof fn lemma_vote_json_numbers(chain_id: Seq<char>, v: Vote, ts: Seq<char>)
    ensures
        vote_json(chain_id, v, ts) == before_total(chain_id, v) + decimal_text(parts_total(v))
            + ("}},\"height\":"@ + decimal_text(v.height as int) + ",\"round\":"@ + decimal_text(v.round as int)
            + after_round(v, ts)),
        vote_json(chain_id, v, ts) == before_total(chain_id, v) + decimal_text(parts_total(v)) + "}},\"height\":"@
            + decimal_text(v.height as int) + (",\"round\":"@ + decimal_text(v.round as int) + after_round(v, ts)),
        vote_json(chain_id, v, ts) == before_total(chain_id, v) + decimal_text(parts_total(v)) + "}},\"height\":"@
            + decimal_text(v.height as int) + ",\"round\":"@ + decimal_text(v.round as int) + after_round(v, ts),
{
    assert(vote_json(chain_id, v, ts) =~= before_total(chain_id, v) + decimal_text(parts_total(v))
        + ("}},\"height\":"@ + decimal_text(v.height as int) + ",\"round\":"@ + decimal_text(v.round as int)
        + after_round(v, ts)));
    assert(vote_json(chain_id, v, ts) =~= before_total(chain_id, v) + decimal_text(parts_total(v)) + "}},\"height\":"@
        + decimal_text(v.height as int) + (",\"round\":"@ + decimal_text(v.round as int) + after_round(v, ts)));
    assert(vote_json(chain_id, v, ts) =~= before_total(chain_id, v) + decimal_text(parts_total(v)) + "}},\"height\":"@
        + decimal_text(v.height as int) + ",\"round\":"@ + decimal_text(v.round as int) + after_round(v, ts));
}

/// The parts total is covered: votes for the same block and parts hashes
/// with different parts totals have different canonical text.
pub proof fn lemma_parts_total_covered(chain_id: Seq<char>, v1: Vote, v2: Vote)
    requires
        block_hash(v1) == block_hash(v2),
        parts_hash(v1) == parts_hash(v2),
        parts_total(v1) != parts_total(v2),
    ensures
        canonical_vote(chain_id, v1) != canonical_vote(chain_id, v2),
{
    let ts1 = timestamp_text(v1);
    let ts2 = timestamp_text(v2);
    lemma_vote_json_numbers(chain_id, v1, ts1);
    lemma_vote_json_numbers(chain_id, v2, ts2);
    reveal_strlit("}},\"height\":");
    let t1 = "}},\"height\":"@ + decimal_text(v1.height as int) + ",\"round\":"@ + decimal_text(v1.round as int) + after_round(v1, ts1);
    let t2 = "}},\"height\":"@ + decimal_text(v2.height as int) + ",\"round\":"@ + decimal_text(v2.round as int) + after_round(v2, ts2);
    assert(t1[0] == '}' && t2[0] == '}');
    lemma_decimal_distinct(before_total(chain_id, v1), parts_total(v1), parts_total(v2), t1, t2);
}

/// The height is covered: votes that agree up to the height and differ in it
/// have different canonical text.
pub proof fn lemma_height_covered(chain_id: Seq<char>, v1: Vote, v2: Vote)
    requires
        block_hash(v1) == block_hash(v2),
        parts_hash(v1) == parts_hash(v2),
        parts_total(v1) == parts_total(v2),
        v1.height != v2.height,
    ensures
        canonical_vote(chain_id, v1) != canonical_vote(chain_id, v2),
{
    let ts1 = timestamp_text(v1);
    let ts2 = timestamp_text(v2);
    lemma_vote_json_numbers(chain_id, v1, ts1);
    lemma_vote_json_numbers(chain_id, v2, ts2);
    reveal_strlit(",\"round\":");
    let t1 = ",\"round\":"@ + decimal_text(v1.round as int) + after_round(v1, ts1);
    let t2 = ",\"round\":"@ + decimal_text(v2.round as int) + after_round(v2, ts2);
    assert(t1[0] == ',' && t2[0] == ',');
    let a = before_total(chain_id, v1) + decimal_text(parts_total(v1)) + "}},\"height\":"@;
    lemma_decimal_distinct(a, v1.height as int, v2.height as int, t1, t2);
}

/// The round is covered: votes that agree up to the round and differ in it
/// have different canonical text.
pub proof fn lemma_round_covered(chain_id: Seq<char>, v1: Vote, v2: Vote)
    requires
        block_hash(v1) == block_hash(v2),
        parts_hash(v1) == parts_hash(v2),
        parts_total(v1) == parts_total(v2),
        v1.height == v2.height,
        v1.round != v2.round,
    ensures
        canonical_vote(chain_id, v1) != canonical_vote(chain_id, v2),
{
    let ts1 = timestamp_text(v1);
    let ts2 = timestamp_text(v2);
    lemma_vote_json_numbers(chain_id, v1, ts1);
    lemma_vote_json_numbers(chain_id, v2, ts2);
    reveal_strlit(",\"timestamp\":");
    let t1 = after_round(v1, ts1);
    let t2 = after_round(v2, ts2);
    assert(t1[0] == ',' && t2[0] == ',');
    let a = before_total(chain_id, v1) + decimal_text(parts_total(v1)) + "}},\"height\":"@
        + decimal_text(v1.height as int) + ",\"round\":"@;
    lemma_decimal_distinct(a, v1.round as int, v2.round as int, t1, t2);
}

/// The signed fields are covered: on any chain, votes that differ in block
/// hash, parts hash, parts total, height, round or written type code have
/// different canonical text, so no such difference can pass as a replay.
pub proof fn lemma_signed_fields_covered(chain_id: Seq<char>, v1: Vote, v2: Vote)
    requires
        block_hash(v1) != block_hash(v2) || parts_hash(v1) != parts_hash(v2) || parts_total(v1) != parts_total(v2)
            || v1.height != v2.height || v1.round != v2.round
            || canonical_type_code(v1.vote_type) != canonical_type_code(v2.vote_type),
    ensures
        canonical_vote(chain_id, v1) != canonical_vote(chain_id, v2),
{
    if block_hash(v1) != block_hash(v2) {
        lemma_block_hash_covered(chain_id, v1, v2);
    } else if parts_hash(v1) != parts_hash(v2) {
        lemma_parts_hash_covered(chain_id, v1, v2);
    } else if parts_total(v1) != parts_total(v2) {
        lemma_parts_total_covered(chain_id, v1, v2);
    } else if v1.height != v2.height {
        lemma_height_covered(chain_id, v1, v2);
    } else if v1.round != v2.round {
        lemma_round_covered(chain_id, v1, v2);
    } else {
        lemma_type_covered(chain_id, v1, v2);
    }
}

} // verus!
