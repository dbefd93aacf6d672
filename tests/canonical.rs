use tmkms_core::error::SigningError;
use tmkms_core::vote::{
    canonical_vote_json, u32_to_vote_type, vote_type_to_char, BlockID, InvalidVoteType,
    PartsSetHeader, SignVoteMsg, Time, Vote, VoteType,
};

const GOLDEN: &str = "{\"@chain_id\":\"chain_iddddd\",\"@type\":\"vote\",\"block_id\":{\"hash\":\"68617368\",\"parts\":{\"hash\":\"70617274735F68617368\",\"total\":1000000}},\"height\":12345,\"round\":2,\"timestamp\":\"2017-12-25T03:00:01.234+00:00\",\"type\":\"\\u0001\"}";

fn golden_vote() -> Vote {
    Vote {
        validator_address: vec![
            0xa3, 0xb2, 0xcc, 0xdd, 0x71, 0x86, 0xf1, 0x68, 0x5f, 0x21, 0xf2, 0x48, 0x2a, 0xf4,
            0xfb, 0x34, 0x46, 0xa8, 0x4b, 0x35,
        ],
        validator_index: 56789,
        height: 12345,
        round: 2,
        timestamp: Some(Time { seconds: 1514170801, nanos: 234_000_000 }),
        vote_type: 0x01,
        block_id: Some(BlockID {
            hash: "hash".as_bytes().to_vec(),
            parts_header: Some(PartsSetHeader {
                total: 1000000,
                hash: "parts_hash".as_bytes().to_vec(),
            }),
        }),
        signature: None,
    }
}

fn canon(vote: Vote, chain_id: &str) -> Result<String, SigningError> {
    SignVoteMsg { vote: Some(vote) }.cannonicalize(chain_id)
}

#[test]
fn golden_vote_canonical_form() {
    assert_eq!(canon(golden_vote(), "chain_iddddd").unwrap(), GOLDEN);
}

#[test]
fn canonical_form_is_deterministic() {
    let msg = SignVoteMsg { vote: Some(golden_vote()) };
    let a = msg.cannonicalize("chain_iddddd").unwrap();
    let b = msg.cannonicalize("chain_iddddd").unwrap();
    assert_eq!(a, b);
}

#[test]
fn validator_metadata_is_not_covered() {
    let before = canon(golden_vote(), "chain_iddddd").unwrap();
    let mut changed = golden_vote();
    changed.validator_address = vec![1, 2, 3];
    changed.validator_index = 7;
    changed.signature = Some(vec![9; 64]);
    assert_eq!(canon(changed, "chain_iddddd").unwrap(), before);
}

#[test]
fn chain_id_is_covered() {
    let a = canon(golden_vote(), "chain_a").unwrap();
    let b = canon(golden_vote(), "chain_b").unwrap();
    assert_ne!(a, b);
    assert!(a.starts_with("{\"@chain_id\":\"chain_a\","));
}

#[test]
fn missing_block_has_empty_shape() {
    let mut vote = golden_vote();
    vote.block_id = None;
    let first = canon(vote.clone(), "c").unwrap();
    let second = canon(vote, "c").unwrap();
    assert_eq!(first, second);
    assert!(first.contains("\"block_id\":{\"hash\":\"\",\"parts\":{\"hash\":\"\",\"total\":0}}"));
    let mut empty = golden_vote();
    empty.block_id = Some(BlockID {
        hash: vec![],
        parts_header: Some(PartsSetHeader { total: 0, hash: vec![] }),
    });
    assert_eq!(canon(empty, "c").unwrap(), first);
}

#[test]
fn missing_parts_header_has_empty_parts() {
    let mut vote = golden_vote();
    vote.block_id = Some(BlockID { hash: vec![0xab, 0x0f], parts_header: None });
    let s = canon(vote, "c").unwrap();
    assert!(s.contains("\"block_id\":{\"hash\":\"AB0F\",\"parts\":{\"hash\":\"\",\"total\":0}}"));
}

#[test]
fn missing_timestamp_is_epoch() {
    let mut vote = golden_vote();
    vote.timestamp = None;
    let s = canon(vote, "c").unwrap();
    assert!(s.contains("\"timestamp\":\"1970-01-01T00:00:00+00:00\""));
}

#[test]
fn sub_second_precision_is_kept() {
    let mut vote = golden_vote();
    vote.timestamp = Some(Time { seconds: 0, nanos: 1_500 });
    let s = canon(vote, "c").unwrap();
    assert!(s.contains("\"timestamp\":\"1970-01-01T00:00:00.000001500+00:00\""));
}

#[test]
fn unknown_vote_type_writes_zero_code() {
    let mut vote = golden_vote();
    vote.vote_type = 9;
    let s = canon(vote, "c").unwrap();
    assert!(s.ends_with(",\"type\":\"\\u0000\"}"));
}

#[test]
fn precommit_type_code() {
    let mut vote = golden_vote();
    vote.vote_type = 2;
    let s = canon(vote, "c").unwrap();
    assert!(s.ends_with(",\"type\":\"\\u0002\"}"));
}

#[test]
fn chain_id_is_escaped() {
    let s = canon(golden_vote(), "a\"b\\c\nd\u{1f}").unwrap();
    assert!(s.starts_with("{\"@chain_id\":\"a\\\"b\\\\c\\nd\\u001f\","));
}

#[test]
fn negative_fields_are_written_in_decimal() {
    let mut vote = golden_vote();
    vote.height = -5;
    vote.round = i64::MIN;
    let s = canon(vote, "c").unwrap();
    assert!(s.contains("\"height\":-5,\"round\":-9223372036854775808,"));
}

#[test]
fn out_of_range_timestamps_are_malformed() {
    for t in [
        Time { seconds: 0, nanos: -1 },
        Time { seconds: 0, nanos: 1_000_000_000 },
        Time { seconds: 8_000_000_000_001, nanos: 0 },
        Time { seconds: -8_000_000_000_001, nanos: 0 },
    ] {
        let mut vote = golden_vote();
        vote.timestamp = Some(t);
        assert_eq!(
            canon(vote, "c"),
            Err(SigningError::MalformedMessage {
                chain_id: "c".to_string(),
                height: Some(12345),
                round: Some(2),
            })
        );
    }
}

#[test]
fn timestamp_limit_is_accepted() {
    let mut vote = golden_vote();
    vote.timestamp = Some(Time { seconds: 8_000_000_000_000, nanos: 999_999_999 });
    assert!(canon(vote.clone(), "c").is_ok());
    vote.timestamp = Some(Time { seconds: -8_000_000_000_000, nanos: 0 });
    assert!(canon(vote, "c").is_ok());
}

#[test]
fn empty_message_canonicalizes_to_empty_text() {
    assert_eq!(SignVoteMsg { vote: None }.cannonicalize("c"), Ok(String::new()));
}

#[test]
fn canonical_json_takes_the_given_timestamp() {
    let s = canonical_vote_json("chain_iddddd", &golden_vote(), "2017-12-25T03:00:01.234+00:00");
    assert_eq!(s, GOLDEN);
}

#[test]
fn vote_type_codes() {
    assert_eq!(vote_type_to_char(&VoteType::PreVote), '\u{1}');
    assert_eq!(vote_type_to_char(&VoteType::PreCommit), '\u{2}');
    assert_eq!(u32_to_vote_type(1), Ok(VoteType::PreVote));
    assert_eq!(u32_to_vote_type(2), Ok(VoteType::PreCommit));
    assert_eq!(u32_to_vote_type(0), Err(InvalidVoteType { code: 0 }));
    assert_eq!(u32_to_vote_type(3), Err(InvalidVoteType { code: 3 }));
}

#[test]
fn every_signed_field_is_covered() {
    let base = canon(golden_vote(), "chain_iddddd").unwrap();
    let mut changes: Vec<Vote> = Vec::new();
    let mut v = golden_vote();
    v.height = 12346;
    changes.push(v);
    let mut v = golden_vote();
    v.round = 3;
    changes.push(v);
    let mut v = golden_vote();
    v.vote_type = 2;
    changes.push(v);
    let mut v = golden_vote();
    v.block_id.as_mut().unwrap().parts_header.as_mut().unwrap().total = 1000001;
    changes.push(v);
    let mut v = golden_vote();
    v.block_id.as_mut().unwrap().parts_header.as_mut().unwrap().hash = b"parts_hasi".to_vec();
    changes.push(v);
    let mut v = golden_vote();
    v.block_id.as_mut().unwrap().hash = b"hasi".to_vec();
    changes.push(v);
    let mut v = golden_vote();
    v.timestamp = Some(Time { seconds: 1514170801, nanos: 235_000_000 });
    changes.push(v);
    for changed in changes {
        assert_ne!(canon(changed, "chain_iddddd").unwrap(), base);
    }
    assert_ne!(canon(golden_vote(), "chain_idddde").unwrap(), base);
}
