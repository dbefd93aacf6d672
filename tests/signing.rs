use tmkms_core::engine::{SigningEngine, SigningRequest, Step};
use tmkms_core::error::SigningError;
use tmkms_core::guard::{Decision, Guard, MessageKind};
use tmkms_core::provider::ProviderFailure;
use tmkms_core::vote::{BlockID, PartsSetHeader, SignVoteMsg, Time, Vote};

fn vote(height: i64, round: i64, vote_type: u32, block: &[u8]) -> Vote {
    Vote {
        validator_address: vec![0xa3; 20],
        validator_index: 1,
        height,
        round,
        timestamp: Some(Time { seconds: 1514170801, nanos: 234_000_000 }),
        vote_type,
        block_id: Some(BlockID {
            hash: block.to_vec(),
            parts_header: Some(PartsSetHeader { total: 1, hash: b"parts".to_vec() }),
        }),
        signature: None,
    }
}

fn request(chain_id: &str, v: Vote) -> SigningRequest {
    SigningRequest { chain_id: chain_id.to_string(), message: SignVoteMsg { vote: Some(v) } }
}

/// Runs one request through the engine with a provider that counts its calls
/// and signs with `provider`.
fn handle(
    engine: &mut SigningEngine,
    req: &SigningRequest,
    calls: &mut u32,
    provider: &dyn Fn(&str) -> Result<Vec<u8>, ProviderFailure>,
) -> Result<Vec<u8>, SigningError> {
    match engine.begin(req) {
        Step::Reply(r) => r,
        Step::Sign(ticket) => {
            *calls += 1;
            let outcome = provider(&ticket.canonical);
            engine.complete(ticket, outcome)
        }
    }
}

fn fake_sign(text: &str) -> Result<Vec<u8>, ProviderFailure> {
    let mut sig = text.as_bytes().to_vec();
    sig.resize(64, 0);
    Ok(sig)
}

#[test]
fn identical_request_replays_signature() {
    let mut engine = SigningEngine::new();
    let mut calls = 0;
    let req = request("chain", vote(10, 0, 1, b"block"));
    let first = handle(&mut engine, &req, &mut calls, &fake_sign).unwrap();
    let mut again = vote(10, 0, 1, b"block");
    again.validator_index = 99;
    let second = handle(&mut engine, &request("chain", again), &mut calls, &fake_sign).unwrap();
    assert_eq!(first, second);
    assert_eq!(calls, 1);
}

#[test]
fn conflicting_request_is_double_sign() {
    let mut engine = SigningEngine::new();
    let mut calls = 0;
    handle(&mut engine, &request("chain", vote(10, 0, 1, b"block")), &mut calls, &fake_sign).unwrap();
    let r = handle(&mut engine, &request("chain", vote(10, 0, 1, b"other")), &mut calls, &fake_sign);
    assert_eq!(
        r,
        Err(SigningError::DoubleSign { chain_id: "chain".to_string(), height: 10, round: 0 })
    );
    assert_eq!(calls, 1);
}

#[test]
fn kinds_and_chains_do_not_collide() {
    let mut engine = SigningEngine::new();
    let mut calls = 0;
    handle(&mut engine, &request("chain", vote(10, 0, 1, b"block")), &mut calls, &fake_sign).unwrap();
    handle(&mut engine, &request("chain", vote(10, 0, 2, b"other")), &mut calls, &fake_sign).unwrap();
    handle(&mut engine, &request("chain2", vote(10, 0, 1, b"other")), &mut calls, &fake_sign).unwrap();
    handle(&mut engine, &request("chain", vote(10, 1, 1, b"other")), &mut calls, &fake_sign).unwrap();
    assert_eq!(calls, 4);
}

#[test]
fn lower_height_is_refused_after_commit() {
    let mut engine = SigningEngine::new();
    let mut calls = 0;
    handle(&mut engine, &request("chain", vote(10, 0, 1, b"block")), &mut calls, &fake_sign).unwrap();
    let r = handle(&mut engine, &request("chain", vote(9, 0, 1, b"block")), &mut calls, &fake_sign);
    assert_eq!(
        r,
        Err(SigningError::DoubleSign { chain_id: "chain".to_string(), height: 9, round: 0 })
    );
    assert_eq!(calls, 1);
    handle(&mut engine, &request("chain", vote(11, 0, 1, b"block")), &mut calls, &fake_sign).unwrap();
    assert_eq!(calls, 2);
}

#[test]
fn provider_failure_leaves_state_unseen() {
    let mut engine = SigningEngine::new();
    let mut calls = 0;
    let req = request("chain", vote(10, 0, 1, b"block"));
    let fail = |_: &str| Err(ProviderFailure::Timeout);
    assert_eq!(
        handle(&mut engine, &req, &mut calls, &fail),
        Err(SigningError::ProviderUnavailable { chain_id: "chain".to_string(), height: 10, round: 0 })
    );
    let sig = handle(&mut engine, &req, &mut calls, &fake_sign).unwrap();
    assert_eq!(calls, 2);
    assert_eq!(sig.len(), 64);
}

#[test]
fn provider_failures_carry_the_request() {
    let cases = [
        (ProviderFailure::Io, SigningError::ProviderUnavailable { chain_id: "chain".to_string(), height: 3, round: 1 }),
        (ProviderFailure::Session, SigningError::ProviderAuthFailure { chain_id: "chain".to_string(), height: 3, round: 1 }),
        (
            ProviderFailure::Algorithm,
            SigningError::ProviderAlgorithmMismatch { chain_id: "chain".to_string(), height: 3, round: 1 },
        ),
    ];
    for (f, want) in cases {
        let mut engine = SigningEngine::new();
        let mut calls = 0;
        let req = request("chain", vote(3, 1, 2, b"block"));
        let fail = move |_: &str| Err(f);
        assert_eq!(handle(&mut engine, &req, &mut calls, &fail), Err(want));
    }
}

#[test]
fn short_signature_is_rejected_and_not_recorded() {
    let mut engine = SigningEngine::new();
    let mut calls = 0;
    let req = request("chain", vote(10, 0, 1, b"block"));
    let short = |_: &str| Ok(vec![1u8; 63]);
    assert_eq!(
        handle(&mut engine, &req, &mut calls, &short),
        Err(SigningError::ProviderAlgorithmMismatch { chain_id: "chain".to_string(), height: 10, round: 0 })
    );
    assert_eq!(handle(&mut engine, &req, &mut calls, &fake_sign).unwrap().len(), 64);
}

#[test]
fn malformed_requests_are_refused() {
    let engine = SigningEngine::new();
    let none = SigningRequest { chain_id: "c".to_string(), message: SignVoteMsg { vote: None } };
    match engine.begin(&none) {
        Step::Reply(r) => assert_eq!(
            r,
            Err(SigningError::MalformedMessage { chain_id: "c".to_string(), height: None, round: None })
        ),
        Step::Sign(_) => panic!("empty request reached the provider"),
    }
    let mut bad_time = vote(1, 0, 1, b"b");
    bad_time.timestamp = Some(Time { seconds: 0, nanos: -1 });
    for (v, height, round) in [
        (vote(1, 0, 7, b"b"), 1, 0),
        (vote(-1, 0, 1, b"b"), -1, 0),
        (vote(1, -1, 1, b"b"), 1, -1),
        (bad_time, 1, 0),
    ] {
        match engine.begin(&request("c", v)) {
            Step::Reply(r) => assert_eq!(
                r,
                Err(SigningError::MalformedMessage {
                    chain_id: "c".to_string(),
                    height: Some(height),
                    round: Some(round),
                })
            ),
            Step::Sign(_) => panic!("malformed request reached the provider"),
        }
    }
}

#[test]
fn ticket_carries_canonical_text() {
    let engine = SigningEngine::new();
    let req = request("chain", vote(10, 3, 2, b"block"));
    match engine.begin(&req) {
        Step::Sign(t) => {
            assert_eq!(t.chain_id, "chain");
            assert_eq!((t.height, t.round, t.kind), (10, 3, MessageKind::PreCommit));
            assert_eq!(Ok(t.canonical), req.message.cannonicalize("chain"));
        }
        Step::Reply(_) => panic!("fresh request was not sent to the provider"),
    }
}

#[test]
fn guard_decisions() {
    let mut g = Guard::new();
    let chain = "c".to_string();
    let fp = "text".to_string();
    assert_eq!(g.check(&chain, 5, 0, MessageKind::Proposal, &fp), Decision::Allow);
    g.commit(chain.clone(), 5, 0, MessageKind::Proposal, fp.clone(), vec![2; 64]);
    assert_eq!(g.check(&chain, 5, 0, MessageKind::Proposal, &fp), Decision::Replay(vec![2; 64]));
    assert_eq!(g.check(&chain, 5, 0, MessageKind::Proposal, &"x".to_string()), Decision::Refuse);
    assert_eq!(g.check(&chain, 5, 0, MessageKind::Heartbeat, &"x".to_string()), Decision::Allow);
    assert_eq!(g.check(&chain, 4, 0, MessageKind::Heartbeat, &fp), Decision::Refuse);
    assert_eq!(g.check(&"d".to_string(), 4, 0, MessageKind::Proposal, &fp), Decision::Allow);
}
