use std::time::Duration;

use maat_sdk::descriptor::{ActionDescriptor, DescriptorError, EmptyDescriptor};
use maat_sdk::error::SdkError;
use maat_sdk::executor_key::{executor_key_from_response, executor_key_url, ExecutorKey};
use maat_sdk::protocol::{Action, ObjectId, PublicKey, Receipt, SignatureAlgorithm, ValueClaim};
use maat_sdk::replay::{MemoryReplayStore, ReplayStore};
use maat_sdk::time::{FixedClock, SystemClock};
use maat_sdk::validator::{pubkey_constant_time_eq, replay_outcome, ReceiptValidator, ValidationError};

fn key(b: u8) -> PublicKey {
    PublicKey { algorithm: SignatureAlgorithm::Ed25519, key_data: vec![b; 32] }
}

/// A receipt as the executor `executor` would have issued it.
fn mint_test_receipt(executor: &PublicKey, executed_at: u64, action_value: Vec<u8>) -> Receipt {
    Receipt {
        id: ObjectId([0x42; 32]),
        executor: executor.clone(),
        delegation_id: ObjectId([1; 32]),
        anchor_id: ObjectId([2; 32]),
        action: Action {
            scope_used: "test:action".into(),
            description: "test".into(),
            value: action_value,
        },
        executed_at,
        signature: vec![0x55; 64],
    }
}

fn make_validator<D: ActionDescriptor>(
    executor_pubkey: PublicKey,
    clock_now: u64,
    max_age: u64,
) -> ReceiptValidator<D, MemoryReplayStore, FixedClock> {
    ReceiptValidator::<D, MemoryReplayStore, SystemClock>::new(
        ExecutorKey { key: executor_pubkey, key_id: "test-key".into(), tenant_id: uuid::Uuid::nil() },
        MemoryReplayStore::new(),
    )
    .with_max_age(Duration::from_secs(max_age))
    .with_clock(FixedClock(clock_now))
}

fn usd(amount: u64) -> Vec<u8> {
    ValueClaim { currency: "USD".into(), amount, decimals: 2 }.to_action_value().unwrap()
}

// ─── replay store ──────────────────────────────────────────────────────────

#[test]
fn first_consume_succeeds_second_reports_replay() {
    let mut store = MemoryReplayStore::new();
    let id = b"receipt-1";
    assert!(store.try_consume(id).unwrap());
    assert!(!store.try_consume(id).unwrap());
}

#[test]
fn distinct_ids_are_independent() {
    let mut store = MemoryReplayStore::new();
    assert!(store.try_consume(b"a").unwrap());
    assert!(store.try_consume(b"b").unwrap());
}

#[test]
fn replay_store_counts_distinct_identifiers() {
    let mut store = MemoryReplayStore::new();
    assert_eq!(store.len(), 0);
    store.try_consume(b"a").unwrap();
    store.try_consume(b"ab").unwrap();
    store.try_consume(b"a").unwrap();
    store.try_consume(b"").unwrap();
    assert_eq!(store.len(), 3);
}

// ─── validator ─────────────────────────────────────────────────────────────

#[test]
fn happy_path_validates() {
    let executor = key(0xE0);
    let now = 2_000_000;
    let claim = ValueClaim { currency: "USD".into(), amount: 1234, decimals: 2 };
    let action_value = claim.to_action_value().unwrap();
    let receipt = mint_test_receipt(&executor, now - 1, action_value);

    let mut validator = make_validator::<ValueClaim>(executor.clone(), now, 60);
    let validated = validator.validate(Ok(receipt), Ok(())).unwrap();
    assert_eq!(validated.descriptor.amount, 1234);
    assert_eq!(validated.descriptor, claim);
    assert_eq!(validated.receipt, mint_test_receipt(&executor, now - 1, claim.to_action_value().unwrap()));
}

#[test]
fn rejects_untrusted_executor() {
    let real_executor = key(0xE0);
    let attacker = key(0xA7);
    let now = 2_000_000;
    let receipt = mint_test_receipt(&attacker, now - 1, usd(100));
    let mut validator = make_validator::<ValueClaim>(real_executor, now, 60);
    let result = validator.validate(Ok(receipt), Ok(()));
    assert!(matches!(result, Err(ValidationError::UntrustedExecutor)));
}

#[test]
fn rejects_old_receipt() {
    let executor = key(0xE0);
    let now = 2_000_000;
    let receipt = mint_test_receipt(&executor, now - 200, usd(100));
    let mut validator = make_validator::<ValueClaim>(executor, now, 60);
    let result = validator.validate(Ok(receipt), Ok(()));
    assert!(matches!(result, Err(ValidationError::TooOld { .. })));
}

#[test]
fn rejects_future_timestamp() {
    let executor = key(0xE0);
    let now = 2_000_000;
    let receipt = mint_test_receipt(&executor, now + 100, usd(100));
    let mut validator = make_validator::<ValueClaim>(executor, now, 60);
    let result = validator.validate(Ok(receipt), Ok(()));
    assert!(matches!(result, Err(ValidationError::FutureTimestamp { .. })));
}

#[test]
fn rejects_replay() {
    let executor = key(0xE0);
    let now = 2_000_000;
    let mut validator = make_validator::<ValueClaim>(executor.clone(), now, 60);
    validator.validate(Ok(mint_test_receipt(&executor, now - 1, usd(100))), Ok(())).unwrap();
    let result = validator.validate(Ok(mint_test_receipt(&executor, now - 1, usd(100))), Ok(()));
    assert!(matches!(result, Err(ValidationError::Replay)));
}

#[test]
fn rejects_malformed_descriptor() {
    let executor = key(0xE0);
    let now = 2_000_000;
    let receipt = mint_test_receipt(&executor, now - 1, b"not a value claim".to_vec());
    let mut validator = make_validator::<ValueClaim>(executor, now, 60);
    let result = validator.validate(Ok(receipt), Ok(()));
    assert!(matches!(result, Err(ValidationError::MalformedDescriptor(_))));
}

#[test]
fn pubkey_constant_time_eq_correct() {
    assert!(pubkey_constant_time_eq(b"abc", b"abc"));
    assert!(!pubkey_constant_time_eq(b"abc", b"abd"));
    assert!(!pubkey_constant_time_eq(b"abc", b"abcd"));
    assert!(!pubkey_constant_time_eq(b"", b"a"));
    assert!(pubkey_constant_time_eq(b"", b""));
}

#[test]
fn validation_errors_in_pipeline_order() {
    let executor = key(0xE0);
    let now = 2_000_000;
    let mut v = make_validator::<ValueClaim>(executor.clone(), now, 60);

    let r = v.validate(Err("expected value at line 1".into()), Ok(()));
    assert!(matches!(r, Err(ValidationError::Malformed(ref m)) if m == "expected value at line 1"));

    // a prefix of the trusted key is not the trusted key
    let mut other_alg = mint_test_receipt(&executor, now, usd(1));
    other_alg.executor.key_data = vec![0xE0; 31];
    let r = v.validate(Ok(other_alg), Ok(()));
    assert!(matches!(r, Err(ValidationError::UntrustedExecutor)));

    let r = v.validate(Ok(mint_test_receipt(&executor, now, usd(1))), Err("bad sig".into()));
    assert!(matches!(r, Err(ValidationError::InvalidSignature(ref m)) if m == "bad sig"));

    // a refused receipt consumes nothing: after the signature failure the
    // same receipt is accepted
    let r = v.validate(Ok(mint_test_receipt(&executor, now, usd(1))), Ok(()));
    assert!(r.is_ok());
}

#[test]
fn validation_error_messages() {
    let executor = key(0xE0);
    let now = 2_000_000;
    let mut v = make_validator::<ValueClaim>(executor.clone(), now, 60);
    let e = v.validate(Ok(mint_test_receipt(&executor, now + 100, usd(1))), Ok(())).unwrap_err();
    assert_eq!(e.to_message(), "receipt executed_at (2000100) is after now (2000000)");
    let e = v.validate(Ok(mint_test_receipt(&executor, now - 61, usd(1))), Ok(())).unwrap_err();
    assert_eq!(e.to_message(), "receipt too old: 61s (limit 60s)");
    assert!(matches!(e, ValidationError::TooOld { age_seconds: 61, max_age_seconds: 60 }));
    // exactly max_age old is still fresh
    let ok = v.validate(Ok(mint_test_receipt(&executor, now - 60, usd(1))), Ok(()));
    assert!(ok.is_ok());
    let e = v.validate(Ok(mint_test_receipt(&executor, now - 60, usd(1))), Ok(())).unwrap_err();
    assert_eq!(e.to_message(), "receipt already used (replay attempt)");
    let e = v.validate(Ok(mint_test_receipt(&executor, now, b"x".to_vec())), Ok(())).unwrap_err();
    assert_eq!(e.to_message(), "descriptor decoding failed: descriptor decoding failed: not a value claim");
    assert_eq!(ValidationError::UntrustedExecutor.to_message(), "receipt signed by an executor we don't trust");
    assert_eq!(ValidationError::Malformed("m".into()).to_message(), "receipt JSON malformed: m");
    assert_eq!(ValidationError::InvalidSignature("s".into()).to_message(), "receipt signature is invalid: s");
    assert_eq!(ValidationError::Storage("db".into()).to_message(), "storage error: db");
}

#[test]
fn check_decoded_uses_the_given_time() {
    let executor = key(0xE0);
    let mut v = make_validator::<EmptyDescriptor>(executor.clone(), 0, 10);
    let r = v.check_decoded(mint_test_receipt(&executor, 100, Vec::new()), Ok(EmptyDescriptor), 105);
    assert!(r.is_ok());
    let r = v.check_decoded(
        mint_test_receipt(&executor, 100, Vec::new()),
        Err(DescriptorError::Decode("x".into())),
        105,
    );
    assert!(matches!(r, Err(ValidationError::MalformedDescriptor(ref m)) if m == "descriptor decoding failed: x"));
    assert!(v.trusts(&executor));
    assert!(!v.trusts(&key(1)));
}

// ─── executor key ──────────────────────────────────────────────────────────

#[test]
fn executor_key_endpoint() {
    assert_eq!(executor_key_url("https://gw.test/"), "https://gw.test/v1/executor-key");
}

#[test]
fn executor_key_from_a_well_formed_response() {
    let k = executor_key_from_response(uuid::Uuid::nil(), "k1".into(), "ed25519", "AQID_w").unwrap();
    assert_eq!(k.key.key_data, vec![1, 2, 3, 0xFF]);
    assert_eq!(k.key.algorithm, SignatureAlgorithm::Ed25519);
    assert_eq!(k.key_id, "k1");
    assert_eq!(k.tenant_id, uuid::Uuid::nil());
}

#[test]
fn executor_key_refusals() {
    match executor_key_from_response(uuid::Uuid::nil(), "k1".into(), "rsa", "AQID") {
        Err(SdkError::Crypto(m)) => assert_eq!(m, "unsupported algorithm: rsa"),
        other => panic!("unexpected: {:?}", other.map(|k| k.key_id)),
    }
    match executor_key_from_response(uuid::Uuid::nil(), "k1".into(), "ed25519", "AQID+/==") {
        Err(SdkError::Crypto(m)) => assert!(m.starts_with("public_key_b64 not base64url: ")),
        other => panic!("unexpected: {:?}", other.map(|k| k.key_id)),
    }
}

#[test]
fn replay_outcome_maps_the_store_answer() {
    let executor = key(0xE0);
    let ok = replay_outcome(mint_test_receipt(&executor, 5, usd(3)), 7u8, Ok(true)).unwrap();
    assert_eq!(ok.receipt, mint_test_receipt(&executor, 5, usd(3)));
    assert_eq!(ok.descriptor, 7u8);
    let replay = replay_outcome(mint_test_receipt(&executor, 5, usd(3)), 7u8, Ok(false));
    assert!(matches!(replay, Err(ValidationError::Replay)));
    let failed = replay_outcome(
        mint_test_receipt(&executor, 5, usd(3)),
        7u8,
        Err(SdkError::Storage("db down".into())),
    );
    assert!(matches!(failed, Err(ValidationError::Storage(ref m)) if m == "storage error: db down"));
}
