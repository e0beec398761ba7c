use std::time::Duration;

use maat_sdk::anchor::{AnchorBuilder, StateBinding};
use maat_sdk::constraints::ConstraintSet;
use maat_sdk::delegation::{
    accept_delegation, DelegationBuilder, DelegationStore, MemoryDelegationStore,
    SubDelegationBuilder,
};
use maat_sdk::error::SdkError;
use maat_sdk::gateway::{
    receipt_url, receipts_url, rejection_error, trim_trailing_slashes, urlencode, verify_url,
    ReceiptFilter, RejectionEnvelope,
};
use maat_sdk::protocol::{
    Contingency, Delegation, HashAlgorithm, ObjectId, PublicKey, ScopeExpr, SignatureAlgorithm,
};
use maat_sdk::scope::ScopeBuilder;
use maat_sdk::time::{Clock, SystemClock};

fn key(b: u8) -> PublicKey {
    PublicKey { algorithm: SignatureAlgorithm::Ed25519, key_data: vec![b; 32] }
}

/// A delegation as a principal would have signed it: `agent` may act
/// within `grant`, for the hour starting at `now`.
fn signed_delegation(agent: &PublicKey, grant: &str, constraints: ConstraintSet, now: u64) -> Delegation {
    let draft = DelegationBuilder::new(agent.clone())
        .scope(ScopeBuilder::new().grant(&[grant]).build())
        .constraints(constraints)
        .valid_for_at(now, Duration::from_secs(3600))
        .build()
        .unwrap();
    Delegation {
        id: ObjectId([7u8; 32]),
        issuer: key(1),
        agent: draft.agent,
        scope: draft.scope,
        constraints: draft.constraints,
        not_before: draft.not_before.unwrap(),
        not_after: draft.not_after.unwrap(),
        max_depth: draft.max_depth,
        parent_id: draft.parent_id,
        signature: vec![0xAA; 64],
    }
}

// ─── anchors ───────────────────────────────────────────────────────────────

#[test]
fn stateless_anchor_builds() {
    let did = ObjectId::zero();
    let anchor = AnchorBuilder::new(did).max_staleness(Duration::from_secs(60)).build();
    assert!(anchor.state_entries.is_empty());
    assert_eq!(anchor.max_staleness, 60);
}

#[test]
fn anchor_with_url_state() {
    let did = ObjectId::zero();
    let anchor = AnchorBuilder::new(did)
        .add_state(StateBinding::url_hash("https://api.example.com/x", vec![0; 32], "x"))
        .build();
    assert_eq!(anchor.state_entries.len(), 1);
    assert_eq!(anchor.state_entries[0].label, "x");
}

#[test]
fn created_at_is_pinned_for_determinism() {
    let did = ObjectId::zero();
    let anchor = AnchorBuilder::new(did)
        .max_staleness(Duration::from_secs(60))
        .created_at(1_700_000_000)
        .build();
    assert_eq!(anchor.created_at, Some(1_700_000_000));
}

#[test]
fn anchor_defaults_and_settings() {
    let did = ObjectId([3u8; 32]);
    let d = AnchorBuilder::new(did).build();
    assert_eq!(d.delegation_id, did);
    assert_eq!(d.max_staleness, 300);
    assert_eq!(d.contingency, Contingency::Abort);
    assert_eq!(d.created_at, None);

    let d = AnchorBuilder::new(did)
        .add_state(StateBinding::content_hash("git_commit", vec![0xCD; 32]))
        .add_state(
            StateBinding::url_hash("https://a.example/o/1", vec![0xAB; 32], "order")
                .with_hash_alg(HashAlgorithm::Sha512),
        )
        .contingency(Contingency::Retry)
        .build();
    assert_eq!(d.state_entries.len(), 2);
    assert_eq!(d.state_entries[0].source_uri, "");
    assert_eq!(d.state_entries[0].label, "git_commit");
    assert_eq!(d.state_entries[0].hash_alg, HashAlgorithm::Sha256);
    assert_eq!(d.state_entries[1].source_uri, "https://a.example/o/1");
    assert_eq!(d.state_entries[1].hash_alg, HashAlgorithm::Sha512);
    assert_eq!(d.contingency, Contingency::Retry);

    let replaced = AnchorBuilder::new(did)
        .add_state(StateBinding::content_hash("a", vec![1]))
        .state_entries(Vec::new())
        .build();
    assert!(replaced.state_entries.is_empty());
}

// ─── delegations ───────────────────────────────────────────────────────────

#[test]
fn memory_store_round_trips() {
    let mut store = MemoryDelegationStore::new();
    assert!(store.current().unwrap().is_none());

    let now = SystemClock.now();
    let d = signed_delegation(&key(2), "test:foo", ConstraintSet::new(), now);

    store.set(d.clone()).unwrap();
    assert!(store.current().unwrap().is_some());
    assert_eq!(store.current().unwrap(), Some(d));

    store.clear().unwrap();
    assert!(store.current().unwrap().is_none());
}

#[test]
fn delegation_builder_requires_scope() {
    let result = DelegationBuilder::new(key(2)).build();
    assert!(result.is_err());
    match result {
        Err(e) => assert_eq!(e.to_message(), "configuration error: scope is required"),
        Ok(_) => panic!("built without a scope"),
    }
}

#[test]
fn delegation_builder_composes_constraints() {
    let d = DelegationBuilder::new(key(2))
        .scope(ScopeBuilder::new().grant(&["test:action"]).build())
        .constraints(
            ConstraintSet::new().max_value("USD", 1000, 2).max_rate(10, Duration::from_secs(60)),
        )
        .valid_for(Duration::from_secs(3600))
        .build()
        .unwrap();
    assert_eq!(d.constraints.len(), 2);
}

#[test]
fn delegation_builder_carries_every_setting() {
    let d = DelegationBuilder::new(key(2))
        .scope(ScopeExpr::new(vec!["s".into()]))
        .not_before(10)
        .not_after(20)
        .max_depth(3)
        .build()
        .unwrap();
    assert_eq!(d.agent, key(2));
    assert_eq!(d.scope.grant, vec!["s"]);
    assert!(d.constraints.is_empty());
    assert_eq!(d.not_before, Some(10));
    assert_eq!(d.not_after, Some(20));
    assert_eq!(d.max_depth, Some(3));
    assert_eq!(d.parent_id, None);
    assert!(d.parent_chain.is_empty());
}

#[test]
fn valid_for_sets_a_window_from_now() {
    let before = SystemClock.now();
    let d = DelegationBuilder::new(key(2))
        .scope(ScopeExpr::new(vec!["s".into()]))
        .valid_for(Duration::from_secs(3600))
        .build()
        .unwrap();
    let after = SystemClock.now();
    let nb = d.not_before.unwrap();
    assert!(before <= nb && nb <= after);
    assert_eq!(d.not_after, Some(nb + 3600));

    let pinned = DelegationBuilder::new(key(2))
        .scope(ScopeExpr::new(vec!["s".into()]))
        .valid_for_at(u64::MAX - 10, Duration::from_secs(3600))
        .build()
        .unwrap();
    assert_eq!(pinned.not_before, Some(u64::MAX - 10));
    assert_eq!(pinned.not_after, Some(u64::MAX));
}

#[test]
fn accept_delegation_rejects_wrong_agent() {
    let now = SystemClock.now();
    let d = signed_delegation(&key(2), "test:foo", ConstraintSet::new(), now);
    let other = key(9);
    let result = accept_delegation(&d, &other, now, Ok(()));
    assert!(matches!(result, Err(SdkError::Config(_))));
}

#[test]
fn accept_delegation_rejects_expired() {
    let now = SystemClock.now();
    let agent = key(2);
    let d = DelegationBuilder::new(agent.clone())
        .scope(ScopeBuilder::new().grant(&["test:foo"]).build())
        .not_before(now - 100)
        .not_after(now - 1)
        .build()
        .unwrap();
    let d = Delegation {
        id: ObjectId([7u8; 32]),
        issuer: key(1),
        agent: d.agent,
        scope: d.scope,
        constraints: d.constraints,
        not_before: d.not_before.unwrap(),
        not_after: d.not_after.unwrap(),
        max_depth: d.max_depth,
        parent_id: d.parent_id,
        signature: vec![0xAA; 64],
    };
    let result = accept_delegation(&d, &agent, now, Ok(()));
    assert!(matches!(result, Err(SdkError::Protocol(_))));
}

#[test]
fn accept_delegation_outcomes() {
    let agent = key(2);
    let d = signed_delegation(&agent, "test:foo", ConstraintSet::new(), 1_000);
    assert!(accept_delegation(&d, &agent, 1_000, Ok(())).is_ok());
    match accept_delegation(&d, &agent, 4_600, Ok(())) {
        Err(SdkError::Protocol(m)) => {
            assert_eq!(m, "delegation has already expired (not_after=4600, now=4600)")
        }
        other => panic!("unexpected: {:?}", other),
    }
    match accept_delegation(&d, &agent, 1_000, Err("bad signature".into())) {
        Err(SdkError::Crypto(m)) => assert_eq!(m, "delegation signature invalid: bad signature"),
        other => panic!("unexpected: {:?}", other),
    }
    match accept_delegation(&d, &key(3), 1_000, Ok(())) {
        Err(SdkError::Config(m)) => {
            assert_eq!(m, "delegation agent pubkey does not match recipient identity")
        }
        other => panic!("unexpected: {:?}", other),
    }
}

#[test]
fn sub_delegation_inherits_from_parent() {
    let agent_a = key(2);
    let agent_b = key(3);
    let now = SystemClock.now();
    let parent = signed_delegation(
        &agent_a,
        "test:action",
        ConstraintSet::new().max_value("USD", 1000, 2),
        now,
    );

    let sub = SubDelegationBuilder::new(parent.clone(), vec![parent.clone()], agent_b.clone())
        .inherit_from_parent()
        .valid_for(Duration::from_secs(1800))
        .build()
        .unwrap();

    assert_eq!(sub.scope.grant, parent.scope.grant);
    assert_eq!(sub.constraints.len(), parent.constraints.len());
}

#[test]
fn sub_delegation_keeps_what_was_set_and_names_its_parent() {
    let parent = signed_delegation(&key(2), "p:scope", ConstraintSet::new().max_value("USD", 1, 2), 100);
    let sub = SubDelegationBuilder::new(parent.clone(), vec![parent.clone()], key(3))
        .scope(ScopeExpr::new(vec!["p:scope:narrow".into()]))
        .inherit_from_parent()
        .not_before(150)
        .not_after(200)
        .max_depth(1)
        .build()
        .unwrap();
    assert_eq!(sub.scope.grant, vec!["p:scope:narrow"]);
    assert_eq!(sub.constraints, parent.constraints);
    assert_eq!(sub.agent, key(3));
    assert_eq!(sub.parent_id, Some(parent.id));
    assert_eq!(sub.parent_chain, vec![parent.clone()]);
    assert_eq!((sub.not_before, sub.not_after, sub.max_depth), (Some(150), Some(200), Some(1)));

    let missing = SubDelegationBuilder::new(parent.clone(), vec![parent], key(3)).build();
    assert!(matches!(missing, Err(SdkError::Config(_))));
}

// ─── gateway ───────────────────────────────────────────────────────────────

#[test]
fn receipt_filter_builder_composes() {
    let f = ReceiptFilter::new().with_limit(50).after("abc");
    assert_eq!(f.limit, Some(50));
    assert_eq!(f.after_id.as_deref(), Some("abc"));
}

#[test]
fn url_encoding_handles_special_chars() {
    assert_eq!(urlencode("hello world"), "hello%20world");
    assert_eq!(urlencode("a+b=c"), "a%2Bb%3Dc");
    assert_eq!(urlencode("simple"), "simple");
}

#[test]
fn url_encoding_keeps_unreserved_and_encodes_utf8_bytes() {
    assert_eq!(urlencode("AZaz09-_.~"), "AZaz09-_.~");
    assert_eq!(urlencode("é/?&"), "%C3%A9%2F%3F%26");
    assert_eq!(urlencode(""), "");
}

#[test]
fn endpoint_urls() {
    assert_eq!(trim_trailing_slashes("http://g.test//"), "http://g.test");
    assert_eq!(verify_url("http://g.test/"), "http://g.test/v1/verify");
    assert_eq!(receipts_url("http://g.test", &ReceiptFilter::new()), "http://g.test/v1/receipts");
    assert_eq!(
        receipts_url("http://g.test/", &ReceiptFilter::new().with_limit(50).after("a b")),
        "http://g.test/v1/receipts?limit=50&after_id=a%20b"
    );
    assert_eq!(
        receipts_url("http://g.test", &ReceiptFilter::default().after("x")),
        "http://g.test/v1/receipts?after_id=x"
    );
    assert_eq!(
        receipts_url("http://g.test", &ReceiptFilter::new().with_limit(7).clone()),
        "http://g.test/v1/receipts?limit=7"
    );
}

#[test]
fn receipt_url_encodes_the_identifier_in_base64url() {
    let zero = receipt_url("http://g.test/", &ObjectId::zero());
    assert_eq!(zero, format!("http://g.test/v1/receipts/{}", "A".repeat(43)));
    let mut bytes = [0u8; 32];
    bytes[0] = 0xFB;
    bytes[1] = 0xFF;
    let url = receipt_url("http://g.test", &ObjectId(bytes));
    assert!(url.starts_with("http://g.test/v1/receipts/-_8"));
    assert_eq!(url.len(), "http://g.test/v1/receipts/".len() + 43);
}

#[test]
fn rejection_error_reports_the_envelope() {
    let e = rejection_error(
        403,
        Some(RejectionEnvelope {
            reason: Some("constraint_violated".into()),
            detail: Some("too much".into()),
            error: Some("ignored".into()),
        }),
        "{}".into(),
    );
    assert_eq!(e.to_message(), "rejected (403): constraint_violated: too much");
    let e = rejection_error(
        400,
        Some(RejectionEnvelope { reason: None, detail: None, error: Some("bad".into()) }),
        "{}".into(),
    );
    assert!(matches!(e, SdkError::Rejected { status: 400, ref reason, ref detail } if reason == "bad" && detail.is_empty()));
    let e = rejection_error(
        401,
        Some(RejectionEnvelope { reason: None, detail: Some("d".into()), error: None }),
        "{}".into(),
    );
    assert!(matches!(e, SdkError::Rejected { ref reason, .. } if reason == "rejected"));
    let e = rejection_error(502, None, "Bad Gateway".into());
    assert!(matches!(e, SdkError::Rejected { status: 502, ref reason, ref detail } if reason == "unknown" && detail == "Bad Gateway"));
}
