use std::time::Duration;

use maat_sdk::constraints::{Constraint, ConstraintSet, CustomConstraint};
use maat_sdk::descriptor::{
    ActionDescriptor, DescriptorError, EmptyDescriptor, JsonDescriptor, JsonValue,
};
use maat_sdk::error::SdkError;
use maat_sdk::protocol::ValueClaim;
use maat_sdk::scope::ScopeBuilder;
use maat_sdk::time::{Clock, FixedClock, SystemClock};

// ─── a JSON payload with a hand-written encoding ───────────────────────────

#[derive(Debug, Clone, PartialEq, Eq)]
struct CustomShape {
    recipient: String,
    priority: u32,
}

impl JsonValue for CustomShape {
    fn to_json(&self) -> Result<Vec<u8>, String> {
        let mut m = serde_json::Map::new();
        m.insert("recipient".to_string(), serde_json::Value::String(self.recipient.clone()));
        m.insert("priority".to_string(), serde_json::Value::from(self.priority));
        serde_json::to_vec(&serde_json::Value::Object(m)).map_err(|e| e.to_string())
    }

    fn from_json(bytes: &[u8]) -> Result<Self, String> {
        let v: serde_json::Value = serde_json::from_slice(bytes).map_err(|e| e.to_string())?;
        let recipient = v
            .get("recipient")
            .and_then(|x| x.as_str())
            .ok_or_else(|| "missing recipient".to_string())?
            .to_string();
        let priority = v
            .get("priority")
            .and_then(|x| x.as_u64())
            .ok_or_else(|| "missing priority".to_string())? as u32;
        Ok(CustomShape { recipient, priority })
    }
}

#[derive(Debug, Clone, PartialEq)]
struct TickerAllowList {
    tickers: Vec<String>,
}

impl CustomConstraint for TickerAllowList {
    const TYPE_URI: &'static str = "test.example/ticker_allow_list/v1";

    fn to_value(&self) -> Result<Vec<u8>, DescriptorError> {
        let list: Vec<serde_json::Value> =
            self.tickers.iter().map(|t| serde_json::Value::String(t.clone())).collect();
        let mut m = serde_json::Map::new();
        m.insert("tickers".to_string(), serde_json::Value::Array(list));
        serde_json::to_vec(&serde_json::Value::Object(m))
            .map_err(|e| DescriptorError::Encode(e.to_string()))
    }

    fn from_value(bytes: &[u8]) -> Result<Self, DescriptorError> {
        let v: serde_json::Value =
            serde_json::from_slice(bytes).map_err(|e| DescriptorError::Decode(e.to_string()))?;
        let arr = v
            .get("tickers")
            .and_then(|x| x.as_array())
            .ok_or_else(|| DescriptorError::Decode("missing tickers".to_string()))?;
        let mut tickers = Vec::new();
        for t in arr {
            match t.as_str() {
                Some(s) => tickers.push(s.to_string()),
                None => return Err(DescriptorError::Decode("ticker is not a string".to_string())),
            }
        }
        Ok(TickerAllowList { tickers })
    }
}

struct Unencodable;

impl CustomConstraint for Unencodable {
    const TYPE_URI: &'static str = "test.example/unencodable/v1";

    fn to_value(&self) -> Result<Vec<u8>, DescriptorError> {
        Err(DescriptorError::Encode("cannot encode".to_string()))
    }

    fn from_value(_bytes: &[u8]) -> Result<Self, DescriptorError> {
        Err(DescriptorError::Decode("cannot decode".to_string()))
    }
}

// ─── constraints ───────────────────────────────────────────────────────────

#[test]
fn empty_set_works() {
    let cs = ConstraintSet::new();
    assert!(cs.is_empty());
    assert_eq!(cs.into_vec(), Vec::new());
}

#[test]
fn fluent_composition() {
    let cs = ConstraintSet::new()
        .max_value("USD", 5000, 2)
        .max_rate(10, Duration::from_secs(60))
        .domain_allow(&["api.acme.com", "api.zapier.com"])
        .domain_deny(&["api.bad.com"])
        .require_anchor_freshness(Duration::from_secs(60))
        .require_human_confirm("amount > 1000");
    let v = cs.into_vec();
    assert_eq!(v.len(), 6);
}

#[test]
fn max_rate_converts_period_correctly() {
    let cs = ConstraintSet::new().max_rate(5, Duration::from_secs(120));
    match &cs.as_slice()[0] {
        Constraint::MaxRate { count, period_seconds } => {
            assert_eq!(*count, 5);
            assert_eq!(*period_seconds, 120);
        }
        other => panic!("unexpected variant: {:?}", other),
    }
}

#[test]
fn custom_constraint_round_trips() {
    let before = TickerAllowList { tickers: vec!["AAPL".into(), "GOOG".into()] };
    let bytes = before.to_value().unwrap();
    let recovered = TickerAllowList::from_value(&bytes).unwrap();
    assert_eq!(before, recovered);
}

#[test]
fn custom_constraint_into_protocol_form() {
    let custom = TickerAllowList { tickers: vec!["TSLA".into()] };
    let cs = ConstraintSet::new().custom(custom).unwrap();
    let v = cs.into_vec();
    assert_eq!(v.len(), 1);
    match &v[0] {
        Constraint::Custom { type_uri, value: _ } => {
            assert_eq!(type_uri, "test.example/ticker_allow_list/v1");
        }
        other => panic!("unexpected variant: {:?}", other),
    }
}

#[test]
fn add_raw_works_for_escape_hatch() {
    let cs = ConstraintSet::new().add_raw(Constraint::MaxValue {
        currency: "EUR".into(),
        amount: 100,
        decimals: 2,
    });
    assert_eq!(cs.len(), 1);
}

#[test]
fn constraints_keep_their_order_and_values() {
    let v = ConstraintSet::new()
        .max_value("USD", 5000, 2)
        .domain_allow(&["a.example", "b.example"])
        .require_anchor_freshness(Duration::from_millis(90_500))
        .into_vec();
    assert_eq!(
        v,
        vec![
            Constraint::MaxValue { currency: "USD".into(), amount: 5000, decimals: 2 },
            Constraint::DomainAllow { domains: vec!["a.example".into(), "b.example".into()] },
            Constraint::RequireAnchorFreshness { max_age_seconds: 90 },
        ]
    );
}

#[test]
fn custom_constraint_value_is_its_encoding() {
    let custom = TickerAllowList { tickers: vec!["TSLA".into()] };
    let expected = custom.to_value().unwrap();
    let c = custom.clone().into_constraint().unwrap();
    assert_eq!(
        c,
        Constraint::Custom { type_uri: "test.example/ticker_allow_list/v1".into(), value: expected }
    );
}

#[test]
fn custom_constraint_encoding_error_is_returned() {
    let r = ConstraintSet::new().max_rate(1, Duration::from_secs(1)).custom(Unencodable);
    assert!(matches!(r, Err(DescriptorError::Encode(ref m)) if m == "cannot encode"));
}

#[test]
fn constraint_set_clone_and_default() {
    let cs = ConstraintSet::new().require_human_confirm("always");
    let copy = cs.clone();
    assert_eq!(copy.as_slice(), cs.as_slice());
    assert!(ConstraintSet::default().is_empty());
}

// ─── descriptors ───────────────────────────────────────────────────────────

#[test]
fn value_claim_round_trips() {
    let claim = ValueClaim { currency: "USD".into(), amount: 12345, decimals: 2 };
    let bytes = claim.to_action_value().unwrap();
    let back = ValueClaim::from_action_value(&bytes).unwrap();
    assert_eq!(claim, back);
}

#[test]
fn json_descriptor_round_trips() {
    let before = CustomShape { recipient: "alice@example.com".into(), priority: 5 };
    let descriptor = JsonDescriptor::new(before.clone());
    let bytes = descriptor.to_action_value().unwrap();
    let recovered: JsonDescriptor<CustomShape> = JsonDescriptor::from_action_value(&bytes).unwrap();
    assert_eq!(recovered.into_inner(), before);
}

#[test]
fn empty_descriptor_only_accepts_empty_bytes() {
    let bytes = EmptyDescriptor.to_action_value().unwrap();
    assert!(bytes.is_empty());
    assert!(EmptyDescriptor::from_action_value(&[]).is_ok());
    assert!(EmptyDescriptor::from_action_value(b"non-empty").is_err());
}

#[test]
fn descriptor_encoding_is_deterministic() {
    let a = ValueClaim { currency: "USD".into(), amount: 100, decimals: 2 };
    let b = ValueClaim { currency: "USD".into(), amount: 100, decimals: 2 };
    assert_eq!(a.to_action_value().unwrap(), b.to_action_value().unwrap());
}

#[test]
fn json_descriptor_decode_failure_on_garbage() {
    let result: Result<JsonDescriptor<CustomShape>, _> =
        JsonDescriptor::from_action_value(b"not json");
    assert!(matches!(result, Err(DescriptorError::Decode(_))));
}

#[test]
fn json_descriptor_of_string_uses_serde_json() {
    let d = JsonDescriptor::new(String::from("a\"b"));
    assert_eq!(d.as_inner(), "a\"b");
    let bytes = d.to_action_value().unwrap();
    assert_eq!(bytes, b"\"a\\\"b\"".to_vec());
    let back: JsonDescriptor<String> = JsonDescriptor::from_action_value(&bytes).unwrap();
    assert_eq!(back.into_inner(), "a\"b");
    let list = JsonDescriptor::new(vec![String::from("x"), String::from("y")]);
    assert_eq!(list.to_action_value().unwrap(), b"[\"x\",\"y\"]".to_vec());
}

#[test]
fn value_claim_encodes_as_canonical_json() {
    let claim = ValueClaim { currency: "USD".into(), amount: 12345, decimals: 2 };
    assert_eq!(
        claim.to_action_value().unwrap(),
        b"{\"amount\":12345,\"currency\":\"USD\",\"decimals\":2}".to_vec()
    );
    let quoted = ValueClaim { currency: "a\"\\\n\u{1}é".into(), amount: 0, decimals: 0 };
    assert_eq!(
        quoted.to_action_value().unwrap(),
        "{\"amount\":0,\"currency\":\"a\\\"\\\\\\n\\u0001é\",\"decimals\":0}".as_bytes().to_vec()
    );
    let back = ValueClaim::from_action_value(&quoted.to_action_value().unwrap()).unwrap();
    assert_eq!(back, quoted);
}

#[test]
fn value_claim_encoding_matches_serde_json_string_escaping() {
    let currency = "tab\there \u{7f} \u{1f} ü";
    let claim = ValueClaim { currency: currency.into(), amount: 7, decimals: 1 };
    let bytes = claim.to_action_value().unwrap();
    let v: serde_json::Value = serde_json::from_slice(&bytes).unwrap();
    assert_eq!(v.get("currency").and_then(|x| x.as_str()), Some(currency));
    let expected_currency = serde_json::to_string(&serde_json::Value::String(currency.into())).unwrap();
    let expected = format!("{{\"amount\":7,\"currency\":{},\"decimals\":1}}", expected_currency);
    assert_eq!(bytes, expected.into_bytes());
}

#[test]
fn value_claim_decodes_any_member_order_and_whitespace() {
    let text = b" {\n \"decimals\" : 3 ,\"currency\":\"\\u0045\\u0055R\", \"amount\":\t42 } ";
    let claim = ValueClaim::from_action_value(text).unwrap();
    assert_eq!(claim, ValueClaim { currency: "EUR".into(), amount: 42, decimals: 3 });
    let pair = b"{\"amount\":1,\"currency\":\"\\ud83d\\ude00\",\"decimals\":0}";
    let claim = ValueClaim::from_action_value(pair).unwrap();
    assert_eq!(claim.currency, "\u{1F600}");
}

#[test]
fn value_claim_refuses_what_is_not_a_claim() {
    let cases: Vec<&[u8]> = vec![
        b"not a value claim",
        b"",
        b"{}",
        b"{\"amount\":1,\"currency\":\"USD\"}",
        b"{\"amount\":1,\"currency\":\"USD\",\"decimals\":2,\"extra\":0}",
        b"{\"amount\":1,\"amount\":2,\"currency\":\"USD\",\"decimals\":2}",
        b"{\"amount\":-1,\"currency\":\"USD\",\"decimals\":2}",
        b"{\"amount\":01,\"currency\":\"USD\",\"decimals\":2}",
        b"{\"amount\":1.5,\"currency\":\"USD\",\"decimals\":2}",
        b"{\"amount\":1,\"currency\":\"USD\",\"decimals\":256}",
        b"{\"amount\":18446744073709551616,\"currency\":\"USD\",\"decimals\":2}",
        b"{\"amount\":1,\"currency\":\"USD\",\"decimals\":2} x",
        b"{\"amount\":1,\"currency\":\"\\ud800\",\"decimals\":2}",
    ];
    for c in cases {
        let r = ValueClaim::from_action_value(c);
        assert!(
            matches!(r, Err(DescriptorError::Decode(ref m)) if m == "not a value claim"),
            "accepted {:?}",
            c
        );
    }
    let max = b"{\"amount\":18446744073709551615,\"currency\":\"\",\"decimals\":255}";
    let claim = ValueClaim::from_action_value(max).unwrap();
    assert_eq!(claim, ValueClaim { currency: String::new(), amount: u64::MAX, decimals: 255 });
}

#[test]
fn value_claim_with_invalid_utf8_currency_is_refused() {
    let bytes = b"{\"amount\":1,\"currency\":\"\xff\",\"decimals\":2}";
    match ValueClaim::from_action_value(bytes) {
        Err(DescriptorError::Decode(m)) => assert_eq!(m, "currency is not valid UTF-8"),
        other => panic!("unexpected: {:?}", other),
    }
}

#[test]
fn empty_descriptor_error_names_the_length() {
    match EmptyDescriptor::from_action_value(b"non-empty") {
        Err(e) => assert_eq!(
            e.to_message(),
            "descriptor decoding failed: EmptyDescriptor expects 0 bytes, got 9"
        ),
        Ok(_) => panic!("accepted non-empty bytes"),
    }
}

// ─── scope ─────────────────────────────────────────────────────────────────

#[test]
fn empty_builder_is_well_formed() {
    let s = ScopeBuilder::new().build();
    assert!(s.grant.is_empty());
    assert!(s.deny.is_empty());
}

#[test]
fn grants_accumulate_across_calls() {
    let s = ScopeBuilder::new().grant(&["a:b:c"]).grant(&["d:e:f", "g:h:i"]).build();
    assert_eq!(s.grant, vec!["a:b:c", "d:e:f", "g:h:i"]);
}

#[test]
fn grant_and_deny_independent() {
    let s = ScopeBuilder::new()
        .grant(&["commerce:purchase:execute"])
        .deny(&["commerce:purchase:execute:luxury"])
        .build();
    assert_eq!(s.grant.len(), 1);
    assert_eq!(s.deny.len(), 1);
}

#[test]
fn denies_accumulate_in_order() {
    let s = ScopeBuilder::default().deny(&["x"]).grant(&["g"]).deny(&["y", "z"]).build();
    assert_eq!(s.deny, vec!["x", "y", "z"]);
    assert_eq!(s.grant, vec!["g"]);
}

// ─── time ──────────────────────────────────────────────────────────────────

#[test]
fn system_clock_returns_recent_time() {
    let now = SystemClock.now();
    assert!(now > 1_577_836_800);
}

#[test]
fn fixed_clock_is_stable() {
    let c = FixedClock(1_700_000_000);
    assert_eq!(c.now(), 1_700_000_000);
    assert_eq!(c.now(), 1_700_000_000);
}

// ─── errors ────────────────────────────────────────────────────────────────

#[test]
fn sdk_error_messages() {
    let rejected = SdkError::Rejected {
        status: 403,
        reason: "constraint_violated".into(),
        detail: "amount too high".into(),
    };
    assert_eq!(rejected.to_message(), "rejected (403): constraint_violated: amount too high");
    assert_eq!(SdkError::Transport("x".into()).to_message(), "transport error: x");
    assert_eq!(SdkError::Crypto("x".into()).to_message(), "crypto error: x");
    assert_eq!(SdkError::Config("x".into()).to_message(), "configuration error: x");
    assert_eq!(SdkError::Storage("x".into()).to_message(), "storage error: x");
    assert_eq!(SdkError::Protocol("x".into()).to_message(), "protocol error: x");
    let d: SdkError = DescriptorError::Encode("boom".into()).into();
    assert!(matches!(d, SdkError::Descriptor(DescriptorError::Encode(_))));
    assert_eq!(d.to_message(), "descriptor encoding failed: boom");
}

#[test]
fn json_descriptor_of_string_lists_decodes_and_reports_errors() {
    let back: JsonDescriptor<Vec<String>> =
        JsonDescriptor::from_action_value(b"[\"x\", \"y\"]").unwrap();
    assert_eq!(back.into_inner(), vec!["x", "y"]);
    let bad: Result<JsonDescriptor<Vec<String>>, _> = JsonDescriptor::from_action_value(b"[1]");
    let expected = serde_json::from_slice::<Vec<String>>(b"[1]").unwrap_err().to_string();
    assert!(matches!(bad, Err(DescriptorError::Decode(ref m)) if *m == expected));
    let bad: Result<JsonDescriptor<String>, _> = JsonDescriptor::from_action_value(b"nope");
    let expected = serde_json::from_slice::<String>(b"nope").unwrap_err().to_string();
    assert!(matches!(bad, Err(DescriptorError::Decode(ref m)) if *m == expected));
}
