//! Action descriptors: the structured commitment an agent makes about an
//! action, carried as the bytes of the receipt's action value.
//!
//! Encoding and decoding must round-trip: for a valid descriptor `d`,
//! decoding the encoding of `d` gives `d` back.

use vstd::prelude::*;
use vstd::utf8::{encode_utf8, valid_utf8};

use crate::json::{
    encode_value_claim, json_string, json_string_list, parse_value_claim, parse_value_claim_exec,
    value_claim_decoding, value_claim_json,
};
use crate::protocol::{ValueClaim, ValueClaimModel};
use crate::text::{decimal, push_decimal, string_from_utf8};

verus! {

/// Errors raised by descriptor encoding or decoding.
#[derive(Debug)]
pub enum DescriptorError {
    Encode(String),
    Decode(String),
}

impl DescriptorError {
    /// The error's message.
    pub open spec fn message(&self) -> Seq<char> {
        match self {
            DescriptorError::Encode(m) => "descriptor encoding failed: "@ + m@,
            DescriptorError::Decode(m) => "descriptor decoding failed: "@ + m@,
        }
    }

    /// The error's message, as an owned string.
    pub fn to_message(&self) -> (s: String)
        ensures
            s@ == self.message(),
    {
        match self {
            DescriptorError::Encode(m) => {
                let mut s = String::from_str("descriptor encoding failed: ");
                s.append(m.as_str());
                s
            },
            DescriptorError::Decode(m) => {
                let mut s = String::from_str("descriptor decoding failed: ");
                s.append(m.as_str());
                s
            },
        }
    }
}

/// Any structured commitment that fits into a receipt's action value.
pub trait ActionDescriptor: Sized {
    /// Encodes this descriptor as the bytes of the action value.
    fn to_action_value(&self) -> Result<Vec<u8>, DescriptorError>;

    /// Decodes the bytes of an action value back into a descriptor.
    fn from_action_value(bytes: &[u8]) -> Result<Self, DescriptorError>;
}

/// What `serde_json::from_slice` gives for a string from the bytes `b`:
/// its characters, or the message of its error.
pub uninterp spec fn json_string_decoding(b: Seq<u8>) -> Result<Seq<char>, Seq<char>>;

/// What `serde_json::from_slice` gives for a list of strings from the
/// bytes `b`: their characters, or the message of its error.
pub uninterp spec fn json_strings_decoding(b: Seq<u8>) -> Result<Seq<Seq<char>>, Seq<char>>;

/// Calls `serde_json::to_vec` on a string.
///
/// Claims that it succeeds with the string's JSON literal: the UTF-8 bytes
/// in quotes, `"` and `\` escaped with a backslash, `\b \f \n \r \t` by
/// name, other control bytes as `\u00xx` with lower-case hex (the compact
/// formatter's `format_escaped_str`). A string serializes through
/// `serialize_str`, whose only failure is one of the writer, and writing
/// into a `Vec` does not fail.
#[verifier::external_body]
fn string_to_json(value: &String) -> (r: Result<Vec<u8>, String>)
    ensures
        r is Ok,
        r matches Ok(v) ==> v@ == json_string(encode_utf8(value@)),
{
    match serde_json::to_vec(value) {
        Ok(v) => Ok(v),
        Err(e) => Err(e.to_string()),
    }
}

/// Calls `serde_json::to_vec` on a list of strings.
///
/// Claims that it succeeds with the compact JSON array of the strings'
/// literals: `[`, the literals separated by `,`, `]`. A sequence of strings
/// serializes through `serialize_seq` and `serialize_str`, whose only
/// failures are those of the writer, and writing into a `Vec` does not
/// fail.
#[verifier::external_body]
fn strings_to_json(value: &[String]) -> (r: Result<Vec<u8>, String>)
    ensures
        r is Ok,
        r matches Ok(v) ==> v@ == json_string_list(value.deep_view()),
{
    match serde_json::to_vec(value) {
        Ok(v) => Ok(v),
        Err(e) => Err(e.to_string()),
    }
}

/// Calls `serde_json::from_slice` for a string on `bytes`; the error
/// becomes its message.
///
/// Claims that the outcome is the decoding of `bytes`, the same for the
/// same bytes.
#[verifier::external_body]
fn string_from_json(bytes: &[u8]) -> (r: Result<String, String>)
    ensures
        r is Ok <==> json_string_decoding(bytes@) is Ok,
        r matches Ok(x) ==> (json_string_decoding(bytes@) matches Ok(s) && s == x@),
        r matches Err(e) ==> (json_string_decoding(bytes@) matches Err(m) && m == e@),
{
    match serde_json::from_slice::<String>(bytes) {
        Ok(v) => Ok(v),
        Err(e) => Err(e.to_string()),
    }
}

/// Calls `serde_json::from_slice` for a list of strings on `bytes`; the
/// error becomes its message.
///
/// Claims that the outcome is the decoding of `bytes`, the same for the
/// same bytes.
#[verifier::external_body]
fn strings_from_json(bytes: &[u8]) -> (r: Result<Vec<String>, String>)
    ensures
        r is Ok <==> json_strings_decoding(bytes@) is Ok,
        r matches Ok(x) ==> (json_strings_decoding(bytes@) matches Ok(s) && s == x.deep_view()),
        r matches Err(e) ==> (json_strings_decoding(bytes@) matches Err(m) && m == e@),
{
    match serde_json::from_slice::<Vec<String>>(bytes) {
        Ok(v) => Ok(v),
        Err(e) => Err(e.to_string()),
    }
}

/// Wraps any serde-serializable type as an [`ActionDescriptor`], encoded as
/// plain (not canonicalized) JSON.
#[derive(Debug, Clone, PartialEq, Eq)]
pub struct JsonDescriptor<T>(T);

impl<T> JsonDescriptor<T> {
    /// The wrapped value.
    pub closed spec fn inner(&self) -> T {
        self.0
    }

    /// Wraps `value`.
    pub fn new(value: T) -> (d: Self)
        ensures
            d.inner() == value,
    {
        JsonDescriptor(value)
    }

    /// Unwraps the value.
    pub fn into_inner(self) -> (v: T)
        ensures
            v == self.inner(),
    {
        self.0
    }

    /// Borrows the value.
    pub fn as_inner(&self) -> (v: &T)
        ensures
            *v == self.inner(),
    {
        &self.0
    }
}

/// A value with a JSON encoding, the payload of a [`JsonDescriptor`].
///
/// Implement it for your own type with `serde_json`, the way this crate
/// does for `String` and `Vec<String>`.
pub trait JsonValue: Sized {
    /// The JSON encoding of the value, or the encoder's message.
    fn to_json(&self) -> Result<Vec<u8>, String>;

    /// The value the JSON in `bytes` denotes, or the decoder's message.
    fn from_json(bytes: &[u8]) -> Result<Self, String>;
}

impl JsonValue for String {
    /// Always succeeds, with `serde_json`'s encoding of the string.
    fn to_json(&self) -> (r: Result<Vec<u8>, String>)
        ensures
            r matches Ok(v) && v@ == json_string(encode_utf8(self@)),
    {
        string_to_json(self)
    }

    /// `serde_json`'s decoding of `bytes` as a string.
    fn from_json(bytes: &[u8]) -> (r: Result<Self, String>)
        ensures
            match json_string_decoding(bytes@) {
                Ok(s) => r matches Ok(x) && x@ == s,
                Err(m) => r matches Err(e) && e@ == m,
            },
    {
        string_from_json(bytes)
    }
}

impl JsonValue for Vec<String> {
    /// Always succeeds, with `serde_json`'s encoding of the list.
    fn to_json(&self) -> (r: Result<Vec<u8>, String>)
        ensures
            r matches Ok(v) && v@ == json_string_list(self.deep_view()),
    {
        strings_to_json(self.as_slice())
    }

    /// `serde_json`'s decoding of `bytes` as a list of strings.
    fn from_json(bytes: &[u8]) -> (r: Result<Self, String>)
        ensures
            match json_strings_decoding(bytes@) {
                Ok(s) => r matches Ok(x) && x.deep_view() == s,
                Err(m) => r matches Err(e) && e@ == m,
            },
    {
        strings_from_json(bytes)
    }
}

/// What encoding a descriptor gives for the outcome `j` of encoding its
/// JSON value: the bytes, or an `Encode` error with the encoder's message.
pub open spec fn encode_outcome(j: Result<Vec<u8>, String>) -> Result<Vec<u8>, DescriptorError> {
    match j {
        Ok(v) => Ok(v),
        Err(m) => Err(DescriptorError::Encode(m)),
    }
}

/// Whether `r` is what encoding the descriptor `d` gives: the outcome of
/// its value's `to_json`, mapped by [`encode_outcome`].
pub open spec fn encodes_as<T: JsonValue>(
    d: JsonDescriptor<T>,
    r: Result<Vec<u8>, DescriptorError>,
) -> bool {
    exists|j: Result<Vec<u8>, String>|
        #[trigger] call_ensures(T::to_json, (&d.inner(),), j) && r == encode_outcome(j)
}

/// Whether `r` is what decoding `bytes` as a descriptor gives: the value
/// `T::from_json` gives, wrapped, or a `Decode` error with its message.
pub open spec fn decodes_as<T: JsonValue>(
    bytes: &[u8],
    r: Result<JsonDescriptor<T>, DescriptorError>,
) -> bool {
    exists|j: Result<T, String>|
        #[trigger] call_ensures(T::from_json, (bytes,), j) && match j {
            Ok(v) => r matches Ok(d) && d.inner() == v,
            Err(m) => r == Err::<JsonDescriptor<T>, DescriptorError>(DescriptorError::Decode(m)),
        }
}

/// Whether the value `t` round-trips through its JSON: whenever its
/// `to_json` gives bytes, `from_json` on those bytes gives `t` back.
pub open spec fn payload_round_trips<T: JsonValue>(t: T) -> bool {
    forall|j: Result<Vec<u8>, String>, s: &[u8], k: Result<T, String>|
        #![trigger call_ensures(T::to_json, (&t,), j), call_ensures(T::from_json, (s,), k)]
        call_ensures(T::to_json, (&t,), j) && j is Ok && s@ == j->Ok_0@ && call_ensures(
            T::from_json,
            (s,),
            k,
        ) ==> k == Ok::<T, String>(t)
}

/// Round trip of the JSON adapter: the adapter adds nothing to its
/// payload's JSON, so when the payload round-trips, decoding the bytes a
/// descriptor encodes to gives the descriptor's value back.
pub proof fn json_descriptor_round_trip<T: JsonValue>(
    d: JsonDescriptor<T>,
    encoded: Result<Vec<u8>, DescriptorError>,
    bytes: &[u8],
    decoded: Result<JsonDescriptor<T>, DescriptorError>,
)
    requires
        payload_round_trips(d.inner()),
        encodes_as(d, encoded),
        encoded matches Ok(v) && v@ == bytes@,
        decodes_as(bytes, decoded),
    ensures
        decoded matches Ok(d2) && d2.inner() == d.inner(),
{
    let j = choose|j: Result<Vec<u8>, String>|
        #[trigger] call_ensures(T::to_json, (&d.inner(),), j) && encoded == encode_outcome(j);
    let k = choose|k: Result<T, String>|
        #[trigger] call_ensures(T::from_json, (bytes,), k) && match k {
            Ok(v) => decoded matches Ok(d2) && d2.inner() == v,
            Err(m) => decoded == Err::<JsonDescriptor<T>, DescriptorError>(
                DescriptorError::Decode(m),
            ),
        };
    assert(j is Ok);
    assert(k == Ok::<T, String>(d.inner()));
}

impl<T: JsonValue> ActionDescriptor for JsonDescriptor<T> {
    /// What the wrapped value's `to_json` gives: its bytes, or an `Encode`
    /// error carrying the encoder's message.
    fn to_action_value(&self) -> (r: Result<Vec<u8>, DescriptorError>)
        ensures
            encodes_as(*self, r),
    {
        let j = self.0.to_json();
        assert(call_ensures(T::to_json, (&self.inner(),), j));
        match j {
            Ok(v) => Ok(v),
            Err(m) => Err(DescriptorError::Encode(m)),
        }
    }

    /// What `T::from_json` gives for `bytes`: the value, wrapped, or a
    /// `Decode` error carrying the decoder's message.
    fn from_action_value(bytes: &[u8]) -> (r: Result<Self, DescriptorError>)
        ensures
            decodes_as(bytes, r),
    {
        let j = T::from_json(bytes);
        assert(call_ensures(T::from_json, (bytes,), j));
        match j {
            Ok(v) => Ok(JsonDescriptor(v)),
            Err(m) => Err(DescriptorError::Decode(m)),
        }
    }
}

/// A descriptor that carries no information, for actions whose scope alone
/// is the commitment. It encodes as no bytes and decodes only from no
/// bytes.
#[derive(Debug, Clone, Copy, PartialEq, Eq, Structural)]
pub struct EmptyDescriptor;

impl ActionDescriptor for EmptyDescriptor {
    fn to_action_value(&self) -> (r: Result<Vec<u8>, DescriptorError>)
        ensures
            r matches Ok(v) && v@.len() == 0,
    {
        Ok(Vec::new())
    }

    fn from_action_value(bytes: &[u8]) -> (r: Result<Self, DescriptorError>)
        ensures
            bytes@.len() == 0 ==> r matches Ok(EmptyDescriptor),
            bytes@.len() != 0 ==> (r matches Err(DescriptorError::Decode(m)) && m@
                == "EmptyDescriptor expects 0 bytes, got "@ + decimal(bytes@.len())),
    {
        if bytes.len() == 0 {
            Ok(EmptyDescriptor)
        } else {
            let mut m = String::from_str("EmptyDescriptor expects 0 bytes, got ");
            push_decimal(&mut m, bytes.len() as u64);
            Err(DescriptorError::Decode(m))
        }
    }
}

/// The canonical encoding of a value claim: its JSON object with sorted
/// keys and no whitespace.
pub open spec fn value_claim_bytes(c: ValueClaimModel) -> Seq<u8> {
    value_claim_json(c.currency, c.amount, c.decimals)
}

/// The value claim the bytes `b` decode to, if any.
pub open spec fn value_claim_of(b: Seq<u8>) -> Option<ValueClaimModel> {
    match value_claim_decoding(b) {
        Some((c, a, d)) => Some(ValueClaimModel { currency: c, amount: a, decimals: d }),
        None => None,
    }
}

/// Value claims are the protocol's monetary descriptor, encoded as
/// canonical JSON.
impl ActionDescriptor for ValueClaim {
    /// Always succeeds with the claim's canonical JSON.
    fn to_action_value(&self) -> (r: Result<Vec<u8>, DescriptorError>)
        ensures
            r matches Ok(v) && v@ == value_claim_bytes(self@),
    {
        Ok(encode_value_claim(self.currency.as_str(), self.amount, self.decimals))
    }

    /// The claim the JSON in `bytes` holds; anything else is a `Decode`
    /// error: "not a value claim" when the bytes hold no claim, "currency
    /// is not valid UTF-8" when its currency is not UTF-8.
    fn from_action_value(bytes: &[u8]) -> (r: Result<Self, DescriptorError>)
        ensures
            match value_claim_of(bytes@) {
                Some(c) => r matches Ok(v) && v@ == c,
                None => r matches Err(DescriptorError::Decode(_)),
            },
            parse_value_claim(bytes@) is None ==> (r matches Err(DescriptorError::Decode(m)) && m@
                == "not a value claim"@),
            parse_value_claim(bytes@) matches Some((c, _, _)) && !valid_utf8(c) ==> (r matches Err(
                DescriptorError::Decode(m),
            ) && m@ == "currency is not valid UTF-8"@),
    {
        match parse_value_claim_exec(bytes) {
            Some((cur, amount, decimals)) => match string_from_utf8(cur) {
                Some(currency) => Ok(ValueClaim { currency, amount, decimals }),
                None => Err(DescriptorError::Decode(String::from_str("currency is not valid UTF-8"))),
            },
            None => Err(DescriptorError::Decode(String::from_str("not a value claim"))),
        }
    }
}

/// Round trip: decoding the encoding of a value claim gives the claim back.
pub proof fn value_claim_round_trip(c: ValueClaimModel)
    ensures
        value_claim_of(value_claim_bytes(c)) == Some(c),
{
    crate::json::lemma_value_claim_round_trip(c.currency, c.amount, c.decimals);
}

/// Determinism: two value claims with the same content encode to the same
/// bytes, and claims with different content to different bytes.
pub proof fn value_claim_encoding_is_canonical(a: ValueClaimModel, b: ValueClaimModel)
    ensures
        (value_claim_bytes(a) == value_claim_bytes(b)) <==> (a == b),
{
    value_claim_round_trip(a);
    value_claim_round_trip(b);
}

} // verus!
