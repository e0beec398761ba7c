//! The gateway's HTTP API, as far as it is computation: endpoint URLs,
//! query strings, percent-encoding, and the error a rejected request is
//! answered with.
//!
//! The gateway serves `POST /v1/verify`, `GET /v1/receipts` and
//! `GET /v1/receipts/{id}`; every request carries the tenant API key as a
//! bearer token.

use vstd::prelude::*;
use vstd::utf8::{
    decode_utf8, encode_utf8, encode_utf8_decode_utf8, encode_utf8_valid_utf8, is_char_boundary,
    is_char_boundary_iff_not_is_continuation_byte, is_char_boundary_start_end_of_seq,
    is_continuation_byte, valid_utf8,
};

use crate::descriptor::{ActionDescriptor, DescriptorError};
use crate::error::SdkError;
use crate::protocol::ObjectId;
use crate::text::{
    all_ascii, ascii_chars, decimal, decimal_reads_back, numeral_value, push_decimal,
    string_from_ascii,
};

verus! {

/// Filter for listing receipts: at most `limit` receipts, those after the
/// receipt `after_id`.
#[derive(Debug)]
pub struct ReceiptFilter {
    pub limit: Option<u32>,
    pub after_id: Option<String>,
}

impl Default for ReceiptFilter {
    fn default() -> (f: Self)
        ensures
            f.limit is None,
            f.after_id is None,
    {
        ReceiptFilter::new()
    }
}

impl Clone for ReceiptFilter {
    fn clone(&self) -> (r: Self)
        ensures
            r.limit == self.limit,
            r.after_id == self.after_id,
    {
        ReceiptFilter { limit: self.limit, after_id: self.after_id.clone() }
    }
}

impl ReceiptFilter {
    /// No limit, from the most recent receipt.
    pub fn new() -> (f: Self)
        ensures
            f.limit is None,
            f.after_id is None,
    {
        ReceiptFilter { limit: None, after_id: None }
    }

    /// Sets the limit.
    pub fn with_limit(self, limit: u32) -> (f: Self)
        ensures
            f.limit == Some(limit),
            f.after_id == self.after_id,
    {
        ReceiptFilter { limit: Some(limit), ..self }
    }

    /// Lists only receipts after the receipt `id`.
    pub fn after(self, id: &str) -> (f: Self)
        ensures
            f.limit == self.limit,
            f.after_id matches Some(a) && a@ == id@,
    {
        ReceiptFilter { after_id: Some(id.to_owned()), ..self }
    }
}

/// Bytes that stand for themselves in a URL query: ASCII letters and
/// digits, `-`, `_`, `.` and `~`.
pub open spec fn is_unreserved(b: u8) -> bool {
    (97 <= b <= 122) || (65 <= b <= 90) || (48 <= b <= 57) || b == 45 || b == 95 || b == 46 || b
        == 126
}

/// The upper-case hexadecimal digit of `d < 16`.
pub open spec fn hex_digit(d: u8) -> u8 {
    if d < 10 {
        (48 + d) as u8
    } else {
        (55 + d) as u8
    }
}

/// The encoding of one byte: itself when unreserved, `%XY` otherwise.
pub open spec fn percent_encode_byte(b: u8) -> Seq<u8> {
    if is_unreserved(b) {
        seq![b]
    } else {
        seq![37u8, hex_digit(b / 16), hex_digit(b % 16)]
    }
}

/// The percent-encoding of a byte string, byte by byte.
pub open spec fn percent_encoded(s: Seq<u8>) -> Seq<u8>
    decreases s.len(),
{
    if s.len() == 0 {
        seq![]
    } else {
        percent_encoded(s.drop_last()) + percent_encode_byte(s.last())
    }
}

proof fn lemma_percent_encoded_ascii(s: Seq<u8>)
    ensures
        all_ascii(percent_encoded(s)),
    decreases s.len(),
{
    if s.len() > 0 {
        lemma_percent_encoded_ascii(s.drop_last());
        let a = percent_encoded(s.drop_last());
        let e = percent_encode_byte(s.last());
        assert(all_ascii(e));
        assert forall|i: int| 0 <= i < (a + e).len() implies #[trigger] (a + e)[i] < 128 by {
            if i < a.len() {
                assert((a + e)[i] == a[i]);
            } else {
                assert((a + e)[i] == e[i - a.len()]);
            }
        }
    }
}

fn hex_digit_exec(d: u8) -> (h: u8)
    requires
        d < 16,
    ensures
        h == hex_digit(d),
{
    if d < 10 {
        48 + d
    } else {
        55 + d
    }
}

/// Percent-encodes the UTF-8 bytes of `s` for a URL query: unreserved
/// bytes stay, every other byte becomes `%` and two upper-case hex digits.
pub fn urlencode(s: &str) -> (r: String)
    ensures
        r@ == ascii_chars(percent_encoded(encode_utf8(s@))),
{
    let bytes = s.as_bytes();
    let mut out: Vec<u8> = Vec::new();
    let mut k: usize = 0;
    while k < bytes.len()
        invariant
            k <= bytes@.len(),
            bytes@ == encode_utf8(s@),
            out@ == percent_encoded(bytes@.take(k as int)),
        decreases bytes@.len() - k,
    {
        let b = bytes[k];
        let is_plain = (97 <= b && b <= 122) || (65 <= b && b <= 90) || (48 <= b && b <= 57) || b
            == 45 || b == 95 || b == 46 || b == 126;
        if is_plain {
            out.push(b);
        } else {
            out.push(37u8);
            out.push(hex_digit_exec(b / 16));
            out.push(hex_digit_exec(b % 16));
        }
        proof {
            assert(bytes@.take(k + 1).drop_last() =~= bytes@.take(k as int));
            assert(out@ =~= percent_encoded(bytes@.take(k + 1)));
        }
        k = k + 1;
    }
    proof {
        assert(bytes@.take(k as int) =~= bytes@);
        lemma_percent_encoded_ascii(bytes@);
    }
    string_from_ascii(out)
}

/// A byte string without its trailing `/` bytes.
pub open spec fn without_trailing_slashes(b: Seq<u8>) -> Seq<u8>
    decreases b.len(),
{
    if b.len() > 0 && b.last() == 47u8 {
        without_trailing_slashes(b.drop_last())
    } else {
        b
    }
}

/// A base URL without its trailing `/` characters.
pub open spec fn trimmed_base(base: Seq<char>) -> Seq<char> {
    decode_utf8(without_trailing_slashes(encode_utf8(base)))
}

/// `base` without its trailing `/` characters.
pub fn trim_trailing_slashes(base: &str) -> (r: &str)
    ensures
        r@ == trimmed_base(base@),
{
    let bytes = base.as_bytes();
    let ghost all = bytes@;
    let mut k: usize = bytes.len();
    proof {
        assert(all.take(k as int) =~= all);
    }
    while k > 0 && bytes[k - 1] == 47u8
        invariant
            k <= all.len(),
            bytes@ == all,
            without_trailing_slashes(all.take(k as int)) == without_trailing_slashes(all),
            forall|i: int| k <= i < all.len() ==> #[trigger] all[i] == 47u8,
        decreases k,
    {
        proof {
            assert(all.take(k as int).drop_last() =~= all.take(k - 1));
        }
        k = k - 1;
    }
    proof {
        assert(without_trailing_slashes(all.take(k as int)) == all.take(k as int));
        assert(all == encode_utf8(base@));
        encode_utf8_valid_utf8(base@);
        if k < all.len() {
            assert(!is_continuation_byte(all[k as int]));
            is_char_boundary_iff_not_is_continuation_byte(all, k as int);
        } else {
            is_char_boundary_start_end_of_seq(all);
        }
        assert(is_char_boundary(all, k as int));
    }
    let (head, _tail) = base.split_at(k);
    proof {
        assert(head@ == decode_utf8(encode_utf8(head@))) by {
            encode_utf8_decode_utf8(head@);
        }
        assert(all.subrange(0, k as int) =~= all.take(k as int));
    }
    head
}

/// `base` without its trailing `/` characters, followed by `path`.
fn endpoint(base: &str, path: &str) -> (url: String)
    ensures
        url@ == trimmed_base(base@) + path@,
{
    let mut url = String::from_str(trim_trailing_slashes(base));
    url.append(path);
    url
}

/// The verification endpoint of the gateway at `base_url`.
pub fn verify_url(base_url: &str) -> (url: String)
    ensures
        url@ == trimmed_base(base_url@) + "/v1/verify"@,
{
    endpoint(base_url, "/v1/verify")
}

/// The query string of a receipt listing: empty without parameters,
/// otherwise `?` and the `limit` then `after_id` parameters joined by `&`,
/// values percent-encoded.
pub open spec fn receipts_query(limit: Option<u32>, after_id: Option<Seq<char>>) -> Seq<char> {
    let limit_param = match limit {
        Some(n) => "limit="@ + decimal(n as nat),
        None => Seq::empty(),
    };
    let after_param = match after_id {
        Some(a) => "after_id="@ + ascii_chars(percent_encoded(encode_utf8(a))),
        None => Seq::empty(),
    };
    match (limit, after_id) {
        (None, None) => Seq::empty(),
        (Some(_), None) => "?"@ + limit_param,
        (None, Some(_)) => "?"@ + after_param,
        (Some(_), Some(_)) => "?"@ + limit_param + "&"@ + after_param,
    }
}

/// The model of an optional string.
pub open spec fn opt_chars(s: Option<String>) -> Option<Seq<char>> {
    match s {
        Some(x) => Some(x@),
        None => None,
    }
}

/// The receipt-listing endpoint of the gateway at `base_url`, with the
/// query of `filter`.
pub fn receipts_url(base_url: &str, filter: &ReceiptFilter) -> (url: String)
    ensures
        url@ == trimmed_base(base_url@) + "/v1/receipts"@ + receipts_query(
            filter.limit,
            opt_chars(filter.after_id),
        ),
{
    let mut url = endpoint(base_url, "/v1/receipts");
    let ghost start = url@;
    match filter.limit {
        Some(n) => {
            url.append("?limit=");
            push_decimal(&mut url, n as u64);
        },
        None => {},
    }
    match &filter.after_id {
        Some(a) => {
            if filter.limit.is_some() {
                url.append("&after_id=");
            } else {
                url.append("?after_id=");
            }
            let e = urlencode(a.as_str());
            url.append(e.as_str());
        },
        None => {},
    }
    proof {
        reveal_strlit("?limit=");
        reveal_strlit("limit=");
        reveal_strlit("?");
        reveal_strlit("&");
        reveal_strlit("&after_id=");
        reveal_strlit("?after_id=");
        reveal_strlit("after_id=");
        let q = receipts_query(filter.limit, opt_chars(filter.after_id));
        assert(url@ =~= start + q);
    }
    url
}

/// The character of the 6-bit value `v` in the URL-safe base64 alphabet
/// of RFC 4648: `A`-`Z`, `a`-`z`, `0`-`9`, `-`, `_`.
pub open spec fn base64url_digit(v: u8) -> char {
    if v < 26 {
        ((65 + v) as u8) as char
    } else if v < 52 {
        ((71 + v) as u8) as char
    } else if v < 62 {
        ((v - 4) as u8) as char
    } else if v == 62 {
        '-'
    } else {
        '_'
    }
}

/// The unpadded URL-safe base64 encoding of `b` (RFC 4648): every three
/// bytes become four characters of six bits each, a last one or two bytes
/// become two or three characters, and no `=` is added.
pub open spec fn base64url(b: Seq<u8>) -> Seq<char>
    decreases b.len(),
{
    if b.len() == 0 {
        Seq::empty()
    } else if b.len() == 1 {
        seq![base64url_digit(b[0] >> 2), base64url_digit((b[0] & 3) << 4)]
    } else if b.len() == 2 {
        seq![
            base64url_digit(b[0] >> 2),
            base64url_digit(((b[0] & 3) << 4) | (b[1] >> 4)),
            base64url_digit((b[1] & 15) << 2),
        ]
    } else {
        seq![
            base64url_digit(b[0] >> 2),
            base64url_digit(((b[0] & 3) << 4) | (b[1] >> 4)),
            base64url_digit(((b[1] & 15) << 2) | (b[2] >> 6)),
            base64url_digit(b[2] & 63),
        ] + base64url(b.subrange(3, b.len() as int))
    }
}

/// Calls `Engine::encode` of the `base64` crate's `URL_SAFE_NO_PAD`
/// engine.
///
/// Claims that the result is the unpadded URL-safe base64 encoding of
/// `input`, as RFC 4648 defines it and as that engine's alphabet and
/// padding setting give it.
#[verifier::external_body]
fn base64url_encode(input: &[u8]) -> (s: String)
    ensures
        s@ == base64url(input@),
{
    base64::Engine::encode(&base64::engine::general_purpose::URL_SAFE_NO_PAD, input)
}

/// The endpoint of the receipt `id` at the gateway at `base_url`: the
/// identifier's bytes in unpadded URL-safe base64.
pub fn receipt_url(base_url: &str, id: &ObjectId) -> (url: String)
    ensures
        url@ == trimmed_base(base_url@) + "/v1/receipts/"@ + base64url(id.0@),
{
    let mut url = endpoint(base_url, "/v1/receipts/");
    let id_b64 = base64url_encode(id.0.as_slice());
    url.append(id_b64.as_str());
    url
}

/// The body of a rejection: `{ reason, detail }`, or `{ error }` from some
/// gateways.
#[derive(Debug)]
pub struct RejectionEnvelope {
    pub reason: Option<String>,
    pub detail: Option<String>,
    pub error: Option<String>,
}

/// The reason a rejection reports: its `reason`, else its `error`, else
/// `"rejected"`; `"unknown"` when the body was no rejection envelope.
pub open spec fn rejection_reason(envelope: Option<RejectionEnvelope>) -> Seq<char> {
    match envelope {
        None => "unknown"@,
        Some(e) => match (e.reason, e.error) {
            (Some(r), _) => r@,
            (None, Some(x)) => x@,
            (None, None) => "rejected"@,
        },
    }
}

/// The detail a rejection reports: its `detail`, else nothing; the whole
/// body when the body was no rejection envelope.
pub open spec fn rejection_detail(envelope: Option<RejectionEnvelope>, body: Seq<char>) -> Seq<
    char,
> {
    match envelope {
        None => body,
        Some(e) => match e.detail {
            Some(d) => d@,
            None => Seq::empty(),
        },
    }
}

/// The error a request the gateway refused with `status` is answered
/// with, from the parsed rejection envelope (`None` when `body` did not
/// parse as one).
pub fn rejection_error(status: u16, envelope: Option<RejectionEnvelope>, body: String) -> (e:
    SdkError)
    ensures
        e matches SdkError::Rejected { status: s, reason, detail } && s == status && reason@
            == rejection_reason(envelope) && detail@ == rejection_detail(envelope, body@),
{
    match envelope {
        None => SdkError::Rejected { status, reason: String::from_str("unknown"), detail: body },
        Some(env) => {
            let reason = match env.reason {
                Some(r) => r,
                None => match env.error {
                    Some(x) => x,
                    None => String::from_str("rejected"),
                },
            };
            let detail = match env.detail {
                Some(d) => d,
                None => String::new(),
            };
            SdkError::Rejected { status, reason, detail }
        },
    }
}

/// The action value a descriptor contributes to a verification request:
/// its encoding, or its encoding error as an SDK error.
pub fn encode_action_value<D: ActionDescriptor>(descriptor: &D) -> (r: Result<Vec<u8>, SdkError>)
    ensures
        exists|v: Result<Vec<u8>, DescriptorError>|
            #[trigger] call_ensures(D::to_action_value, (descriptor,), v) && match v {
                Ok(bytes) => r matches Ok(b) && b@ == bytes@,
                Err(e) => r == Err::<Vec<u8>, SdkError>(SdkError::Descriptor(e)),
            },
{
    let v = descriptor.to_action_value();
    assert(call_ensures(D::to_action_value, (descriptor,), v));
    match v {
        Ok(v) => Ok(v),
        Err(e) => Err(SdkError::Descriptor(e)),
    }
}

/// The receipt listing asks for exactly what the filter holds: no query
/// without parameters; with a limit `n`, a `limit` parameter whose value is
/// the decimal numeral of `n` (which reads back as `n`, so no page size is
/// changed); with an `after_id`, an `after_id` parameter holding its
/// percent-encoded UTF-8 bytes, after the limit when there is one.
pub proof fn receipts_query_carries_the_filter(n: u32, after: Seq<char>)
    ensures
        receipts_query(None, None) == Seq::<char>::empty(),
        receipts_query(Some(n), None) == "?limit="@ + decimal(n as nat),
        receipts_query(None, Some(after)) == "?after_id="@ + ascii_chars(
            percent_encoded(encode_utf8(after)),
        ),
        receipts_query(Some(n), Some(after)) == "?limit="@ + decimal(n as nat) + "&after_id="@
            + ascii_chars(percent_encoded(encode_utf8(after))),
        numeral_value(decimal(n as nat)) == n,
{
    reveal_strlit("?limit=");
    reveal_strlit("limit=");
    reveal_strlit("?");
    reveal_strlit("&");
    reveal_strlit("&after_id=");
    reveal_strlit("?after_id=");
    reveal_strlit("after_id=");
    assert(receipts_query(Some(n), None) =~= "?limit="@ + decimal(n as nat));
    assert(receipts_query(None, Some(after)) =~= "?after_id="@ + ascii_chars(
        percent_encoded(encode_utf8(after)),
    ));
    assert(receipts_query(Some(n), Some(after)) =~= "?limit="@ + decimal(n as nat)
        + "&after_id="@ + ascii_chars(percent_encoded(encode_utf8(after))));
    decimal_reads_back(n as nat);
}

/// A rejection keeps what the gateway said: the envelope's `reason` when it
/// has one, whatever its `error` holds; else its `error`; else
/// `"rejected"`; and its `detail`, or nothing. A body that is no envelope
/// is reported as reason `"unknown"` with the whole body as detail.
pub proof fn rejection_keeps_the_gateway_answer(e: RejectionEnvelope, body: Seq<char>)
    ensures
        e.reason matches Some(r) ==> rejection_reason(Some(e)) == r@,
        e.error matches Some(x) ==> (e.reason is None ==> rejection_reason(Some(e)) == x@),
        e.reason is None && e.error is None ==> rejection_reason(Some(e)) == "rejected"@,
        e.detail matches Some(d) ==> rejection_detail(Some(e), body) == d@,
        e.detail is None ==> rejection_detail(Some(e), body) == Seq::<char>::empty(),
        rejection_reason(None) == "unknown"@,
        rejection_detail(None, body) == body,
{
}

} // verus!
