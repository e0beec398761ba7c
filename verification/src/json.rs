//! The canonical JSON form of a value claim.
//!
//! A value claim encodes as one JSON object with its keys sorted and no
//! whitespace: `{"amount":A,"currency":"C","decimals":D}`. Strings are
//! escaped the way `serde_json` escapes them: `"` and `\` with a backslash,
//! `\b \f \n \r \t` by name, other control bytes as `\u00xx`, everything
//! else as its UTF-8 bytes.
//!
//! Decoding accepts any JSON text of such an object: whitespace between
//! tokens, the three members in any order, any JSON escape in strings
//! (`\uXXXX` with surrogate pairs included). A member missing or given
//! twice, an unknown member, a number that is negative, fractional, has a
//! leading zero or does not fit, and a currency that is not valid UTF-8 are
//! refused.

use vstd::prelude::*;
use vstd::utf8::{decode_utf8, encode_scalar, encode_utf8, valid_utf8};

use crate::validator::pubkey_constant_time_eq;

verus! {

// ---------------------------------------------------------------------------
// Encoding.
// ---------------------------------------------------------------------------

/// The lower-case hexadecimal digit of `d < 16`.
pub open spec fn lower_hex(d: u8) -> u8 {
    if d < 10 {
        (48 + d) as u8
    } else {
        (87 + d) as u8
    }
}

/// How one byte of a string's UTF-8 encoding is written inside quotes.
pub open spec fn escape_byte(b: u8) -> Seq<u8> {
    if b == 0x22 {
        seq![0x5Cu8, 0x22]
    } else if b == 0x5C {
        seq![0x5Cu8, 0x5C]
    } else if b == 0x08 {
        seq![0x5Cu8, 0x62]
    } else if b == 0x0C {
        seq![0x5Cu8, 0x66]
    } else if b == 0x0A {
        seq![0x5Cu8, 0x6E]
    } else if b == 0x0D {
        seq![0x5Cu8, 0x72]
    } else if b == 0x09 {
        seq![0x5Cu8, 0x74]
    } else if b < 0x20 {
        seq![0x5Cu8, 0x75, 0x30, 0x30, lower_hex(b / 16), lower_hex(b % 16)]
    } else {
        seq![b]
    }
}

/// The escaped form of a byte string, byte by byte.
pub open spec fn escaped(b: Seq<u8>) -> Seq<u8>
    decreases b.len(),
{
    if b.len() == 0 {
        seq![]
    } else {
        escape_byte(b[0]) + escaped(b.drop_first())
    }
}

/// A JSON string literal holding the bytes `b`.
pub open spec fn json_string(b: Seq<u8>) -> Seq<u8> {
    seq![0x22u8] + escaped(b) + seq![0x22u8]
}

/// The JSON string literals of the strings `v`, separated by commas.
pub open spec fn json_string_items(v: Seq<Seq<char>>) -> Seq<u8>
    decreases v.len(),
{
    if v.len() == 0 {
        Seq::empty()
    } else if v.len() == 1 {
        json_string(encode_utf8(v[0]))
    } else {
        json_string_items(v.drop_last()) + seq![0x2Cu8] + json_string(encode_utf8(v.last()))
    }
}

/// A compact JSON array of the strings `v`.
pub open spec fn json_string_list(v: Seq<Seq<char>>) -> Seq<u8> {
    seq![0x5Bu8] + json_string_items(v) + seq![0x5Du8]
}

/// The decimal numeral of `n`, as ASCII bytes.
pub open spec fn decimal_bytes(n: nat) -> Seq<u8>
    decreases n,
{
    if n < 10 {
        seq![(48 + n) as u8]
    } else {
        decimal_bytes(n / 10).push((48 + n % 10) as u8)
    }
}

/// The key `amount`.
pub open spec fn amount_key() -> Seq<u8> {
    seq![0x61u8, 0x6D, 0x6F, 0x75, 0x6E, 0x74]
}

/// The key `currency`.
pub open spec fn currency_key() -> Seq<u8> {
    seq![0x63u8, 0x75, 0x72, 0x72, 0x65, 0x6E, 0x63, 0x79]
}

/// The key `decimals`.
pub open spec fn decimals_key() -> Seq<u8> {
    seq![0x64u8, 0x65, 0x63, 0x69, 0x6D, 0x61, 0x6C, 0x73]
}

/// The canonical JSON of a value claim with currency `currency`, amount
/// `amount` and `decimals` decimals.
pub open spec fn value_claim_json(currency: Seq<char>, amount: u64, decimals: u8) -> Seq<u8> {
    seq![0x7Bu8] + json_string(amount_key()) + seq![0x3Au8] + decimal_bytes(amount as nat) + seq![
        0x2Cu8,
    ] + json_string(currency_key()) + seq![0x3Au8] + json_string(encode_utf8(currency)) + seq![
        0x2Cu8,
    ] + json_string(decimals_key()) + seq![0x3Au8] + decimal_bytes(decimals as nat) + seq![
        0x7Du8,
    ]
}

/// Appends the decimal numeral of `n` to `out`.
fn push_decimal_bytes(out: &mut Vec<u8>, n: u64)
    ensures
        final(out)@ == old(out)@ + decimal_bytes(n as nat),
    decreases n,
{
    if n < 10 {
        out.push(48 + n as u8);
    } else {
        push_decimal_bytes(out, n / 10);
        out.push(48 + (n % 10) as u8);
    }
}

fn lower_hex_exec(d: u8) -> (h: u8)
    requires
        d < 16,
    ensures
        h == lower_hex(d),
{
    if d < 10 {
        48 + d
    } else {
        87 + d
    }
}

/// Appends the escaped form of `b` to `out`.
fn push_escaped(out: &mut Vec<u8>, b: &[u8])
    ensures
        final(out)@ == old(out)@ + escaped(b@),
{
    let ghost start = out@;
    let mut k: usize = 0;
    proof {
        assert(b@.skip(0) =~= b@);
    }
    while k < b.len()
        invariant
            k <= b@.len(),
            out@ + escaped(b@.skip(k as int)) == start + escaped(b@),
        decreases b@.len() - k,
    {
        let c = b[k];
        let ghost before = out@;
        if c == 0x22 {
            out.push(0x5C);
            out.push(0x22);
        } else if c == 0x5C {
            out.push(0x5C);
            out.push(0x5C);
        } else if c == 0x08 {
            out.push(0x5C);
            out.push(0x62);
        } else if c == 0x0C {
            out.push(0x5C);
            out.push(0x66);
        } else if c == 0x0A {
            out.push(0x5C);
            out.push(0x6E);
        } else if c == 0x0D {
            out.push(0x5C);
            out.push(0x72);
        } else if c == 0x09 {
            out.push(0x5C);
            out.push(0x74);
        } else if c < 0x20 {
            out.push(0x5C);
            out.push(0x75);
            out.push(0x30);
            out.push(0x30);
            out.push(lower_hex_exec(c / 16));
            out.push(lower_hex_exec(c % 16));
        } else {
            out.push(c);
        }
        proof {
            assert(out@ =~= before + escape_byte(c));
            let rest = b@.skip(k as int);
            assert(rest.drop_first() =~= b@.skip(k + 1));
            assert(escaped(rest) == escape_byte(rest[0]) + escaped(rest.drop_first()));
            assert(out@ + escaped(b@.skip(k + 1)) =~= before + escaped(rest));
        }
        k = k + 1;
    }
    proof {
        assert(b@.skip(k as int) =~= Seq::<u8>::empty());
        assert(out@ + escaped(Seq::<u8>::empty()) =~= out@);
    }
}

/// Appends the JSON string literal holding `b` to `out`.
fn push_json_string(out: &mut Vec<u8>, b: &[u8])
    ensures
        final(out)@ == old(out)@ + json_string(b@),
{
    let ghost start = out@;
    out.push(0x22);
    push_escaped(out, b);
    out.push(0x22);
    proof {
        assert(out@ =~= start + json_string(b@));
    }
}

/// The canonical JSON of a value claim.
pub fn encode_value_claim(currency: &str, amount: u64, decimals: u8) -> (out: Vec<u8>)
    ensures
        out@ == value_claim_json(currency@, amount, decimals),
{
    let amount_k: [u8; 6] = [0x61, 0x6D, 0x6F, 0x75, 0x6E, 0x74];
    let currency_k: [u8; 8] = [0x63, 0x75, 0x72, 0x72, 0x65, 0x6E, 0x63, 0x79];
    let decimals_k: [u8; 8] = [0x64, 0x65, 0x63, 0x69, 0x6D, 0x61, 0x6C, 0x73];
    proof {
        assert(amount_k@ =~= amount_key());
        assert(currency_k@ =~= currency_key());
        assert(decimals_k@ =~= decimals_key());
    }
    let mut out: Vec<u8> = Vec::new();
    out.push(0x7B);
    push_json_string(&mut out, amount_k.as_slice());
    out.push(0x3A);
    push_decimal_bytes(&mut out, amount);
    out.push(0x2C);
    push_json_string(&mut out, currency_k.as_slice());
    out.push(0x3A);
    push_json_string(&mut out, currency.as_bytes());
    out.push(0x2C);
    push_json_string(&mut out, decimals_k.as_slice());
    out.push(0x3A);
    push_decimal_bytes(&mut out, decimals as u64);
    out.push(0x7D);
    proof {
        assert(out@ =~= value_claim_json(currency@, amount, decimals));
    }
    out
}

// ---------------------------------------------------------------------------
// Decoding: the grammar.
// ---------------------------------------------------------------------------

/// JSON whitespace: space, tab, line feed, carriage return.
pub open spec fn is_ws(c: u8) -> bool {
    c == 0x20 || c == 0x09 || c == 0x0A || c == 0x0D
}

/// The first position at or after `i` that holds no whitespace.
pub open spec fn skip_ws(s: Seq<u8>, i: int) -> int
    decreases s.len() - i,
{
    if 0 <= i < s.len() && is_ws(s[i]) {
        skip_ws(s, i + 1)
    } else {
        i
    }
}

/// ASCII decimal digits.
pub open spec fn is_digit(c: u8) -> bool {
    0x30 <= c <= 0x39
}

/// The end of the run of digits that starts at `i`.
pub open spec fn digits_end(s: Seq<u8>, i: int) -> int
    decreases s.len() - i,
{
    if 0 <= i < s.len() && is_digit(s[i]) {
        digits_end(s, i + 1)
    } else {
        i
    }
}

/// The value of a run of decimal digits.
pub open spec fn digits_value(d: Seq<u8>) -> nat
    decreases d.len(),
{
    if d.len() == 0 {
        0
    } else {
        digits_value(d.drop_last()) * 10 + (d.last() - 48) as nat
    }
}

/// The non-negative integer at `i` and the position after it: digits
/// without a leading zero, not followed by a fraction or an exponent.
pub open spec fn parse_uint(s: Seq<u8>, i: int) -> Option<(nat, int)> {
    let j = digits_end(s, i);
    if j == i {
        None
    } else if s[i] == 0x30 && j > i + 1 {
        None
    } else if j < s.len() && (s[j] == 0x2E || s[j] == 0x65 || s[j] == 0x45) {
        None
    } else {
        Some((digits_value(s.subrange(i, j)), j))
    }
}

/// The value of a hexadecimal digit.
pub open spec fn hex_value(c: u8) -> Option<nat> {
    if 0x30 <= c <= 0x39 {
        Some((c - 0x30) as nat)
    } else if 0x61 <= c <= 0x66 {
        Some((c - 0x61 + 10) as nat)
    } else if 0x41 <= c <= 0x46 {
        Some((c - 0x41 + 10) as nat)
    } else {
        None
    }
}

/// The value of the four hexadecimal digits at `i`.
pub open spec fn hex4(s: Seq<u8>, i: int) -> Option<nat> {
    if 0 <= i && i + 4 <= s.len() {
        match (hex_value(s[i]), hex_value(s[i + 1]), hex_value(s[i + 2]), hex_value(s[i + 3])) {
            (Some(a), Some(b), Some(c), Some(d)) => Some(a * 4096 + b * 256 + c * 16 + d),
            _ => None,
        }
    } else {
        None
    }
}

/// The byte a one-letter escape stands for.
pub open spec fn simple_escape(c: u8) -> Option<u8> {
    if c == 0x22 {
        Some(0x22u8)
    } else if c == 0x5C {
        Some(0x5Cu8)
    } else if c == 0x2F {
        Some(0x2Fu8)
    } else if c == 0x62 {
        Some(0x08u8)
    } else if c == 0x66 {
        Some(0x0Cu8)
    } else if c == 0x6E {
        Some(0x0Au8)
    } else if c == 0x72 {
        Some(0x0Du8)
    } else if c == 0x74 {
        Some(0x09u8)
    } else {
        None
    }
}

/// The code point of a surrogate pair.
pub open spec fn surrogate_pair(hi: nat, lo: nat) -> u32 {
    (0x10000 + (hi - 0xD800) * 1024 + (lo - 0xDC00)) as u32
}

/// Reads string contents from `k` on, after the bytes `acc` were read:
/// the bytes of the whole string and the position after its closing
/// quote.
pub open spec fn parse_string_body(s: Seq<u8>, k: int, acc: Seq<u8>) -> Option<(Seq<u8>, int)>
    decreases s.len() - k,
{
    if k < 0 || k >= s.len() {
        None
    } else if s[k] == 0x22 {
        Some((acc, k + 1))
    } else if s[k] == 0x5C {
        if k + 1 >= s.len() {
            None
        } else if simple_escape(s[k + 1]) is Some {
            parse_string_body(s, k + 2, acc.push(simple_escape(s[k + 1])->Some_0))
        } else if s[k + 1] == 0x75 {
            match hex4(s, k + 2) {
                None => None,
                Some(u) => if 0xD800 <= u <= 0xDBFF {
                    if k + 7 < s.len() && s[k + 6] == 0x5C && s[k + 7] == 0x75 {
                        match hex4(s, k + 8) {
                            Some(v) => if 0xDC00 <= v <= 0xDFFF {
                                parse_string_body(s, k + 12, acc + encode_scalar(surrogate_pair(u, v)))
                            } else {
                                None
                            },
                            None => None,
                        }
                    } else {
                        None
                    }
                } else if 0xDC00 <= u <= 0xDFFF {
                    None
                } else {
                    parse_string_body(s, k + 6, acc + encode_scalar(u as u32))
                },
            }
        } else {
            None
        }
    } else if s[k] < 0x20 {
        None
    } else {
        parse_string_body(s, k + 1, acc.push(s[k]))
    }
}

/// The string literal at `i`: its bytes and the position after it.
pub open spec fn parse_string(s: Seq<u8>, i: int) -> Option<(Seq<u8>, int)> {
    if 0 <= i < s.len() && s[i] == 0x22 {
        parse_string_body(s, i + 1, seq![])
    } else {
        None
    }
}

/// The members of a value claim read so far.
pub struct Fields {
    pub amount: Option<u64>,
    pub currency: Option<Seq<u8>>,
    pub decimals: Option<u8>,
}

/// No member read yet.
pub open spec fn no_fields() -> Fields {
    Fields { amount: None, currency: None, decimals: None }
}

/// Reads the value of the member `key` at `j`, after the members `f`:
/// the members with this one added and the position after the value. An
/// unknown or repeated key, or a value of the wrong kind, is refused.
pub open spec fn parse_member_value(s: Seq<u8>, j: int, key: Seq<u8>, f: Fields) -> Option<
    (Fields, int),
> {
    if key == amount_key() {
        if f.amount is Some {
            None
        } else {
            match parse_uint(s, j) {
                Some((n, e)) => if n <= u64::MAX {
                    Some((Fields { amount: Some(n as u64), ..f }, e))
                } else {
                    None
                },
                None => None,
            }
        }
    } else if key == currency_key() {
        if f.currency is Some {
            None
        } else {
            match parse_string(s, j) {
                Some((b, e)) => Some((Fields { currency: Some(b), ..f }, e)),
                None => None,
            }
        }
    } else if key == decimals_key() {
        if f.decimals is Some {
            None
        } else {
            match parse_uint(s, j) {
                Some((n, e)) => if n <= u8::MAX {
                    Some((Fields { decimals: Some(n as u8), ..f }, e))
                } else {
                    None
                },
                None => None,
            }
        }
    } else {
        None
    }
}

pub proof fn lemma_skip_ws(s: Seq<u8>, i: int)
    requires
        0 <= i,
    ensures
        i <= skip_ws(s, i),
        i <= s.len() ==> skip_ws(s, i) <= s.len(),
        skip_ws(s, i) < s.len() ==> !is_ws(s[skip_ws(s, i)]),
    decreases s.len() - i,
{
    if 0 <= i < s.len() && is_ws(s[i]) {
        lemma_skip_ws(s, i + 1);
    }
}

pub proof fn lemma_digits_end(s: Seq<u8>, i: int)
    requires
        0 <= i,
    ensures
        i <= digits_end(s, i),
        i <= s.len() ==> digits_end(s, i) <= s.len(),
        forall|k: int| i <= k < digits_end(s, i) ==> #[trigger] is_digit(s[k]),
        digits_end(s, i) < s.len() ==> !is_digit(s[digits_end(s, i)]),
    decreases s.len() - i,
{
    if 0 <= i < s.len() && is_digit(s[i]) {
        lemma_digits_end(s, i + 1);
    }
}

pub proof fn lemma_string_body_advances(s: Seq<u8>, k: int, acc: Seq<u8>)
    ensures
        parse_string_body(s, k, acc) matches Some((_, e)) ==> k < e <= s.len(),
    decreases s.len() - k,
{
    if k < 0 || k >= s.len() {
    } else if s[k] == 0x22 {
    } else if s[k] == 0x5C {
        if k + 1 >= s.len() {
        } else if simple_escape(s[k + 1]) is Some {
            lemma_string_body_advances(s, k + 2, acc.push(simple_escape(s[k + 1])->Some_0));
        } else if s[k + 1] == 0x75 {
            match hex4(s, k + 2) {
                None => {},
                Some(u) => if 0xD800 <= u <= 0xDBFF {
                    if k + 7 < s.len() && s[k + 6] == 0x5C && s[k + 7] == 0x75 {
                        match hex4(s, k + 8) {
                            Some(v) => if 0xDC00 <= v <= 0xDFFF {
                                lemma_string_body_advances(
                                    s,
                                    k + 12,
                                    acc + encode_scalar(surrogate_pair(u, v)),
                                );
                            },
                            None => {},
                        }
                    }
                } else if 0xDC00 <= u <= 0xDFFF {
                } else {
                    lemma_string_body_advances(s, k + 6, acc + encode_scalar(u as u32));
                },
            }
        }
    } else if s[k] < 0x20 {
    } else {
        lemma_string_body_advances(s, k + 1, acc.push(s[k]));
    }
}

pub proof fn lemma_member_value_advances(s: Seq<u8>, j: int, key: Seq<u8>, f: Fields)
    requires
        0 <= j,
    ensures
        parse_member_value(s, j, key, f) matches Some((_, e)) ==> j < e <= s.len(),
{
    lemma_digits_end(s, j);
    if j < s.len() {
        lemma_string_body_advances(s, j + 1, seq![]);
    }
}

/// Reads the members from `i` on, after the members `f`: all members and
/// the position after the closing brace.
pub open spec fn parse_members(s: Seq<u8>, i: int, f: Fields) -> Option<(Fields, int)>
    decreases s.len() - i,
{
    if i < 0 {
        None
    } else {
        match parse_string(s, i) {
            None => None,
            Some((key, k)) => {
                let c = skip_ws(s, k);
                if c < s.len() && s[c] == 0x3A {
                    let j = skip_ws(s, c + 1);
                    match parse_member_value(s, j, key, f) {
                        None => None,
                        Some((f2, e)) => {
                            let t = skip_ws(s, e);
                            if t < s.len() && s[t] == 0x2C {
                                proof {
                                    lemma_string_body_advances(s, i + 1, seq![]);
                                    lemma_skip_ws(s, k);
                                    lemma_skip_ws(s, c + 1);
                                    lemma_member_value_advances(s, j, key, f);
                                    lemma_skip_ws(s, e);
                                    lemma_skip_ws(s, t + 1);
                                }
                                parse_members(s, skip_ws(s, t + 1), f2)
                            } else if t < s.len() && s[t] == 0x7D {
                                Some((f2, t + 1))
                            } else {
                                None
                            }
                        },
                    }
                } else {
                    None
                }
            },
        }
    }
}

/// The members of the value claim that the JSON text `s` holds: the
/// currency's bytes, the amount and the decimals.
pub open spec fn parse_value_claim(s: Seq<u8>) -> Option<(Seq<u8>, u64, u8)> {
    let i = skip_ws(s, 0);
    if i < s.len() && s[i] == 0x7B {
        let j = skip_ws(s, i + 1);
        if j < s.len() && s[j] == 0x7D {
            None
        } else {
            match parse_members(s, j, no_fields()) {
                Some((f, e)) => if skip_ws(s, e) == s.len() {
                    match (f.currency, f.amount, f.decimals) {
                        (Some(c), Some(a), Some(d)) => Some((c, a, d)),
                        _ => None,
                    }
                } else {
                    None
                },
                None => None,
            }
        }
    } else {
        None
    }
}

// ---------------------------------------------------------------------------
// Decoding: the parser.
// ---------------------------------------------------------------------------

fn is_ws_exec(c: u8) -> (b: bool)
    ensures
        b == is_ws(c),
{
    c == 0x20 || c == 0x09 || c == 0x0A || c == 0x0D
}

fn skip_ws_exec(s: &[u8], i: usize) -> (j: usize)
    requires
        i <= s@.len(),
    ensures
        j == skip_ws(s@, i as int),
        i <= j <= s@.len(),
{
    let mut j = i;
    while j < s.len() && is_ws_exec(s[j])
        invariant
            i <= j <= s@.len(),
            skip_ws(s@, j as int) == skip_ws(s@, i as int),
        decreases s@.len() - j,
    {
        j = j + 1;
    }
    j
}

pub proof fn lemma_digits_value_push(d: Seq<u8>, x: u8)
    ensures
        digits_value(d.push(x)) == digits_value(d) * 10 + (x - 48) as nat,
{
    assert(d.push(x).drop_last() =~= d);
}

/// The non-negative integer at `i` and the position after it, when it
/// fits in a `u64`.
fn parse_uint_exec(s: &[u8], i: usize) -> (r: Option<(u64, usize)>)
    requires
        i <= s@.len(),
    ensures
        match parse_uint(s@, i as int) {
            Some((n, e)) => if n <= u64::MAX {
                r matches Some((v, e2)) && v == n && e2 == e
            } else {
                r is None
            },
            None => r is None,
        },
        r matches Some((_, e)) ==> i < e <= s@.len(),
{
    let mut k = i;
    let mut val: u64 = 0;
    let mut fits = true;
    while k < s.len() && 0x30 <= s[k] && s[k] <= 0x39
        invariant
            i <= k <= s@.len(),
            digits_end(s@, k as int) == digits_end(s@, i as int),
            fits ==> val == digits_value(s@.subrange(i as int, k as int)),
            !fits ==> digits_value(s@.subrange(i as int, k as int)) > u64::MAX,
        decreases s@.len() - k,
    {
        let x = s[k];
        proof {
            lemma_digits_value_push(s@.subrange(i as int, k as int), x);
            assert(s@.subrange(i as int, k + 1) =~= s@.subrange(i as int, k as int).push(x));
        }
        if fits {
            match val.checked_mul(10) {
                Some(t) => match t.checked_add((x - 48) as u64) {
                    Some(v) => {
                        val = v;
                    },
                    None => {
                        fits = false;
                    },
                },
                None => {
                    fits = false;
                },
            }
        }
        k = k + 1;
    }
    assert(digits_end(s@, k as int) == k);
    if k == i {
        return None;
    }
    if s[i] == 0x30 && k > i + 1 {
        return None;
    }
    if k < s.len() && (s[k] == 0x2E || s[k] == 0x65 || s[k] == 0x45) {
        return None;
    }
    if fits {
        Some((val, k))
    } else {
        None
    }
}

fn hex_value_exec(c: u8) -> (r: Option<u32>)
    ensures
        match hex_value(c) {
            Some(v) => r == Some(v as u32),
            None => r is None,
        },
{
    if 0x30 <= c && c <= 0x39 {
        Some((c - 0x30) as u32)
    } else if 0x61 <= c && c <= 0x66 {
        Some((c - 0x61 + 10) as u32)
    } else if 0x41 <= c && c <= 0x46 {
        Some((c - 0x41 + 10) as u32)
    } else {
        None
    }
}

fn hex4_exec(s: &[u8], i: usize) -> (r: Option<u32>)
    ensures
        match hex4(s@, i as int) {
            Some(v) => r == Some(v as u32) && v < 0x10000,
            None => r is None,
        },
{
    if i > s.len() || s.len() - i < 4 {
        return None;
    }
    let a = hex_value_exec(s[i]);
    let b = hex_value_exec(s[i + 1]);
    let c = hex_value_exec(s[i + 2]);
    let d = hex_value_exec(s[i + 3]);
    match (a, b, c, d) {
        (Some(a), Some(b), Some(c), Some(d)) => Some(a * 4096 + b * 256 + c * 16 + d),
        _ => None,
    }
}

fn simple_escape_exec(c: u8) -> (r: Option<u8>)
    ensures
        r == simple_escape(c),
{
    if c == 0x22 {
        Some(0x22)
    } else if c == 0x5C {
        Some(0x5C)
    } else if c == 0x2F {
        Some(0x2F)
    } else if c == 0x62 {
        Some(0x08)
    } else if c == 0x66 {
        Some(0x0C)
    } else if c == 0x6E {
        Some(0x0A)
    } else if c == 0x72 {
        Some(0x0D)
    } else if c == 0x74 {
        Some(0x09)
    } else {
        None
    }
}

/// Appends the UTF-8 encoding of the scalar `cp` to `out`.
fn push_scalar(out: &mut Vec<u8>, cp: u32)
    requires
        cp <= 0x10FFFF,
        !(0xD800 <= cp <= 0xDFFF),
    ensures
        final(out)@ == old(out)@ + encode_scalar(cp),
{
    let ghost start = out@;
    if cp <= 0x7F {
        out.push((cp & 0x7F) as u8);
    } else if cp <= 0x7FF {
        out.push(0xC0 | ((cp >> 6) & 0x1F) as u8);
        out.push(0x80 | (cp & 0x3F) as u8);
    } else if cp <= 0xFFFF {
        out.push(0xE0 | ((cp >> 12) & 0x0F) as u8);
        out.push(0x80 | ((cp >> 6) & 0x3F) as u8);
        out.push(0x80 | (cp & 0x3F) as u8);
    } else {
        out.push(0xF0 | ((cp >> 18) & 0x7) as u8);
        out.push(0x80 | ((cp >> 12) & 0x3F) as u8);
        out.push(0x80 | ((cp >> 6) & 0x3F) as u8);
        out.push(0x80 | (cp & 0x3F) as u8);
    }
    proof {
        assert(out@ =~= start + encode_scalar(cp));
    }
}

/// The string literal at `i`: its bytes and the position after it.
fn parse_string_exec(s: &[u8], i: usize) -> (r: Option<(Vec<u8>, usize)>)
    ensures
        match parse_string(s@, i as int) {
            Some((b, e)) => r matches Some((v, e2)) && v@ == b && e2 == e,
            None => r is None,
        },
{
    if !(i < s.len() && s[i] == 0x22) {
        return None;
    }
    let mut acc: Vec<u8> = Vec::new();
    let mut k: usize = i + 1;
    loop
        invariant
            i < k,
            parse_string(s@, i as int) == parse_string_body(s@, k as int, acc@),
        decreases s@.len() - k,
    {
        if k >= s.len() {
            return None;
        }
        let c = s[k];
        if c == 0x22 {
            return Some((acc, k + 1));
        } else if c == 0x5C {
            if k + 1 >= s.len() {
                return None;
            }
            let e = s[k + 1];
            match simple_escape_exec(e) {
                Some(b) => {
                    acc.push(b);
                    k = k + 2;
                },
                None => {
                    if e != 0x75 {
                        return None;
                    }
                    let u = match hex4_exec(s, k + 2) {
                        Some(u) => u,
                        None => {
                            return None;
                        },
                    };
                    if 0xD800 <= u && u <= 0xDBFF {
                        if !(s.len() - k > 7 && s[k + 6] == 0x5C && s[k + 7] == 0x75) {
                            return None;
                        }
                        let v = match hex4_exec(s, k + 8) {
                            Some(v) => v,
                            None => {
                                return None;
                            },
                        };
                        if !(0xDC00 <= v && v <= 0xDFFF) {
                            return None;
                        }
                        let cp: u32 = 0x10000 + (u - 0xD800) * 1024 + (v - 0xDC00);
                        proof {
                            assert(cp == surrogate_pair(u as nat, v as nat));
                        }
                        push_scalar(&mut acc, cp);
                        k = k + 12;
                    } else if 0xDC00 <= u && u <= 0xDFFF {
                        return None;
                    } else {
                        push_scalar(&mut acc, u);
                        k = k + 6;
                    }
                },
            }
        } else if c < 0x20 {
            return None;
        } else {
            acc.push(c);
            k = k + 1;
        }
    }
}

/// The members of a value claim read so far, as values.
pub struct FieldValues {
    pub amount: Option<u64>,
    pub currency: Option<Vec<u8>>,
    pub decimals: Option<u8>,
}

impl View for FieldValues {
    type V = Fields;

    open spec fn view(&self) -> Fields {
        Fields {
            amount: self.amount,
            currency: match self.currency {
                Some(c) => Some(c@),
                None => None,
            },
            decimals: self.decimals,
        }
    }
}

fn parse_member_value_exec(s: &[u8], j: usize, key: &[u8], f: FieldValues) -> (r: Option<
    (FieldValues, usize),
>)
    requires
        j <= s@.len(),
    ensures
        match parse_member_value(s@, j as int, key@, f@) {
            Some((f2, e)) => r matches Some((g, e2)) && g@ == f2 && e2 == e,
            None => r is None,
        },
{
    let amount_k: [u8; 6] = [0x61, 0x6D, 0x6F, 0x75, 0x6E, 0x74];
    let currency_k: [u8; 8] = [0x63, 0x75, 0x72, 0x72, 0x65, 0x6E, 0x63, 0x79];
    let decimals_k: [u8; 8] = [0x64, 0x65, 0x63, 0x69, 0x6D, 0x61, 0x6C, 0x73];
    proof {
        assert(amount_k@ =~= amount_key());
        assert(currency_k@ =~= currency_key());
        assert(decimals_k@ =~= decimals_key());
    }
    if pubkey_constant_time_eq(key, amount_k.as_slice()) {
        if f.amount.is_some() {
            return None;
        }
        match parse_uint_exec(s, j) {
            Some((n, e)) => Some((FieldValues { amount: Some(n), ..f }, e)),
            None => None,
        }
    } else if pubkey_constant_time_eq(key, currency_k.as_slice()) {
        if f.currency.is_some() {
            return None;
        }
        match parse_string_exec(s, j) {
            Some((b, e)) => Some((FieldValues { currency: Some(b), ..f }, e)),
            None => None,
        }
    } else if pubkey_constant_time_eq(key, decimals_k.as_slice()) {
        if f.decimals.is_some() {
            return None;
        }
        match parse_uint_exec(s, j) {
            Some((n, e)) => if n <= 255 {
                Some((FieldValues { decimals: Some(n as u8), ..f }, e))
            } else {
                None
            },
            None => None,
        }
    } else {
        None
    }
}

fn parse_members_exec(s: &[u8], start: usize, fields: FieldValues) -> (r: Option<(FieldValues, usize)>)
    requires
        start <= s@.len(),
    ensures
        match parse_members(s@, start as int, fields@) {
            Some((f2, e)) => r matches Some((g, e2)) && g@ == f2 && e2 == e,
            None => r is None,
        },
        r matches Some((_, e)) ==> e <= s@.len(),
{
    let ghost goal = parse_members(s@, start as int, fields@);
    let mut i = start;
    let mut f = fields;
    loop
        invariant
            i <= s@.len(),
            goal == parse_members(s@, start as int, fields@),
            goal == parse_members(s@, i as int, f@),
        decreases s@.len() - i,
    {
        let (key, k) = match parse_string_exec(s, i) {
            Some(p) => p,
            None => {
                return None;
            },
        };
        proof {
            lemma_string_body_advances(s@, i + 1, seq![]);
        }
        let c = skip_ws_exec(s, k);
        if !(c < s.len() && s[c] == 0x3A) {
            return None;
        }
        let j = skip_ws_exec(s, c + 1);
        let ghost fv = f@;
        let (f2, e) = match parse_member_value_exec(s, j, key.as_slice(), f) {
            Some(p) => p,
            None => {
                return None;
            },
        };
        proof {
            lemma_member_value_advances(s@, j as int, key@, fv);
        }
        let t = skip_ws_exec(s, e);
        if t < s.len() && s[t] == 0x2C {
            i = skip_ws_exec(s, t + 1);
            f = f2;
        } else if t < s.len() && s[t] == 0x7D {
            return Some((f2, t + 1));
        } else {
            return None;
        }
    }
}

/// The currency bytes, amount and decimals of the value claim that the
/// JSON text `s` holds, if it holds one.
pub fn parse_value_claim_exec(s: &[u8]) -> (r: Option<(Vec<u8>, u64, u8)>)
    ensures
        match parse_value_claim(s@) {
            Some((c, a, d)) => r matches Some((v, a2, d2)) && v@ == c && a2 == a && d2 == d,
            None => r is None,
        },
{
    let i = skip_ws_exec(s, 0);
    if !(i < s.len() && s[i] == 0x7B) {
        return None;
    }
    let j = skip_ws_exec(s, i + 1);
    if j < s.len() && s[j] == 0x7D {
        return None;
    }
    let f0 = FieldValues { amount: None, currency: None, decimals: None };
    proof {
        assert(f0@ == no_fields());
    }
    match parse_members_exec(s, j, f0) {
        Some((f, e)) => {
            if skip_ws_exec(s, e) != s.len() {
                return None;
            }
            match (f.currency, f.amount, f.decimals) {
                (Some(c), Some(a), Some(d)) => Some((c, a, d)),
                _ => None,
            }
        },
        None => None,
    }
}

// ---------------------------------------------------------------------------
// Round trip.
// ---------------------------------------------------------------------------

pub proof fn lemma_hex_round_trip(d: u8)
    requires
        d < 16,
    ensures
        hex_value(lower_hex(d)) == Some(d as nat),
{
}

pub proof fn lemma_small_scalar(x: u8)
    requires
        x < 0x80,
    ensures
        encode_scalar(x as u32) == seq![x],
{
    let c = x as u32;
    assert(((c & 0x7F) as u8) == x) by (bit_vector)
        requires
            c == x as u32,
            x < 0x80,
    ;
}

/// One escaped byte `x` at `k` reads back as `x`.
#[verifier::spinoff_prover]
pub proof fn lemma_escape_step(s: Seq<u8>, k: int, acc: Seq<u8>, x: u8)
    requires
        0 <= k,
        k + escape_byte(x).len() < s.len(),
        forall|t: int| 0 <= t < escape_byte(x).len() ==> s[k + t] == #[trigger] escape_byte(x)[t],
    ensures
        parse_string_body(s, k, acc) == parse_string_body(
            s,
            k + escape_byte(x).len(),
            acc.push(x),
        ),
{
    let e = escape_byte(x);
    assert(s[k] == e[0]);
    if x == 0x22 || x == 0x5C || x == 0x08 || x == 0x0C || x == 0x0A || x == 0x0D || x == 0x09 {
        assert(s[k + 1] == e[1]);
    } else if x < 0x20 {
        assert(s[k + 1] == e[1]);
        assert(s[k + 2] == e[2]);
        assert(s[k + 3] == e[3]);
        assert(s[k + 4] == e[4]);
        assert(s[k + 5] == e[5]);
        lemma_hex_round_trip(x / 16);
        lemma_hex_round_trip(x % 16);
        assert(hex4(s, k + 2) == Some(x as nat));
        lemma_small_scalar(x);
        assert(acc + encode_scalar(x as u32) =~= acc.push(x));
    }
}

/// A string whose escaped bytes `b` stand at `k`, closed by a quote, reads
/// back as `b`.
pub proof fn lemma_string_body_escaped(s: Seq<u8>, k: int, acc: Seq<u8>, b: Seq<u8>)
    requires
        0 <= k,
        k + escaped(b).len() < s.len(),
        s.subrange(k, k + escaped(b).len()) == escaped(b),
        s[k + escaped(b).len()] == 0x22,
    ensures
        parse_string_body(s, k, acc) == Some((acc + b, k + escaped(b).len() + 1)),
    decreases b.len(),
{
    if b.len() == 0 {
        assert(acc + b =~= acc);
    } else {
        let x = b[0];
        let e = escape_byte(x);
        let rest = b.drop_first();
        let n = escaped(b).len() as int;
        assert(escaped(b) == e + escaped(rest));
        assert forall|t: int| 0 <= t < e.len() implies s[k + t] == #[trigger] e[t] by {
            assert(s.subrange(k, k + n)[t] == escaped(b)[t]);
        }
        lemma_escape_step(s, k, acc, x);
        let m = escaped(rest).len() as int;
        assert(s.subrange(k + e.len(), k + e.len() + m) =~= escaped(rest)) by {
            assert forall|t: int| 0 <= t < m implies s.subrange(k + e.len(), k + e.len() + m)[t]
                == escaped(rest)[t] by {
                assert(s.subrange(k, k + n)[e.len() + t] == escaped(b)[e.len() + t]);
            }
        }
        lemma_string_body_escaped(s, k + e.len(), acc.push(x), rest);
        assert(acc.push(x) + rest =~= acc + b);
    }
}

/// The string literal holding `b`, standing at `i`, reads back as `b`.
pub proof fn lemma_string_at(s: Seq<u8>, i: int, b: Seq<u8>)
    requires
        0 <= i,
        i + json_string(b).len() <= s.len(),
        s.subrange(i, i + json_string(b).len()) == json_string(b),
    ensures
        parse_string(s, i) == Some((b, i + json_string(b).len())),
{
    let j = json_string(b);
    let n = escaped(b).len() as int;
    assert(s[i] == j[0]);
    assert(s[i + 1 + n] == j[1 + n]);
    assert(s.subrange(i + 1, i + 1 + n) =~= escaped(b)) by {
        assert forall|t: int| 0 <= t < n implies s.subrange(i + 1, i + 1 + n)[t] == escaped(b)[t] by {
            assert(s.subrange(i, i + j.len())[1 + t] == j[1 + t]);
        }
    }
    lemma_string_body_escaped(s, i + 1, seq![], b);
    assert(Seq::<u8>::empty() + b =~= b);
}

pub proof fn lemma_decimal_bytes(n: nat)
    ensures
        decimal_bytes(n).len() >= 1,
        forall|k: int| 0 <= k < decimal_bytes(n).len() ==> #[trigger] is_digit(decimal_bytes(n)[k]),
        digits_value(decimal_bytes(n)) == n,
        n >= 1 ==> decimal_bytes(n)[0] != 0x30,
    decreases n,
{
    if n < 10 {
        lemma_digits_value_push(Seq::<u8>::empty(), (48 + n) as u8);
        assert(seq![(48 + n) as u8] =~= Seq::<u8>::empty().push((48 + n) as u8));
    } else {
        lemma_decimal_bytes(n / 10);
        let d = decimal_bytes(n / 10);
        lemma_digits_value_push(d, (48 + n % 10) as u8);
        vstd::arithmetic::div_mod::lemma_fundamental_div_mod(n as int, 10);
    }
}

pub proof fn lemma_digits_end_run(s: Seq<u8>, i: int, j: int)
    requires
        0 <= i <= j <= s.len(),
        forall|k: int| i <= k < j ==> #[trigger] is_digit(s[k]),
        j < s.len() ==> !is_digit(s[j]),
    ensures
        digits_end(s, i) == j,
    decreases j - i,
{
    if i < j {
        lemma_digits_end_run(s, i + 1, j);
    }
}

/// The numeral of `n`, standing at `i` and followed by `,` or `}`, reads
/// back as `n`.
pub proof fn lemma_uint_at(s: Seq<u8>, i: int, n: nat)
    requires
        0 <= i,
        i + decimal_bytes(n).len() < s.len(),
        s.subrange(i, i + decimal_bytes(n).len()) == decimal_bytes(n),
        s[i + decimal_bytes(n).len()] == 0x2C || s[i + decimal_bytes(n).len()] == 0x7D,
    ensures
        parse_uint(s, i) == Some((n, i + decimal_bytes(n).len())),
{
    let d = decimal_bytes(n);
    lemma_decimal_bytes(n);
    assert forall|k: int| i <= k < i + d.len() implies #[trigger] is_digit(s[k]) by {
        assert(s.subrange(i, i + d.len())[k - i] == d[k - i]);
    }
    lemma_digits_end_run(s, i, i + d.len());
    assert(s[i] == d[0]);
    if n == 0 {
        assert(d.len() == 1);
    }
}

/// The currency bytes, amount and decimals of the value claim in `s`,
/// when its currency is valid UTF-8: the claim's currency characters,
/// amount and decimals.
pub open spec fn value_claim_decoding(s: Seq<u8>) -> Option<(Seq<char>, u64, u8)> {
    match parse_value_claim(s) {
        Some((c, a, d)) => if valid_utf8(c) {
            Some((decode_utf8(c), a, d))
        } else {
            None
        },
        None => None,
    }
}

/// Decoding the canonical JSON of a value claim gives the claim back.
#[verifier::spinoff_prover]
#[verifier::rlimit(40)]
pub proof fn lemma_value_claim_round_trip(currency: Seq<char>, amount: u64, decimals: u8)
    ensures
        value_claim_decoding(value_claim_json(currency, amount, decimals)) == Some(
            (currency, amount, decimals),
        ),
{
    let s = value_claim_json(currency, amount, decimals);
    let a = json_string(amount_key());
    let d1 = decimal_bytes(amount as nat);
    let c = json_string(currency_key());
    let cb = encode_utf8(currency);
    let v = json_string(cb);
    let e = json_string(decimals_key());
    let d2 = decimal_bytes(decimals as nat);
    let q0 = seq![0x7Bu8];
    let q1 = q0 + a;
    let q2 = q1 + seq![0x3Au8];
    let q3 = q2 + d1;
    let q4 = q3 + seq![0x2Cu8];
    let q5 = q4 + c;
    let q6 = q5 + seq![0x3Au8];
    let q7 = q6 + v;
    let q8 = q7 + seq![0x2Cu8];
    let q9 = q8 + e;
    let q10 = q9 + seq![0x3Au8];
    let q11 = q10 + d2;
    assert(s =~= q11 + seq![0x7Du8]);
    lemma_decimal_bytes(amount as nat);
    lemma_decimal_bytes(decimals as nat);
    // the pieces at their positions
    assert(s.subrange(q0.len() as int, q1.len() as int) =~= a);
    assert(s.subrange(q2.len() as int, q3.len() as int) =~= d1);
    assert(s.subrange(q4.len() as int, q5.len() as int) =~= c);
    assert(s.subrange(q6.len() as int, q7.len() as int) =~= v);
    assert(s.subrange(q8.len() as int, q9.len() as int) =~= e);
    assert(s.subrange(q10.len() as int, q11.len() as int) =~= d2);
    assert(s[0] == 0x7B);
    assert(s[q1.len() as int] == 0x3A);
    assert(s[q3.len() as int] == 0x2C);
    assert(s[q5.len() as int] == 0x3A);
    assert(s[q7.len() as int] == 0x2C);
    assert(s[q9.len() as int] == 0x3A);
    assert(s[q11.len() as int] == 0x7D);
    assert(s[1] == a[0]);
    assert(s[q2.len() as int] == d1[0]);
    assert(s[q4.len() as int] == c[0]);
    assert(s[q6.len() as int] == v[0]);
    assert(s[q8.len() as int] == e[0]);
    assert(s[q10.len() as int] == d2[0]);
    lemma_string_at(s, 1, amount_key());
    lemma_uint_at(s, q2.len() as int, amount as nat);
    lemma_string_at(s, q4.len() as int, currency_key());
    lemma_string_at(s, q6.len() as int, cb);
    lemma_string_at(s, q8.len() as int, decimals_key());
    lemma_uint_at(s, q10.len() as int, decimals as nat);
    assert(currency_key() != amount_key());
    assert(decimals_key()[0] != amount_key()[0]);
    assert(decimals_key()[0] != currency_key()[0]);
    // the three members, in order
    let f1 = Fields { amount: Some(amount), ..no_fields() };
    let f2 = Fields { currency: Some(cb), ..f1 };
    let f3 = Fields { decimals: Some(decimals), ..f2 };
    assert(parse_members(s, q8.len() as int, f2) == Some((f3, s.len() as int)));
    assert(parse_members(s, q4.len() as int, f1) == Some((f3, s.len() as int)));
    assert(parse_members(s, 1, no_fields()) == Some((f3, s.len() as int)));
    assert(parse_value_claim(s) == Some((cb, amount, decimals)));
    vstd::utf8::encode_utf8_valid_utf8(currency);
    vstd::utf8::encode_utf8_decode_utf8(currency);
}

} // verus!
