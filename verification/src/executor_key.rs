//! The executor key: the public key whose signatures a resource honours on
//! every receipt. A resource fetches it once at startup from the gateway's
//! `GET /v1/executor-key` endpoint and keeps it for its lifetime.

use vstd::prelude::*;
use vstd::utf8::{encode_utf8, encode_utf8_decode_utf8};

use crate::error::SdkError;
use crate::gateway::{base64url, base64url_digit, trimmed_base};
use crate::protocol::{PublicKey, PublicKeyModel, SignatureAlgorithm};

verus! {

#[verifier::external_type_specification]
#[verifier::external_body]
pub struct ExUuid(uuid::Uuid);

/// The public key a resource trusts to have signed any receipt it
/// receives, with the gateway's name for it and the tenant it serves.
#[derive(Debug)]
pub struct ExecutorKey {
    pub key: PublicKey,
    pub key_id: String,
    pub tenant_id: uuid::Uuid,
}

/// The executor-key endpoint of the gateway at `gateway_url`.
pub fn executor_key_url(gateway_url: &str) -> (url: String)
    ensures
        url@ == trimmed_base(gateway_url@) + "/v1/executor-key"@,
{
    let mut url = String::from_str(crate::gateway::trim_trailing_slashes(gateway_url));
    url.append("/v1/executor-key");
    url
}

/// What decoding `input` as unpadded URL-safe base64 gives: the bytes whose
/// encoding (as [`base64url`] states it) is `input`, or `None` when `input`
/// is the encoding of no bytes. The `base64` crate's `URL_SAFE_NO_PAD`
/// engine decodes exactly so: it refuses padding, bytes outside the
/// alphabet, a lone last symbol and non-zero trailing bits, so it accepts
/// only canonical encodings.
pub open spec fn base64url_decoding(input: Seq<u8>) -> Option<Seq<u8>> {
    if exists|b: Seq<u8>| input == encode_utf8(#[trigger] base64url(b)) {
        Some(choose|b: Seq<u8>| input == encode_utf8(#[trigger] base64url(b)))
    } else {
        None
    }
}

/// The length of the unpadded base64 encoding of `n` bytes: four
/// characters for every three bytes, and two or three for a last one or
/// two bytes.
pub open spec fn base64url_len(n: nat) -> nat {
    4 * (n / 3) + if n % 3 == 0 {
        0nat
    } else if n % 3 == 1 {
        2nat
    } else {
        3nat
    }
}

/// The encoding of `b` has [`base64url_len`] characters, so a 32-byte key
/// is 43 characters long.
pub proof fn base64url_length(b: Seq<u8>)
    ensures
        base64url(b).len() == base64url_len(b.len()),
    decreases b.len(),
{
    if b.len() >= 3 {
        base64url_length(b.subrange(3, b.len() as int));
    }
}

proof fn lemma_digit_injective(x: u8, y: u8)
    requires
        x < 64,
        y < 64,
        base64url_digit(x) == base64url_digit(y),
    ensures
        x == y,
{
}

proof fn lemma_six_bits(a: u8, b: u8, c: u8)
    ensures
        a >> 2 < 64,
        ((a & 3) << 4) < 64,
        (((a & 3) << 4) | (b >> 4)) < 64,
        ((b & 15) << 2) < 64,
        (((b & 15) << 2) | (c >> 6)) < 64,
        c & 63 < 64,
{
    assert(a >> 2 < 64) by (bit_vector);
    assert(((a & 3) << 4) < 64) by (bit_vector);
    assert((((a & 3) << 4) | (b >> 4)) < 64) by (bit_vector);
    assert(((b & 15) << 2) < 64) by (bit_vector);
    assert((((b & 15) << 2) | (c >> 6)) < 64) by (bit_vector);
    assert(c & 63 < 64) by (bit_vector);
}

/// Different bytes have different encodings.
pub proof fn base64url_injective(b1: Seq<u8>, b2: Seq<u8>)
    requires
        base64url(b1) == base64url(b2),
    ensures
        b1 == b2,
    decreases b1.len(),
{
    base64url_length(b1);
    base64url_length(b2);
    let e = base64url(b1);
    if b1.len() == 0 {
        assert(b2.len() == 0);
        assert(b1 =~= b2);
    } else {
        assert(b2.len() != 0);
        let a1 = b1[0];
        let a2 = b2[0];
        let e2 = base64url(b2);
        lemma_six_bits(a1, 0, 0);
        lemma_six_bits(a2, 0, 0);
        assert(e[0] == base64url_digit(a1 >> 2));
        assert(e2[0] == base64url_digit(a2 >> 2));
        lemma_digit_injective(a1 >> 2, a2 >> 2);
        if b1.len() == 1 {
            assert(b2.len() == 1);
            assert(e[1] == base64url_digit((a1 & 3) << 4));
            assert(e2[1] == base64url_digit((a2 & 3) << 4));
            lemma_digit_injective((a1 & 3) << 4, (a2 & 3) << 4);
            assert(a1 == a2) by (bit_vector)
                requires
                    a1 >> 2 == a2 >> 2,
                    (a1 & 3) << 4 == (a2 & 3) << 4,
            ;
            assert(b1 =~= b2);
        } else {
            assert(b2.len() >= 2);
            let c1 = b1[1];
            let c2 = b2[1];
            lemma_six_bits(a1, c1, 0);
            lemma_six_bits(a2, c2, 0);
            assert(e[1] == base64url_digit(((a1 & 3) << 4) | (c1 >> 4)));
            assert(e2[1] == base64url_digit(((a2 & 3) << 4) | (c2 >> 4)));
            lemma_digit_injective(((a1 & 3) << 4) | (c1 >> 4), ((a2 & 3) << 4) | (c2 >> 4));
            if b1.len() == 2 {
                assert(b2.len() == 2);
                assert(e[2] == base64url_digit((c1 & 15) << 2));
                assert(e2[2] == base64url_digit((c2 & 15) << 2));
                lemma_digit_injective((c1 & 15) << 2, (c2 & 15) << 2);
                assert(a1 == a2 && c1 == c2) by (bit_vector)
                    requires
                        a1 >> 2 == a2 >> 2,
                        ((a1 & 3) << 4) | (c1 >> 4) == ((a2 & 3) << 4) | (c2 >> 4),
                        (c1 & 15) << 2 == (c2 & 15) << 2,
                ;
                assert(b1 =~= b2);
            } else {
                assert(b2.len() >= 3);
                let d1 = b1[2];
                let d2 = b2[2];
                lemma_six_bits(a1, c1, d1);
                lemma_six_bits(a2, c2, d2);
                assert(e[2] == base64url_digit(((c1 & 15) << 2) | (d1 >> 6)));
                assert(e2[2] == base64url_digit(((c2 & 15) << 2) | (d2 >> 6)));
                assert(e[3] == base64url_digit(d1 & 63));
                assert(e2[3] == base64url_digit(d2 & 63));
                lemma_digit_injective(((c1 & 15) << 2) | (d1 >> 6), ((c2 & 15) << 2) | (d2 >> 6));
                lemma_digit_injective(d1 & 63, d2 & 63);
                assert(a1 == a2 && c1 == c2 && d1 == d2) by (bit_vector)
                    requires
                        a1 >> 2 == a2 >> 2,
                        ((a1 & 3) << 4) | (c1 >> 4) == ((a2 & 3) << 4) | (c2 >> 4),
                        ((c1 & 15) << 2) | (d1 >> 6) == ((c2 & 15) << 2) | (d2 >> 6),
                        d1 & 63 == d2 & 63,
                ;
                let r1 = b1.subrange(3, b1.len() as int);
                let r2 = b2.subrange(3, b2.len() as int);
                assert(base64url(r1) =~= e.subrange(4, e.len() as int));
                assert(base64url(r2) =~= e.subrange(4, e.len() as int));
                base64url_injective(r1, r2);
                assert(b1.len() == b2.len());
                assert forall|i: int| 0 <= i < b1.len() implies b1[i] == b2[i] by {
                    if i >= 3 {
                        assert(b1[i] == r1[i - 3]);
                        assert(b2[i] == r2[i - 3]);
                    }
                }
                assert(b1 =~= b2);
            }
        }
    }
}

/// Decoding inverts encoding: the encoding of any bytes decodes to exactly
/// those bytes, so a 43-character key text decodes to 32 bytes.
pub proof fn base64url_decoding_inverts_encoding(b: Seq<u8>)
    ensures
        base64url_decoding(encode_utf8(base64url(b))) == Some(b),
{
    let input = encode_utf8(base64url(b));
    assert(exists|x: Seq<u8>| input == encode_utf8(#[trigger] base64url(x)));
    let c = choose|x: Seq<u8>| input == encode_utf8(#[trigger] base64url(x));
    encode_utf8_decode_utf8(base64url(b));
    encode_utf8_decode_utf8(base64url(c));
    base64url_injective(c, b);
}

/// Calls `Engine::decode` of the `base64` crate's `URL_SAFE_NO_PAD`
/// engine. The error becomes its message.
///
/// Claims only that the outcome is the decoding of `input`, the same for
/// the same bytes; nothing is claimed of the message.
#[verifier::external_body]
fn base64url_decode(input: &[u8]) -> (r: Result<Vec<u8>, String>)
    ensures
        r is Ok <==> base64url_decoding(input@) is Some,
        r matches Ok(v) ==> base64url_decoding(input@) == Some(v@),
{
    match base64::Engine::decode(&base64::engine::general_purpose::URL_SAFE_NO_PAD, input) {
        Ok(v) => Ok(v),
        Err(e) => Err(e.to_string()),
    }
}

/// The executor key the gateway described: the tenant, the key's name,
/// its algorithm and its key bytes in unpadded URL-safe base64.
///
/// Only `ed25519` keys are accepted (a crypto error names any other
/// algorithm); key text that does not decode is a crypto error too.
pub fn executor_key_from_response(
    tenant_id: uuid::Uuid,
    key_id: String,
    algorithm: &str,
    public_key_b64: &str,
) -> (r: Result<ExecutorKey, SdkError>)
    ensures
        algorithm@ != "ed25519"@ ==> (r matches Err(SdkError::Crypto(m)) && m@
            == "unsupported algorithm: "@ + algorithm@),
        algorithm@ == "ed25519"@ ==> match base64url_decoding(encode_utf8(public_key_b64@)) {
            None => r matches Err(SdkError::Crypto(m)) && m@.len() >= "public_key_b64 not base64url: "@.len()
                && m@.take("public_key_b64 not base64url: "@.len() as int)
                == "public_key_b64 not base64url: "@,
            Some(key_data) => r matches Ok(k) && k.key@ == (PublicKeyModel {
                algorithm: SignatureAlgorithm::Ed25519,
                key_data,
            }) && k.key_id == key_id && k.tenant_id == tenant_id,
        },
        r matches Ok(k) ==> base64url(k.key.key_data@) == public_key_b64@,
        algorithm@ == "ed25519"@ && (exists|b: Seq<u8>| #[trigger] base64url(b) == public_key_b64@)
            ==> r is Ok,
{
    if !str_eq(algorithm, "ed25519") {
        let mut m = String::from_str("unsupported algorithm: ");
        m.append(algorithm);
        return Err(SdkError::Crypto(m));
    }
    proof {
        if exists|b: Seq<u8>| #[trigger] base64url(b) == public_key_b64@ {
            let b = choose|b: Seq<u8>| #[trigger] base64url(b) == public_key_b64@;
            base64url_decoding_inverts_encoding(b);
        }
    }
    match base64url_decode(public_key_b64.as_bytes()) {
        Ok(key_data) => {
            proof {
                let c = choose|x: Seq<u8>|
                    encode_utf8(public_key_b64@) == encode_utf8(#[trigger] base64url(x));
                encode_utf8_decode_utf8(public_key_b64@);
                encode_utf8_decode_utf8(base64url(c));
            }
            Ok(
            ExecutorKey {
                key: PublicKey { algorithm: SignatureAlgorithm::Ed25519, key_data },
                key_id,
                tenant_id,
            },
        )
        },
        Err(e) => {
            let mut m = String::from_str("public_key_b64 not base64url: ");
            let ghost prefix = m@;
            m.append(e.as_str());
            proof {
                assert(m@.take(prefix.len() as int) =~= prefix);
            }
            Err(SdkError::Crypto(m))
        },
    }
}

/// Whether two strings hold the same characters.
pub fn str_eq(a: &str, b: &str) -> (r: bool)
    ensures
        r == (a@ == b@),
{
    let r = crate::validator::pubkey_constant_time_eq(a.as_bytes(), b.as_bytes());
    proof {
        if encode_utf8(a@) == encode_utf8(b@) {
            encode_utf8_decode_utf8(a@);
            encode_utf8_decode_utf8(b@);
        }
    }
    r
}

} // verus!
