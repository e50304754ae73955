//! Signed authorization tokens for the exchange REST interface.
//!
//! A request is authorized by a JWT over four claims — the access key, a
//! fresh nonce, the hex-encoded SHA-512 hash of the query string and the
//! hash algorithm name — signed with the account's secret key, and sent as
//! `Bearer <token>`.

use vstd::prelude::*;
use vstd::string::StringExecFns;
use vstd::utf8::encode_utf8;
use sha2::Digest;
use jwt::SignWithKey;
use hmac::Mac;

verus! {

/// The SHA-512 digest of a byte sequence: 64 bytes that depend on the input
/// alone.
pub uninterp spec fn sha512_of(data: Seq<u8>) -> Seq<u8>;

/// The lower-case hex character of one value below sixteen.
pub open spec fn hex_digit(n: int) -> char {
    if n == 0 {
        '0'
    } else if n == 1 {
        '1'
    } else if n == 2 {
        '2'
    } else if n == 3 {
        '3'
    } else if n == 4 {
        '4'
    } else if n == 5 {
        '5'
    } else if n == 6 {
        '6'
    } else if n == 7 {
        '7'
    } else if n == 8 {
        '8'
    } else if n == 9 {
        '9'
    } else if n == 10 {
        'a'
    } else if n == 11 {
        'b'
    } else if n == 12 {
        'c'
    } else if n == 13 {
        'd'
    } else if n == 14 {
        'e'
    } else {
        'f'
    }
}

/// The lower-case hex encoding of a byte sequence: two characters per byte,
/// high nibble first.
pub open spec fn hex_seq(data: Seq<u8>) -> Seq<char>
    decreases data.len(),
{
    if data.len() == 0 {
        Seq::empty()
    } else {
        seq![
            hex_digit((data.first() >> 4) as int),
            hex_digit((data.first() & 0x0f) as int),
        ] + hex_seq(data.drop_first())
    }
}

/// The signed JWT over the exchange's four authorization claims
/// (`access_key`, `nonce`, `query_hash`, `query_hash_alg` = "SHA512"),
/// signed HS512 with the given secret: a function of those inputs alone.
pub uninterp spec fn jwt_hs512_of(
    access_key: Seq<char>,
    nonce: Seq<char>,
    query_hash: Seq<char>,
    secret: Seq<char>,
) -> Seq<char>;

/// Relies on sha2's `Sha512::digest`: the SHA-512 digest of the input, 64
/// bytes, depending on the input alone.
#[verifier::external_body]
fn sha512_digest(data: &[u8]) -> (r: Vec<u8>)
    ensures
        r@ == sha512_of(data@),
        r@.len() == 64,
{
    sha2::Sha512::digest(data).to_vec()
}

/// Relies on hex's `encode`: the lower-case hex encoding of the bytes, two
/// digits per byte, high nibble first, as its source table shows.
#[verifier::external_body]
fn hex_encode(data: &[u8]) -> (r: String)
    ensures
        r@ == hex_seq(data@),
{
    hex::encode(data)
}

/// Relies on hmac's `Hmac::<Sha512>::new_from_slice` and jwt's
/// `sign_with_key`: signs the exchange's four authorization claims as an
/// HS512 JWT. The claims map serializes with sorted keys, so the token
/// depends on the four inputs alone.
#[verifier::external_body]
fn sign_claims(access_key: &str, nonce: &str, query_hash: &str, secret: &str) -> (r: Option<
    String,
>)
    ensures
        r matches Some(t) ==> t@ == jwt_hs512_of(access_key@, nonce@, query_hash@, secret@),
{
    let mut claims = std::collections::BTreeMap::new();
    claims.insert("access_key".to_string(), access_key.to_string());
    claims.insert("nonce".to_string(), nonce.to_string());
    claims.insert("query_hash".to_string(), query_hash.to_string());
    claims.insert("query_hash_alg".to_string(), "SHA512".to_string());
    let key: hmac::Hmac<sha2::Sha512> = hmac::Hmac::new_from_slice(secret.as_bytes()).ok()?;
    claims.sign_with_key(&key).ok()
}

/// Relies on uuid's `Uuid::new_v4`: a random identifier rendered in the
/// 36-character hyphenated form. Nothing beyond its length is promised: the
/// value depends on the process's randomness.
#[verifier::external_body]
fn new_nonce() -> (r: String)
    ensures
        r@.len() == 36,
{
    uuid::Uuid::new_v4().to_string()
}

/// The hex-encoded SHA-512 hash a query string signs as: empty for no
/// query.
pub open spec fn query_hash_spec(query: Option<String>) -> Seq<char> {
    match query {
        Some(q) => hex_seq(sha512_of(encode_utf8(q@))),
        None => Seq::empty(),
    }
}

/// The hex-encoded SHA-512 hash of the query string; empty when there is no
/// query.
pub fn query_hash(query: &Option<String>) -> (r: String)
    ensures
        r@ == query_hash_spec(*query),
{
    match query {
        Some(q) => {
            let digest = sha512_digest(q.as_str().as_bytes());
            hex_encode(digest.as_slice())
        },
        None => {
            let r = String::new();
            proof {
                assert(r@ =~= Seq::<char>::empty());
            }
            r
        },
    }
}

/// The signed JWT authorizing one request: the access key, the given nonce,
/// the query's hash and the algorithm name, signed HS512 with the secret
/// key.
pub fn create_jwt_token(query: &Option<String>, access_key: &str, secret_key: &str, nonce: &str)
    -> (r: Option<String>)
    ensures
        r matches Some(t) ==> t@ == jwt_hs512_of(
            access_key@,
            nonce@,
            query_hash_spec(*query),
            secret_key@,
        ),
{
    let qh = query_hash(query);
    sign_claims(access_key, nonce, qh.as_str(), secret_key)
}

/// The value of the HTTP Authorization header for one request: `Bearer `
/// followed by a JWT over the query's hash, signed with the secret key
/// under a fresh random nonce.
pub fn create_authorization_token(query: &Option<String>, access_key: &str, secret_key: &str) -> (r:
    Option<String>)
    ensures
        r matches Some(t) ==> exists|nonce: Seq<char>|
            t@ == "Bearer "@ + #[trigger] jwt_hs512_of(
                access_key@,
                nonce,
                query_hash_spec(*query),
                secret_key@,
            ),
{
    let nonce = new_nonce();
    match create_jwt_token(query, access_key, secret_key, nonce.as_str()) {
        Some(jwt_token) => {
            let mut token = String::from_str("Bearer ");
            token.append(jwt_token.as_str());
            proof {
                let ghost n = nonce@;
                assert(token@ == "Bearer "@ + jwt_hs512_of(
                    access_key@,
                    n,
                    query_hash_spec(*query),
                    secret_key@,
                ));
            }
            Some(token)
        },
        None => None,
    }
}

} // verus!
