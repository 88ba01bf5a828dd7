//! The credential validator: reads the key id of a bearer token, resolves the
//! verification key from the identity provider's key set, and checks the
//! token's signature and expiry with jsonwebtoken.
use vstd::prelude::*;
use jsonwebtoken::{Algorithm, DecodingKey, Validation};
use jsonwebtoken::errors::{Error as JwtError, ErrorKind};
use crate::config::opt_view;

verus! {

#[verifier::external_type_specification]
#[verifier::external_body]
pub struct ExDecodingKey(DecodingKey);

#[verifier::external_type_specification]
#[verifier::external_body]
pub struct ExValidation(Validation);

#[verifier::external_type_specification]
#[verifier::external_body]
pub struct ExJwtError(JwtError);

/// The key id in a token's header: `None` when the header cannot be read,
/// `Some(None)` when it carries no key id.
pub uninterp spec fn header_key_id(token: Seq<char>) -> Option<Option<Seq<char>>>;

/// The subject and expiry claims in a token's payload, where they are a
/// string and an integer.
pub uninterp spec fn payload_claims(token: Seq<char>) -> (Option<Seq<char>>, Option<i64>);

/// Whether a base64url modulus and exponent make an RSA verification key.
pub uninterp spec fn rsa_components_ok(modulus: Seq<char>, exponent: Seq<char>) -> bool;

/// Relies on jsonwebtoken::decode_header: it reads the token's header, with
/// its key id, without checking the signature.
#[verifier::external_body]
fn decode_key_id(token: &str) -> (r: Result<Option<String>, JwtError>)
    ensures
        r matches Ok(kid) ==> header_key_id(token@) == Some(opt_view(kid)),
        r is Err ==> header_key_id(token@) is None,
{
    jsonwebtoken::decode_header(token).map(|header| header.kid)
}

/// Relies on jsonwebtoken::Validation::new: RS256 signatures, with the
/// expiry claim required and checked.
#[verifier::external_body]
fn rs256_validation() -> (r: Validation) {
    Validation::new(Algorithm::RS256)
}

/// Relies on jsonwebtoken::DecodingKey::from_rsa_components: a verification
/// key from a base64url modulus and exponent; whether it succeeds depends on
/// the two strings alone (both must decode).
#[verifier::external_body]
fn rsa_key(modulus: &str, exponent: &str) -> (r: Result<DecodingKey, JwtError>)
    ensures
        r is Ok <==> rsa_components_ok(modulus@, exponent@),
{
    DecodingKey::from_rsa_components(modulus, exponent)
}

/// Relies on jsonwebtoken::decode: on success the signature and expiry were
/// accepted; the payload, read as JSON, gives its `sub` string and `exp`
/// integer.
#[verifier::external_body]
fn decode_claims(token: &str, key: &DecodingKey, validation: &Validation) -> (r: Result<
    (Option<String>, Option<i64>),
    JwtError,
>)
    ensures
        r matches Ok(c) ==> payload_claims(token@) == (opt_view(c.0), c.1),
{
    jsonwebtoken::decode::<serde_json::Value>(token, key, validation).map(
        |data| (data.claims["sub"].as_str().map(String::from), data.claims["exp"].as_i64()),
    )
}

/// Relies on jsonwebtoken::errors::Error::kind: tells an expired token apart
/// from the other failures.
#[verifier::external_body]
fn is_expired(e: &JwtError) -> (r: bool) {
    matches!(e.kind(), ErrorKind::ExpiredSignature)
}

/// Why a token was refused.
#[derive(Clone, Copy, Debug, PartialEq, Eq)]
pub enum AuthError {
    MalformedToken,
    UnknownSigningKey,
    InvalidSignature,
    Expired,
}

/// A verified identity assertion.
#[derive(Clone, Debug)]
pub struct Claims {
    pub sub: String,
    pub exp: i64,
}

/// One entry of the identity provider's published key set.
#[derive(Clone, Debug)]
pub struct Jwk {
    pub kid: String,
    pub n: String,
    pub e: String,
}

/// The rest of `s` after `prefix`, if `s` starts with it.
pub fn strip_prefix<'a>(s: &'a str, prefix: &str) -> (r: Option<&'a str>)
    ensures
        r matches Some(rest) ==> s@ == prefix@ + rest@,
        r is None ==> !(exists|rest: Seq<char>| s@ == prefix@ + rest),
{
    let n = s.unicode_len();
    let m = prefix.unicode_len();
    if m > n {
        proof {
            assert forall|rest: Seq<char>| s@ != prefix@ + rest by {
                if s@ == prefix@ + rest {
                    assert(s@.len() == prefix@.len() + rest.len());
                }
            }
        }
        return None;
    }
    let mut i: usize = 0;
    while i < m
        invariant
            m <= n,
            n == s@.len(),
            m == prefix@.len(),
            i <= m,
            forall|j: int| 0 <= j < i ==> s@[j] == prefix@[j],
        decreases m - i,
    {
        if s.get_char(i) != prefix.get_char(i) {
            proof {
                assert forall|rest: Seq<char>| s@ != prefix@ + rest by {
                    if s@ == prefix@ + rest {
                        assert(s@[i as int] == (prefix@ + rest)[i as int]);
                    }
                }
            }
            return None;
        }
        i = i + 1;
    }
    let rest = s.substring_char(m, n);
    assert(s@ =~= prefix@ + rest@);
    Some(rest)
}

/// The bearer token of an Authorization header value: the text after
/// `Bearer `.
pub fn bearer_token(header: Option<&str>) -> (r: Option<String>)
    ensures
        r matches Some(t) ==> header matches Some(h) && h@ == "Bearer "@ + t@,
        r is None ==> !(header matches Some(h) && exists|t: Seq<char>| h@ == "Bearer "@ + t),
{
    match header {
        Some(h) => match strip_prefix(h, "Bearer ") {
            Some(t) => Some(t.to_owned()),
            None => None,
        },
        None => None,
    }
}

/// The key id named in the token's header; `MalformedToken` when the header
/// cannot be read or names no key.
pub fn token_key_id(token: &str) -> (r: Result<String, AuthError>)
    ensures
        r matches Ok(kid) ==> header_key_id(token@) == Some(Some(kid@)),
        r is Err ==> r == Err::<String, AuthError>(AuthError::MalformedToken)
            && !(header_key_id(token@) matches Some(Some(_))),
{
    match decode_key_id(token) {
        Ok(Some(kid)) => Ok(kid),
        _ => Err(AuthError::MalformedToken),
    }
}

/// The position of the first key of `keys` whose id is `kid`.
pub fn find_jwk(keys: &Vec<Jwk>, kid: &String) -> (r: Option<usize>)
    ensures
        r matches Some(i) ==> i < keys@.len() && keys@[i as int].kid@ == kid@
            && forall|j: int| 0 <= j < i ==> keys@[j].kid@ != kid@,
        r is None ==> forall|j: int| 0 <= j < keys@.len() ==> keys@[j].kid@ != kid@,
{
    let mut i: usize = 0;
    while i < keys.len()
        invariant
            i <= keys@.len(),
            forall|j: int| 0 <= j < i ==> keys@[j].kid@ != kid@,
        decreases keys.len() - i,
    {
        if keys[i].kid == *kid {
            return Some(i);
        }
        i = i + 1;
    }
    None
}

/// Entry `i` is the first of `keys` whose id is `kid`.
pub open spec fn first_key(keys: Seq<Jwk>, kid: Seq<char>, i: int) -> bool {
    0 <= i < keys.len() && keys[i].kid@ == kid && forall|j: int| 0 <= j < i ==> keys[j].kid@ != kid
}

/// The verification key for `kid` out of a freshly fetched key set: it
/// resolves exactly when the first entry with that id has components that
/// make an RSA key; otherwise `UnknownSigningKey`.
pub fn resolve_key(keys: &Vec<Jwk>, kid: &String) -> (r: Result<DecodingKey, AuthError>)
    ensures
        r is Ok <==> exists|i: int| #[trigger] first_key(keys@, kid@, i) && rsa_components_ok(
            keys@[i].n@,
            keys@[i].e@,
        ),
        r is Err ==> r == Err::<DecodingKey, AuthError>(AuthError::UnknownSigningKey),
{
    match find_jwk(keys, kid) {
        Some(i) => {
            proof {
                assert(first_key(keys@, kid@, i as int));
                assert forall|m: int| #[trigger] first_key(keys@, kid@, m) implies m == i by {
                    if m < i {
                        assert(keys@[m].kid@ != kid@);
                    } else if m > i {
                        assert(keys@[i as int].kid@ != kid@);
                    }
                }
            }
            match rsa_key(keys[i].n.as_str(), keys[i].e.as_str()) {
                Ok(key) => Ok(key),
                Err(_) => Err(AuthError::UnknownSigningKey),
            }
        },
        None => Err(AuthError::UnknownSigningKey),
    }
}

/// The verification key for `kid` after a cache miss, from the result of
/// fetching the identity provider's key set (`None` when the fetch or its
/// parsing failed): a failed fetch gives `UnknownSigningKey`; otherwise the
/// key resolves as `resolve_key` says.
pub fn resolve_fetched(fetched: Option<Vec<Jwk>>, kid: &String) -> (r: Result<DecodingKey, AuthError>)
    ensures
        fetched is None ==> r == Err::<DecodingKey, AuthError>(AuthError::UnknownSigningKey),
        fetched matches Some(keys) ==> (r is Ok <==> exists|i: int| #[trigger] first_key(keys@, kid@, i)
            && rsa_components_ok(keys@[i].n@, keys@[i].e@)),
        r is Err ==> r == Err::<DecodingKey, AuthError>(AuthError::UnknownSigningKey),
{
    match fetched {
        Some(keys) => resolve_key(&keys, kid),
        None => Err(AuthError::UnknownSigningKey),
    }
}

/// The outcome of checking a token, from what the decoder returned: an
/// accepted token with a string subject and an integer expiry gives those
/// claims; an accepted token without them is refused as invalid; a rejected
/// token is refused as expired or invalid.
pub fn claims_from(decoded: Result<(Option<String>, Option<i64>), JwtError>) -> (r: Result<Claims, AuthError>)
    ensures
        decoded matches Ok((Some(s), Some(e))) ==> (r matches Ok(c) && c.sub@ == s@ && c.exp == e),
        (decoded matches Ok(p) && (p.0 is None || p.1 is None)) ==> r == Err::<Claims, AuthError>(
            AuthError::InvalidSignature,
        ),
        decoded is Err ==> (r == Err::<Claims, AuthError>(AuthError::Expired) || r == Err::<Claims, AuthError>(
            AuthError::InvalidSignature,
        )),
{
    match decoded {
        Ok((Some(sub), Some(exp))) => Ok(Claims { sub, exp }),
        Ok(_) => Err(AuthError::InvalidSignature),
        Err(e) => {
            if is_expired(&e) {
                Err(AuthError::Expired)
            } else {
                Err(AuthError::InvalidSignature)
            }
        },
    }
}

/// Checks the token's RS256 signature and expiry against `key`, handing the
/// token and key to the decoder as given; what it returns is turned into
/// claims by `claims_from`. On success the claims are the subject and expiry
/// that the token's payload carries.
pub fn verify_token(token: &str, key: &DecodingKey) -> (r: Result<Claims, AuthError>)
    ensures
        r matches Ok(c) ==> payload_claims(token@) == (Some(c.sub@), Some(c.exp)),
        r matches Err(e) ==> e == AuthError::InvalidSignature || e == AuthError::Expired,
{
    let validation = rs256_validation();
    claims_from(decode_claims(token, key, &validation))
}

/// The subject is fixed by the token: any two successful verifications of
/// the same token, under whatever key and at whatever time, yield the same
/// subject and expiry.
pub proof fn subject_fixed_by_token(token: Seq<char>, first: Claims, second: Claims)
    requires
        payload_claims(token) == (Some(first.sub@), Some(first.exp)),
        payload_claims(token) == (Some(second.sub@), Some(second.exp)),
    ensures
        first.sub@ == second.sub@,
        first.exp == second.exp,
{
}

} // verus!
