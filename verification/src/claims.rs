//! Reading the claims that an access token carries, without checking its
//! signature. The token is taken apart by `jsonwebtoken` and its payload is
//! held as a `serde_json` document; which members are read, and what their
//! absence means, is decided here.

use vstd::prelude::*;

verus! {

/// `serde_json::Value`, a parsed JSON document. Nothing inside it is visible
/// here: it is read through [`member`], [`as_unsigned`] and [`as_text`].
#[verifier::external_type_specification]
#[verifier::external_body]
pub struct ExJsonValue(serde_json::Value);

/// `jsonwebtoken::errors::Error`, the reason a token could not be taken apart.
#[verifier::external_type_specification]
#[verifier::external_body]
pub struct ExJwtError(jsonwebtoken::errors::Error);

/// The payload that `jsonwebtoken::dangerous_insecure_decode` finds in a
/// token, or `None` where it reports an error: the token has other than three
/// parts, its header or payload is not base64url text holding JSON, the header
/// is no JWT header, or the payload is no JSON object.
pub uninterp spec fn jwt_claims(token: Seq<char>) -> Option<serde_json::Value>;

/// What `serde_json::Value::get` finds in a document under a text key: the
/// member of that name where the document is an object that has one, `None`
/// otherwise.
pub uninterp spec fn json_member(doc: serde_json::Value, key: Seq<char>) -> Option<
    serde_json::Value,
>;

/// What `serde_json::Value::as_u64` makes of a document: its value where it
/// is a whole number from 0 to `u64::MAX`, `None` otherwise.
pub uninterp spec fn json_unsigned(doc: serde_json::Value) -> Option<u64>;

/// What `serde_json::Value::as_str` makes of a document: its characters
/// where it is a string, `None` otherwise.
pub uninterp spec fn json_text(doc: serde_json::Value) -> Option<Seq<char>>;

/// Calls `jsonwebtoken::dangerous_insecure_decode` with a `serde_json::Value`
/// as the claims type and hands back the payload alone; the signature is not
/// looked at. Believed, not proved: the call returns for every text, and what
/// it returns depends on the text alone, so it is the value that
/// [`jwt_claims`] names.
#[verifier::external_body]
pub(crate) fn decode_unverified(token: &str) -> (r: Result<serde_json::Value, jsonwebtoken::errors::Error>)
    ensures
        jwt_claims(token@) == match r {
            Ok(doc) => Some(doc),
            Err(_) => None,
        },
{
    match jsonwebtoken::dangerous_insecure_decode::<serde_json::Value>(token) {
        Ok(data) => Ok(data.claims),
        Err(e) => Err(e),
    }
}

/// Calls `serde_json::Value::get` with a text key. Believed, not proved: the
/// result depends on the document and the key alone, so it is the member
/// that [`json_member`] names.
#[verifier::external_body]
pub(crate) fn member<'a>(doc: &'a serde_json::Value, key: &str) -> (r: Option<&'a serde_json::Value>)
    ensures
        json_member(*doc, key@) == match r {
            Some(m) => Some(*m),
            None => None,
        },
{
    doc.get(key)
}

/// Calls `serde_json::Value::as_u64`. Believed, not proved: the result
/// depends on the document alone, so it is the number that [`json_unsigned`]
/// names.
#[verifier::external_body]
pub(crate) fn as_unsigned(doc: &serde_json::Value) -> (r: Option<u64>)
    ensures
        r == json_unsigned(*doc),
{
    doc.as_u64()
}

/// Calls `serde_json::Value::as_str`. Believed, not proved: the result
/// depends on the document alone, so it is the text that [`json_text`] names.
#[verifier::external_body]
pub(crate) fn as_text<'a>(doc: &'a serde_json::Value) -> (r: Option<&'a str>)
    ensures
        json_text(*doc) == match r {
            Some(s) => Some(s@),
            None => None,
        },
{
    doc.as_str()
}

/// The two time claims of an access token, in unix seconds.
#[derive(Clone, Copy, Debug, PartialEq, Eq, Structural)]
pub struct Claims {
    /// When the token was issued.
    pub iat: u64,
    /// When the token expires.
    pub exp: u64,
}

/// The unsigned number that a document holds under `name`, if it holds one.
pub open spec fn unsigned_claim(doc: serde_json::Value, name: Seq<char>) -> Option<u64> {
    match json_member(doc, name) {
        Some(m) => json_unsigned(m),
        None => None,
    }
}

/// The text that a document holds under `name`, if it holds one.
pub open spec fn text_claim(doc: serde_json::Value, name: Seq<char>) -> Option<Seq<char>> {
    match json_member(doc, name) {
        Some(m) => json_text(m),
        None => None,
    }
}

/// The time claims as a unit: both numbers, or nothing.
pub open spec fn claims_from_parts(iat: Option<u64>, exp: Option<u64>) -> Option<Claims> {
    match (iat, exp) {
        (Some(i), Some(e)) => Some(Claims { iat: i, exp: e }),
        _ => None,
    }
}

/// The time claims of an access token: present exactly when the token can be
/// taken apart and its payload holds unsigned numbers under `iat` and `exp`.
pub open spec fn token_claims(access_token: Seq<char>) -> Option<Claims> {
    match jwt_claims(access_token) {
        Some(doc) => claims_from_parts(unsigned_claim(doc, "iat"@), unsigned_claim(doc, "exp"@)),
        None => None,
    }
}

/// The expiry that a token with these claims has, and 0 for one without
/// claims.
pub open spec fn expiry_or_zero(claims: Option<Claims>) -> u64 {
    match claims {
        Some(c) => c.exp,
        None => 0,
    }
}

/// The time of issue that a token with these claims has, and 0 for one
/// without claims.
pub open spec fn issue_or_zero(claims: Option<Claims>) -> u64 {
    match claims {
        Some(c) => c.iat,
        None => 0,
    }
}

impl Claims {
    /// Puts the two time claims together. A token with only one of them has
    /// no usable claims.
    pub fn from_parts(iat: Option<u64>, exp: Option<u64>) -> (r: Option<Claims>)
        ensures
            r == claims_from_parts(iat, exp),
    {
        match (iat, exp) {
            (Some(i), Some(e)) => Some(Claims { iat: i, exp: e }),
            _ => None,
        }
    }

    /// The expiry of a token whose claims were read as `claims`: a token
    /// without readable claims counts as expired at 0.
    pub fn expires_at(claims: Option<Claims>) -> (r: u64)
        ensures
            r == expiry_or_zero(claims),
    {
        match claims {
            Some(c) => c.exp,
            None => 0,
        }
    }

    /// The time of issue of a token whose claims were read as `claims`: a
    /// token without readable claims counts as issued at 0.
    pub fn issued_at(claims: Option<Claims>) -> (r: u64)
        ensures
            r == issue_or_zero(claims),
    {
        match claims {
            Some(c) => c.iat,
            None => 0,
        }
    }

    /// Reads the time claims of an access token without checking its
    /// signature.
    pub fn decode(access_token: &str) -> (r: Option<Claims>)
        ensures
            r == token_claims(access_token@),
    {
        match decode_unverified(access_token) {
            Ok(doc) => Claims::from_parts(read_unsigned(&doc, "iat"), read_unsigned(&doc, "exp")),
            Err(_) => None,
        }
    }
}

/// Reads the unsigned number under `name` in a document.
pub fn read_unsigned(doc: &serde_json::Value, name: &str) -> (r: Option<u64>)
    ensures
        r == unsigned_claim(*doc, name@),
{
    match member(doc, name) {
        Some(m) => as_unsigned(m),
        None => None,
    }
}

} // verus!
