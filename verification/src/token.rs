//! The token that is kept for one identity.

use vstd::prelude::*;
use crate::claims::{expiry_or_zero, issue_or_zero, token_claims, Claims};

verus! {

/// What a [`Token`] holds, as plain text.
pub struct TokenView {
    /// The identity the token was issued to.
    pub id: Seq<char>,
    /// The bearer credential.
    pub access_token: Seq<char>,
    /// The credential the provider issued for renewal.
    pub refresh_token: Seq<char>,
}

/// An access token together with the identity it belongs to. A token never
/// changes once built: a later refresh builds a new one.
#[derive(Debug)]
pub struct Token {
    id: String,
    access_token: String,
    refresh_token: String,
}

impl View for Token {
    type V = TokenView;

    closed spec fn view(&self) -> TokenView {
        TokenView {
            id: self.id@,
            access_token: self.access_token@,
            refresh_token: self.refresh_token@,
        }
    }
}

/// The expiry that a token's access credential encodes, and 0 where it
/// encodes none.
pub open spec fn expiry_of(access_token: Seq<char>) -> u64 {
    expiry_or_zero(token_claims(access_token))
}

/// The time of issue that a token's access credential encodes, and 0 where it
/// encodes none.
pub open spec fn issued_at_of(access_token: Seq<char>) -> u64 {
    issue_or_zero(token_claims(access_token))
}

impl Clone for Token {
    /// A token with the same identity and credentials.
    fn clone(&self) -> (r: Token)
        ensures
            r@ == self@,
    {
        Token {
            id: self.id.clone(),
            access_token: self.access_token.clone(),
            refresh_token: self.refresh_token.clone(),
        }
    }
}

impl Token {
    /// The token of `id` with its two credentials.
    pub fn new(id: String, access_token: String, refresh_token: String) -> (r: Token)
        ensures
            r@ == (TokenView { id: id@, access_token: access_token@, refresh_token: refresh_token@ }),
    {
        Token { id, access_token, refresh_token }
    }

    /// The identity the token was issued to, without giving up the token.
    pub fn identity(&self) -> (r: &String)
        ensures
            r@ == self@.id,
    {
        &self.id
    }

    /// The identity the token was issued to.
    pub fn id(self) -> (r: String)
        ensures
            r@ == self@.id,
    {
        self.id
    }

    /// The bearer credential.
    pub fn access_token(self) -> (r: String)
        ensures
            r@ == self@.access_token,
    {
        self.access_token
    }

    /// The credential that the provider issued for renewal.
    pub fn refresh_token(self) -> (r: String)
        ensures
            r@ == self@.refresh_token,
    {
        self.refresh_token
    }

    /// The expiry in unix seconds, read from the access credential's claims.
    /// A credential whose claims cannot be read gives 0.
    pub fn exp(self) -> (r: u64)
        ensures
            r == expiry_of(self@.access_token),
    {
        Claims::expires_at(Claims::decode(self.access_token.as_str()))
    }

    /// The time of issue in unix seconds, read from the access credential's
    /// claims. A credential whose claims cannot be read gives 0.
    pub fn iat(self) -> (r: u64)
        ensures
            r == issued_at_of(self@.access_token),
    {
        Claims::issued_at(Claims::decode(self.access_token.as_str()))
    }
}

} // verus!
