//! IBM Cloud IAM as an identity provider: the token request for an API key,
//! and what the answer to it means.

use vstd::prelude::*;
use vstd::string::StringExecFns;
use std::collections::HashMap;
use crate::cache::Cache;
use crate::claims::{as_text, decode_unverified, json_member, jwt_claims, member, text_claim};
use crate::provider::{cache_after, delay_after, outcome_view, settle, Provider, RefreshError};
use crate::token::{Token, TokenView};

verus! {

/// The status with which the provider answers a token request that it grants.
pub const STATUS_OK: u16 = 200;

/// Plain text of each of a run of strings.
pub open spec fn texts(strings: Seq<String>) -> Seq<Seq<char>> {
    strings.map_values(|s: String| s@)
}

/// The address that a token request for `api_key` goes to.
pub open spec fn token_url(base: Seq<char>, api_key: Seq<char>) -> Seq<char> {
    base + "/identity/token?apikey="@ + api_key
        + "&grant_type=urn:ibm:params:oauth:grant-type:apikey&response_type=cloud_iam"@
}

/// An IBM Cloud IAM endpoint with the API keys to keep tokens for.
#[derive(Debug)]
pub struct IBM {
    name: String,
    api_keys: Vec<String>,
    url: String,
}

/// The production endpoint of IBM Cloud IAM with these API keys.
pub fn new_provider(api_keys: Vec<String>) -> (r: IBM)
    ensures
        r.name_text() == "IBM"@,
        r.url_text() == "https://iam.cloud.ibm.com"@,
        r.key_texts() == texts(api_keys@),
{
    IBM { name: "IBM".to_owned(), api_keys, url: "https://iam.cloud.ibm.com".to_owned() }
}

/// The test endpoint of IBM Cloud IAM with these API keys.
pub fn new_test_provider(api_keys: Vec<String>) -> (r: IBM)
    ensures
        r.name_text() == "IBM Test"@,
        r.url_text() == "https://iam.test.cloud.ibm.com"@,
        r.key_texts() == texts(api_keys@),
{
    IBM { name: "IBM Test".to_owned(), api_keys, url: "https://iam.test.cloud.ibm.com".to_owned() }
}

impl Provider for IBM {
    closed spec fn name_text(&self) -> Seq<char> {
        self.name@
    }

    closed spec fn key_texts(&self) -> Seq<Seq<char>> {
        texts(self.api_keys@)
    }

    closed spec fn url_text(&self) -> Seq<char> {
        self.url@
    }

    fn api_keys(&self) -> (r: Vec<String>) {
        let mut keys: Vec<String> = Vec::new();
        let mut i: usize = 0;
        while i < self.api_keys.len()
            invariant
                i <= self.api_keys@.len(),
                keys@.len() == i,
                forall|k: int| 0 <= k < i ==> (#[trigger] keys@[k])@ == self.api_keys@[k]@,
            decreases self.api_keys@.len() - i,
        {
            keys.push(self.api_keys[i].clone());
            i += 1;
        }
        keys
    }

    fn name(&self) -> (r: String) {
        self.name.clone()
    }

    fn url(&self) -> (r: String) {
        self.url.clone()
    }
}

/// The body with which the provider answers a token request. Every field may
/// be missing.
#[derive(Debug)]
pub struct IdentityTokenResponse {
    pub error_code: Option<String>,
    pub error_message: Option<String>,
    pub context: Option<HashMap<String, String>>,
    pub access_token: Option<String>,
    pub refresh_token: Option<String>,
    pub token_type: Option<String>,
    pub expires_in: Option<u64>,
    pub expiration: Option<u64>,
    pub scope: Option<String>,
}

/// A token request as it is to be sent.
#[derive(Debug)]
pub struct TokenRequest {
    /// The HTTP method.
    pub method: String,
    /// The full address, query included.
    pub url: String,
    /// The value of the `Accept` header.
    pub accept: String,
    /// The value of the `Content-Type` header.
    pub content_type: String,
}

/// The request that asks the endpoint at `url` for a token for `api_key`: a
/// `POST` that sends form-encoded parameters and expects JSON.
pub fn token_request(url: &str, api_key: &str) -> (r: TokenRequest)
    ensures
        r.method@ == "POST"@,
        r.url@ == token_url(url@, api_key@),
        r.accept@ == "application/json"@,
        r.content_type@ == "application/x-www-form-urlencoded"@,
{
    let mut full_url = url.to_owned();
    full_url.append("/identity/token?apikey=");
    full_url.append(api_key);
    full_url.append("&grant_type=urn:ibm:params:oauth:grant-type:apikey&response_type=cloud_iam");
    TokenRequest {
        method: "POST".to_owned(),
        url: full_url,
        accept: "application/json".to_owned(),
        content_type: "application/x-www-form-urlencoded".to_owned(),
    }
}

/// What came back from one token request.
#[derive(Debug)]
pub enum ProviderReply {
    /// Nothing: the request did not get through, or the answer could not be
    /// read.
    Unreachable,
    /// An answer with this status. `body` is the parsed body; it is `None`
    /// where the body is not a token response.
    Answered { status: u16, body: Option<IdentityTokenResponse> },
}

/// The identity that an access token was issued to: the text under `bss` in
/// the `account` claim. `None` where the token cannot be taken apart or holds
/// no such text.
pub open spec fn subject_of(access_token: Seq<char>) -> Option<Seq<char>> {
    match jwt_claims(access_token) {
        Some(doc) => match json_member(doc, "account"@) {
            Some(account) => text_claim(account, "bss"@),
            None => None,
        },
        None => None,
    }
}

/// What the two tokens of an answer come to, given the identity read from the
/// access token.
pub open spec fn token_outcome(
    access_token: Seq<char>,
    refresh_token: Seq<char>,
    subject: Option<Seq<char>>,
) -> Result<TokenView, RefreshError> {
    match subject {
        Some(id) => Ok(TokenView { id, access_token, refresh_token }),
        None => Err(RefreshError::ClaimsDecode),
    }
}

/// What a reply comes to. Only an answer with status 200 whose body holds
/// both tokens, the access token naming an identity, yields a token.
pub open spec fn reply_outcome(reply: ProviderReply) -> Result<TokenView, RefreshError> {
    match reply {
        ProviderReply::Unreachable => Err(RefreshError::Transport),
        ProviderReply::Answered { status, body } => if status != STATUS_OK {
            Err(RefreshError::Protocol(status))
        } else {
            match body {
                Some(IdentityTokenResponse {
                    access_token: Some(access_token),
                    refresh_token: Some(refresh_token),
                    ..
                }) => token_outcome(access_token@, refresh_token@, subject_of(access_token@)),
                _ => Err(RefreshError::Decode),
            }
        },
    }
}

/// Reads the identity that an access token was issued to, without checking
/// the token's signature.
pub fn decode_subject(access_token: &str) -> (r: Option<String>)
    ensures
        subject_of(access_token@) == match r {
            Some(id) => Some(id@),
            None => None,
        },
{
    match decode_unverified(access_token) {
        Ok(doc) => match member(&doc, "account") {
            Some(account) => match member(account, "bss") {
                Some(bss) => match as_text(bss) {
                    Some(id) => Some(id.to_owned()),
                    None => None,
                },
                None => None,
            },
            None => None,
        },
        Err(_) => None,
    }
}

/// Builds the token of an answer that held both tokens, given the identity
/// read from the access token; without an identity there is no token.
pub fn build_token(access_token: String, refresh_token: String, subject: Option<String>) -> (r: Result<Token, RefreshError>)
    ensures
        outcome_view(r) == token_outcome(
            access_token@,
            refresh_token@,
            match subject {
                Some(id) => Some(id@),
                None => None,
            },
        ),
{
    match subject {
        Some(id) => Ok(Token::new(id, access_token, refresh_token)),
        None => Err(RefreshError::ClaimsDecode),
    }
}

/// Says what a reply comes to: a new token, or the reason there is none.
pub fn classify(reply: ProviderReply) -> (r: Result<Token, RefreshError>)
    ensures
        outcome_view(r) == reply_outcome(reply),
{
    match reply {
        ProviderReply::Unreachable => Err(RefreshError::Transport),
        ProviderReply::Answered { status, body } => {
            if status != STATUS_OK {
                return Err(RefreshError::Protocol(status));
            }
            match body {
                Some(response) => match response.access_token {
                    Some(access_token) => match response.refresh_token {
                        Some(refresh_token) => {
                            let subject = decode_subject(access_token.as_str());
                            build_token(access_token, refresh_token, subject)
                        },
                        None => Err(RefreshError::Decode),
                    },
                    None => Err(RefreshError::Decode),
                },
                None => Err(RefreshError::Decode),
            }
        },
    }
}

/// Completes one refresh attempt for an API key: a granted token is stored
/// under its identity, anything else leaves the cache as it was. The result
/// is the number of seconds to rest before the next attempt.
pub fn refresh_api_key(cache: &mut Cache, reply: ProviderReply, token_refresh_seconds: u64) -> (r: u64)
    ensures
        final(cache)@ == cache_after(old(cache)@, reply_outcome(reply)),
        r == delay_after(reply_outcome(reply), token_refresh_seconds),
{
    let outcome = classify(reply);
    settle(cache, outcome, token_refresh_seconds)
}

} // verus!
