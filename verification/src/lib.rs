//! Keeps a fresh access token in memory for every configured credential.
//!
//! The crate holds the decisions of the token engine: what a provider's answer
//! to a token request means, what it does to the cache, and how long the
//! credential then rests. Sending the request, sleeping and serving the cache
//! to other processes are left to the program that drives it.

pub mod cache;
pub mod claims;
pub mod ibm;
pub mod provider;
pub mod token;
pub mod token_manager;
