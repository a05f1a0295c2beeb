use iam_token_manager::cache::Cache;
use iam_token_manager::provider::{settle, RefreshError, RETRY_SECONDS};
use iam_token_manager::token::Token;

fn token(id: &str, access: &str) -> Token {
    Token::new(id.to_string(), access.to_string(), "refresh".to_string())
}

#[test]
fn retry_interval_is_five_seconds() {
    assert_eq!(RETRY_SECONDS, 5);
}

#[test]
fn settle_stores_a_new_token() {
    let mut cache = Cache::new();
    assert_eq!(settle(&mut cache, Ok(token("a", "a-1")), 1800), 1800);
    assert_eq!(cache.get("a").expect("stored").access_token(), "a-1");
}

#[test]
fn settle_returns_the_configured_interval_after_a_token() {
    for interval in [0u64, 1, 4, 5, 6, 1800, u64::MAX] {
        let mut cache = Cache::new();
        assert_eq!(settle(&mut cache, Ok(token("a", "a-1")), interval), interval);
    }
}

#[test]
fn settle_returns_five_after_every_failure() {
    let errors = [
        RefreshError::Transport,
        RefreshError::Protocol(500),
        RefreshError::Decode,
        RefreshError::ClaimsDecode,
    ];
    for interval in [0u64, 1, 4, 5, 6, 1800, u64::MAX] {
        for error in errors.iter() {
            let mut cache = Cache::new();
            assert_eq!(settle(&mut cache, Err(*error), interval), 5);
            assert!(cache.list().is_empty());
        }
    }
}

#[test]
fn settle_after_a_failure_keeps_every_entry() {
    let mut cache = Cache::new();
    settle(&mut cache, Ok(token("a", "a-1")), 1800);
    settle(&mut cache, Ok(token("b", "b-1")), 1800);
    settle(&mut cache, Err(RefreshError::Transport), 1800);
    settle(&mut cache, Err(RefreshError::Protocol(404)), 1800);
    assert_eq!(cache.get("a").expect("kept").access_token(), "a-1");
    assert_eq!(cache.get("b").expect("kept").access_token(), "b-1");
    assert_eq!(cache.list().len(), 2);
}

#[test]
fn settle_twice_for_one_identity_keeps_the_second() {
    let mut cache = Cache::new();
    settle(&mut cache, Ok(token("a", "a-1")), 1800);
    settle(&mut cache, Ok(token("a", "a-2")), 1800);
    assert_eq!(cache.get("a").expect("stored").access_token(), "a-2");
    assert_eq!(cache.list().len(), 1);
}

#[test]
fn errors_compare_by_kind_and_status() {
    assert_eq!(RefreshError::Protocol(500), RefreshError::Protocol(500));
    assert_ne!(RefreshError::Protocol(500), RefreshError::Protocol(501));
    assert_ne!(RefreshError::Decode, RefreshError::ClaimsDecode);
    assert_ne!(RefreshError::Transport, RefreshError::Decode);
}
