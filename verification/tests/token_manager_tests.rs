use iam_token_manager::cache::Cache;
use iam_token_manager::ibm::{new_provider, new_test_provider};
use iam_token_manager::provider::Provider;
use iam_token_manager::token::Token;
use iam_token_manager::token_manager::{get_token, get_tokens, QueryReply, TokenManager};

fn keys(names: &[&str]) -> Vec<String> {
    names.iter().map(|k| k.to_string()).collect()
}

fn token(id: &str, access: &str) -> Token {
    Token::new(id.to_string(), access.to_string(), "refresh".to_string())
}

#[test]
fn manager_keeps_its_configuration() {
    let manager = TokenManager::new(Vec::new(), 8080, 1800);
    assert_eq!(manager.listen_port(), 8080);
    assert_eq!(manager.token_refresh_seconds(), 1800);
}

#[test]
fn port_zero_means_no_query_surface() {
    assert!(!TokenManager::new(Vec::new(), 0, 1800).serves_queries());
    assert!(TokenManager::new(Vec::new(), 1, 1800).serves_queries());
    assert!(TokenManager::new(Vec::new(), 8080, 1800).serves_queries());
    assert!(TokenManager::new(Vec::new(), u16::MAX, 1800).serves_queries());
}

#[test]
fn no_providers_no_jobs() {
    assert!(TokenManager::new(Vec::new(), 0, 1800).jobs().is_empty());
}

#[test]
fn provider_without_keys_has_no_jobs() {
    let providers: Vec<Box<dyn Provider>> = vec![Box::new(new_provider(Vec::new()))];
    assert!(TokenManager::new(providers, 0, 1800).jobs().is_empty());
}

#[test]
fn one_job_for_each_key_of_each_provider() {
    let providers: Vec<Box<dyn Provider>> = vec![
        Box::new(new_provider(keys(&["asdf", "bger"]))),
        Box::new(new_provider(Vec::new())),
        Box::new(new_test_provider(keys(&["zzzzz"]))),
    ];
    let jobs = TokenManager::new(providers, 0, 1800).jobs();
    assert_eq!(jobs.len(), 3);
    assert_eq!(jobs[0].provider, "IBM");
    assert_eq!(jobs[0].url, "https://iam.cloud.ibm.com");
    assert_eq!(jobs[0].api_key, "asdf");
    assert_eq!(jobs[1].provider, "IBM");
    assert_eq!(jobs[1].url, "https://iam.cloud.ibm.com");
    assert_eq!(jobs[1].api_key, "bger");
    assert_eq!(jobs[2].provider, "IBM Test");
    assert_eq!(jobs[2].url, "https://iam.test.cloud.ibm.com");
    assert_eq!(jobs[2].api_key, "zzzzz");
}

#[test]
fn repeated_key_gets_a_job_each_time() {
    let providers: Vec<Box<dyn Provider>> = vec![Box::new(new_provider(keys(&["k", "k"])))];
    let jobs = TokenManager::new(providers, 0, 1800).jobs();
    assert_eq!(jobs.len(), 2);
    assert_eq!(jobs[0].api_key, "k");
    assert_eq!(jobs[1].api_key, "k");
}

#[test]
fn unknown_identity_is_not_found() {
    let mut cache = Cache::new();
    let reply = get_token("nonexistent", &cache);
    assert!(matches!(reply, QueryReply::NotFound));
    assert_eq!(reply.status(), 404);
    cache.store(token("a", "a-1"));
    let reply = get_token("nonexistent", &cache);
    assert!(matches!(reply, QueryReply::NotFound));
    assert_eq!(reply.status(), 404);
}

#[test]
fn known_identity_is_found() {
    let mut cache = Cache::new();
    cache.store(token("a", "a-1"));
    cache.store(token("b", "b-1"));
    let reply = get_token("b", &cache);
    assert_eq!(reply.status(), 200);
    match reply {
        QueryReply::Found(found) => {
            assert_eq!(found.clone().id(), "b");
            assert_eq!(found.access_token(), "b-1");
        }
        other => panic!("unexpected reply {:?}", other),
    }
}

#[test]
fn all_tokens_of_an_empty_cache_is_an_empty_list() {
    let reply = get_tokens(&Cache::new());
    assert_eq!(reply.status(), 200);
    match reply {
        QueryReply::Tokens(tokens) => assert!(tokens.is_empty()),
        other => panic!("unexpected reply {:?}", other),
    }
}

#[test]
fn all_tokens_has_one_entry_for_each_identity() {
    let mut cache = Cache::new();
    cache.store(token("a", "a-1"));
    cache.store(token("b", "b-1"));
    cache.store(token("a", "a-2"));
    let reply = get_tokens(&cache);
    assert_eq!(reply.status(), 200);
    match reply {
        QueryReply::Tokens(tokens) => {
            let mut seen: Vec<(String, String)> =
                tokens.into_iter().map(|t| (t.clone().id(), t.access_token())).collect();
            seen.sort();
            assert_eq!(
                seen,
                vec![("a".to_string(), "a-2".to_string()), ("b".to_string(), "b-1".to_string())]
            );
        }
        other => panic!("unexpected reply {:?}", other),
    }
    // the cache itself is left as it was
    assert_eq!(cache.list().len(), 2);
}
