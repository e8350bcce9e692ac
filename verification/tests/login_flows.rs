use argon2::password_hash::{PasswordHasher, SaltString};
use smolcloud::auth::{
    finish_grant, try_login, AuthError, KvOutcome, RefreshFlow, RefreshStep,
};
use smolcloud::bindings::{KvError, SecretError};
use smolcloud::jwt::{Audience, Claims};
use smolcloud::models::login::{LoginRequest, LoginResponse, TokenType};
use std::collections::HashMap;

fn hash_of(password: &str) -> String {
    let salt = SaltString::from_b64("YWJjZGVmZ2hpamtsbW5vcA").unwrap();
    argon2::Argon2::default().hash_password(password.as_bytes(), &salt).unwrap().to_string()
}

fn request(username: &str, password: &str) -> LoginRequest {
    LoginRequest { username: username.to_string(), password: password.to_string() }
}

fn kv_error() -> KvError {
    KvError { message: "kv failed".to_string() }
}

#[test]
fn login_with_right_credentials_issues_a_pair() {
    let hash = hash_of("hunter2");
    let grant = try_login("alice", &hash, "acc", "ref", request("alice", "hunter2")).unwrap().ok().unwrap();
    assert_eq!(grant.access_claims.sub, "alice");
    assert_eq!(grant.refresh_claims.aud, "refresh");
    assert_eq!(grant.whitelist.key, grant.refresh_claims.jti);
    assert_eq!(grant.whitelist.expiration, grant.refresh_claims.exp);
    assert!(grant.whitelist.value.is_empty());
    assert_eq!(grant.response.token_type, TokenType::Bearer);
    assert_eq!(
        Claims::decode(&grant.response.access_token, Audience::Access, "acc").ok(),
        Some(grant.access_claims.to_json())
    );
    assert_eq!(
        Claims::decode(&grant.response.refresh_token, Audience::Refresh, "ref").ok(),
        Some(grant.refresh_claims.to_json())
    );
}

#[test]
fn login_with_wrong_credentials_is_refused() {
    let hash = hash_of("hunter2");
    assert!(matches!(
        try_login("alice", &hash, "a", "r", request("alice", "wrong")),
        Some(Err(AuthError::WrongCredentials))
    ));
    assert!(matches!(
        try_login("alice", &hash, "a", "r", request("mallory", "hunter2")),
        Some(Err(AuthError::WrongCredentials))
    ));
}

#[test]
fn login_with_malformed_hash_is_not_attempted() {
    assert!(try_login("alice", "not a phc string", "a", "r", request("alice", "x")).is_none());
}

#[test]
fn login_answer_waits_for_the_whitelist() {
    let hash = hash_of("pw");
    let grant = try_login("u", &hash, "a", "r", request("u", "pw")).unwrap().ok().unwrap();
    assert!(matches!(finish_grant(grant, Err(kv_error())), Err(AuthError::KvStore(_))));
    let grant = try_login("u", &hash, "a", "r", request("u", "pw")).unwrap().ok().unwrap();
    let token = grant.response.access_token.clone();
    assert_eq!(finish_grant(grant, Ok(())).ok().unwrap().access_token, token);
}

fn presented() -> Claims {
    Claims::issue(Audience::Refresh, "alice".to_string(), 1_700_000_000, "old-jti".to_string())
}

#[test]
fn refresh_without_secret_ends_at_once() {
    let (_, step) = RefreshFlow::start(presented(), Ok("acc".to_string()), Err(SecretError { message: "x".to_string() }));
    assert!(matches!(step, RefreshStep::Done(Err(AuthError::Secret(_)))));
    let (_, step) = RefreshFlow::start(presented(), Err(SecretError { message: "y".to_string() }), Ok("ref".to_string()));
    match step {
        RefreshStep::Done(Err(AuthError::Secret(e))) => assert_eq!(e.message, "y"),
        _ => panic!("expected the missing access secret"),
    }
}

#[test]
fn refresh_of_a_revoked_token_is_refused() {
    let (flow, step) = RefreshFlow::start(presented(), Ok("acc".to_string()), Ok("ref".to_string()));
    match step {
        RefreshStep::Get { key } => assert_eq!(key, "old-jti"),
        _ => panic!("expected a lookup"),
    }
    let (_, step) = flow.step(KvOutcome::Got(Ok(None)));
    assert!(matches!(step, RefreshStep::Done(Err(AuthError::JwtRevoked))));
}

#[test]
fn refresh_store_failures_end_the_flow() {
    let (flow, _) = RefreshFlow::start(presented(), Ok("acc".to_string()), Ok("ref".to_string()));
    let (_, step) = flow.step(KvOutcome::Got(Err(kv_error())));
    assert!(matches!(step, RefreshStep::Done(Err(AuthError::KvStore(_)))));

    let (flow, _) = RefreshFlow::start(presented(), Ok("acc".to_string()), Ok("ref".to_string()));
    let (flow, _) = flow.step(KvOutcome::Got(Ok(Some(vec![]))));
    let (_, step) = flow.step(KvOutcome::Stored(Err(kv_error())));
    assert!(matches!(step, RefreshStep::Done(Err(AuthError::KvStore(_)))));

    let (flow, _) = RefreshFlow::start(presented(), Ok("acc".to_string()), Ok("ref".to_string()));
    let (flow, _) = flow.step(KvOutcome::Got(Ok(Some(b"next".to_vec()))));
    let (_, step) = flow.step(KvOutcome::Deleted(Err(kv_error())));
    assert!(matches!(step, RefreshStep::Done(Err(AuthError::KvStore(_)))));
}

#[test]
fn refresh_exchanges_the_token() {
    let (flow, _) = RefreshFlow::start(presented(), Ok("acc".to_string()), Ok("ref".to_string()));
    let (flow, step) = flow.step(KvOutcome::Got(Ok(Some(vec![]))));
    let mark = match step {
        RefreshStep::Put(p) => p,
        _ => panic!("expected the presented token to be marked used"),
    };
    assert_eq!(mark.key, "old-jti");
    let (flow, step) = flow.step(KvOutcome::Stored(Ok(())));
    let put = match step {
        RefreshStep::Put(p) => p,
        _ => panic!("expected a put"),
    };
    assert_ne!(put.key, "old-jti");
    assert!(put.value.is_empty());
    assert_eq!(mark.value, put.key.as_bytes());
    assert_eq!(mark.expiration, put.expiration);
    let (_, step) = flow.step(KvOutcome::Stored(Ok(())));
    let response = match step {
        RefreshStep::Done(Ok(r)) => r,
        _ => panic!("expected the new pair"),
    };
    let access = Claims::decode(&response.access_token, Audience::Access, "acc").ok().unwrap();
    assert!(Claims::decode(&response.access_token, Audience::Access, "ref").is_err());
    assert!(access.contains("\"sub\":\"alice\""));
    let refresh = Claims::decode(&response.refresh_token, Audience::Refresh, "ref").ok().unwrap();
    assert!(refresh.contains(&format!("\"jti\":\"{}\"", put.key)));
    assert!(refresh.contains(&format!("\"exp\":{}", put.expiration)));
}

#[test]
fn refresh_whitelist_failure_withholds_the_pair() {
    let (flow, _) = RefreshFlow::start(presented(), Ok("acc".to_string()), Ok("ref".to_string()));
    let (flow, _) = flow.step(KvOutcome::Got(Ok(Some(vec![]))));
    let (flow, _) = flow.step(KvOutcome::Stored(Ok(())));
    let (_, step) = flow.step(KvOutcome::Stored(Err(kv_error())));
    assert!(matches!(step, RefreshStep::Done(Err(AuthError::KvStore(_)))));
}

/// Runs a refresh of the token id `jti` against an in-memory store, and
/// gives back the answer and the new refresh token id, if any.
fn refresh_in(store: &mut HashMap<String, Vec<u8>>, jti: &str) -> (Result<LoginResponse, AuthError>, Option<String>) {
    let claims = Claims::issue(Audience::Refresh, "alice".to_string(), now(), jti.to_string());
    let (mut flow, mut step) = RefreshFlow::start(claims, Ok("acc".to_string()), Ok("ref".to_string()));
    let mut issued = None;
    loop {
        let outcome = match step {
            RefreshStep::Get { key } => KvOutcome::Got(Ok(store.get(&key).cloned())),
            RefreshStep::Delete { key } => {
                store.remove(&key);
                KvOutcome::Deleted(Ok(()))
            }
            RefreshStep::Put(entry) => {
                if entry.value.is_empty() {
                    issued = Some(entry.key.clone());
                }
                store.insert(entry.key, entry.value);
                KvOutcome::Stored(Ok(()))
            }
            RefreshStep::Done(answer) => return (answer, issued),
        };
        (flow, step) = flow.step(outcome);
    }
}

fn now() -> u64 {
    std::time::SystemTime::now().duration_since(std::time::UNIX_EPOCH).unwrap().as_secs()
}

#[test]
fn refresh_token_is_usable_once() {
    let mut store = HashMap::new();
    store.insert("r1".to_string(), vec![]);
    let (answer, r2) = refresh_in(&mut store, "r1");
    assert!(answer.is_ok());
    let r2 = r2.unwrap();
    assert_eq!(store.get("r1"), Some(&r2.as_bytes().to_vec()));
    assert_eq!(store.get(&r2), Some(&vec![]));
    let (answer, _) = refresh_in(&mut store, "r1");
    assert!(matches!(answer, Err(AuthError::JwtRevoked)));
}

#[test]
fn reusing_a_refresh_token_revokes_the_newer_ones() {
    let mut store = HashMap::new();
    store.insert("r1".to_string(), vec![]);
    let (_, r2) = refresh_in(&mut store, "r1");
    let r2 = r2.unwrap();
    let (_, r3) = refresh_in(&mut store, &r2);
    let r3 = r3.unwrap();
    store.insert("other".to_string(), vec![]);
    let (answer, issued) = refresh_in(&mut store, "r1");
    assert!(matches!(answer, Err(AuthError::JwtRevoked)));
    assert!(issued.is_none());
    assert!(!store.contains_key("r1"));
    assert!(!store.contains_key(&r2));
    assert!(!store.contains_key(&r3));
    assert!(store.contains_key("other"));
    let (answer, _) = refresh_in(&mut store, &r3);
    assert!(matches!(answer, Err(AuthError::JwtRevoked)));
}

#[test]
fn access_token_is_not_a_refresh_token() {
    let hash = hash_of("pw");
    let grant = try_login("u", &hash, "k", "k", request("u", "pw")).unwrap().ok().unwrap();
    assert!(matches!(
        Claims::decode(&grant.response.access_token, Audience::Refresh, "k"),
        Err(smolcloud::jwt::JwtError::InvalidAudience)
    ));
    assert!(matches!(
        Claims::decode(&grant.response.refresh_token, Audience::Access, "k"),
        Err(smolcloud::jwt::JwtError::InvalidAudience)
    ));
}
