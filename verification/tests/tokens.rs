use smolcloud::auth::{authorization_value, find_bearer_token, AuthError, ExtractAccessToken, ExtractRefreshToken};
use smolcloud::bindings::{KvError, SecretError};
use smolcloud::jwt::{Audience, Claims, JwtError};

fn claims(sub: &str, aud: Audience, now: u64, jti: &str) -> Claims {
    Claims::issue(aud, sub.to_string(), now, jti.to_string())
}

#[test]
fn audience_texts_and_lifetimes() {
    assert_eq!(Audience::Access.to_string(), "access");
    assert_eq!(Audience::Refresh.to_string(), "refresh");
    assert_eq!(Audience::Access.lifetime_secs(), 600);
    assert_eq!(Audience::Refresh.lifetime_secs(), 12 * 60 * 60);
}

#[test]
fn issued_claims_expire_after_their_lifetime() {
    let c = claims("alice", Audience::Access, 1_700_000_000, "j");
    assert_eq!(c.iat, 1_700_000_000);
    assert_eq!(c.exp, 1_700_000_600);
    assert_eq!(c.aud, "access");
    let c = claims("alice", Audience::Refresh, 1_700_000_000, "j");
    assert_eq!(c.exp, 1_700_043_200);
    let c = claims("alice", Audience::Refresh, u64::MAX - 10, "j");
    assert_eq!(c.exp, 43_189);
}

#[test]
fn fresh_claims() {
    let c = Claims::new(Audience::Refresh, "bob".to_string());
    assert_eq!(c.sub, "bob");
    assert_eq!(c.aud, "refresh");
    assert_eq!(c.exp, c.iat + 43_200);
    assert_eq!(c.jti.len(), 36);
    assert_eq!(&c.jti[14..15], "4");
    let d = Claims::new(Audience::Refresh, "bob".to_string());
    assert_ne!(c.jti, d.jti);
}

#[test]
fn claims_json_layout() {
    let c = claims("al\"ice\\\n\u{1}é", Audience::Access, 5, "id");
    assert_eq!(
        c.to_json(),
        "{\"sub\":\"al\\\"ice\\\\\\n\\u0001é\",\"aud\":\"access\",\"exp\":605,\"iat\":5,\"jti\":\"id\"}"
    );
}

#[test]
fn encoded_token_verifies_and_gives_back_its_claims() {
    let c = Claims::new(Audience::Access, "alice".to_string());
    let token = c.encode("s3cret").ok().unwrap();
    assert_eq!(token.split('.').count(), 3);
    let payload = Claims::decode(&token, Audience::Access, "s3cret").ok().unwrap();
    assert_eq!(payload, c.to_json());
}

#[test]
fn encoding_is_deterministic() {
    let c = claims("alice", Audience::Access, 1_700_000_000, "j");
    assert_eq!(c.encode("k").ok().unwrap(), c.encode("k").ok().unwrap());
    assert_ne!(c.encode("k").ok().unwrap(), c.encode("other").ok().unwrap());
}

#[test]
fn decode_rejects_wrong_secret_audience_and_expired_tokens() {
    let c = Claims::new(Audience::Access, "alice".to_string());
    let token = c.encode("s3cret").ok().unwrap();
    assert_eq!(Claims::decode(&token, Audience::Access, "wrong").err(), Some(JwtError::InvalidSignature));
    assert_eq!(Claims::decode(&token, Audience::Refresh, "s3cret").err(), Some(JwtError::InvalidAudience));
    let old = claims("alice", Audience::Access, 1000, "j").encode("s3cret").ok().unwrap();
    assert_eq!(Claims::decode(&old, Audience::Access, "s3cret").err(), Some(JwtError::ExpiredSignature));
    assert_eq!(Claims::decode("garbage", Audience::Access, "s3cret").err(), Some(JwtError::InvalidToken));
}

#[test]
fn bearer_header_parsing() {
    assert_eq!(find_bearer_token("Bearer abc", false), Some("abc"));
    assert_eq!(find_bearer_token("bearer abc", false), None);
    assert_eq!(find_bearer_token("bearer abc", true), Some("abc"));
    assert_eq!(find_bearer_token("BEARER a b", true), Some("a b"));
    assert_eq!(find_bearer_token("Bearer", false), None);
    assert_eq!(find_bearer_token("Basic abc", true), None);
    assert_eq!(find_bearer_token("Bearer ", false), Some(""));
}

#[test]
fn authorization_value_round_trip() {
    let v = authorization_value("tok.en.sig");
    assert_eq!(v, "Bearer tok.en.sig");
    assert_eq!(find_bearer_token(&v, false), Some("tok.en.sig"));
    assert_eq!(find_bearer_token(&v, true), Some("tok.en.sig"));
}

#[test]
fn access_request_checks() {
    let missing = SecretError { message: "no secret".to_string() };
    assert!(matches!(ExtractAccessToken::verify_request(Err(missing), Some("Bearer x")), Err(AuthError::Secret(_))));
    assert!(matches!(ExtractAccessToken::verify_request(Ok("k".to_string()), None), Err(AuthError::JwtNotFound)));
    assert!(matches!(
        ExtractAccessToken::verify_request(Ok("k".to_string()), Some("bearer x")),
        Err(AuthError::JwtNotFound)
    ));
    assert!(matches!(
        ExtractAccessToken::verify_request(Ok("k".to_string()), Some("Bearer x")),
        Err(AuthError::Jwt(JwtError::InvalidToken))
    ));
    let c = Claims::new(Audience::Access, "alice".to_string());
    let header = authorization_value(&c.encode("k").ok().unwrap());
    assert_eq!(ExtractAccessToken::verify_request(Ok("k".to_string()), Some(&header)).ok(), Some(c.to_json()));
}

#[test]
fn refresh_request_checks() {
    let c = Claims::new(Audience::Refresh, "alice".to_string());
    let token = c.encode("k").ok().unwrap();
    let header = format!("bEaReR {}", token);
    assert_eq!(ExtractRefreshToken::verify_request(Ok("k".to_string()), Some(&header)).ok(), Some(c.to_json()));
    let access = Claims::new(Audience::Access, "alice".to_string()).encode("k").ok().unwrap();
    let header = authorization_value(&access);
    assert!(matches!(
        ExtractRefreshToken::verify_request(Ok("k".to_string()), Some(&header)),
        Err(AuthError::Jwt(JwtError::InvalidAudience))
    ));
}

#[test]
fn auth_error_statuses() {
    assert_eq!(AuthError::WrongCredentials.status(), 401);
    assert_eq!(AuthError::Secret(SecretError { message: String::new() }).status(), 500);
    assert_eq!(AuthError::KvStore(KvError { message: String::new() }).status(), 500);
    assert_eq!(AuthError::Jwt(JwtError::ExpiredSignature).status(), 401);
    assert_eq!(AuthError::JwtNotFound.status(), 401);
    assert_eq!(AuthError::JwtRevoked.status(), 401);
    assert_eq!(AuthError::Other(String::new()).status(), 500);
}

#[test]
fn fresh_claims_are_issued_at_the_current_time() {
    let before = std::time::SystemTime::now().duration_since(std::time::UNIX_EPOCH).unwrap().as_secs();
    let c = Claims::new(Audience::Access, "alice".to_string());
    let after = std::time::SystemTime::now().duration_since(std::time::UNIX_EPOCH).unwrap().as_secs();
    assert!(before <= c.iat && c.iat <= after);
}

#[test]
fn claims_json_escapes_as_serde_json_does() {
    let mut tricky = String::new();
    for code in 0u32..0x80 {
        tricky.push(char::from_u32(code).unwrap());
    }
    tricky.push_str("é€😀\u{2028}");
    let c = claims(&tricky, Audience::Refresh, u64::MAX, &tricky);
    let expected = format!(
        "{{\"sub\":{},\"aud\":{},\"exp\":{},\"iat\":{},\"jti\":{}}}",
        serde_json::to_string(&c.sub).unwrap(),
        serde_json::to_string(&c.aud).unwrap(),
        serde_json::to_string(&c.exp).unwrap(),
        serde_json::to_string(&c.iat).unwrap(),
        serde_json::to_string(&c.jti).unwrap(),
    );
    assert_eq!(c.to_json(), expected);
}
