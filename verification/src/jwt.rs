//! Token claims, their JSON payload, and signing and verifying them as
//! HS256 JSON Web Tokens with the `jsonwebtoken` crate.

use vstd::prelude::*;
use vstd::utf8::encode_utf8;
use jsonwebtoken::errors::ErrorKind;
use crate::ids::{new_v4_string, uuid_hyphenated, uuid_variant, uuid_version};
use crate::json::{json_string, push_json_string, push_json_u64};
use crate::text::decimal;

verus! {

/// Which kind of token a set of claims is for.
#[derive(Clone, Copy, PartialEq, Eq, Structural, Debug)]
pub enum Audience {
    Access,
    Refresh,
}

/// The audience claim written for each kind of token.
pub open spec fn audience_text(a: Audience) -> Seq<char> {
    match a {
        Audience::Access => "access"@,
        Audience::Refresh => "refresh"@,
    }
}

/// How long each kind of token lives, in seconds: ten minutes for an access
/// token, twelve hours for a refresh token.
pub open spec fn lifetime(a: Audience) -> u64 {
    match a {
        Audience::Access => 600,
        Audience::Refresh => 43200,
    }
}

/// The expiry of a token issued at `iat` (64-bit arithmetic, wrapping as the
/// unsigned addition of a release build does).
pub open spec fn expiry(iat: u64, a: Audience) -> u64 {
    vstd::wrapping::u64_specs::wrapping_add(iat, lifetime(a))
}

impl Audience {
    /// The audience claim text.
    pub fn as_str(&self) -> (s: &'static str)
        ensures
            s@ == audience_text(*self),
    {
        match self {
            Audience::Access => "access",
            Audience::Refresh => "refresh",
        }
    }

    /// The audience claim text as an owned string.
    pub fn to_string(&self) -> (s: String)
        ensures
            s@ == audience_text(*self),
    {
        String::from_str(self.as_str())
    }

    /// The token lifetime in seconds.
    pub fn lifetime_secs(&self) -> (r: u64)
        ensures
            r == lifetime(*self),
    {
        match self {
            Audience::Access => 600,
            Audience::Refresh => 43200,
        }
    }
}

/// The claims of a token: subject, audience, expiry and issue times (Unix
/// seconds), and a unique token id.
pub struct Claims {
    pub sub: String,
    pub aud: String,
    pub exp: u64,
    pub iat: u64,
    pub jti: String,
}

/// The JSON payload of a set of claims, as `serde_json` writes the claims
/// struct: the fields in declaration order, without spaces.
pub open spec fn claims_json_text(sub: Seq<char>, aud: Seq<char>, exp: u64, iat: u64, jti: Seq<char>) -> Seq<char> {
    "{\"sub\":"@ + json_string(sub) + ",\"aud\":"@ + json_string(aud) + ",\"exp\":"@ + decimal(exp as nat)
        + ",\"iat\":"@ + decimal(iat as nat) + ",\"jti\":"@ + json_string(jti) + "}"@
}

/// The JSON payload of `c`.
pub open spec fn claims_json(c: Claims) -> Seq<char> {
    claims_json_text(c.sub@, c.aud@, c.exp, c.iat, c.jti@)
}

/// `jti` is the text of a random (version 4) UUID.
pub open spec fn is_v4_text(jti: Seq<char>) -> bool {
    exists|u: u128| uuid_version(u) == 4 && uuid_variant(u) == 2 && jti == uuid_hyphenated(u)
}

/// Why a token could not be made or accepted: the kinds of
/// `jsonwebtoken::errors::ErrorKind` that HS256 signing and verification
/// produce; every other kind is `Other`.
#[derive(PartialEq, Eq, Debug)]
pub enum JwtError {
    InvalidToken,
    InvalidSignature,
    MissingRequiredClaim(String),
    ExpiredSignature,
    InvalidAudience,
    InvalidAlgorithm,
    Base64,
    Json,
    Other,
}

#[verifier::external_type_specification]
#[verifier::external_body]
pub struct ExJwtLibError(jsonwebtoken::errors::Error);

/// The token that `jsonwebtoken::encode` makes with the default header
/// (HS256) and the HMAC key `key` for claims whose JSON text is `payload`.
pub uninterp spec fn jwt_hs256(payload: Seq<char>, key: Seq<u8>) -> Seq<char>;

/// What `jsonwebtoken::decode` gives back for `token` with HS256
/// validation under the HMAC key `key` restricted to the audience
/// `audience`, when the expiry is not checked: the token's claims as JSON
/// text, or `None` where it refuses the token.
pub uninterp spec fn jwt_hs256_claims(token: Seq<char>, key: Seq<u8>, audience: Seq<char>) -> Option<Seq<char>>;

/// Calls `jsonwebtoken::encode` with `Header::default()` (HS256),
/// `EncodingKey::from_secret(key)` and, as the claims, the JSON text
/// `payload` taken verbatim (`serde_json::value::RawValue`). A token it makes
/// is named `jwt_hs256(payload, key)`. It fails when `payload` is not JSON
/// (`RawValue::from_string`); HS256 signing itself cannot fail
/// (`crypto::sign` of an HMAC key of any length). Stated for a payload in
/// the shape of `claims_json_text` (an object of three escaped strings and
/// two unsigned integers, valid JSON): it is signed; `decode` with the
/// default validation under the same key and an audience gives back
/// exactly that text when the audience is the payload's `aud`, and refuses
/// the token (`InvalidAudience`) otherwise, expiry aside; and under any
/// key, what `decode` gives back is the token's own payload, so it is that
/// text and only for its `aud`. Which other texts serde_json accepts is not
/// stated, nor which keys other than `key` a signature check could pass.
#[verifier::external_body]
fn sign_hs256(payload: &str, key: &[u8]) -> (r: Result<String, JwtError>)
    ensures
        (exists|sub: Seq<char>, aud: Seq<char>, exp: u64, iat: u64, jti: Seq<char>|
            payload@ == #[trigger] claims_json_text(sub, aud, exp, iat, jti)) ==> r is Ok,
        r matches Ok(t) ==> t@ == jwt_hs256(payload@, key@),
        r matches Ok(t) ==> forall|sub: Seq<char>, aud: Seq<char>, exp: u64, iat: u64, jti: Seq<char>, audience: Seq<char>|
            payload@ == #[trigger] claims_json_text(sub, aud, exp, iat, jti) ==> #[trigger] jwt_hs256_claims(t@, key@, audience)
                == (if audience == aud { Some(payload@) } else { None }),
        r matches Ok(t) ==> forall|sub: Seq<char>, aud: Seq<char>, exp: u64, iat: u64, jti: Seq<char>, other: Seq<u8>, audience: Seq<char>|
            payload@ == #[trigger] claims_json_text(sub, aud, exp, iat, jti) ==> (#[trigger] jwt_hs256_claims(t@, other, audience)
                matches Some(p) ==> p == payload@ && audience == aud),
{
    let header = jsonwebtoken::Header::default();
    match serde_json::value::RawValue::from_string(payload.to_string()) {
        Ok(claims) => jsonwebtoken::encode(&header, &claims, &jsonwebtoken::EncodingKey::from_secret(key)).map_err(jwt_error_kind),
        Err(e) => Err(jwt_error_kind(e.into())),
    }
}

/// Calls `jsonwebtoken::decode` with `Validation::default()` (HS256, the
/// `exp` claim required, expiry checked with 60 seconds of leeway, no
/// `nbf` check) restricted to the audience `audience`, under
/// `DecodingKey::from_secret(key)`, keeps the claims as their JSON text,
/// and reads a failure's kind with `jwt_error_kind`. The claims are
/// `jwt_hs256_claims` of the token, key and audience; where that is `None`
/// the call fails; where it is `Some`, every check but the expiry has
/// passed, so the call gives back those claims or fails as
/// `ExpiredSignature`. The clock is not stated.
#[verifier::external_body]
fn verify_hs256(token: &str, key: &[u8], audience: &str) -> (r: Result<String, JwtError>)
    ensures
        r matches Ok(p) ==> jwt_hs256_claims(token@, key@, audience@) == Some(p@),
        jwt_hs256_claims(token@, key@, audience@) is None ==> r is Err,
        jwt_hs256_claims(token@, key@, audience@) is Some ==> (r is Ok || r matches Err(JwtError::ExpiredSignature)),
{
    let mut validation = jsonwebtoken::Validation::default();
    validation.set_audience(&[audience]);
    let key = jsonwebtoken::DecodingKey::from_secret(key);
    let decoded = jsonwebtoken::decode::<Box<serde_json::value::RawValue>>(token, &key, &validation);
    decoded.map(|t| t.claims.get().to_string()).map_err(jwt_error_kind)
}

/// Reads the kind of a `jsonwebtoken` error (`Error::into_kind`): one
/// variant for each kind that HS256 signing and verification produce, the
/// payload of the base64 and JSON kinds dropped, `Other` for the rest. It
/// converts the errors of `sign_hs256` and `verify_hs256`, whose contracts
/// say what kind is stated.
#[verifier::external_body]
fn jwt_error_kind(e: jsonwebtoken::errors::Error) -> JwtError {
    match e.into_kind() {
        ErrorKind::InvalidToken => JwtError::InvalidToken,
        ErrorKind::InvalidSignature => JwtError::InvalidSignature,
        ErrorKind::MissingRequiredClaim(c) => JwtError::MissingRequiredClaim(c),
        ErrorKind::ExpiredSignature => JwtError::ExpiredSignature,
        ErrorKind::InvalidAudience => JwtError::InvalidAudience,
        ErrorKind::InvalidAlgorithm => JwtError::InvalidAlgorithm,
        ErrorKind::Base64(_) => JwtError::Base64,
        ErrorKind::Json(_) => JwtError::Json,
        _ => JwtError::Other,
    }
}

/// Calls `time::UtcDateTime::now().unix_timestamp()`: the current time in
/// Unix seconds. Nothing is stated of the clock.
#[verifier::external_body]
fn unix_now() -> i64 {
    time::UtcDateTime::now().unix_timestamp()
}

impl Claims {
    /// The claims of a token for `subject` issued at `now` with token id
    /// `jti`: its audience text, and an expiry `lifetime` seconds later.
    pub fn issue(audience: Audience, subject: String, now: u64, jti: String) -> (c: Claims)
        ensures
            c.sub == subject,
            c.aud@ == audience_text(audience),
            c.iat == now,
            c.exp == expiry(now, audience),
            c.jti == jti,
    {
        let exp = now.wrapping_add(audience.lifetime_secs());
        Claims { sub: subject, aud: audience.to_string(), exp, iat: now, jti }
    }

    /// Fresh claims for `subject`: issued now (the clock read as Unix seconds,
    /// reinterpreted as unsigned), expiring after the audience's lifetime,
    /// with the text of a random UUID as token id.
    pub fn new(audience: Audience, subject: String) -> (c: Claims)
        ensures
            c.sub == subject,
            c.aud@ == audience_text(audience),
            c.exp == expiry(c.iat, audience),
            is_v4_text(c.jti@),
    {
        let now = unix_now() as u64;
        let jti = new_v4_string();
        Claims::issue(audience, subject, now, jti)
    }

    /// The JSON payload of the claims.
    pub fn to_json(&self) -> (s: String)
        ensures
            s@ == claims_json(*self),
    {
        let mut s = String::new();
        s.append("{\"sub\":");
        push_json_string(&mut s, self.sub.as_str());
        s.append(",\"aud\":");
        push_json_string(&mut s, self.aud.as_str());
        s.append(",\"exp\":");
        push_json_u64(&mut s, self.exp);
        s.append(",\"iat\":");
        push_json_u64(&mut s, self.iat);
        s.append(",\"jti\":");
        push_json_string(&mut s, self.jti.as_str());
        s.append("}");
        assert(s@ =~= claims_json(*self));
        s
    }

    /// Signs the claims as an HS256 token with the secret's bytes as key;
    /// this always succeeds.
    pub fn encode(&self, secret: &str) -> (r: Result<String, JwtError>)
        ensures
            r is Ok,
            r matches Ok(t) ==> t@ == jwt_hs256(claims_json(*self), encode_utf8(secret@)),
            r matches Ok(t) ==> forall|aud: Seq<char>|
                #[trigger] jwt_hs256_claims(t@, encode_utf8(secret@), aud)
                    == (if aud == self.aud@ { Some(claims_json(*self)) } else { None }),
            r matches Ok(t) ==> forall|key: Seq<u8>, aud: Seq<char>|
                #[trigger] jwt_hs256_claims(t@, key, aud) matches Some(p) ==> p == claims_json(*self) && aud == self.aud@,
    {
        let payload = self.to_json();
        proof {
            assert(payload@ == claims_json_text(self.sub@, self.aud@, self.exp, self.iat, self.jti@));
        }
        sign_hs256(payload.as_str(), secret.as_bytes())
    }

    /// Verifies an HS256 token for `audience` under the secret's bytes and
    /// gives back its claims as JSON text; a token that passes every check
    /// but the expiry fails only as `ExpiredSignature`.
    pub fn decode(jwt: &str, audience: Audience, secret: &str) -> (r: Result<String, JwtError>)
        ensures
            match jwt_hs256_claims(jwt@, encode_utf8(secret@), audience_text(audience)) {
                Some(p) => (r matches Ok(q) && q@ == p) || r matches Err(JwtError::ExpiredSignature),
                None => r is Err,
            },
    {
        verify_hs256(jwt, secret.as_bytes(), audience.as_str())
    }
}

} // verus!
