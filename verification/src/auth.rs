//! Token-based authentication.
//!
//! A login checks the configured credentials and issues an access token and
//! a refresh token; the refresh token's id is put on a whitelist in the
//! key-value store (with an empty value), expiring with the token.
//! Presenting a whitelisted refresh token issues a new pair: the presented
//! token's entry is overwritten with the new refresh token's id, marking it
//! used, and the new refresh token is whitelisted in turn. Presenting a
//! used refresh token again revokes the tokens issued from it: its entry
//! and those of its successors are deleted, so the newer refresh token can
//! no longer be used either.

use vstd::prelude::*;
use vstd::utf8::encode_utf8;
use crate::bindings::{KvError, SecretError};
use crate::jwt::{Audience, Claims, JwtError, audience_text, claims_json, expiry, is_v4_text, jwt_hs256, jwt_hs256_claims};
use crate::models::login::{LoginRequest, LoginResponse, TokenType};
use crate::services::string_from_utf8;
use vstd::utf8::{decode_utf8, valid_utf8};
use crate::ids::new_v4_string;
use crate::text::{eq_ignore_ascii_case, split_once, str_eq, str_eq_ignore_ascii_case, str_split_once};

verus! {

/// Why a request was not authenticated or a token pair not issued.
pub enum AuthError {
    /// The username or password is wrong.
    WrongCredentials,
    /// A secret could not be read.
    Secret(SecretError),
    /// The key-value store failed.
    KvStore(KvError),
    /// A token could not be made or was not accepted.
    Jwt(JwtError),
    /// The request carries no bearer token.
    JwtNotFound,
    /// The refresh token is no longer whitelisted.
    JwtRevoked,
    /// Any other failure.
    Other(String),
}

/// The HTTP status answered for an authentication error: 401 Unauthorized
/// for what the client got wrong, 500 Internal Server Error for failures of
/// the server's own stores.
pub open spec fn auth_status(e: AuthError) -> u16 {
    match e {
        AuthError::WrongCredentials => 401,
        AuthError::Secret(_) => 500,
        AuthError::KvStore(_) => 500,
        AuthError::Jwt(_) => 401,
        AuthError::JwtNotFound => 401,
        AuthError::JwtRevoked => 401,
        AuthError::Other(_) => 500,
    }
}

impl AuthError {
    /// The HTTP status code of the error's response.
    pub fn status(&self) -> (r: u16)
        ensures
            r == auth_status(*self),
    {
        match self {
            AuthError::WrongCredentials => 401,
            AuthError::Secret(_) => 500,
            AuthError::KvStore(_) => 500,
            AuthError::Jwt(_) => 401,
            AuthError::JwtNotFound => 401,
            AuthError::JwtRevoked => 401,
            AuthError::Other(_) => 500,
        }
    }
}

/// The authentication scheme of bearer tokens.
pub open spec fn bearer_scheme() -> Seq<char> {
    "Bearer"@
}

/// The token of an `Authorization` header value `<scheme> <token>`: the
/// value is split at its first space, and the scheme must be `Bearer`
/// (exactly, or ignoring ASCII case when `ignore_case`).
pub open spec fn bearer_token(header: Seq<char>, ignore_case: bool) -> Option<Seq<char>> {
    match split_once(header, ' ') {
        Some((scheme, token)) => if (if ignore_case {
            eq_ignore_ascii_case(scheme, bearer_scheme())
        } else {
            scheme == bearer_scheme()
        }) {
            Some(token)
        } else {
            None
        },
        None => None,
    }
}

/// The bearer token of an optional header value.
pub open spec fn header_bearer_token(header: Option<&str>, ignore_case: bool) -> Option<Seq<char>> {
    match header {
        Some(h) => bearer_token(h@, ignore_case),
        None => None,
    }
}

/// The bearer token of an `Authorization` header value; the scheme must be
/// `Bearer` exactly, or, when `ignore_case`, ignoring ASCII case.
pub fn find_bearer_token(header: &str, ignore_case: bool) -> (r: Option<&str>)
    ensures
        match r {
            Some(t) => bearer_token(header@, ignore_case) == Some(t@),
            None => bearer_token(header@, ignore_case) is None,
        },
{
    match str_split_once(header, ' ') {
        Some((scheme, token)) => {
            let ok = if ignore_case {
                str_eq_ignore_ascii_case(scheme, "Bearer")
            } else {
                str_eq(scheme, "Bearer")
            };
            if ok {
                Some(token)
            } else {
                None
            }
        },
        None => None,
    }
}

/// The `Authorization` header value that presents `token`: `Bearer <token>`.
pub fn authorization_value(token: &str) -> (r: String)
    ensures
        r@ == "Bearer "@ + token@,
{
    let mut r = String::from_str("Bearer ");
    r.append(token);
    r
}

/// A header value written by `authorization_value` gives back its token,
/// whichever way the scheme is compared.
pub proof fn lemma_authorization_round_trip(token: Seq<char>, ignore_case: bool)
    ensures
        bearer_token("Bearer "@ + token, ignore_case) == Some(token),
{
    reveal_strlit("Bearer ");
    reveal_strlit("Bearer");
    let h = "Bearer "@ + token;
    assert(crate::text::is_first_index(h, ' ', 6));
    let i = choose|i: int| crate::text::is_first_index(h, ' ', i);
    assert(i == 6);
    assert(h.take(6) =~= bearer_scheme());
    assert(h.skip(7) =~= token);
}

/// A request authenticated by an access token: its claims.
pub struct ExtractAccessToken(pub Claims);

/// A request authenticated by a refresh token: its claims.
pub struct ExtractRefreshToken(pub Claims);

/// How a token request is checked, before its claims are read: the token
/// secret must be readable, the `Authorization` header must carry a bearer
/// token (the scheme compared exactly, or ignoring ASCII case), and the
/// token must verify for the audience under the secret's bytes; a token
/// that passes every check but the expiry fails only as expired.
pub open spec fn token_request_ok(
    secret: Result<String, SecretError>,
    authorization: Option<&str>,
    audience: Audience,
    ignore_case: bool,
    r: Result<String, AuthError>,
) -> bool {
    match secret {
        Err(e) => r matches Err(AuthError::Secret(f)) && f == e,
        Ok(s) => match header_bearer_token(authorization, ignore_case) {
            None => r matches Err(AuthError::JwtNotFound),
            Some(t) => match jwt_hs256_claims(t, encode_utf8(s@), audience_text(audience)) {
                Some(p) => (r matches Ok(q) && q@ == p) || r matches Err(AuthError::Jwt(JwtError::ExpiredSignature)),
                None => r matches Err(AuthError::Jwt(_)),
            },
        },
    }
}

fn verify_token_request(
    secret: Result<String, SecretError>,
    authorization: Option<&str>,
    audience: Audience,
    ignore_case: bool,
) -> (r: Result<String, AuthError>)
    ensures
        token_request_ok(secret, authorization, audience, ignore_case, r),
{
    let secret = match secret {
        Ok(s) => s,
        Err(e) => return Err(AuthError::Secret(e)),
    };
    let token = match authorization {
        Some(h) => match find_bearer_token(h, ignore_case) {
            Some(t) => t,
            None => return Err(AuthError::JwtNotFound),
        },
        None => return Err(AuthError::JwtNotFound),
    };
    match Claims::decode(token, audience, secret.as_str()) {
        Ok(p) => Ok(p),
        Err(e) => Err(AuthError::Jwt(e)),
    }
}

impl ExtractAccessToken {
    /// Checks a request for an access token: the secret, then a bearer
    /// token with the scheme `Bearer` exactly, then the token for the
    /// `access` audience. Gives back the token's claims as JSON text.
    pub fn verify_request(secret: Result<String, SecretError>, authorization: Option<&str>) -> (r: Result<
        String,
        AuthError,
    >)
        ensures
            token_request_ok(secret, authorization, Audience::Access, false, r),
    {
        verify_token_request(secret, authorization, Audience::Access, false)
    }
}

impl ExtractRefreshToken {
    /// Checks a request for a refresh token: the secret, then a bearer
    /// token with the scheme `Bearer` in any ASCII case, then the token for
    /// the `refresh` audience. Gives back the token's claims as JSON text.
    pub fn verify_request(secret: Result<String, SecretError>, authorization: Option<&str>) -> (r: Result<
        String,
        AuthError,
    >)
        ensures
            token_request_ok(secret, authorization, Audience::Refresh, true, r),
    {
        verify_token_request(secret, authorization, Audience::Refresh, true)
    }
}

/// The password hash text reads as a PHC string (`PasswordHash::parse`
/// with B64 encoding succeeds).
pub uninterp spec fn phc_hash_parses(hash: Seq<char>) -> bool;

/// Argon2 with default settings accepts `password` against the PHC hash
/// `hash` (`Argon2::default().verify_password(..).is_ok()`).
pub uninterp spec fn argon2_accepts(password: Seq<u8>, hash: Seq<char>) -> bool;

/// Calls `password_hash::PasswordHash::parse(hash, Encoding::B64)` and
/// tells whether it succeeded.
#[verifier::external_body]
fn password_hash_parses(hash: &str) -> (r: bool)
    ensures
        r == phc_hash_parses(hash@),
{
    argon2::password_hash::PasswordHash::parse(hash, argon2::password_hash::Encoding::B64).is_ok()
}

/// Calls `PasswordVerifier::verify_password` of `Argon2::default()` on the
/// parsed hash and tells whether the password was accepted. The hash must
/// parse (the parse is unwrapped).
#[verifier::external_body]
fn argon2_verify(password: &[u8], hash: &str) -> (r: bool)
    requires
        phc_hash_parses(hash@),
    ensures
        r == argon2_accepts(password@, hash@),
{
    let hash = argon2::password_hash::PasswordHash::parse(hash, argon2::password_hash::Encoding::B64).unwrap();
    argon2::PasswordVerifier::verify_password(&argon2::Argon2::default(), password, &hash).is_ok()
}

/// A key-value write: `key` stored with `value`, expiring at the Unix time
/// `expiration`.
pub struct KvPut {
    pub key: String,
    pub value: Vec<u8>,
    pub expiration: u64,
}

/// A token pair issued, the claims it was made from, and the whitelist
/// entry that must be stored before the pair is answered.
pub struct Grant {
    pub response: LoginResponse,
    pub access_claims: Claims,
    pub refresh_claims: Claims,
    pub whitelist: KvPut,
}

/// `g` is a token pair for `subject`: access claims signed with
/// `access_secret`, refresh claims signed with `refresh_secret`, both fresh
/// and issued at one clock reading (random token ids, the same issue time,
/// expiry after the audience's lifetime), each token
/// verifying under its secret for its own audience to its claims and, under
/// any key, for no other audience and to no other claims, and the whitelist
/// entry is the refresh token's id until its expiry.
pub open spec fn is_grant_for(g: Grant, subject: Seq<char>, access_secret: Seq<char>, refresh_secret: Seq<char>) -> bool {
    &&& g.access_claims.sub@ == subject
    &&& g.access_claims.aud@ == audience_text(Audience::Access)
    &&& g.access_claims.exp == expiry(g.access_claims.iat, Audience::Access)
    &&& is_v4_text(g.access_claims.jti@)
    &&& g.refresh_claims.sub@ == subject
    &&& g.refresh_claims.aud@ == audience_text(Audience::Refresh)
    &&& g.refresh_claims.iat == g.access_claims.iat
    &&& g.refresh_claims.exp == expiry(g.refresh_claims.iat, Audience::Refresh)
    &&& is_v4_text(g.refresh_claims.jti@)
    &&& g.response.access_token@ == jwt_hs256(claims_json(g.access_claims), encode_utf8(access_secret))
    &&& g.response.refresh_token@ == jwt_hs256(claims_json(g.refresh_claims), encode_utf8(refresh_secret))
    &&& forall|aud: Seq<char>| #[trigger] jwt_hs256_claims(g.response.access_token@, encode_utf8(access_secret), aud)
        == (if aud == audience_text(Audience::Access) { Some(claims_json(g.access_claims)) } else { None })
    &&& forall|aud: Seq<char>| #[trigger] jwt_hs256_claims(g.response.refresh_token@, encode_utf8(refresh_secret), aud)
        == (if aud == audience_text(Audience::Refresh) { Some(claims_json(g.refresh_claims)) } else { None })
    &&& forall|key: Seq<u8>, aud: Seq<char>| #[trigger] jwt_hs256_claims(g.response.access_token@, key, aud) matches Some(p)
        ==> p == claims_json(g.access_claims) && aud == audience_text(Audience::Access)
    &&& forall|key: Seq<u8>, aud: Seq<char>| #[trigger] jwt_hs256_claims(g.response.refresh_token@, key, aud) matches Some(p)
        ==> p == claims_json(g.refresh_claims) && aud == audience_text(Audience::Refresh)
    &&& g.response.token_type == TokenType::Bearer
    &&& g.whitelist.key@ == g.refresh_claims.jti@
    &&& g.whitelist.value@ == Seq::<u8>::empty()
    &&& g.whitelist.expiration == g.refresh_claims.exp
}

/// Issues a token pair for `subject`: access claims signed with
/// `access_secret`, then refresh claims signed with `refresh_secret`.
fn issue_pair(subject: String, access_secret: &str, refresh_secret: &str) -> (g: Grant)
    ensures
        is_grant_for(g, subject@, access_secret@, refresh_secret@),
{
    let access_claims = Claims::new(Audience::Access, subject.clone());
    let access_token = access_claims.encode(access_secret).unwrap();
    let refresh_claims = Claims::issue(Audience::Refresh, subject, access_claims.iat, new_v4_string());
    let refresh_token = refresh_claims.encode(refresh_secret).unwrap();
    let whitelist = KvPut { key: refresh_claims.jti.clone(), value: Vec::new(), expiration: refresh_claims.exp };
    let response = LoginResponse { access_token, refresh_token, token_type: TokenType::Bearer };
    Grant { response, access_claims, refresh_claims, whitelist }
}

/// The access token of a grant, presented as `Bearer <token>`: under any
/// secret, a check that passes gives back its own claims, and the refresh
/// check never passes; under its own secret, the access check passes or
/// fails only as expired.
pub proof fn lemma_access_token_checks(
    g: Grant,
    subject: Seq<char>,
    access_secret: Seq<char>,
    refresh_secret: Seq<char>,
    secret: String,
    header: &str,
    audience: Audience,
    ignore_case: bool,
    r: Result<String, AuthError>,
)
    requires
        is_grant_for(g, subject, access_secret, refresh_secret),
        header@ == "Bearer "@ + g.response.access_token@,
        token_request_ok(Ok(secret), Some(header), audience, ignore_case, r),
    ensures
        r matches Ok(p) ==> p@ == claims_json(g.access_claims),
        audience == Audience::Refresh ==> r matches Err(AuthError::Jwt(_)),
        audience == Audience::Access && secret@ == access_secret ==> ((r matches Ok(p) && p@ == claims_json(g.access_claims))
            || r matches Err(AuthError::Jwt(JwtError::ExpiredSignature))),
{
    lemma_authorization_round_trip(g.response.access_token@, ignore_case);
    reveal_strlit("access");
    reveal_strlit("refresh");
    assert(audience_text(Audience::Access) != audience_text(Audience::Refresh));
    let claims = jwt_hs256_claims(g.response.access_token@, encode_utf8(secret@), audience_text(audience));
}

/// The refresh token of a grant, presented as `Bearer <token>`: under any
/// secret, a check that passes gives back its own claims, and the access
/// check never passes; under its own secret, the refresh check passes or
/// fails only as expired.
pub proof fn lemma_refresh_token_checks(
    g: Grant,
    subject: Seq<char>,
    access_secret: Seq<char>,
    refresh_secret: Seq<char>,
    secret: String,
    header: &str,
    audience: Audience,
    ignore_case: bool,
    r: Result<String, AuthError>,
)
    requires
        is_grant_for(g, subject, access_secret, refresh_secret),
        header@ == "Bearer "@ + g.response.refresh_token@,
        token_request_ok(Ok(secret), Some(header), audience, ignore_case, r),
    ensures
        r matches Ok(p) ==> p@ == claims_json(g.refresh_claims),
        audience == Audience::Access ==> r matches Err(AuthError::Jwt(_)),
        audience == Audience::Refresh && secret@ == refresh_secret ==> ((r matches Ok(p) && p@ == claims_json(g.refresh_claims))
            || r matches Err(AuthError::Jwt(JwtError::ExpiredSignature))),
{
    lemma_authorization_round_trip(g.response.refresh_token@, ignore_case);
    reveal_strlit("access");
    reveal_strlit("refresh");
    assert(audience_text(Audience::Access) != audience_text(Audience::Refresh));
    let claims = jwt_hs256_claims(g.response.refresh_token@, encode_utf8(secret@), audience_text(audience));
}

/// The login credentials are right: the username is the configured one and
/// Argon2 accepts the password's bytes against the configured hash.
pub open spec fn credentials_ok(username: Seq<char>, password_hash: Seq<char>, req: LoginRequest) -> bool {
    req.username@ == username && argon2_accepts(encode_utf8(req.password@), password_hash)
}

/// The credentials of a login are right exactly when its username is the
/// configured one and Argon2 accepts the UTF-8 bytes of the whole password
/// it submitted against the configured hash.
pub proof fn lemma_credentials_are_username_and_whole_password(username: Seq<char>, hash: Seq<char>, req: LoginRequest)
    ensures
        credentials_ok(username, hash, req) <==> (req.username@ == username && argon2_accepts(encode_utf8(req.password@), hash)),
{
}

/// Checks a login against the configured username and password hash and,
/// when it is right, issues a token pair for the username (access token
/// signed with `access_secret`, refresh token with `refresh_secret`).
pub fn login(username: &str, password_hash: &str, access_secret: &str, refresh_secret: &str, req: LoginRequest) -> (r:
    Result<Grant, AuthError>)
    requires
        phc_hash_parses(password_hash@),
    ensures
        !credentials_ok(username@, password_hash@, req) ==> r matches Err(AuthError::WrongCredentials),
        credentials_ok(username@, password_hash@, req) ==> (r matches Ok(g) && is_grant_for(
            g,
            username@,
            access_secret@,
            refresh_secret@,
        )),
        req.username@ == username@ && argon2_accepts(encode_utf8(req.password@), password_hash@) ==> (r matches Ok(g)
            && g.access_claims.sub@ == username@ && g.refresh_claims.sub@ == username@),
        !(req.username@ == username@ && argon2_accepts(encode_utf8(req.password@), password_hash@)) ==> r matches Err(
            AuthError::WrongCredentials,
        ),
{
    if str_eq(username, req.username.as_str()) && argon2_verify(req.password.as_str().as_bytes(), password_hash) {
        Ok(issue_pair(req.username, access_secret, refresh_secret))
    } else {
        Err(AuthError::WrongCredentials)
    }
}

/// `login`, for a configured password hash that may not parse: `None` when
/// it does not, otherwise `login`'s answer.
pub fn try_login(username: &str, password_hash: &str, access_secret: &str, refresh_secret: &str, req: LoginRequest) -> (r:
    Option<Result<Grant, AuthError>>)
    ensures
        r is None <==> !phc_hash_parses(password_hash@),
        r matches Some(a) ==> (!credentials_ok(username@, password_hash@, req) ==> a matches Err(AuthError::WrongCredentials)),
        r matches Some(a) ==> (credentials_ok(username@, password_hash@, req) ==> (a matches Ok(g) && is_grant_for(
            g,
            username@,
            access_secret@,
            refresh_secret@,
        ))),
        r matches Some(a) ==> (req.username@ == username@ && argon2_accepts(encode_utf8(req.password@), password_hash@)
            ==> a is Ok),
        r matches Some(a) ==> (!(req.username@ == username@ && argon2_accepts(encode_utf8(req.password@), password_hash@))
            ==> a matches Err(AuthError::WrongCredentials)),
{
    if password_hash_parses(password_hash) {
        Some(login(username, password_hash, access_secret, refresh_secret, req))
    } else {
        None
    }
}

/// The answer once the whitelist write of a grant is done: the token pair,
/// or the store's error.
pub fn finish_grant(grant: Grant, stored: Result<(), KvError>) -> (r: Result<LoginResponse, AuthError>)
    ensures
        match stored {
            Err(e) => r matches Err(AuthError::KvStore(f)) && f == e,
            Ok(_) => r matches Ok(resp) && resp == grant.response,
        },
{
    match stored {
        Err(e) => Err(AuthError::KvStore(e)),
        Ok(_) => Ok(grant.response),
    }
}

} // verus!

verus! {

/// A key-value operation that the refresh flow saw succeed.
pub enum KvRecord {
    /// `key` was read and held the value.
    Found(Seq<char>, Seq<u8>),
    /// `key` was read and was not there.
    Absent(Seq<char>),
    /// `key` was deleted.
    Removed(Seq<char>),
    /// `key` was stored with the value, expiring at the given Unix time.
    Stored(Seq<char>, Seq<u8>, u64),
}

/// The store after one operation.
pub open spec fn kv_apply(s: Map<Seq<char>, Seq<u8>>, r: KvRecord) -> Map<Seq<char>, Seq<u8>> {
    match r {
        KvRecord::Stored(k, v, _) => s.insert(k, v),
        KvRecord::Removed(k) => s.remove(k),
        _ => s,
    }
}

/// A read agrees with the store it was made on.
pub open spec fn kv_read_agrees(s: Map<Seq<char>, Seq<u8>>, r: KvRecord) -> bool {
    match r {
        KvRecord::Found(k, v) => s.contains_key(k) && s[k] == v,
        KvRecord::Absent(k) => !s.contains_key(k),
        _ => true,
    }
}

/// The store after the operations `t`, in order, starting from `s`.
pub open spec fn kv_after(s: Map<Seq<char>, Seq<u8>>, t: Seq<KvRecord>) -> Map<Seq<char>, Seq<u8>>
    decreases t.len(),
{
    if t.len() == 0 {
        s
    } else {
        kv_after(kv_apply(s, t[0]), t.skip(1))
    }
}

/// Every read of `t` agrees with the store it was made on, starting from
/// `s`, when nothing else wrote in between.
pub open spec fn kv_agrees(s: Map<Seq<char>, Seq<u8>>, t: Seq<KvRecord>) -> bool
    decreases t.len(),
{
    t.len() == 0 || (kv_read_agrees(s, t[0]) && kv_agrees(kv_apply(s, t[0]), t.skip(1)))
}

/// The token id that a used refresh token's entry names as its successor:
/// a non-empty UTF-8 value.
pub open spec fn successor(v: Seq<u8>) -> Option<Seq<char>> {
    if v.len() > 0 && valid_utf8(v) {
        Some(decode_utf8(v))
    } else {
        None
    }
}

/// `t` revokes the token id `key` and its successors: each entry on the
/// way is read, then deleted, and the walk goes on to the successor it
/// names, until an entry names none or is not there.
pub open spec fn purge_walk(t: Seq<KvRecord>, key: Seq<char>) -> bool
    decreases t.len(),
{
    if t.len() == 1 {
        t[0] == KvRecord::Absent(key)
    } else if t.len() >= 2 {
        match t[0] {
            KvRecord::Found(k, v) => k == key && t[1] == KvRecord::Removed(key) && match successor(v) {
                Some(n) => purge_walk(t.skip(2), n),
                None => t.len() == 2,
            },
            _ => false,
        }
    } else {
        false
    }
}

/// `t` is the start of such a walk from `key`, which is to go on at `cur`.
pub open spec fn walk_prefix(t: Seq<KvRecord>, key: Seq<char>, cur: Seq<char>) -> bool
    decreases t.len(),
{
    if t.len() == 0 {
        cur == key
    } else if t.len() >= 2 {
        match t[0] {
            KvRecord::Found(k, v) => k == key && t[1] == KvRecord::Removed(key) && match successor(v) {
                Some(n) => walk_prefix(t.skip(2), n, cur),
                None => false,
            },
            _ => false,
        }
    } else {
        false
    }
}

proof fn lemma_walk_extend(p: Seq<KvRecord>, key: Seq<char>, cur: Seq<char>, q: Seq<KvRecord>, end: Seq<char>)
    requires
        walk_prefix(p, key, cur),
        walk_prefix(q, cur, end),
    ensures
        walk_prefix(p + q, key, end),
    decreases p.len(),
{
    if p.len() == 0 {
        assert(p + q =~= q);
    } else {
        if let KvRecord::Found(k, v) = p[0] {
            let n = successor(v).unwrap();
            lemma_walk_extend(p.skip(2), n, cur, q, end);
            assert((p + q).skip(2) =~= p.skip(2) + q);
            assert((p + q)[0] == p[0]);
            assert((p + q)[1] == p[1]);
        }
    }
}

proof fn lemma_walk_finish(p: Seq<KvRecord>, key: Seq<char>, cur: Seq<char>, q: Seq<KvRecord>)
    requires
        walk_prefix(p, key, cur),
        purge_walk(q, cur),
    ensures
        purge_walk(p + q, key),
    decreases p.len(),
{
    if p.len() == 0 {
        assert(p + q =~= q);
    } else {
        if let KvRecord::Found(k, v) = p[0] {
            let n = successor(v).unwrap();
            lemma_walk_finish(p.skip(2), n, cur, q);
            assert((p + q).skip(2) =~= p.skip(2) + q);
            assert((p + q)[0] == p[0]);
            assert((p + q)[1] == p[1]);
        }
    }
}

/// Reusing a refresh token revokes what was issued from it: once a walk
/// from `key` is done on a store that its reads agree with, neither `key`
/// nor the successor named by its entry is left in the store, and the walk
/// added no key.
pub proof fn lemma_reuse_revokes_successor(s: Map<Seq<char>, Seq<u8>>, t: Seq<KvRecord>, key: Seq<char>)
    requires
        purge_walk(t, key),
        kv_agrees(s, t),
    ensures
        kv_after(s, t).dom().subset_of(s.dom()),
        !kv_after(s, t).contains_key(key),
        t[0] matches KvRecord::Found(_, v) ==> (successor(v) matches Some(n) ==> !kv_after(s, t).contains_key(n)),
    decreases t.len(),
{
    if t.len() == 1 {
        assert(t.skip(1) =~= Seq::<KvRecord>::empty());
        assert(kv_after(s, t) == kv_after(s, t.skip(1)));
    } else {
        if let KvRecord::Found(k, v) = t[0] {
            let t1 = t.skip(1);
            assert(t1[0] == KvRecord::Removed(key));
            assert(t1.skip(1) =~= t.skip(2));
            let s1 = s.remove(key);
            assert(kv_after(s, t) == kv_after(s, t1));
            assert(kv_after(s, t1) == kv_after(s1, t.skip(2)));
            assert(kv_agrees(s, t1));
            assert(kv_agrees(s1, t.skip(2)));
            match successor(v) {
                Some(n) => {
                    lemma_reuse_revokes_successor(s1, t.skip(2), n);
                },
                None => {
                    assert(t.skip(2) =~= Seq::<KvRecord>::empty());
                    assert(kv_after(s1, t.skip(2)) == s1);
                },
            }
        }
    }
}

/// A refresh token can be used once: after a refresh that issued `g` for
/// the presented token id (a new id, unlike the presented one), the store
/// holds the presented entry marked used, naming the new refresh token id,
/// so that a later lookup of it starts a revocation and issues nothing;
/// and it holds the new refresh token's entry, unused.
pub proof fn lemma_refresh_token_used_once(
    s: Map<Seq<char>, Seq<u8>>,
    presented: Seq<char>,
    g: Grant,
    subject: Seq<char>,
    access_secret: Seq<char>,
    refresh_secret: Seq<char>,
)
    requires
        is_grant_for(g, subject, access_secret, refresh_secret),
        g.refresh_claims.jti@ != presented,
    ensures
        kv_after(s, refresh_trace(presented, g)).contains_key(presented),
        kv_after(s, refresh_trace(presented, g))[presented].len() > 0,
        successor(kv_after(s, refresh_trace(presented, g))[presented]) == Some(g.refresh_claims.jti@),
        kv_after(s, refresh_trace(presented, g)).contains_key(g.refresh_claims.jti@),
        kv_after(s, refresh_trace(presented, g))[g.refresh_claims.jti@] == Seq::<u8>::empty(),
{
    let t = refresh_trace(presented, g);
    let n = g.refresh_claims.jti@;
    let s1 = kv_apply(s, t[0]);
    let s2 = kv_apply(s1, t[1]);
    let s3 = kv_apply(s2, t[2]);
    assert(t.skip(1).skip(1).skip(1) =~= Seq::<KvRecord>::empty());
    assert(t.skip(1)[0] == t[1]);
    assert(t.skip(1).skip(1)[0] == t[2]);
    assert(kv_after(s3, t.skip(1).skip(1).skip(1)) == s3);
    assert(kv_after(s2, t.skip(1).skip(1)) == s3);
    assert(kv_after(s1, t.skip(1)) == s3);
    assert(kv_after(s, t) == s3);
    vstd::utf8::encode_utf8_valid_utf8(n);
    vstd::utf8::encode_utf8_decode_utf8(n);
    let u = choose|u: u128| crate::ids::uuid_version(u) == 4 && crate::ids::uuid_variant(u) == 2 && n == crate::ids::uuid_hyphenated(u);
    assert(n.len() == 36);
    if encode_utf8(n).len() == 0 {
        assert(encode_utf8(n) =~= Seq::<u8>::empty());
        assert(decode_utf8(Seq::<u8>::empty()) =~= Seq::<char>::empty());
    }
}

/// What the refresh flow asks the key-value store to do next, or its answer.
pub enum RefreshStep {
    /// Read `key`.
    Get { key: String },
    /// Delete `key`.
    Delete { key: String },
    /// Store the entry.
    Put(KvPut),
    /// The flow is over: the new token pair, or why not.
    Done(Result<LoginResponse, AuthError>),
}

/// What the key-value store answered to the last request.
pub enum KvOutcome {
    Got(Result<Option<Vec<u8>>, KvError>),
    Deleted(Result<(), KvError>),
    Stored(Result<(), KvError>),
}

/// Where a refresh flow stands.
pub enum RefreshPhase {
    /// Waiting for the whitelist lookup of the presented token id.
    Lookup { subject: String, jti: String, access: String, secret: String },
    /// Waiting for the presented token's entry to be marked used, naming
    /// the new refresh token id.
    Mark { grant: Grant },
    /// Waiting for the new refresh token id to be whitelisted.
    Whitelist { grant: Grant },
    /// Revoking: waiting for the entry of `key`, which held `next`, to be
    /// deleted.
    Purge { key: String, next: Vec<u8> },
    /// Revoking: waiting for the lookup of the successor `key`.
    Chase { key: String },
    /// Over.
    Finished,
}

/// The operations of a refresh that issued `g` for the presented token id:
/// its entry was found unused (empty), then overwritten with the new
/// refresh token id, expiring with the new token, and the new refresh
/// token whitelisted.
pub open spec fn refresh_trace(presented: Seq<char>, g: Grant) -> Seq<KvRecord> {
    seq![
        KvRecord::Found(presented, Seq::empty()),
        KvRecord::Stored(presented, encode_utf8(g.refresh_claims.jti@), g.refresh_claims.exp),
        KvRecord::Stored(g.whitelist.key@, g.whitelist.value@, g.whitelist.expiration),
    ]
}

/// The exchange of a refresh token for a new token pair. A presented token
/// whose entry is whitelisted and unused gets a new pair for the same
/// subject (the access token signed with the access secret, the refresh
/// token with the refresh secret): its entry is
/// marked used with the new refresh token id, and the new refresh token
/// is whitelisted before the pair is answered. A token with no entry is
/// refused. A token whose entry is marked used is being reused: the flow
/// deletes its entry and those of the tokens issued from it, one after the
/// other, and refuses it.
pub struct RefreshFlow {
    phase: RefreshPhase,
    presented: Ghost<Seq<char>>,
    subject: Ghost<Seq<char>>,
    access: Ghost<Seq<char>>,
    secret: Ghost<Seq<char>>,
    trace: Ghost<Seq<KvRecord>>,
}

/// The outcome expected in a phase.
pub open spec fn phase_expects(p: RefreshPhase, o: KvOutcome) -> bool {
    match p {
        RefreshPhase::Lookup { .. } => o is Got,
        RefreshPhase::Mark { .. } => o is Stored,
        RefreshPhase::Whitelist { .. } => o is Stored,
        RefreshPhase::Purge { .. } => o is Deleted,
        RefreshPhase::Chase { .. } => o is Got,
        RefreshPhase::Finished => false,
    }
}

/// A trace that began by finding the presented entry marked used.
pub open spec fn begins_with_reuse(t: Seq<KvRecord>) -> bool {
    t.len() >= 1 && (t[0] matches KvRecord::Found(_, v) && v.len() > 0)
}

impl RefreshFlow {
    /// Where the flow stands.
    pub closed spec fn phase(&self) -> RefreshPhase {
        self.phase
    }

    /// The id of the refresh token presented.
    pub closed spec fn presented(&self) -> Seq<char> {
        self.presented@
    }

    /// The subject of the refresh token presented.
    pub closed spec fn subject(&self) -> Seq<char> {
        self.subject@
    }

    /// The access token secret.
    pub closed spec fn access_secret(&self) -> Seq<char> {
        self.access@
    }

    /// The refresh token secret.
    pub closed spec fn secret(&self) -> Seq<char> {
        self.secret@
    }

    /// The key-value operations seen to succeed so far, in order.
    pub closed spec fn trace(&self) -> Seq<KvRecord> {
        self.trace@
    }

    #[verifier::type_invariant]
    closed spec fn wf(&self) -> bool {
        match self.phase {
            RefreshPhase::Lookup { subject, jti, access, secret } => {
                &&& self.trace@ == Seq::<KvRecord>::empty()
                &&& jti@ == self.presented@
                &&& subject@ == self.subject@
                &&& access@ == self.access@
                &&& secret@ == self.secret@
            },
            RefreshPhase::Mark { grant } => {
                &&& self.trace@ == seq![KvRecord::Found(self.presented@, Seq::empty())]
                &&& is_grant_for(grant, self.subject@, self.access@, self.secret@)
            },
            RefreshPhase::Whitelist { grant } => {
                &&& self.trace@ == refresh_trace(self.presented@, grant).take(2)
                &&& is_grant_for(grant, self.subject@, self.access@, self.secret@)
            },
            RefreshPhase::Purge { key, next } => {
                &&& begins_with_reuse(self.trace@)
                &&& self.trace@.last() == KvRecord::Found(key@, next@)
                &&& walk_prefix(self.trace@.drop_last(), self.presented@, key@)
            },
            RefreshPhase::Chase { key } => {
                &&& begins_with_reuse(self.trace@)
                &&& walk_prefix(self.trace@, self.presented@, key@)
            },
            RefreshPhase::Finished => true,
        }
    }

    /// The outcome this flow waits for.
    pub open spec fn expects(&self, o: KvOutcome) -> bool {
        phase_expects(self.phase(), o)
    }

    /// Starts the exchange of the refresh token with claims `claims`: without
    /// the refresh secret, then without the access secret, it ends at once;
    /// otherwise it asks for the token id's whitelist entry.
    pub fn start(
        claims: Claims,
        access_secret: Result<String, SecretError>,
        refresh_secret: Result<String, SecretError>,
    ) -> (r: (RefreshFlow, RefreshStep))
        ensures
            r.0.presented() == claims.jti@,
            r.0.subject() == claims.sub@,
            r.0.trace() == Seq::<KvRecord>::empty(),
            match (refresh_secret, access_secret) {
                (Err(e), _) => r.0.phase() is Finished && (r.1 matches RefreshStep::Done(Err(AuthError::Secret(f))) && f == e),
                (Ok(_), Err(e)) => r.0.phase() is Finished && (r.1 matches RefreshStep::Done(Err(AuthError::Secret(f))) && f == e),
                (Ok(s), Ok(a)) => r.0.secret() == s@ && r.0.access_secret() == a@ && r.0.phase() is Lookup
                    && (r.1 matches RefreshStep::Get { key } && key@ == claims.jti@),
            },
    {
        let ghost presented = claims.jti@;
        let ghost subject = claims.sub@;
        let s = match refresh_secret {
            Err(e) => {
                let flow = RefreshFlow {
                    phase: RefreshPhase::Finished,
                    presented: Ghost(presented),
                    subject: Ghost(subject),
                    access: Ghost(Seq::empty()),
                    secret: Ghost(Seq::empty()),
                    trace: Ghost(Seq::empty()),
                };
                return (flow, RefreshStep::Done(Err(AuthError::Secret(e))));
            },
            Ok(s) => s,
        };
        let a = match access_secret {
            Err(e) => {
                let flow = RefreshFlow {
                    phase: RefreshPhase::Finished,
                    presented: Ghost(presented),
                    subject: Ghost(subject),
                    access: Ghost(Seq::empty()),
                    secret: Ghost(Seq::empty()),
                    trace: Ghost(Seq::empty()),
                };
                return (flow, RefreshStep::Done(Err(AuthError::Secret(e))));
            },
            Ok(a) => a,
        };
        let ghost secret_view = s@;
        let ghost access_view = a@;
        let key = claims.jti.clone();
        let flow = RefreshFlow {
            phase: RefreshPhase::Lookup { subject: claims.sub, jti: claims.jti, access: a, secret: s },
            presented: Ghost(presented),
            subject: Ghost(subject),
            access: Ghost(access_view),
            secret: Ghost(secret_view),
            trace: Ghost(Seq::empty()),
        };
        (flow, RefreshStep::Get { key })
    }

    /// Takes the store's answer to the last request and says what to do next.
    ///
    /// A failed request ends the flow with the store's error. The lookup of
    /// the presented token id: no entry refuses it (`JwtRevoked`); an empty
    /// (unused) entry has a new pair issued, the entry overwritten with the
    /// new refresh token id (expiring with it), then the new refresh token
    /// whitelisted, and the pair answered; an entry naming a successor
    /// starts the revocation: each entry is deleted and the successor it
    /// names looked up, until there is none, and the token is refused.
    pub fn step(self, outcome: KvOutcome) -> (r: (RefreshFlow, RefreshStep))
        requires
            self.expects(outcome),
        ensures
            r.0.presented() == self.presented(),
            r.0.subject() == self.subject(),
            r.0.access_secret() == self.access_secret(),
            r.0.secret() == self.secret(),
            match (self.phase(), outcome) {
                (RefreshPhase::Lookup { .. }, KvOutcome::Got(Err(e))) =>
                    r.0.phase() is Finished && (r.1 matches RefreshStep::Done(Err(AuthError::KvStore(f))) && f == e),
                (RefreshPhase::Lookup { .. }, KvOutcome::Got(Ok(None))) =>
                    r.0.phase() is Finished && (r.1 matches RefreshStep::Done(Err(AuthError::JwtRevoked)))
                    && r.0.trace() == seq![KvRecord::Absent(self.presented())],
                (RefreshPhase::Lookup { .. }, KvOutcome::Got(Ok(Some(v)))) => if v@.len() == 0 {
                    r.0.phase() matches RefreshPhase::Mark { grant }
                    && is_grant_for(grant, self.subject(), self.access_secret(), self.secret())
                    && (r.1 matches RefreshStep::Put(m) && m.key@ == self.presented()
                        && m.value@ == encode_utf8(grant.refresh_claims.jti@)
                        && m.expiration == grant.refresh_claims.exp)
                } else {
                    (r.0.phase() matches RefreshPhase::Purge { key, next } && key@ == self.presented() && next@ == v@)
                    && (r.1 matches RefreshStep::Delete { key } && key@ == self.presented())
                },
                (RefreshPhase::Mark { grant }, KvOutcome::Stored(Err(e))) =>
                    r.0.phase() is Finished && (r.1 matches RefreshStep::Done(Err(AuthError::KvStore(f))) && f == e),
                (RefreshPhase::Mark { grant }, KvOutcome::Stored(Ok(_))) =>
                    (r.0.phase() matches RefreshPhase::Whitelist { grant: g } && g == grant)
                    && (r.1 matches RefreshStep::Put(w) && w.key@ == grant.whitelist.key@
                        && w.value@ == grant.whitelist.value@ && w.expiration == grant.whitelist.expiration),
                (RefreshPhase::Whitelist { grant }, KvOutcome::Stored(Err(e))) =>
                    r.0.phase() is Finished && (r.1 matches RefreshStep::Done(Err(AuthError::KvStore(f))) && f == e),
                (RefreshPhase::Whitelist { grant }, KvOutcome::Stored(Ok(_))) =>
                    r.0.phase() is Finished && (r.1 matches RefreshStep::Done(Ok(resp)) && resp == grant.response),
                (RefreshPhase::Purge { .. }, KvOutcome::Deleted(Err(e))) =>
                    r.0.phase() is Finished && (r.1 matches RefreshStep::Done(Err(AuthError::KvStore(f))) && f == e),
                (RefreshPhase::Purge { key, next }, KvOutcome::Deleted(Ok(_))) => match successor(next@) {
                    Some(n) => (r.0.phase() matches RefreshPhase::Chase { key: k } && k@ == n)
                        && (r.1 matches RefreshStep::Get { key: k } && k@ == n),
                    None => r.0.phase() is Finished && (r.1 matches RefreshStep::Done(Err(AuthError::JwtRevoked))),
                },
                (RefreshPhase::Chase { .. }, KvOutcome::Got(Err(e))) =>
                    r.0.phase() is Finished && (r.1 matches RefreshStep::Done(Err(AuthError::KvStore(f))) && f == e),
                (RefreshPhase::Chase { .. }, KvOutcome::Got(Ok(None))) =>
                    r.0.phase() is Finished && (r.1 matches RefreshStep::Done(Err(AuthError::JwtRevoked))),
                (RefreshPhase::Chase { key }, KvOutcome::Got(Ok(Some(w)))) =>
                    (r.0.phase() matches RefreshPhase::Purge { key: k, next } && k@ == key@ && next@ == w@)
                    && (r.1 matches RefreshStep::Delete { key: k } && k@ == key@),
                _ => false,
            },
            r.1 matches RefreshStep::Done(Ok(resp)) ==> (self.phase() matches RefreshPhase::Whitelist { grant }
                && resp == grant.response
                && is_grant_for(grant, self.subject(), self.access_secret(), self.secret())
                && r.0.trace() == refresh_trace(self.presented(), grant)),
            r.1 matches RefreshStep::Done(Err(AuthError::JwtRevoked)) ==> purge_walk(r.0.trace(), self.presented())
                && r.0.trace()[0] != KvRecord::Found(self.presented(), Seq::empty()),
    {
        proof { use_type_invariant(&self); }
        let RefreshFlow { phase, presented, subject, access, secret, trace } = self;
        match phase {
            RefreshPhase::Lookup { subject: sub, jti, access: access_key, secret: key } => {
                match outcome {
                    KvOutcome::Got(Err(e)) => {
                        let flow = RefreshFlow { phase: RefreshPhase::Finished, presented, subject, access, secret, trace };
                        (flow, RefreshStep::Done(Err(AuthError::KvStore(e))))
                    },
                    KvOutcome::Got(Ok(None)) => {
                        let ghost absent = seq![KvRecord::Absent(presented@)];
                        proof {
                            assert(purge_walk(absent, presented@));
                        }
                        let flow = RefreshFlow { phase: RefreshPhase::Finished, presented, subject, access, secret, trace: Ghost(absent) };
                        (flow, RefreshStep::Done(Err(AuthError::JwtRevoked)))
                    },
                    KvOutcome::Got(Ok(Some(v))) => {
                        let ghost found = seq![KvRecord::Found(presented@, v@)];
                        if v.len() == 0 {
                            let grant = issue_pair(sub, access_key.as_str(), key.as_str());
                            let mark = KvPut {
                                key: jti,
                                value: grant.refresh_claims.jti.as_str().as_bytes_vec(),
                                expiration: grant.refresh_claims.exp,
                            };
                            proof {
                                assert(v@ =~= Seq::<u8>::empty());
                            }
                            let flow = RefreshFlow { phase: RefreshPhase::Mark { grant }, presented, subject, access, secret, trace: Ghost(found) };
                            (flow, RefreshStep::Put(mark))
                        } else {
                            let request = jti.clone();
                            proof {
                                assert(found.drop_last() =~= Seq::<KvRecord>::empty());
                            }
                            let flow = RefreshFlow {
                                phase: RefreshPhase::Purge { key: jti, next: v },
                                presented,
                                subject,
                                access,
                                secret,
                                trace: Ghost(found),
                            };
                            (flow, RefreshStep::Delete { key: request })
                        }
                    },
                    _ => {
                        // Not reached: `expects` rules out an answer of another kind.
                        let flow = RefreshFlow { phase: RefreshPhase::Finished, presented, subject, access, secret, trace };
                        (flow, RefreshStep::Done(Err(AuthError::JwtNotFound)))
                    },
                }
            },
            RefreshPhase::Mark { grant } => {
                match outcome {
                    KvOutcome::Stored(Err(e)) => {
                        let flow = RefreshFlow { phase: RefreshPhase::Finished, presented, subject, access, secret, trace };
                        (flow, RefreshStep::Done(Err(AuthError::KvStore(e))))
                    },
                    KvOutcome::Stored(Ok(_)) => {
                        let ghost marked = trace@.push(
                            KvRecord::Stored(presented@, encode_utf8(grant.refresh_claims.jti@), grant.refresh_claims.exp),
                        );
                        proof {
                            assert(marked =~= refresh_trace(presented@, grant).take(2));
                        }
                        let put = KvPut {
                            key: grant.whitelist.key.clone(),
                            value: grant.whitelist.value.clone(),
                            expiration: grant.whitelist.expiration,
                        };
                        let flow = RefreshFlow { phase: RefreshPhase::Whitelist { grant }, presented, subject, access, secret, trace: Ghost(marked) };
                        (flow, RefreshStep::Put(put))
                    },
                    _ => {
                        // Not reached: `expects` rules out an answer of another kind.
                        let flow = RefreshFlow { phase: RefreshPhase::Finished, presented, subject, access, secret, trace };
                        (flow, RefreshStep::Done(Err(AuthError::JwtNotFound)))
                    },
                }
            },
            RefreshPhase::Whitelist { grant } => {
                match outcome {
                    KvOutcome::Stored(Err(e)) => {
                        let flow = RefreshFlow { phase: RefreshPhase::Finished, presented, subject, access, secret, trace };
                        (flow, RefreshStep::Done(Err(AuthError::KvStore(e))))
                    },
                    KvOutcome::Stored(Ok(_)) => {
                        let ghost stored = trace@.push(
                            KvRecord::Stored(grant.whitelist.key@, grant.whitelist.value@, grant.whitelist.expiration),
                        );
                        proof {
                            assert(stored =~= refresh_trace(presented@, grant));
                        }
                        let flow = RefreshFlow { phase: RefreshPhase::Finished, presented, subject, access, secret, trace: Ghost(stored) };
                        (flow, RefreshStep::Done(Ok(grant.response)))
                    },
                    _ => {
                        // Not reached: `expects` rules out an answer of another kind.
                        let flow = RefreshFlow { phase: RefreshPhase::Finished, presented, subject, access, secret, trace };
                        (flow, RefreshStep::Done(Err(AuthError::JwtNotFound)))
                    },
                }
            },
            RefreshPhase::Purge { key, next } => {
                match outcome {
                    KvOutcome::Deleted(Err(e)) => {
                        let flow = RefreshFlow { phase: RefreshPhase::Finished, presented, subject, access, secret, trace };
                        (flow, RefreshStep::Done(Err(AuthError::KvStore(e))))
                    },
                    KvOutcome::Deleted(Ok(_)) => {
                        let ghost removed = trace@.push(KvRecord::Removed(key@));
                        let ghost before = trace@.drop_last();
                        let ghost pair = seq![KvRecord::Found(key@, next@), KvRecord::Removed(key@)];
                        proof {
                            assert(removed =~= before + pair);
                            assert(removed[0] == trace@[0]);
                        }
                        let following = if next.len() == 0 {
                            None
                        } else {
                            string_from_utf8(next)
                        };
                        match following {
                            Some(n) => {
                                proof {
                                    assert(walk_prefix(pair.skip(2), n@, n@));
                                    assert(walk_prefix(pair, key@, n@));
                                    lemma_walk_extend(before, presented@, key@, pair, n@);
                                }
                                let request = n.clone();
                                let flow = RefreshFlow {
                                    phase: RefreshPhase::Chase { key: n },
                                    presented,
                                    subject,
                                    access,
                                    secret,
                                    trace: Ghost(removed),
                                };
                                (flow, RefreshStep::Get { key: request })
                            },
                            None => {
                                proof {
                                    assert(purge_walk(pair, key@));
                                    lemma_walk_finish(before, presented@, key@, pair);
                                }
                                let flow = RefreshFlow {
                                    phase: RefreshPhase::Finished,
                                    presented,
                                    subject,
                                    access,
                                    secret,
                                    trace: Ghost(removed),
                                };
                                (flow, RefreshStep::Done(Err(AuthError::JwtRevoked)))
                            },
                        }
                    },
                    _ => {
                        // Not reached: `expects` rules out an answer of another kind.
                        let flow = RefreshFlow { phase: RefreshPhase::Finished, presented, subject, access, secret, trace };
                        (flow, RefreshStep::Done(Err(AuthError::JwtNotFound)))
                    },
                }
            },
            RefreshPhase::Chase { key } => {
                match outcome {
                    KvOutcome::Got(Err(e)) => {
                        let flow = RefreshFlow { phase: RefreshPhase::Finished, presented, subject, access, secret, trace };
                        (flow, RefreshStep::Done(Err(AuthError::KvStore(e))))
                    },
                    KvOutcome::Got(Ok(None)) => {
                        let ghost absent = seq![KvRecord::Absent(key@)];
                        let ghost ended = trace@ + absent;
                        proof {
                            assert(purge_walk(absent, key@));
                            lemma_walk_finish(trace@, presented@, key@, absent);
                            assert(ended[0] == trace@[0]);
                        }
                        let flow = RefreshFlow { phase: RefreshPhase::Finished, presented, subject, access, secret, trace: Ghost(ended) };
                        (flow, RefreshStep::Done(Err(AuthError::JwtRevoked)))
                    },
                    KvOutcome::Got(Ok(Some(w))) => {
                        let ghost found = trace@.push(KvRecord::Found(key@, w@));
                        proof {
                            assert(found.drop_last() =~= trace@);
                            assert(found[0] == trace@[0]);
                        }
                        let request = key.clone();
                        let flow = RefreshFlow {
                            phase: RefreshPhase::Purge { key, next: w },
                            presented,
                            subject,
                            access,
                            secret,
                            trace: Ghost(found),
                        };
                        (flow, RefreshStep::Delete { key: request })
                    },
                    _ => {
                        // Not reached: `expects` rules out an answer of another kind.
                        let flow = RefreshFlow { phase: RefreshPhase::Finished, presented, subject, access, secret, trace };
                        (flow, RefreshStep::Done(Err(AuthError::JwtNotFound)))
                    },
                }
            },
            RefreshPhase::Finished => {
                // Not reached: a finished flow expects nothing.
                let flow = RefreshFlow { phase: RefreshPhase::Finished, presented, subject, access, secret, trace };
                (flow, RefreshStep::Done(Err(AuthError::JwtNotFound)))
            },
        }
    }
}

} // verus!
