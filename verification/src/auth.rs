//! Users, their session claims and the rules of the authentication routes.

use vstd::prelude::*;
use vstd::utf8::encode_utf8;

use crate::messages::{format_uuid, format_uuid_simple, uuid_simple_text, uuid_text};
use crate::project::new_project_id;
use crate::text::{
    ascii_ci_equal, ascii_ci_matches, chars_of, strip_prefix, trim, trim_spec,
};
use crate::users::UserRegistry;

verus! {

/// How long a session token stays valid, in seconds (twelve hours).
pub const JWT_EXPIRATION_SECS: i64 = 12 * 3600;

/// Shortest secret a deployment may sign tokens with, in bytes.
pub const MIN_DEPLOYMENT_SECRET_BYTES: usize = 32;

/// Longest guest name, in characters.
pub const MAX_GUEST_NAME_CHARS: usize = 64;

/// Errors of the HTTP routes.
#[derive(Debug, Clone, PartialEq, Eq)]
pub enum HttpErrors {
    NoTokenProvided,
    InvalidJWT,
    InvalidPassword,
    ProjectDoesNotExist,
    OAuthNotConfigured,
    InvalidOAuthState,
    CodeExchange(String),
    GithubUserFetch(String),
    UserLimitReached,
    InvalidGuestName,
    GithubNameChange,
    InvalidProjectName,
    ProjectLimitReached,
    JwtEncode(String),
}

/// The claims of a session token.
#[derive(Debug, Clone, PartialEq, Eq)]
pub struct RgUserData {
    pub id: String,
    pub name: String,
    pub is_guest: bool,
    pub exp: i64,
}

/// A GitHub account as the user API describes it.
#[derive(Debug, Clone, PartialEq, Eq)]
pub struct GitHubUser {
    pub login: String,
    pub avatar_url: String,
}

/// The query of the OAuth callback.
#[derive(Debug, Clone, PartialEq, Eq)]
pub struct AuthRequest {
    pub code: String,
    pub state: String,
}

/// Calls `chrono::Utc::now` and takes its Unix timestamp. The clock decides
/// the value; chrono refuses (panics on) a clock before 1970 and dates past
/// its last representable year, so the result is never negative and stays
/// below that bound.
#[verifier::external_body]
pub(crate) fn current_timestamp() -> (r: i64)
    ensures
        0 <= r <= 9_000_000_000_000,
{
    chrono::Utc::now().timestamp()
}

impl RgUserData {
    /// Claims for a session that starts at `now` and ends twelve hours later.
    pub fn new_at(id: String, name: String, is_guest: bool, now: i64) -> (r: RgUserData)
        requires
            now <= i64::MAX - JWT_EXPIRATION_SECS,
        ensures
            r.id == id,
            r.name == name,
            r.is_guest == is_guest,
            r.exp == now + JWT_EXPIRATION_SECS,
    {
        RgUserData { id, name, is_guest, exp: now + JWT_EXPIRATION_SECS }
    }

    /// Claims for a session that starts now.
    pub fn new(id: String, name: String, is_guest: bool) -> (r: RgUserData)
        ensures
            r.id == id,
            r.name == name,
            r.is_guest == is_guest,
            r.exp >= JWT_EXPIRATION_SECS,
    {
        let now = current_timestamp();
        Self::new_at(id, name, is_guest, now)
    }

    pub open spec fn expired_at(&self, now: i64) -> bool {
        now >= self.exp
    }

    /// A token stops being accepted once the clock reaches its expiry.
    pub fn is_expired_at(&self, now: i64) -> (r: bool)
        ensures
            r == self.expired_at(now),
    {
        now >= self.exp
    }
}

/// A session starting at `now` is still valid then.
pub proof fn fresh_claims_are_valid(claims: RgUserData, now: i64)
    requires
        claims.exp == now + JWT_EXPIRATION_SECS,
    ensures
        !claims.expired_at(now),
        claims.expired_at((now + JWT_EXPIRATION_SECS) as i64),
{
}

/// The token of an `Authorization` header that uses the bearer scheme.
pub fn bearer_token(header: &str) -> (r: Option<String>)
    ensures
        r is Some <==> (7 <= header@.len() && header@.subrange(0, 7) == "Bearer "@),
        r matches Some(t) ==> t@ == header@.skip(7),
{
    let prefix = "Bearer ";
    proof {
        reveal_strlit("Bearer ");
    }
    strip_prefix(header, prefix)
}

/// Who sent a request: a missing token and a token that did not decode
/// (`claims` is what signature checking gave) or has expired are refused
/// with distinct errors.
pub fn user_info(token: Option<String>, claims: Option<RgUserData>, now: i64) -> (r: Result<
    RgUserData,
    HttpErrors,
>)
    ensures
        token is None ==> r == Err::<RgUserData, HttpErrors>(HttpErrors::NoTokenProvided),
        token is Some && claims is None ==> r == Err::<RgUserData, HttpErrors>(
            HttpErrors::InvalidJWT,
        ),
        token is Some ==> (claims matches Some(c) ==> if c.expired_at(now) {
            r == Err::<RgUserData, HttpErrors>(HttpErrors::InvalidJWT)
        } else {
            r == Ok::<RgUserData, HttpErrors>(c)
        }),
{
    if token.is_none() {
        return Err(HttpErrors::NoTokenProvided);
    }
    match claims {
        None => Err(HttpErrors::InvalidJWT),
        Some(c) => {
            if c.is_expired_at(now) {
                Err(HttpErrors::InvalidJWT)
            } else {
                Ok(c)
            }
        },
    }
}

pub open spec fn valid_guest_name(trimmed: Seq<char>) -> bool {
    trimmed.len() > 0 && trimmed.len() <= MAX_GUEST_NAME_CHARS
}

/// A trimmed guest name is valid exactly when it has 1 to 64 characters,
/// whatever those characters are.
pub proof fn guest_names_are_checked_by_length_alone(t: Seq<char>, u: Seq<char>)
    ensures
        valid_guest_name(t) <==> (1 <= t.len() && t.len() <= 64),
        t.len() == u.len() ==> (valid_guest_name(t) <==> valid_guest_name(u)),
{
}

/// A guest name without surrounding whitespace; empty names and names of
/// more than 64 characters are refused.
pub fn validate_guest_name(name: &str) -> (r: Result<String, HttpErrors>)
    ensures
        valid_guest_name(trim_spec(name@)) ==> (r matches Ok(t) && t@ == trim_spec(name@)),
        !valid_guest_name(trim_spec(name@)) ==> r == Err::<String, HttpErrors>(
            HttpErrors::InvalidGuestName,
        ),
{
    let trimmed = trim(name);
    let n = trimmed.as_str().unicode_len();
    if n == 0 || n > MAX_GUEST_NAME_CHARS {
        Err(HttpErrors::InvalidGuestName)
    } else {
        Ok(trimmed)
    }
}

/// A new name for a guest session; GitHub users keep their login.
pub fn validate_name_update(user: &RgUserData, new_name: &str) -> (r: Result<String, HttpErrors>)
    ensures
        !user.is_guest ==> r == Err::<String, HttpErrors>(HttpErrors::GithubNameChange),
        user.is_guest && valid_guest_name(trim_spec(new_name@)) ==> (r matches Ok(t) && t@
            == trim_spec(new_name@)),
        user.is_guest && !valid_guest_name(trim_spec(new_name@)) ==> r == Err::<
            String,
            HttpErrors,
        >(HttpErrors::InvalidGuestName),
{
    if !user.is_guest {
        return Err(HttpErrors::GithubNameChange);
    }
    validate_guest_name(new_name)
}

/// The OAuth callback must carry the state stored in the login cookie.
pub fn check_oauth_state(cookie: Option<String>, state: &String) -> (r: Result<(), HttpErrors>)
    ensures
        r is Ok <==> (cookie matches Some(c) && c@ == state@),
        r is Err ==> r == Err::<(), HttpErrors>(HttpErrors::InvalidOAuthState),
{
    match cookie {
        Some(c) => {
            if c == *state {
                Ok(())
            } else {
                Err(HttpErrors::InvalidOAuthState)
            }
        },
        None => Err(HttpErrors::InvalidOAuthState),
    }
}

/// Why a deployment refuses its token secret.
#[derive(Debug, Clone, Copy, PartialEq, Eq)]
pub enum SecretError {
    /// No secret, or only whitespace.
    Missing,
    /// Fewer than `MIN_DEPLOYMENT_SECRET_BYTES` bytes.
    TooShort,
}

/// The token secret that a deployment was given must be present and at
/// least 32 bytes long.
pub fn check_deployment_secret(secret: Option<&str>) -> (r: Result<(), SecretError>)
    ensures
        secret is None ==> r == Err::<(), SecretError>(SecretError::Missing),
        secret matches Some(s) ==> if trim_spec(s@).len() == 0 {
            r == Err::<(), SecretError>(SecretError::Missing)
        } else if encode_utf8(s@).len() < MIN_DEPLOYMENT_SECRET_BYTES {
            r == Err::<(), SecretError>(SecretError::TooShort)
        } else {
            r is Ok
        },
{
    match secret {
        None => Err(SecretError::Missing),
        Some(s) => {
            let trimmed = trim(s);
            if trimmed.as_str().is_empty() {
                Err(SecretError::Missing)
            } else if s.as_bytes().len() < MIN_DEPLOYMENT_SECRET_BYTES {
                Err(SecretError::TooShort)
            } else {
                Ok(())
            }
        },
    }
}

pub open spec fn production_name() -> Seq<char> {
    seq!['p', 'r', 'o', 'd', 'u', 'c', 't', 'i', 'o', 'n']
}

pub open spec fn production_alias() -> Seq<char> {
    seq!['p', 'r', 'o', 'd']
}

/// Whether the deployment environment value names production
/// (`production` or `prod`, in any ASCII case).
pub fn is_production_env(value: Option<&str>) -> (r: bool)
    ensures
        value is None ==> !r,
        value matches Some(v) ==> r == (ascii_ci_equal(v@, production_name()) || ascii_ci_equal(
            v@,
            production_alias(),
        )),
{
    match value {
        None => false,
        Some(v) => {
            let cs = chars_of(v);
            let long: Vec<char> = vec!['p', 'r', 'o', 'd', 'u', 'c', 't', 'i', 'o', 'n'];
            let short: Vec<char> = vec!['p', 'r', 'o', 'd'];
            assert(long@ =~= production_name());
            assert(short@ =~= production_alias());
            assert(cs@.subrange(0, cs@.len() as int) =~= cs@);
            ascii_ci_matches(&cs, 0, cs.len(), &long) || ascii_ci_matches(&cs, 0, cs.len(), &short)
        },
    }
}

/// Errors of the JWT crate.
#[verifier::external_type_specification]
#[verifier::external_body]
pub struct ExJwtError(jsonwebtoken::errors::Error);

/// The token that `jsonwebtoken::encode` signs with `secret` (HS256, the
/// default header) for the claims `id`, `name`, `is_guest` and `exp`,
/// written as a JSON object in that order.
pub uninterp spec fn jwt_token(
    id: Seq<char>,
    name: Seq<char>,
    is_guest: bool,
    exp: i64,
    secret: Seq<char>,
) -> Seq<char>;

/// Calls `jsonwebtoken::encode` with the default header, the claims as a
/// JSON object and an HMAC key made of the bytes of `secret`. With the
/// default header (HS256) and an HMAC key the algorithm families agree,
/// writing a header and a JSON object to JSON cannot fail and HMAC signing
/// returns `Ok`, so the call succeeds; the payload of the token is that
/// object, from which the four claims read back unchanged.
#[verifier::external_body]
fn jwt_encode(id: &str, name: &str, is_guest: bool, exp: i64, secret: &str) -> (r: Result<
    String,
    jsonwebtoken::errors::Error,
>)
    ensures
        r is Ok,
        r matches Ok(t) ==> t@ == jwt_token(id@, name@, is_guest, exp, secret@),
        r matches Ok(t) ==> jwt_payload_claims(t@) == Some((id@, name@, is_guest, exp)),
        r matches Ok(t) ==> jwt_verifies(t@, secret@),
{
    let mut claims = serde_json::Map::new();
    claims.insert("id".to_owned(), serde_json::Value::from(id));
    claims.insert("name".to_owned(), serde_json::Value::from(name));
    claims.insert("is_guest".to_owned(), serde_json::Value::from(is_guest));
    claims.insert("exp".to_owned(), serde_json::Value::from(exp));
    let key = jsonwebtoken::EncodingKey::from_secret(secret.as_bytes());
    jsonwebtoken::encode(&jsonwebtoken::Header::default(), &serde_json::Value::Object(claims), &key)
}

/// The text of an error of the JWT crate (its `Display`).
#[verifier::external_body]
fn jwt_error_text(e: &jsonwebtoken::errors::Error) -> (r: String) {
    e.to_string()
}

/// The claims `id`, `name`, `is_guest` and `exp` as read from the payload
/// of `token` (its middle part, base64url-decoded JSON), or `None` where the
/// payload is not an object with such fields.
pub uninterp spec fn jwt_payload_claims(token: Seq<char>) -> Option<
    (Seq<char>, Seq<char>, bool, i64),
>;

/// Whether `token` is signed with `secret`: its header names HS256 and its
/// signature is the HMAC-SHA256, under a key made of the bytes of `secret`,
/// of the header and payload parts it carries.
pub uninterp spec fn jwt_verifies(token: Seq<char>, secret: Seq<char>) -> bool;

/// Calls `jsonwebtoken::decode` with an HMAC key made of the bytes of
/// `secret` and the default validation (HS256; `exp` required and checked
/// against the clock with the crate's leeway), and reads the claims `id`,
/// `name`, `is_guest` and `exp` out of the decoded object. Whether it
/// succeeds rests on the clock as well as on the token and the secret, so
/// only what success requires is stated: the signature checks out against
/// `secret` (the crate verifies it before anything else), and what it hands
/// back is what the payload of `token` carries, which the crate
/// deserializes from the token alone.
#[verifier::external_body]
fn jwt_decode(token: &str, secret: &str) -> (r: Option<(String, String, bool, i64)>)
    ensures
        r is Some ==> jwt_verifies(token@, secret@),
        r matches Some(d) ==> jwt_payload_claims(token@) == Some((d.0@, d.1@, d.2, d.3)),
{
    let key = jsonwebtoken::DecodingKey::from_secret(secret.as_bytes());
    let data = jsonwebtoken::decode::<serde_json::Value>(token, &key, &jsonwebtoken::Validation::default()).ok()?;
    let claims = data.claims;
    Some((
        claims.get("id")?.as_str()?.to_owned(),
        claims.get("name")?.as_str()?.to_owned(),
        claims.get("is_guest")?.as_bool()?,
        claims.get("exp")?.as_i64()?,
    ))
}

impl RgUserData {
    /// The signed token that carries these claims.
    pub fn encode(self, secret: &str) -> (r: Result<String, HttpErrors>)
        ensures
            r matches Ok(t) && t@ == jwt_token(self.id@, self.name@, self.is_guest, self.exp, secret@)
                && jwt_payload_claims(t@) == Some(
                (self.id@, self.name@, self.is_guest, self.exp),
            ),
            r matches Ok(t) ==> jwt_verifies(t@, secret@),
    {
        match jwt_encode(self.id.as_str(), self.name.as_str(), self.is_guest, self.exp, secret) {
            Ok(t) => Ok(t),
            Err(e) => Err(HttpErrors::JwtEncode(jwt_error_text(&e))),
        }
    }
}

/// The claims that decoding handed back (`id`, `name`, `is_guest`, `exp`),
/// unless they have expired at `now`.
pub fn claims_at(decoded: Option<(String, String, bool, i64)>, now: i64) -> (r: Option<
    RgUserData,
>)
    ensures
        decoded is None ==> r is None,
        decoded matches Some(d) ==> if now >= d.3 {
            r is None
        } else {
            r == Some(RgUserData { id: d.0, name: d.1, is_guest: d.2, exp: d.3 })
        },
{
    match decoded {
        Some((id, name, is_guest, exp)) => {
            let claims = RgUserData { id, name, is_guest, exp };
            if claims.is_expired_at(now) {
                None
            } else {
                Some(claims)
            }
        },
        None => None,
    }
}

/// The claims of a token that checks out against `secret` and has not
/// expired at `now`: those its payload carries.
pub fn decode_at(token: &str, secret: &str, now: i64) -> (r: Option<RgUserData>)
    ensures
        r matches Some(c) ==> !c.expired_at(now) && jwt_payload_claims(token@) == Some(
            (c.id@, c.name@, c.is_guest, c.exp),
        ),
        r is Some ==> jwt_verifies(token@, secret@),
{
    claims_at(jwt_decode(token, secret), now)
}

/// A token decodes to the claims it was encoded with: `encode` states the
/// claims its token's payload carries, and `decode_at` and `decode` hand
/// back only the claims of the payload of the token they are given.
pub proof fn decoding_gives_back_encoded_claims(
    encoded: RgUserData,
    token: Seq<char>,
    decoded: RgUserData,
)
    requires
        jwt_payload_claims(token) == Some(
            (encoded.id@, encoded.name@, encoded.is_guest, encoded.exp),
        ),
        jwt_payload_claims(token) == Some(
            (decoded.id@, decoded.name@, decoded.is_guest, decoded.exp),
        ),
    ensures
        decoded.id@ == encoded.id@,
        decoded.name@ == encoded.name@,
        decoded.is_guest == encoded.is_guest,
        decoded.exp == encoded.exp,
{
}

/// The claims of the bearer token of an `Authorization` header: a missing
/// header or one without the bearer scheme is `NoTokenProvided`, a token
/// that does not check out or has expired is `InvalidJWT`.
pub fn get_user_info_at(header: Option<&str>, secret: &str, now: i64) -> (r: Result<
    RgUserData,
    HttpErrors,
>)
    ensures
        header is None ==> r == Err::<RgUserData, HttpErrors>(HttpErrors::NoTokenProvided),
        header matches Some(h) && !(7 <= h@.len() && h@.subrange(0, 7) == "Bearer "@) ==> r
            == Err::<RgUserData, HttpErrors>(HttpErrors::NoTokenProvided),
        r matches Ok(c) ==> !c.expired_at(now),
        header matches Some(h) && 7 <= h@.len() && h@.subrange(0, 7) == "Bearer "@ ==> (r is Ok
            || r == Err::<RgUserData, HttpErrors>(HttpErrors::InvalidJWT)),
        r matches Ok(c) ==> header matches Some(h) && jwt_verifies(h@.skip(7), secret@)
            && jwt_payload_claims(h@.skip(7)) == Some((c.id@, c.name@, c.is_guest, c.exp)),
        r is Err ==> (r == Err::<RgUserData, HttpErrors>(HttpErrors::NoTokenProvided) || r
            == Err::<RgUserData, HttpErrors>(HttpErrors::InvalidJWT)),
{
    let token = match header {
        Some(h) => bearer_token(h),
        None => None,
    };
    let claims = match &token {
        Some(t) => decode_at(t.as_str(), secret, now),
        None => None,
    };
    user_info(token, claims, now)
}

/// The claims of a token that checks out against `secret` and has not
/// expired by the clock.
pub fn decode(token: &str, secret: &str) -> (r: Option<RgUserData>)
    ensures
        r matches Some(c) ==> c.exp > 0 && jwt_payload_claims(token@) == Some(
            (c.id@, c.name@, c.is_guest, c.exp),
        ),
        r is Some ==> jwt_verifies(token@, secret@),
{
    decode_at(token, secret, current_timestamp())
}

/// The claims of the bearer token of an `Authorization` header, checked
/// against the clock (see `get_user_info_at`).
pub fn get_user_info(header: Option<&str>, secret: &str) -> (r: Result<RgUserData, HttpErrors>)
    ensures
        header is None ==> r == Err::<RgUserData, HttpErrors>(HttpErrors::NoTokenProvided),
        header matches Some(h) && !(7 <= h@.len() && h@.subrange(0, 7) == "Bearer "@) ==> r
            == Err::<RgUserData, HttpErrors>(HttpErrors::NoTokenProvided),
        r matches Ok(c) ==> c.exp > 0,
        header matches Some(h) && 7 <= h@.len() && h@.subrange(0, 7) == "Bearer "@ ==> (r is Ok
            || r == Err::<RgUserData, HttpErrors>(HttpErrors::InvalidJWT)),
        r matches Ok(c) ==> header matches Some(h) && jwt_verifies(h@.skip(7), secret@)
            && jwt_payload_claims(h@.skip(7)) == Some((c.id@, c.name@, c.is_guest, c.exp)),
        r is Err ==> (r == Err::<RgUserData, HttpErrors>(HttpErrors::NoTokenProvided) || r
            == Err::<RgUserData, HttpErrors>(HttpErrors::InvalidJWT)),
{
    get_user_info_at(header, secret, current_timestamp())
}

/// The secret tokens are signed with: the configured one unless it is
/// blank, otherwise a fresh random one for this process: two random UUIDs
/// in their simple form, 64 hexadecimal digits.
pub fn initialize(configured: Option<String>) -> (r: String)
    ensures
        (configured matches Some(s) && trim_spec(s@).len() > 0) ==> r == configured->0,
        !(configured matches Some(s) && trim_spec(s@).len() > 0) ==> exists|a: u128, b: u128|
            r@ == uuid_simple_text(a) + uuid_simple_text(b),
{
    match configured {
        Some(s) => {
            let trimmed = trim(s.as_str());
            if trimmed.as_str().unicode_len() > 0 {
                return s;
            }
        },
        None => {},
    }
    let a = new_project_id();
    let b = new_project_id();
    let mut out: Vec<char> = Vec::new();
    crate::text::push_chars(&mut out, format_uuid_simple(a).as_str());
    crate::text::push_chars(&mut out, format_uuid_simple(b).as_str());
    assert(out@ == uuid_simple_text(a) + uuid_simple_text(b));
    crate::text::string_from_chars(out.as_slice())
}

/// Whether a registry can take the name of `id`: it knows `id` already, or
/// it has room for one more user.
pub open spec fn has_room(registry: UserRegistry, id: Seq<char>) -> bool {
    registry.view().contains_key(id) || registry.view().dom().len() < registry.capacity()
}

/// Records the name of the user the claims are for and signs them; a new
/// user is refused once the registry is full.
pub fn issue_token(registry: &mut UserRegistry, claims: RgUserData, secret: &str) -> (r: Result<
    (RgUserData, String),
    HttpErrors,
>)
    requires
        old(registry).wf(),
    ensures
        final(registry).wf(),
        final(registry).capacity() == old(registry).capacity(),
        !has_room(*old(registry), claims.id@) ==> r == Err::<(RgUserData, String), HttpErrors>(
            HttpErrors::UserLimitReached,
        ) && final(registry).view() == old(registry).view(),
        has_room(*old(registry), claims.id@) ==> final(registry).view() == old(
            registry,
        ).view().insert(claims.id@, claims.name@) && (r matches Ok((c, t)) && c == claims && t@
            == jwt_token(claims.id@, claims.name@, claims.is_guest, claims.exp, secret@)),
{
    if !registry.add_username(claims.id.clone(), claims.name.clone()) {
        return Err(HttpErrors::UserLimitReached);
    }
    let c = RgUserData {
        id: claims.id.clone(),
        name: claims.name.clone(),
        is_guest: claims.is_guest,
        exp: claims.exp,
    };
    match claims.encode(secret) {
        Ok(t) => Ok((c, t)),
        Err(e) => Err(e),
    }
}

/// A guest logs in under a name: it must be valid once trimmed; the guest
/// gets a fresh random id and a token that lasts twelve hours. A full
/// registry refuses the guest unless it already knows the id.
pub fn login_guest(registry: &mut UserRegistry, guest_name: &str, secret: &str) -> (r: Result<
    (RgUserData, String),
    HttpErrors,
>)
    requires
        old(registry).wf(),
    ensures
        final(registry).wf(),
        !valid_guest_name(trim_spec(guest_name@)) ==> r == Err::<(RgUserData, String), HttpErrors>(
            HttpErrors::InvalidGuestName,
        ) && final(registry).view() == old(registry).view(),
        valid_guest_name(trim_spec(guest_name@)) ==> match r {
            Ok((c, t)) => {
                &&& c.is_guest
                &&& c.name@ == trim_spec(guest_name@)
                &&& exists|n: u128| c.id@ == uuid_text(n)
                &&& final(registry).view() == old(registry).view().insert(c.id@, c.name@)
                &&& t@ == jwt_token(c.id@, c.name@, c.is_guest, c.exp, secret@)
            },
            Err(e) => {
                &&& e == HttpErrors::UserLimitReached
                &&& old(registry).view().dom().len() >= old(registry).capacity()
                &&& final(registry).view() == old(registry).view()
            },
        },
{
    let name = match validate_guest_name(guest_name) {
        Ok(n) => n,
        Err(e) => {
            return Err(e);
        },
    };
    let id = format_uuid(new_project_id());
    let claims = RgUserData::new(id, name, true);
    issue_token(registry, claims, secret)
}

/// A guest renames itself: GitHub users keep their login; the new name must
/// be valid once trimmed; the guest keeps its id and gets a new token.
pub fn update_name(registry: &mut UserRegistry, user: &RgUserData, new_name: &str, secret: &str) -> (r:
    Result<(RgUserData, String), HttpErrors>)
    requires
        old(registry).wf(),
    ensures
        final(registry).wf(),
        !user.is_guest ==> r == Err::<(RgUserData, String), HttpErrors>(
            HttpErrors::GithubNameChange,
        ) && final(registry).view() == old(registry).view(),
        user.is_guest && !valid_guest_name(trim_spec(new_name@)) ==> r == Err::<
            (RgUserData, String),
            HttpErrors,
        >(HttpErrors::InvalidGuestName) && final(registry).view() == old(registry).view(),
        user.is_guest && valid_guest_name(trim_spec(new_name@)) ==> match r {
            Ok((c, t)) => {
                &&& c.is_guest
                &&& c.id == user.id
                &&& c.name@ == trim_spec(new_name@)
                &&& final(registry).view() == old(registry).view().insert(c.id@, c.name@)
                &&& t@ == jwt_token(c.id@, c.name@, c.is_guest, c.exp, secret@)
            },
            Err(e) => {
                &&& e == HttpErrors::UserLimitReached
                &&& !has_room(*old(registry), user.id@)
                &&& final(registry).view() == old(registry).view()
            },
        },
{
    let name = match validate_name_update(user, new_name) {
        Ok(n) => n,
        Err(e) => {
            return Err(e);
        },
    };
    let claims = RgUserData::new(user.id.clone(), name, true);
    issue_token(registry, claims, secret)
}

/// A GitHub user logs in: the login is both id and name.
pub fn login_github(registry: &mut UserRegistry, login: String, secret: &str) -> (r: Result<
    (RgUserData, String),
    HttpErrors,
>)
    requires
        old(registry).wf(),
    ensures
        final(registry).wf(),
        has_room(*old(registry), login@) ==> (r matches Ok((c, t)) && !c.is_guest && c.id@
            == login@ && c.name@ == login@ && final(registry).view() == old(registry).view().insert(
            login@,
            login@,
        ) && t@ == jwt_token(login@, login@, false, c.exp, secret@)),
        !has_room(*old(registry), login@) ==> r == Err::<(RgUserData, String), HttpErrors>(
            HttpErrors::UserLimitReached,
        ) && final(registry).view() == old(registry).view(),
{
    let claims = RgUserData::new(login.clone(), login, false);
    issue_token(registry, claims, secret)
}

/// The settings the GitHub OAuth client is built from.
#[derive(Debug, Clone, PartialEq, Eq)]
pub struct GithubOAuthConfig {
    pub client_id: String,
    pub client_secret: String,
    pub redirect_url: String,
}

/// The OAuth client of the server, when GitHub login is configured.
#[derive(Debug, Clone, PartialEq, Eq)]
pub struct OAuthData {
    pub client: Option<GithubOAuthConfig>,
}

/// Whether `url` parses as a URL (`url::Url::parse`).
pub uninterp spec fn url_parses(url: Seq<char>) -> bool;

/// Calls `oauth2::RedirectUrl::new`, which parses the text with
/// `url::Url::parse`.
#[verifier::external_body]
fn redirect_url_is_valid(url: &str) -> (r: bool)
    ensures
        r == url_parses(url@),
{
    oauth2::RedirectUrl::new(url.to_owned()).is_ok()
}

/// A configured value: present and not blank.
pub open spec fn configured(v: Option<String>) -> bool {
    v matches Some(s) && trim_spec(s@).len() > 0
}

fn is_configured(v: &Option<String>) -> (r: bool)
    ensures
        r == configured(*v),
{
    match v {
        Some(s) => trim(s.as_str()).as_str().unicode_len() > 0,
        None => false,
    }
}

impl OAuthData {
    /// GitHub login is configured when the client id, the client secret and
    /// the callback URL are all given, not blank, and the callback parses
    /// as a URL.
    pub fn new(client_id: Option<String>, client_secret: Option<String>, callback: Option<String>) -> (r:
        OAuthData)
        ensures
            r.client is Some <==> (configured(client_id) && configured(client_secret) && configured(
                callback,
            ) && url_parses(callback->0@)),
            r.client matches Some(c) ==> Some(c.client_id) == client_id && Some(c.client_secret)
                == client_secret && Some(c.redirect_url) == callback,
    {
        if !is_configured(&client_id) || !is_configured(&client_secret) || !is_configured(
            &callback,
        ) {
            return OAuthData { client: None };
        }
        let (client_id, client_secret, callback) = match (client_id, client_secret, callback) {
            (Some(a), Some(b), Some(c)) => (a, b, c),
            _ => {
                return OAuthData { client: None };
            },
        };
        if !redirect_url_is_valid(callback.as_str()) {
            return OAuthData { client: None };
        }
        OAuthData {
            client: Some(GithubOAuthConfig { client_id, client_secret, redirect_url: callback }),
        }
    }

    /// The configuration, or `OAuthNotConfigured`.
    pub fn config(&self) -> (r: Result<&GithubOAuthConfig, HttpErrors>)
        ensures
            self.client is None ==> r == Err::<&GithubOAuthConfig, HttpErrors>(
                HttpErrors::OAuthNotConfigured,
            ),
            self.client matches Some(c) ==> r == Ok::<&GithubOAuthConfig, HttpErrors>(&c),
    {
        match &self.client {
            Some(c) => Ok(c),
            None => Err(HttpErrors::OAuthNotConfigured),
        }
    }
}

} // verus!
