use rsground::auth::{
    bearer_token, check_deployment_secret, claims_at, check_oauth_state, decode, decode_at,
    get_user_info, get_user_info_at, initialize, is_production_env, login_github, login_guest, update_name,
    user_info, validate_guest_name, validate_name_update, HttpErrors, OAuthData, RgUserData,
    SecretError, JWT_EXPIRATION_SECS,
};
use rsground::users::UserRegistry;

fn current_timestamp() -> i64 {
    chrono::Utc::now().timestamp()
}

const SECRET: &str = "a test secret that is long enough for HS256";

#[test]
fn round_trips_user_data_and_bearer_headers() {
    let data = RgUserData::new("user-id".into(), "Ada".into(), true);
    let token = data.encode(SECRET).expect("test JWT should encode");
    let now = current_timestamp();
    let decoded = decode(&token, SECRET).expect("test JWT should decode");

    assert_eq!(decoded.id.as_str(), "user-id");
    assert_eq!(decoded.name.as_str(), "Ada");
    assert!(decoded.is_guest);

    let header = format!("{}{}", "Bearer ", token);
    assert_eq!(bearer_token(&header), Some(token.clone()));
    assert_eq!(
        get_user_info(Some(&header), SECRET).unwrap().id.as_str(),
        "user-id"
    );
}

#[test]
fn rejects_missing_invalid_and_expired_tokens() {
    let now = current_timestamp();
    assert!(matches!(
        get_user_info_at(None, SECRET, now),
        Err(HttpErrors::NoTokenProvided)
    ));

    let invalid = format!("{}not-a-jwt", "Bearer ");
    assert!(matches!(
        get_user_info_at(Some(&invalid), SECRET, now),
        Err(HttpErrors::InvalidJWT)
    ));

    assert!(bearer_token("Basic not-a-jwt").is_none());

    let expired = RgUserData {
        id: "expired".into(),
        name: "Expired".into(),
        is_guest: true,
        exp: current_timestamp() - 1,
    };
    let token = expired.encode(SECRET).expect("expired JWT should still encode");
    assert!(decode(&token, SECRET).is_none());
    assert!(decode_at(&token, SECRET, current_timestamp()).is_none());
}

#[test]
fn tokens_signed_with_another_secret_are_refused() {
    let data = RgUserData::new("user-id".into(), "Ada".into(), true);
    let token = data.encode(SECRET).unwrap();
    assert!(decode_at(&token, "another secret of sufficient length!!", current_timestamp()).is_none());
}

#[test]
fn claims_last_twelve_hours() {
    let data = RgUserData::new_at("id".into(), "name".into(), false, 1_000);
    assert_eq!(data.exp, 1_000 + 12 * 3600);
    assert_eq!(JWT_EXPIRATION_SECS, 43_200);
    assert!(!data.is_expired_at(1_000));
    assert!(data.is_expired_at(1_000 + 12 * 3600));
}

#[test]
fn user_info_distinguishes_missing_and_invalid_tokens() {
    let claims = RgUserData { id: "u".into(), name: "n".into(), is_guest: true, exp: 100 };
    assert_eq!(user_info(None, Some(claims.clone()), 10), Err(HttpErrors::NoTokenProvided));
    assert_eq!(user_info(Some("t".into()), None, 10), Err(HttpErrors::InvalidJWT));
    assert_eq!(user_info(Some("t".into()), Some(claims.clone()), 100), Err(HttpErrors::InvalidJWT));
    assert_eq!(user_info(Some("t".into()), Some(claims.clone()), 99), Ok(claims));
}

#[test]
fn guest_names_are_trimmed_and_bounded() {
    assert_eq!(validate_guest_name("  Ada  "), Ok("Ada".to_string()));
    assert_eq!(validate_guest_name("   "), Err(HttpErrors::InvalidGuestName));
    assert_eq!(validate_guest_name(&"a".repeat(65)), Err(HttpErrors::InvalidGuestName));
    assert_eq!(validate_guest_name(&"é".repeat(64)), Ok("é".repeat(64)));
}

#[test]
fn github_users_keep_their_login() {
    let github = RgUserData { id: "octo".into(), name: "octo".into(), is_guest: false, exp: 0 };
    assert_eq!(validate_name_update(&github, "New"), Err(HttpErrors::GithubNameChange));
    let guest = RgUserData { id: "g".into(), name: "old".into(), is_guest: true, exp: 0 };
    assert_eq!(validate_name_update(&guest, " New "), Ok("New".to_string()));
}

#[test]
fn guest_login_registers_the_name() {
    let mut registry = UserRegistry::new(1);
    let (claims, token) = login_guest(&mut registry, "  Grace ", SECRET).unwrap();
    assert!(claims.is_guest);
    assert_eq!(claims.name, "Grace");
    assert_eq!(registry.get_username(&claims.id), Some("Grace".to_string()));
    let decoded = decode_at(&token, SECRET, current_timestamp()).unwrap();
    assert_eq!(decoded, claims);

    assert_eq!(
        login_guest(&mut registry, "   ", SECRET).unwrap_err(),
        HttpErrors::InvalidGuestName
    );
    // The registry is full: a second guest is refused.
    assert_eq!(
        login_guest(&mut registry, "Ada", SECRET).unwrap_err(),
        HttpErrors::UserLimitReached
    );
    // The known guest may still rename itself.
    let (renamed, _) = update_name(&mut registry, &claims, "Grace Hopper", SECRET).unwrap();
    assert_eq!(renamed.id, claims.id);
    assert_eq!(registry.get_username(&claims.id), Some("Grace Hopper".to_string()));
}

#[test]
fn github_login_uses_the_login_as_id_and_name() {
    let mut registry = UserRegistry::new(10);
    let (claims, _) = login_github(&mut registry, "octocat".into(), SECRET).unwrap();
    assert_eq!(claims.id, "octocat");
    assert_eq!(claims.name, "octocat");
    assert!(!claims.is_guest);
}

#[test]
fn oauth_state_must_match_the_cookie() {
    let state = "abc".to_string();
    assert_eq!(check_oauth_state(Some("abc".into()), &state), Ok(()));
    assert_eq!(check_oauth_state(Some("abd".into()), &state), Err(HttpErrors::InvalidOAuthState));
    assert_eq!(check_oauth_state(None, &state), Err(HttpErrors::InvalidOAuthState));
}

#[test]
fn oauth_needs_all_three_settings() {
    let full = OAuthData::new(
        Some("id".into()),
        Some("secret".into()),
        Some("https://example.com/auth/callback".into()),
    );
    let config = full.config().unwrap();
    assert_eq!(config.client_id, "id");
    assert_eq!(config.redirect_url, "https://example.com/auth/callback");

    let blank = OAuthData::new(Some(" ".into()), Some("secret".into()), Some("https://e.com".into()));
    assert_eq!(blank.config(), Err(HttpErrors::OAuthNotConfigured));
    let missing = OAuthData::new(Some("id".into()), None, Some("https://e.com".into()));
    assert!(missing.client.is_none());
    let bad_url = OAuthData::new(Some("id".into()), Some("s".into()), Some("not a url".into()));
    assert!(bad_url.client.is_none());
}

#[test]
fn deployment_secrets_must_be_long() {
    assert_eq!(check_deployment_secret(None), Err(SecretError::Missing));
    assert_eq!(check_deployment_secret(Some("   ")), Err(SecretError::Missing));
    assert_eq!(check_deployment_secret(Some("short")), Err(SecretError::TooShort));
    assert_eq!(check_deployment_secret(Some(&"x".repeat(32))), Ok(()));
}

#[test]
fn configured_secret_is_kept_and_blank_one_replaced() {
    assert_eq!(initialize(Some("configured".into())), "configured");
    let random = initialize(Some("  ".into()));
    assert_eq!(random.len(), 64);
    assert!(random.chars().all(|c| c.is_ascii_hexdigit() && !c.is_ascii_uppercase()));
    assert_ne!(random, initialize(None));
}

#[test]
fn production_is_named_in_any_case() {
    assert!(is_production_env(Some("production")));
    assert!(is_production_env(Some("PROD")));
    assert!(is_production_env(Some("Production")));
    assert!(!is_production_env(Some("staging")));
    assert!(!is_production_env(Some("produc")));
    assert!(!is_production_env(None));
}

#[test]
fn claims_at_keeps_only_unexpired_claims() {
    let decoded = Some(("user-id".to_string(), "Ada".to_string(), true, 1_000i64));
    assert_eq!(
        claims_at(decoded.clone(), 999),
        Some(RgUserData { id: "user-id".into(), name: "Ada".into(), is_guest: true, exp: 1_000 })
    );
    assert_eq!(claims_at(decoded.clone(), 1_000), None);
    assert_eq!(claims_at(decoded, 5_000), None);
    assert_eq!(claims_at(None, 0), None);
}

#[test]
fn logins_with_room_register_the_user() {
    let mut registry = UserRegistry::new(2);
    let (guest, guest_token) = login_guest(&mut registry, " Ada ", SECRET).unwrap();
    assert_eq!(registry.get_username(&guest.id), Some("Ada".to_string()));
    assert_eq!(decode(&guest_token, SECRET), Some(guest.clone()));
    let (renamed, _) = update_name(&mut registry, &guest, "Grace", SECRET).unwrap();
    assert_eq!(renamed.id, guest.id);
    assert_eq!(registry.get_username(&guest.id), Some("Grace".to_string()));
    let (github, _) = login_github(&mut registry, "octocat".into(), SECRET).unwrap();
    assert_eq!(registry.get_username(&github.id), Some("octocat".to_string()));
    // Full, but a known login is still let in.
    assert!(login_github(&mut registry, "octocat".into(), SECRET).is_ok());
    assert_eq!(
        login_github(&mut registry, "hubot".into(), SECRET).unwrap_err(),
        HttpErrors::UserLimitReached
    );
}

#[test]
fn encoding_always_succeeds_and_decodes_back() {
    let claims = RgUserData { id: "i".into(), name: "n".into(), is_guest: false, exp: i64::MAX };
    let token = claims.clone().encode(SECRET).unwrap();
    assert_eq!(decode_at(&token, SECRET, 0), Some(claims));
}
