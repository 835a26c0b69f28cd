use sentinel::github::{
    auth_step, token_source, AuthError, AuthStep, CachedAuth, OAuthToken, TokenSource,
    MAX_TIMESTAMP, MIN_TIMESTAMP,
};

fn sample_token() -> OAuthToken {
    OAuthToken {
        access_token: "access-token".to_string(),
        token_type: "bearer".to_string(),
        scope: vec!["repo".to_string(), "read:org".to_string()],
        expires_in: Some(3600),
        refresh_token: Some("refresh".to_string()),
        refresh_token_expires_in: Some(7200),
    }
}

/// The cached token as JSON, an object with one member per field, as the
/// keyring entry holds it.
fn to_json(cached: CachedAuth) -> String {
    let mut object = serde_json::Map::new();
    object.insert("access_token".to_string(), serde_json::to_value(cached.access_token).unwrap());
    object.insert("token_type".to_string(), serde_json::to_value(cached.token_type).unwrap());
    object.insert("scope".to_string(), serde_json::to_value(cached.scope).unwrap());
    object.insert("refresh_token".to_string(), serde_json::to_value(cached.refresh_token).unwrap());
    object.insert("expires_at".to_string(), serde_json::to_value(cached.expires_at).unwrap());
    object.insert(
        "refresh_token_expires_at".to_string(),
        serde_json::to_value(cached.refresh_token_expires_at).unwrap(),
    );
    serde_json::to_string(&serde_json::Value::Object(object)).unwrap()
}

fn member<T: serde::de::DeserializeOwned>(object: &serde_json::Value, name: &str) -> T {
    serde_json::from_value(object[name].clone()).unwrap()
}

fn from_json(json: &[u8]) -> CachedAuth {
    let object: serde_json::Value = serde_json::from_slice(json).unwrap();
    CachedAuth {
        access_token: member(&object, "access_token"),
        token_type: member(&object, "token_type"),
        scope: member(&object, "scope"),
        refresh_token: member(&object, "refresh_token"),
        expires_at: member(&object, "expires_at"),
        refresh_token_expires_at: member(&object, "refresh_token_expires_at"),
    }
}

#[test]
fn oauth_cache_round_trip() {
    let auth = sample_token();
    let json = to_json(CachedAuth::from_oauth(&auth));
    let back = from_json(json.as_bytes()).into_oauth();
    assert_eq!(back.access_token, "access-token");
    assert_eq!(back.token_type, "bearer");
    assert_eq!(back.scope, vec!["repo", "read:org"]);
    assert_eq!(back.refresh_token.unwrap(), "refresh");
    assert!((3599..=3600).contains(&back.expires_in.unwrap()));
    assert!((7199..=7200).contains(&back.refresh_token_expires_in.unwrap()));
}

#[test]
fn expired_cache_clamps_to_zero() {
    let cached = CachedAuth {
        access_token: "x".to_string(),
        token_type: "bearer".to_string(),
        scope: vec![],
        refresh_token: None,
        expires_at: Some(chrono::Utc::now().timestamp() - 60),
        refresh_token_expires_at: None,
    };
    let back = cached.into_oauth();
    assert_eq!(back.expires_in, Some(0));
    assert_eq!(back.refresh_token_expires_in, None);
}

#[test]
fn cache_round_trip_at_a_whole_second_is_exact() {
    let auth = sample_token();
    let cached = CachedAuth::from_oauth_at(&auth, 1_700_000_000);
    assert_eq!(cached.expires_at, Some(1_700_003_600));
    assert_eq!(cached.refresh_token_expires_at, Some(1_700_007_200));
    let back = cached.into_oauth_at((1_700_000_000, 0));
    assert_eq!(back.expires_in, Some(3600));
    assert_eq!(back.refresh_token_expires_in, Some(7200));
    assert_eq!(back.access_token, "access-token");
}

#[test]
fn cache_read_back_within_a_second_loses_the_part_second() {
    let auth = sample_token();
    let cached = CachedAuth::from_oauth_at(&auth, 1_700_000_000);
    let back = cached.into_oauth_at((1_700_000_000, 500_000_000));
    assert_eq!(back.expires_in, Some(3599));
    assert_eq!(back.refresh_token_expires_in, Some(7199));
}

#[test]
fn expiry_at_the_current_second_is_zero_and_past_one_is_zero() {
    let cached = CachedAuth {
        access_token: "x".to_string(),
        token_type: "bearer".to_string(),
        scope: vec![],
        refresh_token: None,
        expires_at: Some(100),
        refresh_token_expires_at: Some(40),
    };
    let back = cached.into_oauth_at((100, 250));
    assert_eq!(back.expires_in, Some(0));
    assert_eq!(back.refresh_token_expires_in, Some(0));
}

#[test]
fn expiry_outside_the_range_of_dates_reads_back_as_none() {
    let cached = CachedAuth {
        access_token: "x".to_string(),
        token_type: "bearer".to_string(),
        scope: vec![],
        refresh_token: None,
        expires_at: Some(MAX_TIMESTAMP + 1),
        refresh_token_expires_at: Some(MIN_TIMESTAMP - 1),
    };
    let back = cached.into_oauth_at((0, 0));
    assert_eq!(back.expires_in, None);
    assert_eq!(back.refresh_token_expires_in, None);
    let edge = CachedAuth {
        access_token: "x".to_string(),
        token_type: "bearer".to_string(),
        scope: vec![],
        refresh_token: None,
        expires_at: Some(MAX_TIMESTAMP),
        refresh_token_expires_at: Some(MIN_TIMESTAMP),
    };
    let back = edge.into_oauth_at((0, 0));
    assert_eq!(back.expires_in, Some(MAX_TIMESTAMP as usize));
    assert_eq!(back.refresh_token_expires_in, Some(0));
}

#[test]
fn cached_expiry_uses_the_system_clock() {
    let before = chrono::Utc::now().timestamp();
    let cached = CachedAuth::from_oauth(&sample_token());
    let after = chrono::Utc::now().timestamp();
    let at = cached.expires_at.unwrap();
    assert!(before + 3600 <= at && at <= after + 3600);
}

#[test]
fn expired_token_has_nothing_left() {
    let mut token = sample_token();
    assert!(!token.is_expired());
    token.expires_in = Some(0);
    assert!(token.is_expired());
    token.expires_in = None;
    assert!(!token.is_expired());
}

#[test]
fn exactly_one_configured_token_picks_its_source() {
    assert_eq!(token_source(true, false, false), Ok(TokenSource::PersonalToken));
    assert_eq!(token_source(false, true, false), Ok(TokenSource::UserAccessToken));
    assert_eq!(token_source(false, false, true), Ok(TokenSource::OAuthApp));
    assert_eq!(token_source(false, false, false), Ok(TokenSource::CacheOnly));
    assert_eq!(token_source(true, true, false), Err(AuthError::MultipleGithubTokens));
    assert_eq!(token_source(true, false, true), Err(AuthError::MultipleGithubTokens));
    assert_eq!(token_source(true, true, true), Err(AuthError::MultipleGithubTokens));
}

#[test]
fn auth_steps_follow_the_cache() {
    assert_eq!(auth_step(TokenSource::PersonalToken, None), Ok(AuthStep::UsePersonalToken));
    assert_eq!(auth_step(TokenSource::UserAccessToken, Some(true)), Ok(AuthStep::UseUserAccessToken));
    assert_eq!(
        auth_step(TokenSource::OAuthApp, Some(true)),
        Ok(AuthStep::UseCachedOAuth { refresh: true })
    );
    assert_eq!(
        auth_step(TokenSource::OAuthApp, Some(false)),
        Ok(AuthStep::UseCachedOAuth { refresh: false })
    );
    assert_eq!(auth_step(TokenSource::OAuthApp, None), Ok(AuthStep::AuthorizeDevice));
    assert_eq!(
        auth_step(TokenSource::CacheOnly, Some(true)),
        Ok(AuthStep::UseCachedOAuth { refresh: false })
    );
    assert_eq!(auth_step(TokenSource::CacheOnly, None), Err(AuthError::MissingGithubToken));
}

#[test]
fn auth_error_messages() {
    assert_eq!(AuthError::MissingGithubToken.message(), "Missing Github token");
    assert_eq!(
        AuthError::MultipleGithubTokens.message(),
        "None, or multiple Github tokens provided"
    );
}
