//! GitHub authorisation: how the cached OAuth token is stored and read back,
//! and which way of authorising the configuration calls for.
use vstd::prelude::*;

verus! {

/// The earliest second that `chrono::DateTime<Utc>` can hold
/// (`-262143-01-01T00:00:00Z`).
pub const MIN_TIMESTAMP: i64 = -8_334_601_228_800;

/// The last second that `chrono::DateTime<Utc>` can hold
/// (`+262142-12-31T23:59:59Z`).
pub const MAX_TIMESTAMP: i64 = 8_210_266_876_799;

/// Calls `chrono::Utc::now()` and gives its Unix timestamp and the
/// nanoseconds past that second.  The contract claims what holds of every
/// reading: `Utc::now` builds its value with `DateTime::from_timestamp`
/// from the system clock's time since the Unix epoch, so the seconds lie
/// within the range of `DateTime<Utc>`, and the nanoseconds are
/// `Duration::subsec_nanos`, below one billion.  Which instant comes back is
/// left open.  `Utc::now` panics when the system clock reads before 1970 or
/// past the last date it can hold; that is a state of the machine, which no
/// argument can exclude.
#[verifier::external_body]
fn utc_now() -> (res: (i64, u32))
    ensures
        MIN_TIMESTAMP <= res.0 <= MAX_TIMESTAMP,
        res.1 < 1_000_000_000,
{
    let now = chrono::Utc::now();
    (now.timestamp(), now.timestamp_subsec_nanos())
}

/// Whether `chrono::DateTime::from_timestamp(secs, 0)` gives a date: with no
/// nanoseconds it does exactly when `secs` lies from [`MIN_TIMESTAMP`] to
/// [`MAX_TIMESTAMP`], the first and last second of the dates it can hold.
pub open spec fn timestamp_in_range(secs: i64) -> bool {
    MIN_TIMESTAMP <= secs <= MAX_TIMESTAMP
}

/// An OAuth token as GitHub grants it: lifetimes in seconds from now.
pub struct OAuthToken {
    pub access_token: String,
    pub token_type: String,
    pub scope: Vec<String>,
    pub refresh_token: Option<String>,
    pub expires_in: Option<usize>,
    pub refresh_token_expires_in: Option<usize>,
}

/// An OAuth token as it is cached: expiry as absolute Unix timestamps.
pub struct CachedAuth {
    pub access_token: String,
    pub token_type: String,
    pub scope: Vec<String>,
    pub refresh_token: Option<String>,
    pub expires_at: Option<i64>,
    pub refresh_token_expires_at: Option<i64>,
}

/// The absolute expiry of a lifetime that starts at `now`.
pub open spec fn expiry_at(now: i64, lifetime: Option<usize>) -> Option<i64> {
    match lifetime {
        Some(secs) => Some((now + (secs as i64)) as i64),
        None => None,
    }
}

/// Whether the expiry of a lifetime that starts at `now` fits in an `i64`.
pub open spec fn expiry_fits(now: i64, lifetime: Option<usize>) -> bool {
    match lifetime {
        Some(secs) => i64::MIN <= now + (secs as i64) <= i64::MAX,
        None => true,
    }
}

/// The whole seconds from the instant `now` (seconds, nanoseconds) until
/// the timestamp `ts`, as `(dt - now).num_seconds()` counts them: the
/// difference truncated toward zero.
pub open spec fn seconds_until(ts: i64, now: (i64, u32)) -> int {
    if now.1 > 0 && ts > now.0 {
        ts - now.0 - 1
    } else {
        ts - now.0
    }
}

/// What is left at `now` of a lifetime that ends at `ts`: nothing left
/// counts as zero; a timestamp out of the range of dates gives no lifetime.
pub open spec fn remaining_at(ts: Option<i64>, now: (i64, u32)) -> Option<usize> {
    match ts {
        Some(t) => if timestamp_in_range(t) {
            Some(
                (if seconds_until(t, now) > 0 {
                    seconds_until(t, now)
                } else {
                    0
                }) as usize,
            )
        } else {
            None
        },
        None => None,
    }
}

/// Whether a lifetime can be added to any time that the clock gives
/// without leaving the range of `i64`.
pub open spec fn cacheable_lifetime(lifetime: Option<usize>) -> bool {
    match lifetime {
        Some(secs) => i64::MIN - MIN_TIMESTAMP <= (secs as i64) <= i64::MAX - MAX_TIMESTAMP,
        None => true,
    }
}

fn expiry(now: i64, lifetime: Option<usize>) -> (res: Option<i64>)
    requires
        expiry_fits(now, lifetime),
    ensures
        res == expiry_at(now, lifetime),
{
    match lifetime {
        Some(secs) => Some(now + secs as i64),
        None => None,
    }
}

fn remaining(ts: Option<i64>, now: (i64, u32)) -> (res: Option<usize>)
    requires
        MIN_TIMESTAMP <= now.0 <= MAX_TIMESTAMP,
        now.1 < 1_000_000_000,
    ensures
        res == remaining_at(ts, now),
{
    match ts {
        Some(t) => {
            if MIN_TIMESTAMP <= t && t <= MAX_TIMESTAMP {
                let diff = if now.1 > 0 && t > now.0 {
                    t - now.0 - 1
                } else {
                    t - now.0
                };
                let clamped = if diff > 0 {
                    diff
                } else {
                    0
                };
                Some(clamped as usize)
            } else {
                None
            }
        },
        None => None,
    }
}

impl CachedAuth {
    /// The token as it is cached at the Unix time `now`: each lifetime
    /// becomes `now` plus that many seconds.
    pub fn from_oauth_at(auth: &OAuthToken, now: i64) -> (res: CachedAuth)
        requires
            expiry_fits(now, auth.expires_in),
            expiry_fits(now, auth.refresh_token_expires_in),
        ensures
            res.access_token@ == auth.access_token@,
            res.token_type@ == auth.token_type@,
            res.scope@ == auth.scope@,
            res.refresh_token == auth.refresh_token,
            res.expires_at == expiry_at(now, auth.expires_in),
            res.refresh_token_expires_at == expiry_at(now, auth.refresh_token_expires_in),
    {
        CachedAuth {
            access_token: auth.access_token.clone(),
            token_type: auth.token_type.clone(),
            scope: auth.scope.clone(),
            refresh_token: match &auth.refresh_token {
                Some(t) => Some(t.clone()),
                None => None,
            },
            expires_at: expiry(now, auth.expires_in),
            refresh_token_expires_at: expiry(now, auth.refresh_token_expires_in),
        }
    }

    /// The token as it is cached now, by the system clock.
    pub fn from_oauth(auth: &OAuthToken) -> (res: CachedAuth)
        requires
            cacheable_lifetime(auth.expires_in),
            cacheable_lifetime(auth.refresh_token_expires_in),
        ensures
            res.access_token@ == auth.access_token@,
            res.token_type@ == auth.token_type@,
            res.scope@ == auth.scope@,
            res.refresh_token == auth.refresh_token,
            exists|now: i64|
                MIN_TIMESTAMP <= now <= MAX_TIMESTAMP && res.expires_at == expiry_at(now, auth.expires_in)
                    && res.refresh_token_expires_at == expiry_at(
                    now,
                    auth.refresh_token_expires_in,
                ),
    {
        let (now, _) = utc_now();
        CachedAuth::from_oauth_at(auth, now)
    }

    /// The cached token as a token at the instant `now` (seconds,
    /// nanoseconds): each expiry becomes what is left of it, zero when it
    /// has passed.
    pub fn into_oauth_at(self, now: (i64, u32)) -> (res: OAuthToken)
        requires
            MIN_TIMESTAMP <= now.0 <= MAX_TIMESTAMP,
            now.1 < 1_000_000_000,
        ensures
            res.access_token@ == self.access_token@,
            res.token_type@ == self.token_type@,
            res.scope@ == self.scope@,
            res.refresh_token == self.refresh_token,
            res.expires_in == remaining_at(self.expires_at, now),
            res.refresh_token_expires_in == remaining_at(self.refresh_token_expires_at, now),
    {
        let expires_in = remaining(self.expires_at, now);
        let refresh_token_expires_in = remaining(self.refresh_token_expires_at, now);
        OAuthToken {
            access_token: self.access_token,
            token_type: self.token_type,
            scope: self.scope,
            refresh_token: self.refresh_token,
            expires_in,
            refresh_token_expires_in,
        }
    }

    /// The cached token as a token now, by the system clock.
    pub fn into_oauth(self) -> (res: OAuthToken)
        ensures
            res.access_token@ == self.access_token@,
            res.token_type@ == self.token_type@,
            res.scope@ == self.scope@,
            res.refresh_token == self.refresh_token,
            exists|now: (i64, u32)|
                MIN_TIMESTAMP <= now.0 <= MAX_TIMESTAMP && now.1 < 1_000_000_000 && res.expires_in
                    == remaining_at(self.expires_at, now) && res.refresh_token_expires_in
                    == remaining_at(self.refresh_token_expires_at, now),
    {
        let now = utc_now();
        self.into_oauth_at(now)
    }
}

impl OAuthToken {
    /// Whether the token has expired: nothing is left of its lifetime.
    pub fn is_expired(&self) -> (res: bool)
        ensures
            res == (self.expires_in == Some(0usize)),
    {
        match self.expires_in {
            Some(secs) => secs == 0,
            None => false,
        }
    }
}

/// What is left of a lifetime that was cached and read back at instants
/// `n` seconds and `nanos` nanoseconds apart, when nothing has passed or
/// the cached expiry was a whole number of seconds away.
pub open spec fn lifetime_after_round_trip(lifetime: Option<usize>, nanos: u32) -> Option<usize> {
    match lifetime {
        Some(secs) => Some(
            if nanos > 0 && secs > 0 {
                (secs - 1) as usize
            } else {
                secs
            },
        ),
        None => None,
    }
}

/// A token cached at the Unix second `now` and read back within that second
/// keeps its access token, type, scope and refresh token, and its lifetimes:
/// exactly when read at the start of the second, else less the part of a
/// second that has passed, in whole seconds.
pub proof fn law_cache_round_trip(auth: OAuthToken, now: i64, nanos: u32)
    requires
        MIN_TIMESTAMP <= now <= MAX_TIMESTAMP,
        nanos < 1_000_000_000,
        match auth.expires_in {
            Some(secs) => secs <= MAX_TIMESTAMP - now,
            None => true,
        },
        match auth.refresh_token_expires_in {
            Some(secs) => secs <= MAX_TIMESTAMP - now,
            None => true,
        },
    ensures
        expiry_fits(now, auth.expires_in),
        expiry_fits(now, auth.refresh_token_expires_in),
        remaining_at(expiry_at(now, auth.expires_in), (now, nanos)) == lifetime_after_round_trip(
            auth.expires_in,
            nanos,
        ),
        remaining_at(expiry_at(now, auth.refresh_token_expires_in), (now, nanos))
            == lifetime_after_round_trip(auth.refresh_token_expires_in, nanos),
{
}

/// A cached expiry that is not after the current second reads back as
/// nothing left.
pub proof fn law_expired_cache_clamps_to_zero(ts: i64, now: (i64, u32))
    requires
        MIN_TIMESTAMP <= ts <= now.0 <= MAX_TIMESTAMP,
    ensures
        remaining_at(Some(ts), now) == Some(0usize),
{
}

/// Where the configuration says the GitHub token comes from.
#[derive(PartialEq, Eq, Structural, Clone, Copy, Debug)]
pub enum TokenSource {
    /// A personal access token.
    PersonalToken,
    /// A user access token.
    UserAccessToken,
    /// An OAuth app, by its client id: the cached token, or a new one by the
    /// device flow.
    OAuthApp,
    /// No token configured: only a cached one can serve.
    CacheOnly,
}

/// Why GitHub authorisation cannot start.
#[derive(PartialEq, Eq, Structural, Clone, Copy, Debug)]
pub enum AuthError {
    MissingGithubToken,
    MultipleGithubTokens,
}

impl AuthError {
    /// The text that the error displays.
    pub fn message(&self) -> (res: &'static str)
        ensures
            res@ == match self {
                AuthError::MissingGithubToken => "Missing Github token"@,
                AuthError::MultipleGithubTokens => "None, or multiple Github tokens provided"@,
            },
    {
        match self {
            AuthError::MissingGithubToken => "Missing Github token",
            AuthError::MultipleGithubTokens => "None, or multiple Github tokens provided",
        }
    }
}

/// The source of the token, from which of a personal access token, a user
/// access token and an OAuth client id are configured: exactly one of them,
/// or none; any two or more are an error.
pub fn token_source(personal_token: bool, user_access_token: bool, client_id: bool) -> (res: Result<TokenSource, AuthError>)
    ensures
        res == match (personal_token, user_access_token, client_id) {
            (true, false, false) => Ok(TokenSource::PersonalToken),
            (false, true, false) => Ok(TokenSource::UserAccessToken),
            (false, false, true) => Ok(TokenSource::OAuthApp),
            (false, false, false) => Ok(TokenSource::CacheOnly),
            _ => Err(AuthError::MultipleGithubTokens),
        },
{
    match (personal_token, user_access_token, client_id) {
        (true, false, false) => Ok(TokenSource::PersonalToken),
        (false, true, false) => Ok(TokenSource::UserAccessToken),
        (false, false, true) => Ok(TokenSource::OAuthApp),
        (false, false, false) => Ok(TokenSource::CacheOnly),
        _ => Err(AuthError::MultipleGithubTokens),
    }
}

/// How the client authorises.
#[derive(PartialEq, Eq, Structural, Clone, Copy, Debug)]
pub enum AuthStep {
    UsePersonalToken,
    UseUserAccessToken,
    /// Use the cached OAuth token, refreshed first when `refresh` holds.
    UseCachedOAuth { refresh: bool },
    /// Get a new OAuth token by the device flow, then cache it.
    AuthorizeDevice,
}

/// How to authorise, given the token source and, for the sources that use
/// it, whether a cached token was found (`Some(expired)`) or not (`None`).
/// An OAuth app refreshes an expired cached token; without a configured
/// token the cached one is used as it is.
pub fn auth_step(source: TokenSource, cached: Option<bool>) -> (res: Result<AuthStep, AuthError>)
    ensures
        res == match (source, cached) {
            (TokenSource::PersonalToken, _) => Ok(AuthStep::UsePersonalToken),
            (TokenSource::UserAccessToken, _) => Ok(AuthStep::UseUserAccessToken),
            (TokenSource::OAuthApp, Some(expired)) => Ok(AuthStep::UseCachedOAuth { refresh: expired }),
            (TokenSource::OAuthApp, None) => Ok(AuthStep::AuthorizeDevice),
            (TokenSource::CacheOnly, Some(_)) => Ok(AuthStep::UseCachedOAuth { refresh: false }),
            (TokenSource::CacheOnly, None) => Err(AuthError::MissingGithubToken),
        },
{
    match (source, cached) {
        (TokenSource::PersonalToken, _) => Ok(AuthStep::UsePersonalToken),
        (TokenSource::UserAccessToken, _) => Ok(AuthStep::UseUserAccessToken),
        (TokenSource::OAuthApp, Some(expired)) => Ok(AuthStep::UseCachedOAuth { refresh: expired }),
        (TokenSource::OAuthApp, None) => Ok(AuthStep::AuthorizeDevice),
        (TokenSource::CacheOnly, Some(_)) => Ok(AuthStep::UseCachedOAuth { refresh: false }),
        (TokenSource::CacheOnly, None) => Err(AuthError::MissingGithubToken),
    }
}

} // verus!
