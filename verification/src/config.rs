use vstd::prelude::*;

verus! {

/// How long a session token stays valid after a login, in seconds.
pub const SESSION_DURATION_SECONDS: u64 = 60 * 60 * 12;

/// Application configuration: the platform host, the user's name, the
/// selected course, and the session token with the time it was obtained
/// (seconds since the Unix epoch).
#[derive(Debug, Clone)]
pub struct Config {
    pub version: String,
    pub host: String,
    pub user: String,
    pub course: String,
    pub token: String,
    pub last_login_time: Option<i64>,
}

/// User settings of the application.
#[derive(Debug, Clone, Default)]
pub struct Settings {}

/// Relies on chrono: `Utc::now().timestamp()`, the current time in seconds
/// since the Unix epoch. The result depends on the system clock, so nothing
/// is promised of it.
#[verifier::external_body]
fn now_epoch_seconds() -> i64 {
    chrono::Utc::now().timestamp()
}

/// True when a token obtained at `last` is still valid at `now`: it does
/// not come from the future and has not yet aged past the session duration.
pub open spec fn token_valid_at(last: int, now: int) -> bool {
    last <= now && now - last < SESSION_DURATION_SECONDS
}

impl Config {
    /// Exact validity of the stored token at a given clock reading: there
    /// must be a recorded login, and it must still be within the session
    /// duration.
    pub fn token_valid_at_time(&self, now: i64) -> (r: bool)
        ensures
            r == (self.last_login_time is Some && token_valid_at(
                self.last_login_time->0 as int,
                now as int,
            )),
    {
        match self.last_login_time {
            Some(t) => t <= now && (now as i128 - t as i128) < SESSION_DURATION_SECONDS as i128,
            None => false,
        }
    }

    /// Whether the stored token is valid at the present moment. The clock
    /// is read once through [`now_epoch_seconds`]; for any given reading
    /// the answer is what [`Config::token_valid_at_time`] states.
    pub fn is_token_valid(&self) -> bool {
        self.token_valid_at_time(now_epoch_seconds())
    }
}

impl Default for Config {
    /// An unconfigured state: every field empty, no login recorded.
    fn default() -> (r: Config)
        ensures
            r.version@ == Seq::<char>::empty(),
            r.host@ == Seq::<char>::empty(),
            r.user@ == Seq::<char>::empty(),
            r.course@ == Seq::<char>::empty(),
            r.token@ == Seq::<char>::empty(),
            r.last_login_time is None,
    {
        Config {
            version: String::new(),
            host: String::new(),
            user: String::new(),
            course: String::new(),
            token: String::new(),
            last_login_time: None,
        }
    }
}

/// True when host, user and course are all set: nothing may touch the
/// network before this holds.
pub fn is_configured(cfg: &Config) -> (r: bool)
    ensures
        r == (cfg.user@.len() > 0 && cfg.course@.len() > 0 && cfg.host@.len() > 0),
{
    !cfg.user.as_str().is_empty() && !cfg.course.as_str().is_empty()
        && !cfg.host.as_str().is_empty()
}

} // verus!
