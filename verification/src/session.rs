//! Session and profile resolution, and session-name validation.
//!
//! Resolution is a pure precedence rule over three optional inputs:
//! explicit flag first, then the environment value, then the compiled-in
//! default.  The binary reads the environment once per invocation and
//! hands the values in; the rule itself is verified here.

use vstd::prelude::*;
use crate::config::Config;

verus! {

/// Resolves which session and profile a command runs under.
#[derive(Debug)]
pub struct SessionResolver {
    pub config: Config,
    /// The session-name environment value, read once by the binary.
    pub env_session: Option<String>,
    /// The profile environment value, read once by the binary.
    pub env_profile: Option<String>,
}

impl SessionResolver {
    /// A resolver with no environment values.
    pub fn new(config: Config) -> (r: Self)
        ensures
            r.config == config,
            r.env_session is None,
            r.env_profile is None,
    {
        SessionResolver { config, env_session: None, env_profile: None }
    }

    /// A resolver over environment values read by the caller.
    pub fn new_with_env(
        config: Config,
        env_session: Option<String>,
        env_profile: Option<String>,
    ) -> (r: Self)
        ensures
            r.config == config,
            r.env_session == env_session,
            r.env_profile == env_profile,
    {
        SessionResolver { config, env_session, env_profile }
    }

    /// The session to use: the explicit name if given, else the
    /// environment value, else the configured default.
    pub fn resolve(&self, explicit_session: Option<&str>) -> (r: String)
        ensures
            r@ == (match explicit_session {
                Some(e) => e@,
                None => match self.env_session {
                    Some(s) => s@,
                    None => self.config.default_session@,
                },
            }),
    {
        match explicit_session {
            Some(e) => String::from_str(e),
            None => match &self.env_session {
                Some(s) => s.clone(),
                None => self.config.default_session.clone(),
            },
        }
    }

    /// The profile to use: the explicit directory if given, else the
    /// environment value, else none (the system default profile).
    pub fn resolve_profile(&self, explicit_profile: Option<&str>) -> (r: Option<String>)
        ensures
            match explicit_profile {
                Some(e) => r matches Some(p) && p@ == e@,
                None => match self.env_profile {
                    Some(v) => r matches Some(p) && p@ == v@,
                    None => r is None,
                },
            },
    {
        match explicit_profile {
            Some(e) => Some(String::from_str(e)),
            None => match &self.env_profile {
                Some(v) => Some(v.clone()),
                None => None,
            },
        }
    }
}

/// The session for one invocation, over an environment value read by the
/// caller: explicit name first, then the environment, then the built-in
/// default session.
pub fn resolve_session(explicit_session: Option<&str>, env_session: Option<String>) -> (r: String)
    ensures
        r@ == (match explicit_session {
            Some(e) => e@,
            None => match env_session {
                Some(s) => s@,
                None => "default"@,
            },
        }),
{
    let resolver = SessionResolver::new_with_env(crate::config::load_config(), env_session, None);
    resolver.resolve(explicit_session)
}

/// The session and profile for one invocation, over environment values
/// read by the caller.
pub fn resolve_session_and_profile(
    explicit_session: Option<&str>,
    explicit_profile: Option<&str>,
    env_session: Option<String>,
    env_profile: Option<String>,
) -> (r: (String, Option<String>))
    ensures
        r.0@ == (match explicit_session {
            Some(e) => e@,
            None => match env_session {
                Some(s) => s@,
                None => "default"@,
            },
        }),
        match explicit_profile {
            Some(e) => r.1 matches Some(p) && p@ == e@,
            None => match env_profile {
                Some(v) => r.1 matches Some(p) && p@ == v@,
                None => r.1 is None,
            },
        },
{
    let resolver = SessionResolver::new_with_env(
        crate::config::load_config(),
        env_session,
        env_profile,
    );
    let session = resolver.resolve(explicit_session);
    let profile = resolver.resolve_profile(explicit_profile);
    (session, profile)
}

/// What `char::is_alphanumeric` holds of a character: it depends on the
/// character alone.
pub uninterp spec fn spec_alnum(c: char) -> bool;

/// Relies on `char::is_alphanumeric`: whether the character is a letter
/// or a digit, a function of the character alone.
#[verifier::external_body]
fn is_alnum(c: char) -> (r: bool)
    ensures
        r == spec_alnum(c),
{
    c.is_alphanumeric()
}

/// Whether a character may appear in a session name.
pub open spec fn spec_session_char(c: char) -> bool {
    spec_alnum(c) || c == '-' || c == '_'
}

/// A valid session name: non-empty, at most 64 characters, and only
/// letters, digits, dashes and underscores.
pub open spec fn spec_valid_session_name(s: Seq<char>) -> bool {
    &&& s.len() >= 1
    &&& s.len() <= 64
    &&& forall|k: int| 0 <= k < s.len() ==> spec_session_char(#[trigger] s[k])
}

/// Validates a session name.
pub fn validate_session_name(name: &str) -> (r: bool)
    ensures
        r == spec_valid_session_name(name@),
{
    let cs = crate::json::str_chars(name);
    let n = cs.len();
    if n == 0 || n > 64 {
        return false;
    }
    let mut k: usize = 0;
    while k < n
        invariant
            k <= n,
            n == cs@.len(),
            cs@ == name@,
            1 <= n <= 64,
            forall|t: int| 0 <= t < k ==> spec_session_char(#[trigger] name@[t]),
        decreases n - k,
    {
        let c = cs[k];
        if !(is_alnum(c) || c == '-' || c == '_') {
            return false;
        }
        k += 1;
    }
    true
}

} // verus!
