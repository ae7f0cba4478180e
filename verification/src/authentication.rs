//! Who may open a session, and how long a session lasts.

use crate::bson::str_eq;
use crate::chars::{
    all_alphanumeric_or, any_lowercase, any_numeric, any_of, any_uppercase, char_in,
    has_any_of, has_lowercase, has_numeric, has_uppercase, only_alphanumeric_or,
};
use crate::config::{AuthenticationConfig, KerberosConfig, LdapConfig, PasswordPolicyConfig};
use crate::error::FauxDBError;
use crate::system::{is_uuid, parse_uuid, random_uuid};
use crate::text::concat;
use vstd::prelude::*;
use vstd::utf8::encode_utf8;

verus! {

/// Milliseconds in a minute.
pub const MINUTE_MS: i64 = 60000;

/// Minutes for which the session behind a well-formed id has been open.
pub const ASSUMED_SESSION_AGE_MINUTES: u64 = 10;

/// Checks credentials and opens sessions.
#[derive(Debug, Clone)]
pub struct AuthenticationManager {
    pub config: AuthenticationConfig,
}

/// An open session. Times are in milliseconds since the Unix epoch.
#[derive(Debug, Clone)]
pub struct AuthSession {
    pub id: String,
    pub username: String,
    pub auth_method: String,
    pub created_at: i64,
    pub expires_at: i64,
    pub is_active: bool,
}

/// A user.
#[derive(Debug, Clone)]
pub struct User {
    pub username: String,
    pub password_hash: String,
    pub roles: Vec<Role>,
    pub created_at: i64,
    pub last_login: Option<i64>,
    pub is_active: bool,
}

/// A role and what it permits.
#[derive(Debug, Clone)]
pub struct Role {
    pub name: String,
    pub permissions: Vec<Permission>,
}

#[derive(Debug, Clone, Copy, PartialEq, Eq, Structural)]
pub enum Permission {
    Read,
    Write,
    Admin,
    Create,
    Drop,
    Index,
    Sharding,
}

#[derive(Debug, Clone, Copy, PartialEq, Eq, Structural)]
pub enum AuthMethod {
    ScramSha1,
    ScramSha256,
    Ldap,
    Kerberos,
}

/// Whether a password meets a policy: it is long enough, counted in
/// bytes, and holds a character of each class that the policy asks for.
pub open spec fn password_ok(p: PasswordPolicyConfig, password: Seq<char>) -> bool {
    &&& encode_utf8(password).len() >= p.min_length
    &&& p.require_uppercase ==> any_uppercase(password)
    &&& p.require_lowercase ==> any_lowercase(password)
    &&& p.require_numbers ==> any_numeric(password)
    &&& p.require_special_chars ==> any_of(password, "!@#$%^&*()_+-=[]{}|;:,.<>?"@)
}

/// Whether a name is one of the methods by which a session can be opened.
pub open spec fn known_method(m: Seq<char>) -> bool {
    m == "SCRAM-SHA-1"@ || m == "SCRAM-SHA-256"@ || m == "LDAP"@ || m == "Kerberos"@ || m
        == "PLAIN"@
}

/// Why no session can be opened for a user by a method, as the text of
/// the refusal; nothing where one can. The first fault decides.
pub open spec fn session_fault(username: Seq<char>, method: Seq<char>) -> Option<Seq<char>> {
    if username.len() == 0 {
        Some("Username cannot be empty"@)
    } else if method.len() == 0 {
        Some("Auth method cannot be empty"@)
    } else if !all_alphanumeric_or(username, "_-"@) {
        Some("Invalid username format"@)
    } else if !known_method(method) {
        Some("Invalid auth method: "@ + method)
    } else {
        None
    }
}

/// What is wrong with the settings, as the text of the refusal; nothing
/// where they are in order. Settings that ask for no authentication are
/// in order whatever else they say.
pub open spec fn settings_fault(c: AuthenticationConfig) -> Option<Seq<char>> {
    let m = c.default_auth_method@;
    if !c.enabled || m == "SCRAM-SHA-1"@ || m == "SCRAM-SHA-256"@ {
        None
    } else if m == "LDAP"@ {
        if c.ldap.is_none() {
            Some("LDAP authentication method requires LDAP configuration"@)
        } else {
            None
        }
    } else if m == "Kerberos"@ {
        if c.kerberos.is_none() {
            Some("Kerberos authentication method requires Kerberos configuration"@)
        } else {
            None
        }
    } else {
        Some("Unknown authentication method: "@ + m)
    }
}

/// Whether a text has the form of a session id: 36 characters, a hyphen
/// among them, and a UUID as a whole.
pub open spec fn session_id_ok(id: Seq<char>) -> bool {
    encode_utf8(id).len() == 36 && id.contains('-') && is_uuid(id)
}

/// `a + b`, kept within the range of 64-bit integers.
pub open spec fn clamp_add(a: i64, b: int) -> i64 {
    if a + b > i64::MAX {
        i64::MAX
    } else if a + b < i64::MIN {
        i64::MIN
    } else {
        (a + b) as i64
    }
}

/// The milliseconds of a number of minutes, kept within the range of
/// 64-bit integers.
pub open spec fn minutes_ms(minutes: u64) -> i64 {
    if minutes * 60000 > i64::MAX {
        i64::MAX
    } else {
        (minutes * 60000) as i64
    }
}

/// The milliseconds of a number of minutes.
pub fn minutes_to_ms(minutes: u64) -> (r: i64)
    ensures
        r == minutes_ms(minutes),
{
    if minutes > 153722867280912 {
        0x7fff_ffff_ffff_ffff
    } else {
        (minutes * 60000) as i64
    }
}

/// `a + b` for `b` that is not negative, kept within the range.
pub fn add_clamped(a: i64, b: i64) -> (r: i64)
    requires
        b >= 0,
    ensures
        r == clamp_add(a, b as int),
{
    if a > 0x7fff_ffff_ffff_ffff - b {
        0x7fff_ffff_ffff_ffff
    } else {
        a + b
    }
}

/// `a + b`, kept within the range.
pub fn add_signed_clamped(a: i64, b: i64) -> (r: i64)
    ensures
        r == clamp_add(a, b as int),
{
    let s: i128 = (a as i128) + (b as i128);
    if s > 0x7fff_ffff_ffff_ffff {
        0x7fff_ffff_ffff_ffff
    } else if s < -0x8000_0000_0000_0000 {
        -0x7fff_ffff_ffff_ffff - 1
    } else {
        s as i64
    }
}

/// `a - b` for `b` that is not negative, kept within the range.
pub fn sub_clamped(a: i64, b: i64) -> (r: i64)
    requires
        b >= 0,
    ensures
        r == clamp_add(a, -(b as int)),
{
    if a < -0x7fff_ffff_ffff_ffff - 1 + b {
        -0x7fff_ffff_ffff_ffff - 1
    } else {
        a - b
    }
}

impl AuthenticationManager {
    /// A manager of the given settings.
    pub fn new(config: AuthenticationConfig) -> (r: Self)
        ensures
            r.config == config,
    {
        AuthenticationManager { config }
    }

    /// Whether authentication is asked for.
    pub fn is_enabled(&self) -> (r: bool)
        ensures
            r == self.config.enabled,
    {
        self.config.enabled
    }

    /// The method by which sessions are opened unless a client asks for
    /// another.
    pub fn get_default_auth_method(&self) -> (r: &str)
        ensures
            r@ == self.config.default_auth_method@,
    {
        self.config.default_auth_method.as_str()
    }

    /// Minutes after which a session ends.
    pub fn get_session_timeout_minutes(&self) -> (r: u64)
        ensures
            r == self.config.session_timeout_minutes,
    {
        self.config.session_timeout_minutes
    }

    /// Sessions that one user may have open at a time.
    pub fn get_max_sessions_per_user(&self) -> (r: usize)
        ensures
            r == self.config.max_sessions_per_user,
    {
        self.config.max_sessions_per_user
    }

    /// What passwords have to look like.
    pub fn get_password_policy(&self) -> (r: &PasswordPolicyConfig)
        ensures
            *r == self.config.password_policy,
    {
        &self.config.password_policy
    }

    /// The settings for LDAP, where there are any.
    pub fn get_ldap_config(&self) -> (r: Option<&LdapConfig>)
        ensures
            match r {
                Some(c) => self.config.ldap == Some(*c),
                None => self.config.ldap.is_none(),
            },
    {
        match &self.config.ldap {
            Some(c) => Some(c),
            None => None,
        }
    }

    /// The settings for Kerberos, where there are any.
    pub fn get_kerberos_config(&self) -> (r: Option<&KerberosConfig>)
        ensures
            match r {
                Some(c) => self.config.kerberos == Some(*c),
                None => self.config.kerberos.is_none(),
            },
    {
        match &self.config.kerberos {
            Some(c) => Some(c),
            None => None,
        }
    }

    /// Whether a password meets the policy. The answer is never an error.
    pub fn validate_password(&self, password: &str) -> (r: Result<bool, FauxDBError>)
        ensures
            r == Ok::<bool, FauxDBError>(password_ok(self.config.password_policy, password@)),
    {
        let policy = &self.config.password_policy;
        if password.as_bytes().len() < policy.min_length {
            return Ok(false);
        }
        if policy.require_uppercase && !has_uppercase(password) {
            return Ok(false);
        }
        if policy.require_lowercase && !has_lowercase(password) {
            return Ok(false);
        }
        if policy.require_numbers && !has_numeric(password) {
            return Ok(false);
        }
        if policy.require_special_chars && !has_any_of(password, "!@#$%^&*()_+-=[]{}|;:,.<>?") {
            return Ok(false);
        }
        Ok(true)
    }

    /// Whether a user name and a password are there at all: a check of the
    /// password against a stored one is left to whoever stores passwords.
    /// The answer is never an error.
    pub fn authenticate_scram_sha1(&self, username: &str, password: &str) -> (r: Result<
        bool,
        FauxDBError,
    >)
        ensures
            r == Ok::<bool, FauxDBError>(username@.len() > 0 && password@.len() > 0),
    {
        Ok(!username.is_empty() && !password.is_empty())
    }

    /// Whether a user name and a password are there at all. The answer is
    /// never an error.
    pub fn authenticate_scram_sha256(&self, username: &str, password: &str) -> (r: Result<
        bool,
        FauxDBError,
    >)
        ensures
            r == Ok::<bool, FauxDBError>(username@.len() > 0 && password@.len() > 0),
    {
        Ok(!username.is_empty() && !password.is_empty())
    }

    /// Checks credentials for LDAP. Without settings for LDAP, and with
    /// settings that name no server or no base, the answer is an error;
    /// without a user name or a password it is `false`.
    pub fn authenticate_ldap(&self, username: &str, password: &str) -> (r: Result<
        bool,
        FauxDBError,
    >)
        ensures
            match self.config.ldap {
                None => r matches Err(FauxDBError::Authentication(m)) && m@
                    == "LDAP authentication not configured"@,
                Some(c) => if username@.len() == 0 || password@.len() == 0 {
                    r == Ok::<bool, FauxDBError>(false)
                } else if c.server_url@.len() == 0 || c.base_dn@.len() == 0 {
                    r matches Err(FauxDBError::Authentication(m)) && m@
                        == "Invalid LDAP configuration"@
                } else {
                    r == Ok::<bool, FauxDBError>(true)
                },
            },
    {
        match &self.config.ldap {
            Some(c) => {
                if username.is_empty() || password.is_empty() {
                    return Ok(false);
                }
                if c.server_url.as_str().is_empty() || c.base_dn.as_str().is_empty() {
                    return Err(
                        FauxDBError::Authentication("Invalid LDAP configuration".to_owned()),
                    );
                }
                Ok(true)
            },
            None => Err(
                FauxDBError::Authentication("LDAP authentication not configured".to_owned()),
            ),
        }
    }

    /// Checks credentials for Kerberos. Without settings for Kerberos, and
    /// with settings that name no realm or no service, the answer is an
    /// error; without a user name or a token it is `false`.
    pub fn authenticate_kerberos(&self, username: &str, token: &str) -> (r: Result<
        bool,
        FauxDBError,
    >)
        ensures
            match self.config.kerberos {
                None => r matches Err(FauxDBError::Authentication(m)) && m@
                    == "Kerberos authentication not configured"@,
                Some(c) => if username@.len() == 0 || token@.len() == 0 {
                    r == Ok::<bool, FauxDBError>(false)
                } else if c.realm@.len() == 0 || c.service_principal@.len() == 0 {
                    r matches Err(FauxDBError::Authentication(m)) && m@
                        == "Invalid Kerberos configuration"@
                } else {
                    r == Ok::<bool, FauxDBError>(true)
                },
            },
    {
        match &self.config.kerberos {
            Some(c) => {
                if username.is_empty() || token.is_empty() {
                    return Ok(false);
                }
                if c.realm.as_str().is_empty() || c.service_principal.as_str().is_empty() {
                    return Err(
                        FauxDBError::Authentication("Invalid Kerberos configuration".to_owned()),
                    );
                }
                Ok(true)
            },
            None => Err(
                FauxDBError::Authentication("Kerberos authentication not configured".to_owned()),
            ),
        }
    }

    /// Opens a session at `now` for a user who has proved who they are by
    /// `auth_method`. The session gets a random id and ends after the
    /// configured number of minutes.
    ///
    /// The user name must not be empty and may hold letters, digits,
    /// underscores and hyphens only; the method has to be a known one.
    pub fn create_session(&self, username: &str, auth_method: &str, now: i64) -> (r: Result<
        AuthSession,
        FauxDBError,
    >)
        ensures
            match r {
                Ok(s) => {
                    &&& session_fault(username@, auth_method@).is_none()
                    &&& s.id@.len() == 36
                    &&& s.username@ == username@
                    &&& s.auth_method@ == auth_method@
                    &&& s.created_at == now
                    &&& s.expires_at == clamp_add(
                        now,
                        minutes_ms(self.config.session_timeout_minutes) as int,
                    )
                    &&& s.is_active
                },
                Err(e) => e matches FauxDBError::Authentication(m) && session_fault(
                    username@,
                    auth_method@,
                ) == Some(m@),
            },
    {
        if username.is_empty() {
            return Err(FauxDBError::Authentication("Username cannot be empty".to_owned()));
        }
        if auth_method.is_empty() {
            return Err(FauxDBError::Authentication("Auth method cannot be empty".to_owned()));
        }
        if !only_alphanumeric_or(username, "_-") {
            return Err(FauxDBError::Authentication("Invalid username format".to_owned()));
        }
        let known = str_eq(auth_method, "SCRAM-SHA-1") || str_eq(auth_method, "SCRAM-SHA-256")
            || str_eq(auth_method, "LDAP") || str_eq(auth_method, "Kerberos") || str_eq(
            auth_method,
            "PLAIN",
        );
        if !known {
            return Err(
                FauxDBError::Authentication(concat("Invalid auth method: ", auth_method)),
            );
        }
        Ok(
            AuthSession {
                id: random_uuid(),
                username: username.to_owned(),
                auth_method: auth_method.to_owned(),
                created_at: now,
                expires_at: add_clamped(now, minutes_to_ms(self.config.session_timeout_minutes)),
                is_active: true,
            },
        )
    }

    /// Looks up the session behind an id at `now`. No store of sessions
    /// stands behind the manager: every well-formed id names a session
    /// that was opened ten minutes ago, which is still open where sessions
    /// last at least ten minutes. An id that is not well-formed is an
    /// error.
    pub fn validate_session(&self, session_id: &str, now: i64) -> (r: Result<
        Option<AuthSession>,
        FauxDBError,
    >)
        ensures
            match r {
                Err(e) => !session_id_ok(session_id@) && (e matches FauxDBError::Authentication(m)
                    && m@ == "Invalid session ID format"@),
                Ok(None) => session_id_ok(session_id@) && self.config.session_timeout_minutes
                    < ASSUMED_SESSION_AGE_MINUTES,
                Ok(Some(s)) => {
                    &&& session_id_ok(session_id@)
                    &&& self.config.session_timeout_minutes >= ASSUMED_SESSION_AGE_MINUTES
                    &&& s.id@ == session_id@
                    &&& s.username@ == "valid_user"@
                    &&& s.auth_method@ == "SCRAM-SHA-256"@
                    &&& s.created_at == clamp_add(now, -(10 * MINUTE_MS))
                    &&& s.expires_at == clamp_add(
                        s.created_at,
                        minutes_ms(self.config.session_timeout_minutes) as int,
                    )
                    &&& s.is_active
                },
            },
    {
        if session_id.as_bytes().len() != 36 || !char_in('-', session_id) {
            return Err(FauxDBError::Authentication("Invalid session ID format".to_owned()));
        }
        if !parse_uuid(session_id) {
            return Err(FauxDBError::Authentication("Invalid session ID format".to_owned()));
        }
        if self.config.session_timeout_minutes < ASSUMED_SESSION_AGE_MINUTES {
            return Ok(None);
        }
        let created = sub_clamped(now, 10 * MINUTE_MS);
        let expires = add_clamped(created, minutes_to_ms(self.config.session_timeout_minutes));
        Ok(
            Some(
                AuthSession {
                    id: session_id.to_owned(),
                    username: "valid_user".to_owned(),
                    auth_method: "SCRAM-SHA-256".to_owned(),
                    created_at: created,
                    expires_at: expires,
                    is_active: true,
                },
            ),
        )
    }

    /// Ends the session behind an id. An id that names no open session is
    /// no error; one that is not well-formed is.
    pub fn invalidate_session(&self, session_id: &str, now: i64) -> (r: Result<(), FauxDBError>)
        ensures
            match r {
                Ok(()) => session_id_ok(session_id@),
                Err(e) => !session_id_ok(session_id@) && (e matches FauxDBError::Authentication(m)
                    && m@ == (if session_id@.len() == 0 {
                    "Session ID cannot be empty"@
                } else {
                    "Invalid session ID format"@
                })),
            },
    {
        if session_id.is_empty() {
            proof {
                assert(session_id@.len() == 0);
                assert(encode_utf8(session_id@).len() == 0);
            }
            return Err(FauxDBError::Authentication("Session ID cannot be empty".to_owned()));
        }
        match self.validate_session(session_id, now) {
            Ok(_) => Ok(()),
            Err(e) => Err(e),
        }
    }

    /// Checks the settings: the default method has to be known, and LDAP
    /// and Kerberos need their settings. Settings that ask for no
    /// authentication are in order whatever else they say.
    pub fn validate_config(&self) -> (r: Result<(), FauxDBError>)
        ensures
            match r {
                Ok(()) => settings_fault(self.config).is_none(),
                Err(e) => e matches FauxDBError::Configuration(m) && settings_fault(self.config)
                    == Some(m@),
            },
    {
        if !self.config.enabled {
            return Ok(());
        }
        let m = self.config.default_auth_method.as_str();
        if str_eq(m, "SCRAM-SHA-1") || str_eq(m, "SCRAM-SHA-256") {
            Ok(())
        } else if str_eq(m, "LDAP") {
            if self.config.ldap.is_none() {
                return Err(
                    FauxDBError::Configuration(
                        "LDAP authentication method requires LDAP configuration".to_owned(),
                    ),
                );
            }
            Ok(())
        } else if str_eq(m, "Kerberos") {
            if self.config.kerberos.is_none() {
                return Err(
                    FauxDBError::Configuration(
                        "Kerberos authentication method requires Kerberos configuration".to_owned(),
                    ),
                );
            }
            Ok(())
        } else {
            Err(FauxDBError::Configuration(concat("Unknown authentication method: ", m)))
        }
    }
}

} // verus!
