use fauxdb::authentication::AuthenticationManager;
use fauxdb::config::{AuthenticationConfig, KerberosConfig, LdapConfig, PasswordPolicyConfig};
use fauxdb::security::{
    hash_mongodb_cr, hash_password_with_salt, generate_salt, Action, AuthMechanism, Resource,
    ScramAuthenticator, SecurityError, SecurityManager,
};

const NOW: i64 = 1_700_000_000_000;

fn policy(special: bool) -> PasswordPolicyConfig {
    PasswordPolicyConfig {
        min_length: 8,
        require_uppercase: true,
        require_lowercase: true,
        require_numbers: true,
        require_special_chars: special,
        max_age_days: Some(90),
    }
}

fn config(method: &str, timeout: u64, special: bool) -> AuthenticationConfig {
    AuthenticationConfig {
        enabled: true,
        default_auth_method: method.to_string(),
        session_timeout_minutes: timeout,
        max_sessions_per_user: 10,
        password_policy: policy(special),
        ldap: None,
        kerberos: None,
    }
}

fn session_manager() -> AuthenticationManager {
    AuthenticationManager::new(config("SCRAM-SHA-256", 30, false))
}

#[test]
fn test_scram_sha1_authentication() {
    let auth_manager = AuthenticationManager::new(config("SCRAM-SHA-1", 30, true));

    let result = auth_manager.authenticate_scram_sha1("testuser", "testpassword").unwrap();
    assert!(result);

    let result = auth_manager.authenticate_scram_sha1("", "testpassword").unwrap();
    assert!(!result);

    let result = auth_manager.authenticate_scram_sha1("testuser", "").unwrap();
    assert!(!result);
}

#[test]
fn test_scram_sha256_authentication() {
    let auth_manager = AuthenticationManager::new(config("SCRAM-SHA-256", 30, true));

    let result = auth_manager.authenticate_scram_sha256("testuser", "testpassword").unwrap();
    assert!(result);

    let result = auth_manager.authenticate_scram_sha256("", "testpassword").unwrap();
    assert!(!result);

    let result = auth_manager.authenticate_scram_sha256("testuser", "").unwrap();
    assert!(!result);
}

#[test]
fn test_ldap_authentication() {
    let ldap_config = LdapConfig {
        server_url: "ldap://localhost:389".to_string(),
        base_dn: "dc=example,dc=com".to_string(),
        bind_dn: "cn=admin,dc=example,dc=com".to_string(),
        bind_password: "adminpassword".to_string(),
        user_search_filter: "(uid={})".to_string(),
        group_search_filter: "(member={})".to_string(),
    };
    let mut c = config("LDAP", 30, true);
    c.ldap = Some(ldap_config);
    let auth_manager = AuthenticationManager::new(c);

    let result = auth_manager.authenticate_ldap("testuser", "testpassword").unwrap();
    assert!(result);

    let result = auth_manager.authenticate_ldap("", "testpassword").unwrap();
    assert!(!result);

    let result = auth_manager.authenticate_ldap("testuser", "").unwrap();
    assert!(!result);
}

#[test]
fn test_kerberos_authentication() {
    let kerberos_config = KerberosConfig {
        realm: "EXAMPLE.COM".to_string(),
        keytab_file: "/etc/krb5.keytab".to_string(),
        service_principal: "mongodb/server.example.com@EXAMPLE.COM".to_string(),
    };
    let mut c = config("Kerberos", 30, true);
    c.kerberos = Some(kerberos_config);
    let auth_manager = AuthenticationManager::new(c);

    let result = auth_manager.authenticate_kerberos("testuser", "kerberostoken").unwrap();
    assert!(result);

    let result = auth_manager.authenticate_kerberos("", "kerberostoken").unwrap();
    assert!(!result);

    let result = auth_manager.authenticate_kerberos("testuser", "").unwrap();
    assert!(!result);
}

#[test]
fn test_session_management() {
    let auth_manager = AuthenticationManager::new(config("SCRAM-SHA-256", 30, true));

    let session = auth_manager.create_session("testuser", "SCRAM-SHA-256", NOW).unwrap();
    assert_eq!(session.username, "testuser");
    assert_eq!(session.auth_method, "SCRAM-SHA-256");
    assert!(session.is_active);

    let result = auth_manager.invalidate_session(&session.id, NOW);
    assert!(result.is_ok());
}

#[test]
fn test_authentication_error_handling() {
    let auth_manager = AuthenticationManager::new(config("LDAP", 30, true));

    let result = auth_manager.authenticate_ldap("testuser", "testpassword");
    assert!(result.is_err());
}

#[test]
fn test_session_creation_validation() {
    let auth_manager = session_manager();

    let session = auth_manager.create_session("testuser", "SCRAM-SHA-256", NOW).unwrap();
    assert_eq!(session.username, "testuser");
    assert_eq!(session.auth_method, "SCRAM-SHA-256");
    assert!(session.is_active);
    assert!(session.expires_at > session.created_at);

    assert_eq!(session.id.len(), 36);
    assert!(session.id.contains('-'));
}

#[test]
fn test_session_creation_invalid_inputs() {
    let auth_manager = session_manager();

    let result = auth_manager.create_session("", "SCRAM-SHA-256", NOW);
    assert!(result.is_err());
    assert!(result.unwrap_err().to_string().contains("Username cannot be empty"));

    let result = auth_manager.create_session("testuser", "", NOW);
    assert!(result.is_err());
    assert!(result.unwrap_err().to_string().contains("Auth method cannot be empty"));

    let result = auth_manager.create_session("test@user", "SCRAM-SHA-256", NOW);
    assert!(result.is_err());
    assert!(result.unwrap_err().to_string().contains("Invalid username format"));

    let result = auth_manager.create_session("testuser", "INVALID-METHOD", NOW);
    assert!(result.is_err());
    assert!(result.unwrap_err().to_string().contains("Invalid auth method"));
}

#[test]
fn test_session_validation() {
    let auth_manager = session_manager();

    let session = auth_manager.create_session("testuser", "SCRAM-SHA-256", NOW).unwrap();

    let validation_result = auth_manager.validate_session(&session.id, NOW).unwrap();
    assert!(validation_result.is_some());

    let validated_session = validation_result.unwrap();
    assert_eq!(validated_session.id, session.id);
    assert_eq!(validated_session.username, "valid_user");
    assert_eq!(validated_session.auth_method, "SCRAM-SHA-256");
}

#[test]
fn test_session_validation_invalid_format() {
    let auth_manager = session_manager();

    let invalid_ids = [
        "",
        "invalid",
        "123456789012345678901234567890123456",
        "12345678-1234-1234-1234-123456789012",
        "not-a-uuid",
    ];

    for invalid_id in &invalid_ids {
        let result = auth_manager.validate_session(invalid_id, NOW);
        if invalid_id == &"12345678-1234-1234-1234-123456789012" {
            assert!(result.is_ok());
        } else {
            assert!(result.is_err());
            assert!(result.unwrap_err().to_string().contains("Invalid session ID format"));
        }
    }
}

#[test]
fn test_session_invalidation() {
    let auth_manager = session_manager();

    let session = auth_manager.create_session("testuser", "SCRAM-SHA-256", NOW).unwrap();

    let result = auth_manager.invalidate_session(&session.id, NOW);
    assert!(result.is_ok());
}

#[test]
fn test_session_invalidation_invalid_inputs() {
    let auth_manager = session_manager();

    let invalid_ids = ["", "invalid", "123456789012345678901234567890123456", "not-a-uuid"];

    for invalid_id in &invalid_ids {
        let result = auth_manager.invalidate_session(invalid_id, NOW);
        if invalid_id.is_empty() {
            assert!(result.is_err());
            assert!(result.unwrap_err().to_string().contains("Session ID cannot be empty"));
        } else {
            assert!(result.is_err());
            assert!(result.unwrap_err().to_string().contains("Invalid session ID format"));
        }
    }
}

#[test]
fn test_session_lifecycle() {
    let auth_manager = session_manager();

    let username = "lifecycle_user";
    let auth_method = "SCRAM-SHA-256";

    let session = auth_manager.create_session(username, auth_method, NOW).unwrap();

    let validation = auth_manager.validate_session(&session.id, NOW).unwrap();
    assert!(validation.is_some());

    auth_manager.invalidate_session(&session.id, NOW).unwrap();

    let revalidation = auth_manager.validate_session(&session.id, NOW).unwrap();
    assert!(revalidation.is_some());
}

#[test]
fn test_multiple_sessions() {
    let auth_manager = session_manager();

    let username = "multi_session_user";

    let session1 = auth_manager.create_session(username, "SCRAM-SHA-256", NOW).unwrap();
    let session2 = auth_manager.create_session(username, "LDAP", NOW).unwrap();
    let session3 = auth_manager.create_session(username, "Kerberos", NOW).unwrap();

    assert_ne!(session1.id, session2.id);
    assert_ne!(session1.id, session3.id);
    assert_ne!(session2.id, session3.id);

    assert_eq!(session1.username, username);
    assert_eq!(session2.username, username);
    assert_eq!(session3.username, username);

    assert_eq!(session1.auth_method, "SCRAM-SHA-256");
    assert_eq!(session2.auth_method, "LDAP");
    assert_eq!(session3.auth_method, "Kerberos");

    assert!(auth_manager.validate_session(&session1.id, NOW).unwrap().is_some());
    assert!(auth_manager.validate_session(&session2.id, NOW).unwrap().is_some());
    assert!(auth_manager.validate_session(&session3.id, NOW).unwrap().is_some());

    auth_manager.invalidate_session(&session2.id, NOW).unwrap();

    assert!(auth_manager.validate_session(&session1.id, NOW).unwrap().is_some());
    assert!(auth_manager.validate_session(&session3.id, NOW).unwrap().is_some());
}

#[test]
fn test_session_timeout_configuration() {
    let auth_manager = AuthenticationManager::new(config("SCRAM-SHA-256", 60, false));

    let session = auth_manager.create_session("timeout_user", "SCRAM-SHA-256", NOW).unwrap();

    let expected_expiry = session.created_at + 60 * 60_000;
    let time_diff = (session.expires_at - expected_expiry).abs();
    assert!(time_diff < 1);
    assert_eq!(session.created_at, NOW);
}

#[test]
fn session_times_stay_in_range() {
    let m = AuthenticationManager::new(config("SCRAM-SHA-256", u64::MAX, false));
    let s = m.create_session("u", "PLAIN", i64::MAX - 5).unwrap();
    assert_eq!(s.expires_at, i64::MAX);
    let short = AuthenticationManager::new(config("SCRAM-SHA-256", 5, false));
    // a session that would have ended already is not handed out
    assert_eq!(
        short.validate_session("12345678-1234-1234-1234-123456789012", NOW).unwrap().map(|s| s.id),
        None
    );
    let v = m
        .validate_session("12345678-1234-1234-1234-123456789012", i64::MIN + 5)
        .unwrap()
        .unwrap();
    assert_eq!(v.created_at, i64::MIN);
}

#[test]
fn password_policy_of_the_authentication_manager() {
    let m = AuthenticationManager::new(config("SCRAM-SHA-256", 30, true));
    assert_eq!(m.validate_password("Abcdef1!"), Ok(true));
    assert_eq!(m.validate_password("Abcde1!"), Ok(false));
    assert_eq!(m.validate_password("abcdef1!"), Ok(false));
    assert_eq!(m.validate_password("ABCDEF1!"), Ok(false));
    assert_eq!(m.validate_password("Abcdefg!"), Ok(false));
    assert_eq!(m.validate_password("Abcdefg1"), Ok(false));
    assert_eq!(m.validate_password("Abcdefg1~"), Ok(false));
    let lax = AuthenticationManager::new(config("SCRAM-SHA-256", 30, false));
    assert_eq!(lax.validate_password("Abcdefg1"), Ok(true));
    assert_eq!(lax.validate_password("\u{c4}bcdefg\u{661}"), Ok(true));
    assert!(m.is_enabled());
    assert_eq!(m.get_default_auth_method(), "SCRAM-SHA-256");
    assert_eq!(m.get_session_timeout_minutes(), 30);
    assert_eq!(m.get_max_sessions_per_user(), 10);
    assert!(m.get_ldap_config().is_none());
    assert!(m.get_kerberos_config().is_none());
    assert!(m.validate_config().is_ok());
    assert!(AuthenticationManager::new(config("LDAP", 30, true)).validate_config().is_err());
    assert!(AuthenticationManager::new(config("Nonsense", 30, true)).validate_config().is_err());
}

#[test]
fn unit_tests_test_security_manager() {
    let security_manager = SecurityManager::new(NOW);
    assert!(!std::ptr::eq(&security_manager, std::ptr::null()));
}

#[test]
fn integration_tests_test_security_manager() {
    let security_manager = SecurityManager::new(NOW);
    assert!(!std::ptr::eq(&security_manager, std::ptr::null()));
}

#[test]
fn password_hashes() {
    assert_eq!(
        hash_password_with_salt("password", "salt"),
        "eje4XIkY6sGakInA+loqtNzj+QUo3N7sEIsj3fNge5k="
    );
    assert_eq!(hash_password_with_salt("", ""), "47DEQpj8HBSa+/TImW+5JCeuQeRkm5NMpJWZG3hSuFU=");
    assert_eq!(hash_mongodb_cr("user", "pass"), "e0c4a7b97d4db31f5014e9694e567d6b");
    assert_eq!(hash_mongodb_cr("", ""), "4f75033e39d8b884aa7d88e2fadfe2cb");
    let a = generate_salt();
    let b = generate_salt();
    assert_eq!(a.len(), 24);
    assert!(a.ends_with("=="));
    assert_ne!(a, b);
}

#[test]
fn default_admin_can_log_in() {
    let mut m = SecurityManager::new(NOW);
    assert_eq!(m.users.len(), 1);
    assert_eq!(m.builtin_roles.len(), 7);
    assert_eq!(m.find_user("admin"), Some(0));
    assert_eq!(m.find_user("nobody"), None);
    assert_eq!(
        m.authenticate("nobody", "admin123", AuthMechanism::ScramSha256, NOW),
        Err(SecurityError::UserNotFound)
    );
    assert_eq!(
        m.authenticate("admin", "wrong", AuthMechanism::ScramSha256, NOW),
        Err(SecurityError::InvalidPassword)
    );
    assert_eq!(
        m.authenticate("admin", "admin123", AuthMechanism::MongodbCr, NOW),
        Err(SecurityError::MechanismNotSupported)
    );
    assert_eq!(m.sessions.len(), 0);
    let i = m.authenticate("admin", "admin123", AuthMechanism::ScramSha256, NOW).unwrap();
    assert_eq!(i, 0);
    assert_eq!(m.sessions[0].username, "admin");
    assert_eq!(m.sessions[0].created_at, NOW);
    assert_eq!(m.sessions[0].expires_at, NOW + m.session_timeout_ms);
    assert_eq!(m.authenticate("admin", "admin123", AuthMechanism::ScramSha1, NOW + 10), Ok(1));

    let stats = m.get_session_stats(NOW);
    assert_eq!((stats.active_sessions, stats.expired_sessions), (2, 0));
    let later = NOW + m.session_timeout_ms;
    let stats = m.get_session_stats(later);
    assert_eq!((stats.active_sessions, stats.expired_sessions, stats.total_sessions), (2, 1, 3));
    assert_eq!(m.cleanup_expired_sessions(later), 1);
    assert_eq!(m.sessions.len(), 1);
    assert_eq!(m.cleanup_expired_sessions(later + 10), 1);
    assert_eq!(m.cleanup_expired_sessions(later + 10), 0);

    m.users[0].is_active = false;
    assert_eq!(
        m.authenticate("admin", "admin123", AuthMechanism::ScramSha256, NOW),
        Err(SecurityError::AccountDisabled)
    );
}

#[test]
fn admin_session_is_authorized() {
    let mut m = SecurityManager::new(NOW);
    let i = m.authenticate("admin", "admin123", AuthMechanism::ScramSha256, NOW).unwrap();
    let db = Resource::Database { name: "anything".to_string() };
    // a privilege covers the actions that it lists, by name
    assert!(m.authorize(&m.sessions[i], &db, &Action::AnyAction));
    assert!(!m.authorize(&m.sessions[i], &db, &Action::Find));
}

#[test]
fn password_policy_of_the_security_manager() {
    let m = SecurityManager::new(NOW);
    assert_eq!(m.validate_password("Abcdef1!"), Ok(()));
    assert_eq!(m.validate_password("Ab1!"), Err(SecurityError::PasswordTooShort));
    assert_eq!(m.validate_password("abcdef1!"), Err(SecurityError::PasswordNeedsUppercase));
    assert_eq!(m.validate_password("ABCDEF1!"), Err(SecurityError::PasswordNeedsLowercase));
    assert_eq!(m.validate_password("Abcdefg!"), Err(SecurityError::PasswordNeedsNumber));
    assert_eq!(m.validate_password("Abcdefg1"), Err(SecurityError::PasswordNeedsSpecial));
}

#[test]
fn scram_authenticator() {
    let a = ScramAuthenticator::new();
    let c = a.generate_challenge(AuthMechanism::ScramSha256);
    assert_eq!(c.iterations, 4096);
    assert_eq!(c.nonce, a.nonce);
    assert_eq!(c.salt, a.salt);
    assert_eq!(c.mechanism, AuthMechanism::ScramSha256);
    assert_ne!(ScramAuthenticator::generate_nonce(), ScramAuthenticator::generate_nonce());
    assert!(a.verify_proof("a", "b", "c", "d"));
    assert!(a.verify_password("u", "myTestpw"));
    assert!(a.verify_password("u", "12345Test"));
    assert!(!a.verify_password("u", "Test"));
    assert!(!a.verify_password("u", "longenough"));
    assert!(!a.verify_password("u", "longtest1"));
}

#[test]
fn users_are_made_changed_and_removed() {
    let mut m = SecurityManager::new(NOW);
    assert_eq!(
        m.create_user("bob".to_string(), "weak".to_string(), vec![], NOW),
        Err(SecurityError::PasswordTooShort)
    );
    assert_eq!(
        m.create_user("admin".to_string(), "Str0ng!pass".to_string(), vec![], NOW),
        Err(SecurityError::UserExists)
    );
    assert_eq!(m.list_users().len(), 1);
    assert_eq!(m.create_user("bob".to_string(), "Str0ng!pass".to_string(), vec![], NOW), Ok(1));
    assert_eq!(m.list_users().len(), 2);
    assert_eq!(m.list_users()[1].username, "bob");
    assert_eq!(
        m.list_users()[1].password_hash,
        hash_password_with_salt("Str0ng!pass", &m.list_users()[1].salt)
    );
    assert!(m.authenticate("bob", "Str0ng!pass", AuthMechanism::ScramSha256, NOW).is_ok());

    assert_eq!(
        m.update_user_password("carol", "N3w!password".to_string(), NOW + 1),
        Err(SecurityError::UserNotFound)
    );
    assert_eq!(
        m.update_user_password("bob", "nodigits!A".to_string(), NOW + 1),
        Err(SecurityError::PasswordNeedsNumber)
    );
    assert_eq!(m.update_user_password("bob", "N3w!password".to_string(), NOW + 1), Ok(()));
    assert_eq!(m.list_users()[0].username, "admin");
    assert_eq!(m.list_users()[1].username, "bob");
    assert_eq!(m.list_users()[1].updated_at, NOW + 1);
    assert_eq!(
        m.authenticate("bob", "Str0ng!pass", AuthMechanism::ScramSha256, NOW),
        Err(SecurityError::InvalidPassword)
    );
    assert!(m.authenticate("bob", "N3w!password", AuthMechanism::ScramSha256, NOW).is_ok());

    assert_eq!(m.delete_user("carol"), Err(SecurityError::UserNotFound));
    assert_eq!(m.delete_user("admin"), Ok(()));
    assert_eq!(m.list_users().len(), 1);
    assert_eq!(m.find_user("bob"), Some(0));
}

#[test]
fn sessions_are_found_until_they_end() {
    let mut m = SecurityManager::new(NOW);
    let i = m.authenticate("admin", "admin123", AuthMechanism::ScramSha256, NOW).unwrap();
    let id = m.sessions[i].session_id.clone();
    let end = m.sessions[i].expires_at;
    assert_eq!(m.validate_session(&id, NOW), Ok(i));
    assert_eq!(m.validate_session(&id, end), Ok(i));
    assert_eq!(m.validate_session(&id, end + 1), Err(SecurityError::SessionExpired));
    assert_eq!(m.validate_session("nothing", NOW), Err(SecurityError::SessionNotFound));
    assert_eq!(m.find_session(&id), Some(i));
}
