use lore_auth::api::bearer;
use lore_auth::db::{Database, User};
use lore_auth::keys::TokenIssuer;
use lore_auth::service::{
    as_user_info, as_user_token, AuthService, Code, LoginFailure, PendingSession,
};
use rsa::pkcs8::{EncodePrivateKey, LineEnding};
use rsa::{BigUint, RsaPrivateKey};

const RESOURCE: &str = "urc-0123456789abcdef0123456789abcdef";
const OTHER: &str = "urc-ffffffffffffffffffffffffffffffff";
const PASSWORD: &str = "correct horse battery staple";

/// A key of two primes just below round numbers, which is made at once.
fn private_pem() -> String {
    let p = (BigUint::from(1u8) << 1024) - BigUint::from(105u8);
    let q = (BigUint::from(3u8) << 1022) - BigUint::from(91u8);
    let key = RsaPrivateKey::from_p_q(p, q, BigUint::from(65537u32)).unwrap();
    key.to_pkcs8_pem(LineEnding::LF).unwrap().to_string()
}

fn tokens() -> TokenIssuer {
    TokenIssuer::load_or_create(
        Some(&private_pem()),
        "https://auth.example.test".into(),
        "lore-service".into(),
        "test".into(),
        600,
    )
    .unwrap()
    .0
}

fn now() -> i64 {
    chrono::Utc::now().timestamp()
}

fn list(items: &[&str]) -> Vec<String> {
    items.iter().map(|s| s.to_string()).collect()
}

/// A service with the users root, who is the chief administrator, and alice.
fn service() -> AuthService {
    let mut db = Database::initialize();
    db.ensure_bootstrap_admin(Some("root"), Some(PASSWORD)).unwrap();
    db.create_user("alice", "Alice", PASSWORD, false).unwrap();
    AuthService::new(
        db,
        tokens(),
        "https://auth.example.test/".into(),
        300,
        "Root".into(),
        Some("  ".into()),
    )
}

fn user(service: &AuthService, name: &str) -> User {
    service.db.find_user_by_username(name).unwrap()
}

fn header(service: &AuthService, name: &str) -> String {
    let (token, _) = service.tokens.issue_authentication(&user(service, name)).unwrap();
    format!("Bearer {token}")
}

#[test]
fn browser_login_and_repository_exchange() {
    let mut db = Database::initialize();
    let user = db
        .create_user("alice", "Alice", "correct horse battery staple", false)
        .unwrap();
    let resource = "urc-0123456789abcdef0123456789abcdef";
    db.set_grant("alice", resource, &["read".into(), "write".into()])
        .unwrap();
    let (tokens, _) = TokenIssuer::load_or_create(
        Some(&private_pem()),
        "https://auth.example.test".into(),
        "lore-service".into(),
        "test".into(),
        600,
    )
    .unwrap();
    let mut service = AuthService::new(
        db,
        tokens.clone(),
        "https://auth.example.test".into(),
        300,
        "admin".into(),
        None,
    );

    let started = service.start_auth_session("state-1").unwrap();
    service
        .complete_login(
            &started.session_code,
            "state-1",
            "alice",
            "correct horse battery staple",
        )
        .unwrap();
    let authn = service
        .get_auth_session(&started.session_code, "state-1")
        .unwrap()
        .unwrap();
    assert_eq!(authn.user_id, user.id);

    let authorization = format!("Bearer {}", authn.user_token);
    let authz = service
        .exchange_user_token_for_multiresource_token(
            Some(&authorization),
            &vec![resource.into()],
        )
        .unwrap();
    let claims = tokens.verify(&authz.user_token).unwrap();
    let resources = claims.resources.unwrap();
    assert_eq!(resources[0].resource_id, resource);
    assert_eq!(resources[0].permission, vec!["read", "write"]);
}

#[test]
fn a_new_service() {
    let service = service();
    assert_eq!(service.public_base_url, "https://auth.example.test");
    assert_eq!(service.lore_grpc_url, None);
    assert_eq!(service.sessions.len(), 0);
    assert_eq!(service.health_check(), "ok");
}

#[test]
fn logins_are_started() {
    let mut service = service();
    for bad in ["", " \t", &"x".repeat(257), &"é".repeat(129)] {
        let refused = service.start_auth_session(bad).unwrap_err();
        assert_eq!(refused.code, Code::InvalidArgument);
        assert_eq!(refused.message, "invalid client_state");
    }
    assert!(service.start_auth_session(&"é".repeat(128)).is_ok());
    let started = service
        .start_auth_session_with("a b&ü/", "code-1".into(), 1_000)
        .unwrap();
    assert_eq!(started.session_code, "code-1");
    assert_eq!(
        started.login_url,
        "https://auth.example.test/login?session_code=code-1&client_state=a%20b%26%C3%BC%2F"
    );
    let session = service.sessions.get("code-1").unwrap();
    assert_eq!(session.client_state, "a b&ü/");
    assert_eq!(session.expires_at, 1_300);
    assert_eq!(session.failed_attempts, 0);
    assert!(session.user_token.is_none());
    let fresh = service.start_auth_session("s").unwrap();
    assert_eq!(fresh.session_code.len(), 36);
    assert_eq!(fresh.session_code, fresh.session_code.to_lowercase());
}

#[test]
fn expired_logins_are_dropped() {
    let mut service = service();
    service.start_auth_session_with("s", "one".into(), 1_000).unwrap();
    service.start_auth_session_with("s", "two".into(), 1_300).unwrap();
    assert_eq!(service.sessions.len(), 2);
    service.start_auth_session_with("s", "three".into(), 1_301).unwrap();
    assert_eq!(service.sessions.len(), 2);
    assert!(service.sessions.get("one").is_none());
}

#[test]
fn pending_logins_are_limited() {
    let mut service = service();
    for i in 0..10_000 {
        let session = PendingSession {
            client_state: "s".into(),
            user_token: None,
            expires_at: if i == 0 { 10 } else { 1_000 },
            failed_attempts: 0,
        };
        service.sessions.insert(format!("{i}"), session);
    }
    let refused = service.start_auth_session_with("s", "last".into(), 5).unwrap_err();
    assert_eq!(refused.code, Code::ResourceExhausted);
    assert_eq!(refused.message, "too many pending login sessions");
    assert_eq!(service.sessions.len(), 10_000);
    assert!(service.start_auth_session_with("s", "last".into(), 11).is_ok());
    assert_eq!(service.sessions.len(), 10_000);
}

#[test]
fn fetching_a_login() {
    let mut service = service();
    let refused = service.get_auth_session("code", "s").unwrap_err();
    assert_eq!((refused.code, refused.message.as_str()), (Code::NotFound, "auth session not found"));
    service.start_auth_session_with("s", "code".into(), 1_000).unwrap();
    assert!(service.get_auth_session_at("code", "s", 1_300).unwrap().is_none());
    let refused = service.get_auth_session_at("code", "t", 1_000).unwrap_err();
    assert_eq!(
        (refused.code, refused.message.as_str()),
        (Code::PermissionDenied, "client_state mismatch")
    );
    assert_eq!(service.sessions.len(), 1);
    service.complete_login_at("code", "s", "ALICE", PASSWORD, 1_000).unwrap();
    let token = service.get_auth_session_at("code", "s", 1_300).unwrap().unwrap();
    assert_eq!(token.user_name, "Alice");
    assert_eq!(token.expires_at, 1_600);
    assert_eq!(token.user_id, user(&service, "alice").id);
    // It is given once.
    let refused = service.get_auth_session_at("code", "s", 1_300).unwrap_err();
    assert_eq!(refused.message, "auth session not found");
    service.start_auth_session_with("s", "code".into(), 1_000).unwrap();
    let refused = service.get_auth_session_at("code", "s", 1_301).unwrap_err();
    assert_eq!((refused.code, refused.message.as_str()), (Code::NotFound, "auth session expired"));
    assert_eq!(service.sessions.len(), 0);
}

#[test]
fn wrong_passwords_end_a_login() {
    let mut service = service();
    service.start_auth_session_with("s", "code".into(), 1_000).unwrap();
    for i in 1..5 {
        assert_eq!(
            service.complete_login_at("code", "s", "alice", "wrong", 1_000).unwrap_err(),
            LoginFailure::InvalidCredentials
        );
        assert_eq!(service.sessions.get("code").unwrap().failed_attempts, i);
    }
    assert_eq!(
        service.complete_login_at("code", "s", "alice", "wrong", 1_000).unwrap_err(),
        LoginFailure::InvalidCredentials
    );
    assert_eq!(
        service.complete_login_at("code", "s", "alice", PASSWORD, 1_000).unwrap_err(),
        LoginFailure::Expired
    );
}

#[test]
fn logins_that_cannot_be_completed() {
    let mut service = service();
    service.start_auth_session_with("s", "code".into(), 1_000).unwrap();
    let mut tried = |code: &str, state: &str, name: &str, time: i64| {
        service.complete_login_at(code, state, name, PASSWORD, time).map(|u| u.username)
    };
    assert_eq!(tried("other", "s", "alice", 1_000), Err(LoginFailure::Expired));
    assert_eq!(tried("code", "t", "alice", 1_000), Err(LoginFailure::Expired));
    assert_eq!(tried("code", "s", "alice", 1_301), Err(LoginFailure::Expired));
    assert_eq!(tried("code", "s", "nobody", 1_000), Err(LoginFailure::InvalidCredentials));
    assert_eq!(tried("code", "s", "alice", 1_300), Ok("alice".to_string()));
    service.db.users[1].user.password_hash = "broken".into();
    assert_eq!(
        service.complete_login_at("code", "s", "alice", PASSWORD, 1_000).unwrap_err(),
        LoginFailure::Internal
    );
}

#[test]
fn sessions_of_the_administrator() {
    let mut service = service();
    let root = user(&service, "root");
    let alice = user(&service, "alice");
    assert!(service.create_admin_session(&alice).is_none());
    let mut disabled = user(&service, "root");
    disabled.disabled = true;
    assert!(service.create_admin_session(&disabled).is_none());
    let mut common = user(&service, "root");
    common.is_admin = false;
    assert!(service.create_admin_session(&common).is_none());

    let session = service
        .create_admin_session_with(&root, "token".into(), "secret".into(), 1_000)
        .unwrap();
    assert_eq!(session.user_id, root.id);
    assert_eq!(session.csrf_token, "secret");
    assert_eq!(session.expires_at, 1_000 + 8 * 60 * 60);
    let (found, who) = service.admin_session_at("token", 29_800).unwrap();
    assert_eq!(found.csrf_token, "secret");
    assert_eq!(who.username, "root");
    assert!(service.admin_session_at("other", 29_800).is_none());
    assert!(service.admin_session_at("token", 29_801).is_none());
    assert!(service.admin_session_at("token", 1_000).is_none());

    let (token, session) = service.create_admin_session(&root).unwrap();
    assert_eq!(token.len(), 36);
    assert_ne!(token, session.csrf_token);
    assert!((session.expires_at - now() - 28_800).abs() <= 5);
    assert!(service.admin_session(&token).is_some());
    service.db.set_disabled("root", true).unwrap();
    assert!(service.admin_session(&token).is_none());
    service.db.set_disabled("root", false).unwrap();
    assert!(service.admin_session(&token).is_some());
    service.remove_admin_session(&token);
    assert!(service.admin_session(&token).is_none());
}

#[test]
fn headers_name_the_token() {
    assert_eq!(bearer(Some("Bearer abc")).unwrap(), "abc");
    assert_eq!(bearer(Some("Bearer ")).unwrap(), "");
    for (header, message) in [
        (None, "authorization header required"),
        (Some(""), "Bearer token required"),
        (Some("bearer abc"), "Bearer token required"),
        (Some("Basic abc"), "Bearer token required"),
    ] {
        let refused = bearer(header).unwrap_err();
        assert_eq!(refused.code, Code::Unauthenticated);
        assert_eq!(refused.message, message);
    }
}

#[test]
fn who_acts() {
    let mut service = service();
    let by_alice = header(&service, "alice");
    let by_root = header(&service, "root");
    assert_eq!(service.actor_from_request(Some(&by_alice)).unwrap().username, "alice");
    let token = by_root.strip_prefix("Bearer ").unwrap();
    let who = service.actor_from_target_or_request(Some(token), Some(&by_alice)).unwrap();
    assert_eq!(who.username, "root");
    let who = service.actor_from_target_or_request(None, Some(&by_alice)).unwrap();
    assert_eq!(who.username, "alice");
    let refused = service.actor_from_token("nonsense").unwrap_err();
    assert_eq!(refused.code, Code::Unauthenticated);
    assert_eq!(refused.message, "invalid or expired token");
    assert_eq!(
        service.actor_from_claims(None).unwrap_err().message,
        "invalid or expired token"
    );
    service.db.set_disabled("alice", true).unwrap();
    let refused = service.actor_from_request(Some(&by_alice)).unwrap_err();
    assert_eq!(refused.code, Code::Unauthenticated);
    assert_eq!(refused.message, "user is disabled or no longer exists");
    service.db.delete_user("alice", "root").unwrap();
    let refused = service.actor_from_request(Some(&by_alice)).unwrap_err();
    assert_eq!(refused.message, "user is disabled or no longer exists");
}

#[test]
fn tokens_are_refreshed() {
    let service = service();
    let by_alice = header(&service, "alice");
    let token = service.refresh_auth_session(Some(&by_alice)).unwrap();
    assert_eq!(token.user_name, "Alice");
    assert!(service.tokens.verify(&token.user_token).is_ok());
    assert!(service.refresh_auth_session(None).is_err());
    let token = service.refresh_for(&user(&service, "alice"), 50).unwrap();
    assert_eq!(token.expires_at, 650);
}

#[test]
fn users_are_verified() {
    let service = service();
    let by_alice = header(&service, "alice");
    let info = service.verify_user(None, Some(&by_alice)).unwrap();
    assert_eq!(info.display_name, "Alice");
    assert_eq!(info.user_id, user(&service, "alice").id);
    assert!(service.verify_user(Some("nonsense"), Some(&by_alice)).is_err());
}

#[test]
fn other_ways_in_are_closed() {
    let service = service();
    let refused = service.exchange_external_token_for_user_token().unwrap_err();
    assert_eq!(refused.code, Code::Unimplemented);
    assert_eq!(refused.message, "external identity providers are not configured");
    let refused = service.exchange_api_key_for_user_token().unwrap_err();
    assert_eq!(refused.code, Code::Unimplemented);
    assert_eq!(refused.message, "API keys are not enabled");
}

#[test]
fn tokens_are_exchanged() {
    let mut service = service();
    let by_alice = header(&service, "alice");
    service.db.set_grant("alice", RESOURCE, &list(&["read"])).unwrap();
    for many in [0, 101] {
        let ids = vec![RESOURCE.to_string(); many];
        let refused = service
            .exchange_user_token_for_multiresource_token(Some(&by_alice), &ids)
            .unwrap_err();
        assert_eq!(refused.code, Code::InvalidArgument);
        assert_eq!(refused.message, "one to 100 resources are required");
    }
    let refused = service
        .exchange_user_token_for_multiresource_token(Some(&by_alice), &list(&[OTHER]))
        .unwrap_err();
    assert_eq!(refused.code, Code::PermissionDenied);
    assert_eq!(refused.message, "user is not authorized for the requested resources");
    let token = service
        .exchange_user_token_for_multiresource_token(Some(&by_alice), &list(&[OTHER, RESOURCE]))
        .unwrap();
    let claims = service.tokens.verify(&token.user_token).unwrap();
    assert_eq!(claims.token_use, "authorization");
    let resources = claims.resources.unwrap();
    assert_eq!(resources.len(), 1);
    assert_eq!(resources[0].resource_id, RESOURCE);
    assert_eq!(resources[0].permission, vec!["read"]);
    let token = service
        .exchange_for(&user(&service, "alice"), &vec![RESOURCE.to_string(); 100], 7)
        .unwrap();
    assert_eq!(token.expires_at, 607);
    service.db.grants[1].permissions = "broken".into();
    let refused = service
        .exchange_user_token_for_multiresource_token(Some(&by_alice), &list(&[RESOURCE]))
        .unwrap_err();
    assert_eq!(refused.code, Code::Internal);
    assert_eq!(refused.message, "authentication service error");
}

#[test]
fn permissions_are_checked() {
    let mut service = service();
    let by_alice = header(&service, "alice");
    service.db.set_grant("alice", RESOURCE, &list(&["read"])).unwrap();
    let checked = service
        .check_user_permission(None, Some(&by_alice), &list(&[OTHER, RESOURCE, "x"]))
        .unwrap();
    assert_eq!(checked.allowed.len(), 1);
    assert_eq!(checked.allowed[0].resource_id, RESOURCE);
    assert_eq!(checked.allowed[0].permission, vec!["read"]);
    assert_eq!(checked.denied.len(), 2);
    assert_eq!(checked.denied[0].resource_id, OTHER);
    assert!(checked.denied[0].permission.is_empty());
    let by_root = header(&service, "root");
    let token = by_root.strip_prefix("Bearer ").unwrap();
    let checked = service
        .check_user_permission(Some(token), Some(&by_alice), &list(&[OTHER]))
        .unwrap();
    assert_eq!(checked.allowed[0].permission, vec!["*"]);
    service.db.grants[1].permissions = "broken".into();
    assert_eq!(
        service.check_for(&user(&service, "alice"), &list(&[RESOURCE])).unwrap_err().code,
        Code::Internal
    );
}

#[test]
fn permissions_are_looked_up() {
    let mut service = service();
    let by_alice = header(&service, "alice");
    let by_root = header(&service, "root");
    let root = user(&service, "root");
    service.db.create_repository(&root, OTHER, "two").unwrap();
    service.db.create_repository(&root, RESOURCE, "one").unwrap();
    assert!(service.lookup_user_permissions(Some(&by_alice), "").unwrap().is_empty());
    service.db.set_grant("alice", OTHER, &list(&["read"])).unwrap();
    let found = service.lookup_user_permissions(Some(&by_alice), "").unwrap();
    assert_eq!(found.len(), 1);
    assert_eq!(found[0].resource_id, OTHER);
    assert_eq!(found[0].permission, vec!["read"]);
    assert!(service.lookup_user_permissions(Some(&by_alice), "urc-0").unwrap().is_empty());
    let found = service.lookup_user_permissions(Some(&by_root), "").unwrap();
    assert_eq!(found.len(), 2);
    assert_eq!(found[0].resource_id, RESOURCE);
    assert_eq!(found[0].permission, vec!["*"]);
    assert_eq!(service.lookup_for(&root, "urc-f").unwrap().len(), 1);
    assert!(service.lookup_user_permissions(None, "").is_err());
}

#[test]
fn users_are_looked_up() {
    let service = service();
    let by_alice = header(&service, "alice");
    let root = user(&service, "root");
    let alice = user(&service, "alice");
    let infos = service
        .get_user_info(Some(&by_alice), &list(&[&root.id, "nobody", &alice.id, &root.id]))
        .unwrap();
    let names: Vec<&str> = infos.iter().map(|i| i.display_name.as_str()).collect();
    assert_eq!(names, vec!["root", "Alice", "root"]);
    assert!(service.get_user_info(None, &list(&[])).is_err());
    let info = service.get_user_id(Some(&by_alice), "ROOT").unwrap().unwrap();
    assert_eq!(info.user_id, root.id);
    assert!(service.get_user_id(Some(&by_alice), "nobody").unwrap().is_none());
    assert_eq!(
        service.get_provider_user_id(Some(&by_alice), "x").unwrap(),
        ("x".to_string(), "x".to_string())
    );
    assert!(service.get_provider_user_id(Some("x"), "x").is_err());
    let info = as_user_info(&alice);
    assert_eq!(info.display_name, "Alice");
    let token = as_user_token(&alice, "t".into(), 9);
    assert_eq!((token.user_token.as_str(), token.expires_at), ("t", 9));
}

#[test]
fn repositories_are_recorded_by_administrators() {
    let mut service = service();
    let by_alice = header(&service, "alice");
    let by_root = header(&service, "root");
    // A grant on all resources is not enough.
    service.db.set_grant("alice", "urc-*", &list(&["*"])).unwrap();
    let refused = service.create_resource(Some(&by_alice), RESOURCE, "one").unwrap_err();
    assert_eq!(refused.code, Code::PermissionDenied);
    assert_eq!(refused.message, "repository creation is not allowed");
    service.create_resource(Some(&by_root), RESOURCE, "one").unwrap();
    assert_eq!(service.db.repositories[0].created_by, user(&service, "root").id);
    let refused = service.create_resource(Some(&by_root), RESOURCE, "two").unwrap_err();
    assert_eq!(refused.code, Code::AlreadyExists);
    assert_eq!(refused.message, "resource already exists");
    let refused = service.create_resource(Some(&by_root), "nonsense", "two").unwrap_err();
    assert_eq!(refused.code, Code::Internal);
    assert_eq!(refused.message, "authentication service error");
    assert!(service.create_resource(None, OTHER, "two").is_err());
    service.create_resource_for(&user(&service, "root"), OTHER, "two", 77).unwrap();
    assert_eq!(service.db.repositories[1].created_at, 77);
}

#[test]
fn repositories_are_forgotten_by_permission() {
    let mut service = service();
    let by_alice = header(&service, "alice");
    let by_root = header(&service, "root");
    service.create_resource(Some(&by_root), RESOURCE, "one").unwrap();
    service.db.set_grant("alice", RESOURCE, &list(&["read", "write"])).unwrap();
    let refused = service.delete_resource(Some(&by_alice), RESOURCE).unwrap_err();
    assert_eq!(refused.code, Code::PermissionDenied);
    assert_eq!(refused.message, "repository deletion is not allowed");
    for right in ["*", "owner", "admin"] {
        service.db.set_grant("alice", RESOURCE, &list(&[right])).unwrap();
        service.delete_resource(Some(&by_alice), RESOURCE).unwrap();
        assert!(service.db.repositories.is_empty());
        service.create_resource(Some(&by_root), RESOURCE, "one").unwrap();
    }
    service.delete_resource(Some(&by_root), RESOURCE).unwrap();
    let refused = service.delete_resource(Some(&by_root), RESOURCE).unwrap_err();
    assert_eq!(refused.code, Code::Internal);
}

#[test]
fn tokens_act_until_a_minute_after_their_expiry() {
    let service = service();
    let token = service.refresh_for(&user(&service, "alice"), 50).unwrap();
    assert_eq!(token.expires_at, 650);
    let who = service.actor_from_token_at(&token.user_token, 710).unwrap();
    assert_eq!(who.username, "alice");
    let refused = service.actor_from_token_at(&token.user_token, 711).unwrap_err();
    assert_eq!(refused.code, Code::Unauthenticated);
    assert_eq!(refused.message, "invalid or expired token");
}

#[test]
fn overlong_filters_are_answered_with_an_error() {
    let mut service = service();
    let by_root = header(&service, "root");
    let by_alice = header(&service, "alice");
    let filter = "x".repeat(50_000);
    assert!(service.lookup_user_permissions(Some(&by_root), &filter).unwrap().is_empty());
    service.create_resource(Some(&by_root), RESOURCE, "one").unwrap();
    service.db.set_grant("alice", RESOURCE, &list(&["read"])).unwrap();
    for by in [by_root, by_alice] {
        let refused = service.lookup_user_permissions(Some(&by), &filter).unwrap_err();
        assert_eq!(refused.code, Code::Internal);
        assert!(service.lookup_user_permissions(Some(&by), &filter[1..]).unwrap().is_empty());
    }
}

#[test]
fn the_two_logins_are_apart() {
    let mut service = service();
    let root = user(&service, "root");
    let (token, _) = service.create_admin_session(&root).unwrap();
    assert_eq!(service.sessions.len(), 0);
    assert!(service.actor_from_token(&token).is_err());
    service.start_auth_session_with("s", "code".into(), 1_000).unwrap();
    service.complete_login_at("code", "s", "root", PASSWORD, 1_000).unwrap();
    let authn = service.get_auth_session_at("code", "s", 1_000).unwrap().unwrap();
    assert_eq!(service.admin_sessions.len(), 1);
    assert!(service.admin_session(&authn.user_token).is_none());
}
