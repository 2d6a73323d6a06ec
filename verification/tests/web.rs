use lore_auth::console::RepositoryListing;
use lore_auth::db::Database;
use lore_auth::keys::TokenIssuer;
use lore_auth::lore_admin::{LiveRepository, RevisionHistoryEntry};
use lore_auth::service::{AdminSession, AuthService};
use lore_auth::web::{
    admin_delete_repository, admin_error, admin_login_get, admin_login_page, admin_lore_error,
    admin_lore_redirect, admin_operation_error, admin_redirect, admin_repository_history, cookie,
    deletion_target, health, index, jwks_cache_control, secured_headers, valid_csrf, Inquiry,
    Reply,
};
use rsa::pkcs8::{EncodePrivateKey, LineEnding};
use rsa::{BigUint, RsaPrivateKey};

const RESOURCE: &str = "urc-0123456789abcdef0123456789abcdef";
const PASSWORD: &str = "correct horse battery staple";
const COOKIES: Option<&str> = Some("a=b; lore_auth_admin=token ;c=d");

/// A key of two primes just below round numbers, which is made at once.
fn private_pem() -> String {
    let p = (BigUint::from(1u8) << 1024) - BigUint::from(105u8);
    let q = (BigUint::from(3u8) << 1022) - BigUint::from(91u8);
    let key = RsaPrivateKey::from_p_q(p, q, BigUint::from(65537u32)).unwrap();
    key.to_pkcs8_pem(LineEnding::LF).unwrap().to_string()
}

fn service() -> AuthService {
    let mut db = Database::initialize();
    db.ensure_bootstrap_admin(Some("root"), Some(PASSWORD)).unwrap();
    db.create_user("alice", "Alice", PASSWORD, false).unwrap();
    let tokens = TokenIssuer::with_private_key(
        &private_pem(),
        "https://auth.example.test".into(),
        "lore-service".into(),
        "test".into(),
        600,
    )
    .unwrap();
    AuthService::new(
        db,
        tokens,
        "https://auth.example.test".into(),
        300,
        "root".into(),
        Some("http://lore:41337".into()),
    )
}

/// A service in which the administrator is logged in since the second 1000.
fn open_service() -> AuthService {
    let mut service = service();
    let root = service.db.find_user_by_username("root").unwrap();
    service
        .create_admin_session_with(&root, "token".into(), "secret".into(), 1_000)
        .unwrap();
    service
}

fn repository(name: &str, resource_id: &str) -> LiveRepository {
    LiveRepository {
        resource_id: resource_id.into(),
        name: name.into(),
        description: String::new(),
        default_branch_id: vec![],
        default_branch_name: String::new(),
        creator: String::new(),
        created: 0,
    }
}

/// The status of a page with this text in it.
fn status_of(reply: &Reply, text: &str) -> u16 {
    match reply {
        Reply::Page { status, html } => {
            assert!(html.contains(text), "{html}");
            *status
        }
        Reply::Redirect { location, .. } => panic!("{location}"),
    }
}

/// What the console says after a form.
fn said(reply: Reply) -> (String, String) {
    match reply {
        Reply::Redirect { location, set_cookie } => {
            assert!(set_cookie.is_none());
            let query = location.strip_prefix("/admin?").unwrap();
            let (kind, message) = query.split_once('=').unwrap();
            (kind.to_string(), urlencoding::decode(message).unwrap().into_owned())
        }
        Reply::Page { html, .. } => panic!("{html}"),
    }
}

fn message(text: &str) -> (String, String) {
    ("message".to_string(), text.to_string())
}

fn error(text: &str) -> (String, String) {
    ("error".to_string(), text.to_string())
}

#[test]
fn replies() {
    let headers = secured_headers();
    assert_eq!(headers.len(), 4);
    assert_eq!(headers[1], ("x-content-type-options".to_string(), "nosniff".to_string()));
    assert_eq!(headers[3], ("cache-control".to_string(), "no-store".to_string()));
    assert_eq!(status_of(&admin_error(418, "tea"), "<p class=\"error\">tea</p>"), 418);
    assert_eq!(status_of(&admin_login_page(None), "/admin/login"), 200);
    assert_eq!(status_of(&admin_login_page(Some("e")), "<p class=\"error\">e</p>"), 401);
    assert_eq!(status_of(&admin_lore_error("c", "e"), "<p class=\"error\">c：e</p>"), 502);
    assert_eq!(said(admin_lore_redirect("c", "e")), error("c：e"));
    match admin_redirect("message", "a b/ü") {
        Reply::Redirect { location, set_cookie } => {
            assert_eq!(location, "/admin?message=a%20b%2F%C3%BC");
            assert!(set_cookie.is_none());
        }
        _ => panic!(),
    }
    match admin_login_get() {
        Reply::Redirect { location, .. } => assert_eq!(location, "/admin"),
        _ => panic!(),
    }
    assert_eq!(status_of(&index(), "<a href=\"/admin\">打开管理后台</a>"), 200);
    assert_eq!(health()["status"], "ok");
    assert_eq!(health().as_object().unwrap().len(), 1);
    assert_eq!(jwks_cache_control(), "public, max-age=300");
}

#[test]
fn refusals_in_the_words_of_the_console() {
    for (detail, text) in [
        ("username must contain 3 to 64 characters", "用户名长度必须为 3 到 64 个字符。"),
        (
            "username may contain only ASCII letters, digits, '.', '-' and '_'",
            "用户名只能包含英文字母、数字、点、短横线和下划线。",
        ),
        ("display name must not be empty", "显示名称不能为空。"),
        ("password must contain at least 10 characters", "密码长度不能少于 10 个字符。"),
        ("creating user (the username may already exist)", "该用户名已经存在。"),
        ("user not found: x", "用户不存在或已经被删除。"),
        (
            "resource must be 'urc-*' or 'urc-<32 hex characters>'",
            "仓库 ID 格式无效，应为 urc- 加 32 位十六进制字符，或 urc-*。",
        ),
        ("at least one permission is required", "必须选择至少一项权限。"),
        ("anything else", "操作失败，请查看 lore-auth 容器日志。"),
    ] {
        assert_eq!(said(admin_operation_error(detail)), error(text));
    }
}

#[test]
fn cookies() {
    assert_eq!(cookie(None, "a"), None);
    assert_eq!(cookie(Some(""), "a"), None);
    assert_eq!(cookie(Some("a=1"), "a").unwrap(), "1");
    assert_eq!(cookie(Some("b=2;  a=x=y "), "a").unwrap(), "x=y");
    assert_eq!(cookie(Some("aa=1; a=2; a=3"), "a").unwrap(), "2");
    assert_eq!(cookie(Some("A=1"), "a"), None);
    assert_eq!(cookie(Some("a="), "a").unwrap(), "");
}

#[test]
fn secrets_of_forms() {
    let session = |csrf_token: &str| AdminSession {
        user_id: "u".into(),
        csrf_token: csrf_token.into(),
        expires_at: 0,
    };
    assert!(valid_csrf(&session("s"), "s"));
    assert!(!valid_csrf(&session("s"), "t"));
    assert!(!valid_csrf(&session("s"), ""));
    assert!(!valid_csrf(&session(""), ""));
}

#[test]
fn the_login_page() {
    let mut service = service();
    let expired = "<p>这次登录请求无效或已经过期。</p>";
    assert_eq!(status_of(&service.login_page("code", "s"), expired), 400);
    service.start_auth_session_with("s", "code".into(), 1_000).unwrap();
    assert_eq!(status_of(&service.login_page_at("code", "s", 1_300), "value=\"code\""), 200);
    assert_eq!(status_of(&service.login_page_at("code", "t", 1_300), expired), 400);
    assert_eq!(status_of(&service.login_page_at("code", "s", 1_301), expired), 400);
}

#[test]
fn logging_in_on_the_page() {
    let mut service = service();
    service.start_auth_session_with("s", "code".into(), 1_000).unwrap();
    let reply = service.login_at("code", "s", "alice", "wrong", 1_000);
    assert_eq!(status_of(&reply, "<p class=\"error\">用户名或密码错误。</p>"), 401);
    let reply = service.login_at("code", "s", "alice", PASSWORD, 1_000);
    assert_eq!(status_of(&reply, "你可以关闭此窗口并返回 Lore。"), 200);
    assert!(service.get_auth_session_at("code", "s", 1_000).unwrap().is_some());
    let reply = service.login("code", "s", "alice", PASSWORD);
    assert_eq!(status_of(&reply, "请返回 Lore 重新发起登录。"), 400);
    service.start_auth_session_with("s", "code".into(), 1_000).unwrap();
    service.db.users[1].user.password_hash = "broken".into();
    let reply = service.login_at("code", "s", "alice", PASSWORD, 1_000);
    assert_eq!(status_of(&reply, "<p>认证服务发生内部错误。</p>"), 500);
}

#[test]
fn the_administrator_logs_in() {
    let mut service = service();
    let reply = service.admin_login("root", "wrong");
    assert_eq!(status_of(&reply, "用户名或密码错误。"), 401);
    let reply = service.admin_login("alice", PASSWORD);
    assert_eq!(status_of(&reply, "只有终极管理员可以使用此后台。"), 401);
    match service.admin_login_with("ROOT", PASSWORD, "token".into(), "secret".into(), 1_000) {
        Reply::Redirect { location, set_cookie } => {
            assert_eq!(location, "/admin");
            assert_eq!(
                set_cookie.unwrap(),
                "lore_auth_admin=token; Path=/admin; HttpOnly; Secure; SameSite=Strict; Max-Age=28800"
            );
        }
        _ => panic!(),
    }
    let (session, root) = service.admin_at(COOKIES, None, 29_800).unwrap();
    assert_eq!(session.csrf_token, "secret");
    assert_eq!(root.username, "root");
    let reply = service.admin_at(None, Some("e"), 29_800).unwrap_err();
    assert_eq!(status_of(&reply, "<p class=\"error\">e</p>"), 401);
    let reply = service.admin_at(COOKIES, None, 29_801).unwrap_err();
    assert_eq!(status_of(&reply, "/admin/login"), 200);

    let cookies = match service.admin_login("root", PASSWORD) {
        Reply::Redirect { set_cookie, .. } => set_cookie.unwrap(),
        _ => panic!(),
    };
    assert!(service.admin(Some(&cookies), None).is_ok());
}

#[test]
fn forms_are_guarded() {
    let mut service = open_service();
    let reply = service.admin_delete_user_at(None, "secret", "alice", 1_000);
    assert_eq!(status_of(&reply, "/admin/login"), 200);
    let reply = service.admin_delete_user_at(COOKIES, "guess", "alice", 1_000);
    assert_eq!(status_of(&reply, "安全校验失败，请刷新页面后重试。 "), 403);
    let reply = service.admin_delete_user_at(COOKIES, "", "alice", 1_000);
    assert_eq!(status_of(&reply, "安全校验失败"), 403);
    let reply = service.admin_delete_user_at(COOKIES, "secret", "alice", 100_000);
    assert_eq!(status_of(&reply, "/admin/login"), 200);
    assert_eq!(service.db.users.len(), 2);
}

#[test]
fn logging_out() {
    let mut service = open_service();
    match service.admin_logout_at(COOKIES, "secret", 1_000) {
        Reply::Redirect { location, set_cookie } => {
            assert_eq!(location, "/admin");
            assert_eq!(
                set_cookie.unwrap(),
                "lore_auth_admin=; Path=/admin; HttpOnly; Secure; SameSite=Strict; Max-Age=0"
            );
        }
        _ => panic!(),
    }
    assert!(service.admin_actor_at(COOKIES, 1_000).is_none());
    assert_eq!(status_of(&service.admin_logout(COOKIES, "secret"), "/admin/login"), 200);
}

#[test]
fn creating_users_on_the_console() {
    let mut service = open_service();
    let mut create = |username: &str, display_name: &str, password: &str, id: &str| {
        said(service.admin_create_user_with(
            COOKIES,
            "secret",
            username,
            display_name,
            password,
            "c2FsdHNhbHQ",
            id.to_string(),
            1_000,
        ))
    };
    assert_eq!(create(" bob ", "Bob", PASSWORD, "id-1"), message("用户 bob 创建成功。"));
    assert_eq!(create("BOB", "Bob", PASSWORD, "id-2"), error("该用户名已经存在。"));
    assert_eq!(create("b", "Bob", PASSWORD, "id-2"), error("用户名长度必须为 3 到 64 个字符。"));
    assert_eq!(create("carol", " ", PASSWORD, "id-2"), error("显示名称不能为空。"));
    assert_eq!(create("carol", "C", "short", "id-2"), error("密码长度不能少于 10 个字符。"));
    let bob = service.db.find_user_by_id("id-1").unwrap();
    assert!(!bob.is_admin);
    let reply = service.admin_create_user(COOKIES, "secret", "dave", "D", PASSWORD);
    assert_eq!(status_of(&reply, "/admin/login"), 200);
}

#[test]
fn the_chief_administrator_stays() {
    let mut service = open_service();
    assert_eq!(
        said(service.admin_delete_user_at(COOKIES, "secret", "ROOT", 1_000)),
        error("终极管理员不能被删除。 ")
    );
    for disabled in [true, false] {
        assert_eq!(
            said(service.set_user_disabled_at(COOKIES, "secret", "Root", disabled, 1_000)),
            error("终极管理员不能被禁用。 ")
        );
    }
    assert_eq!(
        said(service.admin_revoke_grant_at(COOKIES, "secret", "rOOt", "urc-*", 1_000)),
        error("不能撤销终极管理员的全局权限。 ")
    );
    assert_eq!(
        said(service.admin_revoke_grant_at(COOKIES, "secret", "root", RESOURCE, 1_000)),
        message("仓库授权已撤销。")
    );
    let root = service.db.find_user_by_username("root").unwrap();
    assert!(!root.disabled);
    assert_eq!(service.db.permissions_for(&root.id, RESOURCE).unwrap(), vec!["*"]);
}

#[test]
fn changing_users_on_the_console() {
    let mut service = open_service();
    let alice = service.db.find_user_by_username("alice").unwrap();
    service.db.create_repository(&alice, RESOURCE, "one").unwrap();
    assert_eq!(
        said(service.set_user_disabled_at(COOKIES, "secret", "alice", true, 1_000)),
        message("用户已禁用。")
    );
    assert!(service.db.find_user_by_username("alice").unwrap().disabled);
    assert_eq!(
        said(service.set_user_disabled_at(COOKIES, "secret", "alice", false, 1_000)),
        message("用户已启用。")
    );
    assert_eq!(
        said(service.admin_set_password_with(
            COOKIES,
            "secret",
            "alice",
            "another password",
            "c2FsdHNhbHQ",
            1_000
        )),
        message("密码已更新。")
    );
    assert!(service.db.authenticate("alice", "another password").unwrap().is_some());
    assert_eq!(
        said(service.admin_delete_user_at(COOKIES, "secret", "alice", 1_000)),
        message("用户已删除，其名下仓库已转交给终极管理员。")
    );
    let root = service.db.find_user_by_username("root").unwrap();
    assert_eq!(service.db.repositories[0].created_by, root.id);
    assert_eq!(
        said(service.admin_delete_user_at(COOKIES, "secret", "alice", 1_000)),
        error("用户不存在或已经被删除。")
    );
    let reply = service.set_user_disabled(COOKIES, "secret", "alice", true);
    assert_eq!(status_of(&reply, "/admin/login"), 200);
    let reply = service.admin_set_password(COOKIES, "secret", "root", PASSWORD);
    assert_eq!(status_of(&reply, "/admin/login"), 200);
}

#[test]
fn changing_grants_on_the_console() {
    let mut service = open_service();
    let alice = service.db.find_user_by_username("alice").unwrap();
    for (level, permissions) in [
        ("read", vec!["read"]),
        ("write", vec!["read", "write"]),
        ("admin", vec!["admin", "migrate", "obliterate", "owner", "read", "write"]),
        ("all", vec!["*"]),
    ] {
        assert_eq!(
            said(service.admin_set_grant_at(COOKIES, "secret", "alice", RESOURCE, level, 1_000)),
            message("仓库授权已保存。")
        );
        assert_eq!(service.db.permissions_for(&alice.id, RESOURCE).unwrap(), permissions);
    }
    assert_eq!(
        said(service.admin_set_grant_at(COOKIES, "secret", "alice", RESOURCE, "none", 1_000)),
        error("请选择有效的权限级别。")
    );
    assert_eq!(
        said(service.admin_set_grant_at(COOKIES, "secret", "alice", "x", "read", 1_000)),
        error("仓库 ID 格式无效，应为 urc- 加 32 位十六进制字符，或 urc-*。")
    );
    assert_eq!(
        said(service.admin_revoke_grant_at(COOKIES, "secret", "alice", RESOURCE, 1_000)),
        message("仓库授权已撤销。")
    );
    assert!(service.db.permissions_for(&alice.id, RESOURCE).unwrap().is_empty());
    assert_eq!(
        said(service.admin_revoke_grant_at(COOKIES, "secret", "nobody", RESOURCE, 1_000)),
        error("用户不存在或已经被删除。")
    );
}

#[test]
fn the_console_asks_the_server() {
    let mut service = open_service();
    let (session, root) = service.admin_at(COOKIES, None, 1_000).unwrap();
    match service.console_inquiry(&root) {
        Inquiry::Ask(call) => {
            assert_eq!(call.endpoint, "http://lore:41337");
            assert_eq!(service.tokens.verify(&call.token).unwrap().user_id, root.id);
        }
        _ => panic!(),
    }
    let listing = RepositoryListing::Listed(vec![repository("one", RESOURCE)]);
    let reply = service.render_admin(&session, &root, Some("m"), None, &listing);
    assert_eq!(status_of(&reply, "<strong>one</strong>"), 200);
    assert_eq!(status_of(&reply, "<p class=\"notice success\">m</p>"), 200);
    assert_eq!(status_of(&reply, "<strong>alice</strong>"), 200);
    service.db.grants[0].permissions = "broken".into();
    let reply = service.render_admin(&session, &root, None, None, &listing);
    assert_eq!(status_of(&reply, "无法读取后台数据。"), 500);
    service.lore_grpc_url = None;
    assert!(matches!(
        service.console_inquiry_at(&root, 7),
        Inquiry::Known(RepositoryListing::NotConfigured)
    ));
}

#[test]
fn the_history_of_a_repository() {
    let mut service = open_service();
    let reply = service.history_start(None).unwrap_err();
    assert_eq!(status_of(&reply, "/admin/login"), 200);
    let (call, root) = service.history_start_at(COOKIES, 1_000).unwrap();
    assert_eq!(call.endpoint, "http://lore:41337");
    let reply = service
        .history_target_at(&root, Err("down".into()), RESOURCE, 1_000)
        .unwrap_err();
    assert_eq!(status_of(&reply, "读取 Lore 仓库列表失败：down"), 502);
    let reply = service.history_target(&root, Ok(vec![]), RESOURCE).unwrap_err();
    assert_eq!(status_of(&reply, "仓库不存在或已被删除。"), 404);
    let list = vec![repository("zero", "urc-0"), repository("one", RESOURCE)];
    let (target, token) = service.history_target(&root, Ok(list), RESOURCE).unwrap();
    assert_eq!(target.name, "one");
    let resources = service.tokens.verify(&token).unwrap().resources.unwrap();
    assert_eq!(resources.len(), 1);
    assert_eq!(resources[0].resource_id, RESOURCE);
    assert_eq!(resources[0].permission, vec!["*"]);
    let entry = RevisionHistoryEntry {
        branch_name: "main".into(),
        number: 7,
        signature: "ab".into(),
        message: "first".into(),
        timestamp: 0,
        committed_by: "bob".into(),
    };
    let reply = admin_repository_history(&target, Ok(vec![entry]));
    assert_eq!(status_of(&reply, "<td>first</td><td>bob</td>"), 200);
    let reply = admin_repository_history(&target, Err("down".into()));
    assert_eq!(status_of(&reply, "读取提交历史失败：down"), 502);
    service.lore_grpc_url = None;
    let reply = service.history_start_at(COOKIES, 1_000).unwrap_err();
    assert_eq!(
        status_of(&reply, "尚未配置 LORE_AUTH_LORE_GRPC_URL，无法读取提交历史。"),
        503
    );
}

#[test]
fn deleting_a_repository() {
    let mut service = open_service();
    let reply = service.deletion_start(COOKIES, "secret").unwrap_err();
    assert_eq!(status_of(&reply, "/admin/login"), 200);
    let mut service = open_service();
    let reply = service.deletion_start_at(COOKIES, "guess", 1_000).unwrap_err();
    assert_eq!(status_of(&reply, "安全校验失败"), 403);
    let call = service.deletion_start_at(COOKIES, "secret", 1_000).unwrap();
    assert_eq!(call.endpoint, "http://lore:41337");
    let list = || Ok(vec![repository("one", RESOURCE)]);
    assert_eq!(
        said(deletion_target(Err("down".into()), RESOURCE, "one").unwrap_err()),
        error("读取 Lore 仓库列表失败：down")
    );
    assert_eq!(
        said(deletion_target(list(), "urc-0", "one").unwrap_err()),
        error("仓库不存在或已被删除。")
    );
    assert_eq!(
        said(deletion_target(list(), RESOURCE, "One").unwrap_err()),
        error("确认名称不匹配，仓库未删除。")
    );
    assert_eq!(deletion_target(list(), RESOURCE, "one").unwrap().resource_id, RESOURCE);
    assert_eq!(
        said(admin_delete_repository("one", Ok(()))),
        message("仓库 one 已从 Lore Server 永久删除。")
    );
    assert_eq!(
        said(admin_delete_repository("one", Err("down".into()))),
        error("Lore Server 删除仓库失败：down")
    );
    service.lore_grpc_url = None;
    assert_eq!(
        said(service.deletion_start_at(COOKIES, "secret", 1_000).unwrap_err()),
        error("尚未配置 LORE_AUTH_LORE_GRPC_URL，不能删除仓库。")
    );
}
