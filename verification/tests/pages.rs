use lore_auth::console::{render_history, times_of, write_console, Console, RepositoryListing};
use lore_auth::db::{User, UserGrant};
use lore_auth::html::{
    admin_error_page, admin_login_form, admin_page, escape, format_timestamp, format_timestamp_at,
    login_form, page, permission_label, short_hex,
};
use lore_auth::lore_admin::{LiveRepository, RevisionHistoryEntry};

fn user(username: &str, display_name: &str, disabled: bool, is_admin: bool) -> User {
    User {
        id: format!("id-{username}"),
        username: username.into(),
        display_name: display_name.into(),
        password_hash: "none".into(),
        disabled,
        is_admin,
    }
}

fn grant(username: &str, resource_id: &str, permissions: &[&str]) -> UserGrant {
    UserGrant {
        username: username.into(),
        resource_id: resource_id.into(),
        permissions: permissions.iter().map(|s| s.to_string()).collect(),
    }
}

fn repository(name: &str) -> LiveRepository {
    LiveRepository {
        resource_id: format!("urc-{name}"),
        name: name.into(),
        description: String::new(),
        default_branch_id: vec![0xab; 10],
        default_branch_name: String::new(),
        creator: String::new(),
        created: 0,
    }
}

fn console_with(
    users: &Vec<User>,
    grants: &Vec<UserGrant>,
    message: Option<&str>,
    error: Option<&str>,
    listing: &RepositoryListing,
) -> String {
    let local_repositories = vec!["urc-local".to_string()];
    let console = Console {
        bootstrap_username: "root",
        actor: "ro<ot",
        csrf_token: "sec\"ret",
        message,
        error,
        users,
        local_repositories: &local_repositories,
        grants,
        listing,
    };
    write_console(&console, &times_of(listing))
}

#[test]
fn escaping() {
    assert_eq!(escape(""), "");
    assert_eq!(escape("a<b>&\"c'é"), "a&lt;b&gt;&amp;&quot;c&#39;é");
    assert_eq!(escape("&amp;"), "&amp;amp;");
}

#[test]
fn plain_pages() {
    let shown = page("T&", "<p>body</p>");
    assert!(shown.starts_with("<!doctype html><html lang=\"zh-CN\"><head><meta charset=\"utf-8\">"));
    assert!(shown.contains("<title>T&amp;</title><style>\n        :root{color-scheme:dark}body{"));
    assert!(shown.ends_with(
        "\n        </style></head><body><main><h1>T&amp;</h1><p>body</p></main></body></html>"
    ));
    let shown = admin_page("T", "<p>wide</p>");
    assert!(shown.contains("<title>T</title><style>:root{color-scheme:dark}*{box-sizing"));
    assert!(shown.ends_with("</style></head><body><main><p>wide</p></main></body></html>"));
}

#[test]
fn forms() {
    let shown = login_form("co\"de", "st'ate", None);
    assert!(shown.contains(
        "<h1>登录 Lore</h1>\n            <form method=\"post\" action=\"/login\">\n"
    ));
    assert!(shown.contains("name=\"session_code\" value=\"co&quot;de\">\n"));
    assert!(shown.contains("name=\"client_state\" value=\"st&#39;ate\">\n"));
    let shown = login_form("c", "s", Some("<e>"));
    assert!(shown.contains("<h1>登录 Lore</h1><p class=\"error\">&lt;e&gt;</p>\n"));
    let shown = admin_login_form(None);
    assert!(shown.contains("<h1>Lore 认证管理后台</h1><p>请使用 .env 中配置的终极管理员账号登录。</p>"));
    let shown = admin_login_form(Some("e"));
    assert!(shown.contains("<h1>Lore 认证管理后台</h1><p class=\"error\">e</p><p>请使用"));
    let shown = admin_error_page("<e>");
    assert!(shown.contains(
        "<h1>管理操作失败</h1><p class=\"error\">&lt;e&gt;</p><p><a href=\"/admin\">返回管理后台</a></p>"
    ));
}

#[test]
fn labels_of_permissions() {
    let shown = |items: &[&str]| {
        permission_label(&items.iter().map(|s| s.to_string()).collect::<Vec<String>>())
    };
    assert_eq!(shown(&[]), "");
    assert_eq!(shown(&["*"]), "完全权限");
    assert_eq!(
        shown(&["read", "write", "owner", "admin", "obliterate", "migrate", "<x>"]),
        "读取、写入、所有者、管理、彻底删除、迁移、&lt;x&gt;"
    );
}

#[test]
fn short_hexadecimal() {
    assert_eq!(short_hex(&vec![]), "");
    assert_eq!(short_hex(&vec![0x01, 0xfe]), "01fe");
    assert_eq!(short_hex(&vec![0xab; 20]), "abababababababab");
}

#[test]
fn times() {
    assert_eq!(format_timestamp(0), "未知");
    assert_eq!(format_timestamp(u64::MAX >> 1), "无效时间");
    let noon = format_timestamp(1_700_000_000);
    assert_eq!(noon.len(), 19);
    let expected = chrono::DateTime::from_timestamp(1_700_000_000, 0)
        .unwrap()
        .with_timezone(&chrono::Local)
        .format("%Y-%m-%d %H:%M:%S")
        .to_string();
    assert_eq!(noon, expected);
    // The last and the first second that can be dated, and their neighbours.
    assert_eq!(format_timestamp(8_210_266_876_800), "无效时间");
    assert!(format_timestamp(8_210_266_876_799).starts_with("+26214"));
    assert_eq!(format_timestamp(-8_334_601_228_801_i64 as u64), "无效时间");
    assert!(format_timestamp(-8_334_601_228_800_i64 as u64).starts_with("-26214"));
    // Beyond the signed numbers the time wraps to one before 1970.
    assert!(format_timestamp(u64::MAX).starts_with("19"));
}

#[test]
fn times_in_a_zone() {
    assert_eq!(format_timestamp_at(0, 3_600), "未知");
    assert_eq!(format_timestamp_at(1_700_000_000, 0), "2023-11-14 22:13:20");
    assert_eq!(format_timestamp_at(1_700_000_000, 28_800), "2023-11-15 06:13:20");
    assert_eq!(format_timestamp_at(1_700_000_000, -3_661), "2023-11-14 21:12:19");
    assert_eq!(format_timestamp_at(86_399, 0), "1970-01-01 23:59:59");
    assert_eq!(format_timestamp_at(951_782_400, 0), "2000-02-29 00:00:00");
    assert_eq!(format_timestamp_at(1, 86_400), "无效时间");
    assert_eq!(format_timestamp_at(8_210_266_876_800, 0), "无效时间");
    assert_eq!(format_timestamp_at(8_210_266_876_799, 86_399).len(), 22);
}

#[test]
fn an_empty_console() {
    let shown = console_with(&vec![], &vec![], None, None, &RepositoryListing::NotConfigured);
    assert!(shown.contains("<div class=\"muted\">当前账号：ro&lt;ot</div>"));
    assert!(shown.contains("name=\"csrf_token\" value=\"sec&quot;ret\"><button class=\"secondary\""));
    assert!(shown.contains(
        "<main><section><h2>仓库管理</h2><p class=\"notice error\">未配置 LORE_AUTH_LORE_GRPC_URL；仓库列表、提交历史和删除功能不可用。</p><p class=\"muted\">"
    ));
    assert!(shown.contains(
        "<tbody><tr><td colspan=\"6\" class=\"muted\">没有从 Lore Server 读取到仓库。</td></tr></tbody>"
    ));
    assert!(shown.contains(
        "<tbody><tr><td colspan=\"4\" class=\"muted\">暂无仓库授权。</td></tr></tbody>"
    ));
    assert!(shown.contains(
        "<datalist id=\"repository-ids\"><option value=\"urc-*\">全部仓库</option><option value=\"urc-local\"></option></datalist>"
    ));
    assert!(shown.ends_with(
        "<th>操作</th></tr></thead><tbody></tbody></table></div></section></main></body></html>"
    ));
}

#[test]
fn notices_on_the_console() {
    let shown = |message, error, listing: &RepositoryListing| {
        console_with(&vec![], &vec![], message, error, listing)
    };
    let none = RepositoryListing::Listed(vec![]);
    assert!(shown(Some("<m>"), Some("e"), &none)
        .contains("<main><p class=\"notice success\">&lt;m&gt;</p><section>"));
    assert!(shown(None, Some("<e>"), &none)
        .contains("<main><p class=\"notice error\">&lt;e&gt;</p><section>"));
    assert!(shown(None, None, &none).contains("<h2>仓库管理</h2><p class=\"muted\">"));
    assert!(shown(None, None, &RepositoryListing::NoToken)
        .contains("<h2>仓库管理</h2><p class=\"notice error\">无法签发仓库管理令牌。</p>"));
    assert!(shown(None, None, &RepositoryListing::Failed("<f>".into()))
        .contains("<p class=\"notice error\">无法读取 Lore Server 仓库：&lt;f&gt;</p>"));
}

#[test]
fn users_on_the_console() {
    let users = vec![user("ROOT", "R", false, true), user("al", "<A>", true, true), user("bo", "B", false, false)];
    let shown = console_with(&users, &vec![], None, None, &RepositoryListing::NoToken);
    // The chief administrator cannot be chosen, nor switched off.
    assert!(shown.contains(
        "<option value=\"\">请选择用户</option><option value=\"al\">&lt;A&gt;（al）</option><option value=\"bo\">B（bo）</option></select>"
    ));
    assert!(shown.contains(
        "<tr><td><strong>ROOT</strong><br><span class=\"muted\">R</span></td><td>id-ROOT</td><td>终极管理员</td><td>已启用</td>"
    ));
    assert!(shown.contains("<span class=\"muted\">受保护账号</span></td></tr><tr>"));
    assert!(shown.contains("<td>id-al</td><td>管理员</td><td>已禁用</td>"));
    assert!(shown.contains("action=\"/admin/users/enable\" class=\"inline\"><input type=\"hidden\" name=\"csrf_token\" value=\"sec&quot;ret\"><input type=\"hidden\" name=\"username\" value=\"al\"><button class=\"secondary\" type=\"submit\">启用</button></form>\n                <form method=\"post\" action=\"/admin/users/delete\""));
    assert!(shown.contains("<td>id-bo</td><td>普通用户</td><td>已启用</td>"));
    assert!(shown.contains("action=\"/admin/users/disable\""));
}

#[test]
fn grants_on_the_console() {
    let grants = vec![
        grant("Root", "urc-*", &["*"]),
        grant("Root", "urc-1", &["read"]),
        grant("bo", "urc-*", &["write", "admin"]),
    ];
    let shown = console_with(&vec![], &grants, None, None, &RepositoryListing::NoToken);
    assert!(shown.contains(
        "<tr><td><strong>Root</strong></td><td><code>urc-*</code></td><td>完全权限</td><td><span class=\"muted\">终极管理员全局权限（受保护）</span></td></tr>"
    ));
    assert!(shown.contains(
        "<tr><td><strong>bo</strong></td><td><code>urc-*</code></td><td>写入、管理</td><td><form method=\"post\" action=\"/admin/grants/revoke\""
    ));
    assert_eq!(shown.matches("撤销授权").count(), 2);
}

#[test]
fn repositories_on_the_console() {
    let mut named = repository("b&b");
    named.description = "<d>".into();
    named.default_branch_name = "main".into();
    named.creator = "me".into();
    let listing = RepositoryListing::Listed(vec![repository("a"), named]);
    let shown = console_with(&vec![], &vec![], None, None, &listing);
    assert!(shown.contains(
        "<tr><td><strong>a</strong><br><span class=\"muted\"><span class=\"muted\">无描述</span></span></td><td><code>urc-a</code></td><td><code>abababababababab</code></td><td>未知</td><td>未知</td><td>"
    ));
    assert!(shown.contains(
        "<strong>b&amp;b</strong><br><span class=\"muted\">&lt;d&gt;</span></td><td><code>urc-b&amp;b</code></td><td>main</td><td>me</td>"
    ));
    assert!(shown.contains("href=\"/admin/repositories/history?resource_id=urc-b%26b\">提交历史</a>"));
    // Repositories of the server stand in place of those in the tables.
    assert!(shown.contains(
        "<option value=\"urc-*\">全部仓库</option><option value=\"urc-a\"></option><option value=\"urc-b&amp;b\"></option></datalist>"
    ));
    assert!(!shown.contains("urc-local"));
}

#[test]
fn histories() {
    let entry = RevisionHistoryEntry {
        branch_name: "<main>".into(),
        number: 7,
        signature: "0123456789abcdefXYZ".into(),
        message: String::new(),
        timestamp: 0,
        committed_by: String::new(),
    };
    let shown = render_history("n&", "urc-1", &vec![entry]);
    assert!(shown.contains("<p><strong>n&amp;</strong><br><code>urc-1</code></p>"));
    assert!(shown.contains(
        "<tbody><tr><td>&lt;main&gt;</td><td>#7</td><td>（无提交说明）</td><td>未知</td><td>未知</td><td><code>0123456789abcdef</code></td></tr></tbody>"
    ));
    let shown = render_history("n", "urc-1", &vec![]);
    assert!(shown.contains("<tbody><tr><td colspan=\"6\" class=\"muted\">该仓库暂无提交记录。</td></tr></tbody>"));
}
