//! The console of the administrator: users, grants and repositories on one page.

use vstd::prelude::*;
use vstd::string::*;

use crate::db;
use crate::db::{User, UserGrant, UserGrantView, UserView};
use crate::html;
use crate::html::{escape, escaped};
use crate::lore_admin::{
    LiveRepository, LiveRepositoryView, RevisionHistoryEntry, RevisionHistoryEntryView,
};
use crate::lore_admin;
use crate::sorting::views;
use crate::text;
use crate::text::Text;
use crate::urls;

verus! {

/// The beginning of the console, up to the name of the administrator.
pub const CONSOLE_STYLE: &'static str = r#"<!doctype html><html lang="zh-CN"><head><meta charset="utf-8"><meta name="viewport" content="width=device-width,initial-scale=1"><title>Lore 认证管理后台</title><style>
        :root{color-scheme:dark}*{box-sizing:border-box}body{font:15px system-ui;background:#0b1120;color:#e5e7eb;margin:0}a{color:#93c5fd}header{display:flex;justify-content:space-between;align-items:center;padding:20px 28px;background:#111827;border-bottom:1px solid #334155}main{width:min(1280px,calc(100% - 32px));margin:28px auto}h1,h2{margin-top:0}section{background:#111827;border:1px solid #293548;border-radius:14px;padding:22px;margin-bottom:22px}form.grid{display:grid;grid-template-columns:1fr 1fr 1fr auto;gap:12px;align-items:end}label{display:grid;gap:6px}input,select{font:inherit;padding:10px;border:1px solid #475569;border-radius:7px;background:#0f172a;color:#fff;min-width:0}button,.button-link{font:inherit;font-weight:700;padding:10px 14px;border:0;border-radius:7px;background:#2563eb;color:#fff;cursor:pointer;text-decoration:none;display:inline-block}button.secondary{background:#475569}button.danger{background:#b91c1c}.inline{display:inline-block;margin:5px 5px 0 0}.password{display:flex;gap:7px;flex-wrap:wrap}details{margin-top:10px}summary{cursor:pointer;color:#fca5a5}table{width:100%;border-collapse:collapse}th,td{text-align:left;padding:12px 10px;border-bottom:1px solid #293548;vertical-align:top}th{color:#94a3b8}code{color:#bfdbfe}.muted{color:#94a3b8;font-size:13px}.notice{padding:12px 14px;border-radius:8px}.success{background:#064e3b}.error{background:#7f1d1d}.logout{margin:0}@media(max-width:800px){form.grid{grid-template-columns:1fr}table,thead,tbody,tr,th,td{display:block}thead{display:none}tr{padding:12px 0;border-bottom:1px solid #334155}td{border:0;padding:6px 0}}
        </style></head><body><header><div><strong>Lore 认证管理后台</strong><div class="muted">当前账号："#;

pub const CONSOLE_LOGOUT: &'static str = r#"</div></div><form class="logout" method="post" action="/admin/logout"><input type="hidden" name="csrf_token" value=""#;

pub const CONSOLE_LOGOUT_END: &'static str = r#""><button class="secondary" type="submit">退出登录</button></form></header><main>"#;

pub const CONSOLE_REPOSITORIES: &'static str = "<section><h2>仓库管理</h2>";

pub const CONSOLE_REPOSITORY_TABLE: &'static str = r#"<p class="muted">仓库信息和提交历史实时读取自 Lore Server。删除是不可恢复的硬删除。</p><div style="overflow-x:auto"><table><thead><tr><th>仓库</th><th>仓库 ID</th><th>默认分支</th><th>创建者</th><th>创建时间</th><th>操作</th></tr></thead><tbody>"#;

pub const CONSOLE_GRANTS: &'static str = r#"</tbody></table></div></section><section><h2>仓库授权</h2><p class="muted">选择已有仓库，或填写 <code>urc-*</code> 表示全部仓库。再次保存同一用户和仓库会覆盖原权限。</p><form class="grid" method="post" action="/admin/grants/set"><input type="hidden" name="csrf_token" value=""#;

pub const CONSOLE_GRANT_USERS: &'static str = r#""><label>用户<select name="username" required><option value="">请选择用户</option>"#;

pub const CONSOLE_GRANT_RESOURCES: &'static str = r#"</select></label><label>仓库 ID<input name="resource_id" list="repository-ids" placeholder="urc-..." required><datalist id="repository-ids">"#;

pub const CONSOLE_GRANT_LEVELS: &'static str = r#"</datalist></label><label>权限级别<select name="access_level" required><option value="read">只读</option><option value="write">读写</option><option value="admin">仓库管理</option><option value="all">完全权限</option></select></label><button type="submit">保存授权</button></form><div style="overflow-x:auto;margin-top:18px"><table><thead><tr><th>用户</th><th>仓库</th><th>权限</th><th>操作</th></tr></thead><tbody>"#;

pub const CONSOLE_NEW_USER: &'static str = r#"</tbody></table></div></section><section><h2>创建用户</h2><form class="grid" method="post" action="/admin/users/create"><input type="hidden" name="csrf_token" value=""#;

pub const CONSOLE_USERS: &'static str = r#""><label>用户名<input name="username" minlength="3" maxlength="64" required></label><label>显示名称<input name="display_name" maxlength="128" required></label><label>初始密码<input type="password" name="password" minlength="10" required></label><button type="submit">创建用户</button></form></section><section><h2>用户列表</h2><div style="overflow-x:auto"><table><thead><tr><th>账号</th><th>用户 ID</th><th>角色</th><th>状态</th><th>操作</th></tr></thead><tbody>"#;

pub const CONSOLE_END: &'static str = "</tbody></table></div></section></main></body></html>";

/// What the Lore server has said of its repositories.
#[derive(Debug)]
pub enum RepositoryListing {
    /// The repositories.
    Listed(Vec<LiveRepository>),
    /// The server could not be asked, or has refused; the message says why.
    Failed(String),
    /// There is no token with which to ask the server.
    NoToken,
    /// There is no server to be asked.
    NotConfigured,
}

pub enum RepositoryListingView {
    Listed(Seq<LiveRepositoryView>),
    Failed(Text),
    NoToken,
    NotConfigured,
}

impl View for RepositoryListing {
    type V = RepositoryListingView;

    open spec fn view(&self) -> RepositoryListingView {
        match *self {
            RepositoryListing::Listed(list) => RepositoryListingView::Listed(views(list@)),
            RepositoryListing::Failed(message) => RepositoryListingView::Failed(message@),
            RepositoryListing::NoToken => RepositoryListingView::NoToken,
            RepositoryListing::NotConfigured => RepositoryListingView::NotConfigured,
        }
    }
}

/// The repositories that were listed.
pub open spec fn listed(listing: RepositoryListingView) -> Seq<LiveRepositoryView> {
    match listing {
        RepositoryListingView::Listed(list) => list,
        _ => Seq::empty(),
    }
}

/// What the console says where there is no list of repositories.
pub open spec fn repository_notice(listing: RepositoryListingView) -> Text {
    match listing {
        RepositoryListingView::Listed(_) => Seq::empty(),
        RepositoryListingView::Failed(message) =>
            r#"<p class="notice error">无法读取 Lore Server 仓库："#@ + escaped(message) + "</p>"@,
        RepositoryListingView::NoToken =>
            r#"<p class="notice error">无法签发仓库管理令牌。</p>"#@,
        RepositoryListingView::NotConfigured =>
            r#"<p class="notice error">未配置 LORE_AUTH_LORE_GRPC_URL；仓库列表、提交历史和删除功能不可用。</p>"#@,
    }
}

fn write_repository_notice(listing: &RepositoryListing) -> (r: String)
    ensures
        r@ == repository_notice(listing@),
{
    match listing {
        RepositoryListing::Listed(_) => {
            let r = String::new();
            assert(r@ =~= Seq::empty());
            r
        },
        RepositoryListing::Failed(message) => {
            let mut r = r#"<p class="notice error">无法读取 Lore Server 仓库："#.to_owned();
            r.append(escape(message.as_str()).as_str());
            r.append("</p>");
            r
        },
        RepositoryListing::NoToken => {
            r#"<p class="notice error">无法签发仓库管理令牌。</p>"#.to_owned()
        },
        RepositoryListing::NotConfigured => {
            r#"<p class="notice error">未配置 LORE_AUTH_LORE_GRPC_URL；仓库列表、提交历史和删除功能不可用。</p>"#.to_owned()
        },
    }
}

/// What the last operation has to say.
pub open spec fn notice(message: Option<Text>, error: Option<Text>) -> Text {
    match (message, error) {
        (Some(value), _) => r#"<p class="notice success">"#@ + escaped(value) + "</p>"@,
        (None, Some(value)) => r#"<p class="notice error">"#@ + escaped(value) + "</p>"@,
        (None, None) => Seq::empty(),
    }
}

fn write_notice(message: Option<&str>, error: Option<&str>) -> (r: String)
    ensures
        r@ == notice(message.deep_view(), error.deep_view()),
{
    match (message, error) {
        (Some(value), _) => {
            let mut r = r#"<p class="notice success">"#.to_owned();
            r.append(escape(value).as_str());
            r.append("</p>");
            r
        },
        (None, Some(value)) => {
            let mut r = r#"<p class="notice error">"#.to_owned();
            r.append(escape(value).as_str());
            r.append("</p>");
            r
        },
        (None, None) => {
            let r = String::new();
            assert(r@ =~= Seq::empty());
            r
        },
    }
}

// ---------------------------------------------------------------------------
// Users
// ---------------------------------------------------------------------------

/// A user to whom grants can be made.
pub open spec fn user_option(bootstrap_username: Text, user: UserView) -> Text {
    if text::same_name(user.username, bootstrap_username) {
        Seq::empty()
    } else {
        r#"<option value=""#@ + escaped(user.username) + r#"">"#@ + escaped(user.display_name)
            + "（"@ + escaped(user.username) + "）</option>"@
    }
}

fn append_user_option(out: &mut String, bootstrap_username: &str, user: &User)
    ensures
        final(out)@ == old(out)@ + user_option(bootstrap_username@, user@),
{
    if !text::eq_ignore_ascii_case(user.username.as_str(), bootstrap_username) {
        let mut r = r#"<option value=""#.to_owned();
        r.append(escape(user.username.as_str()).as_str());
        r.append(r#"">"#);
        r.append(escape(user.display_name.as_str()).as_str());
        r.append("（");
        r.append(escape(user.username.as_str()).as_str());
        r.append("）</option>");
        out.append(r.as_str());
    } else {
        assert(out@ =~= out@ + Seq::empty());
    }
}

pub open spec fn role_of(bootstrap_username: Text, user: UserView) -> Text {
    if text::same_name(user.username, bootstrap_username) {
        "终极管理员"@
    } else if user.is_admin {
        "管理员"@
    } else {
        "普通用户"@
    }
}

pub open spec fn status_of(user: UserView) -> Text {
    if user.disabled {
        "已禁用"@
    } else {
        "已启用"@
    }
}

/// The buttons for a user. The account of the chief administrator has none.
pub open spec fn account_actions(bootstrap_username: Text, csrf: Text, user: UserView) -> Text {
    if text::same_name(user.username, bootstrap_username) {
        r#"<span class="muted">受保护账号</span>"#@
    } else {
        r#"<form method="post" action="/admin/users/"#@ + if user.disabled {
            "enable"@
        } else {
            "disable"@
        } + r#"" class="inline"><input type="hidden" name="csrf_token" value=""#@ + csrf
            + r#""><input type="hidden" name="username" value=""#@ + escaped(user.username)
            + r#""><button class="secondary" type="submit">"#@ + if user.disabled {
            "启用"@
        } else {
            "禁用"@
        } + r#"</button></form>
                <form method="post" action="/admin/users/delete" class="inline"><input type="hidden" name="csrf_token" value=""#@
            + csrf + r#""><input type="hidden" name="username" value=""#@ + escaped(user.username)
            + r#""><button class="danger" type="submit">删除</button></form>"#@
    }
}

fn write_account_actions(bootstrap_username: &str, csrf: &str, user: &User) -> (r: String)
    ensures
        r@ == account_actions(bootstrap_username@, csrf@, user@),
{
    if text::eq_ignore_ascii_case(user.username.as_str(), bootstrap_username) {
        return r#"<span class="muted">受保护账号</span>"#.to_owned();
    }
    let mut r = r#"<form method="post" action="/admin/users/"#.to_owned();
    if user.disabled {
        r.append("enable");
    } else {
        r.append("disable");
    }
    r.append(r#"" class="inline"><input type="hidden" name="csrf_token" value=""#);
    r.append(csrf);
    r.append(r#""><input type="hidden" name="username" value=""#);
    r.append(escape(user.username.as_str()).as_str());
    r.append(r#""><button class="secondary" type="submit">"#);
    if user.disabled {
        r.append("启用");
    } else {
        r.append("禁用");
    }
    r.append(
        r#"</button></form>
                <form method="post" action="/admin/users/delete" class="inline"><input type="hidden" name="csrf_token" value=""#,
    );
    r.append(csrf);
    r.append(r#""><input type="hidden" name="username" value=""#);
    r.append(escape(user.username.as_str()).as_str());
    r.append(r#""><button class="danger" type="submit">删除</button></form>"#);
    r
}

/// The row of a user.
pub open spec fn user_row(bootstrap_username: Text, csrf: Text, user: UserView) -> Text {
    "<tr><td><strong>"@ + escaped(user.username) + r#"</strong><br><span class="muted">"#@
        + escaped(user.display_name) + "</span></td><td>"@ + escaped(user.id) + "</td><td>"@
        + role_of(bootstrap_username, user) + "</td><td>"@ + status_of(user)
        + r#"</td><td><form method="post" action="/admin/users/password" class="password"><input type="hidden" name="csrf_token" value=""#@
        + csrf + r#""><input type="hidden" name="username" value=""#@ + escaped(user.username)
        + r#""><input type="password" name="password" minlength="10" placeholder="新密码（至少 10 位）" required><button class="secondary" type="submit">重置密码</button></form>"#@
        + account_actions(bootstrap_username, csrf, user) + "</td></tr>"@
}

fn write_user_row(bootstrap_username: &str, csrf: &str, user: &User) -> (r: String)
    ensures
        r@ == user_row(bootstrap_username@, csrf@, user@),
{
    let username = escape(user.username.as_str());
    let mut r = "<tr><td><strong>".to_owned();
    r.append(username.as_str());
    r.append(r#"</strong><br><span class="muted">"#);
    r.append(escape(user.display_name.as_str()).as_str());
    r.append("</span></td><td>");
    r.append(escape(user.id.as_str()).as_str());
    r.append("</td><td>");
    if text::eq_ignore_ascii_case(user.username.as_str(), bootstrap_username) {
        r.append("终极管理员");
    } else if user.is_admin {
        r.append("管理员");
    } else {
        r.append("普通用户");
    }
    r.append("</td><td>");
    if user.disabled {
        r.append("已禁用");
    } else {
        r.append("已启用");
    }
    r.append(
        r#"</td><td><form method="post" action="/admin/users/password" class="password"><input type="hidden" name="csrf_token" value=""#,
    );
    r.append(csrf);
    r.append(r#""><input type="hidden" name="username" value=""#);
    r.append(username.as_str());
    r.append(
        r#""><input type="password" name="password" minlength="10" placeholder="新密码（至少 10 位）" required><button class="secondary" type="submit">重置密码</button></form>"#,
    );
    r.append(write_account_actions(bootstrap_username, csrf, user).as_str());
    r.append("</td></tr>");
    r
}

pub open spec fn user_options(bootstrap_username: Text, users: Seq<UserView>) -> Text
    decreases users.len(),
{
    if users.len() == 0 {
        Seq::empty()
    } else {
        user_options(bootstrap_username, users.drop_last()) + user_option(
            bootstrap_username,
            users.last(),
        )
    }
}

pub open spec fn user_rows(bootstrap_username: Text, csrf: Text, users: Seq<UserView>) -> Text
    decreases users.len(),
{
    if users.len() == 0 {
        Seq::empty()
    } else {
        user_rows(bootstrap_username, csrf, users.drop_last()) + user_row(
            bootstrap_username,
            csrf,
            users.last(),
        )
    }
}

fn write_users(bootstrap_username: &str, csrf: &str, users: &Vec<User>) -> (r: (String, String))
    ensures
        r.0@ == user_options(bootstrap_username@, users.deep_view()),
        r.1@ == user_rows(bootstrap_username@, csrf@, users.deep_view()),
{
    let ghost all = users.deep_view();
    let mut options = String::new();
    let mut rows = String::new();
    let mut i: usize = 0;
    assert(options@ =~= user_options(bootstrap_username@, all.take(0)));
    assert(rows@ =~= user_rows(bootstrap_username@, csrf@, all.take(0)));
    while i < users.len()
        invariant
            i <= users@.len(),
            all == users.deep_view(),
            options@ == user_options(bootstrap_username@, all.take(i as int)),
            rows@ == user_rows(bootstrap_username@, csrf@, all.take(i as int)),
        decreases users@.len() - i,
    {
        proof {
            assert(all.take(i + 1).drop_last() =~= all.take(i as int));
            assert(all.take(i + 1).last() == users@[i as int]@);
        }
        append_user_option(&mut options, bootstrap_username, &users[i]);
        rows.append(write_user_row(bootstrap_username, csrf, &users[i]).as_str());
        i = i + 1;
    }
    assert(all.take(i as int) =~= all);
    (options, rows)
}

// ---------------------------------------------------------------------------
// Grants
// ---------------------------------------------------------------------------

/// The row of a grant. The grant of the chief administrator on all resources cannot be
/// revoked.
pub open spec fn grant_row(bootstrap_username: Text, csrf: Text, grant: UserGrantView) -> Text {
    "<tr><td><strong>"@ + escaped(grant.username) + "</strong></td><td><code>"@ + escaped(
        grant.resource_id,
    ) + "</code></td><td>"@ + html::labels_of(grant.permissions) + "</td><td>"@ + (
    if text::same_name(grant.username, bootstrap_username) && grant.resource_id
        == db::every_resource() {
        r#"<span class="muted">终极管理员全局权限（受保护）</span>"#@
    } else {
        r#"<form method="post" action="/admin/grants/revoke" class="inline"><input type="hidden" name="csrf_token" value=""#@
            + csrf + r#""><input type="hidden" name="username" value=""#@ + escaped(grant.username)
            + r#""><input type="hidden" name="resource_id" value=""#@ + escaped(grant.resource_id)
            + r#""><button class="danger" type="submit">撤销授权</button></form>"#@
    }) + "</td></tr>"@
}

fn write_grant_row(bootstrap_username: &str, csrf: &str, grant: &UserGrant) -> (r: String)
    ensures
        r@ == grant_row(bootstrap_username@, csrf@, grant@),
{
    let actions = if text::eq_ignore_ascii_case(grant.username.as_str(), bootstrap_username)
        && text::same_text(grant.resource_id.as_str(), "urc-*") {
        r#"<span class="muted">终极管理员全局权限（受保护）</span>"#.to_owned()
    } else {
        let mut a = r#"<form method="post" action="/admin/grants/revoke" class="inline"><input type="hidden" name="csrf_token" value=""#.to_owned();
        a.append(csrf);
        a.append(r#""><input type="hidden" name="username" value=""#);
        a.append(escape(grant.username.as_str()).as_str());
        a.append(r#""><input type="hidden" name="resource_id" value=""#);
        a.append(escape(grant.resource_id.as_str()).as_str());
        a.append(r#""><button class="danger" type="submit">撤销授权</button></form>"#);
        a
    };
    let mut r = "<tr><td><strong>".to_owned();
    r.append(escape(grant.username.as_str()).as_str());
    r.append("</strong></td><td><code>");
    r.append(escape(grant.resource_id.as_str()).as_str());
    r.append("</code></td><td>");
    r.append(html::permission_label(&grant.permissions).as_str());
    r.append("</td><td>");
    r.append(actions.as_str());
    r.append("</td></tr>");
    r
}

pub open spec fn grant_rows(bootstrap_username: Text, csrf: Text, grants: Seq<UserGrantView>) -> Text
    decreases grants.len(),
{
    if grants.len() == 0 {
        Seq::empty()
    } else {
        grant_rows(bootstrap_username, csrf, grants.drop_last()) + grant_row(
            bootstrap_username,
            csrf,
            grants.last(),
        )
    }
}

/// A table's rows, or a row that says that there are none.
pub open spec fn or_else(rows: Text, none: Text) -> Text {
    if rows.len() == 0 {
        none
    } else {
        rows
    }
}

fn choose_rows(rows: String, none: &str) -> (r: String)
    ensures
        r@ == or_else(rows@, none@),
{
    if rows.as_str().is_empty() {
        none.to_owned()
    } else {
        rows
    }
}

fn write_grants(bootstrap_username: &str, csrf: &str, grants: &Vec<UserGrant>) -> (r: String)
    ensures
        r@ == grant_rows(bootstrap_username@, csrf@, grants.deep_view()),
{
    let ghost all = grants.deep_view();
    let mut rows = String::new();
    let mut i: usize = 0;
    assert(rows@ =~= grant_rows(bootstrap_username@, csrf@, all.take(0)));
    while i < grants.len()
        invariant
            i <= grants@.len(),
            all == grants.deep_view(),
            rows@ == grant_rows(bootstrap_username@, csrf@, all.take(i as int)),
        decreases grants@.len() - i,
    {
        proof {
            assert(all.take(i + 1).drop_last() =~= all.take(i as int));
            assert(all.take(i + 1).last() == grants@[i as int]@);
        }
        rows.append(write_grant_row(bootstrap_username, csrf, &grants[i]).as_str());
        i = i + 1;
    }
    assert(all.take(i as int) =~= all);
    rows
}

// ---------------------------------------------------------------------------
// Repositories
// ---------------------------------------------------------------------------

/// The repositories that can be named in a grant: those of the Lore server, or else
/// those that are recorded here.
pub open spec fn grantable(
    live: Seq<LiveRepositoryView>,
    local: Seq<Text>,
) -> Seq<Text> {
    if live.len() == 0 {
        local
    } else {
        live.map_values(|r: LiveRepositoryView| r.resource_id)
    }
}

pub open spec fn repository_options(resource_ids: Seq<Text>) -> Text
    decreases resource_ids.len(),
{
    if resource_ids.len() == 0 {
        r#"<option value="urc-*">全部仓库</option>"#@
    } else {
        repository_options(resource_ids.drop_last()) + r#"<option value=""#@ + escaped(
            resource_ids.last(),
        ) + r#""></option>"#@
    }
}

fn write_repository_options(resource_ids: &Vec<String>) -> (r: String)
    ensures
        r@ == repository_options(resource_ids.deep_view()),
{
    let ghost all = resource_ids.deep_view();
    let mut r = r#"<option value="urc-*">全部仓库</option>"#.to_owned();
    let mut i: usize = 0;
    assert(all.take(0).len() == 0);
    while i < resource_ids.len()
        invariant
            i <= resource_ids@.len(),
            all == resource_ids.deep_view(),
            r@ == repository_options(all.take(i as int)),
        decreases resource_ids@.len() - i,
    {
        proof {
            assert(all.take(i + 1).drop_last() =~= all.take(i as int));
            assert(all.take(i + 1).last() == resource_ids@[i as int]@);
        }
        r.append(r#"<option value=""#);
        r.append(escape(resource_ids[i].as_str()).as_str());
        r.append(r#""></option>"#);
        i = i + 1;
    }
    assert(all.take(i as int) =~= all);
    r
}

/// The row of a repository; `created` is the text for the time of its creation.
pub open spec fn repository_row(csrf: Text, r: LiveRepositoryView, created: Text) -> Text {
    "<tr><td><strong>"@ + escaped(r.name) + r#"</strong><br><span class="muted">"#@ + (
    if r.description.len() == 0 {
        r#"<span class="muted">无描述</span>"#@
    } else {
        escaped(r.description)
    }) + "</span></td><td><code>"@ + escaped(r.resource_id) + "</code></td><td>"@ + (
    if r.default_branch_name.len() == 0 {
        "<code>"@ + escaped(html::short_hex_of(r.default_branch_id)) + "</code>"@
    } else {
        escaped(r.default_branch_name)
    }) + "</td><td>"@ + escaped(
        or_else(r.creator, "未知"@),
    ) + "</td><td>"@ + created
        + r#"</td><td><a class="button-link" href="/admin/repositories/history?resource_id="#@
        + urls::percent_encoded(r.resource_id)
        + r#"">提交历史</a><details><summary>删除仓库</summary><p class="muted">这是不可恢复的硬删除。请输入仓库名称 <strong>"#@
        + escaped(r.name)
        + r#"</strong> 确认。</p><form method="post" action="/admin/repositories/delete" class="password"><input type="hidden" name="csrf_token" value=""#@
        + csrf + r#""><input type="hidden" name="resource_id" value=""#@ + escaped(r.resource_id)
        + r#""><input name="confirmation" autocomplete="off" placeholder="输入仓库名称" required><button class="danger" type="submit">永久删除</button></form></details></td></tr>"#@
}

fn write_repository_row(csrf: &str, repository: &LiveRepository, created: &str) -> (r: String)
    ensures
        r@ == repository_row(csrf@, repository@, created@),
{
    let description = if repository.description.as_str().is_empty() {
        r#"<span class="muted">无描述</span>"#.to_owned()
    } else {
        escape(repository.description.as_str())
    };
    let branch = if repository.default_branch_name.as_str().is_empty() {
        let mut b = "<code>".to_owned();
        b.append(escape(html::short_hex(&repository.default_branch_id).as_str()).as_str());
        b.append("</code>");
        b
    } else {
        escape(repository.default_branch_name.as_str())
    };
    let creator = if repository.creator.as_str().is_empty() {
        escape("未知")
    } else {
        escape(repository.creator.as_str())
    };
    let mut r = "<tr><td><strong>".to_owned();
    r.append(escape(repository.name.as_str()).as_str());
    r.append(r#"</strong><br><span class="muted">"#);
    r.append(description.as_str());
    r.append("</span></td><td><code>");
    r.append(escape(repository.resource_id.as_str()).as_str());
    r.append("</code></td><td>");
    r.append(branch.as_str());
    r.append("</td><td>");
    r.append(creator.as_str());
    r.append("</td><td>");
    r.append(created);
    r.append(
        r#"</td><td><a class="button-link" href="/admin/repositories/history?resource_id="#,
    );
    r.append(urls::percent_encode(repository.resource_id.as_str()).as_str());
    r.append(
        r#"">提交历史</a><details><summary>删除仓库</summary><p class="muted">这是不可恢复的硬删除。请输入仓库名称 <strong>"#,
    );
    r.append(escape(repository.name.as_str()).as_str());
    r.append(
        r#"</strong> 确认。</p><form method="post" action="/admin/repositories/delete" class="password"><input type="hidden" name="csrf_token" value=""#,
    );
    r.append(csrf);
    r.append(r#""><input type="hidden" name="resource_id" value=""#);
    r.append(escape(repository.resource_id.as_str()).as_str());
    r.append(
        r#""><input name="confirmation" autocomplete="off" placeholder="输入仓库名称" required><button class="danger" type="submit">永久删除</button></form></details></td></tr>"#,
    );
    r
}

pub open spec fn repository_rows(
    csrf: Text,
    repositories: Seq<LiveRepositoryView>,
    times: Seq<Text>,
) -> Text
    decreases repositories.len(),
{
    if repositories.len() == 0 {
        Seq::empty()
    } else {
        repository_rows(csrf, repositories.drop_last(), times) + repository_row(
            csrf,
            repositories.last(),
            times[repositories.len() - 1],
        )
    }
}

fn write_repositories(csrf: &str, repositories: &Vec<LiveRepository>, times: &Vec<String>) -> (r:
    String)
    requires
        times@.len() == repositories@.len(),
    ensures
        r@ == repository_rows(csrf@, views(repositories@), times.deep_view()),
{
    let ghost all = views(repositories@);
    let ghost t = times.deep_view();
    let mut rows = String::new();
    let mut i: usize = 0;
    assert(rows@ =~= repository_rows(csrf@, all.take(0), t));
    while i < repositories.len()
        invariant
            i <= repositories@.len(),
            times@.len() == repositories@.len(),
            all == views(repositories@),
            t == times.deep_view(),
            rows@ == repository_rows(csrf@, all.take(i as int), t),
        decreases repositories@.len() - i,
    {
        proof {
            assert(all.take(i + 1).drop_last() =~= all.take(i as int));
            assert(all.take(i + 1).last() == repositories@[i as int]@);
            assert(t[i as int] == times@[i as int]@);
        }
        rows.append(write_repository_row(csrf, &repositories[i], times[i].as_str()).as_str());
        i = i + 1;
    }
    assert(all.take(i as int) =~= all);
    rows
}

/// The identifiers of repositories.
fn ids_of(repositories: &Vec<LiveRepository>) -> (r: Vec<String>)
    ensures
        r.deep_view() == views(repositories@).map_values(|r: LiveRepositoryView| r.resource_id),
{
    let mut r: Vec<String> = Vec::new();
    let mut i: usize = 0;
    while i < repositories.len()
        invariant
            i <= repositories@.len(),
            r@.len() == i,
            forall|j: int| 0 <= j < i ==> #[trigger] r@[j]@ == repositories@[j]@.resource_id,
        decreases repositories@.len() - i,
    {
        r.push(repositories[i].resource_id.clone());
        i = i + 1;
    }
    assert(r.deep_view() =~= views(repositories@).map_values(
        |r: LiveRepositoryView| r.resource_id,
    ));
    r
}

// ---------------------------------------------------------------------------
// The page
// ---------------------------------------------------------------------------

/// What the console shows.
pub struct Console<'a> {
    pub bootstrap_username: &'a str,
    pub actor: &'a str,
    pub csrf_token: &'a str,
    pub message: Option<&'a str>,
    pub error: Option<&'a str>,
    pub users: &'a Vec<User>,
    pub local_repositories: &'a Vec<String>,
    pub grants: &'a Vec<UserGrant>,
    pub listing: &'a RepositoryListing,
}

#[verifier::ext_equal]
pub struct ConsoleView {
    pub bootstrap_username: Text,
    pub actor: Text,
    pub csrf_token: Text,
    pub message: Option<Text>,
    pub error: Option<Text>,
    pub users: Seq<UserView>,
    pub local_repositories: Seq<Text>,
    pub grants: Seq<UserGrantView>,
    pub listing: RepositoryListingView,
}

impl<'a> View for Console<'a> {
    type V = ConsoleView;

    open spec fn view(&self) -> ConsoleView {
        ConsoleView {
            bootstrap_username: self.bootstrap_username@,
            actor: self.actor@,
            csrf_token: self.csrf_token@,
            message: self.message.deep_view(),
            error: self.error.deep_view(),
            users: self.users.deep_view(),
            local_repositories: self.local_repositories.deep_view(),
            grants: self.grants.deep_view(),
            listing: self.listing@,
        }
    }
}

/// The console as a page; `times` are the texts for the times at which the listed
/// repositories were created.
pub open spec fn console_html(c: ConsoleView, times: Seq<Text>) -> Text {
    let csrf = escaped(c.csrf_token);
    let live = listed(c.listing);
    CONSOLE_STYLE@ + escaped(c.actor) + CONSOLE_LOGOUT@ + csrf + CONSOLE_LOGOUT_END@ + notice(
        c.message,
        c.error,
    ) + CONSOLE_REPOSITORIES@ + repository_notice(c.listing) + CONSOLE_REPOSITORY_TABLE@
        + or_else(
        repository_rows(csrf, live, times),
        r#"<tr><td colspan="6" class="muted">没有从 Lore Server 读取到仓库。</td></tr>"#@,
    ) + CONSOLE_GRANTS@ + csrf + CONSOLE_GRANT_USERS@ + user_options(c.bootstrap_username, c.users)
        + CONSOLE_GRANT_RESOURCES@ + repository_options(grantable(live, c.local_repositories))
        + CONSOLE_GRANT_LEVELS@ + or_else(
        grant_rows(c.bootstrap_username, csrf, c.grants),
        r#"<tr><td colspan="4" class="muted">暂无仓库授权。</td></tr>"#@,
    ) + CONSOLE_NEW_USER@ + csrf + CONSOLE_USERS@ + user_rows(c.bootstrap_username, csrf, c.users)
        + CONSOLE_END@
}

/// Writes the console with the given texts for times.
pub fn write_console(console: &Console, times: &Vec<String>) -> (r: String)
    requires
        times@.len() == listed(console@.listing).len(),
    ensures
        r@ == console_html(console@, times.deep_view()),
{
    let csrf = escape(console.csrf_token);
    let (user_options, user_rows) = write_users(
        console.bootstrap_username,
        csrf.as_str(),
        console.users,
    );
    let grant_rows = write_grants(console.bootstrap_username, csrf.as_str(), console.grants);
    let none: Vec<LiveRepository> = Vec::new();
    assert(views(none@) =~= Seq::<LiveRepositoryView>::empty());
    let live = match console.listing {
        RepositoryListing::Listed(list) => list,
        _ => &none,
    };
    let repository_rows = write_repositories(csrf.as_str(), live, times);
    let repository_options = if live.len() == 0 {
        write_repository_options(console.local_repositories)
    } else {
        let ids = ids_of(live);
        write_repository_options(&ids)
    };
    let mut r = CONSOLE_STYLE.to_owned();
    r.append(escape(console.actor).as_str());
    r.append(CONSOLE_LOGOUT);
    r.append(csrf.as_str());
    r.append(CONSOLE_LOGOUT_END);
    r.append(write_notice(console.message, console.error).as_str());
    r.append(CONSOLE_REPOSITORIES);
    r.append(write_repository_notice(console.listing).as_str());
    r.append(CONSOLE_REPOSITORY_TABLE);
    r.append(
        choose_rows(
            repository_rows,
            r#"<tr><td colspan="6" class="muted">没有从 Lore Server 读取到仓库。</td></tr>"#,
        ).as_str(),
    );
    r.append(CONSOLE_GRANTS);
    r.append(csrf.as_str());
    r.append(CONSOLE_GRANT_USERS);
    r.append(user_options.as_str());
    r.append(CONSOLE_GRANT_RESOURCES);
    r.append(repository_options.as_str());
    r.append(CONSOLE_GRANT_LEVELS);
    r.append(
        choose_rows(
            grant_rows,
            r#"<tr><td colspan="4" class="muted">暂无仓库授权。</td></tr>"#,
        ).as_str(),
    );
    r.append(CONSOLE_NEW_USER);
    r.append(csrf.as_str());
    r.append(CONSOLE_USERS);
    r.append(user_rows.as_str());
    r.append(CONSOLE_END);
    r
}

/// Whether these are texts for the times at which the repositories were created.
pub open spec fn are_creation_times(
    repositories: Seq<LiveRepositoryView>,
    times: Seq<Text>,
) -> bool {
    &&& times.len() == repositories.len()
    &&& forall|i: int|
        0 <= i < times.len() ==> html::is_time_text(
            repositories[i].created,
            #[trigger] times[i],
        )
}

fn creation_times(repositories: &Vec<LiveRepository>) -> (r: Vec<String>)
    ensures
        are_creation_times(views(repositories@), r.deep_view()),
{
    let mut r: Vec<String> = Vec::new();
    let mut i: usize = 0;
    while i < repositories.len()
        invariant
            i <= repositories@.len(),
            r@.len() == i,
            forall|j: int|
                0 <= j < i ==> html::is_time_text(
                    repositories@[j]@.created,
                    (#[trigger] r@[j])@,
                ),
        decreases repositories@.len() - i,
    {
        r.push(html::format_timestamp(repositories[i].created));
        i = i + 1;
    }
    proof {
        let times = r.deep_view();
        assert forall|j: int| 0 <= j < times.len() implies html::is_time_text(
            views(repositories@)[j].created,
            #[trigger] times[j],
        ) by {
            assert(times[j] == r@[j]@);
        }
    }
    r
}

/// The texts for the times at which the listed repositories were created.
pub fn times_of(listing: &RepositoryListing) -> (r: Vec<String>)
    ensures
        are_creation_times(listed(listing@), r.deep_view()),
{
    match listing {
        RepositoryListing::Listed(list) => creation_times(list),
        _ => {
            let none: Vec<String> = Vec::new();
            none
        },
    }
}

// ---------------------------------------------------------------------------
// The history of a repository
// ---------------------------------------------------------------------------

pub const HISTORY_HEAD: &'static str =
    r#"<p><a href="/admin">← 返回管理后台</a></p><h2>仓库提交历史</h2><p><strong>"#;

pub const HISTORY_TABLE: &'static str =
    r#"</code></p><p class="muted">最多显示最近 50 条提交，按提交时间倒序排列。</p><div style="overflow-x:auto"><table><thead><tr><th>分支</th><th>修订</th><th>提交说明</th><th>提交人</th><th>提交时间</th><th>签名</th></tr></thead><tbody>"#;

/// The row of a revision; `time` is the text for the time of the commit.
pub open spec fn history_row(e: RevisionHistoryEntryView, time: Text) -> Text {
    "<tr><td>"@ + escaped(e.branch_name) + "</td><td>#"@ + text::decimal(e.number as nat)
        + "</td><td>"@ + escaped(or_else(e.message, "（无提交说明）"@)) + "</td><td>"@ + escaped(
        or_else(e.committed_by, "未知"@),
    ) + "</td><td>"@ + time + "</td><td><code>"@ + escaped(
        lore_admin::at_most(e.signature, 16),
    ) + "</code></td></tr>"@
}

fn beginning(s: &str, n: usize) -> (r: String)
    ensures
        r@ == lore_admin::at_most(s@, n as int),
{
    let v = text::chars_of(s);
    if v.len() <= n {
        s.to_owned()
    } else {
        assert(v@.subrange(0, n as int) =~= v@.take(n as int));
        text::text_of(&v, 0, n)
    }
}

fn write_history_row(entry: &RevisionHistoryEntry, time: &str) -> (r: String)
    ensures
        r@ == history_row(entry@, time@),
{
    let message = if entry.message.as_str().is_empty() {
        escape("（无提交说明）")
    } else {
        escape(entry.message.as_str())
    };
    let committed_by = if entry.committed_by.as_str().is_empty() {
        escape("未知")
    } else {
        escape(entry.committed_by.as_str())
    };
    let mut r = "<tr><td>".to_owned();
    r.append(escape(entry.branch_name.as_str()).as_str());
    r.append("</td><td>#");
    r.append(text::write_decimal(entry.number).as_str());
    r.append("</td><td>");
    r.append(message.as_str());
    r.append("</td><td>");
    r.append(committed_by.as_str());
    r.append("</td><td>");
    r.append(time);
    r.append("</td><td><code>");
    r.append(escape(beginning(entry.signature.as_str(), 16).as_str()).as_str());
    r.append("</code></td></tr>");
    r
}

pub open spec fn history_rows(history: Seq<RevisionHistoryEntryView>, times: Seq<Text>) -> Text
    decreases history.len(),
{
    if history.len() == 0 {
        Seq::empty()
    } else {
        history_rows(history.drop_last(), times) + history_row(
            history.last(),
            times[history.len() - 1],
        )
    }
}

/// The history of a repository as a page; `times` are the texts for the times of the
/// commits.
pub open spec fn history_html(
    name: Text,
    resource_id: Text,
    history: Seq<RevisionHistoryEntryView>,
    times: Seq<Text>,
) -> Text {
    html::admin_page_html(
        "仓库提交历史"@,
        HISTORY_HEAD@ + escaped(name) + "</strong><br><code>"@ + escaped(resource_id)
            + HISTORY_TABLE@ + or_else(
            history_rows(history, times),
            r#"<tr><td colspan="6" class="muted">该仓库暂无提交记录。</td></tr>"#@,
        ) + "</tbody></table></div>"@,
    )
}

/// Writes the history of a repository with the given texts for times.
pub fn write_history(
    name: &str,
    resource_id: &str,
    history: &Vec<RevisionHistoryEntry>,
    times: &Vec<String>,
) -> (r: String)
    requires
        times@.len() == history@.len(),
    ensures
        r@ == history_html(name@, resource_id@, views(history@), times.deep_view()),
{
    let ghost all = views(history@);
    let ghost t = times.deep_view();
    let mut rows = String::new();
    let mut i: usize = 0;
    assert(rows@ =~= history_rows(all.take(0), t));
    while i < history.len()
        invariant
            i <= history@.len(),
            times@.len() == history@.len(),
            all == views(history@),
            t == times.deep_view(),
            rows@ == history_rows(all.take(i as int), t),
        decreases history@.len() - i,
    {
        proof {
            assert(all.take(i + 1).drop_last() =~= all.take(i as int));
            assert(all.take(i + 1).last() == history@[i as int]@);
            assert(t[i as int] == times@[i as int]@);
        }
        rows.append(write_history_row(&history[i], times[i].as_str()).as_str());
        i = i + 1;
    }
    assert(all.take(i as int) =~= all);
    let mut body = HISTORY_HEAD.to_owned();
    body.append(escape(name).as_str());
    body.append("</strong><br><code>");
    body.append(escape(resource_id).as_str());
    body.append(HISTORY_TABLE);
    body.append(
        choose_rows(
            rows,
            r#"<tr><td colspan="6" class="muted">该仓库暂无提交记录。</td></tr>"#,
        ).as_str(),
    );
    body.append("</tbody></table></div>");
    html::admin_page("仓库提交历史", body.as_str())
}

/// Whether these are texts for the times of the commits.
pub open spec fn are_commit_times(
    history: Seq<RevisionHistoryEntryView>,
    times: Seq<Text>,
) -> bool {
    &&& times.len() == history.len()
    &&& forall|i: int|
        0 <= i < times.len() ==> html::is_time_text(history[i].timestamp, #[trigger] times[i])
}

/// Writes the history of a repository.
pub fn render_history(name: &str, resource_id: &str, history: &Vec<RevisionHistoryEntry>) -> (r:
    String)
    ensures
        exists|times: Seq<Text>|
            are_commit_times(views(history@), times) && r@ == #[trigger] history_html(
                name@,
                resource_id@,
                views(history@),
                times,
            ),
{
    let mut times: Vec<String> = Vec::new();
    let mut i: usize = 0;
    while i < history.len()
        invariant
            i <= history@.len(),
            times@.len() == i,
            forall|j: int|
                0 <= j < i ==> html::is_time_text(
                    history@[j]@.timestamp,
                    (#[trigger] times@[j])@,
                ),
        decreases history@.len() - i,
    {
        times.push(html::format_timestamp(history[i].timestamp));
        i = i + 1;
    }
    proof {
        let shown = times.deep_view();
        assert forall|j: int| 0 <= j < shown.len() implies html::is_time_text(
            views(history@)[j].timestamp,
            #[trigger] shown[j],
        ) by {
            assert(shown[j] == times@[j]@);
        }
        assert(are_commit_times(views(history@), shown));
    }
    write_history(name, resource_id, history, &times)
}

} // verus!
