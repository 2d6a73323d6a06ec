//! What the pages show.

use vstd::prelude::*;

use crate::console;
use crate::console::{ConsoleView, RepositoryListingView};
use crate::db;
use crate::db::{UserGrantView, UserView};
use crate::form_laws::is_page;
use crate::html;
use crate::html::escaped;
use crate::lore_admin;
use crate::lore_admin::{LiveRepositoryView, RevisionHistoryEntryView};
use crate::service::{AdminSessionView, AuthServiceView};
use crate::text;
use crate::text::Text;
use crate::urls;
use crate::web;

verus! {

/// Whether a text stands on a page.
pub open spec fn shows(page: Text, s: Text) -> bool {
    text::contains_text(page, s)
}

/// What stands in one of two texts stands in both, one after the other.
pub broadcast proof fn parts_are_shown(a: Text, b: Text, s: Text)
    ensures
        shows(a, s) || shows(b, s) ==> #[trigger] shows(a + b, s),
{
    if shows(a, s) {
        let i = choose|i: int| text::stands_at(a, i, s);
        assert((a + b).subrange(i, i + s.len()) =~= a.subrange(i, i + s.len()));
        assert(text::stands_at(a + b, i, s));
    }
    if shows(b, s) {
        let i = choose|i: int| text::stands_at(b, i, s);
        let k = a.len() + i;
        assert((a + b).subrange(k, k + s.len()) =~= b.subrange(i, i + s.len()));
        assert(text::stands_at(a + b, k, s));
    }
}

/// A text stands in itself.
pub broadcast proof fn texts_show_themselves(s: Text)
    ensures
        #[trigger] shows(s, s),
{
    assert(s.subrange(0, 0 + s.len() as int) =~= s);
    assert(text::stands_at(s, 0, s));
}

/// What is shown on a part of a page is shown on the page.
proof fn lemma_shown(page: Text, part: Text, s: Text)
    requires
        shows(page, part),
        shows(part, s),
    ensures
        shows(page, s),
{
    let i = choose|i: int| text::stands_at(page, i, part);
    let k = choose|k: int| text::stands_at(part, k, s);
    assert forall|m: int| 0 <= m < s.len() implies page[i + k + m] == s[m] by {
        assert(page.subrange(i, i + part.len())[k + m] == part[k + m]);
        assert(part.subrange(k, k + s.len())[m] == s[m]);
    }
    assert(page.subrange(i + k, i + k + s.len()) =~= s);
    assert(text::stands_at(page, i + k, s));
}

/// It does not matter which of three texts are put together first.
pub broadcast proof fn texts_are_put_together(a: Text, b: Text, c: Text)
    ensures
        #[trigger] (a + b + c) == a + (b + c),
{
    assert(a + b + c =~= a + (b + c));
}

// ---------------------------------------------------------------------------
// Small pages
// ---------------------------------------------------------------------------

/// A page shows its title, escaped, and its content as it is.
pub proof fn pages_show_title_and_content(title: Text, content: Text)
    ensures
        shows(html::page_html(title, content), escaped(title)),
        shows(html::page_html(title, content), content),
        shows(html::admin_page_html(title, content), escaped(title)),
        shows(html::admin_page_html(title, content), content),
{
    broadcast use parts_are_shown, texts_show_themselves;

}

/// The page to log in on holds the session and the client state, escaped, and the error.
pub proof fn login_pages_hold_their_session(
    session_code: Text,
    client_state: Text,
    error: Option<Text>,
)
    ensures
        ({
            let page = html::login_form_html(session_code, client_state, error);
            &&& shows(page, escaped("登录 Lore"@))
            &&& shows(page, html::LOGIN_FORM_START@ + escaped(session_code))
            &&& shows(page, html::LOGIN_FORM_STATE@ + escaped(client_state))
            &&& error matches Some(e) ==> shows(
                page,
                r#"<p class="error">"#@ + escaped(e) + "</p>"@,
            )
            &&& error is None ==> page == html::page_html(
                "登录 Lore"@,
                html::LOGIN_FORM_START@ + escaped(session_code) + html::LOGIN_FORM_STATE@ + escaped(
                    client_state,
                ) + html::LOGIN_FORM_END@,
            )
        }),
{
    broadcast use parts_are_shown, texts_show_themselves;

    let top = html::error_paragraph(error);
    let (a, b, c, d, e) = (
        html::LOGIN_FORM_START@,
        escaped(session_code),
        html::LOGIN_FORM_STATE@,
        escaped(client_state),
        html::LOGIN_FORM_END@,
    );
    let content = top + a + b + c + d + e;
    assert(content =~= top + (a + b) + (c + d) + e);
    assert(shows(top + (a + b) + (c + d) + e, a + b));
    assert(shows(top + (a + b) + (c + d) + e, c + d));
    let page = html::page_html("登录 Lore"@, content);
    pages_show_title_and_content("登录 Lore"@, content);
    lemma_shown(page, content, a + b);
    lemma_shown(page, content, c + d);
    if error is Some {
        assert(shows(content, top));
        lemma_shown(page, content, top);
    } else {
        assert(content =~= a + b + c + d + e);
    }
}

/// The page on which the administrator logs in shows the error, if there is one, above the
/// form; a page with an error shows it.
pub proof fn errors_are_shown(error: Text, message: Text)
    ensures
        html::admin_login_html(None) == html::page_html(
            "Lore 认证管理后台"@,
            html::ADMIN_LOGIN_FORM@,
        ),
        html::admin_login_html(Some(error)) == html::page_html(
            "Lore 认证管理后台"@,
            r#"<p class="error">"#@ + escaped(error) + "</p>"@ + html::ADMIN_LOGIN_FORM@,
        ),
        shows(html::admin_error_html(message), r#"<p class="error">"#@ + escaped(message)),
{
    broadcast use parts_are_shown, texts_show_themselves;

    assert(Seq::<char>::empty() + html::ADMIN_LOGIN_FORM@ =~= html::ADMIN_LOGIN_FORM@);
    let content = r#"<p class="error">"#@ + escaped(message)
        + r#"</p><p><a href="/admin">返回管理后台</a></p>"#@;
    let page = html::page_html("管理操作失败"@, content);
    pages_show_title_and_content("管理操作失败"@, content);
    lemma_shown(page, content, r#"<p class="error">"#@ + escaped(message));
}

// ---------------------------------------------------------------------------
// Words
// ---------------------------------------------------------------------------

/// The permissions that have a name of their own on a page.
pub open spec fn named_permissions() -> Seq<Text> {
    seq!["*"@, "read"@, "write"@, "owner"@, "admin"@, "obliterate"@, "migrate"@]
}

/// Their names.
pub open spec fn permission_names() -> Seq<Text> {
    seq!["完全权限"@, "读取"@, "写入"@, "所有者"@, "管理"@, "彻底删除"@, "迁移"@]
}

/// A permission is shown by its name where it has one, and else as it is, escaped; several
/// are shown one after the other.
pub proof fn permissions_are_shown_by_name(permission: Text, k: int, a: Seq<Text>, b: Seq<Text>)
    ensures
        0 <= k < 7 && permission == named_permissions()[k] ==> html::label_of(permission)
            == permission_names()[k],
        !named_permissions().contains(permission) ==> html::label_of(permission) == escaped(
            permission,
        ),
        html::labels_of(seq![permission]) == html::label_of(permission),
        a.len() > 0 && b.len() > 0 ==> html::labels_of(a + b) == html::labels_of(a) + "、"@
            + html::labels_of(b),
{
    let all = named_permissions();
    reveal_strlit("*");
    reveal_strlit("read");
    reveal_strlit("write");
    reveal_strlit("owner");
    reveal_strlit("admin");
    reveal_strlit("obliterate");
    reveal_strlit("migrate");
    assert("*"@.len() == 1 && "read"@.len() == 4 && "write"@.len() == 5 && "owner"@.len() == 5
        && "admin"@.len() == 5 && "obliterate"@.len() == 10 && "migrate"@.len() == 7);
    assert("write"@[0] == 'w' && "owner"@[0] == 'o' && "admin"@[0] == 'a');
    assert(all[0] == "*"@ && all[1] == "read"@ && all[2] == "write"@ && all[3] == "owner"@
        && all[4] == "admin"@ && all[5] == "obliterate"@ && all[6] == "migrate"@);
    if !all.contains(permission) {
        assert(permission != all[0] && permission != all[1] && permission != all[2] && permission
            != all[3] && permission != all[4] && permission != all[5] && permission != all[6]);
    }
    let f = |p: Text| html::label_of(p);
    assert(seq![permission].map_values(f)[0] == html::label_of(permission));
    if a.len() > 0 && b.len() > 0 {
        assert((a + b).map_values(f) =~= a.map_values(f) + b.map_values(f));
        crate::text_laws::lists_are_joined_one_after_the_other(
            a.map_values(f),
            b.map_values(f),
            "、"@,
        );
    }
}

/// A long text or identifier is shown by its beginning, a short one whole.
pub proof fn long_texts_are_cut(bytes: Seq<u8>, s: Text, n: int)
    requires
        0 <= n,
    ensures
        bytes.len() <= 8 ==> html::short_hex_of(bytes) == lore_admin::hex(bytes),
        bytes.len() > 8 ==> html::short_hex_of(bytes) == lore_admin::hex(bytes.subrange(0, 8)),
        s.len() <= n ==> lore_admin::at_most(s, n) == s,
        s.len() > n ==> lore_admin::at_most(s, n) == s.subrange(0, n),
{
    if bytes.len() > 8 {
        assert(bytes.take(8) =~= bytes.subrange(0, 8));
    }
    if s.len() > n {
        assert(s.take(n) =~= s.subrange(0, n));
    }
}

/// The time zero is not known, a time without a text is no time, and another is shown by
/// its text to the second.
pub proof fn times_are_shown_to_the_second(timestamp: u64, offset: i32)
    ensures
        html::shown_time(0, offset) == "未知"@,
        timestamp != 0 ==> match html::time_text(
            timestamp as i64,
            offset,
            "%Y-%m-%d %H:%M:%S"@,
        ) {
            Some(s) => html::shown_time(timestamp, offset) == s,
            None => html::shown_time(timestamp, offset) == "无效时间"@,
        },
{
}

/// The console says what went well, or else what went wrong, or nothing.
pub proof fn notices_are_shown(message: Option<Text>, error: Option<Text>, value: Text)
    ensures
        console::notice(Some(value), error) == r#"<p class="notice success">"#@ + escaped(value)
            + "</p>"@,
        console::notice(None, Some(value)) == r#"<p class="notice error">"#@ + escaped(value)
            + "</p>"@,
        console::notice(None, None).len() == 0,
        console::repository_notice(RepositoryListingView::Failed(value))
            == r#"<p class="notice error">无法读取 Lore Server 仓库："#@ + escaped(value)
            + "</p>"@,
        console::repository_notice(RepositoryListingView::NoToken)
            == r#"<p class="notice error">无法签发仓库管理令牌。</p>"#@,
        console::repository_notice(RepositoryListingView::NotConfigured)
            == r#"<p class="notice error">未配置 LORE_AUTH_LORE_GRPC_URL；仓库列表、提交历史和删除功能不可用。</p>"#@,
{
}

/// Where there are no rows, a text says so, and a list that was read needs no notice.
pub proof fn empty_tables_say_so(
    rows: Text,
    none: Text,
    list: Seq<LiveRepositoryView>,
    local: Seq<Text>,
)
    ensures
        rows.len() == 0 ==> console::or_else(rows, none) == none,
        rows.len() > 0 ==> console::or_else(rows, none) == rows,
        console::repository_notice(RepositoryListingView::Listed(list)).len() == 0,
        console::listed(RepositoryListingView::Listed(list)) == list,
        console::listed(RepositoryListingView::NoToken).len() == 0,
        console::listed(RepositoryListingView::NotConfigured).len() == 0,
        console::listed(RepositoryListingView::Failed(none)).len() == 0,
        list.len() == 0 ==> console::grantable(list, local) == local,
        list.len() > 0 ==> console::grantable(list, local).len() == list.len() && forall|i: int|
            0 <= i < list.len() ==> #[trigger] console::grantable(list, local)[i]
                == list[i].resource_id,
{
}

// ---------------------------------------------------------------------------
// Rows
// ---------------------------------------------------------------------------

/// The row of a user shows name, display name and identifier, what the user is and whether
/// it is enabled, and the secret for its forms.
pub proof fn users_are_shown_in_rows(bootstrap_username: Text, csrf: Text, user: UserView)
    ensures
        ({
            let row = console::user_row(bootstrap_username, csrf, user);
            let chief = text::same_name(user.username, bootstrap_username);
            &&& shows(row, escaped(user.username))
            &&& shows(row, escaped(user.display_name))
            &&& shows(row, escaped(user.id))
            &&& shows(row, csrf)
            &&& chief ==> shows(row, "终极管理员"@) && shows(
                row,
                r#"<span class="muted">受保护账号</span>"#@,
            )
            &&& !chief && user.is_admin ==> shows(row, "管理员"@)
            &&& !chief && !user.is_admin ==> shows(row, "普通用户"@)
            &&& user.disabled ==> shows(row, "已禁用"@)
            &&& !user.disabled ==> shows(row, "已启用"@)
            &&& !chief && user.disabled ==> shows(row, "enable"@) && shows(row, "启用"@)
            &&& !chief && !user.disabled ==> shows(row, "disable"@) && shows(row, "禁用"@)
        }),
{
    broadcast use parts_are_shown, texts_show_themselves;

}

/// The account of the administrator that the service was set up with has no buttons, and
/// is not offered for grants; every other one is.
pub proof fn one_account_is_protected(bootstrap_username: Text, csrf: Text, user: UserView)
    ensures
        ({
            let actions = console::account_actions(bootstrap_username, csrf, user);
            let option = console::user_option(bootstrap_username, user);
            let chief = text::same_name(user.username, bootstrap_username);
            &&& chief ==> actions == r#"<span class="muted">受保护账号</span>"#@
            &&& chief ==> option.len() == 0
            &&& !chief ==> shows(actions, csrf) && shows(actions, escaped(user.username))
            &&& !chief ==> shows(
                actions,
                r#""><button class="danger" type="submit">删除</button></form>"#@,
            )
            &&& !chief ==> option == r#"<option value=""#@ + escaped(user.username) + r#"">"#@
                + escaped(user.display_name) + "（"@ + escaped(user.username) + "）</option>"@
        }),
{
    broadcast use parts_are_shown, texts_show_themselves;

}

/// The row of a grant shows the user, the resource and the permissions, and a button to
/// revoke it, but for the grant on all resources of the administrator that the service was
/// set up with.
pub proof fn grants_are_shown_in_rows(bootstrap_username: Text, csrf: Text, grant: UserGrantView)
    ensures
        ({
            let row = console::grant_row(bootstrap_username, csrf, grant);
            let kept = grant.resource_id == "urc-*"@ && text::same_name(
                grant.username,
                bootstrap_username,
            );
            &&& shows(row, escaped(grant.username))
            &&& shows(row, escaped(grant.resource_id))
            &&& shows(row, html::labels_of(grant.permissions))
            &&& kept ==> shows(
                row,
                r#"<span class="muted">终极管理员全局权限（受保护）</span>"#@,
            )
            &&& !kept ==> shows(row, csrf) && shows(
                row,
                r#""><button class="danger" type="submit">撤销授权</button></form>"#@,
            )
        }),
{
    broadcast use parts_are_shown, texts_show_themselves;

}

/// The row of a repository shows what is known of it, and says where nothing is.
pub proof fn repositories_are_shown_in_rows(csrf: Text, r: LiveRepositoryView, created: Text)
    ensures
        ({
            let row = console::repository_row(csrf, r, created);
            &&& shows(row, escaped(r.name))
            &&& shows(row, escaped(r.resource_id))
            &&& shows(row, urls::percent_encoded(r.resource_id))
            &&& shows(row, created)
            &&& shows(row, csrf)
            &&& r.description.len() > 0 ==> shows(row, escaped(r.description))
            &&& r.description.len() == 0 ==> shows(row, r#"<span class="muted">无描述</span>"#@)
            &&& r.default_branch_name.len() > 0 ==> shows(row, escaped(r.default_branch_name))
            &&& r.default_branch_name.len() == 0 ==> shows(
                row,
                escaped(html::short_hex_of(r.default_branch_id)),
            )
            &&& r.creator.len() > 0 ==> shows(row, escaped(r.creator))
            &&& r.creator.len() == 0 ==> shows(row, escaped("未知"@))
        }),
{
    broadcast use parts_are_shown, texts_show_themselves;

}

/// The row of a revision shows its branch, number, message, author and time, and the first
/// sixteen digits of its signature.
pub proof fn revisions_are_shown_in_rows(e: RevisionHistoryEntryView, time: Text)
    ensures
        ({
            let row = console::history_row(e, time);
            &&& shows(row, escaped(e.branch_name))
            &&& shows(row, text::decimal(e.number as nat))
            &&& shows(row, time)
            &&& e.message.len() > 0 ==> shows(row, escaped(e.message))
            &&& e.message.len() == 0 ==> shows(row, escaped("（无提交说明）"@))
            &&& e.committed_by.len() > 0 ==> shows(row, escaped(e.committed_by))
            &&& e.committed_by.len() == 0 ==> shows(row, escaped("未知"@))
            &&& e.signature.len() <= 16 ==> shows(row, escaped(e.signature))
            &&& e.signature.len() > 16 ==> shows(row, escaped(e.signature.subrange(0, 16)))
        }),
{
    broadcast use parts_are_shown, texts_show_themselves;

    long_texts_are_cut(Seq::empty(), e.signature, 16);
}

// ---------------------------------------------------------------------------
// Forms in rows
// ---------------------------------------------------------------------------

/// The fields of a form that say for which session and for which user it is sent.
pub open spec fn hidden_fields(csrf: Text, username: Text) -> Text {
    csrf + r#""><input type="hidden" name="username" value=""#@ + escaped(username)
}

/// The row of a user is who it is, what it is and whether it is enabled, the form for a new
/// password, and the actions. Each form carries the secret and the name.
pub proof fn user_rows_hold_their_forms(bootstrap_username: Text, csrf: Text, user: UserView)
    ensures
        ({
            let chief = text::same_name(user.username, bootstrap_username);
            let role = if chief {
                "终极管理员"@
            } else if user.is_admin {
                "管理员"@
            } else {
                "普通用户"@
            };
            let (status, path, label) = if user.disabled {
                ("已禁用"@, "enable"@, "启用"@)
            } else {
                ("已启用"@, "disable"@, "禁用"@)
            };
            let fields = hidden_fields(csrf, user.username);
            let who = "<tr><td><strong>"@ + escaped(user.username)
                + r#"</strong><br><span class="muted">"#@ + escaped(user.display_name)
                + "</span></td><td>"@ + escaped(user.id);
            let what = "</td><td>"@ + role + "</td><td>"@ + status;
            let password =
                r#"</td><td><form method="post" action="/admin/users/password" class="password"><input type="hidden" name="csrf_token" value=""#@
                + fields
                + r#""><input type="password" name="password" minlength="10" placeholder="新密码（至少 10 位）" required><button class="secondary" type="submit">重置密码</button></form>"#@;
            let switch = r#"<form method="post" action="/admin/users/"#@ + path
                + r#"" class="inline"><input type="hidden" name="csrf_token" value=""#@ + fields
                + r#""><button class="secondary" type="submit">"#@ + label;
            let deletion = r#"</button></form>
                <form method="post" action="/admin/users/delete" class="inline"><input type="hidden" name="csrf_token" value=""#@
                + fields + r#""><button class="danger" type="submit">删除</button></form>"#@;
            let actions = if chief {
                r#"<span class="muted">受保护账号</span>"#@
            } else {
                switch + deletion
            };
            &&& console::account_actions(bootstrap_username, csrf, user) == actions
            &&& console::user_row(bootstrap_username, csrf, user) == who + what + password + actions
                + "</td></tr>"@
        }),
{
    let fields = hidden_fields(csrf, user.username);
    let chief = text::same_name(user.username, bootstrap_username);
    let (path, label) = if user.disabled {
        ("enable"@, "启用"@)
    } else {
        ("disable"@, "禁用"@)
    };
    let switch = r#"<form method="post" action="/admin/users/"#@ + path
        + r#"" class="inline"><input type="hidden" name="csrf_token" value=""#@ + fields
        + r#""><button class="secondary" type="submit">"#@ + label;
    let deletion = r#"</button></form>
                <form method="post" action="/admin/users/delete" class="inline"><input type="hidden" name="csrf_token" value=""#@
        + fields + r#""><button class="danger" type="submit">删除</button></form>"#@;
    let actions = console::account_actions(bootstrap_username, csrf, user);
    if !chief {
        assert(actions =~= switch + deletion);
    }
    let who = "<tr><td><strong>"@ + escaped(user.username) + r#"</strong><br><span class="muted">"#@
        + escaped(user.display_name) + "</span></td><td>"@ + escaped(user.id);
    let what = "</td><td>"@ + console::role_of(bootstrap_username, user) + "</td><td>"@
        + console::status_of(user);
    let password =
        r#"</td><td><form method="post" action="/admin/users/password" class="password"><input type="hidden" name="csrf_token" value=""#@
        + fields
        + r#""><input type="password" name="password" minlength="10" placeholder="新密码（至少 10 位）" required><button class="secondary" type="submit">重置密码</button></form>"#@;
    assert(console::user_row(bootstrap_username, csrf, user) =~= who + what + password + actions
        + "</td></tr>"@);
}

/// The row of a grant is who has it, on what, and what it permits, and then the form that
/// revokes it, with the secret, the name and the resource, or a note that it stays.
pub proof fn grant_rows_hold_their_form(
    bootstrap_username: Text,
    csrf: Text,
    grant: UserGrantView,
)
    ensures
        ({
            let kept = grant.resource_id == "urc-*"@ && text::same_name(
                grant.username,
                bootstrap_username,
            );
            let what = "<tr><td><strong>"@ + escaped(grant.username)
                + "</strong></td><td><code>"@ + escaped(grant.resource_id) + "</code></td><td>"@
                + html::labels_of(grant.permissions) + "</td><td>"@;
            let action = if kept {
                r#"<span class="muted">终极管理员全局权限（受保护）</span>"#@
            } else {
                r#"<form method="post" action="/admin/grants/revoke" class="inline"><input type="hidden" name="csrf_token" value=""#@
                    + hidden_fields(csrf, grant.username)
                    + r#""><input type="hidden" name="resource_id" value=""#@ + escaped(
                    grant.resource_id,
                ) + r#""><button class="danger" type="submit">撤销授权</button></form>"#@
            };
            console::grant_row(bootstrap_username, csrf, grant) == what + action + "</td></tr>"@
        }),
{
    let row = console::grant_row(bootstrap_username, csrf, grant);
    let what = "<tr><td><strong>"@ + escaped(grant.username) + "</strong></td><td><code>"@
        + escaped(grant.resource_id) + "</code></td><td>"@ + html::labels_of(grant.permissions)
        + "</td><td>"@;
    let form =
        r#"<form method="post" action="/admin/grants/revoke" class="inline"><input type="hidden" name="csrf_token" value=""#@
        + hidden_fields(csrf, grant.username)
        + r#""><input type="hidden" name="resource_id" value=""#@ + escaped(grant.resource_id)
        + r#""><button class="danger" type="submit">撤销授权</button></form>"#@;
    assert(form
        =~= r#"<form method="post" action="/admin/grants/revoke" class="inline"><input type="hidden" name="csrf_token" value=""#@
        + csrf + r#""><input type="hidden" name="username" value=""#@ + escaped(grant.username)
        + r#""><input type="hidden" name="resource_id" value=""#@ + escaped(grant.resource_id)
        + r#""><button class="danger" type="submit">撤销授权</button></form>"#@);
}

/// A text begins with the first of three and ends with the last.
proof fn lemma_ends(a: Text, b: Text, c: Text)
    ensures
        a.is_prefix_of(a + (b + c)),
        c.is_suffix_of(a + (b + c)),
{
    assert(a + (b + c) =~= a + b + c);
    assert((a + b + c).skip((a.len() + b.len()) as int) =~= c);
}

/// The row of a repository ends with the link to its history, and with the form that
/// deletes it, which carries the secret and the identifier and tells the name to repeat.
pub proof fn repository_rows_hold_their_form(csrf: Text, r: LiveRepositoryView, created: Text)
    ensures
        ({
            let link =
                r#"</td><td><a class="button-link" href="/admin/repositories/history?resource_id="#@
                + urls::percent_encoded(r.resource_id);
            let form =
                r#"">提交历史</a><details><summary>删除仓库</summary><p class="muted">这是不可恢复的硬删除。请输入仓库名称 <strong>"#@
                + escaped(r.name)
                + r#"</strong> 确认。</p><form method="post" action="/admin/repositories/delete" class="password"><input type="hidden" name="csrf_token" value=""#@
                + csrf + r#""><input type="hidden" name="resource_id" value=""#@ + escaped(
                r.resource_id,
            );
            let end =
                r#""><input name="confirmation" autocomplete="off" placeholder="输入仓库名称" required><button class="danger" type="submit">永久删除</button></form></details></td></tr>"#@;
            let first = "<tr><td><strong>"@ + escaped(r.name);
            &&& first.is_prefix_of(console::repository_row(csrf, r, created))
            &&& (created + link + form + end).is_suffix_of(
                console::repository_row(csrf, r, created),
            )
        }),
{
    let row = console::repository_row(csrf, r, created);
    let link = r#"</td><td><a class="button-link" href="/admin/repositories/history?resource_id="#@
        + urls::percent_encoded(r.resource_id);
    let form =
        r#"">提交历史</a><details><summary>删除仓库</summary><p class="muted">这是不可恢复的硬删除。请输入仓库名称 <strong>"#@
        + escaped(r.name)
        + r#"</strong> 确认。</p><form method="post" action="/admin/repositories/delete" class="password"><input type="hidden" name="csrf_token" value=""#@
        + csrf + r#""><input type="hidden" name="resource_id" value=""#@ + escaped(r.resource_id);
    let end =
        r#""><input name="confirmation" autocomplete="off" placeholder="输入仓库名称" required><button class="danger" type="submit">永久删除</button></form></details></td></tr>"#@;
    let first = "<tr><td><strong>"@ + escaped(r.name);
    let about = r#"</strong><br><span class="muted">"#@ + (if r.description.len() == 0 {
        r#"<span class="muted">无描述</span>"#@
    } else {
        escaped(r.description)
    }) + "</span></td><td><code>"@ + escaped(r.resource_id) + "</code></td><td>"@ + (
    if r.default_branch_name.len() == 0 {
        "<code>"@ + escaped(html::short_hex_of(r.default_branch_id)) + "</code>"@
    } else {
        escaped(r.default_branch_name)
    }) + "</td><td>"@ + escaped(console::or_else(r.creator, "未知"@)) + "</td><td>"@;
    let tail = created + link + form + end;
    assert(row == first + (about + tail)) by {
        broadcast use texts_are_put_together;

    }
    lemma_ends(first, about, tail);
}

/// The row of a revision is six cells: branch, number, message, author, time and signature.
pub proof fn revision_rows_are_six_cells(e: RevisionHistoryEntryView, time: Text)
    ensures
        ({
            let message = if e.message.len() == 0 {
                "（无提交说明）"@
            } else {
                e.message
            };
            let author = if e.committed_by.len() == 0 {
                "未知"@
            } else {
                e.committed_by
            };
            let signature = if e.signature.len() > 16 {
                e.signature.subrange(0, 16)
            } else {
                e.signature
            };
            let place = "<tr><td>"@ + escaped(e.branch_name) + "</td><td>#"@ + text::decimal(
                e.number as nat,
            );
            let words = "</td><td>"@ + escaped(message) + "</td><td>"@ + escaped(author);
            let rest = "</td><td>"@ + time + "</td><td><code>"@ + escaped(signature)
                + "</code></td></tr>"@;
            console::history_row(e, time) == place + words + rest
        }),
{
    long_texts_are_cut(Seq::empty(), e.signature, 16);
    let place = "<tr><td>"@ + escaped(e.branch_name) + "</td><td>#"@ + text::decimal(
        e.number as nat,
    );
    let words = "</td><td>"@ + escaped(console::or_else(e.message, "（无提交说明）"@))
        + "</td><td>"@ + escaped(console::or_else(e.committed_by, "未知"@));
    let rest = "</td><td>"@ + time + "</td><td><code>"@ + escaped(
        lore_admin::at_most(e.signature, 16),
    ) + "</code></td></tr>"@;
    assert(console::history_row(e, time) =~= place + words + rest);
}

// ---------------------------------------------------------------------------
// Tables
// ---------------------------------------------------------------------------

/// Every user has a row in the table, and all but one are offered for grants; a longer list
/// has the rows of a shorter one in front.
pub proof fn tables_have_a_row_for_each_user(
    bootstrap_username: Text,
    csrf: Text,
    users: Seq<UserView>,
    user: UserView,
)
    ensures
        console::user_rows(bootstrap_username, csrf, users.push(user)) == console::user_rows(
            bootstrap_username,
            csrf,
            users,
        ) + console::user_row(bootstrap_username, csrf, user),
        console::user_options(bootstrap_username, users.push(user)) == console::user_options(
            bootstrap_username,
            users,
        ) + console::user_option(bootstrap_username, user),
        console::user_rows(bootstrap_username, csrf, Seq::empty()).len() == 0,
        console::user_options(bootstrap_username, Seq::empty()).len() == 0,
{
    assert(users.push(user).drop_last() =~= users);
}

/// Every grant has a row in the table.
pub proof fn tables_have_a_row_for_each_grant(
    bootstrap_username: Text,
    csrf: Text,
    grants: Seq<UserGrantView>,
    grant: UserGrantView,
)
    ensures
        console::grant_rows(bootstrap_username, csrf, grants.push(grant)) == console::grant_rows(
            bootstrap_username,
            csrf,
            grants,
        ) + console::grant_row(bootstrap_username, csrf, grant),
        console::grant_rows(bootstrap_username, csrf, Seq::empty()).len() == 0,
{
    assert(grants.push(grant).drop_last() =~= grants);
}

/// Every repository has a row in the table, with the text for its own time.
pub proof fn tables_have_a_row_for_each_repository(
    csrf: Text,
    repositories: Seq<LiveRepositoryView>,
    r: LiveRepositoryView,
    times: Seq<Text>,
    time: Text,
)
    requires
        times.len() == repositories.len(),
    ensures
        console::repository_rows(csrf, repositories.push(r), times.push(time))
            == console::repository_rows(csrf, repositories, times) + console::repository_row(
            csrf,
            r,
            time,
        ),
        console::repository_rows(csrf, Seq::empty(), times).len() == 0,
{
    assert(repositories.push(r).drop_last() =~= repositories);
    lemma_repository_times(csrf, repositories, times, times.push(time));
}

/// The rows of repositories depend on their own times only.
proof fn lemma_repository_times(
    csrf: Text,
    repositories: Seq<LiveRepositoryView>,
    a: Seq<Text>,
    b: Seq<Text>,
)
    requires
        forall|i: int| 0 <= i < repositories.len() ==> #[trigger] a[i] == b[i],
    ensures
        console::repository_rows(csrf, repositories, a) == console::repository_rows(
            csrf,
            repositories,
            b,
        ),
    decreases repositories.len(),
{
    if repositories.len() > 0 {
        lemma_repository_times(csrf, repositories.drop_last(), a, b);
        assert(a[repositories.len() - 1] == b[repositories.len() - 1]);
    }
}

/// Every revision has a row in the table, with the text for its own time.
pub proof fn tables_have_a_row_for_each_revision(
    history: Seq<RevisionHistoryEntryView>,
    e: RevisionHistoryEntryView,
    times: Seq<Text>,
    time: Text,
)
    requires
        times.len() == history.len(),
    ensures
        console::history_rows(history.push(e), times.push(time)) == console::history_rows(
            history,
            times,
        ) + console::history_row(e, time),
        console::history_rows(Seq::empty(), times).len() == 0,
{
    assert(history.push(e).drop_last() =~= history);
    lemma_history_times(history, times, times.push(time));
}

/// The rows of revisions depend on their own times only.
proof fn lemma_history_times(
    history: Seq<RevisionHistoryEntryView>,
    a: Seq<Text>,
    b: Seq<Text>,
)
    requires
        forall|i: int| 0 <= i < history.len() ==> #[trigger] a[i] == b[i],
    ensures
        console::history_rows(history, a) == console::history_rows(history, b),
    decreases history.len(),
{
    if history.len() > 0 {
        lemma_history_times(history.drop_last(), a, b);
        assert(a[history.len() - 1] == b[history.len() - 1]);
    }
}

/// All resources come first among those that grants can be made on, and then each
/// repository that is offered.
pub proof fn all_resources_are_offered_first(resource_ids: Seq<Text>, resource_id: Text)
    ensures
        console::repository_options(Seq::empty())
            == r#"<option value="urc-*">全部仓库</option>"#@,
        console::repository_options(resource_ids.push(resource_id)) == console::repository_options(
            resource_ids,
        ) + r#"<option value=""#@ + escaped(resource_id) + r#""></option>"#@,
{
    assert(resource_ids.push(resource_id).drop_last() =~= resource_ids);
}

// ---------------------------------------------------------------------------
// The console
// ---------------------------------------------------------------------------

/// The console shows who is logged in, what the last operation had to say, and the tables
/// of repositories, grants and users, each made for this session.
#[verifier::rlimit(40)]
pub proof fn the_console_shows_its_tables(c: ConsoleView, times: Seq<Text>)
    ensures
        ({
            let page = console::console_html(c, times);
            let csrf = escaped(c.csrf_token);
            let live = console::listed(c.listing);
            let repositories = console::repository_rows(csrf, live, times);
            let grants = console::grant_rows(c.bootstrap_username, csrf, c.grants);
            &&& shows(page, escaped(c.actor))
            &&& shows(page, csrf)
            &&& shows(page, console::notice(c.message, c.error))
            &&& shows(page, console::repository_notice(c.listing))
            &&& repositories.len() > 0 ==> shows(page, repositories)
            &&& repositories.len() == 0 ==> shows(
                page,
                r#"<tr><td colspan="6" class="muted">没有从 Lore Server 读取到仓库。</td></tr>"#@,
            )
            &&& shows(page, console::user_options(c.bootstrap_username, c.users))
            &&& shows(
                page,
                console::repository_options(console::grantable(live, c.local_repositories)),
            )
            &&& grants.len() > 0 ==> shows(page, grants)
            &&& grants.len() == 0 ==> shows(
                page,
                r#"<tr><td colspan="4" class="muted">暂无仓库授权。</td></tr>"#@,
            )
            &&& shows(page, console::user_rows(c.bootstrap_username, csrf, c.users))
        }),
{
    broadcast use parts_are_shown, texts_show_themselves;

}

/// The console is made from the tables: all users, all recorded repositories and all grants.
/// Where these cannot be read, a page says so.
pub proof fn the_console_is_made_from_the_tables(
    s: AuthServiceView,
    session: AdminSessionView,
    actor: UserView,
    message: Option<Text>,
    error: Option<Text>,
    listing: RepositoryListingView,
    times: Seq<Text>,
    c: ConsoleView,
)
    requires
        c.bootstrap_username == s.bootstrap_username,
        c.actor == actor.username,
        c.csrf_token == session.csrf_token,
        c.message == message,
        c.error == error,
        c.users == db::listed_users(s.db),
        db::listed_repositories(s.db, Seq::empty()) matches Ok(local) ==> c.local_repositories
            == local,
        db::listed_user_grants(s.db) matches Ok(grants) ==> c.grants == grants,
        c.listing == listing,
    ensures
        ({
            let reply = web::console_reply(s, session, actor, message, error, listing, times);
            let readable = db::listed_repositories(s.db, Seq::empty()) is Ok
                && db::listed_user_grants(s.db) is Ok;
            &&& readable ==> is_page(reply, 200, console::console_html(c, times))
            &&& !readable ==> is_page(reply, 500, html::admin_error_html("无法读取后台数据。"@))
        }),
{
}

/// The page with a history shows the repository and the rows of its revisions, or that there
/// are none.
pub proof fn histories_show_their_rows(
    name: Text,
    resource_id: Text,
    history: Seq<RevisionHistoryEntryView>,
    times: Seq<Text>,
)
    ensures
        ({
            let page = console::history_html(name, resource_id, history, times);
            let rows = console::history_rows(history, times);
            &&& shows(page, escaped(name))
            &&& shows(page, escaped(resource_id))
            &&& rows.len() > 0 ==> shows(page, rows)
            &&& rows.len() == 0 ==> shows(
                page,
                r#"<tr><td colspan="6" class="muted">该仓库暂无提交记录。</td></tr>"#@,
            )
        }),
{
    broadcast use parts_are_shown, texts_show_themselves;

}

} // verus!
