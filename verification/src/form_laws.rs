//! What the pages and forms of the console do and answer.

use vstd::prelude::*;

use crate::db;
use crate::db::UserView;
use crate::html;
use crate::keys;
use crate::keys::ResourceClaimView;
use crate::lore_admin::LiveRepositoryView;
use crate::service;
use crate::service::{AdminSessionView, AuthServiceView, LoginFailure};
use crate::session_laws;
use crate::text;
use crate::text::Text;
use crate::urls;
use crate::web;
use crate::web::{InquiryView, ReplyView, ServerCallView};

verus! {

// ---------------------------------------------------------------------------
// Replies
// ---------------------------------------------------------------------------

/// Whether a reply sends back to the console with a text under a name, and sets no cookie.
pub open spec fn sends_back(reply: ReplyView, name: Text, message: Text) -> bool {
    reply matches ReplyView::Redirect { location, set_cookie } && {
        &&& set_cookie is None
        &&& location == "/admin?"@ + name + "="@ + urls::percent_encoded(message)
    }
}

/// Whether a reply is a page with a status.
pub open spec fn is_page(reply: ReplyView, wanted: u16, content: Text) -> bool {
    reply matches ReplyView::Page { status, html } && status == wanted && html == content
}

/// Whoever is sent back is sent to the console, with the text in percent-encoding.
pub proof fn messages_go_to_the_console(name: Text, message: Text)
    ensures
        sends_back(web::back(name, message), name, message),
{
}

/// The page to log in on says that nobody is authorized if and only if it has an error to
/// tell; the page with an error has the status that is given.
pub proof fn pages_have_their_status(error: Option<Text>, given: u16, message: Text)
    ensures
        is_page(web::login_reply(None), 200, html::admin_login_html(None)),
        error is Some ==> is_page(web::login_reply(error), 401, html::admin_login_html(error)),
        is_page(web::error_reply(given, message), given, html::admin_error_html(message)),
{
}

/// Every page forbids scripts and frames, keeps its type and address to itself, and is not
/// stored.
pub proof fn pages_are_sent_with_four_headers()
    ensures
        ({
            let headers = web::page_headers();
            &&& headers.len() == 4
            &&& headers[0].0 == "content-security-policy"@
            &&& headers[0].1
                == "default-src 'none'; style-src 'unsafe-inline'; form-action 'self'; frame-ancestors 'none'; base-uri 'none'"@
            &&& headers[1] == ("x-content-type-options"@, "nosniff"@)
            &&& headers[2] == ("referrer-policy"@, "no-referrer"@)
            &&& headers[3] == ("cache-control"@, "no-store"@)
        }),
{
}

/// The phrases by which refusals are told apart, in the order in which they count.
pub open spec fn phrases() -> Seq<Text> {
    seq![
        "username must contain"@,
        "username may contain"@,
        "display name must not be empty"@,
        "password must contain"@,
        "username may already exist"@,
        "user not found"@,
        "resource must be"@,
        "at least one permission"@,
    ]
}

/// What the console says for each phrase.
pub open spec fn sayings() -> Seq<Text> {
    seq![
        "用户名长度必须为 3 到 64 个字符。"@,
        "用户名只能包含英文字母、数字、点、短横线和下划线。"@,
        "显示名称不能为空。"@,
        "密码长度不能少于 10 个字符。"@,
        "该用户名已经存在。"@,
        "用户不存在或已经被删除。"@,
        "仓库 ID 格式无效，应为 urc- 加 32 位十六进制字符，或 urc-*。"@,
        "必须选择至少一项权限。"@,
    ]
}

/// A refusal is told by the first phrase that occurs in it, and without any as a failure
/// that the log explains.
pub proof fn refusals_are_told_by_their_first_phrase(detail: Text, k: int)
    ensures
        0 <= k < 8 && text::contains_text(detail, phrases()[k]) && (forall|j: int|
            0 <= j < k ==> !text::contains_text(detail, #[trigger] phrases()[j]))
            ==> web::refusal_message(detail) == sayings()[k],
        (forall|j: int| 0 <= j < 8 ==> !text::contains_text(detail, #[trigger] phrases()[j]))
            ==> web::refusal_message(detail) == "操作失败，请查看 lore-auth 容器日志。"@,
{
    let p = phrases();
    assert(p[0] == "username must contain"@);
    assert(p[1] == "username may contain"@);
    assert(p[2] == "display name must not be empty"@);
    assert(p[3] == "password must contain"@);
    assert(p[4] == "username may already exist"@);
    assert(p[5] == "user not found"@);
    assert(p[6] == "resource must be"@);
    assert(p[7] == "at least one permission"@);
}

/// Whether a reply tells how a change went: the message if it was done, and else why not.
pub open spec fn tells(reply: ReplyView, r: Result<(), Text>, message: Text) -> bool {
    match r {
        Ok(_) => sends_back(reply, "message"@, message),
        Err(e) => sends_back(reply, "error"@, web::refusal_message(e)),
    }
}

// ---------------------------------------------------------------------------
// Cookies and secrets
// ---------------------------------------------------------------------------

/// Whether the item at a place of a header sets a cookie, spaces around it aside.
pub open spec fn sets_cookie(header: Text, i: int, name: Text, value: Text) -> bool {
    &&& 0 <= i < text::pieces(header, ';').len()
    &&& text::trimmed(text::pieces(header, ';')[i]) == name + "="@ + value
}

/// The value of a cookie among items is that of the first that sets it.
proof fn lemma_cookie_among(items: Seq<Text>, prefix: Text)
    ensures
        match web::cookie_among(items, prefix) {
            Some(value) => exists|i: int|
                0 <= i < items.len() && text::trimmed(#[trigger] items[i]) == prefix + value
                    && forall|j: int|
                    0 <= j < i ==> !prefix.is_prefix_of(text::trimmed(#[trigger] items[j])),
            None => forall|j: int|
                0 <= j < items.len() ==> !prefix.is_prefix_of(text::trimmed(#[trigger] items[j])),
        },
    decreases items.len(),
{
    if items.len() > 0 {
        let first = text::trimmed(items[0]);
        let rest = items.skip(1);
        lemma_cookie_among(rest, prefix);
        if prefix.is_prefix_of(first) {
            assert(first =~= prefix + first.skip(prefix.len() as int));
            assert(text::trimmed(items[0]) == prefix + first.skip(prefix.len() as int));
        } else {
            match web::cookie_among(rest, prefix) {
                Some(value) => {
                    let i = choose|i: int|
                        0 <= i < rest.len() && text::trimmed(#[trigger] rest[i]) == prefix + value
                            && forall|j: int|
                            0 <= j < i ==> !prefix.is_prefix_of(text::trimmed(#[trigger] rest[j]));
                    assert(items[i + 1] == rest[i]);
                    assert forall|j: int| 0 <= j < i + 1 implies !prefix.is_prefix_of(
                        text::trimmed(#[trigger] items[j]),
                    ) by {
                        if j > 0 {
                            assert(items[j] == rest[j - 1]);
                        }
                    }
                },
                None => {
                    assert forall|j: int| 0 <= j < items.len() implies !prefix.is_prefix_of(
                        text::trimmed(#[trigger] items[j]),
                    ) by {
                        if j > 0 {
                            assert(items[j] == rest[j - 1]);
                        }
                    }
                },
            }
        }
    }
}

/// A cookie has the value of the first item of the header that sets it, and none where no
/// item does.
pub proof fn the_first_item_sets_a_cookie(header: Text, name: Text, i: int, value: Text)
    ensures
        sets_cookie(header, i, name, value) && (forall|j: int, v: Text|
            j < i ==> !#[trigger] sets_cookie(header, j, name, v)) ==> web::cookie_value(
            Some(header),
            name,
        ) == Some(value),
        (forall|j: int, v: Text| !#[trigger] sets_cookie(header, j, name, v))
            ==> web::cookie_value(Some(header), name) is None,
        web::cookie_value(None, name) is None,
{
    let items = text::pieces(header, ';');
    let prefix = name + "="@;
    lemma_cookie_among(items, prefix);
    match web::cookie_value(Some(header), name) {
        Some(found) => {
            let k = choose|k: int|
                0 <= k < items.len() && text::trimmed(#[trigger] items[k]) == prefix + found
                    && forall|j: int|
                    0 <= j < k ==> !prefix.is_prefix_of(text::trimmed(#[trigger] items[j]));
            assert(sets_cookie(header, k, name, found));
            if sets_cookie(header, i, name, value) && (forall|j: int, v: Text|
                j < i ==> !#[trigger] sets_cookie(header, j, name, v)) {
                if i < k {
                    assert(text::trimmed(items[i]) == prefix + value);
                    assert(prefix.is_prefix_of(text::trimmed(items[i])));
                }
                assert(i == k);
                assert(value =~= (prefix + value).skip(prefix.len() as int));
                assert(found =~= (prefix + found).skip(prefix.len() as int));
            }
        },
        None => {
            if sets_cookie(header, i, name, value) {
                assert(text::trimmed(items[i]) == prefix + value);
                assert(prefix.is_prefix_of(text::trimmed(items[i])));
            }
        },
    }
}

/// A form holds the secret of a session if it is the same text, and not the empty one.
pub proof fn secrets_are_compared_whole(session: AdminSessionView, submitted: Text)
    ensures
        web::csrf_matches(session, submitted) <==> submitted == session.csrf_token
            && session.csrf_token != Seq::<char>::empty(),
{
    if submitted.len() == 0 {
        assert(submitted =~= Seq::<char>::empty());
    }
}

/// Who is admitted to a form: the enabled administrator that the service was set up with,
/// whose session the cookie names, while it has not expired, if the form holds its secret.
/// Nobody else is, and is told to log in; with a wrong secret, to try again.
pub proof fn forms_are_for_the_holder_of_the_session(
    s: AuthServiceView,
    cookies: Option<Text>,
    csrf_token: Text,
    now: i64,
    token: Text,
    k: int,
)
    requires
        s.db.well_formed(),
        web::cookie_value(cookies, "lore_auth_admin"@) == Some(token),
        s.admin_sessions.contains_key(token),
        0 <= k < s.db.users.len(),
        s.db.users[k].user.id == s.admin_sessions[token].user_id,
    ensures
        ({
            let (session, user) = (s.admin_sessions[token], s.db.users[k].user);
            let found = session.expires_at >= now && user.is_admin && !user.disabled
                && text::same_name(user.username, s.bootstrap_username);
            let secret = csrf_token == session.csrf_token && csrf_token.len() > 0;
            let (next, r) = web::admitted(s, cookies, csrf_token, now);
            &&& session_laws::same_but_admins(next, s)
            &&& r == (Ok::<(Text, UserView), ReplyView>((token, user))) <==> found && secret
            &&& r is Ok <==> found && secret
            &&& found ==> next == s
            &&& found && !secret ==> (r matches Err(reply) && is_page(
                reply,
                403,
                html::admin_error_html("安全校验失败，请刷新页面后重试。 "@),
            ))
            &&& !found ==> (r matches Err(reply) && is_page(
                reply,
                200,
                html::admin_login_html(None),
            ))
            &&& web::console_opened(s, cookies, None, now).0 == next
            &&& web::console_opened(s, cookies, None, now).1 == (Ok::<
                (AdminSessionView, UserView),
                ReplyView,
            >((session, user))) <==> found
            &&& web::console_opened(s, cookies, None, now).1 is Ok <==> found
            &&& web::admin_actor_found(s, cookies, now) == (
                next,
                if found {
                    Some((token, session, user))
                } else {
                    None
                },
            )
        }),
{
    session_laws::sessions_on_the_web_are_found(s, token, now, k);
    let (next, r) = service::admin_session_found(s, token, now);
    if s.admin_sessions[token].expires_at >= now {
        assert(next.admin_sessions =~= s.admin_sessions);
    }
}

/// Whoever has no cookie, or one that names no session, is admitted nowhere and changes
/// nothing.
pub proof fn forms_need_a_known_session(
    s: AuthServiceView,
    cookies: Option<Text>,
    csrf_token: Text,
    error: Option<Text>,
    now: i64,
)
    requires
        web::cookie_value(cookies, "lore_auth_admin"@) matches Some(token)
            ==> !s.admin_sessions.contains_key(token),
    ensures
        web::admitted(s, cookies, csrf_token, now).0 == s,
        web::admitted(s, cookies, csrf_token, now).1 matches Err(reply) && is_page(
            reply,
            200,
            html::admin_login_html(None),
        ),
        web::console_opened(s, cookies, error, now).0 == s,
        web::console_opened(s, cookies, error, now).1 matches Err(reply) && is_page(
            reply,
            if error is Some {
                401
            } else {
                200
            },
            html::admin_login_html(error),
        ),
{
}

/// A form is acted upon for whoever was admitted, and else answered with the reason.
pub proof fn forms_act_once_admitted(
    s: AuthServiceView,
    admission: Result<(Text, UserView), ReplyView>,
    act: spec_fn(AuthServiceView, Text) -> (AuthServiceView, ReplyView),
)
    ensures
        match admission {
            Ok((token, _)) => web::on_form((s, admission), act) == act(s, token),
            Err(reply) => web::on_form((s, admission), act) == (s, reply),
        },
{
}

// ---------------------------------------------------------------------------
// Logging in and out
// ---------------------------------------------------------------------------

/// The administrator logs in on the web with name and password. Whoever these are not of is
/// told so, and whoever else they are of too; both open no session.
pub proof fn logins_on_the_web_are_for_the_administrator(
    s: AuthServiceView,
    username: Text,
    password: Text,
    token: Text,
    csrf_token: Text,
    now: i64,
)
    ensures
        ({
            let (next, reply) = web::admin_logged_in(
                s,
                username,
                password,
                token,
                csrf_token,
                now,
            );
            match db::authenticated(s.db, username, password) {
                Ok(Some(user)) => {
                    let (opened, session) = service::with_admin_session(
                        s,
                        user,
                        token,
                        csrf_token,
                        now,
                    );
                    &&& next == opened
                    &&& session is None ==> is_page(
                        reply,
                        401,
                        html::admin_login_html(Some("只有终极管理员可以使用此后台。"@)),
                    )
                    &&& session is Some ==> (reply matches ReplyView::Redirect {
                        location,
                        set_cookie,
                    } && location == "/admin"@ && set_cookie == Some(
                        "lore_auth_admin="@ + token
                            + "; Path=/admin; HttpOnly; Secure; SameSite=Strict; Max-Age=28800"@,
                    ))
                },
                _ => {
                    &&& next == s
                    &&& is_page(reply, 401, html::admin_login_html(Some("用户名或密码错误。"@)))
                },
            }
        }),
{
}

/// Logging out ends the session with that token and no other, and clears the cookie.
pub proof fn logging_out_ends_one_session(s: AuthServiceView, token: Text)
    ensures
        ({
            let (next, reply) = web::logout()(s, token);
            &&& session_laws::same_but_admins(next, s)
            &&& !next.admin_sessions.contains_key(token)
            &&& forall|t: Text|
                t != token ==> {
                    &&& #[trigger] next.admin_sessions.contains_key(t)
                        <==> s.admin_sessions.contains_key(t)
                    &&& s.admin_sessions.contains_key(t) ==> next.admin_sessions[t]
                        == s.admin_sessions[t]
                }
            &&& reply matches ReplyView::Redirect { location, set_cookie } && location
                == "/admin"@ && set_cookie == Some(
                "lore_auth_admin=; Path=/admin; HttpOnly; Secure; SameSite=Strict; Max-Age=0"@,
            )
        }),
{
}

/// The page for a login is shown to whoever knows the session and its client state, until
/// it expires.
pub proof fn login_pages_are_for_open_sessions(
    s: AuthServiceView,
    session_code: Text,
    client_state: Text,
    now: i64,
)
    ensures
        ({
            let reply = web::login_page_reply(s, session_code, client_state, now);
            let open = s.sessions.contains_key(session_code) && now
                <= s.sessions[session_code].expires_at && client_state
                == s.sessions[session_code].client_state;
            &&& open ==> is_page(
                reply,
                200,
                html::login_form_html(session_code, client_state, None),
            )
            &&& !open ==> is_page(
                reply,
                400,
                html::page_html("登录已过期"@, "<p>这次登录请求无效或已经过期。</p>"@),
            )
        }),
{
}

/// A login on the page does what completing the login does, and shows how it went.
pub proof fn login_pages_tell_the_outcome(
    s: AuthServiceView,
    session_code: Text,
    client_state: Text,
    username: Text,
    password: Text,
    now: i64,
)
    ensures
        ({
            let (next, outcome) = service::login_completed(
                s,
                session_code,
                client_state,
                username,
                password,
                now,
            );
            let (shown, reply) = web::login_done(
                s,
                session_code,
                client_state,
                username,
                password,
                now,
            );
            &&& shown == next
            &&& match outcome {
                Ok(_) => is_page(
                    reply,
                    200,
                    html::page_html(
                        "登录成功"@,
                        "<p>身份验证成功。你可以关闭此窗口并返回 Lore。</p>"@,
                    ),
                ),
                Err(LoginFailure::InvalidCredentials) => is_page(
                    reply,
                    401,
                    html::login_form_html(
                        session_code,
                        client_state,
                        Some("用户名或密码错误。"@),
                    ),
                ),
                Err(LoginFailure::Expired) => is_page(
                    reply,
                    400,
                    html::page_html(
                        "登录已过期"@,
                        "<p>这次登录请求已经过期，请返回 Lore 重新发起登录。</p>"@,
                    ),
                ),
                Err(LoginFailure::Internal) => is_page(
                    reply,
                    500,
                    html::page_html("登录失败"@, "<p>认证服务发生内部错误。</p>"@),
                ),
            }
        }),
{
}

// ---------------------------------------------------------------------------
// Users
// ---------------------------------------------------------------------------

/// Whether one service differs from another in its tables at most.
pub open spec fn same_but_tables(a: AuthServiceView, b: AuthServiceView) -> bool {
    a == (AuthServiceView { db: a.db, ..b })
}

/// The form for a new user makes what the tables make of it, and no administrator.
pub proof fn the_console_makes_users(
    s: AuthServiceView,
    token: Text,
    username: Text,
    display_name: Text,
    password: Text,
    salt: Text,
    id: Text,
    now: i64,
)
    ensures
        ({
            let (next, reply) = web::user_creation(
                username,
                display_name,
                password,
                salt,
                id,
                now,
            )(s, token);
            let (tables, r) = db::created(
                s.db,
                username,
                display_name,
                password,
                false,
                salt,
                id,
                now,
            );
            &&& same_but_tables(next, s)
            &&& next.db == tables
            &&& r matches Ok(user) ==> !user.is_admin && sends_back(
                reply,
                "message"@,
                "用户 "@ + user.username + " 创建成功。"@,
            )
            &&& r matches Err(e) ==> sends_back(reply, "error"@, web::refusal_message(e))
        }),
{
}

/// The form that deletes a user leaves the repositories to the administrator that the
/// service was set up with, who is not deleted, whatever the case of the letters.
pub proof fn the_console_deletes_users(s: AuthServiceView, token: Text, username: Text)
    ensures
        ({
            let (next, reply) = web::user_deletion(username)(s, token);
            let (tables, r) = db::without_user(s.db, username, s.bootstrap_username);
            let chief = text::same_name(username, s.bootstrap_username);
            &&& chief ==> next == s && sends_back(reply, "error"@, "终极管理员不能被删除。 "@)
            &&& !chief ==> {
                &&& same_but_tables(next, s)
                &&& next.db == tables
                &&& tells(reply, r, "用户已删除，其名下仓库已转交给终极管理员。"@)
            }
        }),
{
}

/// The form that disables or enables a user sets the mark as it says, but not of the
/// administrator that the service was set up with.
pub proof fn the_console_disables_and_enables_users(
    s: AuthServiceView,
    token: Text,
    username: Text,
    disabled: bool,
)
    ensures
        ({
            let (next, reply) = web::user_switch(username, disabled)(s, token);
            let (tables, r) = db::with_disabled(s.db, username, disabled);
            let chief = text::same_name(username, s.bootstrap_username);
            &&& chief ==> next == s && sends_back(reply, "error"@, "终极管理员不能被禁用。 "@)
            &&& !chief ==> {
                &&& same_but_tables(next, s)
                &&& next.db == tables
                &&& disabled ==> tells(reply, r, "用户已禁用。"@)
                &&& !disabled ==> tells(reply, r, "用户已启用。"@)
            }
        }),
{
}

/// The form for a new password sets it, for every user.
pub proof fn the_console_sets_passwords(
    s: AuthServiceView,
    token: Text,
    username: Text,
    password: Text,
    salt: Text,
)
    ensures
        ({
            let (next, reply) = web::password_change(username, password, salt)(s, token);
            let (tables, r) = db::with_password(s.db, username, password, salt);
            &&& same_but_tables(next, s)
            &&& next.db == tables
            &&& tells(reply, r, "密码已更新。"@)
        }),
{
}

// ---------------------------------------------------------------------------
// Grants
// ---------------------------------------------------------------------------

/// Whether these are the permissions of a level: to read; to write, and read; all that an
/// owner has; or everything.
pub open spec fn is_level(level: Text, list: Seq<Text>) -> bool {
    ||| level == "read"@ && list == seq!["read"@]
    ||| level == "write"@ && list == seq!["read"@, "write"@]
    ||| level == "admin"@ && list == seq![
        "owner"@,
        "admin"@,
        "read"@,
        "write"@,
        "obliterate"@,
        "migrate"@,
    ]
    ||| level == "all"@ && list == seq!["*"@]
}

/// A level has its permissions, and another text has none.
pub proof fn levels_have_their_permissions(level: Text, list: Seq<Text>)
    ensures
        web::permissions_of_level(level) == Some(list) <==> is_level(level, list),
{
    reveal_strlit("read");
    reveal_strlit("write");
    reveal_strlit("admin");
    reveal_strlit("all");
    assert("read"@[0] == 'r');
    assert("write"@[0] == 'w');
    assert("admin"@[1] == 'd');
    assert("all"@[1] == 'l');
}

/// The form for a grant grants the permissions of its level, and nothing where it is none.
pub proof fn the_console_grants_levels(
    s: AuthServiceView,
    token: Text,
    username: Text,
    resource_id: Text,
    level: Text,
)
    ensures
        ({
            let (next, reply) = web::grant_change(username, resource_id, level)(s, token);
            &&& forall|list: Seq<Text>| #[trigger]
                is_level(level, list) ==> {
                    let (tables, r) = db::with_grant(s.db, username, resource_id, list);
                    &&& same_but_tables(next, s)
                    &&& next.db == tables
                    &&& tells(reply, r, "仓库授权已保存。"@)
                }
            &&& (forall|list: Seq<Text>| !#[trigger] is_level(level, list)) ==> next == s
                && sends_back(reply, "error"@, "请选择有效的权限级别。"@)
        }),
{
    assert forall|list: Seq<Text>| #[trigger] is_level(level, list) implies {
        let (next, reply) = web::grant_change(username, resource_id, level)(s, token);
        let (tables, r) = db::with_grant(s.db, username, resource_id, list);
        &&& same_but_tables(next, s)
        &&& next.db == tables
        &&& tells(reply, r, "仓库授权已保存。"@)
    } by {
        levels_have_their_permissions(level, list);
    }
    if let Some(list) = web::permissions_of_level(level) {
        levels_have_their_permissions(level, list);
        assert(is_level(level, list));
    }
}

/// The form that revokes a grant revokes it, but not the grant on all resources of the
/// administrator that the service was set up with.
pub proof fn the_console_revokes_grants(
    s: AuthServiceView,
    token: Text,
    username: Text,
    resource_id: Text,
)
    ensures
        ({
            let (next, reply) = web::grant_revocation(username, resource_id)(s, token);
            let (tables, r) = db::without_grant(s.db, username, resource_id);
            let kept = resource_id == "urc-*"@ && text::same_name(username, s.bootstrap_username);
            &&& kept ==> next == s && sends_back(
                reply,
                "error"@,
                "不能撤销终极管理员的全局权限。 "@,
            )
            &&& !kept ==> {
                &&& same_but_tables(next, s)
                &&& next.db == tables
                &&& tells(reply, r, "仓库授权已撤销。"@)
            }
        }),
{
}

// ---------------------------------------------------------------------------
// The Lore server
// ---------------------------------------------------------------------------

/// The Lore server is asked where there is one, with a token that says who asks.
pub proof fn the_server_is_asked_with_a_token(s: AuthServiceView, actor: UserView, now: u64)
    ensures
        match web::inquiry(s, actor, now) {
            InquiryView::Ask(call) => {
                &&& s.lore_grpc_url == Some(call.endpoint)
                &&& keys::issued(s.tokens, actor, None, "authentication"@, now) matches Ok(signed)
                    && signed.0 == call.token
            },
            InquiryView::Known(listing) => {
                &&& listing is NotConfigured <==> s.lore_grpc_url is None
                &&& listing is NoToken <==> s.lore_grpc_url is Some
                &&& s.lore_grpc_url is Some ==> keys::issued(
                    s.tokens,
                    actor,
                    None,
                    "authentication"@,
                    now,
                ) is Err
            },
        },
{
}

/// Whoever may see the console may ask for a history; the question is the one for the
/// console. Without a server, or without a token, the page says so.
pub proof fn histories_are_for_the_administrator(
    s: AuthServiceView,
    cookies: Option<Text>,
    now: i64,
)
    requires
        0 <= now,
    ensures
        ({
            let (found, actor) = web::admin_actor_found(s, cookies, now);
            let (next, r) = web::history_start(s, cookies, now);
            &&& next == found
            &&& match actor {
                None => r matches Err(reply) && is_page(reply, 200, html::admin_login_html(None)),
                Some((_, _, user)) => match web::inquiry(found, user, now as u64) {
                    InquiryView::Ask(call) => r == (Ok::<(ServerCallView, UserView), ReplyView>(
                        (call, user),
                    )),
                    InquiryView::Known(_) => r matches Err(reply) && if found.lore_grpc_url
                        is None {
                        is_page(
                            reply,
                            503,
                            html::admin_error_html(
                                "尚未配置 LORE_AUTH_LORE_GRPC_URL，无法读取提交历史。"@,
                            ),
                        )
                    } else {
                        is_page(reply, 500, html::admin_error_html("无法签发管理令牌。"@))
                    },
                },
            }
        }),
{
}

/// Whoever is admitted to forms may have a repository deleted; the question is the one for
/// the console.
pub proof fn deletions_are_for_the_administrator(
    s: AuthServiceView,
    cookies: Option<Text>,
    csrf_token: Text,
    now: i64,
)
    requires
        0 <= now,
    ensures
        ({
            let (found, admission) = web::admitted(s, cookies, csrf_token, now);
            let (next, r) = web::deletion_start(s, cookies, csrf_token, now);
            &&& next == found
            &&& match admission {
                Err(reply) => r == (Err::<ServerCallView, ReplyView>(reply)),
                Ok((_, user)) => match web::inquiry(found, user, now as u64) {
                    InquiryView::Ask(call) => r == (Ok::<ServerCallView, ReplyView>(call)),
                    InquiryView::Known(_) => r matches Err(reply) && sends_back(
                        reply,
                        "error"@,
                        if found.lore_grpc_url is None {
                            "尚未配置 LORE_AUTH_LORE_GRPC_URL，不能删除仓库。"@
                        } else {
                            "无法签发管理令牌。"@
                        },
                    ),
                },
            }
        }),
{
}

/// The repository with an identifier is the first in the list that has it.
pub proof fn repositories_are_found_by_identifier(
    repositories: Seq<LiveRepositoryView>,
    resource_id: Text,
    k: int,
)
    ensures
        0 <= k < repositories.len() && repositories[k].resource_id == resource_id && (forall|j: int|
            0 <= j < k ==> (#[trigger] repositories[j]).resource_id != resource_id)
            ==> web::repository_with(repositories, resource_id) == Some(repositories[k]),
        (forall|j: int|
            0 <= j < repositories.len() ==> (#[trigger] repositories[j]).resource_id
                != resource_id) ==> web::repository_with(repositories, resource_id) is None,
{
    if web::is_place(repositories, resource_id, k) {
        let i = choose|i: int| web::is_place(repositories, resource_id, i);
        if i < k {
            assert(repositories[i].resource_id != resource_id);
        }
        if k < i {
            assert(repositories[k].resource_id != resource_id);
        }
    }
    if exists|i: int| web::is_place(repositories, resource_id, i) {
        let i = choose|i: int| web::is_place(repositories, resource_id, i);
        assert(repositories[i].resource_id == resource_id);
    }
}

/// The history of a repository that the server has listed is asked for with a token for
/// everything on that repository and on no other.
pub proof fn histories_are_of_listed_repositories(
    s: AuthServiceView,
    actor: UserView,
    listing: Result<Seq<LiveRepositoryView>, Text>,
    resource_id: Text,
    claims: Seq<ResourceClaimView>,
    now: u64,
)
    requires
        claims.len() == 1,
        claims[0].resource_id == resource_id,
        claims[0].permission.len() == 1,
        claims[0].permission[0] == "*"@,
    ensures
        ({
            let r = web::history_target(s, actor, listing, resource_id, now);
            let signed = keys::issued(s.tokens, actor, Some(claims), "authorization"@, now);
            match listing {
                Err(e) => r matches Err(reply) && is_page(
                    reply,
                    502,
                    html::admin_error_html("读取 Lore 仓库列表失败"@ + "："@ + e),
                ),
                Ok(repositories) => match web::repository_with(repositories, resource_id) {
                    None => r matches Err(reply) && is_page(
                        reply,
                        404,
                        html::admin_error_html("仓库不存在或已被删除。"@),
                    ),
                    Some(repository) => {
                        &&& signed matches Ok(token) ==> r == (Ok::<
                            (LiveRepositoryView, Text),
                            ReplyView,
                        >((repository, token.0)))
                        &&& signed is Err ==> (r matches Err(reply) && is_page(
                            reply,
                            500,
                            html::admin_error_html("无法签发仓库管理令牌。"@),
                        ))
                    },
                },
            }
        }),
{
    if let Ok(repositories) = listing {
        if let Some(repository) = web::repository_with(repositories, resource_id) {
            assert(repository.resource_id == resource_id);
            let made = ResourceClaimView {
                resource_id: repository.resource_id,
                permission: seq!["*"@],
            };
            assert(made.permission =~= claims[0].permission);
            assert(claims[0] == made);
            assert(claims =~= seq![made]);
        }
    }
}

/// The repository to delete is one that the server has listed, and whose name was repeated,
/// letter by letter.
pub proof fn deletions_are_of_listed_repositories(
    listing: Result<Seq<LiveRepositoryView>, Text>,
    resource_id: Text,
    confirmation: Text,
)
    ensures
        ({
            let r = web::deletion_target_of(listing, resource_id, confirmation);
            match listing {
                Err(e) => r matches Err(reply) && sends_back(
                    reply,
                    "error"@,
                    "读取 Lore 仓库列表失败"@ + "："@ + e,
                ),
                Ok(repositories) => match web::repository_with(repositories, resource_id) {
                    None => r matches Err(reply) && sends_back(
                        reply,
                        "error"@,
                        "仓库不存在或已被删除。"@,
                    ),
                    Some(repository) => {
                        &&& r == (Ok::<LiveRepositoryView, ReplyView>(repository)) <==> repository.name
                            == confirmation
                        &&& repository.name != confirmation ==> (r matches Err(reply)
                            && sends_back(
                            reply,
                            "error"@,
                            "确认名称不匹配，仓库未删除。"@,
                        ))
                    },
                },
            }
        }),
{
}

} // verus!
