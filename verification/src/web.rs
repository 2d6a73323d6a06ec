//! What the web pages answer: the login of Lore clients, and the console of the
//! administrator with its forms.
//!
//! A page that needs answers of the Lore server is made in steps: what to ask, what the
//! answer comes to, and the page.

use serde_json::Value;
use vstd::prelude::*;
use vstd::string::*;

use crate::clock;
use crate::console;
use crate::console::{Console, ConsoleView, RepositoryListing, RepositoryListingView};
use crate::db;
use crate::db::{User, UserView};
use crate::html;
use crate::ids;
use crate::json;
use crate::json::{json_of, Json, Members, Node};
use crate::keys;
use crate::keys::{ResourceClaim, ResourceClaimView};
use crate::lore_admin;
use crate::lore_admin::{LiveRepository, LiveRepositoryView, RevisionHistoryEntry};
use crate::password;
use crate::service;
use crate::service::{
    AdminSession, AdminSessionView, AuthService, AuthServiceView, LoginFailure,
};
use crate::sorting::views;
use crate::text;
use crate::text::Text;
use crate::urls;

verus! {

// ---------------------------------------------------------------------------
// Replies
// ---------------------------------------------------------------------------

/// A reply to a browser.
#[derive(Debug)]
pub enum Reply {
    /// A page in HTML, with a status code.
    Page { status: u16, html: String },
    /// Another page to go to, and a cookie to be set.
    Redirect { location: String, set_cookie: Option<String> },
}

pub enum ReplyView {
    Page { status: u16, html: Text },
    Redirect { location: Text, set_cookie: Option<Text> },
}

impl View for Reply {
    type V = ReplyView;

    open spec fn view(&self) -> ReplyView {
        match *self {
            Reply::Page { status, html } => ReplyView::Page { status, html: html@ },
            Reply::Redirect { location, set_cookie } => ReplyView::Redirect {
                location: location@,
                set_cookie: set_cookie.deep_view(),
            },
        }
    }
}

/// The headers of every page.
pub open spec fn page_headers() -> Seq<(Text, Text)> {
    seq![
        (
            "content-security-policy"@,
            "default-src 'none'; style-src 'unsafe-inline'; form-action 'self'; frame-ancestors 'none'; base-uri 'none'"@,
        ),
        ("x-content-type-options"@, "nosniff"@),
        ("referrer-policy"@, "no-referrer"@),
        ("cache-control"@, "no-store"@),
    ]
}

pub fn secured_headers() -> (r: Vec<(String, String)>)
    ensures
        r.deep_view() == page_headers(),
{
    let mut r: Vec<(String, String)> = Vec::new();
    r.push(
        (
            "content-security-policy".to_owned(),
            "default-src 'none'; style-src 'unsafe-inline'; form-action 'self'; frame-ancestors 'none'; base-uri 'none'".to_owned(),
        ),
    );
    r.push(("x-content-type-options".to_owned(), "nosniff".to_owned()));
    r.push(("referrer-policy".to_owned(), "no-referrer".to_owned()));
    r.push(("cache-control".to_owned(), "no-store".to_owned()));
    assert(r.deep_view() =~= page_headers());
    r
}

pub open spec fn error_reply(status: u16, message: Text) -> ReplyView {
    ReplyView::Page { status, html: html::admin_error_html(message) }
}

/// A page that says why an operation of the administrator failed.
pub fn admin_error(status: u16, message: &str) -> (r: Reply)
    ensures
        r@ == error_reply(status, message@),
{
    Reply::Page { status, html: html::admin_error_page(message) }
}

/// The page on which the administrator logs in; with an error, the reply says that the
/// caller is not authorized.
pub open spec fn login_reply(error: Option<Text>) -> ReplyView {
    ReplyView::Page {
        status: if error is Some {
            401
        } else {
            200
        },
        html: html::admin_login_html(error),
    }
}

pub fn admin_login_page(error: Option<&str>) -> (r: Reply)
    ensures
        r@ == login_reply(error.deep_view()),
{
    Reply::Page {
        status: if error.is_some() {
            401
        } else {
            200
        },
        html: html::admin_login_form(error),
    }
}

pub open spec fn console_location(kind: Text, message: Text) -> Text {
    "/admin?"@ + kind + "="@ + urls::percent_encoded(message)
}

/// Back to the console, with a message or an error.
pub open spec fn back(kind: Text, message: Text) -> ReplyView {
    ReplyView::Redirect { location: console_location(kind, message), set_cookie: None }
}

pub fn admin_redirect(kind: &str, message: &str) -> (r: Reply)
    ensures
        r@ == back(kind@, message@),
{
    let mut location = "/admin?".to_owned();
    location.append(kind);
    location.append("=");
    location.append(urls::percent_encode(message).as_str());
    Reply::Redirect { location, set_cookie: None }
}

pub open spec fn lore_message(context: Text, error: Text) -> Text {
    context + "："@ + error
}

fn write_lore_message(context: &str, error: &str) -> (r: String)
    ensures
        r@ == lore_message(context@, error@),
{
    let mut r = context.to_owned();
    r.append("：");
    r.append(error);
    r
}

/// A page that says why the Lore server could not be asked.
pub fn admin_lore_error(context: &str, error: &str) -> (r: Reply)
    ensures
        r@ == error_reply(502, lore_message(context@, error@)),
{
    admin_error(502, write_lore_message(context, error).as_str())
}

/// Back to the console, which says why the Lore server could not be asked.
pub fn admin_lore_redirect(context: &str, error: &str) -> (r: Reply)
    ensures
        r@ == back("error"@, lore_message(context@, error@)),
{
    admin_redirect("error", write_lore_message(context, error).as_str())
}

/// What the console says of a refusal of the tables.
pub open spec fn refusal_message(detail: Text) -> Text {
    if text::contains_text(detail, "username must contain"@) {
        "用户名长度必须为 3 到 64 个字符。"@
    } else if text::contains_text(detail, "username may contain"@) {
        "用户名只能包含英文字母、数字、点、短横线和下划线。"@
    } else if text::contains_text(detail, "display name must not be empty"@) {
        "显示名称不能为空。"@
    } else if text::contains_text(detail, "password must contain"@) {
        "密码长度不能少于 10 个字符。"@
    } else if text::contains_text(detail, "username may already exist"@) {
        "该用户名已经存在。"@
    } else if text::contains_text(detail, "user not found"@) {
        "用户不存在或已经被删除。"@
    } else if text::contains_text(detail, "resource must be"@) {
        "仓库 ID 格式无效，应为 urc- 加 32 位十六进制字符，或 urc-*。"@
    } else if text::contains_text(detail, "at least one permission"@) {
        "必须选择至少一项权限。"@
    } else {
        "操作失败，请查看 lore-auth 容器日志。"@
    }
}

/// Back to the console, which says why the tables refused an operation.
pub fn admin_operation_error(detail: &str) -> (r: Reply)
    ensures
        r@ == back("error"@, refusal_message(detail@)),
{
    let message = if text::contains(detail, "username must contain") {
        "用户名长度必须为 3 到 64 个字符。"
    } else if text::contains(detail, "username may contain") {
        "用户名只能包含英文字母、数字、点、短横线和下划线。"
    } else if text::contains(detail, "display name must not be empty") {
        "显示名称不能为空。"
    } else if text::contains(detail, "password must contain") {
        "密码长度不能少于 10 个字符。"
    } else if text::contains(detail, "username may already exist") {
        "该用户名已经存在。"
    } else if text::contains(detail, "user not found") {
        "用户不存在或已经被删除。"
    } else if text::contains(detail, "resource must be") {
        "仓库 ID 格式无效，应为 urc- 加 32 位十六进制字符，或 urc-*。"
    } else if text::contains(detail, "at least one permission") {
        "必须选择至少一项权限。"
    } else {
        "操作失败，请查看 lore-auth 容器日志。"
    };
    admin_redirect("error", message)
}

// ---------------------------------------------------------------------------
// Pages for everyone
// ---------------------------------------------------------------------------

pub fn index() -> (r: Reply)
    ensures
        r@ == (ReplyView::Page {
            status: 200,
            html: html::page_html(
                "Lore 认证服务"@,
                r#"<p>认证服务运行正常。</p><p><a href="/admin">打开管理后台</a></p>"#@,
            ),
        }),
{
    Reply::Page {
        status: 200,
        html: html::page(
            "Lore 认证服务",
            r#"<p>认证服务运行正常。</p><p><a href="/admin">打开管理后台</a></p>"#,
        ),
    }
}

pub fn health() -> (r: Value)
    ensures
        json_of(r) == Json::Object(
            Members::empty().insert("status"@, Json::Str("ok"@)),
        ),
{
    let mut pairs: Vec<(String, Value)> = Vec::new();
    json::put(&mut pairs, "status", json::string("ok"));
    json::close(Node::Object(pairs))
}

/// How long the keys of the service may be kept.
pub fn jwks_cache_control() -> (r: &'static str)
    ensures
        r@ == "public, max-age=300"@,
{
    "public, max-age=300"
}

/// Whoever opens the address of the login form is sent to the console.
pub fn admin_login_get() -> (r: Reply)
    ensures
        r@ == (ReplyView::Redirect { location: "/admin"@, set_cookie: None }),
{
    Reply::Redirect { location: "/admin".to_owned(), set_cookie: None }
}

/// The page for a login that a Lore client has started.
pub open spec fn login_page_reply(
    s: AuthServiceView,
    session_code: Text,
    client_state: Text,
    now: i64,
) -> ReplyView {
    if s.sessions.contains_key(session_code) && s.sessions[session_code].client_state
        == client_state && s.sessions[session_code].expires_at >= now {
        ReplyView::Page {
            status: 200,
            html: html::login_form_html(session_code, client_state, None),
        }
    } else {
        ReplyView::Page {
            status: 400,
            html: html::page_html("登录已过期"@, "<p>这次登录请求无效或已经过期。</p>"@),
        }
    }
}

/// The page after an attempt to log in.
pub open spec fn login_result_reply(
    session_code: Text,
    client_state: Text,
    outcome: Result<UserView, LoginFailure>,
) -> ReplyView {
    match outcome {
        Ok(_) => ReplyView::Page {
            status: 200,
            html: html::page_html(
                "登录成功"@,
                "<p>身份验证成功。你可以关闭此窗口并返回 Lore。</p>"@,
            ),
        },
        Err(LoginFailure::InvalidCredentials) => ReplyView::Page {
            status: 401,
            html: html::login_form_html(session_code, client_state, Some("用户名或密码错误。"@)),
        },
        Err(LoginFailure::Expired) => ReplyView::Page {
            status: 400,
            html: html::page_html(
                "登录已过期"@,
                "<p>这次登录请求已经过期，请返回 Lore 重新发起登录。</p>"@,
            ),
        },
        Err(LoginFailure::Internal) => ReplyView::Page {
            status: 500,
            html: html::page_html("登录失败"@, "<p>认证服务发生内部错误。</p>"@),
        },
    }
}

fn login_result(session_code: &str, client_state: &str, outcome: Result<User, LoginFailure>) -> (r:
    Reply)
    ensures
        r@ == login_result_reply(session_code@, client_state@, service::login_outcome(outcome)),
{
    match outcome {
        Ok(_) => Reply::Page {
            status: 200,
            html: html::page(
                "登录成功",
                "<p>身份验证成功。你可以关闭此窗口并返回 Lore。</p>",
            ),
        },
        Err(LoginFailure::InvalidCredentials) => Reply::Page {
            status: 401,
            html: html::login_form(session_code, client_state, Some("用户名或密码错误。")),
        },
        Err(LoginFailure::Expired) => Reply::Page {
            status: 400,
            html: html::page(
                "登录已过期",
                "<p>这次登录请求已经过期，请返回 Lore 重新发起登录。</p>",
            ),
        },
        Err(LoginFailure::Internal) => Reply::Page {
            status: 500,
            html: html::page("登录失败", "<p>认证服务发生内部错误。</p>"),
        },
    }
}

/// A login on the web page.
pub open spec fn login_done(
    s: AuthServiceView,
    session_code: Text,
    client_state: Text,
    username: Text,
    password: Text,
    now: i64,
) -> (AuthServiceView, ReplyView) {
    let (next, outcome) = service::login_completed(
        s,
        session_code,
        client_state,
        username,
        password,
        now,
    );
    (next, login_result_reply(session_code, client_state, outcome))
}

impl AuthService {
    /// The page for a login, at the time `now`.
    pub fn login_page_at(&self, session_code: &str, client_state: &str, now: i64) -> (r: Reply)
        ensures
            r@ == login_page_reply(self@, session_code@, client_state@, now),
    {
        let valid = match self.sessions.get(session_code) {
            Some(session) => text::same_text(session.client_state.as_str(), client_state)
                && session.expires_at >= now,
            None => false,
        };
        if valid {
            Reply::Page { status: 200, html: html::login_form(session_code, client_state, None) }
        } else {
            Reply::Page {
                status: 400,
                html: html::page("登录已过期", "<p>这次登录请求无效或已经过期。</p>"),
            }
        }
    }

    /// The page for a login, at the present time.
    pub fn login_page(&self, session_code: &str, client_state: &str) -> (r: Reply)
        ensures
            exists|now: i64|
                0 <= now <= clock::CLOCK_LIMIT && r@ == #[trigger] login_page_reply(
                    self@,
                    session_code@,
                    client_state@,
                    now,
                ),
    {
        let now = clock::now();
        self.login_page_at(session_code, client_state, now)
    }

    /// Logs a user in, at the time `now`.
    pub fn login_at(
        &mut self,
        session_code: &str,
        client_state: &str,
        username: &str,
        password: &str,
        now: i64,
    ) -> (r: Reply)
        ensures
            (final(self)@, r@) == login_done(
                old(self)@,
                session_code@,
                client_state@,
                username@,
                password@,
                now,
            ),
    {
        let outcome = self.complete_login_at(session_code, client_state, username, password, now);
        login_result(session_code, client_state, outcome)
    }

    /// Logs a user in, at the present time.
    pub fn login(
        &mut self,
        session_code: &str,
        client_state: &str,
        username: &str,
        password: &str,
    ) -> (r: Reply)
        ensures
            exists|now: i64|
                0 <= now <= clock::CLOCK_LIMIT && (final(self)@, r@) == #[trigger] login_done(
                    old(self)@,
                    session_code@,
                    client_state@,
                    username@,
                    password@,
                    now,
                ),
    {
        let now = clock::now();
        self.login_at(session_code, client_state, username, password, now)
    }
}

// ---------------------------------------------------------------------------
// The administrator
// ---------------------------------------------------------------------------

/// The value of the first cookie whose item begins with `prefix`.
pub open spec fn cookie_among(items: Seq<Text>, prefix: Text) -> Option<Text>
    decreases items.len(),
{
    if items.len() == 0 {
        None
    } else {
        match text::after_prefix(text::trimmed(items[0]), prefix) {
            Some(value) => Some(value),
            None => cookie_among(items.skip(1), prefix),
        }
    }
}

/// The value of a cookie in the header of a request.
pub open spec fn cookie_value(header: Option<Text>, name: Text) -> Option<Text> {
    match header {
        Some(h) => cookie_among(text::pieces(h, ';'), name + "="@),
        None => None,
    }
}

pub fn cookie(header: Option<&str>, name: &str) -> (r: Option<String>)
    ensures
        r.deep_view() == cookie_value(header.deep_view(), name@),
{
    let h = match header {
        Some(h) => h,
        None => {
            return None;
        },
    };
    let mut prefix = name.to_owned();
    prefix.append("=");
    let items = text::split(h, ';');
    let ghost all = items.deep_view();
    let mut i: usize = 0;
    assert(all.skip(0) =~= all);
    while i < items.len()
        invariant
            i <= items@.len(),
            all == items.deep_view(),
            all == text::pieces(h@, ';'),
            header == Some(h),
            prefix@ == name@ + "="@,
            cookie_among(all, prefix@) == cookie_among(all.skip(i as int), prefix@),
        decreases items@.len() - i,
    {
        proof {
            assert(all.skip(i as int)[0] == items@[i as int]@);
            assert(all.skip(i as int).skip(1) =~= all.skip(i + 1));
        }
        match text::strip_prefix(text::trim(items[i].as_str()).as_str(), prefix.as_str()) {
            Some(value) => {
                return Some(value);
            },
            None => {},
        }
        i = i + 1;
    }
    None
}

pub open spec fn csrf_matches(session: AdminSessionView, submitted: Text) -> bool {
    submitted.len() > 0 && submitted == session.csrf_token
}

pub fn valid_csrf(session: &AdminSession, submitted: &str) -> (r: bool)
    ensures
        r == csrf_matches(session@, submitted@),
{
    !submitted.is_empty() && text::same_text(submitted, session.csrf_token.as_str())
}

/// The administrator behind the cookies of a request, with token and session.
pub open spec fn admin_actor_found(s: AuthServiceView, cookies: Option<Text>, now: i64) -> (
    AuthServiceView,
    Option<(Text, AdminSessionView, UserView)>,
) {
    match cookie_value(cookies, "lore_auth_admin"@) {
        None => (s, None),
        Some(token) => match service::admin_session_found(s, token, now) {
            (next, Some((session, user))) => (next, Some((token, session, user))),
            (next, None) => (next, None),
        },
    }
}

/// The administrator who may use a form: the cookies name a session, and the form holds
/// its secret. Else the reply.
pub open spec fn admitted(s: AuthServiceView, cookies: Option<Text>, csrf_token: Text, now: i64) -> (
    AuthServiceView,
    Result<(Text, UserView), ReplyView>,
) {
    match admin_actor_found(s, cookies, now) {
        (next, None) => (next, Err(login_reply(None))),
        (next, Some((token, session, user))) => if csrf_matches(session, csrf_token) {
            (next, Ok((token, user)))
        } else {
            (next, Err(error_reply(403, "安全校验失败，请刷新页面后重试。 "@)))
        },
    }
}

/// What a form does, once the administrator has been admitted.
pub open spec fn on_form(
    admission: (AuthServiceView, Result<(Text, UserView), ReplyView>),
    act: spec_fn(AuthServiceView, Text) -> (AuthServiceView, ReplyView),
) -> (AuthServiceView, ReplyView) {
    match admission {
        (s, Ok((token, _))) => act(s, token),
        (s, Err(reply)) => (s, reply),
    }
}

impl AuthService {
    pub fn admin_actor_at(&mut self, cookies: Option<&str>, now: i64) -> (r: Option<
        (String, AdminSession, User),
    >)
        ensures
            (final(self)@, r.deep_view()) == admin_actor_found(
                old(self)@,
                cookies.deep_view(),
                now,
            ),
    {
        let token = match cookie(cookies, "lore_auth_admin") {
            Some(token) => token,
            None => {
                return None;
            },
        };
        match self.admin_session_at(token.as_str(), now) {
            Some((session, user)) => Some((token, session, user)),
            None => None,
        }
    }

    fn admission_to_form(&mut self, cookies: Option<&str>, csrf_token: &str, now: i64) -> (r: Result<
        (String, User),
        Reply,
    >)
        ensures
            (final(self)@, admission(r)) == admitted(
                old(self)@,
                cookies.deep_view(),
                csrf_token@,
                now,
            ),
    {
        match self.admin_actor_at(cookies, now) {
            Some((token, session, user)) => {
                if valid_csrf(&session, csrf_token) {
                    Ok((token, user))
                } else {
                    Err(admin_error(403, "安全校验失败，请刷新页面后重试。 "))
                }
            },
            None => Err(admin_login_page(None)),
        }
    }
}

pub open spec fn admission(r: Result<(String, User), Reply>) -> Result<(Text, UserView), ReplyView> {
    match r {
        Ok((token, user)) => Ok((token@, user@)),
        Err(reply) => Err(reply@),
    }
}

// ---------------------------------------------------------------------------
// Logging in and out
// ---------------------------------------------------------------------------

pub open spec fn session_cookie(token: Text) -> Text {
    "lore_auth_admin="@ + token
        + "; Path=/admin; HttpOnly; Secure; SameSite=Strict; Max-Age=28800"@
}

/// The administrator logs in.
pub open spec fn admin_logged_in(
    s: AuthServiceView,
    username: Text,
    password: Text,
    token: Text,
    csrf_token: Text,
    now: i64,
) -> (AuthServiceView, ReplyView) {
    match db::authenticated(s.db, username, password) {
        Ok(Some(user)) => match service::with_admin_session(s, user, token, csrf_token, now) {
            (next, Some(_)) => (
                next,
                ReplyView::Redirect {
                    location: "/admin"@,
                    set_cookie: Some(session_cookie(token)),
                },
            ),
            (next, None) => (next, login_reply(Some("只有终极管理员可以使用此后台。"@))),
        },
        _ => (s, login_reply(Some("用户名或密码错误。"@))),
    }
}

/// The administrator logs out.
pub open spec fn logout() -> spec_fn(AuthServiceView, Text) -> (AuthServiceView, ReplyView) {
    |s: AuthServiceView, token: Text|
        (
            AuthServiceView { admin_sessions: s.admin_sessions.remove(token), ..s },
            ReplyView::Redirect {
                location: "/admin"@,
                set_cookie: Some(
                    "lore_auth_admin=; Path=/admin; HttpOnly; Secure; SameSite=Strict; Max-Age=0"@,
                ),
            },
        )
}

impl AuthService {
    /// Logs the administrator in, under the given tokens, at the time `now`.
    pub fn admin_login_with(
        &mut self,
        username: &str,
        password: &str,
        token: String,
        csrf_token: String,
        now: i64,
    ) -> (r: Reply)
        requires
            now <= i64::MAX - service::ADMIN_SESSION_SECONDS,
        ensures
            (final(self)@, r@) == admin_logged_in(
                old(self)@,
                username@,
                password@,
                token@,
                csrf_token@,
                now,
            ),
    {
        let user = match self.db.authenticate(username, password) {
            Ok(Some(user)) => user,
            _ => {
                return admin_login_page(Some("用户名或密码错误。"));
            },
        };
        let mut cookie = "lore_auth_admin=".to_owned();
        cookie.append(token.as_str());
        cookie.append("; Path=/admin; HttpOnly; Secure; SameSite=Strict; Max-Age=28800");
        match self.create_admin_session_with(&user, token, csrf_token, now) {
            Some(_) => Reply::Redirect {
                location: "/admin".to_owned(),
                set_cookie: Some(cookie),
            },
            None => admin_login_page(Some("只有终极管理员可以使用此后台。")),
        }
    }

    /// Logs the administrator in, under new tokens, at the present time.
    pub fn admin_login(&mut self, username: &str, password: &str) -> (r: Reply)
        ensures
            exists|token: Text, csrf_token: Text, now: i64|
                ids::is_uuid_text(token) && ids::is_uuid_text(csrf_token) && 0 <= now
                    <= clock::CLOCK_LIMIT && (final(self)@, r@) == #[trigger] admin_logged_in(
                    old(self)@,
                    username@,
                    password@,
                    token,
                    csrf_token,
                    now,
                ),
    {
        let token = ids::fresh_id();
        let csrf_token = ids::fresh_id();
        let now = clock::now();
        self.admin_login_with(username, password, token, csrf_token, now)
    }

    pub fn admin_logout_at(&mut self, cookies: Option<&str>, csrf_token: &str, now: i64) -> (r:
        Reply)
        ensures
            (final(self)@, r@) == on_form(
                admitted(old(self)@, cookies.deep_view(), csrf_token@, now),
                logout(),
            ),
    {
        match self.admission_to_form(cookies, csrf_token, now) {
            Ok((token, _)) => {
                self.remove_admin_session(token.as_str());
                Reply::Redirect {
                    location: "/admin".to_owned(),
                    set_cookie: Some(
                        "lore_auth_admin=; Path=/admin; HttpOnly; Secure; SameSite=Strict; Max-Age=0".to_owned(),
                    ),
                }
            },
            Err(reply) => reply,
        }
    }

    pub fn admin_logout(&mut self, cookies: Option<&str>, csrf_token: &str) -> (r: Reply)
        ensures
            exists|now: i64|
                0 <= now <= clock::CLOCK_LIMIT && (final(self)@, r@) == on_form(
                    #[trigger] admitted(old(self)@, cookies.deep_view(), csrf_token@, now),
                    logout(),
                ),
    {
        let now = clock::now();
        self.admin_logout_at(cookies, csrf_token, now)
    }
}

// ---------------------------------------------------------------------------
// Forms for users
// ---------------------------------------------------------------------------

/// The reply to a change of the tables: a message, or what the refusal comes to.
pub open spec fn change_reply(r: Result<(), Text>, message: Text) -> ReplyView {
    match r {
        Ok(_) => back("message"@, message),
        Err(e) => back("error"@, refusal_message(e)),
    }
}

fn reply_to_change(r: Result<(), db::DbError>, message: &str) -> (reply: Reply)
    ensures
        reply@ == change_reply(db::outcome(r), message@),
{
    match r {
        Ok(_) => admin_redirect("message", message),
        Err(e) => admin_operation_error(e.message.as_str()),
    }
}

/// A new user, who is no administrator.
pub open spec fn user_creation(
    username: Text,
    display_name: Text,
    password: Text,
    salt: Text,
    id: Text,
    now: i64,
) -> spec_fn(AuthServiceView, Text) -> (AuthServiceView, ReplyView) {
    |s: AuthServiceView, token: Text|
        match db::created(s.db, username, display_name, password, false, salt, id, now) {
            (next, Ok(user)) => (
                AuthServiceView { db: next, ..s },
                back("message"@, "用户 "@ + user.username + " 创建成功。"@),
            ),
            (next, Err(e)) => (
                AuthServiceView { db: next, ..s },
                back("error"@, refusal_message(e)),
            ),
        }
}

/// Deleting a user, whose repositories go to the chief administrator. That account
/// itself cannot be deleted.
pub open spec fn user_deletion(username: Text) -> spec_fn(AuthServiceView, Text) -> (
    AuthServiceView,
    ReplyView,
) {
    |s: AuthServiceView, token: Text|
        if text::same_name(username, s.bootstrap_username) {
            (s, back("error"@, "终极管理员不能被删除。 "@))
        } else {
            let (next, r) = db::without_user(s.db, username, s.bootstrap_username);
            (
                AuthServiceView { db: next, ..s },
                change_reply(r, "用户已删除，其名下仓库已转交给终极管理员。"@),
            )
        }
}

/// Enabling or disabling a user. The chief administrator is neither.
pub open spec fn user_switch(username: Text, disabled: bool) -> spec_fn(AuthServiceView, Text) -> (
    AuthServiceView,
    ReplyView,
) {
    |s: AuthServiceView, token: Text|
        if text::same_name(username, s.bootstrap_username) {
            (s, back("error"@, "终极管理员不能被禁用。 "@))
        } else {
            let (next, r) = db::with_disabled(s.db, username, disabled);
            (
                AuthServiceView { db: next, ..s },
                change_reply(
                    r,
                    if disabled {
                        "用户已禁用。"@
                    } else {
                        "用户已启用。"@
                    },
                ),
            )
        }
}

pub open spec fn password_change(username: Text, password: Text, salt: Text) -> spec_fn(
    AuthServiceView,
    Text,
) -> (AuthServiceView, ReplyView) {
    |s: AuthServiceView, token: Text|
        {
            let (next, r) = db::with_password(s.db, username, password, salt);
            (AuthServiceView { db: next, ..s }, change_reply(r, "密码已更新。"@))
        }
}

impl AuthService {
    pub fn admin_create_user_with(
        &mut self,
        cookies: Option<&str>,
        csrf_token: &str,
        username: &str,
        display_name: &str,
        password: &str,
        salt: &str,
        id: String,
        now: i64,
    ) -> (r: Reply)
        ensures
            (final(self)@, r@) == on_form(
                admitted(old(self)@, cookies.deep_view(), csrf_token@, now),
                user_creation(username@, display_name@, password@, salt@, id@, now),
            ),
    {
        match self.admission_to_form(cookies, csrf_token, now) {
            Ok(_) => match self.db.create_user_with(
                username,
                display_name,
                password,
                false,
                salt,
                id,
                now,
            ) {
                Ok(user) => {
                    let mut message = "用户 ".to_owned();
                    message.append(user.username.as_str());
                    message.append(" 创建成功。");
                    admin_redirect("message", message.as_str())
                },
                Err(e) => admin_operation_error(e.message.as_str()),
            },
            Err(reply) => reply,
        }
    }

    pub fn admin_create_user(
        &mut self,
        cookies: Option<&str>,
        csrf_token: &str,
        username: &str,
        display_name: &str,
        password: &str,
    ) -> (r: Reply)
        ensures
            exists|salt: Text, id: Text, now: i64|
                ids::is_uuid_text(id) && password::serves(salt) && 0 <= now <= clock::CLOCK_LIMIT
                    && (final(self)@, r@) == on_form(
                    #[trigger] admitted(old(self)@, cookies.deep_view(), csrf_token@, now),
                    #[trigger] user_creation(
                        username@,
                        display_name@,
                        password@,
                        salt,
                        id,
                        now,
                    ),
                ),
    {
        let salt = password::fresh_salt();
        let id = ids::fresh_id();
        let now = clock::now();
        self.admin_create_user_with(
            cookies,
            csrf_token,
            username,
            display_name,
            password,
            salt.as_str(),
            id,
            now,
        )
    }

    pub fn admin_delete_user_at(
        &mut self,
        cookies: Option<&str>,
        csrf_token: &str,
        username: &str,
        now: i64,
    ) -> (r: Reply)
        ensures
            (final(self)@, r@) == on_form(
                admitted(old(self)@, cookies.deep_view(), csrf_token@, now),
                user_deletion(username@),
            ),
    {
        match self.admission_to_form(cookies, csrf_token, now) {
            Ok(_) => {
                if text::eq_ignore_ascii_case(username, self.bootstrap_username.as_str()) {
                    return admin_redirect("error", "终极管理员不能被删除。 ");
                }
                let r = self.db.delete_user(username, self.bootstrap_username.as_str());
                reply_to_change(r, "用户已删除，其名下仓库已转交给终极管理员。")
            },
            Err(reply) => reply,
        }
    }

    pub fn admin_delete_user(
        &mut self,
        cookies: Option<&str>,
        csrf_token: &str,
        username: &str,
    ) -> (r: Reply)
        ensures
            exists|now: i64|
                0 <= now <= clock::CLOCK_LIMIT && (final(self)@, r@) == on_form(
                    #[trigger] admitted(old(self)@, cookies.deep_view(), csrf_token@, now),
                    user_deletion(username@),
                ),
    {
        let now = clock::now();
        self.admin_delete_user_at(cookies, csrf_token, username, now)
    }

    pub fn set_user_disabled_at(
        &mut self,
        cookies: Option<&str>,
        csrf_token: &str,
        username: &str,
        disabled: bool,
        now: i64,
    ) -> (r: Reply)
        ensures
            (final(self)@, r@) == on_form(
                admitted(old(self)@, cookies.deep_view(), csrf_token@, now),
                user_switch(username@, disabled),
            ),
    {
        match self.admission_to_form(cookies, csrf_token, now) {
            Ok(_) => {
                if text::eq_ignore_ascii_case(username, self.bootstrap_username.as_str()) {
                    return admin_redirect("error", "终极管理员不能被禁用。 ");
                }
                let r = self.db.set_disabled(username, disabled);
                reply_to_change(
                    r,
                    if disabled {
                        "用户已禁用。"
                    } else {
                        "用户已启用。"
                    },
                )
            },
            Err(reply) => reply,
        }
    }

    /// Enables or disables a user.
    pub fn set_user_disabled(
        &mut self,
        cookies: Option<&str>,
        csrf_token: &str,
        username: &str,
        disabled: bool,
    ) -> (r: Reply)
        ensures
            exists|now: i64|
                0 <= now <= clock::CLOCK_LIMIT && (final(self)@, r@) == on_form(
                    #[trigger] admitted(old(self)@, cookies.deep_view(), csrf_token@, now),
                    user_switch(username@, disabled),
                ),
    {
        let now = clock::now();
        self.set_user_disabled_at(cookies, csrf_token, username, disabled, now)
    }

    pub fn admin_set_password_with(
        &mut self,
        cookies: Option<&str>,
        csrf_token: &str,
        username: &str,
        password: &str,
        salt: &str,
        now: i64,
    ) -> (r: Reply)
        ensures
            (final(self)@, r@) == on_form(
                admitted(old(self)@, cookies.deep_view(), csrf_token@, now),
                password_change(username@, password@, salt@),
            ),
    {
        match self.admission_to_form(cookies, csrf_token, now) {
            Ok(_) => {
                let r = self.db.set_password_with(username, password, salt);
                reply_to_change(r, "密码已更新。")
            },
            Err(reply) => reply,
        }
    }

    pub fn admin_set_password(
        &mut self,
        cookies: Option<&str>,
        csrf_token: &str,
        username: &str,
        password: &str,
    ) -> (r: Reply)
        ensures
            exists|salt: Text, now: i64|
                password::serves(salt) && 0 <= now <= clock::CLOCK_LIMIT && (
                final(self)@, r@) == on_form(
                    #[trigger] admitted(old(self)@, cookies.deep_view(), csrf_token@, now),
                    #[trigger] password_change(username@, password@, salt),
                ),
    {
        let salt = password::fresh_salt();
        let now = clock::now();
        self.admin_set_password_with(cookies, csrf_token, username, password, salt.as_str(), now)
    }
}

// ---------------------------------------------------------------------------
// Forms for grants
// ---------------------------------------------------------------------------

/// The permissions behind a level on the form.
pub open spec fn permissions_of_level(level: Text) -> Option<Seq<Text>> {
    if level == "read"@ {
        Some(seq!["read"@])
    } else if level == "write"@ {
        Some(seq!["read"@, "write"@])
    } else if level == "admin"@ {
        Some(db::owner_permissions())
    } else if level == "all"@ {
        Some(seq!["*"@])
    } else {
        None
    }
}

fn level_permissions(level: &str) -> (r: Option<Vec<String>>)
    ensures
        r.deep_view() == permissions_of_level(level@),
        r matches Some(list) ==> db::texts(list@) == list.deep_view(),
{
    let mut list: Vec<String> = Vec::new();
    if text::same_text(level, "read") {
        list.push("read".to_owned());
        assert(list.deep_view() =~= seq!["read"@]);
    } else if text::same_text(level, "write") {
        list.push("read".to_owned());
        list.push("write".to_owned());
        assert(list.deep_view() =~= seq!["read"@, "write"@]);
    } else if text::same_text(level, "admin") {
        list = db::owner_permission_list();
    } else if text::same_text(level, "all") {
        list.push("*".to_owned());
        assert(list.deep_view() =~= seq!["*"@]);
    } else {
        return None;
    }
    assert(db::texts(list@) =~= list.deep_view());
    Some(list)
}

pub open spec fn grant_change(username: Text, resource_id: Text, level: Text) -> spec_fn(
    AuthServiceView,
    Text,
) -> (AuthServiceView, ReplyView) {
    |s: AuthServiceView, token: Text|
        match permissions_of_level(level) {
            None => (s, back("error"@, "请选择有效的权限级别。"@)),
            Some(permissions) => {
                let (next, r) = db::with_grant(s.db, username, resource_id, permissions);
                (AuthServiceView { db: next, ..s }, change_reply(r, "仓库授权已保存。"@))
            },
        }
}

/// Revoking a grant. The chief administrator keeps the grant on all resources.
pub open spec fn grant_revocation(username: Text, resource_id: Text) -> spec_fn(
    AuthServiceView,
    Text,
) -> (AuthServiceView, ReplyView) {
    |s: AuthServiceView, token: Text|
        if text::same_name(username, s.bootstrap_username) && resource_id == db::every_resource() {
            (s, back("error"@, "不能撤销终极管理员的全局权限。 "@))
        } else {
            let (next, r) = db::without_grant(s.db, username, resource_id);
            (AuthServiceView { db: next, ..s }, change_reply(r, "仓库授权已撤销。"@))
        }
}

impl AuthService {
    pub fn admin_set_grant_at(
        &mut self,
        cookies: Option<&str>,
        csrf_token: &str,
        username: &str,
        resource_id: &str,
        access_level: &str,
        now: i64,
    ) -> (r: Reply)
        ensures
            (final(self)@, r@) == on_form(
                admitted(old(self)@, cookies.deep_view(), csrf_token@, now),
                grant_change(username@, resource_id@, access_level@),
            ),
    {
        match self.admission_to_form(cookies, csrf_token, now) {
            Ok(_) => {
                let permissions = match level_permissions(access_level) {
                    Some(permissions) => permissions,
                    None => {
                        return admin_redirect("error", "请选择有效的权限级别。");
                    },
                };
                let r = self.db.set_grant(username, resource_id, permissions.as_slice());
                reply_to_change(r, "仓库授权已保存。")
            },
            Err(reply) => reply,
        }
    }

    pub fn admin_set_grant(
        &mut self,
        cookies: Option<&str>,
        csrf_token: &str,
        username: &str,
        resource_id: &str,
        access_level: &str,
    ) -> (r: Reply)
        ensures
            exists|now: i64|
                0 <= now <= clock::CLOCK_LIMIT && (final(self)@, r@) == on_form(
                    #[trigger] admitted(old(self)@, cookies.deep_view(), csrf_token@, now),
                    grant_change(username@, resource_id@, access_level@),
                ),
    {
        let now = clock::now();
        self.admin_set_grant_at(cookies, csrf_token, username, resource_id, access_level, now)
    }

    pub fn admin_revoke_grant_at(
        &mut self,
        cookies: Option<&str>,
        csrf_token: &str,
        username: &str,
        resource_id: &str,
        now: i64,
    ) -> (r: Reply)
        ensures
            (final(self)@, r@) == on_form(
                admitted(old(self)@, cookies.deep_view(), csrf_token@, now),
                grant_revocation(username@, resource_id@),
            ),
    {
        match self.admission_to_form(cookies, csrf_token, now) {
            Ok(_) => {
                if text::eq_ignore_ascii_case(username, self.bootstrap_username.as_str())
                    && text::same_text(resource_id, "urc-*") {
                    return admin_redirect("error", "不能撤销终极管理员的全局权限。 ");
                }
                let r = self.db.revoke_grant(username, resource_id);
                reply_to_change(r, "仓库授权已撤销。")
            },
            Err(reply) => reply,
        }
    }

    pub fn admin_revoke_grant(
        &mut self,
        cookies: Option<&str>,
        csrf_token: &str,
        username: &str,
        resource_id: &str,
    ) -> (r: Reply)
        ensures
            exists|now: i64|
                0 <= now <= clock::CLOCK_LIMIT && (final(self)@, r@) == on_form(
                    #[trigger] admitted(old(self)@, cookies.deep_view(), csrf_token@, now),
                    grant_revocation(username@, resource_id@),
                ),
    {
        let now = clock::now();
        self.admin_revoke_grant_at(cookies, csrf_token, username, resource_id, now)
    }
}

// ---------------------------------------------------------------------------
// The console
// ---------------------------------------------------------------------------

/// A question to the Lore server: where it is, and the token for it.
#[derive(Debug)]
pub struct ServerCall {
    pub endpoint: String,
    pub token: String,
}

#[verifier::ext_equal]
pub struct ServerCallView {
    pub endpoint: Text,
    pub token: Text,
}

impl View for ServerCall {
    type V = ServerCallView;

    open spec fn view(&self) -> ServerCallView {
        ServerCallView { endpoint: self.endpoint@, token: self.token@ }
    }
}

/// What is known of the repositories before the Lore server has been asked, or the
/// question to it.
#[derive(Debug)]
pub enum Inquiry {
    Ask(ServerCall),
    Known(RepositoryListing),
}

pub enum InquiryView {
    Ask(ServerCallView),
    Known(RepositoryListingView),
}

impl View for Inquiry {
    type V = InquiryView;

    open spec fn view(&self) -> InquiryView {
        match *self {
            Inquiry::Ask(call) => InquiryView::Ask(call@),
            Inquiry::Known(listing) => InquiryView::Known(listing@),
        }
    }
}

pub open spec fn inquiry(s: AuthServiceView, actor: UserView, now: u64) -> InquiryView {
    match s.lore_grpc_url {
        None => InquiryView::Known(RepositoryListingView::NotConfigured),
        Some(endpoint) => match keys::issued(s.tokens, actor, None, "authentication"@, now) {
            Ok((token, _)) => InquiryView::Ask(ServerCallView { endpoint, token }),
            Err(_) => InquiryView::Known(RepositoryListingView::NoToken),
        },
    }
}

/// The console, once the Lore server has been asked.
pub open spec fn console_reply(
    s: AuthServiceView,
    session: AdminSessionView,
    actor: UserView,
    message: Option<Text>,
    error: Option<Text>,
    listing: RepositoryListingView,
    times: Seq<Text>,
) -> ReplyView {
    match (db::listed_repositories(s.db, Seq::empty()), db::listed_user_grants(s.db)) {
        (Ok(local_repositories), Ok(grants)) => ReplyView::Page {
            status: 200,
            html: console::console_html(
                ConsoleView {
                    bootstrap_username: s.bootstrap_username,
                    actor: actor.username,
                    csrf_token: session.csrf_token,
                    message,
                    error,
                    users: db::listed_users(s.db),
                    local_repositories,
                    grants,
                    listing,
                },
                times,
            ),
        },
        _ => error_reply(500, "无法读取后台数据。"@),
    }
}

/// The session and the administrator behind the cookies of a request for the console.
/// Else the page on which to log in.
pub open spec fn console_opened(
    s: AuthServiceView,
    cookies: Option<Text>,
    error: Option<Text>,
    now: i64,
) -> (AuthServiceView, Result<(AdminSessionView, UserView), ReplyView>) {
    match admin_actor_found(s, cookies, now) {
        (next, Some((_, session, user))) => (next, Ok((session, user))),
        (next, None) => (next, Err(login_reply(error))),
    }
}

pub open spec fn console_outcome(r: Result<(AdminSession, User), Reply>) -> Result<
    (AdminSessionView, UserView),
    ReplyView,
> {
    match r {
        Ok((session, user)) => Ok((session@, user@)),
        Err(reply) => Err(reply@),
    }
}

impl AuthService {
    /// What to ask the Lore server for the console, at the time `now`.
    pub fn console_inquiry_at(&self, actor: &User, now: u64) -> (r: Inquiry)
        ensures
            r@ == inquiry(self@, actor@, now),
    {
        let endpoint = match &self.lore_grpc_url {
            Some(endpoint) => endpoint.clone(),
            None => {
                return Inquiry::Known(RepositoryListing::NotConfigured);
            },
        };
        match self.tokens.issue_at(actor, None, "authentication", now) {
            Ok((token, _)) => Inquiry::Ask(ServerCall { endpoint, token }),
            Err(_) => Inquiry::Known(RepositoryListing::NoToken),
        }
    }

    /// What to ask the Lore server for the console, at the present time.
    pub fn console_inquiry(&self, actor: &User) -> (r: Inquiry)
        ensures
            exists|now: u64|
                now <= clock::CLOCK_LIMIT && r@ == #[trigger] inquiry(self@, actor@, now),
    {
        let now = clock::now() as u64;
        self.console_inquiry_at(actor, now)
    }

    /// The console. Where the grants cannot be read, the reply says so.
    pub fn render_admin(
        &self,
        session: &AdminSession,
        actor: &User,
        message: Option<&str>,
        error: Option<&str>,
        listing: &RepositoryListing,
    ) -> (r: Reply)
        ensures
            exists|times: Seq<Text>|
                console::are_creation_times(console::listed(listing@), times) && r@
                    == #[trigger] console_reply(
                    self@,
                    session@,
                    actor@,
                    message.deep_view(),
                    error.deep_view(),
                    listing@,
                    times,
                ),
    {
        let times = console::times_of(listing);
        proof {
            reveal_strlit("");
            assert(""@ =~= Seq::<char>::empty());
        }
        let data = (self.db.list_repositories(""), self.db.list_all_user_grants());
        let (local_repositories, grants) = match data {
            (Ok(local_repositories), Ok(grants)) => (local_repositories, grants),
            _ => {
                let r = admin_error(500, "无法读取后台数据。");
                assert(r@ == console_reply(
                    self@,
                    session@,
                    actor@,
                    message.deep_view(),
                    error.deep_view(),
                    listing@,
                    times.deep_view(),
                ));
                return r;
            },
        };
        let users = self.db.list_users();
        let console = Console {
            bootstrap_username: self.bootstrap_username.as_str(),
            actor: actor.username.as_str(),
            csrf_token: session.csrf_token.as_str(),
            message,
            error,
            users: &users,
            local_repositories: &local_repositories,
            grants: &grants,
            listing,
        };
        let html = console::write_console(&console, &times);
        let r = Reply::Page { status: 200, html };
        assert(r@ == console_reply(
            self@,
            session@,
            actor@,
            message.deep_view(),
            error.deep_view(),
            listing@,
            times.deep_view(),
        ));
        r
    }

    /// The administrator who opens the console, at the time `now`, or the page on which
    /// to log in.
    pub fn admin_at(&mut self, cookies: Option<&str>, error: Option<&str>, now: i64) -> (r: Result<
        (AdminSession, User),
        Reply,
    >)
        ensures
            (final(self)@, console_outcome(r)) == console_opened(
                old(self)@,
                cookies.deep_view(),
                error.deep_view(),
                now,
            ),
    {
        match self.admin_actor_at(cookies, now) {
            Some((_, session, user)) => Ok((session, user)),
            None => Err(admin_login_page(error)),
        }
    }

    /// The administrator who opens the console, at the present time, or the page on which
    /// to log in.
    pub fn admin(&mut self, cookies: Option<&str>, error: Option<&str>) -> (r: Result<
        (AdminSession, User),
        Reply,
    >)
        ensures
            exists|now: i64|
                0 <= now <= clock::CLOCK_LIMIT && (final(self)@, console_outcome(r))
                    == #[trigger] console_opened(
                    old(self)@,
                    cookies.deep_view(),
                    error.deep_view(),
                    now,
                ),
    {
        let now = clock::now();
        self.admin_at(cookies, error, now)
    }
}

// ---------------------------------------------------------------------------
// The history of a repository
// ---------------------------------------------------------------------------

/// Where to ask for the history of a repository: the administrator, and the question to
/// the Lore server. Else the reply.
pub open spec fn history_start(s: AuthServiceView, cookies: Option<Text>, now: i64) -> (
    AuthServiceView,
    Result<(ServerCallView, UserView), ReplyView>,
) {
    match admin_actor_found(s, cookies, now) {
        (next, None) => (next, Err(login_reply(None))),
        (next, Some((_, _, actor))) => match next.lore_grpc_url {
            None => (
                next,
                Err(
                    error_reply(
                        503,
                        "尚未配置 LORE_AUTH_LORE_GRPC_URL，无法读取提交历史。"@,
                    ),
                ),
            ),
            Some(endpoint) => match keys::issued(
                next.tokens,
                actor,
                None,
                "authentication"@,
                now as u64,
            ) {
                Ok((token, _)) => (next, Ok((ServerCallView { endpoint, token }, actor))),
                Err(_) => (next, Err(error_reply(500, "无法签发管理令牌。"@))),
            },
        },
    }
}

pub open spec fn start_outcome(r: Result<(ServerCall, User), Reply>) -> Result<
    (ServerCallView, UserView),
    ReplyView,
> {
    match r {
        Ok((call, user)) => Ok((call@, user@)),
        Err(reply) => Err(reply@),
    }
}

/// The place of the first repository with an identifier.
pub open spec fn is_place(repositories: Seq<LiveRepositoryView>, resource_id: Text, i: int) -> bool {
    &&& 0 <= i < repositories.len()
    &&& repositories[i].resource_id == resource_id
    &&& forall|j: int| 0 <= j < i ==> (#[trigger] repositories[j]).resource_id != resource_id
}

/// The first repository with an identifier.
pub open spec fn repository_with(repositories: Seq<LiveRepositoryView>, resource_id: Text) -> Option<
    LiveRepositoryView,
> {
    if exists|i: int| is_place(repositories, resource_id, i) {
        Some(repositories[choose|i: int| is_place(repositories, resource_id, i)])
    } else {
        None
    }
}

fn take_repository(repositories: Vec<LiveRepository>, resource_id: &str) -> (r: Option<
    LiveRepository,
>)
    ensures
        match r {
            Some(repository) => repository_with(views(repositories@), resource_id@) == Some(
                repository@,
            ),
            None => repository_with(views(repositories@), resource_id@) is None,
        },
{
    let ghost all = views(repositories@);
    match lore_admin::find_repository(&repositories, resource_id) {
        Some(i) => {
            proof {
                assert forall|j: int| 0 <= j < i implies (#[trigger] all[j]).resource_id
                    != resource_id@ by {
                    assert(repositories@[j]@.resource_id != resource_id@);
                }
                assert(is_place(all, resource_id@, i as int));
                let k = choose|k: int| is_place(all, resource_id@, k);
                assert(k == i) by {
                    if k < i {
                        assert(all[k].resource_id != resource_id@);
                    }
                    if i < k {
                        assert(all[i as int].resource_id != resource_id@);
                    }
                }
            }
            let mut repositories = repositories;
            Some(repositories.remove(i))
        },
        None => {
            proof {
                if exists|i: int| is_place(all, resource_id@, i) {
                    let i = choose|i: int| is_place(all, resource_id@, i);
                    assert(repositories@[i]@.resource_id != resource_id@);
                }
            }
            None
        },
    }
}

/// The answer of the Lore server over views.
pub open spec fn listing_of(r: Result<Vec<LiveRepository>, String>) -> Result<
    Seq<LiveRepositoryView>,
    Text,
> {
    match r {
        Ok(list) => Ok(views(list@)),
        Err(e) => Err(e@),
    }
}

/// The repository whose history is wanted, with a token for it. Else the reply.
pub open spec fn history_target(
    s: AuthServiceView,
    actor: UserView,
    listing: Result<Seq<LiveRepositoryView>, Text>,
    resource_id: Text,
    now: u64,
) -> Result<(LiveRepositoryView, Text), ReplyView> {
    match listing {
        Err(e) => Err(error_reply(502, lore_message("读取 Lore 仓库列表失败"@, e))),
        Ok(repositories) => match repository_with(repositories, resource_id) {
            None => Err(error_reply(404, "仓库不存在或已被删除。"@)),
            Some(repository) => match keys::issued(
                s.tokens,
                actor,
                Some(
                    seq![
                        ResourceClaimView {
                            resource_id: repository.resource_id,
                            permission: seq!["*"@],
                        },
                    ],
                ),
                "authorization"@,
                now,
            ) {
                Ok((token, _)) => Ok((repository, token)),
                Err(_) => Err(error_reply(500, "无法签发仓库管理令牌。"@)),
            },
        },
    }
}

pub open spec fn target_outcome(r: Result<(LiveRepository, String), Reply>) -> Result<
    (LiveRepositoryView, Text),
    ReplyView,
> {
    match r {
        Ok((repository, token)) => Ok((repository@, token@)),
        Err(reply) => Err(reply@),
    }
}

impl AuthService {
    pub fn history_start_at(&mut self, cookies: Option<&str>, now: i64) -> (r: Result<
        (ServerCall, User),
        Reply,
    >)
        ensures
            (final(self)@, start_outcome(r)) == history_start(
                old(self)@,
                cookies.deep_view(),
                now,
            ),
    {
        let actor = match self.admin_actor_at(cookies, now) {
            Some((_, _, actor)) => actor,
            None => {
                return Err(admin_login_page(None));
            },
        };
        let endpoint = match &self.lore_grpc_url {
            Some(endpoint) => endpoint.clone(),
            None => {
                return Err(
                    admin_error(
                        503,
                        "尚未配置 LORE_AUTH_LORE_GRPC_URL，无法读取提交历史。",
                    ),
                );
            },
        };
        match self.tokens.issue_at(&actor, None, "authentication", now as u64) {
            Ok((token, _)) => Ok((ServerCall { endpoint, token }, actor)),
            Err(_) => Err(admin_error(500, "无法签发管理令牌。")),
        }
    }

    /// Where to ask for the history of a repository, at the present time.
    pub fn history_start(&mut self, cookies: Option<&str>) -> (r: Result<(ServerCall, User), Reply>)
        ensures
            exists|now: i64|
                0 <= now <= clock::CLOCK_LIMIT && (final(self)@, start_outcome(r))
                    == #[trigger] history_start(old(self)@, cookies.deep_view(), now),
    {
        let now = clock::now();
        self.history_start_at(cookies, now)
    }

    pub fn history_target_at(
        &self,
        actor: &User,
        listing: Result<Vec<LiveRepository>, String>,
        resource_id: &str,
        now: u64,
    ) -> (r: Result<(LiveRepository, String), Reply>)
        ensures
            target_outcome(r) == history_target(
                self@,
                actor@,
                listing_of(listing),
                resource_id@,
                now,
            ),
    {
        let repositories = match listing {
            Ok(repositories) => repositories,
            Err(e) => {
                return Err(admin_lore_error("读取 Lore 仓库列表失败", e.as_str()));
            },
        };
        let repository = match take_repository(repositories, resource_id) {
            Some(repository) => repository,
            None => {
                return Err(admin_error(404, "仓库不存在或已被删除。"));
            },
        };
        let mut permission: Vec<String> = Vec::new();
        permission.push("*".to_owned());
        assert(permission.deep_view() =~= seq!["*"@]);
        let mut claims: Vec<ResourceClaim> = Vec::new();
        claims.push(
            ResourceClaim { resource_id: repository.resource_id.clone(), permission },
        );
        assert(claims.deep_view() =~= seq![
            ResourceClaimView {
                resource_id: repository@.resource_id,
                permission: seq!["*"@],
            },
        ]);
        match self.tokens.issue_at(actor, Some(claims), "authorization", now) {
            Ok((token, _)) => Ok((repository, token)),
            Err(_) => Err(admin_error(500, "无法签发仓库管理令牌。")),
        }
    }

    /// The repository whose history is wanted, at the present time.
    pub fn history_target(
        &self,
        actor: &User,
        listing: Result<Vec<LiveRepository>, String>,
        resource_id: &str,
    ) -> (r: Result<(LiveRepository, String), Reply>)
        ensures
            exists|now: u64|
                now <= clock::CLOCK_LIMIT && target_outcome(r) == #[trigger] history_target(
                    self@,
                    actor@,
                    listing_of(listing),
                    resource_id@,
                    now,
                ),
    {
        let now = clock::now() as u64;
        self.history_target_at(actor, listing, resource_id, now)
    }
}

/// The history of a repository, or why it could not be read.
pub fn admin_repository_history(
    repository: &LiveRepository,
    history: Result<Vec<RevisionHistoryEntry>, String>,
) -> (r: Reply)
    ensures
        match history {
            Ok(entries) => exists|times: Seq<Text>|
                console::are_commit_times(views(entries@), times) && r@ == (ReplyView::Page {
                    status: 200,
                    html: #[trigger] console::history_html(
                        repository@.name,
                        repository@.resource_id,
                        views(entries@),
                        times,
                    ),
                }),
            Err(e) => r@ == error_reply(502, lore_message("读取提交历史失败"@, e@)),
        },
{
    match history {
        Ok(entries) => {
            let html = console::render_history(
                repository.name.as_str(),
                repository.resource_id.as_str(),
                &entries,
            );
            proof {
                let times = choose|times: Seq<Text>|
                    console::are_commit_times(views(entries@), times) && html@
                        == #[trigger] console::history_html(
                        repository@.name,
                        repository@.resource_id,
                        views(entries@),
                        times,
                    );
                assert(console::are_commit_times(views(entries@), times));
            }
            Reply::Page { status: 200, html }
        },
        Err(e) => admin_lore_error("读取提交历史失败", e.as_str()),
    }
}

// ---------------------------------------------------------------------------
// Deleting a repository
// ---------------------------------------------------------------------------

/// Where to ask for a repository to be deleted. Else the reply.
pub open spec fn deletion_start(
    s: AuthServiceView,
    cookies: Option<Text>,
    csrf_token: Text,
    now: i64,
) -> (AuthServiceView, Result<ServerCallView, ReplyView>) {
    match admitted(s, cookies, csrf_token, now) {
        (next, Err(reply)) => (next, Err(reply)),
        (next, Ok((_, actor))) => match next.lore_grpc_url {
            None => (
                next,
                Err(back("error"@, "尚未配置 LORE_AUTH_LORE_GRPC_URL，不能删除仓库。"@)),
            ),
            Some(endpoint) => match keys::issued(
                next.tokens,
                actor,
                None,
                "authentication"@,
                now as u64,
            ) {
                Ok((token, _)) => (next, Ok(ServerCallView { endpoint, token })),
                Err(_) => (next, Err(back("error"@, "无法签发管理令牌。"@))),
            },
        },
    }
}

pub open spec fn deletion_outcome(r: Result<ServerCall, Reply>) -> Result<
    ServerCallView,
    ReplyView,
> {
    match r {
        Ok(call) => Ok(call@),
        Err(reply) => Err(reply@),
    }
}

/// The repository that is to be deleted: the form must repeat its name. Else the reply.
pub open spec fn deletion_target_of(
    listing: Result<Seq<LiveRepositoryView>, Text>,
    resource_id: Text,
    confirmation: Text,
) -> Result<LiveRepositoryView, ReplyView> {
    match listing {
        Err(e) => Err(back("error"@, lore_message("读取 Lore 仓库列表失败"@, e))),
        Ok(repositories) => match repository_with(repositories, resource_id) {
            None => Err(back("error"@, "仓库不存在或已被删除。"@)),
            Some(repository) => if confirmation != repository.name {
                Err(back("error"@, "确认名称不匹配，仓库未删除。"@))
            } else {
                Ok(repository)
            },
        },
    }
}

pub fn deletion_target(
    listing: Result<Vec<LiveRepository>, String>,
    resource_id: &str,
    confirmation: &str,
) -> (r: Result<LiveRepository, Reply>)
    ensures
        match r {
            Ok(repository) => deletion_target_of(
                listing_of(listing),
                resource_id@,
                confirmation@,
            ) == Ok::<LiveRepositoryView, ReplyView>(repository@),
            Err(reply) => deletion_target_of(
                listing_of(listing),
                resource_id@,
                confirmation@,
            ) == Err::<LiveRepositoryView, ReplyView>(reply@),
        },
{
    let repositories = match listing {
        Ok(repositories) => repositories,
        Err(e) => {
            return Err(admin_lore_redirect("读取 Lore 仓库列表失败", e.as_str()));
        },
    };
    match take_repository(repositories, resource_id) {
        Some(repository) => {
            if text::same_text(confirmation, repository.name.as_str()) {
                Ok(repository)
            } else {
                Err(admin_redirect("error", "确认名称不匹配，仓库未删除。"))
            }
        },
        None => Err(admin_redirect("error", "仓库不存在或已被删除。")),
    }
}

/// The reply once the Lore server has answered.
pub fn admin_delete_repository(name: &str, outcome: Result<(), String>) -> (r: Reply)
    ensures
        r@ == match outcome {
            Ok(_) => back(
                "message"@,
                "仓库 "@ + name@ + " 已从 Lore Server 永久删除。"@,
            ),
            Err(e) => back("error"@, lore_message("Lore Server 删除仓库失败"@, e@)),
        },
{
    match outcome {
        Ok(_) => {
            let mut message = "仓库 ".to_owned();
            message.append(name);
            message.append(" 已从 Lore Server 永久删除。");
            admin_redirect("message", message.as_str())
        },
        Err(e) => admin_lore_redirect("Lore Server 删除仓库失败", e.as_str()),
    }
}

impl AuthService {
    pub fn deletion_start_at(&mut self, cookies: Option<&str>, csrf_token: &str, now: i64) -> (r:
        Result<ServerCall, Reply>)
        ensures
            (final(self)@, deletion_outcome(r)) == deletion_start(
                old(self)@,
                cookies.deep_view(),
                csrf_token@,
                now,
            ),
    {
        let actor = match self.admission_to_form(cookies, csrf_token, now) {
            Ok((_, actor)) => actor,
            Err(reply) => {
                return Err(reply);
            },
        };
        let endpoint = match &self.lore_grpc_url {
            Some(endpoint) => endpoint.clone(),
            None => {
                return Err(
                    admin_redirect(
                        "error",
                        "尚未配置 LORE_AUTH_LORE_GRPC_URL，不能删除仓库。",
                    ),
                );
            },
        };
        match self.tokens.issue_at(&actor, None, "authentication", now as u64) {
            Ok((token, _)) => Ok(ServerCall { endpoint, token }),
            Err(_) => Err(admin_redirect("error", "无法签发管理令牌。")),
        }
    }

    /// Where to ask for a repository to be deleted, at the present time.
    pub fn deletion_start(&mut self, cookies: Option<&str>, csrf_token: &str) -> (r: Result<
        ServerCall,
        Reply,
    >)
        ensures
            exists|now: i64|
                0 <= now <= clock::CLOCK_LIMIT && (final(self)@, deletion_outcome(r))
                    == #[trigger] deletion_start(
                    old(self)@,
                    cookies.deep_view(),
                    csrf_token@,
                    now,
                ),
    {
        let now = clock::now();
        self.deletion_start_at(cookies, csrf_token, now)
    }
}

} // verus!
