//! Pages in HTML, and the texts on them.

use vstd::prelude::*;
use vstd::string::*;

use crate::lore_admin;
use crate::text;
use crate::text::Text;

verus! {

// ---------------------------------------------------------------------------
// Escaping
// ---------------------------------------------------------------------------

/// A character as it stands in HTML.
pub open spec fn escaped_char(c: char) -> Text {
    if c == '&' {
        "&amp;"@
    } else if c == '<' {
        "&lt;"@
    } else if c == '>' {
        "&gt;"@
    } else if c == '"' {
        "&quot;"@
    } else if c == '\'' {
        "&#39;"@
    } else {
        seq![c]
    }
}

/// A text as it stands in HTML, between tags or in an attribute.
pub open spec fn escaped(s: Text) -> Text
    decreases s.len(),
{
    if s.len() == 0 {
        Seq::empty()
    } else {
        escaped(s.drop_last()) + escaped_char(s.last())
    }
}

pub fn escape(value: &str) -> (r: String)
    ensures
        r@ == escaped(value@),
{
    let v = text::chars_of(value);
    let mut r = String::new();
    let mut i: usize = 0;
    assert(r@ =~= escaped(v@.take(0)));
    while i < v.len()
        invariant
            i <= v@.len(),
            r@ == escaped(v@.take(i as int)),
        decreases v@.len() - i,
    {
        let c = v[i];
        let ghost before = r@;
        proof {
            assert(v@.take(i + 1).drop_last() =~= v@.take(i as int));
            assert(v@.take(i + 1).last() == c);
        }
        if c == '&' {
            r.append("&amp;");
        } else if c == '<' {
            r.append("&lt;");
        } else if c == '>' {
            r.append("&gt;");
        } else if c == '"' {
            r.append("&quot;");
        } else if c == '\'' {
            r.append("&#39;");
        } else {
            r.push(c);
            assert(before.push(c) =~= before + seq![c]);
        }
        i = i + 1;
    }
    assert(v@.take(i as int) =~= v@);
    r
}

/// Whether a text can stand in HTML without ending an attribute or beginning a tag.
pub open spec fn is_inert(s: Text) -> bool {
    forall|i: int|
        0 <= i < s.len() ==> (#[trigger] s[i]) != '<' && s[i] != '>' && s[i] != '"' && s[i] != '\''
}

/// An escaped text neither ends an attribute nor begins a tag.
pub proof fn escaped_texts_are_inert(s: Text)
    ensures
        is_inert(escaped(s)),
    decreases s.len(),
{
    if s.len() > 0 {
        escaped_texts_are_inert(s.drop_last());
        reveal_strlit("&amp;");
        reveal_strlit("&lt;");
        reveal_strlit("&gt;");
        reveal_strlit("&quot;");
        reveal_strlit("&#39;");
        let head = escaped(s.drop_last());
        let tail = escaped_char(s.last());
        assert(is_inert(tail));
        assert forall|i: int| 0 <= i < escaped(s).len() implies (#[trigger] escaped(s)[i]) != '<'
            && escaped(s)[i] != '>' && escaped(s)[i] != '"' && escaped(s)[i] != '\'' by {
            if i < head.len() {
                assert(escaped(s)[i] == head[i]);
            } else {
                assert(escaped(s)[i] == tail[i - head.len()]);
            }
        }
    }
}

// ---------------------------------------------------------------------------
// Pages
// ---------------------------------------------------------------------------

/// The beginning of a page, up to its title.
pub const PAGE_HEAD: &'static str = r#"<!doctype html><html lang="zh-CN"><head><meta charset="utf-8"><meta name="viewport" content="width=device-width,initial-scale=1"><title>"#;

/// The style of a small page, from the end of the title to the heading.
pub const PAGE_STYLE: &'static str = r#"</title><style>
        :root{color-scheme:dark}body{font:16px system-ui;background:#111827;color:#e5e7eb;display:grid;place-items:center;min-height:100vh;margin:0}main{width:min(420px,calc(100% - 40px));background:#1f2937;padding:32px;border-radius:14px;box-shadow:0 18px 50px #0008}h1{margin-top:0}label{display:grid;gap:7px;margin:18px 0}input{font:inherit;padding:11px;border:1px solid #4b5563;border-radius:7px;background:#111827;color:#fff}button{font:inherit;font-weight:700;padding:11px 18px;border:0;border-radius:7px;background:#2563eb;color:#fff;cursor:pointer}.error{color:#fca5a5}a{color:#93c5fd}
        </style></head><body><main><h1>"#;

/// The end of a page.
pub const PAGE_END: &'static str = "</main></body></html>";

/// The style of a wide page, from the end of the title to the content.
pub const WIDE_PAGE_STYLE: &'static str = "</title><style>:root{color-scheme:dark}*{box-sizing:border-box}body{font:15px system-ui;background:#0b1120;color:#e5e7eb;margin:0}main{width:min(1280px,calc(100% - 32px));margin:28px auto;background:#111827;border:1px solid #293548;border-radius:14px;padding:22px}a{color:#93c5fd}code{color:#bfdbfe}table{width:100%;border-collapse:collapse}th,td{text-align:left;padding:12px 10px;border-bottom:1px solid #293548;vertical-align:top}th{color:#94a3b8}.muted{color:#94a3b8;font-size:13px}@media(max-width:800px){table,thead,tbody,tr,th,td{display:block}thead{display:none}tr{padding:12px 0;border-bottom:1px solid #334155}td{border:0;padding:6px 0}}</style></head><body><main>";

/// The form with which users of Lore clients log in.
pub const LOGIN_FORM_START: &'static str = r#"
            <form method="post" action="/login">
              <input type="hidden" name="session_code" value=""#;

pub const LOGIN_FORM_STATE: &'static str = r#"">
              <input type="hidden" name="client_state" value=""#;

pub const LOGIN_FORM_END: &'static str = r#"">
              <label>用户名<input name="username" autocomplete="username" required autofocus maxlength="64"></label>
              <label>密码<input type="password" name="password" autocomplete="current-password" required maxlength="1024"></label>
              <button type="submit">登录</button>
            </form>"#;

/// The form with which the administrator logs in.
pub const ADMIN_LOGIN_FORM: &'static str = r#"<p>请使用 .env 中配置的终极管理员账号登录。</p><form method="post" action="/admin/login"><label>用户名<input name="username" autocomplete="username" required autofocus maxlength="64"></label><label>密码<input type="password" name="password" autocomplete="current-password" required maxlength="1024"></label><button type="submit">登录</button></form>"#;

/// A small page with a heading.
pub open spec fn page_html(title: Text, body: Text) -> Text {
    PAGE_HEAD@ + escaped(title) + PAGE_STYLE@ + escaped(title) + "</h1>"@ + body + PAGE_END@
}

pub fn page(title: &str, body: &str) -> (r: String)
    ensures
        r@ == page_html(title@, body@),
{
    let mut r = PAGE_HEAD.to_owned();
    r.append(escape(title).as_str());
    r.append(PAGE_STYLE);
    r.append(escape(title).as_str());
    r.append("</h1>");
    r.append(body);
    r.append(PAGE_END);
    r
}

/// A wide page.
pub open spec fn admin_page_html(title: Text, content: Text) -> Text {
    PAGE_HEAD@ + escaped(title) + WIDE_PAGE_STYLE@ + content + PAGE_END@
}

pub fn admin_page(title: &str, content: &str) -> (r: String)
    ensures
        r@ == admin_page_html(title@, content@),
{
    let mut r = PAGE_HEAD.to_owned();
    r.append(escape(title).as_str());
    r.append(WIDE_PAGE_STYLE);
    r.append(content);
    r.append(PAGE_END);
    r
}

/// A paragraph with an error, where there is one.
pub open spec fn error_paragraph(error: Option<Text>) -> Text {
    match error {
        Some(message) => r#"<p class="error">"#@ + escaped(message) + "</p>"@,
        None => Seq::empty(),
    }
}

fn write_error(error: Option<&str>) -> (r: String)
    ensures
        r@ == error_paragraph(error.deep_view()),
{
    match error {
        Some(message) => {
            let mut r = r#"<p class="error">"#.to_owned();
            r.append(escape(message).as_str());
            r.append("</p>");
            r
        },
        None => {
            let r = String::new();
            assert(r@ =~= Seq::empty());
            r
        },
    }
}

/// The page on which a user of a Lore client logs in.
pub open spec fn login_form_html(
    session_code: Text,
    client_state: Text,
    error: Option<Text>,
) -> Text {
    page_html(
        "登录 Lore"@,
        error_paragraph(error) + LOGIN_FORM_START@ + escaped(session_code) + LOGIN_FORM_STATE@
            + escaped(client_state) + LOGIN_FORM_END@,
    )
}

pub fn login_form(session_code: &str, client_state: &str, error: Option<&str>) -> (r: String)
    ensures
        r@ == login_form_html(session_code@, client_state@, error.deep_view()),
{
    let mut body = write_error(error);
    body.append(LOGIN_FORM_START);
    body.append(escape(session_code).as_str());
    body.append(LOGIN_FORM_STATE);
    body.append(escape(client_state).as_str());
    body.append(LOGIN_FORM_END);
    page("登录 Lore", body.as_str())
}

/// The page on which the administrator logs in.
pub open spec fn admin_login_html(error: Option<Text>) -> Text {
    page_html("Lore 认证管理后台"@, error_paragraph(error) + ADMIN_LOGIN_FORM@)
}

pub fn admin_login_form(error: Option<&str>) -> (r: String)
    ensures
        r@ == admin_login_html(error.deep_view()),
{
    let mut body = write_error(error);
    body.append(ADMIN_LOGIN_FORM);
    page("Lore 认证管理后台", body.as_str())
}

/// The page that says why an operation of the administrator failed.
pub open spec fn admin_error_html(message: Text) -> Text {
    page_html(
        "管理操作失败"@,
        r#"<p class="error">"#@ + escaped(message)
            + r#"</p><p><a href="/admin">返回管理后台</a></p>"#@,
    )
}

pub fn admin_error_page(message: &str) -> (r: String)
    ensures
        r@ == admin_error_html(message@),
{
    let mut body = r#"<p class="error">"#.to_owned();
    body.append(escape(message).as_str());
    body.append(r#"</p><p><a href="/admin">返回管理后台</a></p>"#);
    page("管理操作失败", body.as_str())
}

// ---------------------------------------------------------------------------
// Labels
// ---------------------------------------------------------------------------

/// The name of a permission on a page.
pub open spec fn label_of(permission: Text) -> Text {
    if permission == "*"@ {
        "完全权限"@
    } else if permission == "read"@ {
        "读取"@
    } else if permission == "write"@ {
        "写入"@
    } else if permission == "owner"@ {
        "所有者"@
    } else if permission == "admin"@ {
        "管理"@
    } else if permission == "obliterate"@ {
        "彻底删除"@
    } else if permission == "migrate"@ {
        "迁移"@
    } else {
        escaped(permission)
    }
}

fn write_label(permission: &str) -> (r: String)
    ensures
        r@ == label_of(permission@),
{
    if text::same_text(permission, "*") {
        "完全权限".to_owned()
    } else if text::same_text(permission, "read") {
        "读取".to_owned()
    } else if text::same_text(permission, "write") {
        "写入".to_owned()
    } else if text::same_text(permission, "owner") {
        "所有者".to_owned()
    } else if text::same_text(permission, "admin") {
        "管理".to_owned()
    } else if text::same_text(permission, "obliterate") {
        "彻底删除".to_owned()
    } else if text::same_text(permission, "migrate") {
        "迁移".to_owned()
    } else {
        escape(permission)
    }
}

/// The names of permissions on a page.
pub open spec fn labels_of(permissions: Seq<Text>) -> Text {
    text::joined(permissions.map_values(|p: Text| label_of(p)), "、"@)
}

pub fn permission_label(permissions: &Vec<String>) -> (r: String)
    ensures
        r@ == labels_of(permissions.deep_view()),
{
    let ghost wanted = permissions.deep_view().map_values(|p: Text| label_of(p));
    let mut labels: Vec<String> = Vec::new();
    let mut i: usize = 0;
    assert(labels.deep_view() =~= wanted.take(0));
    while i < permissions.len()
        invariant
            i <= permissions@.len(),
            wanted == permissions.deep_view().map_values(|p: Text| label_of(p)),
            labels.deep_view() == wanted.take(i as int),
        decreases permissions@.len() - i,
    {
        let ghost before = labels.deep_view();
        labels.push(write_label(permissions[i].as_str()));
        assert(labels.deep_view() =~= before.push(wanted[i as int]));
        assert(wanted.take(i + 1) =~= wanted.take(i as int).push(wanted[i as int]));
        i = i + 1;
    }
    assert(wanted.take(i as int) =~= wanted);
    text::join(&labels, "、")
}

/// The first eight bytes in hexadecimal.
pub open spec fn short_hex_of(bytes: Seq<u8>) -> Text {
    lore_admin::hex(lore_admin::at_most(bytes, 8))
}

pub fn short_hex(bytes: &Vec<u8>) -> (r: String)
    ensures
        r@ == short_hex_of(bytes@),
{
    let mut first: Vec<u8> = Vec::new();
    let mut i: usize = 0;
    while i < bytes.len() && i < 8
        invariant
            i <= bytes@.len(),
            i <= 8,
            first@ == bytes@.take(i as int),
        decreases bytes@.len() - i,
    {
        first.push(bytes[i]);
        assert(bytes@.take(i + 1) =~= bytes@.take(i as int).push(bytes@[i as int]));
        i = i + 1;
    }
    assert(first@ =~= lore_admin::at_most(bytes@, 8));
    lore_admin::encode_hex(first.as_slice())
}

/// The seconds since 1970 that `chrono` can hold: the years -262143 to 262142.
pub open spec fn is_datable(seconds: i64) -> bool {
    -8_334_601_228_800 <= seconds <= 8_210_266_876_799
}

pub open spec fn is_digit(c: char) -> bool {
    '0' <= c <= '9'
}

/// Whether a text has the form of a time: a year, which may have a sign, and two digits
/// each for the month, the day, the hour, the minute and the second.
pub open spec fn has_time_form(s: Text) -> bool {
    let n = s.len() - 15;
    &&& n >= 4
    &&& is_digit(s[0]) || s[0] == '+' || s[0] == '-'
    &&& forall|i: int| 1 <= i < n ==> is_digit(#[trigger] s[i])
    &&& forall|i: int|
        n <= i < s.len() ==> if i == n || i == n + 3 {
            #[trigger] s[i] == '-'
        } else if i == n + 6 {
            s[i] == ' '
        } else if i == n + 9 || i == n + 12 {
            s[i] == ':'
        } else {
            is_digit(s[i])
        }
}

/// How a time is written on a page, in the notation of `chrono`.
pub const TIME_FORMAT: &'static str = "%Y-%m-%d %H:%M:%S";

/// The distances from UTC, in seconds, that a zone can have.
pub open spec fn is_offset(offset: i32) -> bool {
    -86_400 < offset < 86_400
}

/// The text that `chrono` gives for the seconds since 1970 in a zone so many seconds east
/// of UTC, by a format, where there is such a zone and such a time.
pub uninterp spec fn time_text(seconds: i64, offset: i32, format: Text) -> Option<Text>;

/// Calls `chrono::DateTime::from_timestamp` and asks `chrono::Local` how far east of UTC
/// the zone of the machine is at that time. There is an answer for the seconds that
/// `chrono` can hold, and it is less than a day. Which it is depends on the machine.
#[verifier::external_body]
fn zone_offset(seconds: i64) -> (r: Option<i32>)
    ensures
        r is Some <==> is_datable(seconds),
        r matches Some(offset) ==> is_offset(offset),
{
    chrono::DateTime::from_timestamp(seconds, 0)
        .map(|t| t.with_timezone(&chrono::Local).offset().local_minus_utc())
}

/// Calls `chrono::DateTime::from_timestamp`, and formats the time in the zone that
/// `chrono::FixedOffset::east_opt` gives. There is a text for the seconds that `chrono`
/// can hold, in a zone less than a day from UTC, and it has the form that was asked for.
#[verifier::external_body]
fn time_at(seconds: i64, offset: i32, format: &str) -> (r: Option<String>)
    requires
        format@ == TIME_FORMAT@,
    ensures
        r.deep_view() == time_text(seconds, offset, format@),
        (r is Some) == (is_datable(seconds) && is_offset(offset)),
        r matches Some(s) ==> has_time_form(s@),
{
    let zone = chrono::FixedOffset::east_opt(offset)?;
    let time = chrono::DateTime::from_timestamp(seconds, 0)?;
    Some(time.with_timezone(&zone).format(format).to_string())
}

/// A time as a page shows it, in a zone so many seconds east of UTC.
pub open spec fn shown_time(timestamp: u64, offset: i32) -> Text {
    if timestamp == 0 {
        "未知"@
    } else {
        match time_text(timestamp as i64, offset, TIME_FORMAT@) {
            Some(s) => s,
            None => "无效时间"@,
        }
    }
}

/// Whether a text is a time as a page shows it, in some zone.
pub open spec fn is_time_text(timestamp: u64, s: Text) -> bool {
    exists|offset: i32| is_offset(offset) && s == #[trigger] shown_time(timestamp, offset)
}

/// A time in a zone so many seconds east of UTC.
pub fn format_timestamp_at(timestamp: u64, offset: i32) -> (r: String)
    ensures
        r@ == shown_time(timestamp, offset),
        timestamp != 0 && is_datable(timestamp as i64) && is_offset(offset) ==> has_time_form(r@),
        timestamp != 0 && !is_datable(timestamp as i64) ==> r@ == "无效时间"@,
{
    if timestamp == 0 {
        return "未知".to_owned();
    }
    match time_at(timestamp as i64, offset, TIME_FORMAT) {
        Some(s) => s,
        None => "无效时间".to_owned(),
    }
}

/// A time in the zone of the machine.
pub fn format_timestamp(timestamp: u64) -> (r: String)
    ensures
        is_time_text(timestamp, r@),
        timestamp != 0 && is_datable(timestamp as i64) ==> has_time_form(r@),
        timestamp != 0 && !is_datable(timestamp as i64) ==> r@ == "无效时间"@,
{
    let offset = match zone_offset(timestamp as i64) {
        Some(offset) => offset,
        None => 0,
    };
    format_timestamp_at(timestamp, offset)
}

} // verus!
