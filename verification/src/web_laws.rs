//! What holds of the console, whatever is sent to it.

use vstd::prelude::*;

use crate::db;
use crate::db::{by_name, first_user, users_apart, UserRowView, UserView};
use crate::db_laws;
use crate::ids;
use crate::lore_admin::LiveRepositoryView;
use crate::rows;
use crate::rows::first_where;
use crate::service;
use crate::service::{AuthServiceView, ADMIN_SESSION_SECONDS};
use crate::text;
use crate::text::Text;
use crate::web;
use crate::web::ReplyView;

verus! {

/// Whoever is admitted to a form is the chief administrator, has a session that has not
/// expired, and has sent its secret.
pub proof fn forms_need_a_session_and_its_secret(
    s: AuthServiceView,
    cookies: Option<Text>,
    csrf_token: Text,
    now: i64,
)
    ensures
        web::admitted(s, cookies, csrf_token, now).1 matches Ok((token, user)) ==> {
            &&& web::cookie_value(cookies, "lore_auth_admin"@) == Some(token)
            &&& s.admin_sessions.contains_key(token)
            &&& s.admin_sessions[token].expires_at >= now
            &&& csrf_token.len() > 0
            &&& csrf_token == s.admin_sessions[token].csrf_token
            &&& service::is_chief(s, user)
        },
{
}

/// A form that somebody else sends does nothing, whatever it asks for: at most an
/// expired session is dropped.
pub proof fn forms_of_others_do_nothing(
    s: AuthServiceView,
    cookies: Option<Text>,
    csrf_token: Text,
    now: i64,
    act: spec_fn(AuthServiceView, Text) -> (AuthServiceView, ReplyView),
)
    requires
        web::admitted(s, cookies, csrf_token, now).1 is Err,
    ensures
        ({
            let (next, reply) = web::on_form(
                web::admitted(s, cookies, csrf_token, now),
                act,
            );
            &&& next.db == s.db
            &&& next.sessions == s.sessions
            &&& next.admin_sessions.submap_of(s.admin_sessions)
            &&& reply == web::login_reply(None) || reply == web::error_reply(
                403,
                "安全校验失败，请刷新页面后重试。 "@,
            )
        }),
{
}

/// The console neither deletes nor disables the chief administrator, and does not take
/// away the grant on all resources.
pub proof fn the_chief_administrator_is_protected(
    s: AuthServiceView,
    token: Text,
    username: Text,
    disabled: bool,
)
    requires
        text::same_name(username, s.bootstrap_username),
    ensures
        web::user_deletion(username)(s, token) == (
            s,
            web::back("error"@, "终极管理员不能被删除。 "@),
        ),
        web::user_switch(username, disabled)(s, token) == (
            s,
            web::back("error"@, "终极管理员不能被禁用。 "@),
        ),
        web::grant_revocation(username, db::every_resource())(s, token) == (
            s,
            web::back("error"@, "不能撤销终极管理员的全局权限。 "@),
        ),
{
}

/// What the console does to other users leaves the chief administrator as it is.
pub proof fn other_users_do_not_touch_the_chief_administrator(
    s: AuthServiceView,
    token: Text,
    username: Text,
    disabled: bool,
)
    requires
        s.db.well_formed(),
    ensures
        ({
            let chief = first_user(s.db.users, by_name(s.bootstrap_username));
            let deleted = web::user_deletion(username)(s, token).0;
            let switched = web::user_switch(username, disabled)(s, token).0;
            &&& first_user(deleted.db.users, by_name(s.bootstrap_username)) == chief
            &&& first_user(switched.db.users, by_name(s.bootstrap_username)) == chief
        }),
{
    let users = s.db.users;
    let p = by_name(s.bootstrap_username);
    if !text::same_name(username, s.bootstrap_username) {
        let g = |r: UserRowView|
            if by_name(username)(r) {
                UserRowView { user: UserView { disabled, ..r.user }, ..r }
            } else {
                r
            };
        rows::lemma_first_where_map(users, p, g);
        rows::lemma_first_where(users, p);
        if db::with_disabled(s.db, username, disabled).1 is Ok {
            assert(db::with_disabled(s.db, username, disabled).0.users =~= users.map_values(g));
        }
        if db::without_user(s.db, username, s.bootstrap_username).1 is Ok {
            let user = first_user(users, by_name(username))->0;
            let heir = first_user(users, p)->0;
            let others = |r: UserRowView| r.user.id != user.id;
            let row = first_where(users, p)->0;
            let k = choose|k: int| 0 <= k < users.len() && users[k] == row;
            assert forall|i: int| 0 <= i < users.len() && p(#[trigger] users[i]) implies others(
                users[i],
            ) by {
                if i < k {
                    assert(users_apart()(users[i], users[k]));
                }
                if k < i {
                    assert(users_apart()(users[k], users[i]));
                }
            }
            rows::lemma_first_where_filter(users, p, others);
        }
    }
}

/// A repository is deleted only when its name has been repeated.
pub proof fn deletions_are_confirmed_by_name(
    listing: Result<Seq<LiveRepositoryView>, Text>,
    resource_id: Text,
    confirmation: Text,
)
    ensures
        web::deletion_target_of(listing, resource_id, confirmation) matches Ok(repository) ==> {
            &&& confirmation == repository.name
            &&& repository.resource_id == resource_id
            &&& listing is Ok
            &&& listing->Ok_0.contains(repository)
        },
{
    if web::deletion_target_of(listing, resource_id, confirmation) is Ok {
        let all = listing->Ok_0;
        let i = choose|i: int| web::is_place(all, resource_id, i);
        assert(all.contains(all[i]));
    }
}

/// A text without the separator is one piece.
proof fn lemma_one_piece(s: Text, separator: char)
    requires
        forall|i: int| 0 <= i < s.len() ==> #[trigger] s[i] != separator,
    ensures
        text::pieces(s, separator) == seq![s],
    decreases s.len(),
{
    if s.len() > 0 {
        let init = s.drop_last();
        assert forall|i: int| 0 <= i < init.len() implies #[trigger] init[i] != separator by {
            assert(s[i] == init[i]);
        }
        lemma_one_piece(init, separator);
        assert(s[s.len() - 1] != separator);
        assert(init.push(s.last()) =~= s);
        assert(text::pieces(s, separator) =~= seq![s]);
    } else {
        assert(s =~= Seq::<char>::empty());
    }
}

/// The cookie that a login sets names its token to the console.
pub proof fn the_session_cookie_is_found(token: Text)
    requires
        ids::is_uuid_text(token),
    ensures
        web::cookie_value(Some("lore_auth_admin="@ + token), "lore_auth_admin"@) == Some(token),
{
    reveal_strlit("lore_auth_admin=");
    reveal_strlit("lore_auth_admin");
    reveal_strlit("=");
    let prefix = "lore_auth_admin"@ + "="@;
    assert(prefix =~= "lore_auth_admin="@);
    let s = "lore_auth_admin="@ + token;
    assert forall|i: int| 0 <= i < s.len() implies #[trigger] s[i] != ';' by {
        if i < prefix.len() {
            assert(s[i] == prefix[i]);
        } else {
            assert(s[i] == token[i - prefix.len()]);
        }
    }
    lemma_one_piece(s, ';');
    assert(s[0] == 'l');
    assert(s.last() == token[35]);
    assert(text::trimmed_start(s) == s);
    assert(text::trimmed_end(s) == s);
    assert(prefix.is_prefix_of(s));
    assert(s.skip(prefix.len() as int) =~= token);
    let items = text::pieces(s, ';');
    assert(items[0] == s);
}

/// The administrator who has logged in opens the console with the cookie of the login,
/// until eight hours have passed or the administrator logs out.
pub proof fn logins_open_the_console(
    s: AuthServiceView,
    user: UserView,
    username: Text,
    password: Text,
    token: Text,
    csrf_token: Text,
    now: i64,
    later: i64,
)
    requires
        now <= i64::MAX - ADMIN_SESSION_SECONDS,
        ids::is_uuid_text(token),
        s.db.well_formed(),
        db::authenticated(s.db, username, password) == (Ok::<Option<UserView>, Text>(Some(user))),
        service::is_chief(s, user),
    ensures
        ({
            let cookies = Some("lore_auth_admin="@ + token);
            let (next, reply) = web::admin_logged_in(
                s,
                username,
                password,
                token,
                csrf_token,
                now,
            );
            &&& reply == (ReplyView::Redirect {
                location: "/admin"@,
                set_cookie: Some(web::session_cookie(token)),
            })
            &&& later <= now + ADMIN_SESSION_SECONDS && csrf_token.len() > 0 ==> web::admitted(
                next,
                cookies,
                csrf_token,
                later,
            ).1 == (Ok::<(Text, UserView), ReplyView>((token, user)))
            &&& later > now + ADMIN_SESSION_SECONDS ==> web::admin_actor_found(
                next,
                cookies,
                later,
            ).1 is None
            &&& web::admin_actor_found(web::logout()(next, token).0, cookies, later).1 is None
        }),
{
    the_session_cookie_is_found(token);
    db_laws::users_are_found_by_name_and_identifier(s.db, username);
}

/// Whoever is not the chief administrator does not log in to the console, and no cookie
/// is set.
pub proof fn only_the_chief_administrator_opens_the_console(
    s: AuthServiceView,
    username: Text,
    password: Text,
    token: Text,
    csrf_token: Text,
    now: i64,
)
    ensures
        ({
            let (next, reply) = web::admin_logged_in(
                s,
                username,
                password,
                token,
                csrf_token,
                now,
            );
            reply is Redirect || next != s ==> (db::authenticated(s.db, username, password)
                matches Ok(Some(user)) && service::is_chief(s, user))
        }),
{
}

/// No form of the console breaks the constraints of the tables.
pub proof fn forms_keep_the_tables_well_formed(
    s: AuthServiceView,
    token: Text,
    username: Text,
    display_name: Text,
    password: Text,
    salt: Text,
    id: Text,
    now: i64,
    disabled: bool,
    resource_id: Text,
    level: Text,
)
    requires
        s.db.well_formed(),
    ensures
        web::logout()(s, token).0.db.well_formed(),
        s.db.referenced() ==> web::logout()(s, token).0.db.referenced(),
        web::user_creation(username, display_name, password, salt, id, now)(
            s,
            token,
        ).0.db.well_formed(),
        s.db.referenced() ==> web::user_creation(username, display_name, password, salt, id, now)(
            s,
            token,
        ).0.db.referenced(),
        web::user_deletion(username)(s, token).0.db.well_formed(),
        s.db.referenced() ==> web::user_deletion(username)(s, token).0.db.referenced(),
        web::user_switch(username, disabled)(s, token).0.db.well_formed(),
        s.db.referenced() ==> web::user_switch(username, disabled)(s, token).0.db.referenced(),
        web::password_change(username, password, salt)(s, token).0.db.well_formed(),
        s.db.referenced() ==> web::password_change(username, password, salt)(s, token).0.db.referenced(),
        web::grant_change(username, resource_id, level)(s, token).0.db.well_formed(),
        s.db.referenced() ==> web::grant_change(username, resource_id, level)(s, token).0.db.referenced(),
        web::grant_revocation(username, resource_id)(s, token).0.db.well_formed(),
        s.db.referenced() ==> web::grant_revocation(username, resource_id)(s, token).0.db.referenced(),
{
    db_laws::creating_a_user_keeps_the_tables_well_formed(
        s.db,
        username,
        display_name,
        password,
        false,
        salt,
        id,
        now,
    );
    db_laws::deleting_a_user_keeps_the_tables_well_formed(s.db, username, s.bootstrap_username);
    db_laws::disabling_a_user_keeps_the_tables_well_formed(s.db, username, disabled);
    db_laws::setting_a_password_keeps_the_tables_well_formed(s.db, username, password, salt);
    if let Some(permissions) = web::permissions_of_level(level) {
        db_laws::granting_keeps_the_tables_well_formed(s.db, username, resource_id, permissions);
    }
    db_laws::revoking_keeps_the_tables_well_formed(s.db, username, resource_id);
}

} // verus!
