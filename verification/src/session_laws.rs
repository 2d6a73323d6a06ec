//! What each step of a login does to the sessions of the service.

use vstd::prelude::*;
use vstd::utf8::*;

use crate::api;
use crate::api::StartedSessionView;
use crate::db;
use crate::db::UserView;
use crate::keys;
use crate::service;
use crate::service::{
    AdminSessionView, AuthServiceView, Code, LoginFailure, PendingSessionView, StatusView,
    UserTokenView,
};
use crate::table_laws;
use crate::text;
use crate::text::Text;
use crate::urls;

verus! {

/// Whether two states of the service differ at most in the logins of Lore clients.
pub open spec fn same_but_logins(a: AuthServiceView, b: AuthServiceView) -> bool {
    &&& a.db == b.db
    &&& a.tokens == b.tokens
    &&& a.public_base_url == b.public_base_url
    &&& a.session_ttl_seconds == b.session_ttl_seconds
    &&& a.bootstrap_username == b.bootstrap_username
    &&& a.lore_grpc_url == b.lore_grpc_url
    &&& a.admin_sessions == b.admin_sessions
}

/// Whether two states of the service differ at most in the logins on the web.
pub open spec fn same_but_admins(a: AuthServiceView, b: AuthServiceView) -> bool {
    &&& a.db == b.db
    &&& a.tokens == b.tokens
    &&& a.public_base_url == b.public_base_url
    &&& a.session_ttl_seconds == b.session_ttl_seconds
    &&& a.bootstrap_username == b.bootstrap_username
    &&& a.lore_grpc_url == b.lore_grpc_url
    &&& a.sessions == b.sessions
}

/// Whether the sessions under other codes than this one are the same.
pub open spec fn same_elsewhere(
    a: Map<Text, PendingSessionView>,
    b: Map<Text, PendingSessionView>,
    code: Text,
) -> bool {
    forall|c: Text|
        c != code ==> {
            &&& #[trigger] a.contains_key(c) <==> b.contains_key(c)
            &&& b.contains_key(c) ==> a[c] == b[c]
        }
}

/// Starting a login keeps every other session that has not expired, as it is, and drops
/// those that have. The new session is open, for this client, and has its time. A login is
/// started unless the state of the client is blank or too long, or ten thousand sessions
/// are still open.
pub proof fn starting_a_login_keeps_the_others(
    s: AuthServiceView,
    client_state: Text,
    session_code: Text,
    now: i64,
)
    requires
        i64::MIN <= now + (s.session_ttl_seconds as i64) <= i64::MAX,
    ensures
        ({
            let (next, r) = api::session_started(s, client_state, session_code, now);
            let improper = text::trimmed(client_state).len() == 0 || encode_utf8(client_state).len()
                > 256;
            let alive = |c: Text| s.sessions.contains_key(c) && s.sessions[c].expires_at >= now;
            &&& same_but_logins(next, s)
            &&& improper ==> next.sessions == s.sessions && r == (Err::<
                StartedSessionView,
                StatusView,
            >(StatusView { code: Code::InvalidArgument, message: "invalid client_state"@ }))
            &&& !improper ==> {
                &&& r is Ok <==> Set::new(alive).len() < 10_000
                &&& r is Err ==> r == (Err::<StartedSessionView, StatusView>(
                    StatusView {
                        code: Code::ResourceExhausted,
                        message: "too many pending login sessions"@,
                    },
                ))
                &&& forall|c: Text|
                    c != session_code || r is Err ==> {
                        &&& #[trigger] next.sessions.contains_key(c) <==> alive(c)
                        &&& alive(c) ==> next.sessions[c] == s.sessions[c]
                    }
            }
            &&& r matches Ok(started) ==> {
                &&& started.session_code == session_code
                &&& started.login_url == s.public_base_url + "/login?session_code="@
                    + urls::percent_encoded(session_code) + "&client_state="@
                    + urls::percent_encoded(client_state)
                &&& next.sessions.contains_key(session_code)
                &&& next.sessions[session_code].client_state == client_state
                &&& next.sessions[session_code].user_token is None
                &&& next.sessions[session_code].expires_at == now + (s.session_ttl_seconds as i64)
                &&& next.sessions[session_code].failed_attempts == 0
            }
        }),
{
    let alive = |c: Text| s.sessions.contains_key(c) && s.sessions[c].expires_at >= now;
    let kept = api::unexpired(s.sessions, now);
    assert forall|c: Text| #[trigger] kept.contains_key(c) <==> alive(c) by {}
    assert(kept.dom() =~= Set::new(alive));
}

/// Whatever logins are started in between, a session that has not expired by then is
/// fetched as if none had been.
pub proof fn logins_do_not_disturb_each_other(
    s: AuthServiceView,
    client_state: Text,
    session_code: Text,
    now: i64,
    other_state: Text,
    other_code: Text,
    started: i64,
)
    requires
        i64::MIN <= started + (s.session_ttl_seconds as i64) <= i64::MAX,
        other_code != session_code,
        s.sessions.contains_key(session_code),
        s.sessions[session_code].expires_at >= started,
    ensures
        api::session_fetched(
            api::session_started(s, other_state, other_code, started).0,
            session_code,
            client_state,
            now,
        ).1 == api::session_fetched(s, session_code, client_state, now).1,
{
    starting_a_login_keeps_the_others(s, other_state, other_code, started);
    let next = api::session_started(s, other_state, other_code, started).0;
    assert(next.sessions.contains_key(session_code));
    assert(next.sessions[session_code] == s.sessions[session_code]);
}

/// Completing a login touches the session under its code only.
///
/// It fails as expired where there is no such session, the state of the client is another,
/// or the time is over. A wrong password is counted, and the fifth ends the session. The
/// right one puts a token of the user into the session, and changes nothing else in it.
pub proof fn completing_a_login_fills_one_session(
    s: AuthServiceView,
    session_code: Text,
    client_state: Text,
    username: Text,
    password: Text,
    now: i64,
)
    ensures
        ({
            let (next, r) = service::login_completed(
                s,
                session_code,
                client_state,
                username,
                password,
                now,
            );
            let before = s.sessions[session_code];
            let after = next.sessions[session_code];
            let open = s.sessions.contains_key(session_code) && before.client_state == client_state
                && before.expires_at >= now;
            let who = db::authenticated(s.db, username, password);
            &&& same_but_logins(next, s)
            &&& same_elsewhere(next.sessions, s.sessions, session_code)
            &&& !open ==> next.sessions == s.sessions && r == (Err::<UserView, LoginFailure>(
                LoginFailure::Expired,
            ))
            &&& open && who is Err ==> next.sessions == s.sessions && r == (Err::<
                UserView,
                LoginFailure,
            >(LoginFailure::Internal))
            &&& open && who == (Ok::<Option<UserView>, Text>(None)) ==> {
                &&& r == (Err::<UserView, LoginFailure>(LoginFailure::InvalidCredentials))
                &&& next.sessions.contains_key(session_code) <==> before.failed_attempts < 4
                &&& before.failed_attempts < 4 ==> {
                    &&& after.failed_attempts == before.failed_attempts + 1
                    &&& after.client_state == before.client_state
                    &&& after.expires_at == before.expires_at
                    &&& after.user_token == before.user_token
                }
            }
            &&& open ==> (who matches Ok(Some(user)) ==> match keys::issued(
                s.tokens,
                user,
                None,
                "authentication"@,
                now as u64,
            ) {
                Err(_) => next.sessions == s.sessions && r == (Err::<UserView, LoginFailure>(
                    LoginFailure::Internal,
                )),
                Ok((token, expires)) => {
                    &&& r == (Ok::<UserView, LoginFailure>(user))
                    &&& next.sessions.contains_key(session_code)
                    &&& after.client_state == before.client_state
                    &&& after.expires_at == before.expires_at
                    &&& after.failed_attempts == before.failed_attempts
                    &&& after.user_token == Some(
                        UserTokenView {
                            user_token: token,
                            expires_at: expires as i64,
                            user_id: user.id,
                            user_name: user.display_name,
                        },
                    )
                },
            })
        }),
{
}

/// Fetching a login gives the token in its session and ends it, gives nothing while there
/// is no token yet, and touches no other session.
pub proof fn fetching_a_login_ends_one_session(
    s: AuthServiceView,
    session_code: Text,
    client_state: Text,
    now: i64,
)
    ensures
        ({
            let (next, r) = api::session_fetched(s, session_code, client_state, now);
            let there = s.sessions.contains_key(session_code);
            let session = s.sessions[session_code];
            let refused = |code: Code, message: Text|
                r == (Err::<Option<UserTokenView>, StatusView>(StatusView { code, message }));
            let mine = there && session.client_state == client_state;
            let alive = mine && session.expires_at >= now;
            &&& same_but_logins(next, s)
            &&& same_elsewhere(next.sessions, s.sessions, session_code)
            &&& !there ==> refused(Code::NotFound, "auth session not found"@)
            &&& there && !mine ==> refused(Code::PermissionDenied, "client_state mismatch"@)
            &&& mine && !alive ==> refused(Code::NotFound, "auth session expired"@)
            &&& alive ==> r == (Ok::<Option<UserTokenView>, StatusView>(session.user_token))
            &&& next.sessions.contains_key(session_code) <==> there && !(mine && !alive) && !(alive
                && session.user_token is Some)
            &&& next.sessions.contains_key(session_code) ==> next.sessions[session_code] == session
        }),
{
}

/// A login on the web opens a session for eight hours, for the administrator that the
/// service was set up with and nobody else, and keeps the others that have not expired.
pub proof fn a_login_on_the_web_opens_one_session(
    s: AuthServiceView,
    user: UserView,
    token: Text,
    csrf_token: Text,
    now: i64,
)
    requires
        now <= i64::MAX - 28_800,
    ensures
        ({
            let (next, r) = service::with_admin_session(s, user, token, csrf_token, now);
            let chief = user.is_admin && !user.disabled && text::same_name(
                user.username,
                s.bootstrap_username,
            );
            let alive = |t: Text|
                s.admin_sessions.contains_key(t) && s.admin_sessions[t].expires_at >= now;
            &&& same_but_admins(next, s)
            &&& r is Some <==> chief
            &&& !chief ==> next.admin_sessions == s.admin_sessions
            &&& r matches Some(session) ==> {
                &&& session.user_id == user.id
                &&& session.csrf_token == csrf_token
                &&& session.expires_at == now + 28_800
                &&& next.admin_sessions.contains_key(token)
                &&& next.admin_sessions[token] == session
                &&& forall|t: Text|
                    t != token ==> {
                        &&& #[trigger] next.admin_sessions.contains_key(t) <==> alive(t)
                        &&& alive(t) ==> next.admin_sessions[t] == s.admin_sessions[t]
                    }
            }
        }),
{
}

/// A session on the web is found with its token until it expires, if its user is in the
/// tables and still the enabled administrator that the service was set up with. Looking
/// drops it if it has expired, and changes nothing else.
pub proof fn sessions_on_the_web_are_found(s: AuthServiceView, token: Text, now: i64, k: int)
    requires
        s.db.well_formed(),
        s.admin_sessions.contains_key(token),
        0 <= k < s.db.users.len(),
        s.db.users[k].user.id == s.admin_sessions[token].user_id,
    ensures
        ({
            let (next, r) = service::admin_session_found(s, token, now);
            let (session, user) = (s.admin_sessions[token], s.db.users[k].user);
            let chief = user.is_admin && !user.disabled && text::same_name(
                user.username,
                s.bootstrap_username,
            );
            &&& same_but_admins(next, s)
            &&& r == if session.expires_at >= now && chief {
                Some((session, user))
            } else {
                None
            }
            &&& next.admin_sessions.contains_key(token) <==> session.expires_at >= now
            &&& forall|t: Text|
                (t != token || session.expires_at >= now) ==> {
                    &&& #[trigger] next.admin_sessions.contains_key(t)
                        <==> s.admin_sessions.contains_key(t)
                    &&& s.admin_sessions.contains_key(t) ==> next.admin_sessions[t]
                        == s.admin_sessions[t]
                }
        }),
{
    table_laws::users_are_found_by_their_rows(
        s.db,
        Seq::empty(),
        s.admin_sessions[token].user_id,
        k,
    );
}

/// Without a session there is nobody, and without its user neither.
pub proof fn nobody_is_behind_other_tokens(s: AuthServiceView, token: Text, now: i64)
    ensures
        !s.admin_sessions.contains_key(token) ==> service::admin_session_found(s, token, now) == (
            s,
            None::<(AdminSessionView, UserView)>,
        ),
        s.admin_sessions.contains_key(token) && !table_laws::is_known(
            s.db,
            s.admin_sessions[token].user_id,
        ) ==> service::admin_session_found(s, token, now).1 is None,
{
    if s.admin_sessions.contains_key(token) {
        table_laws::lemma_taken(s.db, Seq::empty(), s.admin_sessions[token].user_id);
    }
}

} // verus!
