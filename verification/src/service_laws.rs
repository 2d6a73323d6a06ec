//! What holds of logins, sessions and tokens, whatever the order of the calls.

use vstd::prelude::*;

use crate::api;
use crate::clock;
use crate::db;
use crate::db::{by_id, by_name, first_user, DatabaseView, UserRowView, UserView};
use crate::db_laws;
use crate::keys;
use crate::keys::{ClaimsView, ResourceClaimView};
use crate::rows;
use crate::service;
use crate::service::{
    AdminSessionView, AuthServiceView, Code, LoginFailure, PendingSessionView, StatusView,
    UserTokenView, ADMIN_SESSION_SECONDS, MAX_LOGIN_ATTEMPTS, MAX_PENDING_SESSIONS,
};
use crate::text;
use crate::text::Text;

verus! {

// ---------------------------------------------------------------------------
// The administrator on the web
// ---------------------------------------------------------------------------

/// Only the administrator that the service was set up with can log in on the web, and
/// only while enabled.
pub proof fn only_the_chief_administrator_logs_in(
    s: AuthServiceView,
    user: UserView,
    token: Text,
    csrf_token: Text,
    now: i64,
)
    ensures
        service::with_admin_session(s, user, token, csrf_token, now).1 is Some
            <==> user.is_admin && !user.disabled && text::same_name(
            user.username,
            s.bootstrap_username,
        ),
        service::with_admin_session(s, user, token, csrf_token, now).1 is None
            ==> service::with_admin_session(s, user, token, csrf_token, now).0 == s,
{
}

/// A session on the web serves nobody but the administrator that the service was set
/// up with, as the tables show that user now.
pub proof fn admin_sessions_serve_the_chief_administrator(
    s: AuthServiceView,
    token: Text,
    now: i64,
)
    ensures
        service::admin_session_found(s, token, now).1 matches Some((session, user)) ==> {
            &&& s.admin_sessions.contains_key(token)
            &&& session == s.admin_sessions[token]
            &&& session.expires_at >= now
            &&& first_user(s.db.users, by_id(session.user_id)) == Some(user)
            &&& user.is_admin
            &&& !user.disabled
            &&& text::same_name(user.username, s.bootstrap_username)
        },
{
}

/// A session on the web lasts eight hours, or until it is removed.
pub proof fn admin_sessions_last_eight_hours(
    s: AuthServiceView,
    user: UserView,
    token: Text,
    csrf_token: Text,
    now: i64,
    later: i64,
)
    requires
        now <= i64::MAX - ADMIN_SESSION_SECONDS,
        first_user(s.db.users, by_id(user.id)) == Some(user),
        service::is_chief(s, user),
    ensures
        ({
            let (next, session) = service::with_admin_session(s, user, token, csrf_token, now);
            let (last, found) = service::admin_session_found(next, token, later);
            &&& session is Some
            &&& session->0.csrf_token == csrf_token
            &&& later <= now + ADMIN_SESSION_SECONDS ==> found == Some((session->0, user)) && last
                == next
            &&& later > now + ADMIN_SESSION_SECONDS ==> found is None
                && !last.admin_sessions.contains_key(token)
            &&& service::admin_session_found(
                AuthServiceView { admin_sessions: next.admin_sessions.remove(token), ..next },
                token,
                later,
            ).1 is None
        }),
{
}

// ---------------------------------------------------------------------------
// Logins of Lore clients
// ---------------------------------------------------------------------------

/// A login that was started, completed and fetched in time gives the client a token of
/// the user who logged in. It gives it once.
pub proof fn completed_logins_are_fetched_once(
    s: AuthServiceView,
    client_state: Text,
    session_code: Text,
    username: Text,
    password: Text,
    started: i64,
    completed: i64,
    fetched: i64,
    again: i64,
)
    requires
        i64::MIN <= started + (s.session_ttl_seconds as i64) <= i64::MAX,
        api::session_started(s, client_state, session_code, started).1 is Ok,
        service::login_completed(
            api::session_started(s, client_state, session_code, started).0,
            session_code,
            client_state,
            username,
            password,
            completed,
        ).1 is Ok,
        fetched <= started + (s.session_ttl_seconds as i64),
    ensures
        ({
            let open = api::session_started(s, client_state, session_code, started).0;
            let (done, user) = service::login_completed(
                open,
                session_code,
                client_state,
                username,
                password,
                completed,
            );
            let (closed, token) = api::session_fetched(done, session_code, client_state, fetched);
            let issued = keys::issued(
                s.tokens,
                user->Ok_0,
                None,
                "authentication"@,
                completed as u64,
            );
            &&& db::authenticated(s.db, username, password) == (Ok::<Option<UserView>, Text>(
                Some(user->Ok_0),
            ))
            &&& issued is Ok
            &&& token == (Ok::<Option<UserTokenView>, StatusView>(
                Some(service::user_token(user->Ok_0, issued->Ok_0.0, issued->Ok_0.1)),
            ))
            &&& api::session_fetched(closed, session_code, client_state, again) == (
                closed,
                Err::<Option<UserTokenView>, StatusView>(
                    StatusView { code: Code::NotFound, message: "auth session not found"@ },
                ),
            )
        }),
{
}

/// Before the login is completed there is nothing to fetch, and the session stays.
pub proof fn open_logins_have_no_token(
    s: AuthServiceView,
    client_state: Text,
    session_code: Text,
    started: i64,
    fetched: i64,
)
    requires
        i64::MIN <= started + (s.session_ttl_seconds as i64) <= i64::MAX,
        api::session_started(s, client_state, session_code, started).1 is Ok,
        fetched <= started + (s.session_ttl_seconds as i64),
    ensures
        ({
            let open = api::session_started(s, client_state, session_code, started).0;
            api::session_fetched(open, session_code, client_state, fetched) == (
                open,
                Ok::<Option<UserTokenView>, StatusView>(None),
            )
        }),
{
}

/// Who does not know the state of the client gets no token, completes no login, and
/// changes nothing.
pub proof fn the_client_state_guards_a_session(
    s: AuthServiceView,
    session_code: Text,
    client_state: Text,
    username: Text,
    password: Text,
    now: i64,
)
    requires
        s.sessions.contains_key(session_code) ==> s.sessions[session_code].client_state
            != client_state,
    ensures
        api::session_fetched(s, session_code, client_state, now).1 is Err,
        api::session_fetched(s, session_code, client_state, now).0 == s,
        service::login_completed(s, session_code, client_state, username, password, now) == (
            s,
            Err::<UserView, LoginFailure>(LoginFailure::Expired),
        ),
{
}

/// The service after the same wrong password has been given `n` times.
pub open spec fn after_attempts(
    s: AuthServiceView,
    session_code: Text,
    client_state: Text,
    username: Text,
    password: Text,
    now: i64,
    n: nat,
) -> AuthServiceView
    decreases n,
{
    if n == 0 {
        s
    } else {
        service::login_completed(
            after_attempts(
                s,
                session_code,
                client_state,
                username,
                password,
                now,
                (n - 1) as nat,
            ),
            session_code,
            client_state,
            username,
            password,
            now,
        ).0
    }
}

/// A new session survives four wrong passwords, and ends with the fifth.
pub proof fn five_wrong_passwords_end_a_session(
    s: AuthServiceView,
    session_code: Text,
    client_state: Text,
    username: Text,
    password: Text,
    now: i64,
    n: nat,
)
    requires
        s.sessions.contains_key(session_code),
        s.sessions[session_code].client_state == client_state,
        s.sessions[session_code].expires_at >= now,
        s.sessions[session_code].failed_attempts == 0,
        db::authenticated(s.db, username, password) == (Ok::<Option<UserView>, Text>(None)),
    ensures
        ({
            let after = after_attempts(
                s,
                session_code,
                client_state,
                username,
                password,
                now,
                n,
            );
            &&& after.db == s.db
            &&& after.sessions.contains_key(session_code) <==> n < MAX_LOGIN_ATTEMPTS
            &&& n < MAX_LOGIN_ATTEMPTS ==> after.sessions[session_code] == (PendingSessionView {
                failed_attempts: n as u8,
                ..s.sessions[session_code]
            })
            &&& n >= MAX_LOGIN_ATTEMPTS ==> service::login_completed(
                after,
                session_code,
                client_state,
                username,
                password,
                now,
            ).1 == (Err::<UserView, LoginFailure>(LoginFailure::Expired))
        }),
    decreases n,
{
    if n > 0 {
        five_wrong_passwords_end_a_session(
            s,
            session_code,
            client_state,
            username,
            password,
            now,
            (n - 1) as nat,
        );
    }
}

/// There are never more pending sessions than the limit: starting one keeps to it, and
/// completing and fetching add none.
pub proof fn pending_sessions_are_limited(
    s: AuthServiceView,
    client_state: Text,
    session_code: Text,
    username: Text,
    password: Text,
    now: i64,
)
    requires
        s.sessions.dom().finite(),
        s.sessions.len() <= MAX_PENDING_SESSIONS,
    ensures
        api::session_started(s, client_state, session_code, now).0.sessions.dom().finite(),
        api::session_started(s, client_state, session_code, now).0.sessions.len()
            <= MAX_PENDING_SESSIONS,
        service::login_completed(
            s,
            session_code,
            client_state,
            username,
            password,
            now,
        ).0.sessions.dom().finite(),
        service::login_completed(
            s,
            session_code,
            client_state,
            username,
            password,
            now,
        ).0.sessions.len() <= MAX_PENDING_SESSIONS,
        api::session_fetched(s, session_code, client_state, now).0.sessions.dom().finite(),
        api::session_fetched(s, session_code, client_state, now).0.sessions.len()
            <= MAX_PENDING_SESSIONS,
{
    let alive = api::unexpired(s.sessions, now);
    assert(alive.dom() =~= s.sessions.dom().intersect(alive.dom()));
    vstd::set_lib::lemma_len_intersect(s.sessions.dom(), alive.dom());
    vstd::set_lib::lemma_len_subset(alive.dom(), s.sessions.dom());
    if s.sessions.contains_key(session_code) {
        let any = s.sessions[session_code];
        assert(s.sessions.insert(session_code, any).dom() =~= s.sessions.dom());
        assert forall|v: PendingSessionView|
            (#[trigger] s.sessions.insert(session_code, v)).dom() == s.sessions.dom() by {
            assert(s.sessions.insert(session_code, v).dom() =~= s.sessions.dom());
        }
        vstd::set_lib::lemma_len_subset(
            s.sessions.remove(session_code).dom(),
            s.sessions.dom(),
        );
    }
}

// ---------------------------------------------------------------------------
// Who acts
// ---------------------------------------------------------------------------

/// Who acts is a user of the tables, not disabled, and the one that the claims name.
pub proof fn actors_are_enabled_users(db: DatabaseView, claims: Option<ClaimsView>)
    ensures
        api::actor(db, claims) matches Ok(user) ==> {
            &&& claims is Some
            &&& first_user(db.users, by_id(claims->0.user_id)) == Some(user)
            &&& user.id == claims->0.user_id
            &&& !user.disabled
        },
{
    if api::actor(db, claims) is Ok {
        rows::lemma_first_where(db.users, by_id(claims->0.user_id));
    }
}

/// A user who has been disabled cannot act any more, whatever tokens the user holds.
pub proof fn disabled_users_cannot_act(db: DatabaseView, username: Text, claims: ClaimsView)
    requires
        db.well_formed(),
        db::with_disabled(db, username, true).1 is Ok,
        claims.user_id == first_user(db.users, by_name(username))->0.id,
    ensures
        api::actor(db::with_disabled(db, username, true).0, Some(claims)) == (Err::<
            UserView,
            StatusView,
        >(
            StatusView {
                code: Code::Unauthenticated,
                message: "user is disabled or no longer exists"@,
            },
        )),
{
    let id = claims.user_id;
    let g = |r: UserRowView|
        if by_name(username)(r) {
            UserRowView { user: UserView { disabled: true, ..r.user }, ..r }
        } else {
            r
        };
    rows::lemma_first_where(db.users, by_name(username));
    rows::lemma_first_where(db.users, by_id(id));
    db_laws::users_are_found_by_name_and_identifier(db, username);
    rows::lemma_first_where_map(db.users, by_id(id), g);
    assert(db::with_disabled(db, username, true).0.users =~= db.users.map_values(g));
}

/// The login on the web and the login of a Lore client are apart: neither opens a session
/// of the other kind, nor changes the tables.
pub proof fn the_two_logins_are_apart(
    s: AuthServiceView,
    user: UserView,
    token: Text,
    csrf_token: Text,
    session_code: Text,
    client_state: Text,
    username: Text,
    password: Text,
    now: i64,
)
    ensures
        ({
            let on_the_web = service::with_admin_session(s, user, token, csrf_token, now).0;
            let started = api::session_started(s, client_state, session_code, now).0;
            let completed = service::login_completed(
                s,
                session_code,
                client_state,
                username,
                password,
                now,
            ).0;
            let fetched = api::session_fetched(s, session_code, client_state, now).0;
            &&& on_the_web.sessions == s.sessions && on_the_web.db == s.db
            &&& started.admin_sessions == s.admin_sessions && started.db == s.db
            &&& completed.admin_sessions == s.admin_sessions && completed.db == s.db
            &&& fetched.admin_sessions == s.admin_sessions && fetched.db == s.db
        }),
{
}

// ---------------------------------------------------------------------------
// Tokens for resources
// ---------------------------------------------------------------------------

/// What a user may do with some resources is what the tables permit on each.
proof fn lemma_permissions_on(db: DatabaseView, user_id: Text, resource_ids: Seq<Text>)
    requires
        api::permissions_on(db, user_id, resource_ids) is Ok,
    ensures
        ({
            let all = api::permissions_on(db, user_id, resource_ids)->Ok_0;
            &&& all.len() == resource_ids.len()
            &&& forall|i: int|
                0 <= i < all.len() ==> (#[trigger] all[i]).resource_id == resource_ids[i]
                    && db::permitted(db, user_id, resource_ids[i]) == (Ok::<Seq<Text>, Text>(
                    all[i].permission,
                ))
        }),
    decreases resource_ids.len(),
{
    if resource_ids.len() > 0 {
        lemma_permissions_on(db, user_id, resource_ids.drop_last());
    }
}

/// A token that a user gets for some resources names only resources that were asked
/// for, each with exactly what the tables permit the user, which is never nothing.
pub proof fn tokens_name_only_what_is_permitted(
    s: AuthServiceView,
    user: UserView,
    resource_ids: Seq<Text>,
    now: u64,
)
    requires
        api::exchanged(s, resource_ids, now)(user) is Ok,
    ensures
        ({
            let all = api::permissions_on(s.db, user.id, resource_ids)->Ok_0;
            let allowed = all.filter(api::something_allowed());
            &&& keys::issued(s.tokens, user, Some(allowed), "authorization"@, now) matches Ok(
                (token, expires),
            ) && api::exchanged(s, resource_ids, now)(user) == (Ok::<UserTokenView, StatusView>(
                service::user_token(user, token, expires),
            ))
            &&& forall|i: int|
                0 <= i < allowed.len() ==> {
                    &&& resource_ids.contains((#[trigger] allowed[i]).resource_id)
                    &&& db::permitted(s.db, user.id, allowed[i].resource_id) == (Ok::<
                        Seq<Text>,
                        Text,
                    >(allowed[i].permission))
                    &&& allowed[i].permission.len() > 0
                }
        }),
{
    let all = api::permissions_on(s.db, user.id, resource_ids)->Ok_0;
    let p = api::something_allowed();
    let allowed = all.filter(p);
    lemma_permissions_on(s.db, user.id, resource_ids);
    assert forall|i: int| 0 <= i < allowed.len() implies {
        &&& resource_ids.contains((#[trigger] allowed[i]).resource_id)
        &&& db::permitted(s.db, user.id, allowed[i].resource_id) == (Ok::<Seq<Text>, Text>(
            allowed[i].permission,
        ))
        &&& allowed[i].permission.len() > 0
    } by {
        all.lemma_filter_pred(p, i);
        all.lemma_filter_contains_rev(p, allowed[i]);
        let k = choose|k: int| 0 <= k < all.len() && all[k] == allowed[i];
        assert(all[k].resource_id == resource_ids[k]);
    }
}

/// The token of a login lets the user act, until a minute after it expired and no longer,
/// as long as the user is in the tables and enabled.
pub proof fn tokens_of_logins_act(
    s: AuthServiceView,
    user: UserView,
    issue_time: u64,
    now: u64,
    read: Result<ClaimsView, Text>,
)
    requires
        keys::issued(s.tokens, user, None, "authentication"@, issue_time) is Ok,
        keys::verified_at(
            s.tokens,
            keys::issued(s.tokens, user, None, "authentication"@, issue_time)->Ok_0.0,
            now,
            read,
        ),
        first_user(s.db.users, by_id(user.id)) == Some(user),
        !user.disabled,
    ensures
        api::actor(s.db, keys::claims_found(read)) == if now <= keys::expiry(
            issue_time,
            s.tokens.ttl_seconds,
        ) + 60 {
            Ok::<UserView, StatusView>(user)
        } else {
            Err::<UserView, StatusView>(
                StatusView {
                    code: Code::Unauthenticated,
                    message: "invalid or expired token"@,
                },
            )
        },
{
    keys::issued_tokens_verify(
        s.tokens,
        user,
        None,
        "authentication"@,
        issue_time,
        now,
        read,
    );
}

/// A token that was exchanged reads back as the user's, with every resource that was asked
/// for and with which the user may do something, and with what the tables permit.
pub proof fn exchanged_tokens_read_back(
    s: AuthServiceView,
    user: UserView,
    resource_ids: Seq<Text>,
    issue_time: u64,
    now: u64,
    read: Result<ClaimsView, Text>,
)
    requires
        api::exchanged(s, resource_ids, issue_time)(user) is Ok,
        keys::verified_at(
            s.tokens,
            api::exchanged(s, resource_ids, issue_time)(user)->Ok_0.user_token,
            now,
            read,
        ),
        now <= keys::expiry(issue_time, s.tokens.ttl_seconds) + 60,
    ensures
        read is Ok,
        read->Ok_0.user_id == user.id,
        read->Ok_0.token_use == "authorization"@,
        read->Ok_0.resources is Some,
        forall|i: int|
            0 <= i < resource_ids.len() && db::permitted(
                s.db,
                user.id,
                #[trigger] resource_ids[i],
            )->Ok_0.len() > 0 ==> read->Ok_0.resources->0.contains(
                ResourceClaimView {
                    resource_id: resource_ids[i],
                    permission: db::permitted(s.db, user.id, resource_ids[i])->Ok_0,
                },
            ),
        forall|k: int|
            0 <= k < read->Ok_0.resources->0.len() ==> {
                let c = #[trigger] read->Ok_0.resources->0[k];
                resource_ids.contains(c.resource_id) && db::permitted(
                    s.db,
                    user.id,
                    c.resource_id,
                ) == (Ok::<Seq<Text>, Text>(c.permission))
            },
{
    let all = api::permissions_on(s.db, user.id, resource_ids)->Ok_0;
    let p = api::something_allowed();
    let allowed = all.filter(p);
    tokens_name_only_what_is_permitted(s, user, resource_ids, issue_time);
    lemma_permissions_on(s.db, user.id, resource_ids);
    keys::issued_tokens_verify(
        s.tokens,
        user,
        Some(allowed),
        "authorization"@,
        issue_time,
        now,
        read,
    );
    assert forall|i: int|
        0 <= i < resource_ids.len() && db::permitted(
            s.db,
            user.id,
            #[trigger] resource_ids[i],
        )->Ok_0.len() > 0 implies read->Ok_0.resources->0.contains(
        ResourceClaimView {
            resource_id: resource_ids[i],
            permission: db::permitted(s.db, user.id, resource_ids[i])->Ok_0,
        },
    ) by {
        assert(p(all[i]));
        all.lemma_filter_contains(p, i);
    }
}

/// Every resource that is asked about is either allowed or denied, with what the tables
/// permit.
pub proof fn every_resource_is_allowed_or_denied(
    s: AuthServiceView,
    user: UserView,
    resource_ids: Seq<Text>,
    i: int,
)
    requires
        api::checked(s, resource_ids)(user) is Ok,
        0 <= i < resource_ids.len(),
    ensures
        ({
            let answer = api::checked(s, resource_ids)(user)->Ok_0;
            let permitted = db::permitted(s.db, user.id, resource_ids[i])->Ok_0;
            let item = ResourceClaimView { resource_id: resource_ids[i], permission: permitted };
            if permitted.len() > 0 {
                answer.allowed.contains(item)
            } else {
                answer.denied.contains(item)
            }
        }),
{
    lemma_permissions_on(s.db, user.id, resource_ids);
    let all = api::permissions_on(s.db, user.id, resource_ids)->Ok_0;
    if api::something_allowed()(all[i]) {
        all.lemma_filter_contains(api::something_allowed(), i);
    } else {
        all.lemma_filter_contains(api::nothing_allowed(), i);
    }
}

/// Only administrators record repositories, and only administrators and users with a
/// permission to that end have them forgotten; who may not changes nothing.
pub proof fn repositories_are_changed_by_permission_only(
    s: AuthServiceView,
    user: UserView,
    resource_id: Text,
    name: Text,
    now: i64,
)
    ensures
        !user.is_admin ==> api::resource_created(s, user, resource_id, name, now) == (
            s,
            Err::<(), StatusView>(
                StatusView {
                    code: Code::PermissionDenied,
                    message: "repository creation is not allowed"@,
                },
            ),
        ),
        !user.is_admin && (db::permitted(s.db, user.id, resource_id) matches Ok(list)
            && !api::allows_deletion(list)) ==> api::resource_deleted(s, user, resource_id) == (
            s,
            Err::<(), StatusView>(
                StatusView {
                    code: Code::PermissionDenied,
                    message: "repository deletion is not allowed"@,
                },
            ),
        ),
        api::resource_created(s, user, resource_id, name, now).1 is Err ==> api::resource_created(
            s,
            user,
            resource_id,
            name,
            now,
        ).0 == s,
        api::resource_deleted(s, user, resource_id).1 is Err ==> api::resource_deleted(
            s,
            user,
            resource_id,
        ).0 == s,
{
}

/// What an outcome of `acts` says of the token: who acts is named by a payload that the
/// service has signed, for its own audience.
pub proof fn only_signed_tokens_act(s: AuthServiceView, token: Text, user: UserView)
    requires
        api::acts(s, token, Ok::<UserView, StatusView>(user)),
    ensures
        !user.disabled,
        keys::has_token_form(token),
        keys::decoded_payload(token, s.tokens.public_pem, None) matches Ok(j) && keys::claims_in(
            j,
        ) matches Some(c) && c.user_id == user.id && c.issuer == s.tokens.issuer
            && c.audience.contains(s.tokens.audience),
{
    let (now, read) = choose|now: u64, read: Result<ClaimsView, Text>|
        now <= clock::CLOCK_LIMIT && #[trigger] keys::verified_at(s.tokens, token, now, read)
            && Ok::<UserView, StatusView>(user) == api::actor(s.db, keys::claims_found(read));
    actors_are_enabled_users(s.db, keys::claims_found(read));
}

/// Recording and forgetting repositories keeps the constraints of the tables.
pub proof fn resource_changes_keep_the_tables_well_formed(
    s: AuthServiceView,
    user: UserView,
    resource_id: Text,
    name: Text,
    now: i64,
)
    requires
        s.db.well_formed(),
    ensures
        api::resource_created(s, user, resource_id, name, now).0.db.well_formed(),
        s.db.referenced() ==> api::resource_created(s, user, resource_id, name, now).0.db.referenced(),
        api::resource_deleted(s, user, resource_id).0.db.well_formed(),
        s.db.referenced() ==> api::resource_deleted(s, user, resource_id).0.db.referenced(),
{
    db_laws::creating_a_repository_keeps_the_tables_well_formed(
        s.db,
        user.id,
        resource_id,
        name,
        now,
    );
    db_laws::deleting_a_repository_keeps_the_tables_well_formed(s.db, resource_id);
}

} // verus!
