//! What the service answers to its gRPC callers: the login of Lore clients, tokens for
//! repositories, and what users may do with them.

use vstd::prelude::*;
use vstd::string::*;
use vstd::utf8::*;

use crate::clock;
use crate::db;
use crate::db::{by_id, by_name, first_user, DatabaseView, User, UserView};
use crate::ids;
use crate::keys;
use crate::keys::{Claims, ClaimsView, ResourceClaim, ResourceClaimView, TokenError};
use crate::service;
use crate::service::{
    answer, internal_error, AuthService, AuthServiceView, Code, PendingSession,
    PendingSessionView, ResourcePermission, Status, StatusView, UserInfo, UserInfoView, UserToken,
    UserTokenView, MAX_PENDING_SESSIONS,
};
use crate::text;
use crate::text::Text;
use crate::text_map;
use crate::urls;

verus! {

// ---------------------------------------------------------------------------
// Login sessions
// ---------------------------------------------------------------------------

/// A started login: its code, and the page on which the user logs in.
#[derive(Debug)]
pub struct StartedSession {
    pub session_code: String,
    pub login_url: String,
}

#[verifier::ext_equal]
pub struct StartedSessionView {
    pub session_code: Text,
    pub login_url: Text,
}

impl View for StartedSession {
    type V = StartedSessionView;

    open spec fn view(&self) -> StartedSessionView {
        StartedSessionView { session_code: self.session_code@, login_url: self.login_url@ }
    }
}

impl DeepView for StartedSession {
    type V = StartedSessionView;

    open spec fn deep_view(&self) -> StartedSessionView {
        self@
    }
}

/// The sessions that have not expired.
pub open spec fn unexpired(sessions: Map<Text, PendingSessionView>, now: i64) -> Map<
    Text,
    PendingSessionView,
> {
    text_map::kept(sessions, |v: PendingSessionView| v.expires_at >= now)
}

pub open spec fn login_url(base: Text, session_code: Text, client_state: Text) -> Text {
    base + "/login?session_code="@ + urls::percent_encoded(session_code) + "&client_state="@
        + urls::percent_encoded(client_state)
}

/// Starting a login under a code. Sessions that have expired are dropped.
pub open spec fn session_started(
    s: AuthServiceView,
    client_state: Text,
    session_code: Text,
    now: i64,
) -> (AuthServiceView, Result<StartedSessionView, StatusView>) {
    if text::trimmed(client_state).len() == 0 || encode_utf8(client_state).len() > 256 {
        (
            s,
            Err(StatusView { code: Code::InvalidArgument, message: "invalid client_state"@ }),
        )
    } else {
        let alive = unexpired(s.sessions, now);
        if alive.len() >= MAX_PENDING_SESSIONS {
            (
                AuthServiceView { sessions: alive, ..s },
                Err(
                    StatusView {
                        code: Code::ResourceExhausted,
                        message: "too many pending login sessions"@,
                    },
                ),
            )
        } else {
            (
                AuthServiceView {
                    sessions: alive.insert(
                        session_code,
                        PendingSessionView {
                            client_state,
                            user_token: None,
                            expires_at: (now + (s.session_ttl_seconds as i64)) as i64,
                            failed_attempts: 0,
                        },
                    ),
                    ..s
                },
                Ok(
                    StartedSessionView {
                        session_code,
                        login_url: login_url(s.public_base_url, session_code, client_state),
                    },
                ),
            )
        }
    }
}

/// Fetching the token of a login. A session ends when it is fetched with a token, or
/// has expired.
pub open spec fn session_fetched(
    s: AuthServiceView,
    session_code: Text,
    client_state: Text,
    now: i64,
) -> (AuthServiceView, Result<Option<UserTokenView>, StatusView>) {
    if !s.sessions.contains_key(session_code) {
        (s, Err(StatusView { code: Code::NotFound, message: "auth session not found"@ }))
    } else {
        let session = s.sessions[session_code];
        let closed = AuthServiceView { sessions: s.sessions.remove(session_code), ..s };
        if session.client_state != client_state {
            (
                s,
                Err(StatusView { code: Code::PermissionDenied, message: "client_state mismatch"@ }),
            )
        } else if session.expires_at < now {
            (closed, Err(StatusView { code: Code::NotFound, message: "auth session expired"@ }))
        } else if session.user_token is Some {
            (closed, Ok(session.user_token))
        } else {
            (s, Ok(None))
        }
    }
}

impl AuthService {
    pub fn health_check(&self) -> (r: String)
        ensures
            r@ == "ok"@,
    {
        "ok".to_owned()
    }

    /// Starts a login under the given code at the time `now`.
    pub fn start_auth_session_with(
        &mut self,
        client_state: &str,
        session_code: String,
        now: i64,
    ) -> (r: Result<StartedSession, Status>)
        requires
            i64::MIN <= now + (old(self).session_ttl_seconds as i64) <= i64::MAX,
        ensures
            (final(self)@, answer(r)) == session_started(
                old(self)@,
                client_state@,
                session_code@,
                now,
            ),
    {
        if text::trim(client_state).as_str().is_empty() || client_state.as_bytes().len() > 256 {
            return Err(service::status(Code::InvalidArgument, "invalid client_state"));
        }
        let expires_at = now + self.session_ttl_seconds as i64;
        self.sessions.retain(
            |v: &PendingSession| -> (b: bool)
                ensures
                    b == (v@.expires_at >= now)
                { v.expires_at >= now },
            Ghost(|v: PendingSessionView| v.expires_at >= now),
        );
        if self.sessions.len() >= MAX_PENDING_SESSIONS {
            return Err(
                service::status(Code::ResourceExhausted, "too many pending login sessions"),
            );
        }
        let mut login_url = self.public_base_url.clone();
        login_url.append("/login?session_code=");
        login_url.append(urls::percent_encode(session_code.as_str()).as_str());
        login_url.append("&client_state=");
        login_url.append(urls::percent_encode(client_state).as_str());
        self.sessions.insert(
            session_code.clone(),
            PendingSession {
                client_state: client_state.to_owned(),
                user_token: None,
                expires_at,
                failed_attempts: 0,
            },
        );
        Ok(StartedSession { session_code, login_url })
    }

    /// Starts a login under a new code at the present time.
    pub fn start_auth_session(&mut self, client_state: &str) -> (r: Result<StartedSession, Status>)
        requires
            (old(self).session_ttl_seconds as i64) <= i64::MAX - clock::CLOCK_LIMIT,
        ensures
            exists|session_code: Text, now: i64|
                ids::is_uuid_text(session_code) && 0 <= now <= clock::CLOCK_LIMIT && (
                final(self)@, answer(r)) == #[trigger] session_started(
                    old(self)@,
                    client_state@,
                    session_code,
                    now,
                ),
    {
        let session_code = ids::fresh_id();
        let now = clock::now();
        self.start_auth_session_with(client_state, session_code, now)
    }

    /// Fetches the token of a login at the time `now`.
    pub fn get_auth_session_at(&mut self, session_code: &str, client_state: &str, now: i64) -> (r:
        Result<Option<UserToken>, Status>)
        ensures
            (final(self)@, answer(r)) == session_fetched(
                old(self)@,
                session_code@,
                client_state@,
                now,
            ),
    {
        let token = match self.sessions.get(session_code) {
            Some(session) => {
                if !text::same_text(session.client_state.as_str(), client_state) {
                    return Err(service::status(Code::PermissionDenied, "client_state mismatch"));
                }
                if session.expires_at < now {
                    None
                } else {
                    match &session.user_token {
                        Some(token) => Some(token.clone()),
                        None => {
                            return Ok(None);
                        },
                    }
                }
            },
            None => {
                return Err(service::status(Code::NotFound, "auth session not found"));
            },
        };
        self.sessions.remove(session_code);
        match token {
            Some(token) => Ok(Some(token)),
            None => Err(service::status(Code::NotFound, "auth session expired")),
        }
    }

    /// Fetches the token of a login at the present time.
    pub fn get_auth_session(&mut self, session_code: &str, client_state: &str) -> (r: Result<
        Option<UserToken>,
        Status,
    >)
        ensures
            exists|now: i64|
                0 <= now <= clock::CLOCK_LIMIT && (final(self)@, answer(r))
                    == #[trigger] session_fetched(old(self)@, session_code@, client_state@, now),
    {
        let now = clock::now();
        self.get_auth_session_at(session_code, client_state, now)
    }
}

// ---------------------------------------------------------------------------
// Who acts
// ---------------------------------------------------------------------------

/// The token in the authorization header of a request.
pub open spec fn bearer_token(authorization: Option<Text>) -> Result<Text, StatusView> {
    match authorization {
        None => Err(
            StatusView { code: Code::Unauthenticated, message: "authorization header required"@ },
        ),
        Some(raw) => match text::after_prefix(raw, "Bearer "@) {
            None => Err(
                StatusView { code: Code::Unauthenticated, message: "Bearer token required"@ },
            ),
            Some(token) => Ok(token),
        },
    }
}

pub fn bearer(authorization: Option<&str>) -> (r: Result<String, Status>)
    ensures
        answer(r) == bearer_token(authorization.deep_view()),
{
    match authorization {
        Some(raw) => match text::strip_prefix(raw, "Bearer ") {
            Some(token) => Ok(token),
            None => Err(service::status(Code::Unauthenticated, "Bearer token required")),
        },
        None => Err(service::status(Code::Unauthenticated, "authorization header required")),
    }
}

/// The user for whom a token with these claims acts.
pub open spec fn actor(db: DatabaseView, claims: Option<ClaimsView>) -> Result<
    UserView,
    StatusView,
> {
    match claims {
        None => Err(
            StatusView { code: Code::Unauthenticated, message: "invalid or expired token"@ },
        ),
        Some(c) => match first_user(db.users, by_id(c.user_id)) {
            Some(user) if !user.disabled => Ok(user),
            _ => Err(
                StatusView {
                    code: Code::Unauthenticated,
                    message: "user is disabled or no longer exists"@,
                },
            ),
        },
    }
}

/// Whether `r` is who acts with a token, or why nobody does, for some time at which the
/// token is read.
pub open spec fn acts(s: AuthServiceView, token: Text, r: Result<UserView, StatusView>) -> bool {
    exists|now: u64, read: Result<ClaimsView, Text>|
        now <= clock::CLOCK_LIMIT && #[trigger] keys::verified_at(s.tokens, token, now, read) && r
            == actor(s.db, keys::claims_found(read))
}

/// Whether `r` is who acts with an authorization header.
pub open spec fn acts_by_header(
    s: AuthServiceView,
    authorization: Option<Text>,
    r: Result<UserView, StatusView>,
) -> bool {
    match bearer_token(authorization) {
        Err(e) => r == Err::<UserView, StatusView>(e),
        Ok(token) => acts(s, token, r),
    }
}

/// Whether `r` is who acts with a token in the request, or else with the header.
pub open spec fn acts_by_target(
    s: AuthServiceView,
    target_token: Option<Text>,
    authorization: Option<Text>,
    r: Result<UserView, StatusView>,
) -> bool {
    match target_token {
        Some(token) => acts(s, token, r),
        None => acts_by_header(s, authorization, r),
    }
}

impl AuthService {
    /// The user for whom a token acts, once it has been read.
    pub fn actor_from_claims(&self, claims: Option<Claims>) -> (r: Result<User, Status>)
        ensures
            answer(r) == actor(self@.db, claims.deep_view()),
    {
        let claims = match claims {
            Some(claims) => claims,
            None => {
                return Err(service::status(Code::Unauthenticated, "invalid or expired token"));
            },
        };
        match self.db.find_user_by_id(claims.user_id.as_str()) {
            Some(user) => {
                if user.disabled {
                    Err(
                        service::status(
                            Code::Unauthenticated,
                            "user is disabled or no longer exists",
                        ),
                    )
                } else {
                    Ok(user)
                }
            },
            None => Err(
                service::status(Code::Unauthenticated, "user is disabled or no longer exists"),
            ),
        }
    }

    /// The user for whom a token acts at the time `now`.
    pub fn actor_from_token_at(&self, token: &str, now: u64) -> (r: Result<User, Status>)
        ensures
            answer(r) == actor(
                self@.db,
                keys::claims_found(keys::verified_claims(self@.tokens, token@, now)),
            ),
            keys::verified_at(
                self@.tokens,
                token@,
                now,
                keys::verified_claims(self@.tokens, token@, now),
            ),
    {
        let claims = match self.tokens.verify_at(token, now) {
            Ok(claims) => Some(claims),
            Err(_) => None,
        };
        self.actor_from_claims(claims)
    }

    pub fn actor_from_token(&self, token: &str) -> (r: Result<User, Status>)
        ensures
            acts(self@, token@, answer(r)),
    {
        let now = clock::now() as u64;
        self.actor_from_token_at(token, now)
    }

    pub fn actor_from_request(&self, authorization: Option<&str>) -> (r: Result<User, Status>)
        ensures
            acts_by_header(self@, authorization.deep_view(), answer(r)),
    {
        match bearer(authorization) {
            Ok(token) => self.actor_from_token(token.as_str()),
            Err(e) => Err(e),
        }
    }

    pub fn actor_from_target_or_request(
        &self,
        target_token: Option<&str>,
        authorization: Option<&str>,
    ) -> (r: Result<User, Status>)
        ensures
            acts_by_target(
                self@,
                target_token.deep_view(),
                authorization.deep_view(),
                answer(r),
            ),
    {
        match target_token {
            Some(token) => self.actor_from_token(token),
            None => self.actor_from_request(authorization),
        }
    }
}

// ---------------------------------------------------------------------------
// Tokens
// ---------------------------------------------------------------------------

/// What an operation answers to whoever acts.
pub open spec fn for_actor<T>(
    who: Result<UserView, StatusView>,
    act: spec_fn(UserView) -> Result<T, StatusView>,
) -> Result<T, StatusView> {
    match who {
        Ok(user) => act(user),
        Err(e) => Err(e),
    }
}

/// The answer that hands a token to a user.
pub open spec fn token_answer(user: UserView, issued: Result<(Text, u64), Text>) -> Result<
    UserTokenView,
    StatusView,
> {
    match issued {
        Ok((token, expires)) => Ok(service::user_token(user, token, expires)),
        Err(_) => Err(internal_error()),
    }
}

fn hand_out(user: &User, issued: Result<(String, u64), TokenError>) -> (r: Result<
    UserToken,
    Status,
>)
    ensures
        answer(r) == token_answer(user@, keys::token_outcome(issued)),
{
    match issued {
        Ok((token, expires)) => Ok(service::as_user_token(user, token, expires)),
        Err(_) => Err(service::internal()),
    }
}

/// A new token for a user who has one.
pub open spec fn refreshed(s: AuthServiceView, now: u64) -> spec_fn(UserView) -> Result<
    UserTokenView,
    StatusView,
> {
    |user: UserView| token_answer(user, keys::issued(s.tokens, user, None, "authentication"@, now))
}

/// What a user may do with each of some resources, or why that cannot be read.
pub open spec fn permissions_on(db: DatabaseView, user_id: Text, resource_ids: Seq<Text>) -> Result<
    Seq<ResourceClaimView>,
    Text,
>
    decreases resource_ids.len(),
{
    if resource_ids.len() == 0 {
        Ok(Seq::empty())
    } else {
        match permissions_on(db, user_id, resource_ids.drop_last()) {
            Err(e) => Err(e),
            Ok(before) => match db::permitted(db, user_id, resource_ids.last()) {
                Err(e) => Err(e),
                Ok(permission) => Ok(
                    before.push(
                        ResourceClaimView { resource_id: resource_ids.last(), permission },
                    ),
                ),
            },
        }
    }
}

/// Resources with which something may be done.
pub open spec fn something_allowed() -> spec_fn(ResourceClaimView) -> bool {
    |c: ResourceClaimView| c.permission.len() > 0
}

pub open spec fn nothing_allowed() -> spec_fn(ResourceClaimView) -> bool {
    |c: ResourceClaimView| c.permission.len() == 0
}

/// A token for the resources with which the user may do something.
pub open spec fn exchanged(s: AuthServiceView, resource_ids: Seq<Text>, now: u64) -> spec_fn(
    UserView,
) -> Result<UserTokenView, StatusView> {
    |user: UserView|
        if resource_ids.len() == 0 || resource_ids.len() > 100 {
            Err(
                StatusView {
                    code: Code::InvalidArgument,
                    message: "one to 100 resources are required"@,
                },
            )
        } else {
            match permissions_on(s.db, user.id, resource_ids) {
                Err(_) => Err(internal_error()),
                Ok(all) => {
                    let allowed = all.filter(something_allowed());
                    if allowed.len() == 0 {
                        Err(
                            StatusView {
                                code: Code::PermissionDenied,
                                message: "user is not authorized for the requested resources"@,
                            },
                        )
                    } else {
                        token_answer(
                            user,
                            keys::issued(s.tokens, user, Some(allowed), "authorization"@, now),
                        )
                    }
                },
            }
        }
}

// ---------------------------------------------------------------------------
// Questions
// ---------------------------------------------------------------------------

/// Resources with what may be done with them.
#[derive(Debug)]
pub struct CheckedPermissions {
    pub allowed: Vec<ResourcePermission>,
    pub denied: Vec<ResourcePermission>,
}

#[verifier::ext_equal]
pub struct CheckedPermissionsView {
    pub allowed: Seq<ResourceClaimView>,
    pub denied: Seq<ResourceClaimView>,
}

impl View for CheckedPermissions {
    type V = CheckedPermissionsView;

    open spec fn view(&self) -> CheckedPermissionsView {
        CheckedPermissionsView {
            allowed: self.allowed.deep_view(),
            denied: self.denied.deep_view(),
        }
    }
}

impl DeepView for CheckedPermissions {
    type V = CheckedPermissionsView;

    open spec fn deep_view(&self) -> CheckedPermissionsView {
        self@
    }
}

pub open spec fn checked(s: AuthServiceView, resource_ids: Seq<Text>) -> spec_fn(
    UserView,
) -> Result<CheckedPermissionsView, StatusView> {
    |user: UserView|
        match permissions_on(s.db, user.id, resource_ids) {
            Err(_) => Err(internal_error()),
            Ok(all) => Ok(
                CheckedPermissionsView {
                    allowed: all.filter(something_allowed()),
                    denied: all.filter(nothing_allowed()),
                },
            ),
        }
}

/// What a user may do with the resources that pass a filter: all repositories, for a
/// user with permissions on all; else those with a grant.
pub open spec fn looked_up(s: AuthServiceView, filter: Text) -> spec_fn(UserView) -> Result<
    Seq<ResourceClaimView>,
    StatusView,
> {
    |user: UserView|
        match db::permitted(s.db, user.id, db::every_resource()) {
            Err(_) => Err(internal_error()),
            Ok(wildcard) => if wildcard.len() > 0 {
                match db::listed_repositories(s.db, filter) {
                    Err(_) => Err(internal_error()),
                    Ok(ids) => Ok(
                        ids.map_values(
                            |resource_id: Text|
                                ResourceClaimView { resource_id, permission: wildcard },
                        ),
                    ),
                }
            } else {
                match db::listed_grants(s.db, user.id, filter) {
                    Err(_) => Err(internal_error()),
                    Ok(grants) => Ok(
                        grants.map_values(
                            |g: db::GrantView|
                                ResourceClaimView {
                                    resource_id: g.resource_id,
                                    permission: g.permissions,
                                },
                        ),
                    ),
                }
            },
        }
}

/// What is seen of the users with these identifiers, as far as there are such users.
pub open spec fn infos(db: DatabaseView, user_ids: Seq<Text>) -> Seq<UserInfoView>
    decreases user_ids.len(),
{
    if user_ids.len() == 0 {
        Seq::empty()
    } else {
        let before = infos(db, user_ids.drop_last());
        match first_user(db.users, by_id(user_ids.last())) {
            Some(user) => before.push(service::user_info(user)),
            None => before,
        }
    }
}

pub open spec fn info_of(user: Option<UserView>) -> Option<UserInfoView> {
    match user {
        Some(user) => Some(service::user_info(user)),
        None => None,
    }
}

impl AuthService {
    /// A new token for a user, at the time `now`.
    pub fn refresh_for(&self, user: &User, now: u64) -> (r: Result<UserToken, Status>)
        ensures
            answer(r) == refreshed(self@, now)(user@),
    {
        let issued = self.tokens.issue_at(user, None, "authentication", now);
        hand_out(user, issued)
    }

    /// A new token for a user who has one.
    pub fn refresh_auth_session(&self, authorization: Option<&str>) -> (r: Result<
        UserToken,
        Status,
    >)
        ensures
            exists|who: Result<UserView, StatusView>, now: u64|
                now <= clock::CLOCK_LIMIT && acts_by_header(
                    self@,
                    authorization.deep_view(),
                    who,
                ) && answer(r) == #[trigger] for_actor(who, refreshed(self@, now)),
    {
        let now = clock::now() as u64;
        let who = self.actor_from_request(authorization);
        let ghost shown = answer(who);
        let r = match who {
            Ok(user) => self.refresh_for(&user, now),
            Err(e) => Err(e),
        };
        assert(answer(r) == for_actor(shown, refreshed(self@, now)));
        r
    }

    /// Who the user is for whom a token acts.
    pub fn verify_user(&self, target_token: Option<&str>, authorization: Option<&str>) -> (r:
        Result<UserInfo, Status>)
        ensures
            exists|who: Result<UserView, StatusView>| #[trigger]
                acts_by_target(
                    self@,
                    target_token.deep_view(),
                    authorization.deep_view(),
                    who,
                ) && answer(r) == for_actor(
                    who,
                    |user: UserView| Ok::<UserInfoView, StatusView>(service::user_info(user)),
                ),
    {
        let who = self.actor_from_target_or_request(target_token, authorization);
        let ghost shown = answer(who);
        assert(acts_by_target(
            self@,
            target_token.deep_view(),
            authorization.deep_view(),
            shown,
        ));
        match who {
            Ok(user) => Ok(service::as_user_info(&user)),
            Err(e) => Err(e),
        }
    }

    /// There are no other identity providers.
    pub fn exchange_external_token_for_user_token(&self) -> (r: Result<UserToken, Status>)
        ensures
            answer(r) == (Err::<UserTokenView, StatusView>(
                StatusView {
                    code: Code::Unimplemented,
                    message: "external identity providers are not configured"@,
                },
            )),
    {
        Err(
            service::status(
                Code::Unimplemented,
                "external identity providers are not configured",
            ),
        )
    }

    /// There are no API keys.
    pub fn exchange_api_key_for_user_token(&self) -> (r: Result<UserToken, Status>)
        ensures
            answer(r) == (Err::<UserTokenView, StatusView>(
                StatusView { code: Code::Unimplemented, message: "API keys are not enabled"@ },
            )),
    {
        Err(service::status(Code::Unimplemented, "API keys are not enabled"))
    }

    fn permissions_on(&self, user_id: &str, resource_ids: &Vec<String>) -> (r: Result<
        Vec<ResourcePermission>,
        db::DbError,
    >)
        ensures
            db::outcome(r) == permissions_on(self@.db, user_id@, resource_ids.deep_view()),
    {
        let ghost all = resource_ids.deep_view();
        let mut out: Vec<ResourcePermission> = Vec::new();
        let mut i: usize = 0;
        assert(all.take(0).len() == 0);
        assert(out.deep_view() =~= Seq::<ResourceClaimView>::empty());
        while i < resource_ids.len()
            invariant
                i <= resource_ids@.len(),
                all == resource_ids.deep_view(),
                permissions_on(self@.db, user_id@, all.take(i as int)) == (Ok::<
                    Seq<ResourceClaimView>,
                    Text,
                >(out.deep_view())),
            decreases resource_ids@.len() - i,
        {
            let resource_id = resource_ids[i].as_str();
            proof {
                assert(all.take(i + 1).drop_last() =~= all.take(i as int));
                assert(all.take(i + 1).last() == resource_id@);
            }
            match self.db.permissions_for(user_id, resource_id) {
                Ok(permission) => {
                    let ghost before = out.deep_view();
                    let item = ResourcePermission {
                        resource_id: resource_id.to_owned(),
                        permission,
                    };
                    let ghost shown = item@;
                    out.push(item);
                    assert(out.deep_view() =~= before.push(shown));
                },
                Err(e) => {
                    proof {
                        lemma_permissions_error(self@.db, user_id@, all, i + 1);
                    }
                    return Err(e);
                },
            }
            i = i + 1;
        }
        assert(all.take(i as int) =~= all);
        Ok(out)
    }

    /// A token for the resources with which a user may do something, at the time `now`.
    pub fn exchange_for(&self, user: &User, resource_ids: &Vec<String>, now: u64) -> (r: Result<
        UserToken,
        Status,
    >)
        ensures
            answer(r) == exchanged(self@, resource_ids.deep_view(), now)(user@),
    {
        if resource_ids.len() == 0 || resource_ids.len() > 100 {
            return Err(
                service::status(Code::InvalidArgument, "one to 100 resources are required"),
            );
        }
        let all = match self.permissions_on(user.id.as_str(), resource_ids) {
            Ok(all) => all,
            Err(_) => {
                return Err(service::internal());
            },
        };
        let (allowed, _) = split_permissions(all);
        let resources = claims_of(allowed);
        if resources.len() == 0 {
            return Err(
                service::status(
                    Code::PermissionDenied,
                    "user is not authorized for the requested resources",
                ),
            );
        }
        let issued = self.tokens.issue_at(user, Some(resources), "authorization", now);
        hand_out(user, issued)
    }

    /// A token for the resources with which the user may do something.
    pub fn exchange_user_token_for_multiresource_token(
        &self,
        authorization: Option<&str>,
        resource_ids: &Vec<String>,
    ) -> (r: Result<UserToken, Status>)
        ensures
            exists|who: Result<UserView, StatusView>, now: u64|
                now <= clock::CLOCK_LIMIT && acts_by_header(
                    self@,
                    authorization.deep_view(),
                    who,
                ) && answer(r) == #[trigger] for_actor(
                    who,
                    exchanged(self@, resource_ids.deep_view(), now),
                ),
    {
        let now = clock::now() as u64;
        let who = self.actor_from_request(authorization);
        let ghost shown = answer(who);
        let r = match who {
            Ok(user) => self.exchange_for(&user, resource_ids, now),
            Err(e) => Err(e),
        };
        assert(answer(r) == for_actor(shown, exchanged(self@, resource_ids.deep_view(), now)));
        r
    }

    /// What a user may do with some resources.
    pub fn check_for(&self, user: &User, resource_ids: &Vec<String>) -> (r: Result<
        CheckedPermissions,
        Status,
    >)
        ensures
            answer(r) == checked(self@, resource_ids.deep_view())(user@),
    {
        match self.permissions_on(user.id.as_str(), resource_ids) {
            Ok(all) => {
                let (allowed, denied) = split_permissions(all);
                Ok(CheckedPermissions { allowed, denied })
            },
            Err(_) => Err(service::internal()),
        }
    }

    /// What the user for whom a token acts may do with some resources.
    pub fn check_user_permission(
        &self,
        target_token: Option<&str>,
        authorization: Option<&str>,
        resource_ids: &Vec<String>,
    ) -> (r: Result<CheckedPermissions, Status>)
        ensures
            exists|who: Result<UserView, StatusView>| #[trigger]
                acts_by_target(
                    self@,
                    target_token.deep_view(),
                    authorization.deep_view(),
                    who,
                ) && answer(r) == for_actor(who, checked(self@, resource_ids.deep_view())),
    {
        let who = self.actor_from_target_or_request(target_token, authorization);
        let ghost shown = answer(who);
        assert(acts_by_target(
            self@,
            target_token.deep_view(),
            authorization.deep_view(),
            shown,
        ));
        match who {
            Ok(user) => self.check_for(&user, resource_ids),
            Err(e) => Err(e),
        }
    }

    /// What a user may do with the resources that pass a filter.
    pub fn lookup_for(&self, user: &User, resource_filter: &str) -> (r: Result<
        Vec<ResourcePermission>,
        Status,
    >)
        ensures
            answer(r) == looked_up(self@, resource_filter@)(user@),
    {
        let wildcard = match self.db.permissions_for(user.id.as_str(), "urc-*") {
            Ok(wildcard) => wildcard,
            Err(_) => {
                return Err(service::internal());
            },
        };
        let mut out: Vec<ResourcePermission> = Vec::new();
        let mut i: usize = 0;
        if wildcard.len() > 0 {
            let ids = match self.db.list_repositories(resource_filter) {
                Ok(ids) => ids,
                Err(_) => {
                    return Err(service::internal());
                },
            };
            let ghost wanted = ids.deep_view().map_values(
                |resource_id: Text|
                    ResourceClaimView { resource_id, permission: wildcard.deep_view() },
            );
            assert(out.deep_view() =~= wanted.take(0));
            while i < ids.len()
                invariant
                    i <= ids@.len(),
                    wanted == ids.deep_view().map_values(
                        |resource_id: Text|
                            ResourceClaimView { resource_id, permission: wildcard.deep_view() },
                    ),
                    out.deep_view() == wanted.take(i as int),
                decreases ids@.len() - i,
            {
                let ghost before = out.deep_view();
                out.push(
                    ResourcePermission {
                        resource_id: ids[i].clone(),
                        permission: copy_texts(&wildcard),
                    },
                );
                assert(out.deep_view() =~= before.push(wanted[i as int]));
                assert(wanted.take(i + 1) =~= wanted.take(i as int).push(wanted[i as int]));
                i = i + 1;
            }
            assert(wanted.take(i as int) =~= wanted);
            assert(wildcard.deep_view().len() > 0);
            Ok(out)
        } else {
            let grants = match self.db.list_grants(user.id.as_str(), resource_filter) {
                Ok(grants) => grants,
                Err(_) => {
                    return Err(service::internal());
                },
            };
            let ghost wanted = grants.deep_view().map_values(
                |g: db::GrantView|
                    ResourceClaimView { resource_id: g.resource_id, permission: g.permissions },
            );
            assert(out.deep_view() =~= wanted.take(0));
            while i < grants.len()
                invariant
                    i <= grants@.len(),
                    wanted == grants.deep_view().map_values(
                        |g: db::GrantView|
                            ResourceClaimView {
                                resource_id: g.resource_id,
                                permission: g.permissions,
                            },
                    ),
                    out.deep_view() == wanted.take(i as int),
                decreases grants@.len() - i,
            {
                let ghost before = out.deep_view();
                out.push(
                    ResourcePermission {
                        resource_id: grants[i].resource_id.clone(),
                        permission: copy_texts(&grants[i].permissions),
                    },
                );
                assert(out.deep_view() =~= before.push(wanted[i as int]));
                assert(wanted.take(i + 1) =~= wanted.take(i as int).push(wanted[i as int]));
                i = i + 1;
            }
            assert(wanted.take(i as int) =~= wanted);
            assert(wildcard.deep_view().len() == 0);
            Ok(out)
        }
    }

    /// What the user may do with the resources that pass a filter.
    pub fn lookup_user_permissions(
        &self,
        authorization: Option<&str>,
        resource_filter: &str,
    ) -> (r: Result<Vec<ResourcePermission>, Status>)
        ensures
            exists|who: Result<UserView, StatusView>| #[trigger]
                acts_by_header(self@, authorization.deep_view(), who) && answer(r) == for_actor(
                    who,
                    looked_up(self@, resource_filter@),
                ),
    {
        let who = self.actor_from_request(authorization);
        let ghost shown = answer(who);
        assert(acts_by_header(self@, authorization.deep_view(), shown));
        match who {
            Ok(user) => self.lookup_for(&user, resource_filter),
            Err(e) => Err(e),
        }
    }

    /// What is seen of some users.
    pub fn infos_of(&self, user_ids: &Vec<String>) -> (r: Vec<UserInfo>)
        ensures
            r.deep_view() == infos(self@.db, user_ids.deep_view()),
    {
        let ghost all = user_ids.deep_view();
        let mut out: Vec<UserInfo> = Vec::new();
        let mut i: usize = 0;
        assert(all.take(0).len() == 0);
        assert(out.deep_view() =~= Seq::<UserInfoView>::empty());
        while i < user_ids.len()
            invariant
                i <= user_ids@.len(),
                all == user_ids.deep_view(),
                out.deep_view() == infos(self@.db, all.take(i as int)),
            decreases user_ids@.len() - i,
        {
            proof {
                assert(all.take(i + 1).drop_last() =~= all.take(i as int));
                assert(all.take(i + 1).last() == user_ids@[i as int]@);
            }
            match self.db.find_user_by_id(user_ids[i].as_str()) {
                Some(user) => {
                    let ghost before = out.deep_view();
                    out.push(service::as_user_info(&user));
                    assert(out.deep_view() =~= before.push(service::user_info(user@)));
                },
                None => {},
            }
            i = i + 1;
        }
        assert(all.take(i as int) =~= all);
        out
    }

    /// What is seen of the users with some identifiers.
    pub fn get_user_info(&self, authorization: Option<&str>, user_ids: &Vec<String>) -> (r: Result<
        Vec<UserInfo>,
        Status,
    >)
        ensures
            exists|who: Result<UserView, StatusView>| #[trigger]
                acts_by_header(self@, authorization.deep_view(), who) && answer(r) == for_actor(
                    who,
                    |user: UserView|
                        Ok::<Seq<UserInfoView>, StatusView>(
                            infos(self@.db, user_ids.deep_view()),
                        ),
                ),
    {
        let who = self.actor_from_request(authorization);
        let ghost shown = answer(who);
        assert(acts_by_header(self@, authorization.deep_view(), shown));
        match who {
            Ok(_) => Ok(self.infos_of(user_ids)),
            Err(e) => Err(e),
        }
    }

    /// What is seen of the user with a name.
    pub fn get_user_id(&self, authorization: Option<&str>, user_name: &str) -> (r: Result<
        Option<UserInfo>,
        Status,
    >)
        ensures
            exists|who: Result<UserView, StatusView>| #[trigger]
                acts_by_header(self@, authorization.deep_view(), who) && answer(r) == for_actor(
                    who,
                    |user: UserView|
                        Ok::<Option<UserInfoView>, StatusView>(
                            info_of(first_user(self@.db.users, by_name(user_name@))),
                        ),
                ),
    {
        let who = self.actor_from_request(authorization);
        let ghost shown = answer(who);
        assert(acts_by_header(self@, authorization.deep_view(), shown));
        match who {
            Ok(_) => match self.db.find_user_by_username(user_name) {
                Some(user) => Ok(Some(service::as_user_info(&user))),
                None => Ok(None),
            },
            Err(e) => Err(e),
        }
    }

    /// The identifier of a user at the provider, which is this service, and here.
    pub fn get_provider_user_id(&self, authorization: Option<&str>, user_id: &str) -> (r: Result<
        (String, String),
        Status,
    >)
        ensures
            exists|who: Result<UserView, StatusView>| #[trigger]
                acts_by_header(self@, authorization.deep_view(), who) && answer(r) == for_actor(
                    who,
                    |user: UserView| Ok::<(Text, Text), StatusView>((user_id@, user_id@)),
                ),
    {
        let who = self.actor_from_request(authorization);
        let ghost shown = answer(who);
        assert(acts_by_header(self@, authorization.deep_view(), shown));
        match who {
            Ok(_) => Ok((user_id.to_owned(), user_id.to_owned())),
            Err(e) => Err(e),
        }
    }
}

proof fn lemma_permissions_error(db: DatabaseView, user_id: Text, resource_ids: Seq<Text>, n: int)
    requires
        0 <= n <= resource_ids.len(),
        permissions_on(db, user_id, resource_ids.take(n)) is Err,
    ensures
        permissions_on(db, user_id, resource_ids) == permissions_on(
            db,
            user_id,
            resource_ids.take(n),
        ),
    decreases resource_ids.len(),
{
    if n == resource_ids.len() {
        assert(resource_ids.take(n) =~= resource_ids);
    } else {
        assert(resource_ids.drop_last().take(n) =~= resource_ids.take(n));
        lemma_permissions_error(db, user_id, resource_ids.drop_last(), n);
    }
}

/// A copy of a list of strings.
pub(crate) fn copy_texts(list: &Vec<String>) -> (r: Vec<String>)
    ensures
        r.deep_view() == list.deep_view(),
{
    let mut r: Vec<String> = Vec::new();
    let mut i: usize = 0;
    while i < list.len()
        invariant
            i <= list@.len(),
            r@.len() == i,
            forall|j: int| 0 <= j < i ==> #[trigger] r@[j]@ == list@[j]@,
        decreases list@.len() - i,
    {
        r.push(list[i].clone());
        i = i + 1;
    }
    assert(r.deep_view() =~= list.deep_view());
    r
}

/// The resources with which something may be done, and the others.
fn split_permissions(all: Vec<ResourcePermission>) -> (r: (
    Vec<ResourcePermission>,
    Vec<ResourcePermission>,
))
    ensures
        r.0.deep_view() == all.deep_view().filter(something_allowed()),
        r.1.deep_view() == all.deep_view().filter(nothing_allowed()),
{
    let ghost whole = all.deep_view();
    let mut allowed: Vec<ResourcePermission> = Vec::new();
    let mut denied: Vec<ResourcePermission> = Vec::new();
    let mut i: usize = 0;
    proof {
        reveal(Seq::filter);
        assert(whole.take(0).filter(something_allowed()) =~= allowed.deep_view());
        assert(whole.take(0).filter(nothing_allowed()) =~= denied.deep_view());
    }
    while i < all.len()
        invariant
            i <= all@.len(),
            whole == all.deep_view(),
            allowed.deep_view() == whole.take(i as int).filter(something_allowed()),
            denied.deep_view() == whole.take(i as int).filter(nothing_allowed()),
        decreases all@.len() - i,
    {
        let item = ResourcePermission {
            resource_id: all[i].resource_id.clone(),
            permission: copy_texts(&all[i].permission),
        };
        let ghost shown = item@;
        let ghost (a, d) = (allowed.deep_view(), denied.deep_view());
        proof {
            crate::rows::lemma_filter_step(whole, something_allowed(), i as int);
            crate::rows::lemma_filter_step(whole, nothing_allowed(), i as int);
            assert(shown == whole[i as int]);
            assert(item.permission.deep_view().len() == item.permission@.len());
        }
        if item.permission.len() == 0 {
            denied.push(item);
            assert(denied.deep_view() =~= d.push(shown));
        } else {
            allowed.push(item);
            assert(allowed.deep_view() =~= a.push(shown));
        }
        i = i + 1;
    }
    assert(whole.take(i as int) =~= whole);
    (allowed, denied)
}

/// Permissions as claims of a token.
fn claims_of(permissions: Vec<ResourcePermission>) -> (r: Vec<ResourceClaim>)
    ensures
        r.deep_view() == permissions.deep_view(),
{
    let mut r: Vec<ResourceClaim> = Vec::new();
    let mut i: usize = 0;
    while i < permissions.len()
        invariant
            i <= permissions@.len(),
            r@.len() == i,
            forall|j: int| 0 <= j < i ==> #[trigger] r@[j]@ == permissions@[j]@,
        decreases permissions@.len() - i,
    {
        r.push(
            ResourceClaim {
                resource_id: permissions[i].resource_id.clone(),
                permission: copy_texts(&permissions[i].permission),
            },
        );
        i = i + 1;
    }
    assert(r.deep_view() =~= permissions.deep_view());
    r
}

// ---------------------------------------------------------------------------
// Repositories
// ---------------------------------------------------------------------------

/// Recording a repository that a user has created on the Lore server. Only
/// administrators may: a grant on all resources would reach every repository.
pub open spec fn resource_created(
    s: AuthServiceView,
    user: UserView,
    resource_id: Text,
    name: Text,
    now: i64,
) -> (AuthServiceView, Result<(), StatusView>) {
    if !user.is_admin {
        (
            s,
            Err(
                StatusView {
                    code: Code::PermissionDenied,
                    message: "repository creation is not allowed"@,
                },
            ),
        )
    } else {
        match db::with_repository(s.db, user.id, resource_id, name, now) {
            (next, Ok(_)) => (AuthServiceView { db: next, ..s }, Ok(())),
            (_, Err(e)) => if text::contains_text(e, "already exists"@) {
                (
                    s,
                    Err(
                        StatusView {
                            code: Code::AlreadyExists,
                            message: "resource already exists"@,
                        },
                    ),
                )
            } else {
                (s, Err(internal_error()))
            },
        }
    }
}

/// Whether one of the permissions allows a repository to be deleted.
pub open spec fn allows_deletion(permissions: Seq<Text>) -> bool {
    permissions.contains("*"@) || permissions.contains("owner"@) || permissions.contains("admin"@)
}

/// Forgetting a repository that a user has deleted on the Lore server.
pub open spec fn resource_deleted(s: AuthServiceView, user: UserView, resource_id: Text) -> (
    AuthServiceView,
    Result<(), StatusView>,
) {
    match db::permitted(s.db, user.id, resource_id) {
        Err(_) => (s, Err(internal_error())),
        Ok(permissions) => if !user.is_admin && !allows_deletion(permissions) {
            (
                s,
                Err(
                    StatusView {
                        code: Code::PermissionDenied,
                        message: "repository deletion is not allowed"@,
                    },
                ),
            )
        } else {
            match db::without_repository(s.db, resource_id) {
                (next, Ok(_)) => (AuthServiceView { db: next, ..s }, Ok(())),
                (_, Err(_)) => (s, Err(internal_error())),
            }
        },
    }
}

pub open spec fn creation(s: AuthServiceView, resource_id: Text, name: Text, now: i64) -> spec_fn(
    UserView,
) -> (AuthServiceView, Result<(), StatusView>) {
    |user: UserView| resource_created(s, user, resource_id, name, now)
}

/// What a change makes of the service, for whoever acts.
pub open spec fn change_for_actor(
    s: AuthServiceView,
    who: Result<UserView, StatusView>,
    change: spec_fn(UserView) -> (AuthServiceView, Result<(), StatusView>),
) -> (AuthServiceView, Result<(), StatusView>) {
    match who {
        Ok(user) => change(user),
        Err(e) => (s, Err(e)),
    }
}

fn list_contains(list: &Vec<String>, item: &str) -> (r: bool)
    ensures
        r == list.deep_view().contains(item@),
{
    let mut i: usize = 0;
    while i < list.len()
        invariant
            i <= list@.len(),
            forall|j: int| 0 <= j < i ==> #[trigger] list.deep_view()[j] != item@,
        decreases list@.len() - i,
    {
        if text::same_text(list[i].as_str(), item) {
            assert(list.deep_view()[i as int] == item@);
            return true;
        }
        i = i + 1;
    }
    false
}

impl AuthService {
    /// Records a repository of a user at the time `now`.
    pub fn create_resource_for(
        &mut self,
        user: &User,
        resource_id: &str,
        resource_name: &str,
        now: i64,
    ) -> (r: Result<(), Status>)
        ensures
            (final(self)@, answer(r)) == resource_created(
                old(self)@,
                user@,
                resource_id@,
                resource_name@,
                now,
            ),
    {
        if !user.is_admin {
            return Err(
                service::status(Code::PermissionDenied, "repository creation is not allowed"),
            );
        }
        match self.db.create_repository_at(user, resource_id, resource_name, now) {
            Ok(_) => Ok(()),
            Err(e) => {
                if text::contains(e.message.as_str(), "already exists") {
                    Err(service::status(Code::AlreadyExists, "resource already exists"))
                } else {
                    Err(service::internal())
                }
            },
        }
    }

    /// Records a repository of the user at the present time.
    pub fn create_resource(
        &mut self,
        authorization: Option<&str>,
        resource_id: &str,
        resource_name: &str,
    ) -> (r: Result<(), Status>)
        ensures
            exists|who: Result<UserView, StatusView>, now: i64|
                0 <= now <= clock::CLOCK_LIMIT && acts_by_header(
                    old(self)@,
                    authorization.deep_view(),
                    who,
                ) && (final(self)@, answer(r)) == #[trigger] change_for_actor(
                    old(self)@,
                    who,
                    creation(old(self)@, resource_id@, resource_name@, now),
                ),
    {
        let now = clock::now();
        let who = self.actor_from_request(authorization);
        let ghost shown = answer(who);
        let r = match who {
            Ok(user) => self.create_resource_for(&user, resource_id, resource_name, now),
            Err(e) => Err(e),
        };
        assert((self@, answer(r)) == change_for_actor(
            old(self)@,
            shown,
            creation(old(self)@, resource_id@, resource_name@, now),
        ));
        r
    }

    /// Forgets a repository for a user.
    pub fn delete_resource_for(&mut self, user: &User, resource_id: &str) -> (r: Result<(), Status>)
        ensures
            (final(self)@, answer(r)) == resource_deleted(old(self)@, user@, resource_id@),
    {
        let permissions = match self.db.permissions_for(user.id.as_str(), resource_id) {
            Ok(permissions) => permissions,
            Err(_) => {
                return Err(service::internal());
            },
        };
        if !user.is_admin && !list_contains(&permissions, "*") && !list_contains(
            &permissions,
            "owner",
        ) && !list_contains(&permissions, "admin") {
            return Err(
                service::status(Code::PermissionDenied, "repository deletion is not allowed"),
            );
        }
        match self.db.delete_repository(resource_id) {
            Ok(_) => Ok(()),
            Err(_) => Err(service::internal()),
        }
    }

    /// Forgets a repository for the user.
    pub fn delete_resource(&mut self, authorization: Option<&str>, resource_id: &str) -> (r: Result<
        (),
        Status,
    >)
        ensures
            exists|who: Result<UserView, StatusView>| #[trigger]
                acts_by_header(old(self)@, authorization.deep_view(), who) && (
                final(self)@, answer(r)) == change_for_actor(
                    old(self)@,
                    who,
                    |user: UserView| resource_deleted(old(self)@, user, resource_id@),
                ),
    {
        let who = self.actor_from_request(authorization);
        let ghost shown = answer(who);
        assert(acts_by_header(old(self)@, authorization.deep_view(), shown));
        match who {
            Ok(user) => self.delete_resource_for(&user, resource_id),
            Err(e) => Err(e),
        }
    }
}

} // verus!
