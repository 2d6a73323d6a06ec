//! The authentication service: login sessions, tokens for users, and what users may do
//! with repositories.
//!
//! An operation that looks at the clock, or makes identifiers, has a twin that takes
//! them as arguments and says exactly what comes of them.

use vstd::prelude::*;
use vstd::string::*;

use crate::clock;
use crate::db;
use crate::db::{by_id, first_user, Database, DatabaseView, User, UserView};
use crate::ids;
use crate::keys;
use crate::keys::{ResourceClaimView, TokenIssuer, TokenIssuerView};
use crate::text;
use crate::text::Text;
use crate::text_map;
use crate::text_map::TextMap;

verus! {

// ---------------------------------------------------------------------------
// Answers
// ---------------------------------------------------------------------------

/// The kind of an error, as gRPC knows it.
#[derive(Clone, Copy, Debug, PartialEq, Eq, Structural)]
pub enum Code {
    InvalidArgument,
    NotFound,
    AlreadyExists,
    PermissionDenied,
    Unauthenticated,
    ResourceExhausted,
    Unimplemented,
    Internal,
}

/// An error that a caller of the service gets.
#[derive(Debug)]
pub struct Status {
    pub code: Code,
    pub message: String,
}

#[verifier::ext_equal]
pub struct StatusView {
    pub code: Code,
    pub message: Text,
}

impl View for Status {
    type V = StatusView;

    open spec fn view(&self) -> StatusView {
        StatusView { code: self.code, message: self.message@ }
    }
}

pub(crate) fn status(code: Code, message: &str) -> (s: Status)
    ensures
        s@ == (StatusView { code, message: message@ }),
{
    Status { code, message: message.to_owned() }
}

/// The answer to a failure inside of the service: it does not say which.
pub open spec fn internal_error() -> StatusView {
    StatusView { code: Code::Internal, message: "authentication service error"@ }
}

pub(crate) fn internal() -> (s: Status)
    ensures
        s@ == internal_error(),
{
    status(Code::Internal, "authentication service error")
}

/// The answer of the service over views.
pub open spec fn answer<T: DeepView>(r: Result<T, Status>) -> Result<T::V, StatusView> {
    match r {
        Ok(t) => Ok(t.deep_view()),
        Err(s) => Err(s@),
    }
}

/// A token as a user gets it.
#[derive(Debug)]
pub struct UserToken {
    pub user_token: String,
    pub expires_at: i64,
    pub user_id: String,
    pub user_name: String,
}

#[verifier::ext_equal]
pub struct UserTokenView {
    pub user_token: Text,
    pub expires_at: i64,
    pub user_id: Text,
    pub user_name: Text,
}

impl View for UserToken {
    type V = UserTokenView;

    open spec fn view(&self) -> UserTokenView {
        UserTokenView {
            user_token: self.user_token@,
            expires_at: self.expires_at,
            user_id: self.user_id@,
            user_name: self.user_name@,
        }
    }
}

impl DeepView for UserToken {
    type V = UserTokenView;

    open spec fn deep_view(&self) -> UserTokenView {
        self@
    }
}

impl Clone for UserToken {
    fn clone(&self) -> (r: Self)
        ensures
            r == *self,
    {
        UserToken {
            user_token: self.user_token.clone(),
            expires_at: self.expires_at,
            user_id: self.user_id.clone(),
            user_name: self.user_name.clone(),
        }
    }
}

pub open spec fn user_token(user: UserView, token: Text, expires: u64) -> UserTokenView {
    UserTokenView {
        user_token: token,
        expires_at: expires as i64,
        user_id: user.id,
        user_name: user.display_name,
    }
}

pub fn as_user_token(user: &User, token: String, expires: u64) -> (r: UserToken)
    ensures
        r@ == user_token(user@, token@, expires),
{
    UserToken {
        user_token: token,
        expires_at: expires as i64,
        user_id: user.id.clone(),
        user_name: user.display_name.clone(),
    }
}

/// What other users see of a user.
#[derive(Debug)]
pub struct UserInfo {
    pub user_id: String,
    pub display_name: String,
}

#[verifier::ext_equal]
pub struct UserInfoView {
    pub user_id: Text,
    pub display_name: Text,
}

impl View for UserInfo {
    type V = UserInfoView;

    open spec fn view(&self) -> UserInfoView {
        UserInfoView { user_id: self.user_id@, display_name: self.display_name@ }
    }
}

impl DeepView for UserInfo {
    type V = UserInfoView;

    open spec fn deep_view(&self) -> UserInfoView {
        self@
    }
}

pub open spec fn user_info(user: UserView) -> UserInfoView {
    UserInfoView { user_id: user.id, display_name: user.display_name }
}

pub fn as_user_info(user: &User) -> (r: UserInfo)
    ensures
        r@ == user_info(user@),
{
    UserInfo { user_id: user.id.clone(), display_name: user.display_name.clone() }
}

/// What a user may do with a resource.
#[derive(Debug)]
pub struct ResourcePermission {
    pub resource_id: String,
    pub permission: Vec<String>,
}

impl View for ResourcePermission {
    type V = ResourceClaimView;

    open spec fn view(&self) -> ResourceClaimView {
        ResourceClaimView {
            resource_id: self.resource_id@,
            permission: self.permission.deep_view(),
        }
    }
}

impl DeepView for ResourcePermission {
    type V = ResourceClaimView;

    open spec fn deep_view(&self) -> ResourceClaimView {
        self@
    }
}

// ---------------------------------------------------------------------------
// Sessions
// ---------------------------------------------------------------------------

/// A login that was started and not yet fetched.
#[derive(Debug)]
pub struct PendingSession {
    pub client_state: String,
    pub user_token: Option<UserToken>,
    pub expires_at: i64,
    pub failed_attempts: u8,
}

#[verifier::ext_equal]
pub struct PendingSessionView {
    pub client_state: Text,
    pub user_token: Option<UserTokenView>,
    pub expires_at: i64,
    pub failed_attempts: u8,
}

impl View for PendingSession {
    type V = PendingSessionView;

    open spec fn view(&self) -> PendingSessionView {
        PendingSessionView {
            client_state: self.client_state@,
            user_token: self.user_token.deep_view(),
            expires_at: self.expires_at,
            failed_attempts: self.failed_attempts,
        }
    }
}

/// A login of the administrator on the web.
#[derive(Debug)]
pub struct AdminSession {
    pub user_id: String,
    pub csrf_token: String,
    pub expires_at: i64,
}

#[verifier::ext_equal]
pub struct AdminSessionView {
    pub user_id: Text,
    pub csrf_token: Text,
    pub expires_at: i64,
}

impl View for AdminSession {
    type V = AdminSessionView;

    open spec fn view(&self) -> AdminSessionView {
        AdminSessionView {
            user_id: self.user_id@,
            csrf_token: self.csrf_token@,
            expires_at: self.expires_at,
        }
    }
}

impl DeepView for AdminSession {
    type V = AdminSessionView;

    open spec fn deep_view(&self) -> AdminSessionView {
        self@
    }
}

impl Clone for AdminSession {
    fn clone(&self) -> (r: Self)
        ensures
            r == *self,
    {
        AdminSession {
            user_id: self.user_id.clone(),
            csrf_token: self.csrf_token.clone(),
            expires_at: self.expires_at,
        }
    }
}

pub const MAX_PENDING_SESSIONS: usize = 10_000;

pub const MAX_LOGIN_ATTEMPTS: u8 = 5;

/// The eight hours for which an administrator stays logged in, in seconds.
pub const ADMIN_SESSION_SECONDS: i64 = 28_800;

/// Why a login did not succeed.
#[derive(Clone, Copy, Debug, PartialEq, Eq, Structural)]
pub enum LoginFailure {
    InvalidCredentials,
    Expired,
    Internal,
}

// ---------------------------------------------------------------------------
// The service
// ---------------------------------------------------------------------------

pub struct AuthService {
    pub db: Database,
    pub tokens: TokenIssuer,
    pub public_base_url: String,
    pub session_ttl_seconds: u64,
    pub sessions: TextMap<PendingSession>,
    pub bootstrap_username: String,
    pub lore_grpc_url: Option<String>,
    pub admin_sessions: TextMap<AdminSession>,
}

#[verifier::ext_equal]
pub struct AuthServiceView {
    pub db: DatabaseView,
    pub tokens: TokenIssuerView,
    pub public_base_url: Text,
    pub session_ttl_seconds: u64,
    pub sessions: Map<Text, PendingSessionView>,
    pub bootstrap_username: Text,
    pub lore_grpc_url: Option<Text>,
    pub admin_sessions: Map<Text, AdminSessionView>,
}

impl View for AuthService {
    type V = AuthServiceView;

    open spec fn view(&self) -> AuthServiceView {
        AuthServiceView {
            db: self.db@,
            tokens: self.tokens@,
            public_base_url: self.public_base_url@,
            session_ttl_seconds: self.session_ttl_seconds,
            sessions: self.sessions@,
            bootstrap_username: self.bootstrap_username@,
            lore_grpc_url: self.lore_grpc_url.deep_view(),
            admin_sessions: self.admin_sessions@,
        }
    }
}

/// Whether a user is the administrator that the service was set up with, and may act.
pub open spec fn is_chief(s: AuthServiceView, user: UserView) -> bool {
    user.is_admin && !user.disabled && text::same_name(user.username, s.bootstrap_username)
}

/// A new session of the administrator. Sessions that have expired are dropped.
pub open spec fn with_admin_session(
    s: AuthServiceView,
    user: UserView,
    token: Text,
    csrf_token: Text,
    now: i64,
) -> (AuthServiceView, Option<AdminSessionView>) {
    if is_chief(s, user) {
        let session = AdminSessionView {
            user_id: user.id,
            csrf_token,
            expires_at: (now + ADMIN_SESSION_SECONDS) as i64,
        };
        (
            AuthServiceView {
                admin_sessions: text_map::kept(
                    s.admin_sessions,
                    |v: AdminSessionView| v.expires_at >= now,
                ).insert(token, session),
                ..s
            },
            Some(session),
        )
    } else {
        (s, None)
    }
}

/// The session behind a token and its user. A session that has expired is dropped.
pub open spec fn admin_session_found(s: AuthServiceView, token: Text, now: i64) -> (
    AuthServiceView,
    Option<(AdminSessionView, UserView)>,
) {
    if !s.admin_sessions.contains_key(token) {
        (s, None)
    } else {
        let session = s.admin_sessions[token];
        if session.expires_at < now {
            (AuthServiceView { admin_sessions: s.admin_sessions.remove(token), ..s }, None)
        } else {
            match first_user(s.db.users, by_id(session.user_id)) {
                Some(user) => if is_chief(s, user) {
                    (s, Some((session, user)))
                } else {
                    (s, None)
                },
                None => (s, None),
            }
        }
    }
}

/// The session after a wrong password, or its end.
pub open spec fn after_failure(
    sessions: Map<Text, PendingSessionView>,
    session_code: Text,
) -> Map<Text, PendingSessionView> {
    let session = sessions[session_code];
    let attempts = if session.failed_attempts == u8::MAX {
        u8::MAX
    } else {
        (session.failed_attempts + 1) as u8
    };
    if attempts >= MAX_LOGIN_ATTEMPTS {
        sessions.remove(session_code)
    } else {
        sessions.insert(
            session_code,
            PendingSessionView { failed_attempts: attempts, ..session },
        )
    }
}

/// A login with name and password in a session that was started before.
pub open spec fn login_completed(
    s: AuthServiceView,
    session_code: Text,
    client_state: Text,
    username: Text,
    password: Text,
    now: i64,
) -> (AuthServiceView, Result<UserView, LoginFailure>) {
    if !s.sessions.contains_key(session_code) || s.sessions[session_code].client_state
        != client_state || s.sessions[session_code].expires_at < now {
        (s, Err(LoginFailure::Expired))
    } else {
        let session = s.sessions[session_code];
        match db::authenticated(s.db, username, password) {
            Err(_) => (s, Err(LoginFailure::Internal)),
            Ok(None) => (
                AuthServiceView { sessions: after_failure(s.sessions, session_code), ..s },
                Err(LoginFailure::InvalidCredentials),
            ),
            Ok(Some(user)) => match keys::issued(
                s.tokens,
                user,
                None,
                "authentication"@,
                now as u64,
            ) {
                Err(_) => (s, Err(LoginFailure::Internal)),
                Ok((token, expires)) => (
                    AuthServiceView {
                        sessions: s.sessions.insert(
                            session_code,
                            PendingSessionView {
                                user_token: Some(user_token(user, token, expires)),
                                ..session
                            },
                        ),
                        ..s
                    },
                    Ok(user),
                ),
            },
        }
    }
}

impl AuthService {
    pub fn new(
        db: Database,
        tokens: TokenIssuer,
        public_base_url: String,
        session_ttl_seconds: u64,
        bootstrap_username: String,
        lore_grpc_url: Option<String>,
    ) -> (s: AuthService)
        ensures
            s@ == (AuthServiceView {
                db: db@,
                tokens: tokens@,
                public_base_url: text::without_trailing_slashes(public_base_url@),
                session_ttl_seconds,
                sessions: Map::empty(),
                bootstrap_username: bootstrap_username@,
                lore_grpc_url: match lore_grpc_url {
                    Some(url) => if text::trimmed(url@).len() == 0 {
                        None
                    } else {
                        Some(url@)
                    },
                    None => None,
                },
                admin_sessions: Map::empty(),
            }),
    {
        let public_base_url = text::strip_trailing_slashes(public_base_url.as_str());
        let lore_grpc_url = match lore_grpc_url {
            Some(url) => {
                if text::trim(url.as_str()).as_str().is_empty() {
                    None
                } else {
                    Some(url)
                }
            },
            None => None,
        };
        AuthService {
            db,
            tokens,
            public_base_url,
            session_ttl_seconds,
            sessions: TextMap::new(),
            bootstrap_username,
            lore_grpc_url,
            admin_sessions: TextMap::new(),
        }
    }

    fn is_chief(&self, user: &User) -> (r: bool)
        ensures
            r == is_chief(self@, user@),
    {
        user.is_admin && !user.disabled && text::eq_ignore_ascii_case(
            user.username.as_str(),
            self.bootstrap_username.as_str(),
        )
    }

    /// Logs the administrator in on the web, under the given tokens, at the time `now`.
    pub fn create_admin_session_with(
        &mut self,
        user: &User,
        token: String,
        csrf_token: String,
        now: i64,
    ) -> (r: Option<AdminSession>)
        requires
            now <= i64::MAX - ADMIN_SESSION_SECONDS,
        ensures
            (final(self)@, r.deep_view()) == with_admin_session(
                old(self)@,
                user@,
                token@,
                csrf_token@,
                now,
            ),
    {
        if !self.is_chief(user) {
            return None;
        }
        let session = AdminSession {
            user_id: user.id.clone(),
            csrf_token,
            expires_at: now + ADMIN_SESSION_SECONDS,
        };
        self.admin_sessions.retain(
            |v: &AdminSession| -> (b: bool)
                ensures
                    b == (v@.expires_at >= now)
                { v.expires_at >= now },
            Ghost(|v: AdminSessionView| v.expires_at >= now),
        );
        self.admin_sessions.insert(token, session.clone());
        Some(session)
    }

    /// Logs the administrator in on the web, under new tokens, at the present time.
    pub fn create_admin_session(&mut self, user: &User) -> (r: Option<(String, AdminSession)>)
        ensures
            exists|token: Text, csrf_token: Text, now: i64|
                ids::is_uuid_text(token) && ids::is_uuid_text(csrf_token) && 0 <= now
                    <= clock::CLOCK_LIMIT && #[trigger] made_admin_session(
                    old(self)@,
                    user@,
                    token,
                    csrf_token,
                    now,
                    final(self)@,
                    r.deep_view(),
                ),
    {
        let token = ids::fresh_id();
        let csrf_token = ids::fresh_id();
        let now = clock::now();
        let ghost csrf = csrf_token@;
        let session = self.create_admin_session_with(user, token.clone(), csrf_token, now);
        let ghost shown = session.deep_view();
        let r = match session {
            Some(session) => Some((token.clone(), session)),
            None => None,
        };
        assert(r.deep_view() == match shown {
            Some(v) => Some((token@, v)),
            None => None,
        });
        assert(made_admin_session(old(self)@, user@, token@, csrf, now, self@, r.deep_view()));
        r
    }

    /// The session behind a token and its user, at the time `now`.
    pub fn admin_session_at(&mut self, token: &str, now: i64) -> (r: Option<(AdminSession, User)>)
        ensures
            (final(self)@, r.deep_view()) == admin_session_found(old(self)@, token@, now),
    {
        let session = match self.admin_sessions.get(token) {
            Some(session) => session.clone(),
            None => {
                return None;
            },
        };
        if session.expires_at < now {
            self.admin_sessions.remove(token);
            return None;
        }
        match self.db.find_user_by_id(session.user_id.as_str()) {
            Some(user) => {
                if self.is_chief(&user) {
                    Some((session, user))
                } else {
                    None
                }
            },
            None => None,
        }
    }

    /// The session behind a token and its user, at the present time.
    pub fn admin_session(&mut self, token: &str) -> (r: Option<(AdminSession, User)>)
        ensures
            exists|now: i64|
                0 <= now <= clock::CLOCK_LIMIT && (final(self)@, r.deep_view())
                    == #[trigger] admin_session_found(old(self)@, token@, now),
    {
        let now = clock::now();
        self.admin_session_at(token, now)
    }

    pub fn remove_admin_session(&mut self, token: &str)
        ensures
            final(self)@ == (AuthServiceView {
                admin_sessions: old(self)@.admin_sessions.remove(token@),
                ..old(self)@
            }),
    {
        self.admin_sessions.remove(token);
    }

    /// Completes a login at the time `now`.
    pub fn complete_login_at(
        &mut self,
        session_code: &str,
        client_state: &str,
        username: &str,
        password: &str,
        now: i64,
    ) -> (r: Result<User, LoginFailure>)
        ensures
            (final(self)@, login_outcome(r)) == login_completed(
                old(self)@,
                session_code@,
                client_state@,
                username@,
                password@,
                now,
            ),
    {
        let (expires_at, failed_attempts) = match self.sessions.get(session_code) {
            Some(pending) => {
                if !text::same_text(pending.client_state.as_str(), client_state)
                    || pending.expires_at < now {
                    return Err(LoginFailure::Expired);
                }
                (pending.expires_at, pending.failed_attempts)
            },
            None => {
                return Err(LoginFailure::Expired);
            },
        };
        let user = match self.db.authenticate(username, password) {
            Ok(Some(user)) => user,
            Ok(None) => {
                let attempts = failed_attempts.saturating_add(1);
                if attempts >= MAX_LOGIN_ATTEMPTS {
                    self.sessions.remove(session_code);
                } else {
                    let user_token = match self.sessions.get(session_code) {
                        Some(pending) => match &pending.user_token {
                            Some(t) => Some(t.clone()),
                            None => None,
                        },
                        None => None,
                    };
                    self.sessions.insert(
                        session_code.to_owned(),
                        PendingSession {
                            client_state: client_state.to_owned(),
                            user_token,
                            expires_at,
                            failed_attempts: attempts,
                        },
                    );
                }
                return Err(LoginFailure::InvalidCredentials);
            },
            Err(_) => {
                return Err(LoginFailure::Internal);
            },
        };
        match self.tokens.issue_at(&user, None, "authentication", now as u64) {
            Ok((token, expires)) => {
                let session = PendingSession {
                    client_state: client_state.to_owned(),
                    user_token: Some(as_user_token(&user, token, expires)),
                    expires_at,
                    failed_attempts,
                };
                self.sessions.insert(session_code.to_owned(), session);
                Ok(user)
            },
            Err(_) => Err(LoginFailure::Internal),
        }
    }

    /// Completes a login at the present time.
    pub fn complete_login(
        &mut self,
        session_code: &str,
        client_state: &str,
        username: &str,
        password: &str,
    ) -> (r: Result<User, LoginFailure>)
        ensures
            exists|now: i64|
                0 <= now <= clock::CLOCK_LIMIT && (final(self)@, login_outcome(r))
                    == #[trigger] login_completed(
                    old(self)@,
                    session_code@,
                    client_state@,
                    username@,
                    password@,
                    now,
                ),
    {
        let now = clock::now();
        self.complete_login_at(session_code, client_state, username, password, now)
    }
}

pub open spec fn login_outcome(r: Result<User, LoginFailure>) -> Result<UserView, LoginFailure> {
    match r {
        Ok(user) => Ok(user@),
        Err(e) => Err(e),
    }
}

/// Whether a new session of the administrator is what comes of the given tokens and
/// time.
pub open spec fn made_admin_session(
    s: AuthServiceView,
    user: UserView,
    token: Text,
    csrf_token: Text,
    now: i64,
    next: AuthServiceView,
    r: Option<(Text, AdminSessionView)>,
) -> bool {
    let (after, session) = with_admin_session(s, user, token, csrf_token, now);
    next == after && r == match session {
        Some(v) => Some((token, v)),
        None => None,
    }
}

} // verus!
