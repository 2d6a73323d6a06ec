//! The settings with which the service starts.

use vstd::prelude::*;
use vstd::string::*;

use crate::clock;
use crate::db;
use crate::db::Database;
use crate::ids;
use crate::keys;
use crate::password;
use crate::text;
use crate::text::Text;

verus! {

/// A setting that is empty, or only white space, counts as not set.
pub open spec fn set_value(value: Option<Text>) -> Option<Text> {
    match value {
        Some(v) => if text::trimmed(v).len() == 0 {
            None
        } else {
            Some(v)
        },
        None => None,
    }
}

pub fn non_empty(value: Option<String>) -> (r: Option<String>)
    ensures
        r.deep_view() == set_value(value.deep_view()),
{
    match value {
        Some(v) => {
            if text::trim(v.as_str()).as_str().is_empty() {
                None
            } else {
                Some(v)
            }
        },
        None => None,
    }
}

/// The host of a URL: between the scheme and a path or port, and without the brackets
/// of an IPv6 address.
pub open spec fn host_of(url: Text) -> Result<Text, Text> {
    match text::after_first(url, "://"@) {
        None => Err("URL must contain a scheme"@),
        Some(remainder) => {
            let authority = text::pieces(remainder, '/')[0];
            let host = match text::after_prefix(authority, "["@) {
                Some(address) => text::pieces(address, ']')[0],
                None => text::pieces(authority, ':')[0],
            };
            if host.len() == 0 {
                Err("URL must contain a host"@)
            } else {
                Ok(host)
            }
        },
    }
}

pub open spec fn text_outcome(r: Result<String, String>) -> Result<Text, Text> {
    match r {
        Ok(s) => Ok(s@),
        Err(e) => Err(e@),
    }
}

pub fn url_host(value: &str) -> (r: Result<String, String>)
    ensures
        text_outcome(r) == host_of(value@),
{
    let remainder = match text::text_after(value, "://") {
        Some(remainder) => remainder,
        None => {
            return Err("URL must contain a scheme".to_owned());
        },
    };
    let authority = text::first_piece(remainder.as_str(), '/');
    let host = match text::strip_prefix(authority.as_str(), "[") {
        Some(address) => text::first_piece(address.as_str(), ']'),
        None => text::first_piece(authority.as_str(), ':'),
    };
    if host.as_str().is_empty() {
        Err("URL must contain a host".to_owned())
    } else {
        Ok(host)
    }
}

/// What the service is told when it starts.
#[derive(Debug)]
pub struct ServeArgs {
    pub public_base_url: String,
    pub issuer: String,
    pub audience: Option<String>,
    pub token_ttl_seconds: u64,
    pub login_ttl_seconds: u64,
    pub lore_grpc_url: Option<String>,
    pub bootstrap_username: Option<String>,
    pub bootstrap_password: Option<String>,
}

#[verifier::ext_equal]
pub struct ServeArgsView {
    pub public_base_url: Text,
    pub issuer: Text,
    pub audience: Option<Text>,
    pub token_ttl_seconds: u64,
    pub login_ttl_seconds: u64,
    pub lore_grpc_url: Option<Text>,
    pub bootstrap_username: Option<Text>,
    pub bootstrap_password: Option<Text>,
}

impl View for ServeArgs {
    type V = ServeArgsView;

    open spec fn view(&self) -> ServeArgsView {
        ServeArgsView {
            public_base_url: self.public_base_url@,
            issuer: self.issuer@,
            audience: self.audience.deep_view(),
            token_ttl_seconds: self.token_ttl_seconds,
            login_ttl_seconds: self.login_ttl_seconds,
            lore_grpc_url: self.lore_grpc_url.deep_view(),
            bootstrap_username: self.bootstrap_username.deep_view(),
            bootstrap_password: self.bootstrap_password.deep_view(),
        }
    }
}

impl ServeArgs {
    /// The settings, with the optional ones that are empty taken as not set.
    pub fn normalized(self) -> (r: ServeArgs)
        ensures
            r@ == (ServeArgsView {
                audience: set_value(self@.audience),
                lore_grpc_url: set_value(self@.lore_grpc_url),
                bootstrap_username: set_value(self@.bootstrap_username),
                bootstrap_password: set_value(self@.bootstrap_password),
                ..self@
            }),
    {
        ServeArgs {
            public_base_url: self.public_base_url,
            issuer: self.issuer,
            audience: non_empty(self.audience),
            token_ttl_seconds: self.token_ttl_seconds,
            login_ttl_seconds: self.login_ttl_seconds,
            lore_grpc_url: non_empty(self.lore_grpc_url),
            bootstrap_username: non_empty(self.bootstrap_username),
            bootstrap_password: non_empty(self.bootstrap_password),
        }
    }
}

pub open spec fn is_web_url(url: Text) -> bool {
    "https://"@.is_prefix_of(url) || "http://"@.is_prefix_of(url)
}

/// The audience of the tokens where none is set.
pub const DEFAULT_AUDIENCE: &'static str = "lore-service";

/// The audience of the tokens.
pub open spec fn audience_of(args: ServeArgsView) -> Text {
    match args.audience {
        Some(audience) => audience,
        None => DEFAULT_AUDIENCE@,
    }
}

/// Why the service cannot start with these settings, or `None`.
pub open spec fn serve_error(args: ServeArgsView) -> Option<Text> {
    if !is_web_url(args.public_base_url) {
        Some("public base URL must start with http:// or https://"@)
    } else if text::trimmed(args.issuer).len() == 0 {
        Some("issuer must not be empty"@)
    } else {
        match host_of(args.public_base_url) {
            Err(e) => Some(e),
            Ok(_) => if args.lore_grpc_url is Some && !is_web_url(args.lore_grpc_url->0) {
                Some("Lore gRPC URL must start with http:// or https://"@)
            } else if args.token_ttl_seconds < 60 || args.login_ttl_seconds < 60 {
                Some("token and login TTLs must be at least 60 seconds"@)
            } else {
                None
            },
        }
    }
}

fn starts_as_web_url(url: &str) -> (r: bool)
    ensures
        r == is_web_url(url@),
{
    text::starts_with(url, "https://") || text::starts_with(url, "http://")
}

pub fn validate_serve_args(args: &ServeArgs) -> (r: Result<(), String>)
    ensures
        match r {
            Ok(_) => serve_error(args@) is None,
            Err(e) => serve_error(args@) == Some(e@),
        },
{
    if !starts_as_web_url(args.public_base_url.as_str()) {
        return Err("public base URL must start with http:// or https://".to_owned());
    }
    if text::trim(args.issuer.as_str()).as_str().is_empty() {
        return Err("issuer must not be empty".to_owned());
    }
    match url_host(args.public_base_url.as_str()) {
        Ok(_) => {},
        Err(e) => {
            return Err(e);
        },
    }
    match &args.lore_grpc_url {
        Some(url) => {
            if !starts_as_web_url(url.as_str()) {
                return Err("Lore gRPC URL must start with http:// or https://".to_owned());
            }
        },
        None => {},
    }
    if args.token_ttl_seconds < 60 || args.login_ttl_seconds < 60 {
        return Err("token and login TTLs must be at least 60 seconds".to_owned());
    }
    Ok(())
}

/// Preparing the tables for a start: the audience of the tokens, or why the service
/// cannot start.
pub open spec fn prepared(
    tables: db::DatabaseView,
    args: ServeArgsView,
    salt: Text,
    id: Text,
    now: i64,
) -> (db::DatabaseView, Result<Text, Text>) {
    match serve_error(args) {
        Some(e) => (tables, Err(e)),
        None => match db::with_bootstrap_admin(
            tables,
            args.bootstrap_username,
            args.bootstrap_password,
            salt,
            id,
            now,
        ) {
            (next, Ok(_)) => (next, Ok(audience_of(args))),
            (next, Err(e)) => (next, Err(e)),
        },
    }
}

/// Checks the settings and puts the administrator right, with the given salt,
/// identifier and time.
pub fn prepare_with(
    tables: &mut Database,
    args: &ServeArgs,
    salt: &str,
    id: String,
    now: i64,
) -> (r: Result<String, String>)
    ensures
        (final(tables)@, text_outcome(r)) == prepared(old(tables)@, args@, salt@, id@, now),
{
    match validate_serve_args(args) {
        Ok(_) => {},
        Err(e) => {
            return Err(e);
        },
    }
    let username = match &args.bootstrap_username {
        Some(s) => Some(s.as_str()),
        None => None,
    };
    let password = match &args.bootstrap_password {
        Some(s) => Some(s.as_str()),
        None => None,
    };
    match tables.ensure_bootstrap_admin_with(username, password, salt, id, now) {
        Ok(_) => match &args.audience {
            Some(audience) => Ok(audience.clone()),
            None => Ok(DEFAULT_AUDIENCE.to_owned()),
        },
        Err(e) => Err(e.message),
    }
}

/// Checks the settings and puts the administrator right.
pub fn prepare(tables: &mut Database, args: &ServeArgs) -> (r: Result<String, String>)
    ensures
        exists|salt: Text, id: Text, now: i64|
            ids::is_uuid_text(id) && password::serves(salt) && 0 <= now <= clock::CLOCK_LIMIT && (
            final(tables)@, text_outcome(r)) == #[trigger] prepared(
                old(tables)@,
                args@,
                salt,
                id,
                now,
            ),
{
    let salt = password::fresh_salt();
    let id = ids::fresh_id();
    let now = clock::now();
    prepare_with(tables, args, salt.as_str(), id, now)
}

/// The tokens of a service that was started with these settings are for the audience that
/// was set, or else for the default one, and name the issuer that was set.
pub proof fn tokens_are_for_the_set_audience(
    tables: db::DatabaseView,
    args: ServeArgsView,
    salt: Text,
    id: Text,
    now: i64,
    pem: Text,
    environment: Text,
    user: db::UserView,
    resources: Option<Seq<keys::ResourceClaimView>>,
    token_use: Text,
    time: u64,
)
    requires
        prepared(tables, args, salt, id, now).1 is Ok,
        keys::issuer_with_key(
            pem,
            args.issuer,
            prepared(tables, args, salt, id, now).1->Ok_0,
            environment,
            args.token_ttl_seconds,
        ) is Ok,
    ensures
        ({
            let t = keys::issuer_with_key(
                pem,
                args.issuer,
                prepared(tables, args, salt, id, now).1->Ok_0,
                environment,
                args.token_ttl_seconds,
            )->Ok_0;
            let claims = keys::claims_for(t, user, resources, token_use, time);
            &&& claims.audience == seq![
                match args.audience {
                    Some(audience) => audience,
                    None => "lore-service"@,
                },
            ]
            &&& claims.issuer == args.issuer
        }),
{
}

} // verus!
