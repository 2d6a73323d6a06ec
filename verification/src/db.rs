//! Users, repositories and grants.
//!
//! A `Database` holds the rows of three tables. What changes a table is a `push`, a
//! `filter` or a `map_values` of its rows; what reads it is a `filter`, put in order.

use vstd::prelude::*;
use vstd::string::*;
use vstd::utf8::*;

use crate::clock;
use crate::db_laws;
use crate::ids;
use crate::json;
use crate::password;
use crate::rows;
use crate::rows::first_where;
use crate::sorting;
use crate::sorting::{views, Ranked};
use crate::text;
use crate::text::Text;

verus! {

// ---------------------------------------------------------------------------
// Rows
// ---------------------------------------------------------------------------

#[derive(Debug)]
pub struct User {
    pub id: String,
    pub username: String,
    pub display_name: String,
    pub password_hash: String,
    pub disabled: bool,
    pub is_admin: bool,
}

#[verifier::ext_equal]
pub struct UserView {
    pub id: Text,
    pub username: Text,
    pub display_name: Text,
    pub password_hash: Text,
    pub disabled: bool,
    pub is_admin: bool,
}

impl View for User {
    type V = UserView;

    open spec fn view(&self) -> UserView {
        UserView {
            id: self.id@,
            username: self.username@,
            display_name: self.display_name@,
            password_hash: self.password_hash@,
            disabled: self.disabled,
            is_admin: self.is_admin,
        }
    }
}

impl DeepView for User {
    type V = UserView;

    open spec fn deep_view(&self) -> UserView {
        self@
    }
}

impl Clone for User {
    fn clone(&self) -> (r: Self)
        ensures
            r == *self,
    {
        User {
            id: self.id.clone(),
            username: self.username.clone(),
            display_name: self.display_name.clone(),
            password_hash: self.password_hash.clone(),
            disabled: self.disabled,
            is_admin: self.is_admin,
        }
    }
}

/// A row of the table of users.
#[derive(Debug)]
pub struct UserRow {
    pub user: User,
    pub created_at: i64,
}

#[verifier::ext_equal]
pub struct UserRowView {
    pub user: UserView,
    pub created_at: i64,
}

impl View for UserRow {
    type V = UserRowView;

    open spec fn view(&self) -> UserRowView {
        UserRowView { user: self.user@, created_at: self.created_at }
    }
}

/// A row of the table of repositories.
#[derive(Debug)]
pub struct RepositoryRow {
    pub resource_id: String,
    pub name: String,
    pub created_by: String,
    pub created_at: i64,
}

#[verifier::ext_equal]
pub struct RepositoryRowView {
    pub resource_id: Text,
    pub name: Text,
    pub created_by: Text,
    pub created_at: i64,
}

impl View for RepositoryRow {
    type V = RepositoryRowView;

    open spec fn view(&self) -> RepositoryRowView {
        RepositoryRowView {
            resource_id: self.resource_id@,
            name: self.name@,
            created_by: self.created_by@,
            created_at: self.created_at,
        }
    }
}

/// A row of the table of grants. The permissions are a JSON list of strings.
#[derive(Debug)]
pub struct GrantRow {
    pub user_id: String,
    pub resource_id: String,
    pub permissions: String,
}

#[verifier::ext_equal]
pub struct GrantRowView {
    pub user_id: Text,
    pub resource_id: Text,
    pub permissions: Text,
}

impl View for GrantRow {
    type V = GrantRowView;

    open spec fn view(&self) -> GrantRowView {
        GrantRowView {
            user_id: self.user_id@,
            resource_id: self.resource_id@,
            permissions: self.permissions@,
        }
    }
}

// ---------------------------------------------------------------------------
// Errors
// ---------------------------------------------------------------------------

/// Why an operation was refused, in words.
#[derive(Debug)]
pub struct DbError {
    pub message: String,
}

impl View for DbError {
    type V = Text;

    open spec fn view(&self) -> Text {
        self.message@
    }
}

fn refusal(message: &str) -> (e: DbError)
    ensures
        e@ == message@,
{
    DbError { message: message.to_owned() }
}

fn refusal_about(message: &str, subject: &str) -> (e: DbError)
    ensures
        e@ == message@ + subject@,
{
    let mut text = message.to_owned();
    text.append(subject);
    DbError { message: text }
}

/// The outcome of an operation over views: what it gives, or why it was refused.
pub open spec fn outcome<T: DeepView>(r: Result<T, DbError>) -> Result<T::V, Text> {
    match r {
        Ok(t) => Ok(t.deep_view()),
        Err(e) => Err(e@),
    }
}

// ---------------------------------------------------------------------------
// Names, resources and permissions
// ---------------------------------------------------------------------------

pub open spec fn is_ascii_alphanumeric(c: char) -> bool {
    'a' <= c <= 'z' || 'A' <= c <= 'Z' || '0' <= c <= '9'
}

pub open spec fn is_username_char(c: char) -> bool {
    is_ascii_alphanumeric(c) || c == '-' || c == '_' || c == '.'
}

/// Why a text is no username, or `None`. White space around it does not count.
pub open spec fn username_error(username: Text) -> Option<Text> {
    let name = text::trimmed(username);
    let n = encode_utf8(name).len();
    if n < 3 || n > 64 {
        Some("username must contain 3 to 64 characters"@)
    } else if forall|i: int| 0 <= i < name.len() ==> is_username_char(#[trigger] name[i]) {
        None
    } else {
        Some("username may contain only ASCII letters, digits, '.', '-' and '_'"@)
    }
}

pub fn validate_username(username: &str) -> (r: Result<(), DbError>)
    ensures
        outcome(r) == match username_error(username@) {
            None => Ok::<(), Text>(()),
            Some(e) => Err(e),
        },
{
    let name = text::trim(username);
    let n = name.as_str().as_bytes().len();
    if n < 3 || n > 64 {
        return Err(refusal("username must contain 3 to 64 characters"));
    }
    let v = text::chars_of(name.as_str());
    let mut i: usize = 0;
    while i < v.len()
        invariant
            i <= v@.len(),
            v@ == name@,
            name@ == text::trimmed(username@),
            3 <= encode_utf8(name@).len() <= 64,
            forall|j: int| 0 <= j < i ==> is_username_char(#[trigger] v@[j]),
        decreases v@.len() - i,
    {
        let c = v[i];
        if !(('a' <= c && c <= 'z') || ('A' <= c && c <= 'Z') || ('0' <= c && c <= '9') || c == '-'
            || c == '_' || c == '.') {
            assert(!is_username_char(name@[i as int]));
            return Err(refusal("username may contain only ASCII letters, digits, '.', '-' and '_'"));
        }
        i = i + 1;
    }
    Ok(())
}

pub open spec fn is_hex_digit(c: char) -> bool {
    'a' <= c <= 'f' || 'A' <= c <= 'F' || '0' <= c <= '9'
}

/// The resource that stands for all repositories.
pub open spec fn every_resource() -> Text {
    "urc-*"@
}

/// `urc-*`, or `urc-` and 32 hexadecimal digits.
pub open spec fn is_resource(resource_id: Text) -> bool {
    ||| resource_id == every_resource()
    ||| match text::after_prefix(resource_id, "urc-"@) {
        Some(id) => id.len() == 32 && forall|i: int|
            0 <= i < id.len() ==> is_hex_digit(#[trigger] id[i]),
        None => false,
    }
}

pub open spec fn resource_refusal() -> Text {
    "resource must be 'urc-*' or 'urc-<32 hex characters>'"@
}

pub fn validate_resource(resource_id: &str) -> (r: Result<(), DbError>)
    ensures
        outcome(r) == if is_resource(resource_id@) {
            Ok::<(), Text>(())
        } else {
            Err(resource_refusal())
        },
{
    if text::same_text(resource_id, "urc-*") {
        return Ok(());
    }
    let id = match text::strip_prefix(resource_id, "urc-") {
        Some(id) => id,
        None => {
            return Err(refusal("resource must be 'urc-*' or 'urc-<32 hex characters>'"));
        },
    };
    let v = text::chars_of(id.as_str());
    if v.len() != 32 {
        return Err(refusal("resource must be 'urc-*' or 'urc-<32 hex characters>'"));
    }
    let mut i: usize = 0;
    while i < v.len()
        invariant
            i <= v@.len(),
            v@ == id@,
            v@.len() == 32,
            resource_id@ != every_resource(),
            text::after_prefix(resource_id@, "urc-"@) == Some(id@),
            forall|j: int| 0 <= j < i ==> is_hex_digit(#[trigger] v@[j]),
        decreases v@.len() - i,
    {
        let c = v[i];
        if !(('a' <= c && c <= 'f') || ('A' <= c && c <= 'F') || ('0' <= c && c <= '9')) {
            assert(!is_hex_digit(id@[i as int]));
            return Err(refusal("resource must be 'urc-*' or 'urc-<32 hex characters>'"));
        }
        i = i + 1;
    }
    Ok(())
}

/// Whether `p` is named in one of the comma separated `lists`.
pub open spec fn is_named(lists: Seq<Text>, p: Text) -> bool {
    &&& p.len() > 0
    &&& exists|i: int, j: int|
        0 <= i < lists.len() && 0 <= j < text::pieces(lists[i], ',').len() && p == text::trimmed(
            #[trigger] text::pieces(lists[i], ',')[j],
        )
}

/// The permissions that the comma separated `lists` name, each once, in order.
pub open spec fn normalized(lists: Seq<Text>) -> Seq<Text> {
    text::in_order(Set::new(|p: Text| is_named(lists, p)))
}

pub fn normalize_permissions(permissions: &[String]) -> (r: Vec<String>)
    ensures
        r.deep_view() == normalized(texts(permissions@)),
        text::ascending(r.deep_view()),
        forall|p: Text| #[trigger] r.deep_view().contains(p) <==> is_named(texts(permissions@), p),
{
    let ghost lists = texts(permissions@);
    let mut r: Vec<String> = Vec::new();
    let mut i: usize = 0;
    assert(r.deep_view().to_set() =~= Set::new(|p: Text| is_named(lists.take(0), p)));
    while i < permissions.len()
        invariant
            i <= permissions@.len(),
            lists == texts(permissions@),
            text::ascending(r.deep_view()),
            r.deep_view().to_set() == Set::new(|p: Text| is_named(lists.take(i as int), p)),
        decreases permissions@.len() - i,
    {
        let parts = text::split(permissions[i].as_str(), ',');
        let ghost parted = text::pieces(lists[i as int], ',');
        assert(parts.deep_view() == parted);
        let mut j: usize = 0;
        let ghost before = r.deep_view().to_set();
        assert(before =~= before.union(Set::new(|p: Text| is_piece(parted.take(0), p))));
        while j < parts.len()
            invariant
                j <= parts@.len(),
                parts.deep_view() == parted,
                text::ascending(r.deep_view()),
                r.deep_view().to_set() == before.union(
                    Set::new(|p: Text| is_piece(parted.take(j as int), p)),
                ),
            decreases parts@.len() - j,
        {
            let item = text::trim(parts[j].as_str());
            let ghost so_far = r.deep_view().to_set();
            assert(parted[j as int] == parts@[j as int]@);
            proof {
                lemma_piece_step(parted, j as int);
            }
            if !item.as_str().is_empty() {
                text::insert_text(&mut r, item);
                assert(r.deep_view().to_set() =~= before.union(
                    Set::new(|p: Text| is_piece(parted.take(j + 1), p)),
                ));
            } else {
                assert(r.deep_view().to_set() =~= before.union(
                    Set::new(|p: Text| is_piece(parted.take(j + 1), p)),
                ));
            }
            j = j + 1;
        }
        proof {
            assert(parted.take(j as int) =~= parted);
            lemma_named_step(lists, i as int);
            assert(r.deep_view().to_set() =~= Set::new(|p: Text| is_named(lists.take(i + 1), p)));
        }
        i = i + 1;
    }
    proof {
        assert(lists.take(i as int) =~= lists);
        text::lemma_in_order(r.deep_view());
        assert forall|p: Text| #[trigger] r.deep_view().contains(p) <==> is_named(lists, p) by {
            assert(r.deep_view().to_set().contains(p) == r.deep_view().contains(p));
        }
    }
    r
}

/// The texts of a list of strings.
pub open spec fn texts(list: Seq<String>) -> Seq<Text> {
    list.map_values(|s: String| s@)
}

spec fn is_piece(parts: Seq<Text>, p: Text) -> bool {
    &&& p.len() > 0
    &&& exists|j: int| 0 <= j < parts.len() && p == text::trimmed(#[trigger] parts[j])
}

proof fn lemma_piece_step(parts: Seq<Text>, j: int)
    requires
        0 <= j < parts.len(),
    ensures
        forall|p: Text|
            #[trigger] is_piece(parts.take(j + 1), p) <==> is_piece(parts.take(j), p) || (p.len() > 0
                && p == text::trimmed(parts[j])),
{
    assert forall|p: Text|
        is_piece(parts.take(j), p) || (p.len() > 0 && p == text::trimmed(
            parts[j],
        )) implies #[trigger] is_piece(parts.take(j + 1), p) by {
        if is_piece(parts.take(j), p) {
            let k = choose|k: int|
                0 <= k < parts.take(j).len() && p == text::trimmed(#[trigger] parts.take(j)[k]);
            assert(parts.take(j + 1)[k] == parts.take(j)[k]);
        } else {
            assert(parts.take(j + 1)[j] == parts[j]);
        }
    }
    assert forall|p: Text| #[trigger] is_piece(parts.take(j + 1), p) implies is_piece(
        parts.take(j),
        p,
    ) || (p.len() > 0 && p == text::trimmed(parts[j])) by {
        let k = choose|k: int|
            0 <= k < parts.take(j + 1).len() && p == text::trimmed(
                #[trigger] parts.take(j + 1)[k],
            );
        if k < j {
            assert(parts.take(j)[k] == parts.take(j + 1)[k]);
        }
    }
}

proof fn lemma_named_step(lists: Seq<Text>, i: int)
    requires
        0 <= i < lists.len(),
    ensures
        forall|p: Text|
            #[trigger] is_named(lists.take(i + 1), p) <==> is_named(lists.take(i), p) || is_piece(
                text::pieces(lists[i], ','),
                p,
            ),
{
    let a = lists.take(i + 1);
    let b = lists.take(i);
    assert forall|p: Text|
        is_named(b, p) || is_piece(text::pieces(lists[i], ','), p) implies #[trigger] is_named(
        a,
        p,
    ) by {
        if is_named(b, p) {
            let (k, j) = choose|k: int, j: int|
                0 <= k < b.len() && 0 <= j < text::pieces(b[k], ',').len() && p == text::trimmed(
                    #[trigger] text::pieces(b[k], ',')[j],
                );
            assert(a[k] == b[k]);
            assert(p == text::trimmed(text::pieces(a[k], ',')[j]));
        } else {
            let j = choose|j: int|
                0 <= j < text::pieces(lists[i], ',').len() && p == text::trimmed(
                    #[trigger] text::pieces(lists[i], ',')[j],
                );
            assert(a[i] == lists[i]);
            assert(p == text::trimmed(text::pieces(a[i], ',')[j]));
        }
    }
    assert forall|p: Text| #[trigger] is_named(a, p) implies is_named(b, p) || is_piece(
        text::pieces(lists[i], ','),
        p,
    ) by {
        let (k, j) = choose|k: int, j: int|
            0 <= k < a.len() && 0 <= j < text::pieces(a[k], ',').len() && p == text::trimmed(
                #[trigger] text::pieces(a[k], ',')[j],
            );
        if k < i {
            assert(b[k] == a[k]);
            assert(p == text::trimmed(text::pieces(b[k], ',')[j]));
        } else {
            assert(a[k] == lists[i]);
            assert(p == text::trimmed(text::pieces(lists[i], ',')[j]));
        }
    }
}

// ---------------------------------------------------------------------------
// The tables
// ---------------------------------------------------------------------------

#[derive(Debug)]
pub struct Database {
    pub users: Vec<UserRow>,
    pub repositories: Vec<RepositoryRow>,
    pub grants: Vec<GrantRow>,
}

#[verifier::ext_equal]
pub struct DatabaseView {
    pub users: Seq<UserRowView>,
    pub repositories: Seq<RepositoryRowView>,
    pub grants: Seq<GrantRowView>,
}

impl View for Database {
    type V = DatabaseView;

    open spec fn view(&self) -> DatabaseView {
        DatabaseView {
            users: views(self.users@),
            repositories: views(self.repositories@),
            grants: views(self.grants@),
        }
    }
}

/// Two users have different identifiers, and names that differ in more than case.
pub open spec fn users_apart() -> spec_fn(UserRowView, UserRowView) -> bool {
    |a: UserRowView, b: UserRowView|
        a.user.id != b.user.id && !text::same_name(a.user.username, b.user.username)
}

pub open spec fn repositories_apart() -> spec_fn(RepositoryRowView, RepositoryRowView) -> bool {
    |a: RepositoryRowView, b: RepositoryRowView| a.resource_id != b.resource_id
}

/// Two grants are of different users or on different resources.
pub open spec fn grants_apart() -> spec_fn(GrantRowView, GrantRowView) -> bool {
    |a: GrantRowView, b: GrantRowView|
        a.user_id != b.user_id || a.resource_id != b.resource_id
}

/// Repositories whose creator is one of the users.
pub open spec fn has_creator(users: Seq<UserRowView>) -> spec_fn(RepositoryRowView) -> bool {
    |r: RepositoryRowView| first_user(users, by_id(r.created_by)) is Some
}

/// Grants to one of the users.
pub open spec fn has_grantee(users: Seq<UserRowView>) -> spec_fn(GrantRowView) -> bool {
    |g: GrantRowView| first_user(users, by_id(g.user_id)) is Some
}

impl DatabaseView {
    /// No two rows of a table have the same key.
    pub open spec fn well_formed(self) -> bool {
        &&& rows::pairwise(self.users, users_apart())
        &&& rows::pairwise(self.repositories, repositories_apart())
        &&& rows::pairwise(self.grants, grants_apart())
    }

    /// Every reference to a user leads to one.
    pub open spec fn referenced(self) -> bool {
        &&& rows::every(self.repositories, has_creator(self.users))
        &&& rows::every(self.grants, has_grantee(self.users))
    }
}

/// Rows of users whose name is `name`, up to the case of ASCII letters.
pub open spec fn by_name(name: Text) -> spec_fn(UserRowView) -> bool {
    |r: UserRowView| text::same_name(r.user.username, name)
}

pub open spec fn by_id(id: Text) -> spec_fn(UserRowView) -> bool {
    |r: UserRowView| r.user.id == id
}

pub open spec fn first_user(users: Seq<UserRowView>, p: spec_fn(UserRowView) -> bool) -> Option<
    UserView,
> {
    match first_where(users, p) {
        Some(row) => Some(row.user),
        None => None,
    }
}

/// Why a user with this name, display name and password is refused before anything
/// is looked up.
pub open spec fn new_user_error(username: Text, display_name: Text, password: Text) -> Option<
    Text,
> {
    match username_error(username) {
        Some(e) => Some(e),
        None => if text::trimmed(display_name).len() == 0 {
            Some("display name must not be empty"@)
        } else if password.len() < 10 {
            Some("password must contain at least 10 characters"@)
        } else {
            None
        },
    }
}

/// Adding a user: the tables afterwards, and the new user or why it was refused.
pub open spec fn created(
    db: DatabaseView,
    username: Text,
    display_name: Text,
    password: Text,
    is_admin: bool,
    salt: Text,
    id: Text,
    now: i64,
) -> (DatabaseView, Result<UserView, Text>) {
    match new_user_error(username, display_name, password) {
        Some(e) => (db, Err(e)),
        None => match password::argon2_hash(password, salt) {
            Err(e) => (db, Err("hashing password: "@ + e)),
            Ok(hash) => {
                let user = UserView {
                    id,
                    username: text::trimmed(username),
                    display_name: text::trimmed(display_name),
                    password_hash: hash,
                    disabled: false,
                    is_admin,
                };
                if first_user(db.users, by_name(user.username)) is Some || first_user(
                    db.users,
                    by_id(id),
                ) is Some {
                    (db, Err("creating user (the username may already exist)"@))
                } else {
                    (
                        DatabaseView {
                            users: db.users.push(UserRowView { user, created_at: now }),
                            ..db
                        },
                        Ok(user),
                    )
                }
            },
        },
    }
}

/// Whether a password opens a user's account: the user, none, or why the stored
/// hash cannot be used.
pub open spec fn authenticated(db: DatabaseView, username: Text, password: Text) -> Result<
    Option<UserView>,
    Text,
> {
    match first_user(db.users, by_name(username)) {
        None => Ok(None),
        Some(user) => if user.disabled {
            Ok(None)
        } else {
            match password::accepted(password, user.password_hash) {
                Err(e) => Err("stored password hash is invalid: "@ + e),
                Ok(true) => Ok(Some(user)),
                Ok(false) => Ok(None),
            }
        },
    }
}

pub open spec fn user_not_found(username: Text) -> Text {
    "user not found: "@ + username
}

/// Whether a password opens the account of a user, unless the user is disabled.
pub open spec fn opens(db: DatabaseView, username: Text, password: Text) -> bool {
    match first_user(db.users, by_name(username)) {
        Some(user) => user.disabled || authenticated(db, username, password) == (Ok::<
            Option<UserView>,
            Text,
        >(Some(user))),
        None => false,
    }
}

/// Whether the password of a user is kept as an Argon2id hash with this salt.
pub open spec fn hashed_with(db: DatabaseView, username: Text, salt: Text) -> bool {
    first_user(db.users, by_name(username)) matches Some(user) && password::is_argon2id(
        user.password_hash,
        salt,
    )
}

/// Enabling or disabling a user.
pub open spec fn with_disabled(db: DatabaseView, username: Text, disabled: bool) -> (
    DatabaseView,
    Result<(), Text>,
) {
    if first_user(db.users, by_name(username)) is Some {
        (
            DatabaseView {
                users: db.users.map_values(
                    |r: UserRowView|
                        if by_name(username)(r) {
                            UserRowView { user: UserView { disabled, ..r.user }, ..r }
                        } else {
                            r
                        },
                ),
                ..db
            },
            Ok(()),
        )
    } else {
        (db, Err(user_not_found(username)))
    }
}

/// Giving a user a new password, hashed with `salt`.
pub open spec fn with_password(db: DatabaseView, username: Text, password: Text, salt: Text) -> (
    DatabaseView,
    Result<(), Text>,
) {
    if password.len() < 10 {
        (db, Err("password must contain at least 10 characters"@))
    } else {
        match password::argon2_hash(password, salt) {
            Err(e) => (db, Err("hashing password: "@ + e)),
            Ok(hash) => if first_user(db.users, by_name(username)) is Some {
                (
                    DatabaseView {
                        users: db.users.map_values(
                            |r: UserRowView|
                                if by_name(username)(r) {
                                    UserRowView {
                                        user: UserView { password_hash: hash, ..r.user },
                                        ..r
                                    }
                                } else {
                                    r
                                },
                        ),
                        ..db
                    },
                    Ok(()),
                )
            } else {
                (db, Err(user_not_found(username)))
            },
        }
    }
}

/// Deleting a user: the repositories go to the successor, the grants go.
pub open spec fn without_user(db: DatabaseView, username: Text, successor: Text) -> (
    DatabaseView,
    Result<(), Text>,
) {
    match first_user(db.users, by_name(username)) {
        None => (db, Err(user_not_found(username))),
        Some(user) => match first_user(db.users, by_name(successor)) {
            None => (db, Err("repository successor not found: "@ + successor)),
            Some(heir) => if user.id == heir.id {
                (db, Err("a user cannot be their own repository successor"@))
            } else {
                (
                    DatabaseView {
                        users: db.users.filter(|r: UserRowView| r.user.id != user.id),
                        repositories: db.repositories.map_values(
                            |r: RepositoryRowView|
                                if r.created_by == user.id {
                                    RepositoryRowView { created_by: heir.id, ..r }
                                } else {
                                    r
                                },
                        ),
                        grants: db.grants.filter(|g: GrantRowView| g.user_id != user.id),
                    },
                    Ok(()),
                )
            },
        },
    }
}

pub open spec fn by_key(user_id: Text, resource_id: Text) -> spec_fn(GrantRowView) -> bool {
    |g: GrantRowView| g.user_id == user_id && g.resource_id == resource_id
}

/// The grants with the permissions of one user on one resource put in.
pub open spec fn granted(
    grants: Seq<GrantRowView>,
    user_id: Text,
    resource_id: Text,
    permissions: Text,
) -> Seq<GrantRowView> {
    if first_where(grants, by_key(user_id, resource_id)) is Some {
        grants.map_values(
            |g: GrantRowView|
                if by_key(user_id, resource_id)(g) {
                    GrantRowView { permissions, ..g }
                } else {
                    g
                },
        )
    } else {
        grants.push(GrantRowView { user_id, resource_id, permissions })
    }
}

pub open spec fn with_grant(
    db: DatabaseView,
    username: Text,
    resource_id: Text,
    permissions: Seq<Text>,
) -> (DatabaseView, Result<(), Text>) {
    if !is_resource(resource_id) {
        (db, Err(resource_refusal()))
    } else if permissions.len() == 0 {
        (db, Err("at least one permission is required"@))
    } else {
        match first_user(db.users, by_name(username)) {
            None => (db, Err(user_not_found(username))),
            Some(user) => (
                DatabaseView {
                    grants: granted(
                        db.grants,
                        user.id,
                        resource_id,
                        json::permissions_json(normalized(permissions)),
                    ),
                    ..db
                },
                Ok(()),
            ),
        }
    }
}

pub open spec fn without_grant(db: DatabaseView, username: Text, resource_id: Text) -> (
    DatabaseView,
    Result<(), Text>,
) {
    match first_user(db.users, by_name(username)) {
        None => (db, Err(user_not_found(username))),
        Some(user) => (
            DatabaseView {
                grants: db.grants.filter(|g: GrantRowView| !by_key(user.id, resource_id)(g)),
                ..db
            },
            Ok(()),
        ),
    }
}

/// Whether the named user is an enabled administrator with the full permission on all
/// resources.
pub open spec fn has_full_administrator(db: DatabaseView, username: Option<Text>) -> bool {
    &&& username is Some
    &&& match first_user(db.users, by_name(text::trimmed(username->0))) {
        Some(user) => user.is_admin && !user.disabled && permitted(db, user.id, every_resource())
            == (Ok::<Seq<Text>, Text>(seq!["*"@])),
        None => false,
    }
}

/// The tables with the administrator of the first start put right.
pub open spec fn with_bootstrap_admin(
    db: DatabaseView,
    username: Option<Text>,
    password: Option<Text>,
    salt: Text,
    id: Text,
    now: i64,
) -> (DatabaseView, Result<(), Text>) {
    match username {
        Some(given) if text::trimmed(given).len() > 0 => {
            let name = text::trimmed(given);
            match first_user(db.users, by_name(name)) {
                Some(user) => with_grant(
                    DatabaseView {
                        users: db.users.map_values(
                            |r: UserRowView|
                                if by_id(user.id)(r) {
                                    UserRowView {
                                        user: UserView { disabled: false, is_admin: true, ..r.user },
                                        ..r
                                    }
                                } else {
                                    r
                                },
                        ),
                        ..db
                    },
                    name,
                    every_resource(),
                    seq!["*"@],
                ),
                None => match password {
                    None => (
                        db,
                        Err(
                            "bootstrap administrator does not exist; set LORE_AUTH_BOOTSTRAP_PASSWORD"@,
                        ),
                    ),
                    Some(password) => match created(db, name, name, password, true, salt, id, now) {
                        (_, Err(e)) => (db, Err(e)),
                        (next, Ok(user)) => with_grant(
                            next,
                            user.username,
                            every_resource(),
                            seq!["*"@],
                        ),
                    },
                },
            }
        },
        _ => (db, Err("LORE_AUTH_BOOTSTRAP_USERNAME must be set"@)),
    }
}

impl Database {
    /// The empty tables.
    pub fn initialize() -> (db: Database)
        ensures
            db@.users.len() == 0,
            db@.repositories.len() == 0,
            db@.grants.len() == 0,
            db@.well_formed(),
            db@.referenced(),
    {
        Database { users: Vec::new(), repositories: Vec::new(), grants: Vec::new() }
    }

    /// The tables with the given rows, where no key occurs twice. A reference to a user
    /// who is not there does no harm.
    pub fn open(
        users: Vec<UserRow>,
        repositories: Vec<RepositoryRow>,
        grants: Vec<GrantRow>,
    ) -> (r: Result<Database, DbError>)
        ensures
            ({
                let tables = DatabaseView {
                    users: views(users@),
                    repositories: views(repositories@),
                    grants: views(grants@),
                };
                match r {
                    Ok(db) => tables.well_formed() && db@ == tables,
                    Err(e) => !tables.well_formed() && e@
                        == "the stored tables break their constraints"@,
                }
            }),
    {
        let db = Database { users, repositories, grants };
        let sound = rows::all_pairs(
            &db.users,
            |a: &UserRow, b: &UserRow| -> (c: bool)
                ensures
                    c == users_apart()(a@, b@)
                {
                    !text::same_text(a.user.id.as_str(), b.user.id.as_str())
                        && !text::eq_ignore_ascii_case(
                        a.user.username.as_str(),
                        b.user.username.as_str(),
                    )
                },
            Ghost(users_apart()),
        ) && rows::all_pairs(
            &db.repositories,
            |a: &RepositoryRow, b: &RepositoryRow| -> (c: bool)
                ensures
                    c == repositories_apart()(a@, b@)
                { !text::same_text(a.resource_id.as_str(), b.resource_id.as_str()) },
            Ghost(repositories_apart()),
        ) && rows::all_pairs(
            &db.grants,
            |a: &GrantRow, b: &GrantRow| -> (c: bool)
                ensures
                    c == grants_apart()(a@, b@)
                {
                    !text::same_text(a.user_id.as_str(), b.user_id.as_str())
                        || !text::same_text(a.resource_id.as_str(), b.resource_id.as_str())
                },
            Ghost(grants_apart()),
        );
        if sound {
            Ok(db)
        } else {
            Err(refusal("the stored tables break their constraints"))
        }
    }

    pub fn find_user_by_username(&self, username: &str) -> (r: Option<User>)
        ensures
            r.deep_view() == first_user(self@.users, by_name(username@)),
    {
        match rows::position(
            &self.users,
            |row: &UserRow| -> (b: bool)
                ensures
                    b == by_name(username@)(row@)
                { text::eq_ignore_ascii_case(row.user.username.as_str(), username) },
            Ghost(by_name(username@)),
        ) {
            Some(i) => Some(self.users[i].user.clone()),
            None => None,
        }
    }

    pub fn find_user_by_id(&self, id: &str) -> (r: Option<User>)
        ensures
            r.deep_view() == first_user(self@.users, by_id(id@)),
    {
        match rows::position(
            &self.users,
            |row: &UserRow| -> (b: bool)
                ensures
                    b == by_id(id@)(row@)
                { text::same_text(row.user.id.as_str(), id) },
            Ghost(by_id(id@)),
        ) {
            Some(i) => Some(self.users[i].user.clone()),
            None => None,
        }
    }

    /// Adds a user whose password is hashed with `salt`.
    pub fn create_user_with(
        &mut self,
        username: &str,
        display_name: &str,
        password: &str,
        is_admin: bool,
        salt: &str,
        id: String,
        now: i64,
    ) -> (r: Result<User, DbError>)
        ensures
            (final(self)@, outcome(r)) == created(
                old(self)@,
                username@,
                display_name@,
                password@,
                is_admin,
                salt@,
                id@,
                now,
            ),
            r matches Ok(user) ==> authenticated(final(self)@, user@.username, password@) == (Ok::<
                Option<UserView>,
                Text,
            >(Some(user@))),
            r matches Ok(user) ==> password::is_argon2id(user@.password_hash, salt@),
    {
        match validate_username(username) {
            Err(e) => {
                return Err(e);
            },
            Ok(_) => {},
        }
        let display_name = text::trim(display_name);
        if display_name.as_str().is_empty() {
            return Err(refusal("display name must not be empty"));
        }
        if password.unicode_len() < 10 {
            return Err(refusal("password must contain at least 10 characters"));
        }
        let password_hash = match password::hash(password, salt) {
            Ok(hash) => hash,
            Err(e) => {
                return Err(refusal_about("hashing password: ", e.as_str()));
            },
        };
        let username = text::trim(username);
        if self.find_user_by_username(username.as_str()).is_some() || self.find_user_by_id(
            id.as_str(),
        ).is_some() {
            return Err(refusal("creating user (the username may already exist)"));
        }
        let user = User { id, username, display_name, password_hash, disabled: false, is_admin };
        let ghost before = views(self.users@);
        self.users.push(UserRow { user: user.clone(), created_at: now });
        proof {
            let row = UserRowView { user: user@, created_at: now };
            assert(views(self.users@) =~= before.push(row));
            rows::lemma_first_where_push(before, row, by_name(user@.username));
        }
        Ok(user)
    }

    /// Adds a user under a new identifier, with a new salt, at the present time.
    pub fn create_user(
        &mut self,
        username: &str,
        display_name: &str,
        password: &str,
        is_admin: bool,
    ) -> (r: Result<User, DbError>)
        ensures
            exists|salt: Text, id: Text, now: i64|
                ids::is_uuid_text(id) && password::serves(salt) && 0 <= now <= clock::CLOCK_LIMIT
                    && (final(self)@, outcome(r)) == #[trigger] created(
                    old(self)@,
                    username@,
                    display_name@,
                    password@,
                    is_admin,
                    salt,
                    id,
                    now,
                ) && (r matches Ok(user) ==> password::is_argon2id(user@.password_hash, salt)),
            r matches Ok(user) ==> authenticated(final(self)@, user@.username, password@) == (Ok::<
                Option<UserView>,
                Text,
            >(Some(user@))),
    {
        let salt = password::fresh_salt();
        let id = ids::fresh_id();
        let now = clock::now();
        self.create_user_with(username, display_name, password, is_admin, salt.as_str(), id, now)
    }

    pub fn authenticate(&self, username: &str, password: &str) -> (r: Result<Option<User>, DbError>)
        ensures
            outcome(r) == authenticated(self@, username@, password@),
    {
        let user = match self.find_user_by_username(username) {
            Some(user) => user,
            None => {
                // Keep the failure path expensive enough to discourage username probing.
                let salt = password::fresh_salt();
                let _ = password::hash(password, salt.as_str());
                return Ok(None);
            },
        };
        if user.disabled {
            return Ok(None);
        }
        match password::check(password, user.password_hash.as_str()) {
            Err(e) => Err(refusal_about("stored password hash is invalid: ", e.as_str())),
            Ok(true) => Ok(Some(user)),
            Ok(false) => Ok(None),
        }
    }

    pub fn set_disabled(&mut self, username: &str, disabled: bool) -> (r: Result<(), DbError>)
        ensures
            (final(self)@, outcome(r)) == with_disabled(old(self)@, username@, disabled),
    {
        if self.find_user_by_username(username).is_none() {
            return Err(refusal_about("user not found: ", username));
        }
        rows::update(
            &mut self.users,
            |row: &UserRow| -> (o: Option<UserRow>)
                ensures
                    match o {
                        Some(n) => by_name(username@)(row@) && n@ == (UserRowView {
                            user: UserView { disabled, ..row@.user },
                            ..row@
                        }),
                        None => !by_name(username@)(row@),
                    }
                {
                    if text::eq_ignore_ascii_case(row.user.username.as_str(), username) {
                        let mut user = row.user.clone();
                        user.disabled = disabled;
                        Some(UserRow { user, created_at: row.created_at })
                    } else {
                        None
                    }
                },
            Ghost(
                |r: UserRowView|
                    if by_name(username@)(r) {
                        UserRowView { user: UserView { disabled, ..r.user }, ..r }
                    } else {
                        r
                    },
            ),
        );
        Ok(())
    }

    /// Gives a user a new password, hashed with `salt`.
    pub fn set_password_with(&mut self, username: &str, password: &str, salt: &str) -> (r: Result<
        (),
        DbError,
    >)
        ensures
            (final(self)@, outcome(r)) == with_password(old(self)@, username@, password@, salt@),
            r is Ok ==> opens(final(self)@, username@, password@),
            r is Ok ==> hashed_with(final(self)@, username@, salt@),
    {
        if password.unicode_len() < 10 {
            return Err(refusal("password must contain at least 10 characters"));
        }
        let hash = match password::hash(password, salt) {
            Ok(hash) => hash,
            Err(e) => {
                return Err(refusal_about("hashing password: ", e.as_str()));
            },
        };
        if self.find_user_by_username(username).is_none() {
            return Err(refusal_about("user not found: ", username));
        }
        rows::update(
            &mut self.users,
            |row: &UserRow| -> (o: Option<UserRow>)
                ensures
                    match o {
                        Some(n) => by_name(username@)(row@) && n@ == (UserRowView {
                            user: UserView { password_hash: hash@, ..row@.user },
                            ..row@
                        }),
                        None => !by_name(username@)(row@),
                    }
                {
                    if text::eq_ignore_ascii_case(row.user.username.as_str(), username) {
                        let mut user = row.user.clone();
                        user.password_hash = hash.clone();
                        Some(UserRow { user, created_at: row.created_at })
                    } else {
                        None
                    }
                },
            Ghost(
                |r: UserRowView|
                    if by_name(username@)(r) {
                        UserRowView { user: UserView { password_hash: hash@, ..r.user }, ..r }
                    } else {
                        r
                    },
            ),
        );
        proof {
            let g = |r: UserRowView|
                if by_name(username@)(r) {
                    UserRowView { user: UserView { password_hash: hash@, ..r.user }, ..r }
                } else {
                    r
                };
            rows::lemma_first_where(old(self)@.users, by_name(username@));
            rows::lemma_first_where_map(old(self)@.users, by_name(username@), g);
            assert(self@.users =~= old(self)@.users.map_values(g));
        }
        Ok(())
    }

    /// Gives a user a new password, hashed with a new salt.
    pub fn set_password(&mut self, username: &str, password: &str) -> (r: Result<(), DbError>)
        ensures
            exists|salt: Text|
                password::serves(salt) && (final(self)@, outcome(r)) == #[trigger] with_password(
                    old(self)@,
                    username@,
                    password@,
                    salt,
                ) && (r is Ok ==> hashed_with(final(self)@, username@, salt)),
            r is Ok ==> opens(final(self)@, username@, password@),
    {
        let salt = password::fresh_salt();
        self.set_password_with(username, password, salt.as_str())
    }

    pub fn delete_user(&mut self, username: &str, repository_successor: &str) -> (r: Result<
        (),
        DbError,
    >)
        ensures
            (final(self)@, outcome(r)) == without_user(
                old(self)@,
                username@,
                repository_successor@,
            ),
    {
        let user = match self.find_user_by_username(username) {
            Some(user) => user,
            None => {
                return Err(refusal_about("user not found: ", username));
            },
        };
        let successor = match self.find_user_by_username(repository_successor) {
            Some(user) => user,
            None => {
                return Err(
                    refusal_about("repository successor not found: ", repository_successor),
                );
            },
        };
        if text::same_text(user.id.as_str(), successor.id.as_str()) {
            return Err(refusal("a user cannot be their own repository successor"));
        }
        let id = user.id;
        let heir = successor.id;
        rows::update(
            &mut self.repositories,
            |row: &RepositoryRow| -> (o: Option<RepositoryRow>)
                ensures
                    match o {
                        Some(n) => row@.created_by == id@ && n@ == (RepositoryRowView {
                            created_by: heir@,
                            ..row@
                        }),
                        None => row@.created_by != id@,
                    }
                {
                    if text::same_text(row.created_by.as_str(), id.as_str()) {
                        Some(
                            RepositoryRow {
                                resource_id: row.resource_id.clone(),
                                name: row.name.clone(),
                                created_by: heir.clone(),
                                created_at: row.created_at,
                            },
                        )
                    } else {
                        None
                    }
                },
            Ghost(
                |r: RepositoryRowView|
                    if r.created_by == id@ {
                        RepositoryRowView { created_by: heir@, ..r }
                    } else {
                        r
                    },
            ),
        );
        rows::retain(
            &mut self.users,
            |row: &UserRow| -> (b: bool)
                ensures
                    b == (row@.user.id != id@)
                { !text::same_text(row.user.id.as_str(), id.as_str()) },
            Ghost(|r: UserRowView| r.user.id != id@),
        );
        rows::retain(
            &mut self.grants,
            |row: &GrantRow| -> (b: bool)
                ensures
                    b == (row@.user_id != id@)
                { !text::same_text(row.user_id.as_str(), id.as_str()) },
            Ghost(|g: GrantRowView| g.user_id != id@),
        );
        Ok(())
    }

    /// Puts the permissions of one user on one resource into the grants.
    fn put_grant(&mut self, user_id: &str, resource_id: &str, permissions: String)
        ensures
            final(self)@ == (DatabaseView {
                grants: granted(old(self)@.grants, user_id@, resource_id@, permissions@),
                ..old(self)@
            }),
    {
        let ghost key = by_key(user_id@, resource_id@);
        let found = rows::position(
            &self.grants,
            |row: &GrantRow| -> (b: bool)
                ensures
                    b == key(row@)
                {
                    text::same_text(row.user_id.as_str(), user_id) && text::same_text(
                        row.resource_id.as_str(),
                        resource_id,
                    )
                },
            Ghost(key),
        );
        if found.is_some() {
            rows::update(
                &mut self.grants,
                |row: &GrantRow| -> (o: Option<GrantRow>)
                    ensures
                        match o {
                            Some(n) => key(row@) && n@ == (GrantRowView {
                                permissions: permissions@,
                                ..row@
                            }),
                            None => !key(row@),
                        }
                    {
                        if text::same_text(row.user_id.as_str(), user_id) && text::same_text(
                            row.resource_id.as_str(),
                            resource_id,
                        ) {
                            Some(
                                GrantRow {
                                    user_id: row.user_id.clone(),
                                    resource_id: row.resource_id.clone(),
                                    permissions: permissions.clone(),
                                },
                            )
                        } else {
                            None
                        }
                    },
                Ghost(
                    |g: GrantRowView|
                        if key(g) {
                            GrantRowView { permissions: permissions@, ..g }
                        } else {
                            g
                        },
                ),
            );
        } else {
            let ghost before = views(self.grants@);
            self.grants.push(
                GrantRow {
                    user_id: user_id.to_owned(),
                    resource_id: resource_id.to_owned(),
                    permissions,
                },
            );
            assert(views(self.grants@) =~= before.push(
                GrantRowView {
                    user_id: user_id@,
                    resource_id: resource_id@,
                    permissions: permissions@,
                },
            ));
        }
    }

    pub fn set_grant(&mut self, username: &str, resource_id: &str, permissions: &[String]) -> (r:
        Result<(), DbError>)
        ensures
            (final(self)@, outcome(r)) == with_grant(
                old(self)@,
                username@,
                resource_id@,
                texts(permissions@),
            ),
            r is Ok ==> ({
                let user = first_user(old(self)@.users, by_name(username@))->0;
                let shown = permitted(final(self)@, user.id, resource_id@);
                &&& shown is Ok ==> forall|p: Text| #[trigger]
                    is_named(texts(permissions@), p) ==> shown->Ok_0.contains(p)
                &&& resource_id@ == every_resource() || first_where(
                    old(self)@.grants,
                    by_key(user.id, every_resource()),
                ) is None ==> shown == (Ok::<Seq<Text>, Text>(normalized(texts(permissions@))))
            }),
    {
        match validate_resource(resource_id) {
            Err(e) => {
                return Err(e);
            },
            Ok(_) => {},
        }
        if permissions.len() == 0 {
            return Err(refusal("at least one permission is required"));
        }
        let user = match self.find_user_by_username(username) {
            Some(user) => user,
            None => {
                return Err(refusal_about("user not found: ", username));
            },
        };
        let list = normalize_permissions(permissions);
        let encoded = json::write_permissions(&list);
        proof {
            db_laws::lemma_granted_is_permitted(
                self@,
                user@.id,
                resource_id@,
                list.deep_view(),
            );
            assert(self@.grants == old(self)@.grants);
        }
        self.put_grant(user.id.as_str(), resource_id, encoded);
        proof {
            let shown = permitted(self@, user@.id, resource_id@);
            if shown is Ok {
                assert forall|p: Text| #[trigger]
                    is_named(texts(permissions@), p) implies shown->Ok_0.contains(p) by {
                    assert(list.deep_view().contains(p));
                }
            }
        }
        Ok(())
    }

    pub fn revoke_grant(&mut self, username: &str, resource_id: &str) -> (r: Result<(), DbError>)
        ensures
            (final(self)@, outcome(r)) == without_grant(old(self)@, username@, resource_id@),
    {
        let user = match self.find_user_by_username(username) {
            Some(user) => user,
            None => {
                return Err(refusal_about("user not found: ", username));
            },
        };
        let id = user.id;
        rows::retain(
            &mut self.grants,
            |row: &GrantRow| -> (b: bool)
                ensures
                    b == !by_key(id@, resource_id@)(row@)
                {
                    !(text::same_text(row.user_id.as_str(), id.as_str()) && text::same_text(
                        row.resource_id.as_str(),
                        resource_id,
                    ))
                },
            Ghost(|g: GrantRowView| !by_key(id@, resource_id@)(g)),
        );
        Ok(())
    }

    /// Restores the administrator of the first start, or makes it with `salt`.
    pub fn ensure_bootstrap_admin_with(
        &mut self,
        username: Option<&str>,
        password: Option<&str>,
        salt: &str,
        id: String,
        now: i64,
    ) -> (r: Result<(), DbError>)
        ensures
            (final(self)@, outcome(r)) == with_bootstrap_admin(
                old(self)@,
                username.deep_view(),
                password.deep_view(),
                salt@,
                id@,
                now,
            ),
            r is Ok ==> has_full_administrator(final(self)@, username.deep_view()),
    {
        let name = match username {
            Some(given) => text::trim(given),
            None => {
                return Err(refusal("LORE_AUTH_BOOTSTRAP_USERNAME must be set"));
            },
        };
        if name.as_str().is_empty() {
            return Err(refusal("LORE_AUTH_BOOTSTRAP_USERNAME must be set"));
        }
        let mut all: Vec<String> = Vec::new();
        all.push("*".to_owned());
        proof {
            assert(texts(all@) =~= seq!["*"@]);
            db_laws::lemma_full_permission();
        }
        match self.find_user_by_username(name.as_str()) {
            Some(user) => {
                let id = user.id;
                rows::update(
                    &mut self.users,
                    |row: &UserRow| -> (o: Option<UserRow>)
                        ensures
                            match o {
                                Some(n) => by_id(id@)(row@) && n@ == (UserRowView {
                                    user: UserView {
                                        disabled: false,
                                        is_admin: true,
                                        ..row@.user
                                    },
                                    ..row@
                                }),
                                None => !by_id(id@)(row@),
                            }
                        {
                            if text::same_text(row.user.id.as_str(), id.as_str()) {
                                let mut user = row.user.clone();
                                user.disabled = false;
                                user.is_admin = true;
                                Some(UserRow { user, created_at: row.created_at })
                            } else {
                                None
                            }
                        },
                    Ghost(
                        |r: UserRowView|
                            if by_id(id@)(r) {
                                UserRowView {
                                    user: UserView { disabled: false, is_admin: true, ..r.user },
                                    ..r
                                }
                            } else {
                                r
                            },
                    ),
                );
                proof {
                    rows::lemma_first_where_map(
                        old(self)@.users,
                        by_name(name@),
                        db_laws::restored(id@),
                    );
                    assert(self@.users =~= old(self)@.users.map_values(db_laws::restored(id@)));
                }
                self.set_grant(name.as_str(), "urc-*", all.as_slice())
            },
            None => {
                let password = match password {
                    Some(password) => password,
                    None => {
                        return Err(
                            refusal(
                                "bootstrap administrator does not exist; set LORE_AUTH_BOOTSTRAP_PASSWORD",
                            ),
                        );
                    },
                };
                match self.create_user_with(
                    name.as_str(),
                    name.as_str(),
                    password,
                    true,
                    salt,
                    id,
                    now,
                ) {
                    Ok(user) => {
                        proof {
                            db_laws::created_users_are_found(
                                old(self)@,
                                name@,
                                name@,
                                password@,
                                true,
                                salt@,
                                user@.id,
                                now,
                            );
                            db_laws::lemma_trimmed_twice(username->0@);
                        }
                        self.set_grant(user.username.as_str(), "urc-*", all.as_slice())
                    },
                    Err(e) => Err(e),
                }
            },
        }
    }

    /// Restores the administrator of the first start without touching its password,
    /// or makes it with a new salt and identifier.
    pub fn ensure_bootstrap_admin(
        &mut self,
        username: Option<&str>,
        password: Option<&str>,
    ) -> (r: Result<(), DbError>)
        ensures
            exists|salt: Text, id: Text, now: i64|
                ids::is_uuid_text(id) && password::serves(salt) && 0 <= now <= clock::CLOCK_LIMIT
                    && (final(self)@, outcome(r)) == #[trigger] with_bootstrap_admin(
                    old(self)@,
                    username.deep_view(),
                    password.deep_view(),
                    salt,
                    id,
                    now,
                ),
            r is Ok ==> has_full_administrator(final(self)@, username.deep_view()),
    {
        let salt = password::fresh_salt();
        let id = ids::fresh_id();
        let now = clock::now();
        self.ensure_bootstrap_admin_with(username, password, salt.as_str(), id, now)
    }
}

// ---------------------------------------------------------------------------
// Reading the tables in order
// ---------------------------------------------------------------------------

#[derive(Debug)]
pub struct Grant {
    pub resource_id: String,
    pub permissions: Vec<String>,
}

#[verifier::ext_equal]
pub struct GrantView {
    pub resource_id: Text,
    pub permissions: Seq<Text>,
}

impl View for Grant {
    type V = GrantView;

    open spec fn view(&self) -> GrantView {
        GrantView { resource_id: self.resource_id@, permissions: self.permissions.deep_view() }
    }
}

impl DeepView for Grant {
    type V = GrantView;

    open spec fn deep_view(&self) -> GrantView {
        self@
    }
}

#[derive(Debug)]
pub struct UserGrant {
    pub username: String,
    pub resource_id: String,
    pub permissions: Vec<String>,
}

#[verifier::ext_equal]
pub struct UserGrantView {
    pub username: Text,
    pub resource_id: Text,
    pub permissions: Seq<Text>,
}

impl View for UserGrant {
    type V = UserGrantView;

    open spec fn view(&self) -> UserGrantView {
        UserGrantView {
            username: self.username@,
            resource_id: self.resource_id@,
            permissions: self.permissions.deep_view(),
        }
    }
}

impl DeepView for UserGrant {
    type V = UserGrantView;

    open spec fn deep_view(&self) -> UserGrantView {
        self@
    }
}

/// A grant with the name of its user in place of the identifier.
pub struct NamedGrantRow {
    pub username: String,
    pub resource_id: String,
    pub permissions: String,
}

#[verifier::ext_equal]
pub struct NamedGrantRowView {
    pub username: Text,
    pub resource_id: Text,
    pub permissions: Text,
}

impl View for NamedGrantRow {
    type V = NamedGrantRowView;

    open spec fn view(&self) -> NamedGrantRowView {
        NamedGrantRowView {
            username: self.username@,
            resource_id: self.resource_id@,
            permissions: self.permissions@,
        }
    }
}

/// Users rank by name, without regard to the case of ASCII letters.
impl Ranked for User {
    open spec fn before(a: UserView, b: UserView) -> bool {
        text::text_less(text::folded(a.username), text::folded(b.username))
    }

    fn comes_before(&self, other: &Self) -> (r: bool) {
        let x = text::folded_chars(self.username.as_str());
        let y = text::folded_chars(other.username.as_str());
        text::chars_less(&x, &y)
    }

    proof fn before_asymmetric(a: UserView, b: UserView) {
        text::lemma_text_less_asymmetric(text::folded(a.username), text::folded(b.username));
    }

    proof fn not_before_transitive(a: UserView, b: UserView, c: UserView) {
        text::lemma_not_less_transitive(
            text::folded(a.username),
            text::folded(b.username),
            text::folded(c.username),
        );
    }
}

/// Strings rank by code points.
impl Ranked for String {
    open spec fn before(a: Text, b: Text) -> bool {
        text::text_less(a, b)
    }

    fn comes_before(&self, other: &Self) -> (r: bool) {
        text::is_less(self.as_str(), other.as_str())
    }

    proof fn before_asymmetric(a: Text, b: Text) {
        text::lemma_text_less_asymmetric(a, b);
    }

    proof fn not_before_transitive(a: Text, b: Text, c: Text) {
        text::lemma_not_less_transitive(a, b, c);
    }
}

/// Grants rank by resource.
impl Ranked for GrantRow {
    open spec fn before(a: GrantRowView, b: GrantRowView) -> bool {
        text::text_less(a.resource_id, b.resource_id)
    }

    fn comes_before(&self, other: &Self) -> (r: bool) {
        text::is_less(self.resource_id.as_str(), other.resource_id.as_str())
    }

    proof fn before_asymmetric(a: GrantRowView, b: GrantRowView) {
        text::lemma_text_less_asymmetric(a.resource_id, b.resource_id);
    }

    proof fn not_before_transitive(a: GrantRowView, b: GrantRowView, c: GrantRowView) {
        text::lemma_not_less_transitive(a.resource_id, b.resource_id, c.resource_id);
    }
}

/// Grants with names rank by the name, without regard to the case of ASCII letters,
/// and then by resource.
impl Ranked for NamedGrantRow {
    open spec fn before(a: NamedGrantRowView, b: NamedGrantRowView) -> bool {
        let x = text::folded(a.username);
        let y = text::folded(b.username);
        text::text_less(x, y) || (x == y && text::text_less(a.resource_id, b.resource_id))
    }

    fn comes_before(&self, other: &Self) -> (r: bool) {
        let x = text::folded_chars(self.username.as_str());
        let y = text::folded_chars(other.username.as_str());
        if text::chars_less(&x, &y) {
            return true;
        }
        text::eq_ignore_ascii_case(self.username.as_str(), other.username.as_str())
            && text::is_less(self.resource_id.as_str(), other.resource_id.as_str())
    }

    proof fn before_asymmetric(a: NamedGrantRowView, b: NamedGrantRowView) {
        let x = text::folded(a.username);
        let y = text::folded(b.username);
        text::lemma_text_less_irreflexive(x);
        if text::text_less(x, y) {
            text::lemma_text_less_asymmetric(x, y);
        } else {
            text::lemma_text_less_asymmetric(a.resource_id, b.resource_id);
        }
    }

    proof fn not_before_transitive(
        a: NamedGrantRowView,
        b: NamedGrantRowView,
        c: NamedGrantRowView,
    ) {
        let x = text::folded(a.username);
        let y = text::folded(b.username);
        let z = text::folded(c.username);
        text::lemma_not_less_transitive(x, y, z);
        text::lemma_text_less_total(x, y);
        text::lemma_text_less_total(y, z);
        if x == z {
            text::lemma_text_less_irreflexive(x);
            if x != y {
                text::lemma_text_less_asymmetric(y, x);
            }
            if !text::text_less(a.resource_id, b.resource_id) && !text::text_less(
                b.resource_id,
                c.resource_id,
            ) {
                text::lemma_not_less_transitive(a.resource_id, b.resource_id, c.resource_id);
            }
        }
    }
}

/// The users in the order of their names.
pub open spec fn listed_users(db: DatabaseView) -> Seq<UserView> {
    sorting::sorted::<User>(db.users.map_values(|r: UserRowView| r.user))
}

/// The permissions of the rows taken together, or why the first row that is no list
/// of permissions cannot be read.
pub open spec fn merged(grants: Seq<GrantRowView>) -> Result<Set<Text>, Text>
    decreases grants.len(),
{
    if grants.len() == 0 {
        Ok(Set::empty())
    } else {
        match merged(grants.drop_last()) {
            Err(e) => Err(e),
            Ok(before) => match json::permissions_in(grants.last().permissions) {
                Err(e) => Err(e),
                Ok(list) => Ok(before.union(list.to_set())),
            },
        }
    }
}

/// Grants that say what a user may do with a resource: those on the resource, and
/// those on all resources.
pub open spec fn applies(user_id: Text, resource_id: Text) -> spec_fn(GrantRowView) -> bool {
    |g: GrantRowView|
        g.user_id == user_id && (g.resource_id == resource_id || g.resource_id == every_resource())
}

/// What a user may do with a resource: each permission once, in order.
pub open spec fn permitted(db: DatabaseView, user_id: Text, resource_id: Text) -> Result<
    Seq<Text>,
    Text,
> {
    match merged(db.grants.filter(applies(user_id, resource_id))) {
        Ok(set) => Ok(text::in_order(set)),
        Err(e) => Err(e),
    }
}

/// Why a stored text cannot be read as a list: how long it is, and what is wrong.
pub open spec fn conversion_error(encoded: Text, error: Text) -> Text {
    "Conversion error from type Text at index: "@ + text::decimal(encode_utf8(encoded).len())
        + ", "@ + error
}

fn write_conversion_error(encoded: &str, error: &str) -> (e: DbError)
    ensures
        e@ == conversion_error(encoded@, error@),
{
    let mut message = "Conversion error from type Text at index: ".to_owned();
    message.append(text::write_decimal(encoded.as_bytes().len() as u64).as_str());
    message.append(", ");
    message.append(error);
    DbError { message }
}

/// The rows with their permissions read, or why the first that cannot be read.
pub open spec fn read_grants(grants: Seq<GrantRowView>) -> Result<Seq<GrantView>, Text>
    decreases grants.len(),
{
    if grants.len() == 0 {
        Ok(Seq::empty())
    } else {
        match read_grants(grants.drop_last()) {
            Err(e) => Err(e),
            Ok(before) => match json::permissions_in(grants.last().permissions) {
                Err(e) => Err(conversion_error(grants.last().permissions, e)),
                Ok(permissions) => Ok(
                    before.push(
                        GrantView { resource_id: grants.last().resource_id, permissions },
                    ),
                ),
            },
        }
    }
}

/// The bytes that a filter must not reach.
pub const FILTER_LIMIT: usize = 50_000;

/// Whether a filter is too long for a row to be tried against it.
pub open spec fn overlong(filter: Text) -> bool {
    encode_utf8(filter).len() >= FILTER_LIMIT
}

pub open spec fn by_grantee(user_id: Text) -> spec_fn(GrantRowView) -> bool {
    |g: GrantRowView| g.user_id == user_id
}

/// Grants of a user on single resources that pass a filter.
pub open spec fn listable(user_id: Text, filter: Text) -> spec_fn(GrantRowView) -> bool {
    |g: GrantRowView|
        g.user_id == user_id && text::passes_filter(filter, g.resource_id) && g.resource_id
            != every_resource()
}

pub open spec fn listed_grants(db: DatabaseView, user_id: Text, filter: Text) -> Result<
    Seq<GrantView>,
    Text,
> {
    if overlong(filter) && first_where(db.grants, by_grantee(user_id)) is Some {
        Err("LIKE or GLOB pattern too complex"@)
    } else {
        read_grants(sorting::sorted::<GrantRow>(db.grants.filter(listable(user_id, filter))))
    }
}

pub open spec fn read_named_grants(grants: Seq<NamedGrantRowView>) -> Result<
    Seq<UserGrantView>,
    Text,
>
    decreases grants.len(),
{
    if grants.len() == 0 {
        Ok(Seq::empty())
    } else {
        match read_named_grants(grants.drop_last()) {
            Err(e) => Err(e),
            Ok(before) => match json::permissions_in(grants.last().permissions) {
                Err(e) => Err(conversion_error(grants.last().permissions, e)),
                Ok(permissions) => Ok(
                    before.push(
                        UserGrantView {
                            username: grants.last().username,
                            resource_id: grants.last().resource_id,
                            permissions,
                        },
                    ),
                ),
            },
        }
    }
}

/// The grants of known users, each with the user's name.
pub open spec fn named_grants(db: DatabaseView) -> Seq<NamedGrantRowView> {
    db.grants.filter(|g: GrantRowView| first_user(db.users, by_id(g.user_id)) is Some).map_values(
        |g: GrantRowView|
            NamedGrantRowView {
                username: first_user(db.users, by_id(g.user_id))->0.username,
                resource_id: g.resource_id,
                permissions: g.permissions,
            },
    )
}

/// All grants, by the names of their users and then by resource.
pub open spec fn listed_user_grants(db: DatabaseView) -> Result<Seq<UserGrantView>, Text> {
    read_named_grants(sorting::sorted::<NamedGrantRow>(named_grants(db)))
}

/// The repositories that pass a filter, in order.
pub open spec fn matching_repositories(db: DatabaseView, filter: Text) -> Seq<Text> {
    sorting::sorted::<String>(
        db.repositories.filter(
            |r: RepositoryRowView| text::passes_filter(filter, r.resource_id),
        ).map_values(|r: RepositoryRowView| r.resource_id),
    )
}

pub open spec fn listed_repositories(db: DatabaseView, filter: Text) -> Result<Seq<Text>, Text> {
    if overlong(filter) && db.repositories.len() > 0 {
        Err("LIKE or GLOB pattern too complex"@)
    } else {
        Ok(matching_repositories(db, filter))
    }
}

pub open spec fn by_resource(resource_id: Text) -> spec_fn(RepositoryRowView) -> bool {
    |r: RepositoryRowView| r.resource_id == resource_id
}

/// What the creator of a repository may do with it.
pub open spec fn owner_permissions() -> Seq<Text> {
    seq!["owner"@, "admin"@, "read"@, "write"@, "obliterate"@, "migrate"@]
}

/// Whether a user has all permissions of an owner on a resource, as far as the grants
/// that apply can be read.
pub open spec fn owns(db: DatabaseView, user_id: Text, resource_id: Text) -> bool {
    permitted(db, user_id, resource_id) matches Ok(all) ==> forall|p: Text| #[trigger]
        owner_permissions().contains(p) ==> all.contains(p)
}

/// Adding a repository: its creator must be a user, and gets all permissions on it.
pub open spec fn with_repository(
    db: DatabaseView,
    actor_id: Text,
    resource_id: Text,
    name: Text,
    now: i64,
) -> (DatabaseView, Result<(), Text>) {
    if !is_resource(resource_id) {
        (db, Err(resource_refusal()))
    } else if first_where(db.repositories, by_resource(resource_id)) is Some || first_user(
        db.users,
        by_id(actor_id),
    ) is None {
        (db, Err("repository resource already exists"@))
    } else {
        (
            DatabaseView {
                repositories: db.repositories.push(
                    RepositoryRowView { resource_id, name, created_by: actor_id, created_at: now },
                ),
                grants: granted(
                    db.grants,
                    actor_id,
                    resource_id,
                    json::permissions_json(owner_permissions()),
                ),
                ..db
            },
            Ok(()),
        )
    }
}

/// Deleting a repository, and every grant on it.
pub open spec fn without_repository(db: DatabaseView, resource_id: Text) -> (
    DatabaseView,
    Result<(), Text>,
) {
    if first_where(db.repositories, by_resource(resource_id)) is None {
        (db, Err("repository resource not found"@))
    } else {
        (
            DatabaseView {
                repositories: db.repositories.filter(
                    |r: RepositoryRowView| r.resource_id != resource_id,
                ),
                grants: db.grants.filter(|g: GrantRowView| g.resource_id != resource_id),
                ..db
            },
            Ok(()),
        )
    }
}

impl Database {
    pub fn list_users(&self) -> (r: Vec<User>)
        ensures
            r.deep_view() == listed_users(self@),
    {
        let ghost every = |row: UserRowView| true;
        let ghost user_of = |row: UserRowView| row.user;
        let users = rows::collect(
            &self.users,
            |row: &UserRow| -> (o: Option<User>)
                ensures
                    o matches Some(u) && u@ == row@.user
                { Some(row.user.clone()) },
            Ghost(every),
            Ghost(user_of),
        );
        proof {
            rows::lemma_filter_all(self@.users, every);
        }
        let r = sorting::sort(users);
        assert(r.deep_view() =~= views(r@));
        r
    }

    pub fn permissions_for(&self, user_id: &str, resource_id: &str) -> (r: Result<
        Vec<String>,
        DbError,
    >)
        ensures
            outcome(r) == permitted(self@, user_id@, resource_id@),
    {
        let ghost p = applies(user_id@, resource_id@);
        let ghost all = self@.grants;
        let mut list: Vec<String> = Vec::new();
        let mut i: usize = 0;
        proof {
            reveal(Seq::filter);
            assert(all.take(0).filter(p) =~= Seq::<GrantRowView>::empty());
            assert(list.deep_view().to_set() =~= Set::<Text>::empty());
        }
        while i < self.grants.len()
            invariant
                i <= self.grants@.len(),
                all == self@.grants,
                p == applies(user_id@, resource_id@),
                text::ascending(list.deep_view()),
                merged(all.take(i as int).filter(p)) == Ok::<Set<Text>, Text>(
                    list.deep_view().to_set(),
                ),
            decreases self.grants@.len() - i,
        {
            let row = &self.grants[i];
            let ghost so_far = all.take(i as int).filter(p);
            proof {
                rows::lemma_filter_step(all, p, i as int);
                assert(all[i as int] == row@);
                assert(so_far.push(row@).drop_last() =~= so_far);
            }
            if text::same_text(row.user_id.as_str(), user_id) && (text::same_text(
                row.resource_id.as_str(),
                resource_id,
            ) || text::same_text(row.resource_id.as_str(), "urc-*")) {
                match json::read_permissions(row.permissions.as_str()) {
                    Err(e) => {
                        proof {
                            lemma_merged_prefix(all.filter(p), i as int, all, p);
                        }
                        return Err(DbError { message: e });
                    },
                    Ok(more) => {
                        let ghost before = list.deep_view().to_set();
                        merge_texts(&mut list, more);
                    },
                }
            }
            i = i + 1;
        }
        proof {
            assert(all.take(i as int) =~= all);
            text::lemma_in_order(list.deep_view());
        }
        Ok(list)
    }

    pub fn list_grants(&self, user_id: &str, resource_filter: &str) -> (r: Result<
        Vec<Grant>,
        DbError,
    >)
        ensures
            outcome(r) == listed_grants(self@, user_id@, resource_filter@),
    {
        if resource_filter.as_bytes().len() >= FILTER_LIMIT && rows::position(
            &self.grants,
            |row: &GrantRow| -> (b: bool)
                ensures
                    b == by_grantee(user_id@)(row@)
                { text::same_text(row.user_id.as_str(), user_id) },
            Ghost(by_grantee(user_id@)),
        ).is_some() {
            return Err(refusal("LIKE or GLOB pattern too complex"));
        }
        let ghost p = listable(user_id@, resource_filter@);
        let ghost same = |g: GrantRowView| g;
        let found = rows::collect(
            &self.grants,
            |row: &GrantRow| -> (o: Option<GrantRow>)
                ensures
                    match o {
                        Some(g) => p(row@) && g@ == row@,
                        None => !p(row@),
                    }
                {
                    if text::same_text(row.user_id.as_str(), user_id) && text::begins_like(
                        resource_filter,
                        row.resource_id.as_str(),
                    ) && !text::same_text(row.resource_id.as_str(), "urc-*") {
                        Some(
                            GrantRow {
                                user_id: row.user_id.clone(),
                                resource_id: row.resource_id.clone(),
                                permissions: row.permissions.clone(),
                            },
                        )
                    } else {
                        None
                    }
                },
            Ghost(p),
            Ghost(same),
        );
        proof {
            assert(self@.grants.filter(p).map_values(same) =~= self@.grants.filter(p));
        }
        let ordered = sorting::sort(found);
        let ghost all = views(ordered@);
        let mut out: Vec<Grant> = Vec::new();
        let mut i: usize = 0;
        assert(out.deep_view() =~= Seq::<GrantView>::empty());
        assert(all.take(0).len() == 0);
        while i < ordered.len()
            invariant
                i <= ordered@.len(),
                all == views(ordered@),
                !overlong(resource_filter@) || first_where(
                    self@.grants,
                    by_grantee(user_id@),
                ) is None,
                all == sorting::sorted::<GrantRow>(
                    self@.grants.filter(listable(user_id@, resource_filter@)),
                ),
                read_grants(all.take(i as int)) == Ok::<Seq<GrantView>, Text>(out.deep_view()),
            decreases ordered@.len() - i,
        {
            let row = &ordered[i];
            proof {
                assert(all.take(i + 1).drop_last() =~= all.take(i as int));
                assert(all.take(i + 1).last() == row@);
            }
            match json::read_permissions(row.permissions.as_str()) {
                Err(e) => {
                    proof {
                        lemma_read_grants_error(all, i + 1);
                    }
                    return Err(write_conversion_error(row.permissions.as_str(), e.as_str()));
                },
                Ok(permissions) => {
                    let ghost before = out.deep_view();
                    let grant = Grant { resource_id: row.resource_id.clone(), permissions };
                    let ghost g = grant@;
                    out.push(grant);
                    assert(out.deep_view() =~= before.push(g));
                },
            }
            i = i + 1;
        }
        assert(all.take(i as int) =~= all);
        Ok(out)
    }

    pub fn list_all_user_grants(&self) -> (r: Result<Vec<UserGrant>, DbError>)
        ensures
            outcome(r) == listed_user_grants(self@),
    {
        let ghost users = self@.users;
        let ghost p = |g: GrantRowView| first_user(users, by_id(g.user_id)) is Some;
        let ghost f = |g: GrantRowView|
            NamedGrantRowView {
                username: first_user(users, by_id(g.user_id))->0.username,
                resource_id: g.resource_id,
                permissions: g.permissions,
            };
        let found = rows::collect(
            &self.grants,
            |row: &GrantRow| -> (o: Option<NamedGrantRow>)
                ensures
                    match o {
                        Some(g) => p(row@) && g@ == f(row@),
                        None => !p(row@),
                    }
                {
                    match self.find_user_by_id(row.user_id.as_str()) {
                        Some(user) => Some(
                            NamedGrantRow {
                                username: user.username,
                                resource_id: row.resource_id.clone(),
                                permissions: row.permissions.clone(),
                            },
                        ),
                        None => None,
                    }
                },
            Ghost(p),
            Ghost(f),
        );
        assert(self@.grants.filter(p).map_values(f) =~= named_grants(self@));
        let ordered = sorting::sort(found);
        let ghost all = views(ordered@);
        let mut out: Vec<UserGrant> = Vec::new();
        let mut i: usize = 0;
        assert(out.deep_view() =~= Seq::<UserGrantView>::empty());
        assert(all.take(0).len() == 0);
        while i < ordered.len()
            invariant
                i <= ordered@.len(),
                all == views(ordered@),
                all == sorting::sorted::<NamedGrantRow>(named_grants(self@)),
                read_named_grants(all.take(i as int)) == Ok::<Seq<UserGrantView>, Text>(
                    out.deep_view(),
                ),
            decreases ordered@.len() - i,
        {
            let row = &ordered[i];
            proof {
                assert(all.take(i + 1).drop_last() =~= all.take(i as int));
                assert(all.take(i + 1).last() == row@);
            }
            match json::read_permissions(row.permissions.as_str()) {
                Err(e) => {
                    proof {
                        lemma_read_named_grants_error(all, i + 1);
                    }
                    return Err(write_conversion_error(row.permissions.as_str(), e.as_str()));
                },
                Ok(permissions) => {
                    let ghost before = out.deep_view();
                    let grant = UserGrant {
                        username: row.username.clone(),
                        resource_id: row.resource_id.clone(),
                        permissions,
                    };
                    let ghost g = grant@;
                    out.push(grant);
                    assert(out.deep_view() =~= before.push(g));
                },
            }
            i = i + 1;
        }
        assert(all.take(i as int) =~= all);
        Ok(out)
    }

    pub fn list_repositories(&self, resource_filter: &str) -> (r: Result<Vec<String>, DbError>)
        ensures
            outcome(r) == listed_repositories(self@, resource_filter@),
    {
        if resource_filter.as_bytes().len() >= FILTER_LIMIT && self.repositories.len() > 0 {
            return Err(refusal("LIKE or GLOB pattern too complex"));
        }
        let ghost p = |row: RepositoryRowView|
            text::passes_filter(resource_filter@, row.resource_id);
        let ghost f = |row: RepositoryRowView| row.resource_id;
        let found = rows::collect(
            &self.repositories,
            |row: &RepositoryRow| -> (o: Option<String>)
                ensures
                    match o {
                        Some(s) => p(row@) && s@ == f(row@),
                        None => !p(row@),
                    }
                {
                    if text::begins_like(resource_filter, row.resource_id.as_str()) {
                        Some(row.resource_id.clone())
                    } else {
                        None
                    }
                },
            Ghost(p),
            Ghost(f),
        );
        let r = sorting::sort(found);
        assert(r.deep_view() =~= views(r@));
        Ok(r)
    }

    /// Adds a repository that was created at the time `now`.
    pub fn create_repository_at(
        &mut self,
        actor: &User,
        resource_id: &str,
        name: &str,
        now: i64,
    ) -> (r: Result<(), DbError>)
        ensures
            (final(self)@, outcome(r)) == with_repository(
                old(self)@,
                actor@.id,
                resource_id@,
                name@,
                now,
            ),
            r is Ok ==> owns(final(self)@, actor@.id, resource_id@),
            r is Ok && (resource_id@ == every_resource() || first_where(
                old(self)@.grants,
                by_key(actor@.id, every_resource()),
            ) is None) ==> permitted(final(self)@, actor@.id, resource_id@) == (Ok::<
                Seq<Text>,
                Text,
            >(text::in_order(owner_permissions().to_set()))),
    {
        match validate_resource(resource_id) {
            Err(e) => {
                return Err(e);
            },
            Ok(_) => {},
        }
        if self.has_repository(resource_id) || self.find_user_by_id(
            actor.id.as_str(),
        ).is_none() {
            return Err(refusal("repository resource already exists"));
        }
        let ghost before = views(self.repositories@);
        self.repositories.push(
            RepositoryRow {
                resource_id: resource_id.to_owned(),
                name: name.to_owned(),
                created_by: actor.id.clone(),
                created_at: now,
            },
        );
        assert(views(self.repositories@) =~= before.push(
            RepositoryRowView {
                resource_id: resource_id@,
                name: name@,
                created_by: actor@.id,
                created_at: now,
            },
        ));
        let list = owner_permission_list();
        let encoded = json::write_permissions(&list);
        proof {
            db_laws::lemma_granted_is_permitted(
                self@,
                actor@.id,
                resource_id@,
                owner_permissions(),
            );
        }
        self.put_grant(actor.id.as_str(), resource_id, encoded);
        Ok(())
    }

    /// Adds a repository at the present time.
    pub fn create_repository(&mut self, actor: &User, resource_id: &str, name: &str) -> (r: Result<
        (),
        DbError,
    >)
        ensures
            exists|now: i64|
                0 <= now <= clock::CLOCK_LIMIT && (final(self)@, outcome(r))
                    == #[trigger] with_repository(
                    old(self)@,
                    actor@.id,
                    resource_id@,
                    name@,
                    now,
                ),
            r is Ok ==> owns(final(self)@, actor@.id, resource_id@),
            r is Ok && (resource_id@ == every_resource() || first_where(
                old(self)@.grants,
                by_key(actor@.id, every_resource()),
            ) is None) ==> permitted(final(self)@, actor@.id, resource_id@) == (Ok::<
                Seq<Text>,
                Text,
            >(text::in_order(owner_permissions().to_set()))),
    {
        let now = clock::now();
        self.create_repository_at(actor, resource_id, name, now)
    }

    fn has_repository(&self, resource_id: &str) -> (r: bool)
        ensures
            r == (first_where(self@.repositories, by_resource(resource_id@)) is Some),
    {
        rows::position(
            &self.repositories,
            |row: &RepositoryRow| -> (b: bool)
                ensures
                    b == by_resource(resource_id@)(row@)
                { text::same_text(row.resource_id.as_str(), resource_id) },
            Ghost(by_resource(resource_id@)),
        ).is_some()
    }

    pub fn delete_repository(&mut self, resource_id: &str) -> (r: Result<(), DbError>)
        ensures
            (final(self)@, outcome(r)) == without_repository(old(self)@, resource_id@),
    {
        if !self.has_repository(resource_id) {
            return Err(refusal("repository resource not found"));
        }
        rows::retain(
            &mut self.grants,
            |row: &GrantRow| -> (b: bool)
                ensures
                    b == (row@.resource_id != resource_id@)
                { !text::same_text(row.resource_id.as_str(), resource_id) },
            Ghost(|g: GrantRowView| g.resource_id != resource_id@),
        );
        rows::retain(
            &mut self.repositories,
            |row: &RepositoryRow| -> (b: bool)
                ensures
                    b == (row@.resource_id != resource_id@)
                { !text::same_text(row.resource_id.as_str(), resource_id) },
            Ghost(|r: RepositoryRowView| r.resource_id != resource_id@),
        );
        Ok(())
    }
}

pub(crate) fn owner_permission_list() -> (list: Vec<String>)
    ensures
        list.deep_view() == owner_permissions(),
{
    let mut list: Vec<String> = Vec::new();
    list.push("owner".to_owned());
    list.push("admin".to_owned());
    list.push("read".to_owned());
    list.push("write".to_owned());
    list.push("obliterate".to_owned());
    list.push("migrate".to_owned());
    assert(list.deep_view() =~= owner_permissions());
    list
}

/// Adds the texts of `more` to an ascending list.
fn merge_texts(list: &mut Vec<String>, more: Vec<String>)
    requires
        text::ascending(old(list).deep_view()),
    ensures
        text::ascending(final(list).deep_view()),
        final(list).deep_view().to_set() == old(list).deep_view().to_set().union(
            more.deep_view().to_set(),
        ),
{
    let ghost before = list.deep_view().to_set();
    let ghost all = more.deep_view();
    let mut i: usize = 0;
    assert(before =~= before.union(all.take(0).to_set()));
    while i < more.len()
        invariant
            i <= more@.len(),
            all == more.deep_view(),
            text::ascending(list.deep_view()),
            list.deep_view().to_set() == before.union(all.take(i as int).to_set()),
        decreases more@.len() - i,
    {
        text::insert_text(list, more[i].clone());
        proof {
            assert(all[i as int] == more@[i as int]@);
            assert(all.take(i + 1) =~= all.take(i as int).push(all[i as int]));
            all.take(i as int).lemma_push_to_set_commute(all[i as int]);
            assert(list.deep_view().to_set() =~= before.union(all.take(i + 1).to_set()));
        }
        i = i + 1;
    }
    assert(all.take(i as int) =~= all);
}

/// An error in a part of the rows is the error of all of them.
proof fn lemma_merged_error(grants: Seq<GrantRowView>, n: int)
    requires
        0 <= n <= grants.len(),
        merged(grants.take(n)) is Err,
    ensures
        merged(grants) == merged(grants.take(n)),
    decreases grants.len(),
{
    if n == grants.len() {
        assert(grants.take(n) =~= grants);
    } else {
        assert(grants.drop_last().take(n) =~= grants.take(n));
        lemma_merged_error(grants.drop_last(), n);
    }
}

proof fn lemma_merged_prefix(
    found: Seq<GrantRowView>,
    i: int,
    all: Seq<GrantRowView>,
    p: spec_fn(GrantRowView) -> bool,
)
    requires
        0 <= i < all.len(),
        found == all.filter(p),
        merged(all.take(i + 1).filter(p)) is Err,
    ensures
        merged(found) == merged(all.take(i + 1).filter(p)),
{
    let head = all.take(i + 1).filter(p);
    assert(all =~= all.take(i + 1) + all.skip(i + 1));
    Seq::filter_distributes_over_add(all.take(i + 1), all.skip(i + 1), p);
    assert(found.take(head.len() as int) =~= head);
    lemma_merged_error(found, head.len() as int);
}

proof fn lemma_read_grants_error(grants: Seq<GrantRowView>, n: int)
    requires
        0 <= n <= grants.len(),
        read_grants(grants.take(n)) is Err,
    ensures
        read_grants(grants) == read_grants(grants.take(n)),
    decreases grants.len(),
{
    if n == grants.len() {
        assert(grants.take(n) =~= grants);
    } else {
        assert(grants.drop_last().take(n) =~= grants.take(n));
        lemma_read_grants_error(grants.drop_last(), n);
    }
}

proof fn lemma_read_named_grants_error(grants: Seq<NamedGrantRowView>, n: int)
    requires
        0 <= n <= grants.len(),
        read_named_grants(grants.take(n)) is Err,
    ensures
        read_named_grants(grants) == read_named_grants(grants.take(n)),
    decreases grants.len(),
{
    if n == grants.len() {
        assert(grants.take(n) =~= grants);
    } else {
        assert(grants.drop_last().take(n) =~= grants.take(n));
        lemma_read_named_grants_error(grants.drop_last(), n);
    }
}

} // verus!
