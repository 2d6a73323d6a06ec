//! What holds of the tables whatever is done to them.

use vstd::prelude::*;

use crate::db;
use crate::db::{
    by_id, by_key, by_name, first_user, grants_apart, has_creator, has_grantee,
    repositories_apart, users_apart, DatabaseView, GrantRow, GrantRowView, RepositoryRowView, User,
    UserRowView, UserView,
};
use crate::json;
use crate::password;
use crate::rows;
use crate::rows::first_where;
use crate::sorting;
use crate::text;
use crate::text::Text;

verus! {

// ---------------------------------------------------------------------------
// Well-formedness
// ---------------------------------------------------------------------------

/// Whether two rows are the same user under the same name.
spec fn same_account(a: UserRowView, b: UserRowView) -> bool {
    a.user.id == b.user.id && a.user.username == b.user.username
}

/// Where the users of before are still known, the references still lead to users.
proof fn lemma_still_known(db: DatabaseView, users: Seq<UserRowView>)
    requires
        db.referenced(),
        forall|id: Text|
            first_user(db.users, by_id(id)) is Some ==> (#[trigger] first_user(
                users,
                by_id(id),
            )) is Some,
    ensures
        rows::every(db.repositories, has_creator(users)),
        rows::every(db.grants, has_grantee(users)),
{
    assert forall|i: int| 0 <= i < db.repositories.len() implies has_creator(users)(
        #[trigger] db.repositories[i],
    ) by {
        assert(has_creator(db.users)(db.repositories[i]));
        assert(first_user(users, by_id(db.repositories[i].created_by)) is Some);
    }
    assert forall|i: int| 0 <= i < db.grants.len() implies has_grantee(users)(
        #[trigger] db.grants[i],
    ) by {
        assert(has_grantee(db.users)(db.grants[i]));
        assert(first_user(users, by_id(db.grants[i].user_id)) is Some);
    }
}

/// Changing users without touching identifiers and names.
proof fn lemma_users_changed(db: DatabaseView, g: spec_fn(UserRowView) -> UserRowView)
    requires
        db.well_formed(),
        forall|r: UserRowView| same_account(#[trigger] g(r), r),
    ensures
        (DatabaseView { users: db.users.map_values(g), ..db }).well_formed(),
        db.referenced() ==> (DatabaseView { users: db.users.map_values(g), ..db }).referenced(),
        forall|id: Text|
            (#[trigger] first_user(db.users.map_values(g), by_id(id))) is Some == first_user(
                db.users,
                by_id(id),
            ) is Some,
{
    let users = db.users.map_values(g);
    assert forall|a: UserRowView, b: UserRowView| users_apart()(
        a,
        b,
    ) implies #[trigger] users_apart()(g(a), g(b)) by {
        assert(same_account(g(a), a) && same_account(g(b), b));
    }
    rows::lemma_pairwise_map(db.users, g, users_apart());
    assert forall|id: Text| (#[trigger] first_user(users, by_id(id))) is Some == first_user(
        db.users,
        by_id(id),
    ) is Some by {
        assert forall|i: int| 0 <= i < db.users.len() implies by_id(id)(g(#[trigger] db.users[i]))
            == by_id(id)(db.users[i]) by {
            assert(same_account(g(db.users[i]), db.users[i]));
        }
        rows::lemma_first_where_map(db.users, by_id(id), g);
    }
    if db.referenced() {
        lemma_still_known(db, users);
    }
}

/// Adding a user keeps the tables well-formed, and the references with them.
pub proof fn creating_a_user_keeps_the_tables_well_formed(
    db: DatabaseView,
    username: Text,
    display_name: Text,
    password: Text,
    is_admin: bool,
    salt: Text,
    id: Text,
    now: i64,
)
    requires
        db.well_formed(),
    ensures
        db::created(db, username, display_name, password, is_admin, salt, id, now).0.well_formed(),
        db.referenced() ==> db::created(db, username, display_name, password, is_admin, salt, id, now).0.referenced(),
{
    let (next, r) = db::created(db, username, display_name, password, is_admin, salt, id, now);
    if r is Ok {
        let row = next.users.last();
        let name = row.user.username;
        rows::lemma_first_where(db.users, by_name(name));
        rows::lemma_first_where(db.users, by_id(id));
        assert forall|i: int| 0 <= i < db.users.len() implies users_apart()(
            #[trigger] db.users[i],
            row,
        ) by {
            assert(!by_name(name)(db.users[i]));
            assert(!by_id(id)(db.users[i]));
        }
        rows::lemma_pairwise_push(db.users, row, users_apart());
        assert forall|x: Text| first_user(db.users, by_id(x)) is Some implies (
        #[trigger] first_user(next.users, by_id(x))) is Some by {
            rows::lemma_first_where_push(db.users, row, by_id(x));
        }
        if db.referenced() {
            lemma_still_known(db, next.users);
        }
    }
}

/// Enabling and disabling users keeps the tables well-formed, and the references with them.
pub proof fn disabling_a_user_keeps_the_tables_well_formed(
    db: DatabaseView,
    username: Text,
    disabled: bool,
)
    requires
        db.well_formed(),
    ensures
        db::with_disabled(db, username, disabled).0.well_formed(),
        db.referenced() ==> db::with_disabled(db, username, disabled).0.referenced(),
{
    let g = |r: UserRowView|
        if by_name(username)(r) {
            UserRowView { user: UserView { disabled, ..r.user }, ..r }
        } else {
            r
        };
    lemma_users_changed(db, g);
}

/// Setting a password keeps the tables well-formed, and the references with them.
pub proof fn setting_a_password_keeps_the_tables_well_formed(
    db: DatabaseView,
    username: Text,
    password: Text,
    salt: Text,
)
    requires
        db.well_formed(),
    ensures
        db::with_password(db, username, password, salt).0.well_formed(),
        db.referenced() ==> db::with_password(db, username, password, salt).0.referenced(),
{
    let (next, r) = db::with_password(db, username, password, salt);
    if r is Ok {
        let hash = password::argon2_hash(password, salt)->Ok_0;
        let g = |r: UserRowView|
            if by_name(username)(r) {
                UserRowView { user: UserView { password_hash: hash, ..r.user }, ..r }
            } else {
                r
            };
        lemma_users_changed(db, g);
    }
}

/// A user that a search by name finds can be found by its identifier.
proof fn lemma_found_by_id(db: DatabaseView, p: spec_fn(UserRowView) -> bool)
    requires
        first_user(db.users, p) is Some,
    ensures
        first_user(db.users, by_id(first_user(db.users, p)->0.id)) is Some,
{
    rows::lemma_first_where(db.users, p);
    let row = first_where(db.users, p)->0;
    rows::lemma_some_where(db.users, by_id(row.user.id), row);
}

/// Deleting a user keeps the tables well-formed, and the references with them: what
/// referred to the user is gone or refers to the successor.
pub proof fn deleting_a_user_keeps_the_tables_well_formed(
    db: DatabaseView,
    username: Text,
    successor: Text,
)
    requires
        db.well_formed(),
    ensures
        db::without_user(db, username, successor).0.well_formed(),
        db.referenced() ==> db::without_user(db, username, successor).0.referenced(),
{
    let (next, r) = db::without_user(db, username, successor);
    if r is Ok {
        let user = first_user(db.users, by_name(username))->0;
        let heir = first_user(db.users, by_name(successor))->0;
        let others = |r: UserRowView| r.user.id != user.id;
        let handed = |r: RepositoryRowView|
            if r.created_by == user.id {
                RepositoryRowView { created_by: heir.id, ..r }
            } else {
                r
            };
        let kept = |g: GrantRowView| g.user_id != user.id;
        lemma_found_by_id(db, by_name(successor));
        rows::lemma_pairwise_filter(db.users, others, users_apart());
        rows::lemma_pairwise_map(db.repositories, handed, repositories_apart());
        rows::lemma_pairwise_filter(db.grants, kept, grants_apart());
        assert forall|id: Text| id != user.id implies #[trigger] first_user(next.users, by_id(id))
            == first_user(db.users, by_id(id)) by {
            rows::lemma_first_where_filter(db.users, by_id(id), others);
        }
        if db.referenced() {
            rows::lemma_every_filter(db.grants, kept, has_grantee(db.users));
            assert forall|i: int| 0 <= i < next.repositories.len() implies has_creator(next.users)(
                #[trigger] next.repositories[i],
            ) by {
                let before = db.repositories[i];
                assert(has_creator(db.users)(before));
                assert(next.repositories[i] == handed(before));
                assert(first_user(next.users, by_id(next.repositories[i].created_by)) is Some);
            }
            assert forall|i: int| 0 <= i < next.grants.len() implies has_grantee(next.users)(
                #[trigger] next.grants[i],
            ) by {
                assert(has_grantee(db.users)(next.grants[i]));
                assert(kept(next.grants[i]));
                assert(first_user(next.users, by_id(next.grants[i].user_id)) is Some);
            }
        }
    }
}

/// Putting a grant to a known user into well-formed tables.
proof fn lemma_granted(db: DatabaseView, user_id: Text, resource_id: Text, permissions: Text)
    requires
        db.well_formed(),
        first_user(db.users, by_id(user_id)) is Some,
    ensures
        (DatabaseView {
            grants: db::granted(db.grants, user_id, resource_id, permissions),
            ..db
        }).well_formed(),
        db.referenced() ==> (DatabaseView {
            grants: db::granted(db.grants, user_id, resource_id, permissions),
            ..db
        }).referenced(),
{
    let key = by_key(user_id, resource_id);
    let next = db::granted(db.grants, user_id, resource_id, permissions);
    rows::lemma_first_where(db.grants, key);
    if first_where(db.grants, key) is Some {
        let g = |g: GrantRowView|
            if key(g) {
                GrantRowView { permissions, ..g }
            } else {
                g
            };
        rows::lemma_pairwise_map(db.grants, g, grants_apart());
        assert(next =~= db.grants.map_values(g));
        if db.referenced() {
            assert forall|i: int| 0 <= i < next.len() implies has_grantee(db.users)(
                #[trigger] next[i],
            ) by {
                assert(has_grantee(db.users)(db.grants[i]));
            }
        }
    } else {
        let row = GrantRowView { user_id, resource_id, permissions };
        assert forall|i: int| 0 <= i < db.grants.len() implies grants_apart()(
            #[trigger] db.grants[i],
            row,
        ) by {
            assert(!key(db.grants[i]));
        }
        rows::lemma_pairwise_push(db.grants, row, grants_apart());
        if db.referenced() {
            rows::lemma_every_push(db.grants, row, has_grantee(db.users));
        }
    }
}

/// Granting keeps the tables well-formed, and the references with them.
pub proof fn granting_keeps_the_tables_well_formed(
    db: DatabaseView,
    username: Text,
    resource_id: Text,
    permissions: Seq<Text>,
)
    requires
        db.well_formed(),
    ensures
        db::with_grant(db, username, resource_id, permissions).0.well_formed(),
        db.referenced() ==> db::with_grant(db, username, resource_id, permissions).0.referenced(),
{
    if db::with_grant(db, username, resource_id, permissions).1 is Ok {
        lemma_found_by_id(db, by_name(username));
        lemma_granted(
            db,
            first_user(db.users, by_name(username))->0.id,
            resource_id,
            json::permissions_json(db::normalized(permissions)),
        );
    }
}

/// Revoking keeps the tables well-formed, and the references with them.
pub proof fn revoking_keeps_the_tables_well_formed(
    db: DatabaseView,
    username: Text,
    resource_id: Text,
)
    requires
        db.well_formed(),
    ensures
        db::without_grant(db, username, resource_id).0.well_formed(),
        db.referenced() ==> db::without_grant(db, username, resource_id).0.referenced(),
{
    if db::without_grant(db, username, resource_id).1 is Ok {
        let user = first_user(db.users, by_name(username))->0;
        let kept = |g: GrantRowView| !by_key(user.id, resource_id)(g);
        rows::lemma_pairwise_filter(db.grants, kept, grants_apart());
        if db.referenced() {
            rows::lemma_every_filter(db.grants, kept, has_grantee(db.users));
        }
    }
}

/// Adding a repository keeps the tables well-formed, and the references with them.
pub proof fn creating_a_repository_keeps_the_tables_well_formed(
    db: DatabaseView,
    actor_id: Text,
    resource_id: Text,
    name: Text,
    now: i64,
)
    requires
        db.well_formed(),
    ensures
        db::with_repository(db, actor_id, resource_id, name, now).0.well_formed(),
        db.referenced() ==> db::with_repository(db, actor_id, resource_id, name, now).0.referenced(),
{
    let (next, r) = db::with_repository(db, actor_id, resource_id, name, now);
    if r is Ok {
        let row = next.repositories.last();
        rows::lemma_first_where(db.repositories, db::by_resource(resource_id));
        assert forall|i: int| 0 <= i < db.repositories.len() implies repositories_apart()(
            #[trigger] db.repositories[i],
            row,
        ) by {
            assert(!db::by_resource(resource_id)(db.repositories[i]));
        }
        rows::lemma_pairwise_push(db.repositories, row, repositories_apart());
        if db.referenced() {
            rows::lemma_every_push(db.repositories, row, has_creator(db.users));
        }
        lemma_granted(
            DatabaseView { repositories: next.repositories, ..db },
            actor_id,
            resource_id,
            json::permissions_json(db::owner_permissions()),
        );
    }
}

/// Deleting a repository keeps the tables well-formed, and the references with them.
pub proof fn deleting_a_repository_keeps_the_tables_well_formed(
    db: DatabaseView,
    resource_id: Text,
)
    requires
        db.well_formed(),
    ensures
        db::without_repository(db, resource_id).0.well_formed(),
        db.referenced() ==> db::without_repository(db, resource_id).0.referenced(),
{
    let other = |r: RepositoryRowView| r.resource_id != resource_id;
    let kept = |g: GrantRowView| g.resource_id != resource_id;
    rows::lemma_pairwise_filter(db.repositories, other, repositories_apart());
    rows::lemma_pairwise_filter(db.grants, kept, grants_apart());
    if db.referenced() {
        rows::lemma_every_filter(db.repositories, other, has_creator(db.users));
        rows::lemma_every_filter(db.grants, kept, has_grantee(db.users));
    }
}

/// Putting the administrator of the first start right keeps the tables well-formed, and
/// the references with them.
pub proof fn bootstrapping_keeps_the_tables_well_formed(
    db: DatabaseView,
    username: Option<Text>,
    password: Option<Text>,
    salt: Text,
    id: Text,
    now: i64,
)
    requires
        db.well_formed(),
    ensures
        db::with_bootstrap_admin(db, username, password, salt, id, now).0.well_formed(),
        db.referenced() ==> db::with_bootstrap_admin(db, username, password, salt, id, now).0.referenced(),
{
    if username is Some && text::trimmed(username->0).len() > 0 {
        let name = text::trimmed(username->0);
        match first_user(db.users, by_name(name)) {
            Some(user) => {
                let g = restored(user.id);
                lemma_users_changed(db, g);
                granting_keeps_the_tables_well_formed(
                    DatabaseView { users: db.users.map_values(g), ..db },
                    name,
                    db::every_resource(),
                    seq!["*"@],
                );
            },
            None => {
                if password is Some {
                    creating_a_user_keeps_the_tables_well_formed(
                        db,
                        name,
                        name,
                        password->0,
                        true,
                        salt,
                        id,
                        now,
                    );
                    let (next, r) = db::created(db, name, name, password->0, true, salt, id, now);
                    if r is Ok {
                        granting_keeps_the_tables_well_formed(
                            next,
                            r->Ok_0.username,
                            db::every_resource(),
                            seq!["*"@],
                        );
                    }
                }
            },
        }
    }
}

/// The user with this identifier made an enabled administrator.
pub open spec fn restored(id: Text) -> spec_fn(UserRowView) -> UserRowView {
    |r: UserRowView|
        if by_id(id)(r) {
            UserRowView { user: UserView { disabled: false, is_admin: true, ..r.user }, ..r }
        } else {
            r
        }
}


// ---------------------------------------------------------------------------
// Refusals
// ---------------------------------------------------------------------------

/// An operation that is refused leaves the tables as they were.
pub proof fn refused_operations_leave_the_tables_alone(
    db: DatabaseView,
    username: Text,
    display_name: Text,
    password: Text,
    flag: bool,
    salt: Text,
    id: Text,
    now: i64,
    successor: Text,
    resource_id: Text,
    permissions: Seq<Text>,
    bootstrap_username: Option<Text>,
    bootstrap_password: Option<Text>,
)
    ensures
        ({
            let (next, r) = db::created(
                db,
                username,
                display_name,
                password,
                flag,
                salt,
                id,
                now,
            );
            r is Err ==> next == db
        }),
        ({
            let (next, r) = db::with_disabled(db, username, flag);
            r is Err ==> next == db
        }),
        ({
            let (next, r) = db::with_password(db, username, password, salt);
            r is Err ==> next == db
        }),
        ({
            let (next, r) = db::without_user(db, username, successor);
            r is Err ==> next == db
        }),
        ({
            let (next, r) = db::with_grant(db, username, resource_id, permissions);
            r is Err ==> next == db
        }),
        ({
            let (next, r) = db::without_grant(db, username, resource_id);
            r is Err ==> next == db
        }),
        ({
            let (next, r) = db::with_repository(db, id, resource_id, display_name, now);
            r is Err ==> next == db
        }),
        ({
            let (next, r) = db::without_repository(db, resource_id);
            r is Err ==> next == db
        }),
        ({
            let (next, r) = db::with_bootstrap_admin(
                db,
                bootstrap_username,
                bootstrap_password,
                salt,
                id,
                now,
            );
            r is Err ==> next == db
        }),
{
    if bootstrap_username is Some && text::trimmed(bootstrap_username->0).len() > 0 {
        let name = text::trimmed(bootstrap_username->0);
        match first_user(db.users, by_name(name)) {
            Some(user) => {
                rows::lemma_first_where_map(db.users, by_name(name), restored(user.id));
            },
            None => {
                if bootstrap_password is Some {
                    let (next, r) = db::created(
                        db,
                        name,
                        name,
                        bootstrap_password->0,
                        true,
                        salt,
                        id,
                        now,
                    );
                    if r is Ok {
                        rows::lemma_first_where_push(
                            db.users,
                            next.users.last(),
                            by_name(r->Ok_0.username),
                        );
                    }
                }
            },
        }
    }
}

// ---------------------------------------------------------------------------
// Users
// ---------------------------------------------------------------------------

/// A user who is found by name is found by identifier too.
pub proof fn users_are_found_by_name_and_identifier(db: DatabaseView, username: Text)
    requires
        db.well_formed(),
    ensures
        first_user(db.users, by_name(username)) matches Some(user) ==> first_user(
            db.users,
            by_id(user.id),
        ) == Some(user),
{
    let name = by_name(username);
    if first_where(db.users, name) is Some {
        rows::lemma_first_where(db.users, name);
        let named = first_where(db.users, name)->0;
        let same = by_id(named.user.id);
        rows::lemma_some_where(db.users, same, named);
        rows::lemma_first_where(db.users, same);
        let row = first_where(db.users, same)->0;
        let i = choose|i: int| 0 <= i < db.users.len() && db.users[i] == named;
        let j = choose|j: int| 0 <= j < db.users.len() && db.users[j] == row;
        if i < j {
            assert(users_apart()(db.users[i], db.users[j]));
        }
        if j < i {
            assert(users_apart()(db.users[j], db.users[i]));
        }
    }
}

/// A user that was added is found by its name and by its identifier, and nothing else
/// in the tables changes.
pub proof fn created_users_are_found(
    db: DatabaseView,
    username: Text,
    display_name: Text,
    password: Text,
    is_admin: bool,
    salt: Text,
    id: Text,
    now: i64,
)
    ensures
        ({
            let (next, r) = db::created(
                db,
                username,
                display_name,
                password,
                is_admin,
                salt,
                id,
                now,
            );
            r matches Ok(user) ==> {
                &&& first_user(next.users, by_name(user.username)) == Some(user)
                &&& first_user(next.users, by_id(id)) == Some(user)
                &&& user.username == text::trimmed(username)
                &&& forall|other: Text|
                    other != id ==> #[trigger] first_user(next.users, by_id(other)) == first_user(
                        db.users,
                        by_id(other),
                    )
                &&& next.repositories == db.repositories
                &&& next.grants == db.grants
            }
        }),
{
    let (next, r) = db::created(db, username, display_name, password, is_admin, salt, id, now);
    if r is Ok {
        let row = next.users.last();
        rows::lemma_first_where_push(db.users, row, by_name(row.user.username));
        rows::lemma_first_where_push(db.users, row, by_id(id));
        assert forall|other: Text| other != id implies #[trigger] first_user(
            next.users,
            by_id(other),
        ) == first_user(db.users, by_id(other)) by {
            rows::lemma_first_where_push(db.users, row, by_id(other));
        }
    }
}

/// Two users that were added one after the other have different names and identifiers,
/// and different hashes where the salts were different, though the passwords be the same.
pub proof fn added_users_differ(
    db: DatabaseView,
    username: Text,
    display_name: Text,
    password: Text,
    is_admin: bool,
    salt: Text,
    id: Text,
    now: i64,
    other_username: Text,
    other_display_name: Text,
    other_password: Text,
    other_is_admin: bool,
    other_salt: Text,
    other_id: Text,
    other_now: i64,
)
    ensures
        ({
            let (next, r) = db::created(
                db,
                username,
                display_name,
                password,
                is_admin,
                salt,
                id,
                now,
            );
            let (last, s) = db::created(
                next,
                other_username,
                other_display_name,
                other_password,
                other_is_admin,
                other_salt,
                other_id,
                other_now,
            );
            r matches Ok(user) ==> (s matches Ok(other) ==> {
                &&& user.id != other.id
                &&& !text::same_name(user.username, other.username)
                &&& first_user(last.users, by_id(id)) == Some(user)
                &&& first_user(last.users, by_id(other_id)) == Some(other)
                &&& salt != other_salt && password::is_argon2id(user.password_hash, salt)
                    && password::is_argon2id(other.password_hash, other_salt)
                    ==> user.password_hash != other.password_hash
            })
        }),
{
    let (next, r) = db::created(db, username, display_name, password, is_admin, salt, id, now);
    let (last, s) = db::created(
        next,
        other_username,
        other_display_name,
        other_password,
        other_is_admin,
        other_salt,
        other_id,
        other_now,
    );
    if r is Ok && s is Ok {
        let (user, other) = (r->Ok_0, s->Ok_0);
        let row = next.users.last();
        created_users_are_found(db, username, display_name, password, is_admin, salt, id, now);
        created_users_are_found(
            next,
            other_username,
            other_display_name,
            other_password,
            other_is_admin,
            other_salt,
            other_id,
            other_now,
        );
        rows::lemma_first_where(next.users, by_name(other.username));
        assert(!by_name(other.username)(next.users[next.users.len() - 1]));
        if user.password_hash == other.password_hash && password::is_argon2id(
            user.password_hash,
            salt,
        ) && password::is_argon2id(other.password_hash, other_salt) {
            password::salts_show_in_hashes(user.password_hash, salt, other_salt);
        }
    }
}

/// A disabled user cannot log in, whatever the password.
pub proof fn disabled_users_cannot_log_in(db: DatabaseView, username: Text, password: Text)
    ensures
        ({
            let (next, r) = db::with_disabled(db, username, true);
            r is Ok ==> db::authenticated(next, username, password) == (Ok::<
                Option<UserView>,
                Text,
            >(None))
        }),
{
    let g = |r: UserRowView|
        if by_name(username)(r) {
            UserRowView { user: UserView { disabled: true, ..r.user }, ..r }
        } else {
            r
        };
    if first_user(db.users, by_name(username)) is Some {
        rows::lemma_first_where(db.users, by_name(username));
        rows::lemma_first_where_map(db.users, by_name(username), g);
        assert(db::with_disabled(db, username, true).0.users =~= db.users.map_values(g));
    }
}

/// Enabling a user gives back the tables of before the user was disabled.
pub proof fn enabling_undoes_disabling(db: DatabaseView, username: Text)
    requires
        forall|i: int|
            0 <= i < db.users.len() && by_name(username)(#[trigger] db.users[i])
                ==> !db.users[i].user.disabled,
    ensures
        db::with_disabled(db::with_disabled(db, username, true).0, username, false).0 == db,
{
    let (next, r) = db::with_disabled(db, username, true);
    if r is Ok {
        let g = |r: UserRowView|
            if by_name(username)(r) {
                UserRowView { user: UserView { disabled: true, ..r.user }, ..r }
            } else {
                r
            };
        rows::lemma_first_where_map(db.users, by_name(username), g);
        assert(next.users =~= db.users.map_values(g));
        let last = db::with_disabled(next, username, false).0;
        assert(last.users =~= db.users) by {
            assert forall|i: int| 0 <= i < db.users.len() implies #[trigger] last.users[i]
                == db.users[i] by {
                assert(next.users[i] == g(db.users[i]));
            }
        }
    }
}

/// A deleted user is gone, and so is every grant to it; what it created belongs to the
/// successor, and the other users and their grants stay.
pub proof fn deleted_users_leave_nothing_behind(
    db: DatabaseView,
    username: Text,
    successor: Text,
)
    requires
        db.well_formed(),
        db::without_user(db, username, successor).1 is Ok,
    ensures
        ({
            let next = db::without_user(db, username, successor).0;
            let user = first_user(db.users, by_name(username))->0;
            let heir = first_user(db.users, by_name(successor))->0;
            &&& first_user(next.users, by_name(username)) is None
            &&& first_user(next.users, by_id(user.id)) is None
            &&& forall|i: int|
                0 <= i < next.grants.len() ==> (#[trigger] next.grants[i]).user_id != user.id
            &&& next.repositories.len() == db.repositories.len()
            &&& forall|i: int|
                0 <= i < db.repositories.len() ==> {
                    &&& (#[trigger] next.repositories[i]).resource_id
                        == db.repositories[i].resource_id
                    &&& next.repositories[i].created_by == if db.repositories[i].created_by
                        == user.id {
                        heir.id
                    } else {
                        db.repositories[i].created_by
                    }
                }
            &&& forall|other: Text|
                other != user.id ==> #[trigger] first_user(next.users, by_id(other)) == first_user(
                    db.users,
                    by_id(other),
                )
            &&& forall|other: Text, resource_id: Text|
                other != user.id ==> #[trigger] first_where(
                    next.grants,
                    by_key(other, resource_id),
                ) == first_where(db.grants, by_key(other, resource_id))
        }),
{
    let next = db::without_user(db, username, successor).0;
    let user = first_user(db.users, by_name(username))->0;
    let others = |r: UserRowView| r.user.id != user.id;
    let kept = |g: GrantRowView| g.user_id != user.id;
    rows::lemma_first_where(db.users, by_name(username));
    let row = first_where(db.users, by_name(username))->0;
    let k = choose|k: int| 0 <= k < db.users.len() && db.users[k] == row;
    assert forall|i: int| 0 <= i < next.users.len() implies !by_name(username)(
        #[trigger] next.users[i],
    ) && !by_id(user.id)(next.users[i]) by {
        db.users.lemma_filter_pred(others, i);
        db.users.lemma_filter_contains_rev(others, next.users[i]);
        let m = choose|m: int| 0 <= m < db.users.len() && db.users[m] == next.users[i];
        if by_name(username)(next.users[i]) && m != k {
            if m < k {
                assert(users_apart()(db.users[m], db.users[k]));
            } else {
                assert(users_apart()(db.users[k], db.users[m]));
            }
        }
    }
    rows::lemma_first_where_none(next.users, by_name(username));
    rows::lemma_first_where_none(next.users, by_id(user.id));
    assert forall|i: int| 0 <= i < next.grants.len() implies (#[trigger] next.grants[i]).user_id
        != user.id by {
        db.grants.lemma_filter_pred(kept, i);
    }
    assert forall|other: Text| other != user.id implies #[trigger] first_user(
        next.users,
        by_id(other),
    ) == first_user(db.users, by_id(other)) by {
        rows::lemma_first_where_filter(db.users, by_id(other), others);
    }
    assert forall|other: Text, resource_id: Text| other != user.id implies #[trigger] first_where(
        next.grants,
        by_key(other, resource_id),
    ) == first_where(db.grants, by_key(other, resource_id)) by {
        rows::lemma_first_where_filter(db.grants, by_key(other, resource_id), kept);
    }
}

/// After a start the named administrator exists, is enabled and an administrator, and
/// its grant on all resources is the full permission; where the user existed before,
/// it keeps its identifier and password.
pub proof fn bootstrap_restores_the_administrator(
    db: DatabaseView,
    username: Text,
    password: Option<Text>,
    salt: Text,
    id: Text,
    now: i64,
)
    ensures
        ({
            let name = text::trimmed(username);
            let (next, r) = db::with_bootstrap_admin(db, Some(username), password, salt, id, now);
            r is Ok ==> match first_user(next.users, by_name(name)) {
                Some(user) => {
                    &&& user.is_admin
                    &&& !user.disabled
                    &&& first_where(next.grants, by_key(user.id, db::every_resource())) matches Some(
                        g,
                    ) && g.permissions == json::permissions_json(db::normalized(seq!["*"@]))
                    &&& match first_user(db.users, by_name(name)) {
                        Some(before) => user == (UserView {
                            disabled: false,
                            is_admin: true,
                            ..before
                        }),
                        None => user.id == id,
                    }
                },
                None => false,
            }
        }),
{
    let name = text::trimmed(username);
    let (next, r) = db::with_bootstrap_admin(db, Some(username), password, salt, id, now);
    if r is Ok {
        match first_user(db.users, by_name(name)) {
            Some(user) => {
                rows::lemma_first_where_map(db.users, by_name(name), restored(user.id));
                lemma_grant_stands(
                    db.grants,
                    user.id,
                    db::every_resource(),
                    json::permissions_json(db::normalized(seq!["*"@])),
                );
            },
            None => {
                let (made, outcome) = db::created(
                    db,
                    name,
                    name,
                    password->0,
                    true,
                    salt,
                    id,
                    now,
                );
                created_users_are_found(db, name, name, password->0, true, salt, id, now);
                lemma_trimmed_twice(username);
                lemma_grant_stands(
                    db.grants,
                    id,
                    db::every_resource(),
                    json::permissions_json(db::normalized(seq!["*"@])),
                );
            },
        }
    }
}

/// Trimming a trimmed text changes nothing.
pub(crate) proof fn lemma_trimmed_twice(s: Text)
    ensures
        text::trimmed(text::trimmed(s)) == text::trimmed(s),
{
    text::lemma_trimmed(s);
}

// ---------------------------------------------------------------------------
// Grants
// ---------------------------------------------------------------------------

proof fn lemma_grant_stands(
    grants: Seq<GrantRowView>,
    user_id: Text,
    resource_id: Text,
    permissions: Text,
)
    ensures
        first_where(
            db::granted(grants, user_id, resource_id, permissions),
            by_key(user_id, resource_id),
        ) == Some(GrantRowView { user_id, resource_id, permissions }),
{
    let key = by_key(user_id, resource_id);
    rows::lemma_first_where(grants, key);
    if first_where(grants, key) is Some {
        let g = |g: GrantRowView|
            if key(g) {
                GrantRowView { permissions, ..g }
            } else {
                g
            };
        rows::lemma_first_where_map(grants, key, g);
        assert(db::granted(grants, user_id, resource_id, permissions) =~= grants.map_values(g));
    } else {
        rows::lemma_first_where_push(
            grants,
            GrantRowView { user_id, resource_id, permissions },
            key,
        );
    }
}

/// A grant replaces what was granted before to the same user on the same resource, and
/// touches no other grant.
pub proof fn the_last_grant_counts(
    grants: Seq<GrantRowView>,
    user_id: Text,
    resource_id: Text,
    before: Text,
    after: Text,
)
    ensures
        db::granted(
            db::granted(grants, user_id, resource_id, before),
            user_id,
            resource_id,
            after,
        ) == db::granted(grants, user_id, resource_id, after),
        first_where(
            db::granted(grants, user_id, resource_id, after),
            by_key(user_id, resource_id),
        ) == Some(GrantRowView { user_id, resource_id, permissions: after }),
        forall|other_user: Text, other_resource: Text|
            (other_user, other_resource) != (user_id, resource_id) ==> #[trigger] first_where(
                db::granted(grants, user_id, resource_id, after),
                by_key(other_user, other_resource),
            ) == first_where(grants, by_key(other_user, other_resource)),
{
    let key = by_key(user_id, resource_id);
    let once = db::granted(grants, user_id, resource_id, before);
    let twice = db::granted(once, user_id, resource_id, after);
    let direct = db::granted(grants, user_id, resource_id, after);
    lemma_grant_stands(grants, user_id, resource_id, before);
    lemma_grant_stands(grants, user_id, resource_id, after);
    rows::lemma_first_where(grants, key);
    if first_where(grants, key) is None {
        assert forall|i: int| 0 <= i < grants.len() implies twice[i] == #[trigger] grants[i] by {
            assert(once[i] == grants[i]);
        }
    }
    assert(twice =~= direct);
    assert forall|other_user: Text, other_resource: Text|
        (other_user, other_resource) != (user_id, resource_id) implies #[trigger] first_where(
        direct,
        by_key(other_user, other_resource),
    ) == first_where(grants, by_key(other_user, other_resource)) by {
        let other = by_key(other_user, other_resource);
        rows::lemma_first_where(grants, other);
        if first_where(grants, key) is Some {
            let g = |g: GrantRowView|
                if key(g) {
                    GrantRowView { permissions: after, ..g }
                } else {
                    g
                };
            rows::lemma_first_where_map(grants, other, g);
            assert(direct =~= grants.map_values(g));
        } else {
            rows::lemma_first_where_push(
                grants,
                GrantRowView { user_id, resource_id, permissions: after },
                other,
            );
        }
    }
}

/// A revoked grant is gone, and no other grant is touched.
pub proof fn revoked_grants_are_gone(db: DatabaseView, username: Text, resource_id: Text)
    requires
        db::without_grant(db, username, resource_id).1 is Ok,
    ensures
        ({
            let next = db::without_grant(db, username, resource_id).0;
            let user = first_user(db.users, by_name(username))->0;
            &&& first_where(next.grants, by_key(user.id, resource_id)) is None
            &&& forall|other_user: Text, other_resource: Text|
                (other_user, other_resource) != (user.id, resource_id) ==> #[trigger] first_where(
                    next.grants,
                    by_key(other_user, other_resource),
                ) == first_where(db.grants, by_key(other_user, other_resource))
        }),
{
    let next = db::without_grant(db, username, resource_id).0;
    let user = first_user(db.users, by_name(username))->0;
    let key = by_key(user.id, resource_id);
    let kept = |g: GrantRowView| !key(g);
    assert forall|i: int| 0 <= i < next.grants.len() implies !key(#[trigger] next.grants[i]) by {
        db.grants.lemma_filter_pred(kept, i);
    }
    rows::lemma_first_where_none(next.grants, key);
    assert forall|other_user: Text, other_resource: Text|
        (other_user, other_resource) != (user.id, resource_id) implies #[trigger] first_where(
        next.grants,
        by_key(other_user, other_resource),
    ) == first_where(db.grants, by_key(other_user, other_resource)) by {
        rows::lemma_first_where_filter(db.grants, by_key(other_user, other_resource), kept);
    }
}

/// The list that names the full permission names nothing else.
pub(crate) proof fn lemma_full_permission()
    ensures
        db::normalized(seq!["*"@]) == seq!["*"@],
{
    reveal_strlit("*");
    let star = "*"@;
    let lists = seq![star];
    assert(star =~= seq!['*']);
    reveal_with_fuel(text::pieces, 2);
    assert(star.drop_last() =~= Seq::<char>::empty());
    assert(text::pieces(star, ',') =~= seq![star]) by {
        assert(Seq::<char>::empty().push('*') =~= star);
    }
    assert(text::trimmed(star) == star);
    assert forall|p: Text| #[trigger] db::is_named(lists, p) <==> p == star by {
        if p == star {
            assert(p == text::trimmed(text::pieces(lists[0], ',')[0]));
        }
    }
    assert(Set::new(|p: Text| db::is_named(lists, p)) =~= lists.to_set()) by {
        assert forall|p: Text| lists.to_set().contains(p) <==> db::is_named(lists, p) by {
            if p == star {
                assert(lists[0] == p);
                assert(lists.contains(p));
            }
        }
    }
    assert(text::ascending(lists));
    text::lemma_in_order(lists);
}

/// What the rows hold together is what each of them holds.
proof fn lemma_merged(grants: Seq<GrantRowView>)
    requires
        db::merged(grants) is Ok,
    ensures
        db::merged(grants)->Ok_0.finite(),
        forall|i: int, p: Text|
            0 <= i < grants.len() && (#[trigger] json::permissions_in(
                grants[i].permissions,
            )->Ok_0.contains(p)) ==> db::merged(grants)->Ok_0.contains(p),
        forall|i: int|
            0 <= i < grants.len() ==> json::permissions_in(
                (#[trigger] grants[i]).permissions,
            ) is Ok,
    decreases grants.len(),
{
    if grants.len() > 0 {
        let init = grants.drop_last();
        lemma_merged(init);
        let list = json::permissions_in(grants.last().permissions)->Ok_0;
        let all = db::merged(grants)->Ok_0;
        assert(all == db::merged(init)->Ok_0.union(list.to_set()));
        assert forall|i: int, p: Text|
            0 <= i < grants.len() && (#[trigger] json::permissions_in(
                grants[i].permissions,
            )->Ok_0.contains(p)) implies all.contains(p) by {
            if i < init.len() {
                assert(init[i] == grants[i]);
                assert(json::permissions_in(init[i].permissions)->Ok_0.contains(p));
            } else {
                assert(list.contains(p));
                assert(list.to_set().contains(p));
            }
        }
        assert forall|i: int| 0 <= i < grants.len() implies json::permissions_in(
            (#[trigger] grants[i]).permissions,
        ) is Ok by {
            if i < init.len() {
                assert(init[i] == grants[i]);
            }
        }
    }
}

proof fn lemma_merged_same(grants: Seq<GrantRowView>, list: Seq<Text>)
    requires
        grants.len() > 0,
        forall|i: int|
            0 <= i < grants.len() ==> json::permissions_in((#[trigger] grants[i]).permissions) == (
            Ok::<Seq<Text>, Text>(list)),
    ensures
        db::merged(grants) == (Ok::<Set<Text>, Text>(list.to_set())),
    decreases grants.len(),
{
    let init = grants.drop_last();
    if init.len() > 0 {
        assert forall|i: int| 0 <= i < init.len() implies json::permissions_in(
            (#[trigger] init[i]).permissions,
        ) == (Ok::<Seq<Text>, Text>(list)) by {
            assert(init[i] == grants[i]);
        }
        lemma_merged_same(init, list);
    }
    assert(grants.last() == grants[grants.len() - 1]);
    if init.len() == 0 {
        assert(db::merged(init) == Ok::<Set<Text>, Text>(Set::empty()));
        assert(Set::<Text>::empty().union(list.to_set()) =~= list.to_set());
    } else {
        assert(list.to_set().union(list.to_set()) =~= list.to_set());
    }
}

/// What a grant on a resource or on all resources names, its user may do with the
/// resource.
pub proof fn granted_permissions_are_permitted(
    db: DatabaseView,
    grant: GrantRowView,
    resource_id: Text,
    permission: Text,
)
    requires
        db.grants.contains(grant),
        grant.resource_id == resource_id || grant.resource_id == db::every_resource(),
        db::permitted(db, grant.user_id, resource_id) is Ok,
        json::permissions_in(grant.permissions)->Ok_0.contains(permission),
    ensures
        db::permitted(db, grant.user_id, resource_id)->Ok_0.contains(permission),
{
    let p = db::applies(grant.user_id, resource_id);
    let found = db.grants.filter(p);
    let k = choose|k: int| 0 <= k < db.grants.len() && db.grants[k] == grant;
    db.grants.lemma_filter_contains(p, k);
    assert(found.contains(grant));
    let m = choose|m: int| 0 <= m < found.len() && found[m] == grant;
    lemma_merged(found);
    let all = db::merged(found)->Ok_0;
    assert(json::permissions_in(found[m].permissions)->Ok_0.contains(permission));
    assert(all.contains(permission));
    text::lemma_finite_in_order(all);
    assert(text::in_order(all).to_set().contains(permission));
}

/// What may be done with all resources may be done with each.
pub proof fn permissions_on_all_resources_reach_each(
    db: DatabaseView,
    user_id: Text,
    resource_id: Text,
    permission: Text,
)
    requires
        db::permitted(db, user_id, db::every_resource()) is Ok,
        db::permitted(db, user_id, resource_id) is Ok,
        db::permitted(db, user_id, db::every_resource())->Ok_0.contains(permission),
    ensures
        db::permitted(db, user_id, resource_id)->Ok_0.contains(permission),
{
    let p = db::applies(user_id, db::every_resource());
    let found = db.grants.filter(p);
    lemma_merged(found);
    let all = db::merged(found)->Ok_0;
    text::lemma_finite_in_order(all);
    assert(all.contains(permission)) by {
        assert(text::in_order(all).to_set().contains(permission));
    }
    let i = lemma_merged_source(found, permission);
    db.grants.lemma_filter_pred(p, i);
    db.grants.lemma_filter_contains_rev(p, found[i]);
    granted_permissions_are_permitted(db, found[i], resource_id, permission);
}

/// Each permission of the rows together is in one of them.
proof fn lemma_merged_source(grants: Seq<GrantRowView>, permission: Text) -> (i: int)
    requires
        db::merged(grants) is Ok,
        db::merged(grants)->Ok_0.contains(permission),
    ensures
        0 <= i < grants.len(),
        json::permissions_in(grants[i].permissions)->Ok_0.contains(permission),
    decreases grants.len(),
{
    let init = grants.drop_last();
    let list = json::permissions_in(grants.last().permissions)->Ok_0;
    if list.contains(permission) {
        grants.len() - 1
    } else {
        assert(!list.to_set().contains(permission));
        let i = lemma_merged_source(init, permission);
        assert(init[i] == grants[i]);
        i
    }
}

/// What `permitted` shows once `list` has been granted, in a form that reads back.
pub(crate) proof fn lemma_granted_is_permitted(
    db: DatabaseView,
    user_id: Text,
    resource_id: Text,
    list: Seq<Text>,
)
    requires
        json::permissions_in(json::permissions_json(list)) == (Ok::<Seq<Text>, Text>(list)),
    ensures
        ({
            let next = DatabaseView {
                grants: db::granted(
                    db.grants,
                    user_id,
                    resource_id,
                    json::permissions_json(list),
                ),
                ..db
            };
            let shown = db::permitted(next, user_id, resource_id);
            &&& shown is Ok ==> forall|p: Text| #[trigger]
                list.contains(p) ==> shown->Ok_0.contains(p)
            &&& resource_id == db::every_resource() || first_where(
                db.grants,
                by_key(user_id, db::every_resource()),
            ) is None ==> {
                &&& shown == (Ok::<Seq<Text>, Text>(text::in_order(list.to_set())))
                &&& text::ascending(list) ==> shown == (Ok::<Seq<Text>, Text>(list))
            }
        }),
{
    let encoded = json::permissions_json(list);
    let next = DatabaseView {
        grants: db::granted(db.grants, user_id, resource_id, encoded),
        ..db
    };
    let key = by_key(user_id, resource_id);
    let p = db::applies(user_id, resource_id);
    let found = next.grants.filter(p);
    let shown = db::permitted(next, user_id, resource_id);
    let row = GrantRowView { user_id, resource_id, permissions: encoded };
    lemma_grant_stands(db.grants, user_id, resource_id, encoded);
    rows::lemma_first_where(next.grants, key);
    assert(next.grants.contains(row));
    if shown is Ok {
        assert forall|x: Text| #[trigger] list.contains(x) implies shown->Ok_0.contains(x) by {
            granted_permissions_are_permitted(next, row, resource_id, x);
        }
    }
    if resource_id == db::every_resource() || first_where(
        db.grants,
        by_key(user_id, db::every_resource()),
    ) is None {
        rows::lemma_first_where(db.grants, by_key(user_id, db::every_resource()));
        rows::lemma_first_where(db.grants, key);
        assert forall|i: int| 0 <= i < next.grants.len() && p(
            #[trigger] next.grants[i],
        ) implies next.grants[i].permissions == encoded by {
            if i < db.grants.len() {
                assert(db.grants[i].user_id == next.grants[i].user_id);
                assert(db.grants[i].resource_id == next.grants[i].resource_id);
            }
        }
        assert forall|i: int| 0 <= i < found.len() implies json::permissions_in(
            (#[trigger] found[i]).permissions,
        ) == (Ok::<Seq<Text>, Text>(list)) by {
            next.grants.lemma_filter_pred(p, i);
            next.grants.lemma_filter_contains_rev(p, found[i]);
            let k = choose|k: int| 0 <= k < next.grants.len() && next.grants[k] == found[i];
            assert(p(next.grants[k]));
        }
        rows::lemma_some_where(next.grants, p, row);
        lemma_merged_same(found, list);
        if text::ascending(list) {
            text::lemma_in_order(list);
        }
    }
}

// ---------------------------------------------------------------------------
// Repositories
// ---------------------------------------------------------------------------

/// A deleted repository is gone with every grant on it, other repositories and grants
/// stay, and it cannot be deleted twice.
pub proof fn deleted_repositories_leave_no_grants(db: DatabaseView, resource_id: Text)
    requires
        db::without_repository(db, resource_id).1 is Ok,
    ensures
        ({
            let next = db::without_repository(db, resource_id).0;
            &&& forall|i: int|
                0 <= i < next.grants.len() ==> (#[trigger] next.grants[i]).resource_id
                    != resource_id
            &&& forall|user_id: Text, other: Text|
                other != resource_id ==> #[trigger] first_where(next.grants, by_key(user_id, other))
                    == first_where(db.grants, by_key(user_id, other))
            &&& forall|other: Text|
                other != resource_id ==> #[trigger] first_where(
                    next.repositories,
                    db::by_resource(other),
                ) == first_where(db.repositories, db::by_resource(other))
            &&& db::without_repository(next, resource_id).1 == (Err::<(), Text>(
                "repository resource not found"@,
            ))
        }),
{
    let next = db::without_repository(db, resource_id).0;
    let others = |r: RepositoryRowView| r.resource_id != resource_id;
    let kept = |g: GrantRowView| g.resource_id != resource_id;
    assert forall|i: int| 0 <= i < next.grants.len() implies (
    #[trigger] next.grants[i]).resource_id != resource_id by {
        db.grants.lemma_filter_pred(kept, i);
    }
    assert forall|i: int| 0 <= i < next.repositories.len() implies !db::by_resource(resource_id)(
        #[trigger] next.repositories[i],
    ) by {
        db.repositories.lemma_filter_pred(others, i);
    }
    rows::lemma_first_where_none(next.repositories, db::by_resource(resource_id));
    assert forall|user_id: Text, other: Text| other != resource_id implies #[trigger] first_where(
        next.grants,
        by_key(user_id, other),
    ) == first_where(db.grants, by_key(user_id, other)) by {
        rows::lemma_first_where_filter(db.grants, by_key(user_id, other), kept);
    }
    assert forall|other: Text| other != resource_id implies #[trigger] first_where(
        next.repositories,
        db::by_resource(other),
    ) == first_where(db.repositories, db::by_resource(other)) by {
        rows::lemma_first_where_filter(db.repositories, db::by_resource(other), others);
    }
}

/// A repository that was created is there, and belongs to the user who created it.
pub proof fn created_repositories_are_found(
    db: DatabaseView,
    actor_id: Text,
    resource_id: Text,
    name: Text,
    now: i64,
)
    requires
        db::with_repository(db, actor_id, resource_id, name, now).1 is Ok,
    ensures
        ({
            let next = db::with_repository(db, actor_id, resource_id, name, now).0;
            &&& first_where(next.repositories, db::by_resource(resource_id)) == Some(
                RepositoryRowView { resource_id, name, created_by: actor_id, created_at: now },
            )
            &&& first_where(next.grants, by_key(actor_id, resource_id)) == Some(
                GrantRowView {
                    user_id: actor_id,
                    resource_id,
                    permissions: json::permissions_json(db::owner_permissions()),
                },
            )
            &&& next.users == db.users
            &&& db::with_repository(next, actor_id, resource_id, name, now).1 == (Err::<(), Text>(
                "repository resource already exists"@,
            ))
        }),
{
    let next = db::with_repository(db, actor_id, resource_id, name, now).0;
    rows::lemma_first_where_push(
        db.repositories,
        next.repositories.last(),
        db::by_resource(resource_id),
    );
    lemma_grant_stands(
        db.grants,
        actor_id,
        resource_id,
        json::permissions_json(db::owner_permissions()),
    );
}

// ---------------------------------------------------------------------------
// Lists
// ---------------------------------------------------------------------------

/// Every user is listed, as often as the tables hold it, and nobody else; no user is
/// listed ahead of one with a lesser name.
pub proof fn every_user_is_listed_in_order(db: DatabaseView)
    ensures
        db::listed_users(db).to_multiset() == db.users.map_values(
            |r: UserRowView| r.user,
        ).to_multiset(),
        sorting::in_rank::<User>(db::listed_users(db)),
{
    sorting::sorting_permutes_and_orders::<User>(db.users.map_values(|r: UserRowView| r.user));
}

/// A repository is listed if and only if it is in the tables and passes the filter, and
/// the list is in order. There is a list unless the filter is too long.
pub proof fn matching_repositories_are_listed_in_order(
    db: DatabaseView,
    filter: Text,
    resource_id: Text,
)
    ensures
        match db::listed_repositories(db, filter) {
            Ok(list) => {
                &&& list.contains(resource_id) <==> first_where(
                    db.repositories,
                    db::by_resource(resource_id),
                ) is Some && text::passes_filter(filter, resource_id)
                &&& sorting::in_rank::<String>(list)
            },
            Err(_) => db::overlong(filter),
        },
{
    let passes = |r: RepositoryRowView| text::passes_filter(filter, r.resource_id);
    let id_of = |r: RepositoryRowView| r.resource_id;
    let found = db.repositories.filter(passes);
    let ids = found.map_values(id_of);
    sorting::sorting_permutes_and_orders::<String>(ids);
    rows::lemma_first_where(db.repositories, db::by_resource(resource_id));
    vstd::seq_lib::to_multiset_contains(ids, resource_id);
    vstd::seq_lib::to_multiset_contains(db::matching_repositories(db, filter), resource_id);
    if ids.contains(resource_id) {
        let k = choose|k: int| 0 <= k < ids.len() && ids[k] == resource_id;
        db.repositories.lemma_filter_pred(passes, k);
        db.repositories.lemma_filter_contains_rev(passes, found[k]);
        let m = choose|m: int| 0 <= m < db.repositories.len() && db.repositories[m] == found[k];
        assert(db::by_resource(resource_id)(db.repositories[m]));
    }
    if first_where(db.repositories, db::by_resource(resource_id)) is Some && text::passes_filter(
        filter,
        resource_id,
    ) {
        let m = choose|m: int|
            0 <= m < db.repositories.len() && db::by_resource(resource_id)(
                #[trigger] db.repositories[m],
            );
        db.repositories.lemma_filter_contains(passes, m);
        let k = choose|k: int| 0 <= k < found.len() && found[k] == db.repositories[m];
        assert(ids[k] == resource_id);
    }
}

/// Rows that could be read are listed row by row.
proof fn lemma_read_grants(grants: Seq<GrantRowView>)
    requires
        db::read_grants(grants) is Ok,
    ensures
        db::read_grants(grants)->Ok_0.len() == grants.len(),
        forall|i: int|
            0 <= i < grants.len() ==> {
                let shown = #[trigger] db::read_grants(grants)->Ok_0[i];
                &&& shown.resource_id == grants[i].resource_id
                &&& json::permissions_in(grants[i].permissions) == (Ok::<Seq<Text>, Text>(
                    shown.permissions,
                ))
            },
    decreases grants.len(),
{
    if grants.len() > 0 {
        let init = grants.drop_last();
        lemma_read_grants(init);
        assert forall|i: int| 0 <= i < grants.len() implies {
            let shown = #[trigger] db::read_grants(grants)->Ok_0[i];
            &&& shown.resource_id == grants[i].resource_id
            &&& json::permissions_in(grants[i].permissions) == (Ok::<Seq<Text>, Text>(
                shown.permissions,
            ))
        } by {
            if i < init.len() {
                assert(db::read_grants(grants)->Ok_0[i] == db::read_grants(init)->Ok_0[i]);
            }
        }
    }
}

/// What the list of a user's grants shows, the user may do.
pub proof fn listed_grants_are_permitted(
    db: DatabaseView,
    user_id: Text,
    filter: Text,
    i: int,
    permission: Text,
)
    requires
        db::listed_grants(db, user_id, filter) is Ok,
        0 <= i < db::listed_grants(db, user_id, filter)->Ok_0.len(),
        db::permitted(
            db,
            user_id,
            db::listed_grants(db, user_id, filter)->Ok_0[i].resource_id,
        ) is Ok,
        db::listed_grants(db, user_id, filter)->Ok_0[i].permissions.contains(permission),
    ensures
        db::permitted(
            db,
            user_id,
            db::listed_grants(db, user_id, filter)->Ok_0[i].resource_id,
        )->Ok_0.contains(permission),
        text::passes_filter(
            filter,
            db::listed_grants(db, user_id, filter)->Ok_0[i].resource_id,
        ),
{
    let p = db::listable(user_id, filter);
    let found = db.grants.filter(p);
    let sorted = sorting::sorted::<GrantRow>(found);
    sorting::sorting_permutes_and_orders::<GrantRow>(found);
    lemma_read_grants(sorted);
    let row = sorted[i];
    vstd::seq_lib::to_multiset_contains(sorted, row);
    vstd::seq_lib::to_multiset_contains(found, row);
    let k = choose|k: int| 0 <= k < found.len() && found[k] == row;
    db.grants.lemma_filter_pred(p, k);
    db.grants.lemma_filter_contains_rev(p, row);
    granted_permissions_are_permitted(db, row, row.resource_id, permission);
}

} // verus!
