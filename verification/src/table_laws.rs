//! What each operation does to the rows of the tables, and what each list shows of them.

use vstd::prelude::*;
use vstd::utf8::*;

use crate::db;
use crate::db::{
    by_id, by_name, first_user, grants_apart, repositories_apart, users_apart, DatabaseView,
    GrantRow, GrantRowView, GrantView, NamedGrantRow, NamedGrantRowView, RepositoryRowView, User,
    UserGrantView, UserRowView, UserView,
};
use crate::json;
use crate::password;
use crate::rows;
use crate::rows::first_where;
use crate::sorting;
use crate::sorting::Ranked;
use crate::text;
use crate::text::Text;

verus! {

// ---------------------------------------------------------------------------
// Users
// ---------------------------------------------------------------------------

/// The place at which `first_user` found its row.
pub(crate) proof fn lemma_user_place(users: Seq<UserRowView>, p: spec_fn(UserRowView) -> bool) -> (k:
    int)
    requires
        first_user(users, p) is Some,
    ensures
        0 <= k < users.len(),
        p(users[k]),
        first_user(users, p) == Some(users[k].user),
{
    rows::lemma_first_where(users, p);
    let row = first_where(users, p)->0;
    choose|k: int| 0 <= k < users.len() && users[k] == row
}

/// The user with a name, in any case, is the one whose row has it, and the user with an
/// identifier is the one whose row has that.
pub proof fn users_are_found_by_their_rows(db: DatabaseView, name: Text, id: Text, k: int)
    requires
        db.well_formed(),
    ensures
        0 <= k < db.users.len() && text::same_name(db.users[k].user.username, name) ==> first_user(
            db.users,
            by_name(name),
        ) == Some(db.users[k].user),
        0 <= k < db.users.len() && db.users[k].user.id == id ==> first_user(db.users, by_id(id))
            == Some(db.users[k].user),
        (forall|i: int|
            0 <= i < db.users.len() ==> !text::same_name(#[trigger] db.users[i].user.username, name))
            ==> first_user(db.users, by_name(name)) is None,
        (forall|i: int| 0 <= i < db.users.len() ==> #[trigger] db.users[i].user.id != id)
            ==> first_user(db.users, by_id(id)) is None,
{
    let (named, known) = (by_name(name), by_id(id));
    if first_user(db.users, named) is Some {
        let m = lemma_user_place(db.users, named);
        assert(text::same_name(db.users[m].user.username, name));
        if 0 <= k < db.users.len() && text::same_name(db.users[k].user.username, name) && k != m {
            if k < m {
                assert(users_apart()(db.users[k], db.users[m]));
            } else {
                assert(users_apart()(db.users[m], db.users[k]));
            }
        }
    } else {
        rows::lemma_first_where(db.users, named);
        if 0 <= k < db.users.len() {
            assert(!named(db.users[k]));
        }
    }
    if first_user(db.users, known) is Some {
        let m = lemma_user_place(db.users, known);
        assert(db.users[m].user.id == id);
        if 0 <= k < db.users.len() && db.users[k].user.id == id && k != m {
            if k < m {
                assert(users_apart()(db.users[k], db.users[m]));
            } else {
                assert(users_apart()(db.users[m], db.users[k]));
            }
        }
    } else {
        rows::lemma_first_where(db.users, known);
        if 0 <= k < db.users.len() {
            assert(!known(db.users[k]));
        }
    }
}

/// Whether a user has a name, in any case.
pub open spec fn is_taken(db: DatabaseView, name: Text) -> bool {
    exists|i: int|
        0 <= i < db.users.len() && text::same_name(#[trigger] db.users[i].user.username, name)
}

/// Whether a user has an identifier.
pub open spec fn is_known(db: DatabaseView, id: Text) -> bool {
    exists|i: int| 0 <= i < db.users.len() && #[trigger] db.users[i].user.id == id
}

pub(crate) proof fn lemma_taken(db: DatabaseView, name: Text, id: Text)
    ensures
        is_taken(db, name) == (first_user(db.users, by_name(name)) is Some),
        is_known(db, id) == (first_user(db.users, by_id(id)) is Some),
{
    rows::lemma_first_where(db.users, by_name(name));
    rows::lemma_first_where(db.users, by_id(id));
    if first_user(db.users, by_name(name)) is Some {
        let k = lemma_user_place(db.users, by_name(name));
        assert(text::same_name(db.users[k].user.username, name));
    } else {
        assert forall|i: int| 0 <= i < db.users.len() implies !text::same_name(
            #[trigger] db.users[i].user.username,
            name,
        ) by {
            assert(!by_name(name)(db.users[i]));
        }
    }
    if first_user(db.users, by_id(id)) is Some {
        let k = lemma_user_place(db.users, by_id(id));
        assert(db.users[k].user.id == id);
    } else {
        assert forall|i: int| 0 <= i < db.users.len() implies #[trigger] db.users[i].user.id
            != id by {
            assert(!by_id(id)(db.users[i]));
        }
    }
}

/// A name is that of a user if, without the white space around it, it has 3 to 64
/// characters, and these are ASCII letters, digits, dots, hyphens and underscores.
pub open spec fn is_proper_name(name: Text) -> bool {
    &&& 3 <= name.len() <= 64
    &&& forall|i: int|
        0 <= i < name.len() ==> {
            let c = #[trigger] name[i];
            'a' <= c <= 'z' || 'A' <= c <= 'Z' || '0' <= c <= '9' || c == '.' || c == '-' || c
                == '_'
        }
}

/// A username is accepted if and only if it is a proper name.
pub proof fn proper_names_are_accepted(username: Text)
    ensures
        (db::username_error(username) is None) == is_proper_name(text::trimmed(username)),
{
    let name = text::trimmed(username);
    if is_proper_name(name) || db::username_error(username) is None {
        assert(is_ascii_chars(name)) by {
            assert forall|i: int| 0 <= i < name.len() implies 0 <= (#[trigger] name[i] as nat) < 128 by {
                if db::username_error(username) is None {
                    assert(db::is_username_char(name[i]));
                }
            }
        }
        is_ascii_chars_encode_utf8(name);
    }
    if is_proper_name(name) {
        assert forall|i: int| 0 <= i < name.len() implies db::is_username_char(
            #[trigger] name[i],
        ) by {}
    }
    if db::username_error(username) is None {
        assert forall|i: int| 0 <= i < name.len() implies {
            let c = #[trigger] name[i];
            'a' <= c <= 'z' || 'A' <= c <= 'Z' || '0' <= c <= '9' || c == '.' || c == '-' || c
                == '_'
        } by {
            assert(db::is_username_char(name[i]));
        }
    }
}

/// Adding a user puts one row behind the others and leaves everything else alone. It
/// succeeds if and only if the name is proper, the display name not blank, the password
/// long enough, the hash made, and neither name nor identifier is in use.
pub proof fn a_new_user_is_one_row_more(
    db: DatabaseView,
    username: Text,
    display_name: Text,
    password: Text,
    is_admin: bool,
    salt: Text,
    id: Text,
    now: i64,
)
    ensures
        ({
            let (next, r) = db::created(
                db,
                username,
                display_name,
                password,
                is_admin,
                salt,
                id,
                now,
            );
            let hash = password::argon2_hash(password, salt);
            &&& r is Ok <==> {
                &&& is_proper_name(text::trimmed(username))
                &&& text::trimmed(display_name).len() > 0
                &&& password.len() >= 10
                &&& hash is Ok
                &&& !is_taken(db, text::trimmed(username))
                &&& !is_known(db, id)
            }
            &&& r matches Ok(user) ==> {
                &&& user.id == id
                &&& user.username == text::trimmed(username)
                &&& user.display_name == text::trimmed(display_name)
                &&& user.password_hash == hash->Ok_0
                &&& !user.disabled
                &&& user.is_admin == is_admin
                &&& next.users.len() == db.users.len() + 1
                &&& next.users.drop_last() == db.users
                &&& next.users.last().user == user
                &&& next.users.last().created_at == now
            }
            &&& r is Err ==> next.users == db.users
            &&& next.repositories == db.repositories
            &&& next.grants == db.grants
        }),
{
    proper_names_are_accepted(username);
    lemma_taken(db, text::trimmed(username), id);
    let (next, r) = db::created(db, username, display_name, password, is_admin, salt, id, now);
    if r is Ok {
        assert(next.users.drop_last() =~= db.users);
    }
}

/// What is wrong with a new user is told: the name first, then the display name, the
/// password, and last that the user exists already.
pub proof fn refused_users_are_told_why(
    db: DatabaseView,
    username: Text,
    display_name: Text,
    password: Text,
    is_admin: bool,
    salt: Text,
    id: Text,
    now: i64,
)
    ensures
        ({
            let name = text::trimmed(username);
            let r = db::created(
                db,
                username,
                display_name,
                password,
                is_admin,
                salt,
                id,
                now,
            ).1;
            let blank = text::trimmed(display_name).len() == 0;
            let told = |message: Text| r == (Err::<UserView, Text>(message));
            let bytes = encode_utf8(name).len();
            &&& bytes < 3 || bytes > 64 ==> told("username must contain 3 to 64 characters"@)
            &&& 3 <= bytes <= 64 && !is_proper_name(name) ==> told(
                "username may contain only ASCII letters, digits, '.', '-' and '_'"@,
            )
            &&& is_proper_name(name) && blank ==> told("display name must not be empty"@)
            &&& is_proper_name(name) && !blank && password.len() < 10 ==> told(
                "password must contain at least 10 characters"@,
            )
            &&& is_proper_name(name) && !blank && password.len() >= 10 ==> (
            password::argon2_hash(password, salt) matches Err(e) ==> told(
                "hashing password: "@ + e,
            ))
            &&& is_proper_name(name) && !blank && password.len() >= 10 && password::argon2_hash(
                password,
                salt,
            ) is Ok && (is_taken(db, name) || is_known(db, id)) ==> told(
                "creating user (the username may already exist)"@,
            )
        }),
{
    proper_names_are_accepted(username);
    lemma_taken(db, text::trimmed(username), id);
}

/// Setting a password changes the hash in the row of the named user and nothing else
/// anywhere. It succeeds if and only if the password is long enough, the hash made, and
/// the user there.
pub proof fn a_new_password_changes_one_hash(
    db: DatabaseView,
    username: Text,
    password: Text,
    salt: Text,
)
    ensures
        ({
            let (next, r) = db::with_password(db, username, password, salt);
            let hash = password::argon2_hash(password, salt);
            &&& r is Ok <==> password.len() >= 10 && hash is Ok && is_taken(db, username)
            &&& next.users.len() == db.users.len()
            &&& forall|i: int|
                0 <= i < db.users.len() ==> {
                    let (before, after) = (db.users[i], #[trigger] next.users[i]);
                    if r is Ok && text::same_name(before.user.username, username) {
                        &&& after.user.password_hash == hash->Ok_0
                        &&& after.user.id == before.user.id
                        &&& after.user.username == before.user.username
                        &&& after.user.display_name == before.user.display_name
                        &&& after.user.disabled == before.user.disabled
                        &&& after.user.is_admin == before.user.is_admin
                        &&& after.created_at == before.created_at
                    } else {
                        after == before
                    }
                }
            &&& next.repositories == db.repositories
            &&& next.grants == db.grants
            &&& password.len() < 10 ==> r == (Err::<(), Text>(
                "password must contain at least 10 characters"@,
            ))
            &&& password.len() >= 10 && hash is Ok && !is_taken(db, username) ==> r == (Err::<
                (),
                Text,
            >("user not found: "@ + username))
        }),
{
    lemma_taken(db, username, Seq::empty());
    let (next, r) = db::with_password(db, username, password, salt);
    assert forall|i: int| 0 <= i < db.users.len() implies {
        let (before, after) = (db.users[i], #[trigger] next.users[i]);
        r is Ok && text::same_name(before.user.username, username) || after == before
    } by {}
}

/// Setting a password, disabling and enabling touch no other user: whoever has another
/// name logs in with the same password as before, and with no other.
pub proof fn other_users_log_in_as_before(
    db: DatabaseView,
    username: Text,
    password: Text,
    salt: Text,
    disabled: bool,
    other: Text,
    given: Text,
)
    requires
        !text::same_name(other, username),
    ensures
        db::authenticated(db::with_password(db, username, password, salt).0, other, given)
            == db::authenticated(db, other, given),
        db::authenticated(db::with_disabled(db, username, disabled).0, other, given)
            == db::authenticated(db, other, given),
{
    let p = by_name(other);
    rows::lemma_first_where(db.users, p);
    if db::with_password(db, username, password, salt).1 is Ok {
        let next = db::with_password(db, username, password, salt).0;
        let hash = password::argon2_hash(password, salt)->Ok_0;
        let g = |r: UserRowView|
            if by_name(username)(r) {
                UserRowView { user: UserView { password_hash: hash, ..r.user }, ..r }
            } else {
                r
            };
        rows::lemma_first_where_map(db.users, p, g);
        assert(next.users =~= db.users.map_values(g));
    }
    if db::with_disabled(db, username, disabled).1 is Ok {
        let next = db::with_disabled(db, username, disabled).0;
        let g = |r: UserRowView|
            if by_name(username)(r) {
                UserRowView { user: UserView { disabled, ..r.user }, ..r }
            } else {
                r
            };
        rows::lemma_first_where_map(db.users, p, g);
        assert(next.users =~= db.users.map_values(g));
    }
}

/// Enabling or disabling changes this one mark in the row of the named user and nothing
/// else anywhere. It succeeds if and only if the user is there.
pub proof fn disabling_changes_one_mark(db: DatabaseView, username: Text, disabled: bool)
    ensures
        ({
            let (next, r) = db::with_disabled(db, username, disabled);
            &&& r == if is_taken(db, username) {
                Ok::<(), Text>(())
            } else {
                Err::<(), Text>("user not found: "@ + username)
            }
            &&& next.users.len() == db.users.len()
            &&& forall|i: int|
                0 <= i < db.users.len() ==> {
                    let (before, after) = (db.users[i], #[trigger] next.users[i]);
                    &&& after.user.disabled == if text::same_name(before.user.username, username) {
                        disabled
                    } else {
                        before.user.disabled
                    }
                    &&& after.user.id == before.user.id
                    &&& after.user.username == before.user.username
                    &&& after.user.display_name == before.user.display_name
                    &&& after.user.password_hash == before.user.password_hash
                    &&& after.user.is_admin == before.user.is_admin
                    &&& after.created_at == before.created_at
                }
            &&& next.repositories == db.repositories
            &&& next.grants == db.grants
        }),
{
    lemma_taken(db, username, Seq::empty());
    let (next, r) = db::with_disabled(db, username, disabled);
    if r is Err {
        assert forall|i: int| 0 <= i < db.users.len() implies !text::same_name(
            #[trigger] next.users[i].user.username,
            username,
        ) by {
            assert(!text::same_name(db.users[i].user.username, username));
        }
    }
}

/// Whether the parameter at a place is the last that is called `p`.
pub open spec fn is_last_lanes(params: Seq<(Text, Text)>, i: int) -> bool {
    &&& 0 <= i < params.len()
    &&& params[i].0 == "p"@
    &&& forall|j: int| i < j < params.len() ==> (#[trigger] params[j]).0 != "p"@
}

/// The last value of a parameter is that at its last place.
proof fn lemma_last_lanes(params: Seq<(Text, Text)>)
    ensures
        match password::last_value(params, "p"@) {
            Some(v) => exists|i: int| #[trigger] is_last_lanes(params, i) && params[i].1 == v,
            None => forall|i: int| !#[trigger] is_last_lanes(params, i),
        },
    decreases params.len(),
{
    if params.len() > 0 {
        let n = params.len() - 1;
        let init = params.drop_last();
        lemma_last_lanes(init);
        if params[n].0 == "p"@ {
            assert(is_last_lanes(params, n));
        } else if let Some(v) = password::last_value(init, "p"@) {
            let i = choose|i: int| #[trigger] is_last_lanes(init, i) && init[i].1 == v;
            assert forall|j: int| i < j < params.len() implies (#[trigger] params[j]).0 != "p"@ by {
                if j < n {
                    assert(init[j] == params[j]);
                }
            }
            assert(is_last_lanes(params, i));
        } else {
            assert forall|i: int| !#[trigger] is_last_lanes(params, i) by {
                if is_last_lanes(params, i) {
                    assert forall|j: int| i < j < init.len() implies (#[trigger] init[j]).0
                        != "p"@ by {
                        assert(init[j] == params[j]);
                    }
                    assert(is_last_lanes(init, i));
                }
            }
        }
    }
}

/// A password is the one of a stored hash if Argon2 says so, which is asked where the hash
/// can be read, unless its number of lanes is longer than eight digits.
pub proof fn passwords_are_checked_by_argon2(given: Text, stored: Text, i: int)
    ensures
        match password::phc_params(stored) {
            Err(e) => password::accepted(given, stored) == (Err::<bool, Text>(e)),
            Ok(params) => {
                &&& is_last_lanes(params, i) && params[i].1.len() <= 8 ==> password::accepted(
                    given,
                    stored,
                ) == (Ok::<bool, Text>(password::argon2_verdict(given, stored)))
                &&& is_last_lanes(params, i) && params[i].1.len() > 8 ==> password::accepted(
                    given,
                    stored,
                ) == (Ok::<bool, Text>(false))
                &&& (forall|j: int| !#[trigger] is_last_lanes(params, j)) ==> password::accepted(
                    given,
                    stored,
                ) == (Ok::<bool, Text>(password::argon2_verdict(given, stored)))
            },
        },
{
    if let Ok(params) = password::phc_params(stored) {
        lemma_last_lanes(params);
        if is_last_lanes(params, i) {
            if let Some(v) = password::last_value(params, "p"@) {
                let k = choose|k: int| #[trigger] is_last_lanes(params, k) && params[k].1 == v;
                if k < i {
                    assert(params[i].0 != "p"@);
                }
                if i < k {
                    assert(params[k].0 != "p"@);
                }
            }
        }
    }
}

/// Who logs in with a name and a password is the user of the row with that name, and
/// that user does if and only if enabled, and if Argon2 accepts the password for the
/// stored hash.
pub proof fn logins_are_by_the_stored_hash(db: DatabaseView, name: Text, given: Text, k: int)
    requires
        db.well_formed(),
        0 <= k < db.users.len(),
        text::same_name(db.users[k].user.username, name),
    ensures
        ({
            let user = db.users[k].user;
            let r = db::authenticated(db, name, given);
            &&& user.disabled ==> r == (Ok::<Option<UserView>, Text>(None))
            &&& !user.disabled ==> match password::phc_params(user.password_hash) {
                Err(e) => r == (Err::<Option<UserView>, Text>(
                    "stored password hash is invalid: "@ + e,
                )),
                Ok(params) => r == if password::few_lanes(params) && password::argon2_verdict(
                    given,
                    user.password_hash,
                ) {
                    Ok::<Option<UserView>, Text>(Some(user))
                } else {
                    Ok::<Option<UserView>, Text>(None)
                },
            }
        }),
{
    users_are_found_by_their_rows(db, name, Seq::empty(), k);
}

/// Nobody logs in under a name that no user has.
pub proof fn unknown_names_do_not_log_in(db: DatabaseView, name: Text, given: Text)
    requires
        !is_taken(db, name),
    ensures
        db::authenticated(db, name, given) == (Ok::<Option<UserView>, Text>(None)),
{
    lemma_taken(db, name, Seq::empty());
}

// ---------------------------------------------------------------------------
// What users may do
// ---------------------------------------------------------------------------

/// Whether the grant at a place says what a user may do with a resource: it is the
/// user's, and on the resource or on all.
pub open spec fn counts(db: DatabaseView, i: int, user_id: Text, resource_id: Text) -> bool {
    &&& 0 <= i < db.grants.len()
    &&& db.grants[i].user_id == user_id
    &&& db.grants[i].resource_id == resource_id || db.grants[i].resource_id == "urc-*"@
}

/// The list of permissions in a grant.
pub open spec fn list_in(db: DatabaseView, i: int) -> Result<Seq<Text>, Text> {
    json::permissions_in(db.grants[i].permissions)
}

/// Whether a grant that counts names a permission.
pub open spec fn is_granted(db: DatabaseView, user_id: Text, resource_id: Text, p: Text) -> bool {
    exists|i: int| #[trigger]
        counts(db, i, user_id, resource_id) && (list_in(db, i) matches Ok(list) && list.contains(p))
}

proof fn lemma_merged_rows(grants: Seq<GrantRowView>, q: spec_fn(GrantRowView) -> bool)
    ensures
        match db::merged(grants.filter(q)) {
            Ok(set) => {
                &&& set.finite()
                &&& forall|i: int|
                    0 <= i < grants.len() && q(#[trigger] grants[i]) ==> json::permissions_in(
                        grants[i].permissions,
                    ) is Ok
                &&& forall|p: Text| #[trigger]
                    set.contains(p) <==> exists|i: int|
                        0 <= i < grants.len() && q(#[trigger] grants[i]) && json::permissions_in(
                            grants[i].permissions,
                        )->Ok_0.contains(p)
            },
            Err(e) => exists|i: int|
                0 <= i < grants.len() && q(#[trigger] grants[i]) && json::permissions_in(
                    grants[i].permissions,
                ) == (Err::<Seq<Text>, Text>(e)) && forall|j: int|
                    0 <= j < i && q(#[trigger] grants[j]) ==> json::permissions_in(
                        grants[j].permissions,
                    ) is Ok,
        },
    decreases grants.len(),
{
    reveal(Seq::filter);
    if grants.len() > 0 {
        let init = grants.drop_last();
        let last = grants.last();
        let n = grants.len() - 1;
        lemma_merged_rows(init, q);
        assert(forall|i: int| 0 <= i < n ==> #[trigger] init[i] == grants[i]);
        assert(grants[n] == last);
        let found = grants.filter(q);
        if q(last) {
            assert(found.drop_last() =~= init.filter(q));
            assert(found.last() == last);
        } else {
            assert(found == init.filter(q));
        }
        match db::merged(init.filter(q)) {
            Err(e) => {
                let i = choose|i: int|
                    0 <= i < init.len() && q(#[trigger] init[i]) && json::permissions_in(
                        init[i].permissions,
                    ) == (Err::<Seq<Text>, Text>(e)) && forall|j: int|
                        0 <= j < i && q(#[trigger] init[j]) ==> json::permissions_in(
                            init[j].permissions,
                        ) is Ok;
                assert(q(grants[i]));
                assert forall|j: int| 0 <= j < i && q(#[trigger] grants[j]) implies
                    json::permissions_in(grants[j].permissions) is Ok by {
                    assert(q(init[j]));
                }
            },
            Ok(before) => {
                assert forall|i: int| 0 <= i < n && q(#[trigger] grants[i]) implies
                    json::permissions_in(grants[i].permissions) is Ok by {
                    assert(q(init[i]));
                }
                if q(last) && json::permissions_in(last.permissions) is Err {
                    assert(q(grants[n]));
                } else {
                    let set = db::merged(found)->Ok_0;
                    let list = json::permissions_in(last.permissions)->Ok_0;
                    if q(last) {
                        assert(set == before.union(list.to_set()));
                    }
                    assert forall|p: Text| #[trigger] set.contains(p) <==> exists|i: int|
                        0 <= i < grants.len() && q(#[trigger] grants[i]) && json::permissions_in(
                            grants[i].permissions,
                        )->Ok_0.contains(p) by {
                        if before.contains(p) {
                            let i = choose|i: int|
                                0 <= i < init.len() && q(#[trigger] init[i])
                                    && json::permissions_in(init[i].permissions)->Ok_0.contains(p);
                            assert(q(grants[i]));
                        }
                        if q(last) && list.contains(p) {
                            assert(q(grants[n]));
                        }
                        if exists|i: int|
                            0 <= i < grants.len() && q(#[trigger] grants[i])
                                && json::permissions_in(grants[i].permissions)->Ok_0.contains(p) {
                            let i = choose|i: int|
                                0 <= i < grants.len() && q(#[trigger] grants[i])
                                    && json::permissions_in(grants[i].permissions)->Ok_0.contains(
                                    p,
                                );
                            if i < n {
                                assert(q(init[i]));
                            } else {
                                assert(list.to_set().contains(p));
                            }
                        }
                    }
                }
            },
        }
    }
}

/// What a user may do with a resource is what the user's grants on it and on all resources
/// name together, each permission once and in ascending order. It can be told if and only
/// if each of these grants can be read; otherwise the first that cannot is told.
pub proof fn permissions_are_those_of_the_grants(
    db: DatabaseView,
    user_id: Text,
    resource_id: Text,
)
    ensures
        match db::permitted(db, user_id, resource_id) {
            Ok(list) => {
                &&& forall|i: int| #[trigger]
                    counts(db, i, user_id, resource_id) ==> list_in(db, i) is Ok
                &&& forall|p: Text| #[trigger]
                    list.contains(p) <==> is_granted(db, user_id, resource_id, p)
                &&& forall|i: int, j: int|
                    0 <= i < j < list.len() ==> text::text_less(
                        #[trigger] list[i],
                        #[trigger] list[j],
                    )
            },
            Err(e) => exists|i: int| #[trigger]
                counts(db, i, user_id, resource_id) && list_in(db, i) == (Err::<Seq<Text>, Text>(
                    e,
                )) && forall|j: int| #[trigger]
                    counts(db, j, user_id, resource_id) && j < i ==> list_in(db, j) is Ok,
        },
{
    let q = db::applies(user_id, resource_id);
    let grants = db.grants;
    lemma_merged_rows(grants, q);
    assert forall|i: int| 0 <= i < grants.len() implies q(#[trigger] grants[i]) == counts(
        db,
        i,
        user_id,
        resource_id,
    ) by {}
    match db::merged(grants.filter(q)) {
        Ok(set) => {
            text::lemma_finite_in_order(set);
            let list = text::in_order(set);
            assert forall|i: int| #[trigger] counts(db, i, user_id, resource_id) implies list_in(
                db,
                i,
            ) is Ok by {
                assert(q(grants[i]));
            }
            assert forall|p: Text| #[trigger] list.contains(p) <==> is_granted(
                db,
                user_id,
                resource_id,
                p,
            ) by {
                assert(list.to_set().contains(p) == list.contains(p));
                assert(set.contains(p) == list.contains(p));
                if set.contains(p) {
                    let i = choose|i: int|
                        0 <= i < grants.len() && q(#[trigger] grants[i]) && json::permissions_in(
                            grants[i].permissions,
                        )->Ok_0.contains(p);
                    assert(counts(db, i, user_id, resource_id));
                }
                if is_granted(db, user_id, resource_id, p) {
                    let i = choose|i: int| #[trigger]
                        counts(db, i, user_id, resource_id) && (list_in(db, i) matches Ok(l)
                            && l.contains(p));
                    assert(q(grants[i]));
                }
            }
        },
        Err(e) => {
            let i = choose|i: int|
                0 <= i < grants.len() && q(#[trigger] grants[i]) && json::permissions_in(
                    grants[i].permissions,
                ) == (Err::<Seq<Text>, Text>(e)) && forall|j: int|
                    0 <= j < i && q(#[trigger] grants[j]) ==> json::permissions_in(
                        grants[j].permissions,
                    ) is Ok;
            assert(counts(db, i, user_id, resource_id));
            assert forall|j: int| #[trigger] counts(db, j, user_id, resource_id) && j
                < i implies list_in(db, j) is Ok by {
                assert(q(grants[j]));
            }
        },
    }
}

// ---------------------------------------------------------------------------
// Lists
// ---------------------------------------------------------------------------

/// Rows of which one always comes before the other are sorted without ties.
proof fn lemma_sorted_strictly<R: Ranked>(rows: Seq<R::V>)
    requires
        forall|i: int, j: int|
            0 <= i < j < rows.len() ==> R::before(#[trigger] rows[i], #[trigger] rows[j])
                || R::before(rows[j], rows[i]),
    ensures
        sorting::sorted::<R>(rows).len() == rows.len(),
        forall|x: R::V| #[trigger] sorting::sorted::<R>(rows).contains(x) <==> rows.contains(x),
        forall|i: int, j: int|
            0 <= i < j < rows.len() ==> R::before(
                #[trigger] sorting::sorted::<R>(rows)[i],
                #[trigger] sorting::sorted::<R>(rows)[j],
            ),
{
    let all = sorting::sorted::<R>(rows);
    sorting::sorting_permutes_and_orders::<R>(rows);
    assert forall|x: R::V| #[trigger] all.contains(x) <==> rows.contains(x) by {
        vstd::seq_lib::to_multiset_contains(all, x);
        vstd::seq_lib::to_multiset_contains(rows, x);
    }
    assert(rows.no_duplicates()) by {
        assert forall|i: int, j: int| 0 <= i < rows.len() && 0 <= j < rows.len() && i
            != j implies rows[i] != rows[j] by {
            let (a, b) = if i < j {
                (rows[i], rows[j])
            } else {
                (rows[j], rows[i])
            };
            if R::before(a, b) {
                R::before_asymmetric(a, b);
            } else {
                R::before_asymmetric(b, a);
            }
        }
    }
    rows.lemma_multiset_has_no_duplicates();
    all.lemma_multiset_has_no_duplicates_conv();
    assert forall|i: int, j: int| 0 <= i < j < rows.len() implies R::before(
        #[trigger] all[i],
        #[trigger] all[j],
    ) by {
        assert(all.contains(all[i]) && all.contains(all[j]));
        let a = choose|a: int| 0 <= a < rows.len() && rows[a] == all[i];
        let b = choose|b: int| 0 <= b < rows.len() && rows[b] == all[j];
        assert(all[i] != all[j]);
        assert(!R::before(all[j], all[i]));
        if a < b {
            assert(R::before(rows[a], rows[b]) || R::before(rows[b], rows[a]));
        } else {
            assert(R::before(rows[b], rows[a]) || R::before(rows[a], rows[b]));
        }
    }
}

/// The list of users holds the user of every row, once, and nobody else, in the order of
/// their names without regard to case.
pub proof fn the_list_of_users_is_that_of_the_rows(db: DatabaseView)
    requires
        db.well_formed(),
    ensures
        ({
            let list = db::listed_users(db);
            &&& list.len() == db.users.len()
            &&& forall|u: UserView| #[trigger]
                list.contains(u) <==> exists|i: int|
                    0 <= i < db.users.len() && #[trigger] db.users[i].user == u
            &&& forall|i: int, j: int|
                0 <= i < j < list.len() ==> text::text_less(
                    text::folded((#[trigger] list[i]).username),
                    text::folded((#[trigger] list[j]).username),
                )
        }),
{
    let rows = db.users.map_values(|r: UserRowView| r.user);
    assert forall|i: int, j: int| 0 <= i < j < rows.len() implies User::before(
        #[trigger] rows[i],
        #[trigger] rows[j],
    ) || User::before(rows[j], rows[i]) by {
        assert(users_apart()(db.users[i], db.users[j]));
        text::lemma_text_less_total(
            text::folded(rows[i].username),
            text::folded(rows[j].username),
        );
    }
    lemma_sorted_strictly::<User>(rows);
    let list = db::listed_users(db);
    assert forall|u: UserView| #[trigger] list.contains(u) <==> exists|i: int|
        0 <= i < db.users.len() && #[trigger] db.users[i].user == u by {
        if list.contains(u) {
            assert(rows.contains(u));
            let i = choose|i: int| 0 <= i < rows.len() && rows[i] == u;
            assert(db.users[i].user == u);
        }
        if exists|i: int| 0 <= i < db.users.len() && #[trigger] db.users[i].user == u {
            let i = choose|i: int| 0 <= i < db.users.len() && #[trigger] db.users[i].user == u;
            assert(rows[i] == u);
        }
    }
    assert forall|i: int, j: int| 0 <= i < j < list.len() implies text::text_less(
        text::folded((#[trigger] list[i]).username),
        text::folded((#[trigger] list[j]).username),
    ) by {
        assert(User::before(list[i], list[j]));
    }
}

/// The list of repositories holds every repository whose identifier passes the filter,
/// once, and nothing else, in ascending order.
pub proof fn the_list_of_repositories_is_that_of_the_rows(db: DatabaseView, filter: Text)
    requires
        db.well_formed(),
    ensures
        match db::listed_repositories(db, filter) {
            Ok(list) => {
                &&& encode_utf8(filter).len() < 50_000 || db.repositories.len() == 0
                &&& forall|id: Text| #[trigger]
                    list.contains(id) <==> text::passes_filter(filter, id) && exists|i: int|
                        0 <= i < db.repositories.len() && #[trigger] db.repositories[i].resource_id
                            == id
                &&& forall|i: int, j: int|
                    0 <= i < j < list.len() ==> text::text_less(
                        #[trigger] list[i],
                        #[trigger] list[j],
                    )
            },
            Err(e) => encode_utf8(filter).len() >= 50_000 && db.repositories.len() > 0 && e
                == "LIKE or GLOB pattern too complex"@,
        },
{
    let q = |r: RepositoryRowView| text::passes_filter(filter, r.resource_id);
    let f = |r: RepositoryRowView| r.resource_id;
    let found = db.repositories.filter(q);
    let ids = found.map_values(f);
    rows::lemma_pairwise_filter(db.repositories, q, repositories_apart());
    assert forall|i: int, j: int| 0 <= i < j < ids.len() implies String::before(
        #[trigger] ids[i],
        #[trigger] ids[j],
    ) || String::before(ids[j], ids[i]) by {
        assert(repositories_apart()(found[i], found[j]));
        text::lemma_text_less_total(ids[i], ids[j]);
    }
    lemma_sorted_strictly::<String>(ids);
    let list = db::matching_repositories(db, filter);
    assert forall|id: Text| #[trigger] list.contains(id) <==> text::passes_filter(filter, id)
        && exists|i: int|
        0 <= i < db.repositories.len() && #[trigger] db.repositories[i].resource_id == id by {
        if list.contains(id) {
            assert(ids.contains(id));
            let k = choose|k: int| 0 <= k < ids.len() && ids[k] == id;
            db.repositories.lemma_filter_pred(q, k);
            db.repositories.lemma_filter_contains_rev(q, found[k]);
            let m = choose|m: int| 0 <= m < db.repositories.len() && db.repositories[m] == found[k];
            assert(db.repositories[m].resource_id == id);
        }
        if text::passes_filter(filter, id) && exists|i: int|
            0 <= i < db.repositories.len() && #[trigger] db.repositories[i].resource_id == id {
            let i = choose|i: int|
                0 <= i < db.repositories.len() && #[trigger] db.repositories[i].resource_id == id;
            db.repositories.lemma_filter_contains(q, i);
            let k = choose|k: int| 0 <= k < found.len() && found[k] == db.repositories[i];
            assert(ids[k] == id);
        }
    }
    assert forall|i: int, j: int| 0 <= i < j < list.len() implies text::text_less(
        #[trigger] list[i],
        #[trigger] list[j],
    ) by {
        assert(String::before(list[i], list[j]));
    }
}

/// Whether the grant at a place belongs into the list of a user's grants.
pub open spec fn is_listed(db: DatabaseView, i: int, user_id: Text, filter: Text) -> bool {
    &&& 0 <= i < db.grants.len()
    &&& db.grants[i].user_id == user_id
    &&& db.grants[i].resource_id != "urc-*"@
    &&& text::passes_filter(filter, db.grants[i].resource_id)
}

/// Reading rows goes row by row, and succeeds if and only if each can be read.
pub(crate) proof fn lemma_rows_read(grants: Seq<GrantRowView>)
    ensures
        match db::read_grants(grants) {
            Ok(list) => {
                &&& list.len() == grants.len()
                &&& forall|i: int|
                    0 <= i < grants.len() ==> (#[trigger] list[i]).resource_id
                        == grants[i].resource_id && json::permissions_in(grants[i].permissions) == (
                    Ok::<Seq<Text>, Text>(list[i].permissions))
            },
            Err(_) => exists|i: int|
                0 <= i < grants.len() && json::permissions_in(
                    (#[trigger] grants[i]).permissions,
                ) is Err,
        },
    decreases grants.len(),
{
    if grants.len() > 0 {
        let init = grants.drop_last();
        lemma_rows_read(init);
        assert(grants.last() == grants[grants.len() - 1]);
        if db::read_grants(init) is Err {
            let i = choose|i: int|
                0 <= i < init.len() && json::permissions_in((#[trigger] init[i]).permissions) is Err;
            assert(grants[i] == init[i]);
        } else if db::read_grants(grants) is Ok {
            let (list, before) = (db::read_grants(grants)->Ok_0, db::read_grants(init)->Ok_0);
            assert forall|i: int| 0 <= i < grants.len() implies (#[trigger] list[i]).resource_id
                == grants[i].resource_id && json::permissions_in(grants[i].permissions) == (Ok::<
                Seq<Text>,
                Text,
            >(list[i].permissions)) by {
                if i < init.len() {
                    assert(list[i] == before[i]);
                    assert(init[i] == grants[i]);
                }
            }
        }
    }
}

/// The list of a user's grants holds each of the user's grants on a single resource that
/// passes the filter, once, with the permissions that are stored in it, and nothing else,
/// in ascending order of the resources. There is a list if and only if each of these can
/// be read, and no row is tried against a filter that is too long.
pub proof fn the_list_of_grants_is_that_of_the_rows(db: DatabaseView, user_id: Text, filter: Text)
    requires
        db.well_formed(),
    ensures
        match db::listed_grants(db, user_id, filter) {
            Ok(list) => {
                &&& encode_utf8(filter).len() >= 50_000 ==> forall|i: int|
                    0 <= i < db.grants.len() ==> #[trigger] db.grants[i].user_id != user_id
                &&& forall|i: int| #[trigger]
                    is_listed(db, i, user_id, filter) ==> list_in(db, i) is Ok
                &&& forall|g: GrantView| #[trigger]
                    list.contains(g) <==> exists|i: int| #[trigger]
                        is_listed(db, i, user_id, filter) && db.grants[i].resource_id
                            == g.resource_id && list_in(db, i) == (Ok::<Seq<Text>, Text>(
                            g.permissions,
                        ))
                &&& forall|i: int, j: int|
                    0 <= i < j < list.len() ==> text::text_less(
                        (#[trigger] list[i]).resource_id,
                        (#[trigger] list[j]).resource_id,
                    )
            },
            Err(_) => {
                ||| encode_utf8(filter).len() >= 50_000 && exists|i: int|
                    0 <= i < db.grants.len() && #[trigger] db.grants[i].user_id == user_id
                ||| exists|i: int| #[trigger]
                    is_listed(db, i, user_id, filter) && list_in(db, i) is Err
            },
        },
{
    let q = db::listable(user_id, filter);
    let found = db.grants.filter(q);
    let sorted = sorting::sorted::<GrantRow>(found);
    rows::lemma_pairwise_filter(db.grants, q, grants_apart());
    assert forall|i: int, j: int| 0 <= i < j < found.len() implies GrantRow::before(
        #[trigger] found[i],
        #[trigger] found[j],
    ) || GrantRow::before(found[j], found[i]) by {
        assert(grants_apart()(found[i], found[j]));
        db.grants.lemma_filter_pred(q, i);
        db.grants.lemma_filter_pred(q, j);
        text::lemma_text_less_total(found[i].resource_id, found[j].resource_id);
    }
    lemma_sorted_strictly::<GrantRow>(found);
    lemma_rows_read(sorted);
    assert forall|i: int| 0 <= i < db.grants.len() implies q(#[trigger] db.grants[i]) == is_listed(
        db,
        i,
        user_id,
        filter,
    ) by {}
    assert forall|row: GrantRowView| #[trigger] sorted.contains(row) implies exists|i: int|
        #[trigger] is_listed(db, i, user_id, filter) && db.grants[i] == row by {
        assert(found.contains(row));
        let k = choose|k: int| 0 <= k < found.len() && found[k] == row;
        db.grants.lemma_filter_pred(q, k);
        db.grants.lemma_filter_contains_rev(q, found[k]);
        let i = choose|i: int| 0 <= i < db.grants.len() && db.grants[i] == row;
        assert(is_listed(db, i, user_id, filter));
    }
    assert forall|i: int| #[trigger] is_listed(db, i, user_id, filter) implies sorted.contains(
        db.grants[i],
    ) by {
        assert(q(db.grants[i]));
        db.grants.lemma_filter_contains(q, i);
    }
    rows::lemma_first_where(db.grants, db::by_grantee(user_id));
    match db::listed_grants(db, user_id, filter) {
        Ok(list) => {
            assert forall|i: int| 0 <= i < db.grants.len() && encode_utf8(filter).len()
                >= 50_000 implies #[trigger] db.grants[i].user_id != user_id by {
                assert(!db::by_grantee(user_id)(db.grants[i]));
            }
            assert forall|i: int| #[trigger] is_listed(db, i, user_id, filter) implies list_in(
                db,
                i,
            ) is Ok by {
                let k = choose|k: int| 0 <= k < sorted.len() && sorted[k] == db.grants[i];
                assert(list[k].resource_id == sorted[k].resource_id);
            }
            assert forall|g: GrantView| #[trigger] list.contains(g) <==> exists|i: int| #[trigger]
                is_listed(db, i, user_id, filter) && db.grants[i].resource_id == g.resource_id
                    && list_in(db, i) == (Ok::<Seq<Text>, Text>(g.permissions)) by {
                if list.contains(g) {
                    let k = choose|k: int| 0 <= k < list.len() && list[k] == g;
                    assert(sorted.contains(sorted[k]));
                    let i = choose|i: int| #[trigger]
                        is_listed(db, i, user_id, filter) && db.grants[i] == sorted[k];
                    assert(is_listed(db, i, user_id, filter));
                }
                if exists|i: int| #[trigger]
                    is_listed(db, i, user_id, filter) && db.grants[i].resource_id == g.resource_id
                        && list_in(db, i) == (Ok::<Seq<Text>, Text>(g.permissions)) {
                    let i = choose|i: int| #[trigger]
                        is_listed(db, i, user_id, filter) && db.grants[i].resource_id
                            == g.resource_id && list_in(db, i) == (Ok::<Seq<Text>, Text>(
                            g.permissions,
                        ));
                    let k = choose|k: int| 0 <= k < sorted.len() && sorted[k] == db.grants[i];
                    assert(list[k].resource_id == sorted[k].resource_id);
                    assert(list[k] == g);
                }
            }
            assert forall|i: int, j: int| 0 <= i < j < list.len() implies text::text_less(
                (#[trigger] list[i]).resource_id,
                (#[trigger] list[j]).resource_id,
            ) by {
                assert(GrantRow::before(sorted[i], sorted[j]));
            }
        },
        Err(_) => {
            if encode_utf8(filter).len() >= 50_000 && first_where(
                db.grants,
                db::by_grantee(user_id),
            ) is Some {
                let row = first_where(db.grants, db::by_grantee(user_id))->0;
                let i = choose|i: int| 0 <= i < db.grants.len() && db.grants[i] == row;
                assert(db.grants[i].user_id == user_id);
            } else {
                let k = choose|k: int|
                    0 <= k < sorted.len() && json::permissions_in(
                        (#[trigger] sorted[k]).permissions,
                    ) is Err;
                assert(sorted.contains(sorted[k]));
                let i = choose|i: int| #[trigger]
                    is_listed(db, i, user_id, filter) && db.grants[i] == sorted[k];
                assert(list_in(db, i) is Err);
            }
        },
    }
}

/// Whether a line of the list of all grants says what a row of the grants and the row of
/// its user say.
pub open spec fn is_line_of(db: DatabaseView, line: UserGrantView, i: int, k: int) -> bool {
    &&& 0 <= i < db.grants.len()
    &&& 0 <= k < db.users.len()
    &&& db.users[k].user.id == db.grants[i].user_id
    &&& line.username == db.users[k].user.username
    &&& line.resource_id == db.grants[i].resource_id
    &&& list_in(db, i) == (Ok::<Seq<Text>, Text>(line.permissions))
}

proof fn lemma_named_rows_read(grants: Seq<NamedGrantRowView>)
    ensures
        match db::read_named_grants(grants) {
            Ok(list) => {
                &&& list.len() == grants.len()
                &&& forall|i: int|
                    0 <= i < grants.len() ==> (#[trigger] list[i]).resource_id
                        == grants[i].resource_id && list[i].username == grants[i].username
                        && json::permissions_in(grants[i].permissions) == (Ok::<Seq<Text>, Text>(
                        list[i].permissions,
                    ))
            },
            Err(_) => exists|i: int|
                0 <= i < grants.len() && json::permissions_in(
                    (#[trigger] grants[i]).permissions,
                ) is Err,
        },
    decreases grants.len(),
{
    if grants.len() > 0 {
        let init = grants.drop_last();
        lemma_named_rows_read(init);
        assert(grants.last() == grants[grants.len() - 1]);
        if db::read_named_grants(init) is Err {
            let i = choose|i: int|
                0 <= i < init.len() && json::permissions_in((#[trigger] init[i]).permissions) is Err;
            assert(grants[i] == init[i]);
        } else if db::read_named_grants(grants) is Ok {
            let list = db::read_named_grants(grants)->Ok_0;
            let before = db::read_named_grants(init)->Ok_0;
            assert forall|i: int| 0 <= i < grants.len() implies (#[trigger] list[i]).resource_id
                == grants[i].resource_id && list[i].username == grants[i].username
                && json::permissions_in(grants[i].permissions) == (Ok::<Seq<Text>, Text>(
                list[i].permissions,
            )) by {
                if i < init.len() {
                    assert(list[i] == before[i]);
                    assert(init[i] == grants[i]);
                }
            }
        }
    }
}

/// The list of all grants has a line for each grant of a user in the tables, with the
/// user's name and the permissions that are stored in the grant, and no other line. It is
/// in the order of the names without regard to case, and for each name of the resources.
pub proof fn the_list_of_all_grants_is_that_of_the_rows(db: DatabaseView)
    requires
        db.well_formed(),
    ensures
        match db::listed_user_grants(db) {
            Ok(list) => {
                &&& forall|line: UserGrantView| #[trigger]
                    list.contains(line) <==> exists|i: int, k: int| #[trigger]
                        is_line_of(db, line, i, k)
                &&& forall|i: int|
                    0 <= i < db.grants.len() && is_known(db, (#[trigger] db.grants[i]).user_id)
                        ==> list_in(db, i) is Ok
                &&& forall|i: int, j: int|
                    0 <= i < j < list.len() ==> {
                        let (a, b) = (#[trigger] list[i], #[trigger] list[j]);
                        ||| text::text_less(text::folded(a.username), text::folded(b.username))
                        ||| a.username == b.username && text::text_less(
                            a.resource_id,
                            b.resource_id,
                        )
                    }
            },
            Err(_) => exists|i: int|
                0 <= i < db.grants.len() && is_known(db, (#[trigger] db.grants[i]).user_id)
                    && list_in(db, i) is Err,
        },
{
    let q = |g: GrantRowView| first_user(db.users, by_id(g.user_id)) is Some;
    let f = |g: GrantRowView|
        NamedGrantRowView {
            username: first_user(db.users, by_id(g.user_id))->0.username,
            resource_id: g.resource_id,
            permissions: g.permissions,
        };
    let found = db.grants.filter(q);
    let named = found.map_values(f);
    let sorted = sorting::sorted::<NamedGrantRow>(named);
    assert(named == db::named_grants(db));
    rows::lemma_pairwise_filter(db.grants, q, grants_apart());
    assert forall|i: int| 0 <= i < found.len() implies exists|k: int|
        0 <= k < db.users.len() && (#[trigger] db.users[k]).user.id == (
        #[trigger] found[i]).user_id && named[i].username == db.users[k].user.username by {
        db.grants.lemma_filter_pred(q, i);
        let k = lemma_user_place(db.users, by_id(found[i].user_id));
        assert(db.users[k].user.id == found[i].user_id);
    }
    assert forall|i: int, j: int| 0 <= i < j < named.len() implies NamedGrantRow::before(
        #[trigger] named[i],
        #[trigger] named[j],
    ) || NamedGrantRow::before(named[j], named[i]) by {
        assert(grants_apart()(found[i], found[j]));
        let a = choose|k: int|
            0 <= k < db.users.len() && (#[trigger] db.users[k]).user.id == found[i].user_id
                && named[i].username == db.users[k].user.username;
        let b = choose|k: int|
            0 <= k < db.users.len() && (#[trigger] db.users[k]).user.id == found[j].user_id
                && named[j].username == db.users[k].user.username;
        if a < b {
            assert(users_apart()(db.users[a], db.users[b]));
        }
        if b < a {
            assert(users_apart()(db.users[b], db.users[a]));
        }
        text::lemma_text_less_total(
            text::folded(named[i].username),
            text::folded(named[j].username),
        );
        text::lemma_text_less_total(named[i].resource_id, named[j].resource_id);
    }
    lemma_sorted_strictly::<NamedGrantRow>(named);
    lemma_named_rows_read(sorted);
    // From the rows to the sorted rows and back.
    assert forall|row: NamedGrantRowView| #[trigger] sorted.contains(row) implies exists|
        i: int,
        k: int,
    | #![trigger db.grants[i], db.users[k]]
        0 <= i < db.grants.len() && 0 <= k < db.users.len() && db.users[k].user.id
            == db.grants[i].user_id && row.username == db.users[k].user.username && row.resource_id
            == db.grants[i].resource_id && row.permissions == db.grants[i].permissions by {
        assert(named.contains(row));
        let m = choose|m: int| 0 <= m < named.len() && named[m] == row;
        assert(found[m].user_id == found[m].user_id);
        let k = choose|k: int|
            0 <= k < db.users.len() && (#[trigger] db.users[k]).user.id == found[m].user_id
                && named[m].username == db.users[k].user.username;
        db.grants.lemma_filter_contains_rev(q, found[m]);
        let i = choose|i: int| 0 <= i < db.grants.len() && db.grants[i] == found[m];
        assert(db.grants[i].user_id == db.users[k].user.id);
    }
    assert forall|i: int, k: int|
        0 <= i < db.grants.len() && 0 <= k < db.users.len() && db.users[k].user.id
            == db.grants[i].user_id implies #[trigger] sorted.contains(
        NamedGrantRowView {
            username: db.users[k].user.username,
            resource_id: db.grants[i].resource_id,
            permissions: db.grants[i].permissions,
        },
    ) by {
        users_are_found_by_their_rows(db, Seq::empty(), db.grants[i].user_id, k);
        assert(q(db.grants[i]));
        db.grants.lemma_filter_contains(q, i);
        let m = choose|m: int| 0 <= m < found.len() && found[m] == db.grants[i];
        let row = f(db.grants[i]);
        assert(named[m] == row);
        assert(named.contains(row));
        assert(sorted.contains(row));
    }
    match db::listed_user_grants(db) {
        Ok(list) => {
            assert forall|line: UserGrantView| #[trigger] list.contains(line) <==> exists|
                i: int,
                k: int,
            | #[trigger]
                is_line_of(db, line, i, k) by {
                if list.contains(line) {
                    let n = choose|n: int| 0 <= n < list.len() && list[n] == line;
                    let row = sorted[n];
                    assert(sorted.contains(row));
                    let (i, k) = choose|i: int, k: int| #![trigger db.grants[i], db.users[k]]
                        0 <= i < db.grants.len() && 0 <= k < db.users.len() && db.users[k].user.id
                            == db.grants[i].user_id && row.username == db.users[k].user.username
                            && row.resource_id == db.grants[i].resource_id && row.permissions
                            == db.grants[i].permissions;
                    assert(is_line_of(db, line, i, k));
                }
                if exists|i: int, k: int| #[trigger] is_line_of(db, line, i, k) {
                    let (i, k) = choose|i: int, k: int| #[trigger] is_line_of(db, line, i, k);
                    let row = NamedGrantRowView {
                        username: db.users[k].user.username,
                        resource_id: db.grants[i].resource_id,
                        permissions: db.grants[i].permissions,
                    };
                    assert(sorted.contains(row));
                    let n = choose|n: int| 0 <= n < sorted.len() && sorted[n] == row;
                    assert(list[n].resource_id == row.resource_id);
                    assert(list[n] == line);
                }
            }
            assert forall|i: int| 0 <= i < db.grants.len() && is_known(
                db,
                (#[trigger] db.grants[i]).user_id,
            ) implies list_in(db, i) is Ok by {
                let k = choose|k: int|
                    0 <= k < db.users.len() && #[trigger] db.users[k].user.id
                        == db.grants[i].user_id;
                let row = NamedGrantRowView {
                    username: db.users[k].user.username,
                    resource_id: db.grants[i].resource_id,
                    permissions: db.grants[i].permissions,
                };
                assert(sorted.contains(row));
                let n = choose|n: int| 0 <= n < sorted.len() && sorted[n] == row;
                assert(list[n].resource_id == row.resource_id);
            }
            assert forall|i: int, j: int| 0 <= i < j < list.len() implies {
                let (a, b) = (#[trigger] list[i], #[trigger] list[j]);
                ||| text::text_less(text::folded(a.username), text::folded(b.username))
                ||| a.username == b.username && text::text_less(a.resource_id, b.resource_id)
            } by {
                assert(NamedGrantRow::before(sorted[i], sorted[j]));
                assert(sorted.contains(sorted[i]) && sorted.contains(sorted[j]));
                if text::folded(list[i].username) == text::folded(list[j].username) {
                    let (a, b) = (sorted[i], sorted[j]);
                    let (_, k) = choose|g: int, k: int| #![trigger db.grants[g], db.users[k]]
                        0 <= g < db.grants.len() && 0 <= k < db.users.len() && db.users[k].user.id
                            == db.grants[g].user_id && a.username == db.users[k].user.username
                            && a.resource_id == db.grants[g].resource_id && a.permissions
                            == db.grants[g].permissions;
                    let (_, m) = choose|g: int, k: int| #![trigger db.grants[g], db.users[k]]
                        0 <= g < db.grants.len() && 0 <= k < db.users.len() && db.users[k].user.id
                            == db.grants[g].user_id && b.username == db.users[k].user.username
                            && b.resource_id == db.grants[g].resource_id && b.permissions
                            == db.grants[g].permissions;
                    if k < m {
                        assert(users_apart()(db.users[k], db.users[m]));
                    }
                    if m < k {
                        assert(users_apart()(db.users[m], db.users[k]));
                    }
                    text::lemma_text_less_irreflexive(text::folded(a.username));
                }
            }
        },
        Err(_) => {
            let n = choose|n: int|
                0 <= n < sorted.len() && json::permissions_in(
                    (#[trigger] sorted[n]).permissions,
                ) is Err;
            let row = sorted[n];
            assert(sorted.contains(row));
            let (i, k) = choose|i: int, k: int| #![trigger db.grants[i], db.users[k]]
                0 <= i < db.grants.len() && 0 <= k < db.users.len() && db.users[k].user.id
                    == db.grants[i].user_id && row.username == db.users[k].user.username
                    && row.resource_id == db.grants[i].resource_id && row.permissions
                    == db.grants[i].permissions;
            assert(db.users[k].user.id == db.grants[i].user_id);
            assert(is_known(db, db.grants[i].user_id));
        },
    }
}

} // verus!
