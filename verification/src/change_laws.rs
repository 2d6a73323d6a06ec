//! What changes of grants, repositories and users leave in the tables.

use vstd::prelude::*;

use crate::db;
use crate::db::{
    by_key, by_name, users_apart, DatabaseView, GrantRowView, RepositoryRowView, UserRowView,
};
use crate::db_laws;
use crate::json;
use crate::password;
use crate::rows;
use crate::rows::first_where;
use crate::table_laws;
use crate::table_laws::{is_known, is_proper_name, is_taken};
use crate::text;
use crate::text::Text;

verus! {

// ---------------------------------------------------------------------------
// Resources and permissions
// ---------------------------------------------------------------------------

/// Whether a text names a repository: `urc-` and 32 hexadecimal digits.
pub open spec fn is_repository_id(s: Text) -> bool {
    &&& s.len() == 36
    &&& s[0] == 'u' && s[1] == 'r' && s[2] == 'c' && s[3] == '-'
    &&& forall|i: int|
        4 <= i < 36 ==> {
            let c = #[trigger] s[i];
            '0' <= c <= '9' || 'a' <= c <= 'f' || 'A' <= c <= 'F'
        }
}

/// A text is accepted as a resource if and only if it names a repository or is `urc-*`.
pub proof fn resources_are_repositories_or_all(s: Text)
    ensures
        db::is_resource(s) <==> is_repository_id(s) || s == "urc-*"@,
{
    reveal_strlit("urc-");
    let prefix = "urc-"@;
    assert(prefix.len() == 4);
    if is_repository_id(s) {
        assert(s.subrange(0, 4) =~= prefix);
        assert(prefix.is_prefix_of(s));
        let id = s.skip(4);
        assert forall|i: int| 0 <= i < id.len() implies db::is_hex_digit(#[trigger] id[i]) by {
            assert(id[i] == s[i + 4]);
        }
    }
    if db::is_resource(s) && s != "urc-*"@ {
        let id = text::after_prefix(s, prefix)->0;
        assert(prefix.is_prefix_of(s));
        assert(s.len() == 36);
        assert(s[0] == prefix[0] && s[1] == prefix[1] && s[2] == prefix[2] && s[3] == prefix[3]);
        assert forall|i: int| 4 <= i < 36 implies {
            let c = #[trigger] s[i];
            '0' <= c <= '9' || 'a' <= c <= 'f' || 'A' <= c <= 'F'
        } by {
            assert(s[i] == id[i - 4]);
            assert(db::is_hex_digit(id[i - 4]));
        }
    }
}

/// Whether a permission stands between the commas of one of the lists, with or without
/// white space around it.
pub open spec fn is_asked_for(lists: Seq<Text>, p: Text) -> bool {
    p.len() > 0 && exists|i: int, j: int|
        #![trigger text::pieces(lists[i], ',')[j]]
        0 <= i < lists.len() && 0 <= j < text::pieces(lists[i], ',').len() && text::trimmed(
            text::pieces(lists[i], ',')[j],
        ) == p
}

proof fn lemma_named_finite(lists: Seq<Text>)
    ensures
        Set::new(|p: Text| db::is_named(lists, p)).finite(),
    decreases lists.len(),
{
    let all = Set::new(|p: Text| db::is_named(lists, p));
    if lists.len() == 0 {
        assert(all =~= Set::empty());
    } else {
        let init = lists.drop_last();
        lemma_named_finite(init);
        let before = Set::new(|p: Text| db::is_named(init, p));
        let parts = text::pieces(lists.last(), ',').map_values(|s: Text| text::trimmed(s));
        let whole = before.union(parts.to_set());
        vstd::seq_lib::seq_to_set_is_finite(parts);
        assert(all.subset_of(whole)) by {
            assert forall|p: Text| all.contains(p) implies whole.contains(p) by {
                let (i, j) = choose|i: int, j: int|
                    0 <= i < lists.len() && 0 <= j < text::pieces(lists[i], ',').len() && p
                        == text::trimmed(#[trigger] text::pieces(lists[i], ',')[j]);
                if i < init.len() {
                    assert(init[i] == lists[i]);
                    assert(p == text::trimmed(text::pieces(init[i], ',')[j]));
                    assert(db::is_named(init, p));
                } else {
                    assert(parts[j] == p);
                    assert(parts.contains(p));
                }
            }
        }
        vstd::set_lib::lemma_set_subset_finite(whole, all);
    }
}

/// Of lists of permissions that are separated by commas, each permission is kept once, in
/// ascending order, without the white space around it, and nothing else is kept.
pub proof fn permissions_are_kept_once_and_in_order(lists: Seq<Text>)
    ensures
        forall|p: Text| #[trigger] db::normalized(lists).contains(p) <==> is_asked_for(lists, p),
        forall|i: int, j: int|
            0 <= i < j < db::normalized(lists).len() ==> text::text_less(
                #[trigger] db::normalized(lists)[i],
                #[trigger] db::normalized(lists)[j],
            ),
{
    let set = Set::new(|p: Text| db::is_named(lists, p));
    lemma_named_finite(lists);
    text::lemma_finite_in_order(set);
    let list = db::normalized(lists);
    assert forall|p: Text| #[trigger] list.contains(p) <==> is_asked_for(lists, p) by {
        assert(list.to_set().contains(p) == list.contains(p));
        assert(set.contains(p) == db::is_named(lists, p));
        if db::is_named(lists, p) {
            let (i, j) = choose|i: int, j: int|
                0 <= i < lists.len() && 0 <= j < text::pieces(lists[i], ',').len() && p
                    == text::trimmed(#[trigger] text::pieces(lists[i], ',')[j]);
            assert(text::trimmed(text::pieces(lists[i], ',')[j]) == p);
        }
        if is_asked_for(lists, p) {
            let (i, j) = choose|i: int, j: int|
                #![trigger text::pieces(lists[i], ',')[j]]
                0 <= i < lists.len() && 0 <= j < text::pieces(lists[i], ',').len()
                    && text::trimmed(text::pieces(lists[i], ',')[j]) == p;
            assert(p == text::trimmed(text::pieces(lists[i], ',')[j]));
        }
    }
}

// ---------------------------------------------------------------------------
// Grants
// ---------------------------------------------------------------------------

/// Putting in one grant leaves every grant with another key as it was, and one grant
/// under this key.
proof fn lemma_granted_rows(
    grants: Seq<GrantRowView>,
    user_id: Text,
    resource_id: Text,
    permissions: Text,
)
    ensures
        forall|g: GrantRowView| #[trigger]
            db::granted(grants, user_id, resource_id, permissions).contains(g) <==> if g.user_id
                == user_id && g.resource_id == resource_id {
                g.permissions == permissions
            } else {
                grants.contains(g)
            },
{
    let next = db::granted(grants, user_id, resource_id, permissions);
    let key = by_key(user_id, resource_id);
    let put = GrantRowView { user_id, resource_id, permissions };
    rows::lemma_first_where(grants, key);
    assert(next.contains(put)) by {
        if first_where(grants, key) is Some {
            let row = first_where(grants, key)->0;
            let k = choose|k: int| 0 <= k < grants.len() && grants[k] == row;
            assert(next[k] == put);
        } else {
            assert(next[grants.len() as int] == put);
        }
    }
    assert forall|g: GrantRowView| #[trigger] next.contains(g) <==> if g.user_id == user_id
        && g.resource_id == resource_id {
        g.permissions == permissions
    } else {
        grants.contains(g)
    } by {
        if next.contains(g) {
            let k = choose|k: int| 0 <= k < next.len() && next[k] == g;
            if k < grants.len() {
                assert(key(grants[k]) == key(g));
                if !key(g) {
                    assert(grants[k] == g);
                }
            }
        }
        if grants.contains(g) && !key(g) {
            let k = choose|k: int| 0 <= k < grants.len() && grants[k] == g;
            assert(next[k] == g);
        }
    }
}

/// Granting gives the named user exactly the permissions that are asked for on the
/// resource, whatever was granted before, and leaves every other grant and every other
/// table alone. It succeeds if and only if the resource is one, something is asked for,
/// and the user is there.
pub proof fn granting_sets_one_grant(
    db: DatabaseView,
    username: Text,
    resource_id: Text,
    permissions: Seq<Text>,
    k: int,
)
    requires
        db.well_formed(),
    ensures
        ({
            let (next, r) = db::with_grant(db, username, resource_id, permissions);
            let proper = is_repository_id(resource_id) || resource_id == "urc-*"@;
            &&& r is Ok <==> proper && permissions.len() > 0 && is_taken(db, username)
            &&& next.users == db.users
            &&& next.repositories == db.repositories
            &&& r is Err ==> next.grants == db.grants
            &&& r is Ok && 0 <= k < db.users.len() && text::same_name(
                db.users[k].user.username,
                username,
            ) ==> exists|list: Seq<Text>|
                {
                    &&& forall|p: Text| #[trigger]
                        list.contains(p) <==> is_asked_for(permissions, p)
                    &&& forall|i: int, j: int|
                        0 <= i < j < list.len() ==> text::text_less(
                            #[trigger] list[i],
                            #[trigger] list[j],
                        )
                    &&& forall|g: GrantRowView| #[trigger]
                        next.grants.contains(g) <==> if g.user_id == db.users[k].user.id
                            && g.resource_id == resource_id {
                            g.permissions == #[trigger] json::permissions_json(list)
                        } else {
                            db.grants.contains(g)
                        }
                }
            &&& !proper ==> r == (Err::<(), Text>(
                "resource must be 'urc-*' or 'urc-<32 hex characters>'"@,
            ))
            &&& proper && permissions.len() == 0 ==> r == (Err::<(), Text>(
                "at least one permission is required"@,
            ))
            &&& proper && permissions.len() > 0 && !is_taken(db, username) ==> r == (Err::<
                (),
                Text,
            >("user not found: "@ + username))
        }),
{
    resources_are_repositories_or_all(resource_id);
    table_laws::lemma_taken(db, username, Seq::empty());
    permissions_are_kept_once_and_in_order(permissions);
    let (next, r) = db::with_grant(db, username, resource_id, permissions);
    if r is Ok && 0 <= k < db.users.len() && text::same_name(db.users[k].user.username, username) {
        table_laws::users_are_found_by_their_rows(db, username, Seq::empty(), k);
        let list = db::normalized(permissions);
        lemma_granted_rows(
            db.grants,
            db.users[k].user.id,
            resource_id,
            json::permissions_json(list),
        );
        assert(forall|g: GrantRowView| #[trigger]
            next.grants.contains(g) <==> if g.user_id == db.users[k].user.id && g.resource_id
                == resource_id {
                g.permissions == json::permissions_json(list)
            } else {
                db.grants.contains(g)
            });
    }
}

proof fn lemma_filter_rows<V>(rows: Seq<V>, keep: spec_fn(V) -> bool)
    ensures
        forall|x: V| #[trigger] rows.filter(keep).contains(x) <==> rows.contains(x) && keep(x),
{
    let kept = rows.filter(keep);
    assert forall|x: V| #[trigger] kept.contains(x) <==> rows.contains(x) && keep(x) by {
        if kept.contains(x) {
            let k = choose|k: int| 0 <= k < kept.len() && kept[k] == x;
            rows.lemma_filter_pred(keep, k);
            rows.lemma_filter_contains_rev(keep, x);
        }
        if rows.contains(x) && keep(x) {
            let k = choose|k: int| 0 <= k < rows.len() && rows[k] == x;
            rows.lemma_filter_contains(keep, k);
        }
    }
}

/// Revoking takes away the named user's grant on the resource, and nothing else. It
/// succeeds if and only if the user is there.
pub proof fn revoking_takes_one_grant(db: DatabaseView, username: Text, resource_id: Text, k: int)
    requires
        db.well_formed(),
    ensures
        ({
            let (next, r) = db::without_grant(db, username, resource_id);
            &&& r == if is_taken(db, username) {
                Ok::<(), Text>(())
            } else {
                Err::<(), Text>("user not found: "@ + username)
            }
            &&& next.users == db.users
            &&& next.repositories == db.repositories
            &&& r is Err ==> next.grants == db.grants
            &&& 0 <= k < db.users.len() && text::same_name(db.users[k].user.username, username)
                ==> forall|g: GrantRowView| #[trigger]
                next.grants.contains(g) <==> db.grants.contains(g) && !(g.user_id
                    == db.users[k].user.id && g.resource_id == resource_id)
        }),
{
    table_laws::lemma_taken(db, username, Seq::empty());
    if 0 <= k < db.users.len() && text::same_name(db.users[k].user.username, username) {
        table_laws::users_are_found_by_their_rows(db, username, Seq::empty(), k);
        let id = db.users[k].user.id;
        lemma_filter_rows(db.grants, |g: GrantRowView| !by_key(id, resource_id)(g));
    }
}

// ---------------------------------------------------------------------------
// Deleting users
// ---------------------------------------------------------------------------

proof fn lemma_one_row_out<V>(rows: Seq<V>, keep: spec_fn(V) -> bool, k: int)
    requires
        0 <= k < rows.len(),
        !keep(rows[k]),
        forall|i: int| 0 <= i < rows.len() && i != k ==> keep(#[trigger] rows[i]),
    ensures
        rows.filter(keep) == rows.remove(k),
{
    let head = rows.take(k);
    let tail = rows.skip(k + 1);
    assert(rows =~= head + (seq![rows[k]] + tail));
    Seq::filter_distributes_over_add(head, seq![rows[k]] + tail, keep);
    Seq::filter_distributes_over_add(seq![rows[k]], tail, keep);
    assert forall|i: int| 0 <= i < tail.len() implies keep(#[trigger] tail[i]) by {
        assert(tail[i] == rows[i + k + 1]);
    }
    assert forall|i: int| 0 <= i < head.len() implies keep(#[trigger] head[i]) by {
        assert(head[i] == rows[i]);
    }
    rows::lemma_filter_all(head, keep);
    rows::lemma_filter_all(tail, keep);
    rows::lemma_first_where_none(seq![rows[k]], keep);
    assert(rows.filter(keep) =~= head + tail);
    assert(rows.remove(k) =~= head + tail);
}

/// Deleting a user takes out the user's row and the user's grants, makes the successor the
/// creator of the user's repositories, and changes nothing else. It succeeds if and only
/// if both are there and not the same.
pub proof fn deleting_a_user_takes_one_row(
    db: DatabaseView,
    username: Text,
    successor: Text,
    k: int,
    m: int,
)
    requires
        db.well_formed(),
        0 <= k < db.users.len(),
        text::same_name(db.users[k].user.username, username),
        0 <= m < db.users.len(),
        text::same_name(db.users[m].user.username, successor),
    ensures
        ({
            let (next, r) = db::without_user(db, username, successor);
            let (gone, heir) = (db.users[k].user.id, db.users[m].user.id);
            &&& r == if k != m {
                Ok::<(), Text>(())
            } else {
                Err::<(), Text>("a user cannot be their own repository successor"@)
            }
            &&& k == m ==> next == db
            &&& k != m ==> {
                &&& next.users == db.users.remove(k)
                &&& forall|g: GrantRowView| #[trigger]
                    next.grants.contains(g) <==> db.grants.contains(g) && g.user_id != gone
                &&& next.repositories.len() == db.repositories.len()
                &&& forall|i: int|
                    0 <= i < db.repositories.len() ==> {
                        let (before, after) = (db.repositories[i], #[trigger] next.repositories[i]);
                        &&& after.resource_id == before.resource_id
                        &&& after.name == before.name
                        &&& after.created_at == before.created_at
                        &&& after.created_by == if before.created_by == gone {
                            heir
                        } else {
                            before.created_by
                        }
                    }
            }
        }),
{
    table_laws::users_are_found_by_their_rows(db, username, Seq::empty(), k);
    table_laws::users_are_found_by_their_rows(db, successor, Seq::empty(), m);
    let gone = db.users[k].user.id;
    if k < m {
        assert(users_apart()(db.users[k], db.users[m]));
    }
    if m < k {
        assert(users_apart()(db.users[m], db.users[k]));
    }
    if k != m {
        let others = |r: UserRowView| r.user.id != gone;
        assert forall|i: int| 0 <= i < db.users.len() && i != k implies others(
            #[trigger] db.users[i],
        ) by {
            if i < k {
                assert(users_apart()(db.users[i], db.users[k]));
            } else {
                assert(users_apart()(db.users[k], db.users[i]));
            }
        }
        lemma_one_row_out(db.users, others, k);
        lemma_filter_rows(db.grants, |g: GrantRowView| g.user_id != gone);
    }
}

/// Nobody is deleted who is not there, nor in favour of somebody who is not.
pub proof fn deleting_needs_both_users(db: DatabaseView, username: Text, successor: Text)
    ensures
        !is_taken(db, username) ==> db::without_user(db, username, successor) == (
            db,
            Err::<(), Text>("user not found: "@ + username),
        ),
        is_taken(db, username) && !is_taken(db, successor) ==> db::without_user(
            db,
            username,
            successor,
        ) == (db, Err::<(), Text>("repository successor not found: "@ + successor)),
{
    table_laws::lemma_taken(db, username, Seq::empty());
    table_laws::lemma_taken(db, successor, Seq::empty());
}

// ---------------------------------------------------------------------------
// Repositories
// ---------------------------------------------------------------------------

/// Whether a repository is recorded.
pub open spec fn is_recorded(db: DatabaseView, resource_id: Text) -> bool {
    exists|i: int|
        0 <= i < db.repositories.len() && #[trigger] db.repositories[i].resource_id == resource_id
}

proof fn lemma_recorded(db: DatabaseView, resource_id: Text)
    ensures
        is_recorded(db, resource_id) == (first_where(
            db.repositories,
            db::by_resource(resource_id),
        ) is Some),
{
    let p = db::by_resource(resource_id);
    rows::lemma_first_where(db.repositories, p);
    if first_where(db.repositories, p) is Some {
        let row = first_where(db.repositories, p)->0;
        let k = choose|k: int| 0 <= k < db.repositories.len() && db.repositories[k] == row;
        assert(db.repositories[k].resource_id == resource_id);
    } else {
        assert forall|i: int| 0 <= i < db.repositories.len() implies
            #[trigger] db.repositories[i].resource_id != resource_id by {
            assert(!p(db.repositories[i]));
        }
    }
}

/// Recording a repository adds its row, gives its creator the permissions of an owner on
/// it, and changes nothing else. It succeeds if and only if the identifier is one of a
/// resource, is not recorded yet, and the creator is a user.
pub proof fn recording_adds_one_repository(
    db: DatabaseView,
    actor_id: Text,
    resource_id: Text,
    name: Text,
    now: i64,
)
    ensures
        ({
            let (next, r) = db::with_repository(db, actor_id, resource_id, name, now);
            let proper = is_repository_id(resource_id) || resource_id == "urc-*"@;
            let owner = seq!["owner"@, "admin"@, "read"@, "write"@, "obliterate"@, "migrate"@];
            &&& r is Ok <==> proper && !is_recorded(db, resource_id) && is_known(db, actor_id)
            &&& next.users == db.users
            &&& r is Err ==> next == db
            &&& r is Ok ==> {
                &&& next.repositories.len() == db.repositories.len() + 1
                &&& next.repositories.drop_last() == db.repositories
                &&& next.repositories.last().resource_id == resource_id
                &&& next.repositories.last().name == name
                &&& next.repositories.last().created_by == actor_id
                &&& next.repositories.last().created_at == now
                &&& forall|g: GrantRowView| #[trigger]
                    next.grants.contains(g) <==> if g.user_id == actor_id && g.resource_id
                        == resource_id {
                        g.permissions == json::permissions_json(owner)
                    } else {
                        db.grants.contains(g)
                    }
            }
            &&& !proper ==> r == (Err::<(), Text>(
                "resource must be 'urc-*' or 'urc-<32 hex characters>'"@,
            ))
            &&& proper && r is Err ==> r == (Err::<(), Text>("repository resource already exists"@))
        }),
{
    resources_are_repositories_or_all(resource_id);
    lemma_recorded(db, resource_id);
    table_laws::lemma_taken(db, Seq::empty(), actor_id);
    let owner = seq!["owner"@, "admin"@, "read"@, "write"@, "obliterate"@, "migrate"@];
    let (next, r) = db::with_repository(db, actor_id, resource_id, name, now);
    if r is Ok {
        assert(next.repositories.drop_last() =~= db.repositories);
        lemma_granted_rows(db.grants, actor_id, resource_id, json::permissions_json(owner));
    }
}

/// Deleting a repository takes out its row and every grant on it, and nothing else. It
/// succeeds if and only if the repository is recorded.
pub proof fn deleting_takes_a_repository_and_its_grants(db: DatabaseView, resource_id: Text)
    ensures
        ({
            let (next, r) = db::without_repository(db, resource_id);
            &&& r == if is_recorded(db, resource_id) {
                Ok::<(), Text>(())
            } else {
                Err::<(), Text>("repository resource not found"@)
            }
            &&& next.users == db.users
            &&& r is Err ==> next == db
            &&& r is Ok ==> {
                &&& forall|row: RepositoryRowView| #[trigger]
                    next.repositories.contains(row) <==> db.repositories.contains(row)
                        && row.resource_id != resource_id
                &&& forall|g: GrantRowView| #[trigger]
                    next.grants.contains(g) <==> db.grants.contains(g) && g.resource_id
                        != resource_id
            }
        }),
{
    lemma_recorded(db, resource_id);
    lemma_filter_rows(db.repositories, |r: RepositoryRowView| r.resource_id != resource_id);
    lemma_filter_rows(db.grants, |g: GrantRowView| g.resource_id != resource_id);
}

// ---------------------------------------------------------------------------
// The administrator of the first start
// ---------------------------------------------------------------------------

/// Where the administrator exists, a start enables that user and makes it an
/// administrator, gives it the full permission on all resources, and changes nothing
/// else: no password, no other user, no other grant.
pub proof fn a_start_restores_one_user(
    db: DatabaseView,
    username: Text,
    password: Option<Text>,
    salt: Text,
    id: Text,
    now: i64,
    k: int,
)
    requires
        db.well_formed(),
        text::trimmed(username).len() > 0,
        0 <= k < db.users.len(),
        text::same_name(db.users[k].user.username, text::trimmed(username)),
    ensures
        ({
            let (next, r) = db::with_bootstrap_admin(db, Some(username), password, salt, id, now);
            let chief = db.users[k].user.id;
            &&& r is Ok
            &&& next.users.len() == db.users.len()
            &&& forall|i: int|
                0 <= i < db.users.len() ==> {
                    let (before, after) = (db.users[i], #[trigger] next.users[i]);
                    if i == k {
                        &&& !after.user.disabled
                        &&& after.user.is_admin
                        &&& after.user.id == before.user.id
                        &&& after.user.username == before.user.username
                        &&& after.user.display_name == before.user.display_name
                        &&& after.user.password_hash == before.user.password_hash
                        &&& after.created_at == before.created_at
                    } else {
                        after == before
                    }
                }
            &&& next.repositories == db.repositories
            &&& forall|g: GrantRowView| #[trigger]
                next.grants.contains(g) <==> if g.user_id == chief && g.resource_id == "urc-*"@ {
                    g.permissions == json::permissions_json(seq!["*"@])
                } else {
                    db.grants.contains(g)
                }
        }),
{
    let name = text::trimmed(username);
    table_laws::users_are_found_by_their_rows(db, name, Seq::empty(), k);
    let user = db.users[k].user;
    let g = db_laws::restored(user.id);
    let changed = DatabaseView { users: db.users.map_values(g), ..db };
    rows::lemma_first_where_map(db.users, by_name(name), g);
    db_laws::lemma_full_permission();
    resources_are_repositories_or_all("urc-*"@);
    lemma_granted_rows(db.grants, user.id, "urc-*"@, json::permissions_json(seq!["*"@]));
    let next = db::with_bootstrap_admin(db, Some(username), password, salt, id, now).0;
    assert(next.users =~= changed.users);
    assert forall|i: int| 0 <= i < db.users.len() && i != k implies #[trigger] next.users[i]
        == db.users[i] by {
        if i < k {
            assert(users_apart()(db.users[i], db.users[k]));
        } else {
            assert(users_apart()(db.users[k], db.users[i]));
        }
    }
}

/// Where the administrator does not exist, a start makes one with the given password, and
/// changes nothing else; without a password, without a name, or with a name or password
/// that no user can have, it makes nothing.
pub proof fn a_start_makes_the_administrator(
    db: DatabaseView,
    username: Option<Text>,
    password: Option<Text>,
    salt: Text,
    id: Text,
    now: i64,
)
    requires
        username matches Some(given) ==> !is_taken(db, text::trimmed(given)),
    ensures
        ({
            let (next, r) = db::with_bootstrap_admin(db, username, password, salt, id, now);
            let name = text::trimmed(username->0);
            &&& username is None || name.len() == 0 ==> r == (Err::<(), Text>(
                "LORE_AUTH_BOOTSTRAP_USERNAME must be set"@,
            ))
            &&& username is Some && name.len() > 0 && password is None ==> r == (Err::<(), Text>(
                "bootstrap administrator does not exist; set LORE_AUTH_BOOTSTRAP_PASSWORD"@,
            ))
            &&& r is Err ==> next == db
            &&& r is Ok <==> {
                &&& username is Some
                &&& password is Some
                &&& is_proper_name(name)
                &&& password->0.len() >= 10
                &&& password::argon2_hash(password->0, salt) is Ok
                &&& !is_known(db, id)
            }
            &&& r is Ok ==> {
                let last = next.users.last();
                &&& next.users.len() == db.users.len() + 1
                &&& next.users.drop_last() == db.users
                &&& last.user.id == id
                &&& last.user.username == name
                &&& last.user.display_name == name
                &&& Ok::<Text, Text>(last.user.password_hash) == password::argon2_hash(
                    password->0,
                    salt,
                )
                &&& !last.user.disabled
                &&& last.user.is_admin
                &&& last.created_at == now
                &&& next.repositories == db.repositories
                &&& forall|g: GrantRowView| #[trigger]
                    next.grants.contains(g) <==> if g.user_id == id && g.resource_id == "urc-*"@ {
                        g.permissions == json::permissions_json(seq!["*"@])
                    } else {
                        db.grants.contains(g)
                    }
            }
        }),
{
    if username is Some && text::trimmed(username->0).len() > 0 {
        let name = text::trimmed(username->0);
        db_laws::lemma_trimmed_twice(username->0);
        table_laws::lemma_taken(db, name, id);
        if password is Some {
            table_laws::a_new_user_is_one_row_more(
                db,
                name,
                name,
                password->0,
                true,
                salt,
                id,
                now,
            );
            let (made, r) = db::created(db, name, name, password->0, true, salt, id, now);
            if r is Ok {
                rows::lemma_first_where_push(
                    db.users,
                    made.users.last(),
                    by_name(r->Ok_0.username),
                );
                assert(made.users =~= db.users.push(made.users.last()));
                db_laws::lemma_full_permission();
                resources_are_repositories_or_all("urc-*"@);
                lemma_granted_rows(db.grants, id, "urc-*"@, json::permissions_json(seq!["*"@]));
            }
        }
    } else if username is Some {
        assert(!is_proper_name(text::trimmed(username->0)));
    }
}

} // verus!
