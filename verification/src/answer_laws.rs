//! What the service answers about tokens, permissions and users, over the rows of its
//! tables.

use vstd::prelude::*;
use vstd::utf8::*;

use crate::api;
use crate::api::CheckedPermissionsView;
use crate::change_laws;
use crate::change_laws::{is_recorded, is_repository_id};
use crate::db;
use crate::db::{by_id, first_user, DatabaseView, GrantView, UserView};
use crate::keys;
use crate::keys::{ClaimsView, ResourceClaimView};
use crate::service;
use crate::service::{AuthServiceView, Code, StatusView, UserInfoView, UserTokenView};
use crate::table_laws;
use crate::table_laws::{counts, is_granted, is_known, is_listed, list_in};
use crate::text;
use crate::text::Text;

verus! {

/// The answer to a failure that is none of the caller's business.
pub open spec fn failed<T>() -> Result<T, StatusView> {
    Err(StatusView { code: Code::Internal, message: "authentication service error"@ })
}

// ---------------------------------------------------------------------------
// Who acts
// ---------------------------------------------------------------------------

/// The token of a request is what follows `Bearer ` in its header.
pub proof fn tokens_follow_the_word_bearer(authorization: Option<Text>, token: Text)
    ensures
        api::bearer_token(authorization) == (Ok::<Text, StatusView>(token)) <==> authorization
            == Some("Bearer "@ + token),
        api::bearer_token(authorization) is Err ==> api::bearer_token(authorization) == (Err::<
            Text,
            StatusView,
        >(
            StatusView {
                code: Code::Unauthenticated,
                message: if authorization is None {
                    "authorization header required"@
                } else {
                    "Bearer token required"@
                },
            },
        )),
{
    reveal_strlit("Bearer ");
    let prefix = "Bearer "@;
    if let Some(raw) = authorization {
        if prefix.is_prefix_of(raw) {
            assert(raw =~= prefix + raw.skip(prefix.len() as int));
        }
        if raw == prefix + token {
            assert(prefix.is_prefix_of(raw));
            assert(raw.skip(prefix.len() as int) =~= token);
        }
    }
}

/// Who acts with a token is the user of the row with the identifier in its claims, if
/// enabled.
pub proof fn tokens_act_for_the_user_they_name(db: DatabaseView, claims: ClaimsView, k: int)
    requires
        db.well_formed(),
        0 <= k < db.users.len(),
        db.users[k].user.id == claims.user_id,
    ensures
        api::actor(db, Some(claims)) == if !db.users[k].user.disabled {
            Ok::<UserView, StatusView>(db.users[k].user)
        } else {
            Err::<UserView, StatusView>(
                StatusView {
                    code: Code::Unauthenticated,
                    message: "user is disabled or no longer exists"@,
                },
            )
        },
{
    table_laws::users_are_found_by_their_rows(db, Seq::empty(), claims.user_id, k);
}

/// Nobody acts without claims, nor with claims that name nobody.
pub proof fn nobody_acts_otherwise(db: DatabaseView, claims: Option<ClaimsView>)
    requires
        claims matches Some(c) ==> !is_known(db, c.user_id),
    ensures
        api::actor(db, claims) == (Err::<UserView, StatusView>(
            StatusView {
                code: Code::Unauthenticated,
                message: if claims is None {
                    "invalid or expired token"@
                } else {
                    "user is disabled or no longer exists"@
                },
            },
        )),
{
    if let Some(c) = claims {
        table_laws::lemma_taken(db, Seq::empty(), c.user_id);
    }
}

/// Who acts with a token in a request is who acts with that token, whatever the header says.
/// Without one the header counts: who acts is who acts with the token behind `Bearer `, and
/// without such a token nobody does.
pub proof fn tokens_in_requests_count_first(
    s: AuthServiceView,
    token: Text,
    authorization: Option<Text>,
    r: Result<UserView, StatusView>,
)
    ensures
        api::acts_by_target(s, Some(token), authorization, r) <==> api::acts(s, token, r),
        api::acts_by_target(s, None, authorization, r) <==> api::acts_by_header(
            s,
            authorization,
            r,
        ),
        api::acts_by_header(s, Some("Bearer "@ + token), r) <==> api::acts(s, token, r),
        api::acts_by_header(s, authorization, r) && (forall|t: Text|
            authorization != Some(#[trigger] ("Bearer "@ + t))) ==> (r matches Err(e) && e.code
            == Code::Unauthenticated),
{
    tokens_follow_the_word_bearer(Some("Bearer "@ + token), token);
    if let Ok(t) = api::bearer_token(authorization) {
        tokens_follow_the_word_bearer(authorization, t);
        assert(authorization == Some("Bearer "@ + t));
    }
}

/// Who acts with a token is the enabled user that verified claims name: they are read from
/// the payload, of the issuer, for the audience, and expired for a minute at most.
pub proof fn whoever_acts_is_named_by_verified_claims(
    s: AuthServiceView,
    token: Text,
    user: UserView,
)
    requires
        s.db.well_formed(),
        api::acts(s, token, Ok::<UserView, StatusView>(user)),
    ensures
        !user.disabled,
        exists|k: int| 0 <= k < s.db.users.len() && #[trigger] s.db.users[k].user == user,
        exists|now: u64|
            (#[trigger] keys::verified_claims(s.tokens, token, now)) matches Ok(c) && {
                &&& now <= c.expires + 60
                &&& c.user_id == user.id
                &&& c.issuer == s.tokens.issuer
                &&& c.audience.contains(s.tokens.audience)
            },
{
    let (now, read) = choose|now: u64, read: Result<ClaimsView, Text>|
        now <= crate::clock::CLOCK_LIMIT && #[trigger] keys::verified_at(
            s.tokens,
            token,
            now,
            read,
        ) && Ok::<UserView, StatusView>(user) == api::actor(s.db, keys::claims_found(read));
    let c = keys::claims_found(read)->0;
    keys::verified_claims_are_admitted(s.tokens, token, now, c);
    let k = table_laws::lemma_user_place(s.db.users, by_id(c.user_id));
    assert(s.db.users[k].user == user);
    assert(keys::verified_claims(s.tokens, token, now) == (Ok::<ClaimsView, Text>(c)));
}

/// Whoever does not act gets the reason and nothing else, and changes nothing; whoever
/// acts gets the answer for that user.
pub proof fn answers_are_for_whoever_acts<T>(
    s: AuthServiceView,
    who: Result<UserView, StatusView>,
    act: spec_fn(UserView) -> Result<T, StatusView>,
    change: spec_fn(UserView) -> (AuthServiceView, Result<(), StatusView>),
)
    ensures
        who matches Ok(user) ==> api::for_actor(who, act) == act(user) && api::change_for_actor(
            s,
            who,
            change,
        ) == change(user),
        who matches Err(e) ==> api::for_actor(who, act) == (Err::<T, StatusView>(e))
            && api::change_for_actor(s, who, change) == (s, Err::<(), StatusView>(e)),
{
}

// ---------------------------------------------------------------------------
// Tokens
// ---------------------------------------------------------------------------

/// A token that was signed is handed out with its expiry, the identifier and the display
/// name of its user; where signing failed, nothing is.
pub open spec fn is_handed_out(
    r: Result<UserTokenView, StatusView>,
    user: UserView,
    signed: Result<(Text, u64), Text>,
) -> bool {
    match signed {
        Ok((token, expires)) => r matches Ok(t) && {
            &&& t.user_token == token
            &&& t.expires_at == expires as i64
            &&& t.user_id == user.id
            &&& t.user_name == user.display_name
        },
        Err(_) => r == failed::<UserTokenView>(),
    }
}

/// A refreshed token is a new one for the same user, that says who the user is and names
/// no resources.
pub proof fn refreshing_signs_a_new_token(s: AuthServiceView, user: UserView, now: u64)
    ensures
        is_handed_out(
            api::refreshed(s, now)(user),
            user,
            keys::issued(s.tokens, user, None, "authentication"@, now),
        ),
{
}

/// The places of the rows that a filter keeps.
proof fn lemma_filter_places<V>(rows: Seq<V>, p: spec_fn(V) -> bool) -> (at: Seq<int>)
    ensures
        at.len() == rows.filter(p).len(),
        forall|k: int|
            0 <= k < at.len() ==> 0 <= #[trigger] at[k] < rows.len() && p(rows[at[k]])
                && rows.filter(p)[k] == rows[at[k]],
        forall|k: int, m: int| 0 <= k < m < at.len() ==> #[trigger] at[k] < #[trigger] at[m],
        forall|i: int| 0 <= i < rows.len() && p(#[trigger] rows[i]) ==> at.contains(i),
    decreases rows.len(),
{
    reveal(Seq::filter);
    if rows.len() == 0 {
        Seq::empty()
    } else {
        let init = rows.drop_last();
        let n = rows.len() - 1;
        let before = lemma_filter_places(init, p);
        assert(forall|i: int| 0 <= i < n ==> #[trigger] init[i] == rows[i]);
        if p(rows.last()) {
            let at = before.push(n);
            assert forall|k: int| 0 <= k < at.len() implies 0 <= #[trigger] at[k] < rows.len() && p(
                rows[at[k]],
            ) && rows.filter(p)[k] == rows[at[k]] by {
                if k < before.len() {
                    assert(at[k] == before[k]);
                    assert(init[before[k]] == rows[before[k]]);
                }
            }
            assert forall|k: int, m: int| 0 <= k < m < at.len() implies #[trigger] at[k]
                < #[trigger] at[m] by {
                assert(at[k] == before[k]);
                if m < before.len() {
                    assert(at[m] == before[m]);
                }
            }
            assert forall|i: int| 0 <= i < rows.len() && p(#[trigger] rows[i]) implies at.contains(
                i,
            ) by {
                if i < n {
                    assert(p(init[i]));
                    let k = choose|k: int| 0 <= k < before.len() && before[k] == i;
                    assert(at[k] == i);
                } else {
                    assert(at[before.len() as int] == i);
                }
            }
            at
        } else {
            assert forall|k: int| 0 <= k < before.len() implies 0 <= #[trigger] before[k]
                < rows.len() && p(rows[before[k]]) && rows.filter(p)[k] == rows[before[k]] by {
                assert(init[before[k]] == rows[before[k]]);
            }
            assert forall|i: int| 0 <= i < rows.len() && p(#[trigger] rows[i]) implies
                before.contains(i) by {
                assert(p(init[i]));
            }
            before
        }
    }
}

/// Whether the claims are those of the resources at the given places of a request, with
/// what the tables permit.
pub open spec fn are_claims_at(
    db: DatabaseView,
    user_id: Text,
    resource_ids: Seq<Text>,
    claims: Seq<ResourceClaimView>,
    at: Seq<int>,
) -> bool {
    &&& claims.len() == at.len()
    &&& forall|k: int, m: int| 0 <= k < m < at.len() ==> #[trigger] at[k] < #[trigger] at[m]
    &&& forall|k: int|
        0 <= k < at.len() ==> {
            &&& 0 <= #[trigger] at[k] < resource_ids.len()
            &&& claims[k].resource_id == resource_ids[at[k]]
            &&& db::permitted(db, user_id, resource_ids[at[k]]) == (Ok::<Seq<Text>, Text>(
                claims[k].permission,
            ))
        }
}

/// Whether the tables permit the user something on the resource at a place of a request.
pub open spec fn may_something(db: DatabaseView, user_id: Text, resource_id: Text) -> bool {
    db::permitted(db, user_id, resource_id) matches Ok(list) && list.len() > 0
}

/// What is known of a request can be told if and only if it can of each resource.
proof fn lemma_known_of_each(db: DatabaseView, user_id: Text, resource_ids: Seq<Text>)
    ensures
        match api::permissions_on(db, user_id, resource_ids) {
            Ok(all) => {
                &&& all.len() == resource_ids.len()
                &&& forall|i: int|
                    0 <= i < all.len() ==> (#[trigger] all[i]).resource_id == resource_ids[i]
                        && db::permitted(db, user_id, resource_ids[i]) == (Ok::<Seq<Text>, Text>(
                        all[i].permission,
                    ))
            },
            Err(_) => exists|i: int|
                0 <= i < resource_ids.len() && db::permitted(
                    db,
                    user_id,
                    #[trigger] resource_ids[i],
                ) is Err,
        },
    decreases resource_ids.len(),
{
    if resource_ids.len() > 0 {
        let init = resource_ids.drop_last();
        lemma_known_of_each(db, user_id, init);
        assert(resource_ids.last() == resource_ids[resource_ids.len() - 1]);
        if api::permissions_on(db, user_id, init) is Err {
            let i = choose|i: int|
                0 <= i < init.len() && db::permitted(db, user_id, #[trigger] init[i]) is Err;
            assert(resource_ids[i] == init[i]);
        } else if api::permissions_on(db, user_id, resource_ids) is Ok {
            let all = api::permissions_on(db, user_id, resource_ids)->Ok_0;
            let before = api::permissions_on(db, user_id, init)->Ok_0;
            assert forall|i: int| 0 <= i < all.len() implies (#[trigger] all[i]).resource_id
                == resource_ids[i] && db::permitted(db, user_id, resource_ids[i]) == (Ok::<
                Seq<Text>,
                Text,
            >(all[i].permission)) by {
                if i < init.len() {
                    assert(all[i] == before[i]);
                    assert(init[i] == resource_ids[i]);
                }
            }
        }
    }
}

/// Whether an exchange answers with a token for the resources at some places of a request.
pub open spec fn exchanges_for(
    s: AuthServiceView,
    user: UserView,
    resource_ids: Seq<Text>,
    now: u64,
    claims: Seq<ResourceClaimView>,
    at: Seq<int>,
) -> bool {
    &&& are_claims_at(s.db, user.id, resource_ids, claims, at)
    &&& forall|i: int|
        0 <= i < resource_ids.len() ==> (at.contains(i) <==> may_something(
            s.db,
            user.id,
            #[trigger] resource_ids[i],
        ))
    &&& is_handed_out(
        api::exchanged(s, resource_ids, now)(user),
        user,
        keys::issued(s.tokens, user, Some(claims), "authorization"@, now),
    )
}

/// An exchange is refused as not authorized if and only if the tables permit the user
/// nothing on any of the resources. If they permit something on some, the answer is what
/// signing a token gives for exactly those, in the order of the request, each with exactly
/// what is permitted.
pub proof fn exchanges_are_for_what_is_permitted(
    s: AuthServiceView,
    user: UserView,
    resource_ids: Seq<Text>,
    now: u64,
)
    ensures
        ({
            let r = api::exchanged(s, resource_ids, now)(user);
            let refused = |code: Code, message: Text|
                r == (Err::<UserTokenView, StatusView>(StatusView { code, message }));
            let sized = 1 <= resource_ids.len() <= 100;
            let readable = forall|i: int|
                0 <= i < resource_ids.len() ==> db::permitted(
                    s.db,
                    user.id,
                    #[trigger] resource_ids[i],
                ) is Ok;
            let nothing = forall|i: int|
                0 <= i < resource_ids.len() ==> !may_something(
                    s.db,
                    user.id,
                    #[trigger] resource_ids[i],
                );
            &&& !sized ==> refused(Code::InvalidArgument, "one to 100 resources are required"@)
            &&& sized && !readable ==> r == failed::<UserTokenView>()
            &&& sized && readable && nothing ==> refused(
                Code::PermissionDenied,
                "user is not authorized for the requested resources"@,
            )
            &&& sized && readable && !nothing ==> exists|
                claims: Seq<ResourceClaimView>,
                at: Seq<int>,
            | #[trigger]
                exchanges_for(s, user, resource_ids, now, claims, at)
        }),
{
    lemma_known_of_each(s.db, user.id, resource_ids);
    match api::permissions_on(s.db, user.id, resource_ids) {
        Ok(all) => {
            let p = api::something_allowed();
            let at = lemma_filter_places(all, p);
            let allowed = all.filter(p);
            assert forall|i: int| 0 <= i < resource_ids.len() implies db::permitted(
                s.db,
                user.id,
                #[trigger] resource_ids[i],
            ) is Ok by {
                assert(all[i].resource_id == resource_ids[i]);
            }
            assert forall|i: int| 0 <= i < resource_ids.len() implies (at.contains(i)
                <==> may_something(s.db, user.id, #[trigger] resource_ids[i])) by {
                assert(all[i].resource_id == resource_ids[i]);
                if at.contains(i) {
                    let k = choose|k: int| 0 <= k < at.len() && at[k] == i;
                    assert(p(all[at[k]]));
                }
                if may_something(s.db, user.id, resource_ids[i]) {
                    assert(p(all[i]));
                }
            }
            assert forall|k: int| 0 <= k < at.len() implies {
                &&& 0 <= #[trigger] at[k] < resource_ids.len()
                &&& allowed[k].resource_id == resource_ids[at[k]]
                &&& db::permitted(s.db, user.id, resource_ids[at[k]]) == (Ok::<Seq<Text>, Text>(
                    allowed[k].permission,
                ))
            } by {
                assert(all[at[k]].resource_id == resource_ids[at[k]]);
            }
            if allowed.len() == 0 {
                assert forall|i: int| 0 <= i < resource_ids.len() implies !may_something(
                    s.db,
                    user.id,
                    #[trigger] resource_ids[i],
                ) by {
                    assert(!at.contains(i));
                }
            } else {
                assert(at[0] == at[0]);
                assert(at.contains(at[0]));
                assert(may_something(s.db, user.id, resource_ids[at[0]]));
                if 1 <= resource_ids.len() <= 100 {
                    assert(exchanges_for(s, user, resource_ids, now, allowed, at));
                }
            }
        },
        Err(_) => {
            let i = choose|i: int|
                0 <= i < resource_ids.len() && db::permitted(
                    s.db,
                    user.id,
                    #[trigger] resource_ids[i],
                ) is Err;
            assert(db::permitted(s.db, user.id, resource_ids[i]) is Err);
        },
    }
}

/// Whether an answer sorts the resources of a request by whether something is permitted.
pub open spec fn sorts_out(
    db: DatabaseView,
    user_id: Text,
    resource_ids: Seq<Text>,
    answer: CheckedPermissionsView,
    allowed: Seq<int>,
    denied: Seq<int>,
) -> bool {
    &&& are_claims_at(db, user_id, resource_ids, answer.allowed, allowed)
    &&& are_claims_at(db, user_id, resource_ids, answer.denied, denied)
    &&& forall|i: int|
        0 <= i < resource_ids.len() ==> {
            &&& allowed.contains(i) <==> may_something(db, user_id, #[trigger] resource_ids[i])
            &&& denied.contains(i) <==> !may_something(db, user_id, resource_ids[i])
        }
}

/// A check answers for each resource of a request once, in the order of the request: it is
/// allowed if the tables permit the user something on it, and denied if not, each with
/// exactly what is permitted.
pub proof fn checks_sort_out_what_is_permitted(
    s: AuthServiceView,
    user: UserView,
    resource_ids: Seq<Text>,
)
    ensures
        match api::checked(s, resource_ids)(user) {
            Ok(answer) => exists|allowed: Seq<int>, denied: Seq<int>| #[trigger]
                sorts_out(s.db, user.id, resource_ids, answer, allowed, denied),
            Err(e) => Err::<CheckedPermissionsView, StatusView>(e) == failed::<
                CheckedPermissionsView,
            >() && exists|i: int|
                0 <= i < resource_ids.len() && db::permitted(
                    s.db,
                    user.id,
                    #[trigger] resource_ids[i],
                ) is Err,
        },
{
    lemma_known_of_each(s.db, user.id, resource_ids);
    if let Ok(all) = api::permissions_on(s.db, user.id, resource_ids) {
        let (p, q) = (api::something_allowed(), api::nothing_allowed());
        let allowed = lemma_filter_places(all, p);
        let denied = lemma_filter_places(all, q);
        let answer = api::checked(s, resource_ids)(user)->Ok_0;
        assert forall|i: int| 0 <= i < resource_ids.len() implies {
            &&& allowed.contains(i) <==> may_something(s.db, user.id, #[trigger] resource_ids[i])
            &&& denied.contains(i) <==> !may_something(s.db, user.id, resource_ids[i])
        } by {
            assert(all[i].resource_id == resource_ids[i]);
            if allowed.contains(i) {
                let k = choose|k: int| 0 <= k < allowed.len() && allowed[k] == i;
                assert(p(all[allowed[k]]));
            }
            if denied.contains(i) {
                let k = choose|k: int| 0 <= k < denied.len() && denied[k] == i;
                assert(q(all[denied[k]]));
            }
            if may_something(s.db, user.id, resource_ids[i]) {
                assert(p(all[i]));
            } else {
                assert(q(all[i]));
            }
        }
        assert forall|k: int| 0 <= k < allowed.len() implies {
            &&& 0 <= #[trigger] allowed[k] < resource_ids.len()
            &&& answer.allowed[k].resource_id == resource_ids[allowed[k]]
            &&& db::permitted(s.db, user.id, resource_ids[allowed[k]]) == (Ok::<Seq<Text>, Text>(
                answer.allowed[k].permission,
            ))
        } by {
            assert(all[allowed[k]].resource_id == resource_ids[allowed[k]]);
        }
        assert forall|k: int| 0 <= k < denied.len() implies {
            &&& 0 <= #[trigger] denied[k] < resource_ids.len()
            &&& answer.denied[k].resource_id == resource_ids[denied[k]]
            &&& db::permitted(s.db, user.id, resource_ids[denied[k]]) == (Ok::<Seq<Text>, Text>(
                answer.denied[k].permission,
            ))
        } by {
            assert(all[denied[k]].resource_id == resource_ids[denied[k]]);
        }
        assert(sorts_out(s.db, user.id, resource_ids, answer, allowed, denied));
    }
}

// ---------------------------------------------------------------------------
// Lookups
// ---------------------------------------------------------------------------

/// A user with permissions on all resources is shown every repository that passes the
/// filter, once, with exactly these permissions, in ascending order, and nothing else.
pub proof fn lookups_show_all_repositories_to_some(
    s: AuthServiceView,
    user: UserView,
    filter: Text,
)
    requires
        s.db.well_formed(),
        may_something(s.db, user.id, "urc-*"@),
    ensures
        match api::looked_up(s, filter)(user) {
            Ok(list) => {
                &&& encode_utf8(filter).len() < 50_000 || s.db.repositories.len() == 0
                &&& forall|c: ResourceClaimView| #[trigger]
                    list.contains(c) <==> {
                        &&& is_recorded(s.db, c.resource_id)
                        &&& text::passes_filter(filter, c.resource_id)
                        &&& db::permitted(s.db, user.id, "urc-*"@) == (Ok::<Seq<Text>, Text>(
                            c.permission,
                        ))
                    }
                &&& forall|i: int, j: int|
                    0 <= i < j < list.len() ==> text::text_less(
                        (#[trigger] list[i]).resource_id,
                        (#[trigger] list[j]).resource_id,
                    )
            },
            Err(e) => Err::<Seq<ResourceClaimView>, StatusView>(e) == failed::<
                Seq<ResourceClaimView>,
            >() && encode_utf8(filter).len() >= 50_000 && s.db.repositories.len() > 0,
        },
{
    table_laws::the_list_of_repositories_is_that_of_the_rows(s.db, filter);
    let wildcard = db::permitted(s.db, user.id, "urc-*"@)->Ok_0;
    if let Ok(ids) = db::listed_repositories(s.db, filter) {
        let list = api::looked_up(s, filter)(user)->Ok_0;
        assert(list.len() == ids.len());
        assert forall|c: ResourceClaimView| #[trigger] list.contains(c) <==> {
            &&& is_recorded(s.db, c.resource_id)
            &&& text::passes_filter(filter, c.resource_id)
            &&& db::permitted(s.db, user.id, "urc-*"@) == (Ok::<Seq<Text>, Text>(c.permission))
        } by {
            if list.contains(c) {
                let k = choose|k: int| 0 <= k < list.len() && list[k] == c;
                assert(ids.contains(ids[k]));
                assert(c.resource_id == ids[k]);
            }
            if is_recorded(s.db, c.resource_id) && text::passes_filter(filter, c.resource_id)
                && c.permission == wildcard {
                assert(ids.contains(c.resource_id));
                let k = choose|k: int| 0 <= k < ids.len() && ids[k] == c.resource_id;
                assert(list[k] == c);
            }
        }
        assert forall|i: int, j: int| 0 <= i < j < list.len() implies text::text_less(
            (#[trigger] list[i]).resource_id,
            (#[trigger] list[j]).resource_id,
        ) by {
            assert(text::text_less(ids[i], ids[j]));
        }
    }
}

/// A user without permissions on all resources is shown each resource on which the user
/// has a grant of its own, if it passes the filter, once, with exactly the permissions
/// that are stored in that grant, in ascending order, and nothing else.
pub proof fn lookups_show_the_grants_to_others(s: AuthServiceView, user: UserView, filter: Text)
    requires
        s.db.well_formed(),
        db::permitted(s.db, user.id, "urc-*"@) matches Ok(list) && list.len() == 0,
    ensures
        match api::looked_up(s, filter)(user) {
            Ok(list) => {
                &&& encode_utf8(filter).len() >= 50_000 ==> forall|i: int|
                    0 <= i < s.db.grants.len() ==> #[trigger] s.db.grants[i].user_id != user.id
                &&& forall|c: ResourceClaimView| #[trigger]
                    list.contains(c) <==> exists|i: int| #[trigger]
                        is_listed(s.db, i, user.id, filter) && s.db.grants[i].resource_id
                            == c.resource_id && list_in(s.db, i) == (Ok::<Seq<Text>, Text>(
                            c.permission,
                        ))
                &&& forall|i: int| #[trigger]
                    is_listed(s.db, i, user.id, filter) ==> list_in(s.db, i) is Ok
                &&& forall|i: int, j: int|
                    0 <= i < j < list.len() ==> text::text_less(
                        (#[trigger] list[i]).resource_id,
                        (#[trigger] list[j]).resource_id,
                    )
            },
            Err(e) => Err::<Seq<ResourceClaimView>, StatusView>(e) == failed::<
                Seq<ResourceClaimView>,
            >() && (encode_utf8(filter).len() >= 50_000 && (exists|i: int|
                0 <= i < s.db.grants.len() && #[trigger] s.db.grants[i].user_id == user.id)
                || exists|i: int| #[trigger]
                is_listed(s.db, i, user.id, filter) && list_in(s.db, i) is Err),
        },
{
    table_laws::the_list_of_grants_is_that_of_the_rows(s.db, user.id, filter);
    if let Ok(grants) = db::listed_grants(s.db, user.id, filter) {
        let list = api::looked_up(s, filter)(user)->Ok_0;
        assert(list.len() == grants.len());
        assert forall|c: ResourceClaimView| #[trigger] list.contains(c) <==> exists|i: int|
            #[trigger] is_listed(s.db, i, user.id, filter) && s.db.grants[i].resource_id
                == c.resource_id && list_in(s.db, i) == (Ok::<Seq<Text>, Text>(c.permission)) by {
            let g = GrantView { resource_id: c.resource_id, permissions: c.permission };
            if list.contains(c) {
                let k = choose|k: int| 0 <= k < list.len() && list[k] == c;
                assert(grants[k] == g);
                assert(grants.contains(g));
            }
            if grants.contains(g) {
                let k = choose|k: int| 0 <= k < grants.len() && grants[k] == g;
                assert(list[k] == c);
            }
        }
        assert forall|i: int, j: int| 0 <= i < j < list.len() implies text::text_less(
            (#[trigger] list[i]).resource_id,
            (#[trigger] list[j]).resource_id,
        ) by {
            assert(text::text_less(grants[i].resource_id, grants[j].resource_id));
        }
    }
}

/// What a lookup shows of a resource is what the user may do with it, as the question for
/// that one resource tells.
pub proof fn lookups_agree_with_questions(
    s: AuthServiceView,
    user: UserView,
    filter: Text,
    c: ResourceClaimView,
    p: Text,
)
    requires
        s.db.well_formed(),
        db::permitted(s.db, user.id, "urc-*"@) matches Ok(list) && list.len() == 0,
        api::looked_up(s, filter)(user) matches Ok(list) && list.contains(c),
    ensures
        db::permitted(s.db, user.id, c.resource_id) matches Ok(list) && (list.contains(p)
            <==> c.permission.contains(p)),
{
    let db = s.db;
    lookups_show_the_grants_to_others(s, user, filter);
    let i = choose|i: int| #[trigger]
        is_listed(db, i, user.id, filter) && db.grants[i].resource_id == c.resource_id && list_in(
            db,
            i,
        ) == (Ok::<Seq<Text>, Text>(c.permission));
    table_laws::permissions_are_those_of_the_grants(db, user.id, c.resource_id);
    table_laws::permissions_are_those_of_the_grants(db, user.id, "urc-*"@);
    let none = db::permitted(db, user.id, "urc-*"@)->Ok_0;
    assert forall|j: int| #[trigger] counts(db, j, user.id, c.resource_id) implies j == i || (
    list_in(db, j) matches Ok(l) && l.len() == 0) by {
        if db.grants[j].resource_id == "urc-*"@ {
            assert(counts(db, j, user.id, "urc-*"@));
            let l = list_in(db, j)->Ok_0;
            if l.len() > 0 {
                assert(l.contains(l[0]));
                assert(is_granted(db, user.id, "urc-*"@, l[0]));
                assert(none.contains(l[0]));
            }
        } else if j < i {
            assert(db::grants_apart()(db.grants[j], db.grants[i]));
        } else if i < j {
            assert(db::grants_apart()(db.grants[i], db.grants[j]));
        }
    }
    assert(counts(db, i, user.id, c.resource_id));
    match db::permitted(db, user.id, c.resource_id) {
        Ok(list) => {
            if list.contains(p) {
                let j = choose|j: int| #[trigger]
                    counts(db, j, user.id, c.resource_id) && (list_in(db, j) matches Ok(l)
                        && l.contains(p));
                assert(j == i);
            }
            if c.permission.contains(p) {
                assert(is_granted(db, user.id, c.resource_id, p));
            }
        },
        Err(_) => {},
    }
}

/// Where it cannot be told what a user may do with all resources, nothing is looked up.
pub proof fn lookups_need_readable_grants(s: AuthServiceView, user: UserView, filter: Text)
    requires
        db::permitted(s.db, user.id, "urc-*"@) is Err,
    ensures
        api::looked_up(s, filter)(user) == failed::<Seq<ResourceClaimView>>(),
{
}

// ---------------------------------------------------------------------------
// Users
// ---------------------------------------------------------------------------

/// Whether what is seen of a user is the user's identifier and display name.
pub open spec fn is_seen(info: UserInfoView, user: UserView) -> bool {
    info.user_id == user.id && info.display_name == user.display_name
}

/// What is seen of a user is the identifier and the display name.
pub proof fn users_are_seen_by_their_display_names(user: UserView)
    ensures
        is_seen(service::user_info(user), user),
        api::info_of(Some(user)) matches Some(info) && is_seen(info, user),
        api::info_of(None) is None,
{
}

/// The user with a name, in any case, is seen; nobody is seen under another name.
pub proof fn users_are_seen_by_name(db: DatabaseView, name: Text, k: int)
    requires
        db.well_formed(),
    ensures
        ({
            let r = api::info_of(first_user(db.users, db::by_name(name)));
            &&& 0 <= k < db.users.len() && text::same_name(db.users[k].user.username, name) ==> (
            r matches Some(info) && is_seen(info, db.users[k].user))
            &&& !table_laws::is_taken(db, name) ==> r is None
        }),
{
    table_laws::users_are_found_by_their_rows(db, name, Seq::empty(), k);
    table_laws::lemma_taken(db, name, Seq::empty());
}

/// Of some identifiers, those of users are answered, in order, each with that user, and the
/// others are left out.
pub proof fn known_users_are_answered_in_order(db: DatabaseView, user_ids: Seq<Text>)
    requires
        db.well_formed(),
    ensures
        exists|at: Seq<int>| #[trigger] answers_users(db, user_ids, api::infos(db, user_ids), at),
    decreases user_ids.len(),
{
    if user_ids.len() == 0 {
        assert(answers_users(db, user_ids, api::infos(db, user_ids), Seq::empty()));
    } else {
        let init = user_ids.drop_last();
        let n = user_ids.len() - 1;
        known_users_are_answered_in_order(db, init);
        let before = choose|at: Seq<int>| #[trigger]
            answers_users(db, init, api::infos(db, init), at);
        let list = api::infos(db, user_ids);
        let id = user_ids.last();
        assert(user_ids[n] == id);
        assert(forall|i: int| 0 <= i < n ==> #[trigger] init[i] == user_ids[i]);
        table_laws::lemma_taken(db, Seq::empty(), id);
        if is_known(db, id) {
            let at = before.push(n);
            let m = table_laws::lemma_user_place(db.users, by_id(id));
            assert forall|k: int| 0 <= k < at.len() implies #[trigger] at[k] < user_ids.len() && 0
                <= at[k] && exists|m: int|
                0 <= m < db.users.len() && #[trigger] db.users[m].user.id == user_ids[at[k]]
                    && is_seen(list[k], db.users[m].user) by {
                if k < before.len() {
                    assert(at[k] == before[k]);
                    assert(list[k] == api::infos(db, init)[k]);
                    let m = choose|m: int|
                        0 <= m < db.users.len() && #[trigger] db.users[m].user.id
                            == init[before[k]] && is_seen(
                            api::infos(db, init)[k],
                            db.users[m].user,
                        );
                    assert(db.users[m].user.id == user_ids[at[k]]);
                } else {
                    assert(db.users[m].user.id == user_ids[at[k]]);
                }
            }
            assert forall|k: int, m: int| 0 <= k < m < at.len() implies #[trigger] at[k]
                < #[trigger] at[m] by {
                assert(at[k] == before[k]);
                if m < before.len() {
                    assert(at[m] == before[m]);
                }
            }
            assert forall|i: int| 0 <= i < user_ids.len() implies (at.contains(i) <==> is_known(
                db,
                #[trigger] user_ids[i],
            )) by {
                if i < n {
                    assert(init[i] == user_ids[i]);
                    if before.contains(i) {
                        let k = choose|k: int| 0 <= k < before.len() && before[k] == i;
                        assert(at[k] == i);
                    }
                    if at.contains(i) {
                        let k = choose|k: int| 0 <= k < at.len() && at[k] == i;
                        assert(before[k] == i);
                    }
                } else {
                    assert(at[before.len() as int] == i);
                }
            }
            assert(answers_users(db, user_ids, list, at));
        } else {
            assert forall|i: int| 0 <= i < user_ids.len() implies (before.contains(i) <==> is_known(
                db,
                #[trigger] user_ids[i],
            )) by {
                if i < n {
                    assert(init[i] == user_ids[i]);
                } else if before.contains(i) {
                    let k = choose|k: int| 0 <= k < before.len() && before[k] == i;
                    assert(before[k] < init.len());
                }
            }
            assert forall|k: int| 0 <= k < before.len() implies #[trigger] before[k]
                < user_ids.len() && 0 <= before[k] && exists|m: int|
                0 <= m < db.users.len() && #[trigger] db.users[m].user.id == user_ids[before[k]]
                    && is_seen(list[k], db.users[m].user) by {
                let m = choose|m: int|
                    0 <= m < db.users.len() && #[trigger] db.users[m].user.id == init[before[k]]
                        && is_seen(list[k], db.users[m].user);
                assert(db.users[m].user.id == user_ids[before[k]]);
            }
            assert(answers_users(db, user_ids, list, before));
        }
    }
}

/// Whether a list shows the users at the given places of some identifiers, which are all
/// that are known.
pub open spec fn answers_users(
    db: DatabaseView,
    user_ids: Seq<Text>,
    list: Seq<UserInfoView>,
    at: Seq<int>,
) -> bool {
    &&& list.len() == at.len()
    &&& forall|k: int, m: int| 0 <= k < m < at.len() ==> #[trigger] at[k] < #[trigger] at[m]
    &&& forall|k: int|
        0 <= k < at.len() ==> #[trigger] at[k] < user_ids.len() && 0 <= at[k] && exists|m: int|
            0 <= m < db.users.len() && #[trigger] db.users[m].user.id == user_ids[at[k]] && is_seen(
                list[k],
                db.users[m].user,
            )
    &&& forall|i: int|
        0 <= i < user_ids.len() ==> (at.contains(i) <==> is_known(db, #[trigger] user_ids[i]))
}

// ---------------------------------------------------------------------------
// Repositories
// ---------------------------------------------------------------------------

/// Whoever is no administrator has a recorded repository forgotten if and only if one of
/// `*`, `owner` and `admin` is among the permissions on it; administrators always have it.
/// Then the repository and its grants are gone, and nothing else is.
pub proof fn deleting_needs_one_of_three_permissions(
    s: AuthServiceView,
    user: UserView,
    resource_id: Text,
)
    ensures
        ({
            let (next, r) = api::resource_deleted(s, user, resource_id);
            match db::permitted(s.db, user.id, resource_id) {
                Err(_) => next == s && r == failed::<()>(),
                Ok(list) => {
                    let may = user.is_admin || exists|i: int|
                        0 <= i < list.len() && (#[trigger] list[i] == "*"@ || list[i] == "owner"@
                            || list[i] == "admin"@);
                    &&& !may ==> next == s && r == (Err::<(), StatusView>(
                        StatusView {
                            code: Code::PermissionDenied,
                            message: "repository deletion is not allowed"@,
                        },
                    ))
                    &&& may && !is_recorded(s.db, resource_id) ==> next == s && r == failed::<()>()
                    &&& may && is_recorded(s.db, resource_id) ==> {
                        &&& r == (Ok::<(), StatusView>(()))
                        &&& next == (AuthServiceView {
                            db: db::without_repository(s.db, resource_id).0,
                            ..s
                        })
                    }
                },
            }
        }),
{
    change_laws::deleting_takes_a_repository_and_its_grants(s.db, resource_id);
    if let Ok(list) = db::permitted(s.db, user.id, resource_id) {
        if api::allows_deletion(list) {
            let i = choose|i: int|
                0 <= i < list.len() && (#[trigger] list[i] == "*"@ || list[i] == "owner"@ || list[i]
                    == "admin"@);
            assert(0 <= i < list.len());
        }
        if exists|i: int|
            0 <= i < list.len() && (#[trigger] list[i] == "*"@ || list[i] == "owner"@ || list[i]
                == "admin"@) {
            let i = choose|i: int|
                0 <= i < list.len() && (#[trigger] list[i] == "*"@ || list[i] == "owner"@ || list[i]
                    == "admin"@);
            assert(list.contains(list[i]));
        }
    }
}

/// Whoever has a grant that names the owner of a recorded repository can have it forgotten,
/// whatever else the grant names.
pub proof fn owners_delete_their_repositories(
    s: AuthServiceView,
    user: UserView,
    resource_id: Text,
    i: int,
)
    requires
        is_recorded(s.db, resource_id),
        counts(s.db, i, user.id, resource_id),
        list_in(s.db, i) matches Ok(list) && list.contains("owner"@),
        db::permitted(s.db, user.id, resource_id) is Ok,
    ensures
        api::resource_deleted(s, user, resource_id).1 == (Ok::<(), StatusView>(())),
{
    table_laws::permissions_are_those_of_the_grants(s.db, user.id, resource_id);
    deleting_needs_one_of_three_permissions(s, user, resource_id);
    let list = db::permitted(s.db, user.id, resource_id)->Ok_0;
    assert(is_granted(s.db, user.id, resource_id, "owner"@));
    assert(list.contains("owner"@));
    let k = choose|k: int| 0 <= k < list.len() && list[k] == "owner"@;
    assert(list[k] == "owner"@);
}

/// Only administrators record repositories. One that is recorded already, or whose
/// administrator is no user any more, is told to exist.
pub proof fn recording_is_for_administrators(
    s: AuthServiceView,
    user: UserView,
    resource_id: Text,
    name: Text,
    now: i64,
)
    ensures
        ({
            let (next, r) = api::resource_created(s, user, resource_id, name, now);
            let proper = is_repository_id(resource_id) || resource_id == "urc-*"@;
            let new = !is_recorded(s.db, resource_id) && is_known(s.db, user.id);
            &&& !user.is_admin ==> r == (Err::<(), StatusView>(
                StatusView {
                    code: Code::PermissionDenied,
                    message: "repository creation is not allowed"@,
                },
            ))
            &&& user.is_admin && !proper ==> r == failed::<()>()
            &&& user.is_admin && proper && !new ==> r == (Err::<(), StatusView>(
                StatusView { code: Code::AlreadyExists, message: "resource already exists"@ },
            ))
            &&& r is Ok <==> user.is_admin && proper && new
            &&& r is Err ==> next == s
            &&& r is Ok ==> next == (AuthServiceView {
                db: db::with_repository(s.db, user.id, resource_id, name, now).0,
                ..s
            })
        }),
{
    change_laws::recording_adds_one_repository(s.db, user.id, resource_id, name, now);
    let known = "repository resource already exists"@;
    let refusal = "resource must be 'urc-*' or 'urc-<32 hex characters>'"@;
    let words = "already exists"@;
    reveal_strlit("repository resource already exists");
    reveal_strlit("resource must be 'urc-*' or 'urc-<32 hex characters>'");
    reveal_strlit("already exists");
    assert(known.subrange(20, 34) =~= words);
    assert(text::stands_at(known, 20, words));
    assert(text::contains_text(known, words));
    assert(words[6] == 'y');
    assert(!text::contains_text(refusal, words)) by {
        if text::contains_text(refusal, words) {
            let i = choose|i: int| text::stands_at(refusal, i, words);
            assert(refusal.subrange(i, i + words.len())[6] == refusal[i + 6]);
            assert forall|k: int| 0 <= k < refusal.len() implies #[trigger] refusal[k] != 'y' by {}
        }
    }
}

} // verus!
