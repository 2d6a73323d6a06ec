//! What stands in tokens and key sets, member by member, and how long tokens are good.

use vstd::prelude::*;

use crate::db::UserView;
use crate::json;
use crate::json::{Json, Members};
use crate::keys;
use crate::keys::{ClaimsView, ResourceClaimView, TokenIssuerView};
use crate::text::Text;

verus! {

// ---------------------------------------------------------------------------
// Claims
// ---------------------------------------------------------------------------

/// Whether a value is a list of these strings.
pub open spec fn is_list_of(j: Json, list: Seq<Text>) -> bool {
    j matches Json::List(items) && {
        &&& items.len() == list.len()
        &&& forall|i: int| 0 <= i < list.len() ==> #[trigger] items[i] == Json::Str(list[i])
    }
}

/// Whether a value is written for a claim on a resource.
pub open spec fn is_written_resource(j: Json, c: ResourceClaimView) -> bool {
    j matches Json::Object(m) && {
        &&& m.list.len() == 2
        &&& m.list[0] == ("resource_id"@, Json::Str(c.resource_id))
        &&& m.list[1].0 == "permission"@
        &&& is_list_of(m.list[1].1, c.permission)
    }
}

/// Whether a value is written for the claims on some resources, or for none.
pub open spec fn are_written_resources(j: Json, claims: Option<Seq<ResourceClaimView>>) -> bool {
    match claims {
        None => j is Null,
        Some(list) => j matches Json::List(items) && {
            &&& items.len() == list.len()
            &&& forall|i: int|
                0 <= i < list.len() ==> is_written_resource(#[trigger] items[i], list[i])
        },
    }
}

/// A member with a new name comes last.
proof fn lemma_put(m: Members, key: Text, value: Json)
    requires
        forall|i: int| 0 <= i < m.list.len() ==> (#[trigger] m.list[i]).0 != key,
    ensures
        m.get(key) is None,
        m.insert(key, value).list == m.list.push((key, value)),
    decreases m.list.len(),
{
    if m.list.len() > 0 {
        let init = Members { list: m.list.drop_last() };
        assert forall|i: int| 0 <= i < init.list.len() implies (#[trigger] init.list[i]).0
            != key by {
            assert(init.list[i] == m.list[i]);
        }
        lemma_put(init, key, value);
        assert(m.list.last() == m.list[m.list.len() - 1]);
    }
}

/// The names that the claims have in a token differ.
proof fn lemma_names_differ(names: Seq<Text>)
    requires
        names == seq![
            "sub"@,
            "iss"@,
            "iat"@,
            "exp"@,
            "aud"@,
            "env"@,
            "name"@,
            "preferred_username"@,
            "resources"@,
            "groups"@,
            "is_service_account"@,
            "idp"@,
            "token_use"@,
        ],
    ensures
        forall|i: int, j: int|
            0 <= i < j < names.len() ==> #[trigger] names[i] != #[trigger] names[j],
{
    reveal_strlit("sub");
    reveal_strlit("iss");
    reveal_strlit("iat");
    reveal_strlit("exp");
    reveal_strlit("aud");
    reveal_strlit("env");
    reveal_strlit("name");
    reveal_strlit("preferred_username");
    reveal_strlit("resources");
    reveal_strlit("groups");
    reveal_strlit("is_service_account");
    reveal_strlit("idp");
    reveal_strlit("token_use");
    let keys = names.map_values(|s: Text| (s.len(), s[0], s[1]));
    assert forall|i: int, j: int| 0 <= i < j < names.len() implies #[trigger] names[i]
        != #[trigger] names[j] by {
        assert(keys[0] == (3nat, 's', 'u'));
        assert(keys[1] == (3nat, 'i', 's'));
        assert(keys[2] == (3nat, 'i', 'a'));
        assert(keys[3] == (3nat, 'e', 'x'));
        assert(keys[4] == (3nat, 'a', 'u'));
        assert(keys[5] == (3nat, 'e', 'n'));
        assert(keys[6] == (4nat, 'n', 'a'));
        assert(keys[7] == (18nat, 'p', 'r'));
        assert(keys[8] == (9nat, 'r', 'e'));
        assert(keys[9] == (6nat, 'g', 'r'));
        assert(keys[10] == (18nat, 'i', 's'));
        assert(keys[11] == (3nat, 'i', 'd'));
        assert(keys[12] == (9nat, 't', 'o'));
        assert(keys[i] != keys[j]);
    }
}

/// A claim on a resource is written as an object of its two members.
pub proof fn resources_are_written_with_two_members(c: ResourceClaimView)
    ensures
        is_written_resource(keys::resource_json(c), c),
{
    reveal_strlit("resource_id");
    reveal_strlit("permission");
    assert("resource_id"@.len() != "permission"@.len());
    let value = json::strings_json(c.permission);
    lemma_put(Members::empty(), "resource_id"@, Json::Str(c.resource_id));
    let one = Members::empty().insert("resource_id"@, Json::Str(c.resource_id));
    assert(one.list == seq![("resource_id"@, Json::Str(c.resource_id))]);
    lemma_put(one, "permission"@, value);
}

/// Claims are written as an object of thirteen members, in this order and under these
/// names.
#[verifier::rlimit(60)]
pub proof fn claims_are_written_under_their_names(c: ClaimsView)
    ensures
        keys::claims_json(c) matches Json::Object(m) && {
            &&& m.list.len() == 13
            &&& m.list[0] == ("sub"@, Json::Str(c.user_id))
            &&& m.list[1] == ("iss"@, Json::Str(c.issuer))
            &&& m.list[2] == ("iat"@, Json::Number(c.issued_at))
            &&& m.list[3] == ("exp"@, Json::Number(c.expires))
            &&& m.list[4].0 == "aud"@ && is_list_of(m.list[4].1, c.audience)
            &&& m.list[5] == ("env"@, Json::Str(c.env))
            &&& m.list[6] == ("name"@, Json::Str(c.name))
            &&& m.list[7] == ("preferred_username"@, Json::Str(c.preferred_username))
            &&& m.list[8].0 == "resources"@ && are_written_resources(m.list[8].1, c.resources)
            &&& m.list[9].0 == "groups"@ && match c.groups {
                Some(list) => is_list_of(m.list[9].1, list),
                None => m.list[9].1 is Null,
            }
            &&& m.list[10].0 == "is_service_account"@ && match c.is_service_account {
                Some(b) => m.list[10].1 == Json::Bool(b),
                None => m.list[10].1 is Null,
            }
            &&& m.list[11] == ("idp"@, Json::Str(c.idp))
            &&& m.list[12] == ("token_use"@, Json::Str(c.token_use))
        },
{
    let names = seq![
        "sub"@,
        "iss"@,
        "iat"@,
        "exp"@,
        "aud"@,
        "env"@,
        "name"@,
        "preferred_username"@,
        "resources"@,
        "groups"@,
        "is_service_account"@,
        "idp"@,
        "token_use"@,
    ];
    lemma_names_differ(names);
    let resources = keys::resources_json(c.resources);
    if let Some(list) = c.resources {
        let items = resources->List_0;
        assert forall|i: int| 0 <= i < list.len() implies is_written_resource(
            #[trigger] items[i],
            list[i],
        ) by {
            resources_are_written_with_two_members(list[i]);
        }
    }
    let groups = match c.groups {
        Some(list) => json::strings_json(list),
        None => Json::Null,
    };
    let is_service_account = match c.is_service_account {
        Some(b) => Json::Bool(b),
        None => Json::Null,
    };
    let values = seq![
        Json::Str(c.user_id),
        Json::Str(c.issuer),
        Json::Number(c.issued_at),
        Json::Number(c.expires),
        json::strings_json(c.audience),
        Json::Str(c.env),
        Json::Str(c.name),
        Json::Str(c.preferred_username),
        resources,
        groups,
        is_service_account,
        Json::Str(c.idp),
        Json::Str(c.token_use),
    ];
    let m0 = Members::empty();
    lemma_next(m0, names, values, 0);
    let m1 = m0.insert(names[0], values[0]);
    lemma_next(m1, names, values, 1);
    let m2 = m1.insert(names[1], values[1]);
    lemma_next(m2, names, values, 2);
    let m3 = m2.insert(names[2], values[2]);
    lemma_next(m3, names, values, 3);
    let m4 = m3.insert(names[3], values[3]);
    lemma_next(m4, names, values, 4);
    let m5 = m4.insert(names[4], values[4]);
    lemma_next(m5, names, values, 5);
    let m6 = m5.insert(names[5], values[5]);
    lemma_next(m6, names, values, 6);
    let m7 = m6.insert(names[6], values[6]);
    lemma_next(m7, names, values, 7);
    let m8 = m7.insert(names[7], values[7]);
    lemma_next(m8, names, values, 8);
    let m9 = m8.insert(names[8], values[8]);
    lemma_next(m9, names, values, 9);
    let m10 = m9.insert(names[9], values[9]);
    lemma_next(m10, names, values, 10);
    let m11 = m10.insert(names[10], values[10]);
    lemma_next(m11, names, values, 11);
    let m12 = m11.insert(names[11], values[11]);
    lemma_next(m12, names, values, 12);
    let m13 = m12.insert(names[12], values[12]);
    assert(keys::claims_json(c) == Json::Object(m13));
    assert(m13.list[0] == (names[0], values[0]));
    assert(m13.list[4] == (names[4], values[4]));
    assert(m13.list[8] == (names[8], values[8]));
    assert(m13.list[9] == (names[9], values[9]));
    assert(m13.list[10] == (names[10], values[10]));
}

/// The next of some members with different names comes after those before.
proof fn lemma_next(m: Members, names: Seq<Text>, values: Seq<Json>, n: int)
    requires
        0 <= n < names.len(),
        values.len() == names.len(),
        forall|i: int, j: int|
            0 <= i < j < names.len() ==> #[trigger] names[i] != #[trigger] names[j],
        m.list.len() == n,
        forall|i: int| 0 <= i < n ==> #[trigger] m.list[i] == (names[i], values[i]),
    ensures
        m.insert(names[n], values[n]).list.len() == n + 1,
        forall|i: int|
            0 <= i <= n ==> #[trigger] m.insert(names[n], values[n]).list[i] == (
                names[i],
                values[i],
            ),
{
    assert forall|i: int| 0 <= i < m.list.len() implies (#[trigger] m.list[i]).0 != names[n] by {
        assert(names[i] != names[n]);
    }
    lemma_put(m, names[n], values[n]);
}

/// Whether a value is read as a claim on a resource: an object with the two members, or a
/// list of the two.
pub open spec fn is_resource_in(j: Json, c: ResourceClaimView) -> bool {
    ||| (j matches Json::Object(m) && {
        &&& m.get("resource_id"@) == Some(Json::Str(c.resource_id))
        &&& m.get("permission"@) matches Some(list) && is_list_of(list, c.permission)
    })
    ||| (j matches Json::List(items) && {
        &&& items.len() == 2
        &&& items[0] == Json::Str(c.resource_id)
        &&& is_list_of(items[1], c.permission)
    })
}

/// A list of strings is read if and only if it is one.
proof fn lemma_strings_in(j: Json, list: Seq<Text>)
    ensures
        json::strings_in(j) == Some(list) <==> is_list_of(j, list),
{
    if let Json::List(items) = j {
        if is_list_of(j, list) {
            assert(forall|i: int| 0 <= i < items.len() ==> (#[trigger] items[i]) is Str);
            assert(items.map_values(|j: Json| j->Str_0) =~= list);
        }
    }
}

/// A value is read as the claim on a resource that it says, and else not at all.
pub proof fn resources_are_read_from_their_members(j: Json, c: ResourceClaimView)
    ensures
        keys::resource_in(j) == Some(c) <==> is_resource_in(j, c),
{
    match j {
        Json::Object(m) => {
            if let Some(list) = m.get("permission"@) {
                lemma_strings_in(list, c.permission);
            }
        },
        Json::List(items) => {
            if items.len() == 2 {
                lemma_strings_in(items[1], c.permission);
            }
        },
        _ => {},
    }
}

/// Whether these are the claims on resources that an object holds: there are none where the
/// member is missing or null.
pub open spec fn are_resources_in(m: Members, claims: Option<Seq<ResourceClaimView>>) -> bool {
    match m.get("resources"@) {
        None | Some(Json::Null) => claims is None,
        Some(Json::List(items)) => claims matches Some(list) && {
            &&& items.len() == list.len()
            &&& forall|i: int|
                0 <= i < list.len() ==> is_resource_in(#[trigger] items[i], list[i])
        },
        Some(_) => false,
    }
}

/// Whether these are the claims that an object holds.
pub open spec fn are_claims_in(m: Members, c: ClaimsView) -> bool {
    &&& m.get("sub"@) == Some(Json::Str(c.user_id))
    &&& m.get("iss"@) == Some(Json::Str(c.issuer))
    &&& m.get("iat"@) == Some(Json::Number(c.issued_at))
    &&& m.get("exp"@) == Some(Json::Number(c.expires))
    &&& m.get("aud"@) matches Some(list) && is_list_of(list, c.audience)
    &&& m.get("env"@) == Some(Json::Str(c.env))
    &&& m.get("name"@) == Some(Json::Str(c.name))
    &&& m.get("preferred_username"@) == Some(Json::Str(c.preferred_username))
    &&& are_resources_in(m, c.resources)
    &&& match m.get("groups"@) {
        None | Some(Json::Null) => c.groups is None,
        Some(list) => c.groups matches Some(groups) && is_list_of(list, groups),
    }
    &&& match m.get("is_service_account"@) {
        None | Some(Json::Null) => c.is_service_account is None,
        Some(b) => c.is_service_account matches Some(is) && b == Json::Bool(is),
    }
    &&& m.get("idp"@) == Some(Json::Str(c.idp))
    &&& m.get("token_use"@) == Some(Json::Str(c.token_use))
}

/// The claims on resources are read if and only if they are there.
proof fn lemma_resources_at(m: Members, claims: Option<Seq<ResourceClaimView>>)
    ensures
        keys::resources_at(m) == Some(claims) <==> are_resources_in(m, claims),
{
    if let Some(Json::List(items)) = m.get("resources"@) {
        let j = Json::List(items);
        if let Some(list) = claims {
            if are_resources_in(m, claims) {
                assert forall|i: int| 0 <= i < items.len() implies keys::resource_in(
                    #[trigger] items[i],
                ) == Some(list[i]) by {
                    resources_are_read_from_their_members(items[i], list[i]);
                    assert(is_resource_in(items[i], list[i]));
                }
                assert(items.map_values(|j: Json| keys::resource_in(j)->0) =~= list);
            }
            if keys::resources_in(j) == Some(list) {
                assert forall|i: int| 0 <= i < list.len() implies is_resource_in(
                    #[trigger] items[i],
                    list[i],
                ) by {
                    assert(keys::resource_in(items[i]) is Some);
                    assert(list[i] == keys::resource_in(items[i])->0);
                    resources_are_read_from_their_members(items[i], list[i]);
                }
            }
        }
    }
}

/// Claims are read from the members of an object by their names, each of its type, and
/// nothing but an object holds claims.
pub proof fn claims_are_read_by_their_names(j: Json, c: ClaimsView)
    ensures
        keys::claims_in(j) == Some(c) <==> (j matches Json::Object(m) && are_claims_in(m, c)),
{
    if let Json::Object(m) = j {
        if let Some(list) = m.get("aud"@) {
            lemma_strings_in(list, c.audience);
        }
        if let Some(list) = m.get("groups"@) {
            if let Some(groups) = c.groups {
                lemma_strings_in(list, groups);
            }
        }
        lemma_resources_at(m, c.resources);
        if are_claims_in(m, c) {
            assert(keys::claims_in(j) == Some(c));
        }
        if keys::claims_in(j) == Some(c) {
            assert(are_claims_in(m, c));
        }
    }
}

// ---------------------------------------------------------------------------
// Issuing and verifying
// ---------------------------------------------------------------------------

/// Whether claims say of a token who it is for, by whom, for how long and for what.
pub open spec fn say(
    c: ClaimsView,
    t: TokenIssuerView,
    user: UserView,
    resources: Option<Seq<ResourceClaimView>>,
    token_use: Text,
    now: u64,
) -> bool {
    &&& c.user_id == user.id
    &&& c.issuer == t.issuer
    &&& c.issued_at == now
    &&& now + t.ttl_seconds <= u64::MAX ==> c.expires == now + t.ttl_seconds
    &&& now + t.ttl_seconds > u64::MAX ==> c.expires == u64::MAX
    &&& c.audience.len() == 1 && c.audience[0] == t.audience
    &&& c.env == t.environment
    &&& c.name == user.display_name
    &&& c.preferred_username == user.username
    &&& c.resources == resources
    &&& c.groups is Some <==> user.is_admin
    &&& c.groups matches Some(groups) ==> groups.len() == 1 && groups[0] == "admin"@
    &&& c.is_service_account == Some(false)
    &&& c.idp == "lore-auth"@
    &&& c.token_use == token_use
}

/// A token for a user is what signing the claims gives that say so, under the identifier
/// of the key, and it comes with the expiry that is among them.
pub proof fn tokens_are_signed_claims(
    c: ClaimsView,
    t: TokenIssuerView,
    user: UserView,
    resources: Option<Seq<ResourceClaimView>>,
    token_use: Text,
    now: u64,
)
    requires
        say(c, t, user, resources, token_use, now),
    ensures
        match keys::rs256_token(t.kid, keys::claims_json(c), t.private_pem) {
            Ok(token) => keys::issued(t, user, resources, token_use, now) == (Ok::<
                (Text, u64),
                Text,
            >((token, c.expires))),
            Err(e) => keys::issued(t, user, resources, token_use, now) == (Err::<(Text, u64), Text>(
                e,
            )),
        },
{
    let made = keys::claims_for(t, user, resources, token_use, now);
    assert(made.audience =~= c.audience);
    if c.groups is Some {
        assert(made.groups->0 =~= c.groups->0);
    }
    assert(made == c);
}

/// A token that was issued is verified, until a minute after it expired, as claims that say
/// who it is for, by whom, for how long and for what.
pub proof fn issued_tokens_say_who_they_are_for(
    t: TokenIssuerView,
    user: UserView,
    resources: Option<Seq<ResourceClaimView>>,
    token_use: Text,
    issue_time: u64,
    now: u64,
    r: Result<ClaimsView, Text>,
)
    requires
        keys::issued(t, user, resources, token_use, issue_time) is Ok,
        keys::verified_at(
            t,
            keys::issued(t, user, resources, token_use, issue_time)->Ok_0.0,
            now,
            r,
        ),
    ensures
        r is Ok <==> now <= issue_time + t.ttl_seconds + 60 || now <= u64::MAX
            && issue_time + t.ttl_seconds > u64::MAX,
        r matches Ok(c) ==> say(c, t, user, resources, token_use, issue_time),
{
    keys::issued_tokens_verify(t, user, resources, token_use, issue_time, now, r);
}

/// Claims are admitted until a minute after their expiry, and only where they can be read
/// from what the key verifies, also when the issuer and the audience are asked for.
pub proof fn claims_are_admitted_until_a_minute_late(
    t: TokenIssuerView,
    token: Text,
    now: u64,
    c: ClaimsView,
)
    ensures
        keys::verified_claims(t, token, now) == (Ok::<ClaimsView, Text>(c)) <==> {
            &&& keys::decoded_payload(token, t.public_pem, None) matches Ok(j)
            &&& keys::claims_in(j) == Some(c)
            &&& now <= c.expires + 60
            &&& keys::decoded_payload(token, t.public_pem, Some((t.issuer, t.audience))) is Ok
        },
        keys::claims_found(keys::verified_claims(t, token, now)) == Some(c)
            <==> keys::verified_claims(t, token, now) == (Ok::<ClaimsView, Text>(c)),
{
}

// ---------------------------------------------------------------------------
// Keys
// ---------------------------------------------------------------------------

/// A key set holds one key, with its modulus, its exponent and its identifier.
pub proof fn key_sets_hold_the_public_key(t: TokenIssuerView)
    ensures
        keys::jwks_json(t) matches Json::Object(set) && {
            &&& set.list.len() == 1
            &&& set.list[0].0 == "keys"@
            &&& set.list[0].1 matches Json::List(list)
            &&& list.len() == 1
            &&& list[0] matches Json::Object(m) && {
                &&& m.list.len() == 6
                &&& m.list[0] == ("alg"@, Json::Str("RS256"@))
                &&& m.list[1] == ("e"@, Json::Str(t.exponent))
                &&& m.list[2] == ("kid"@, Json::Str(t.kid))
                &&& m.list[3] == ("kty"@, Json::Str("RSA"@))
                &&& m.list[4] == ("n"@, Json::Str(t.modulus))
                &&& m.list[5] == ("use"@, Json::Str("sig"@))
            }
        },
{
    reveal_strlit("alg");
    reveal_strlit("e");
    reveal_strlit("kid");
    reveal_strlit("kty");
    reveal_strlit("n");
    reveal_strlit("use");
    let names = seq!["alg"@, "e"@, "kid"@, "kty"@, "n"@, "use"@];
    let firsts = names.map_values(|s: Text| (s.len(), s[0], s.last()));
    assert forall|i: int, j: int| 0 <= i < j < names.len() implies #[trigger] names[i]
        != #[trigger] names[j] by {
        assert(firsts[0] == (3nat, 'a', 'g'));
        assert(firsts[1] == (1nat, 'e', 'e'));
        assert(firsts[2] == (3nat, 'k', 'd'));
        assert(firsts[3] == (3nat, 'k', 'y'));
        assert(firsts[4] == (1nat, 'n', 'n'));
        assert(firsts[5] == (3nat, 'u', 'e'));
        assert(firsts[i] != firsts[j]);
    }
    let values = seq![
        Json::Str("RS256"@),
        Json::Str(t.exponent),
        Json::Str(t.kid),
        Json::Str("RSA"@),
        Json::Str(t.modulus),
        Json::Str("sig"@),
    ];
    let m0 = Members::empty();
    lemma_next(m0, names, values, 0);
    let m1 = m0.insert(names[0], values[0]);
    lemma_next(m1, names, values, 1);
    let m2 = m1.insert(names[1], values[1]);
    lemma_next(m2, names, values, 2);
    let m3 = m2.insert(names[2], values[2]);
    lemma_next(m3, names, values, 3);
    let m4 = m3.insert(names[3], values[3]);
    lemma_next(m4, names, values, 4);
    let m5 = m4.insert(names[4], values[4]);
    lemma_next(m5, names, values, 5);
    let m6 = m5.insert(names[5], values[5]);
    assert(keys::key_json(t) == Json::Object(m6));
    let list = Json::List(seq![keys::key_json(t)]);
    lemma_put(Members::empty(), "keys"@, list);
    assert(Members::empty().insert("keys"@, list).list[0] == ("keys"@, list));
}

/// A new key has 3072 bits.
pub proof fn new_keys_are_long()
    ensures
        keys::KEY_BITS == 3072,
{
}

/// An issuer is set up with a private key if and only if it can be read, its public key can
/// be told, and both are good for tokens. It has that key, its public key, the first
/// sixteen digits of its hash as identifier, and what else it is set up with.
pub proof fn issuers_have_their_key(
    pem: Text,
    issuer: Text,
    audience: Text,
    environment: Text,
    ttl_seconds: u64,
    t: TokenIssuerView,
)
    ensures
        keys::issuer_with_key(pem, issuer, audience, environment, ttl_seconds) == (Ok::<
            TokenIssuerView,
            Text,
        >(t)) <==> {
            &&& keys::rsa_private_key(pem) == (Ok::<Text, Text>(t.private_pem))
            &&& keys::rsa_public_key(t.private_pem) matches Ok(key)
            &&& keys::signing_key(t.private_pem) is Ok
            &&& keys::verifying_key(t.public_pem) is Ok
            &&& t.public_pem == key.pem
            &&& t.kid == keys::blake3_hex(key.der).subrange(0, 16)
            &&& t.modulus == keys::base64url(key.modulus)
            &&& t.exponent == keys::base64url(key.exponent)
            &&& t.issuer == issuer
            &&& t.audience == audience
            &&& t.environment == environment
            &&& t.ttl_seconds == ttl_seconds
        },
        keys::rsa_private_key(pem) is Err ==> keys::issuer_with_key(
            pem,
            issuer,
            audience,
            environment,
            ttl_seconds,
        ) == (Err::<TokenIssuerView, Text>("parsing RSA private key"@)),
{
    if let Ok(private_pem) = keys::rsa_private_key(pem) {
        if let Ok(key) = keys::rsa_public_key(private_pem) {
            assert(keys::blake3_hex(key.der).subrange(0, 16) == keys::blake3_hex(key.der).take(16));
        }
    }
}

} // verus!
