//! The signing key, and the tokens that it signs.

use base64::engine::general_purpose::URL_SAFE_NO_PAD;
use base64::Engine;
use jsonwebtoken::{decode, encode, Algorithm, DecodingKey, EncodingKey, Header, Validation};
use rand_core::OsRng;
use rsa::pkcs8::{DecodePrivateKey, EncodePrivateKey, EncodePublicKey, LineEnding};
use rsa::traits::PublicKeyParts;
use rsa::{RsaPrivateKey, RsaPublicKey};
use serde_json::Value;
use std::collections::HashSet;
use vstd::prelude::*;

use crate::clock;
use crate::db::{User, UserView};
use crate::ids;
use crate::json;
use crate::json::{json_of, Json, Members, Node};
use crate::text;
use crate::text::Text;

verus! {

// ---------------------------------------------------------------------------
// Claims
// ---------------------------------------------------------------------------

#[derive(Debug)]
pub struct ResourceClaim {
    pub resource_id: String,
    pub permission: Vec<String>,
}

#[verifier::ext_equal]
pub struct ResourceClaimView {
    pub resource_id: Text,
    pub permission: Seq<Text>,
}

impl View for ResourceClaim {
    type V = ResourceClaimView;

    open spec fn view(&self) -> ResourceClaimView {
        ResourceClaimView {
            resource_id: self.resource_id@,
            permission: self.permission.deep_view(),
        }
    }
}

impl DeepView for ResourceClaim {
    type V = ResourceClaimView;

    open spec fn deep_view(&self) -> ResourceClaimView {
        self@
    }
}

#[derive(Debug)]
pub struct Claims {
    pub user_id: String,
    pub issuer: String,
    pub issued_at: u64,
    pub expires: u64,
    pub audience: Vec<String>,
    pub env: String,
    pub name: String,
    pub preferred_username: String,
    pub resources: Option<Vec<ResourceClaim>>,
    pub groups: Option<Vec<String>>,
    pub is_service_account: Option<bool>,
    pub idp: String,
    pub token_use: String,
}

#[verifier::ext_equal]
pub struct ClaimsView {
    pub user_id: Text,
    pub issuer: Text,
    pub issued_at: u64,
    pub expires: u64,
    pub audience: Seq<Text>,
    pub env: Text,
    pub name: Text,
    pub preferred_username: Text,
    pub resources: Option<Seq<ResourceClaimView>>,
    pub groups: Option<Seq<Text>>,
    pub is_service_account: Option<bool>,
    pub idp: Text,
    pub token_use: Text,
}

impl View for Claims {
    type V = ClaimsView;

    open spec fn view(&self) -> ClaimsView {
        ClaimsView {
            user_id: self.user_id@,
            issuer: self.issuer@,
            issued_at: self.issued_at,
            expires: self.expires,
            audience: self.audience.deep_view(),
            env: self.env@,
            name: self.name@,
            preferred_username: self.preferred_username@,
            resources: self.resources.deep_view(),
            groups: self.groups.deep_view(),
            is_service_account: self.is_service_account,
            idp: self.idp@,
            token_use: self.token_use@,
        }
    }
}

impl DeepView for Claims {
    type V = ClaimsView;

    open spec fn deep_view(&self) -> ClaimsView {
        self@
    }
}

pub open spec fn resource_json(claim: ResourceClaimView) -> Json {
    Json::Object(
        Members::empty().insert("resource_id"@, Json::Str(claim.resource_id)).insert(
            "permission"@,
            json::strings_json(claim.permission),
        ),
    )
}

pub open spec fn resources_json(claims: Option<Seq<ResourceClaimView>>) -> Json {
    match claims {
        Some(list) => Json::List(list.map_values(|c: ResourceClaimView| resource_json(c))),
        None => Json::Null,
    }
}

/// The claims under their names in a token.
pub open spec fn claims_json(c: ClaimsView) -> Json {
    Json::Object(
        Members::empty().insert("sub"@, Json::Str(c.user_id)).insert(
            "iss"@,
            Json::Str(c.issuer),
        ).insert("iat"@, Json::Number(c.issued_at)).insert(
            "exp"@,
            Json::Number(c.expires),
        ).insert("aud"@, json::strings_json(c.audience)).insert("env"@, Json::Str(c.env)).insert(
            "name"@,
            Json::Str(c.name),
        ).insert("preferred_username"@, Json::Str(c.preferred_username)).insert(
            "resources"@,
            resources_json(c.resources),
        ).insert(
            "groups"@,
            match c.groups {
                Some(list) => json::strings_json(list),
                None => Json::Null,
            },
        ).insert(
            "is_service_account"@,
            match c.is_service_account {
                Some(b) => Json::Bool(b),
                None => Json::Null,
            },
        ).insert("idp"@, Json::Str(c.idp)).insert("token_use"@, Json::Str(c.token_use)),
    )
}

impl ResourceClaim {
    fn to_json(&self) -> (r: Value)
        ensures
            json_of(r) == resource_json(self@),
    {
        let mut pairs: Vec<(String, Value)> = Vec::new();
        json::put(&mut pairs, "resource_id", json::string(self.resource_id.as_str()));
        json::put(&mut pairs, "permission", json::strings(&self.permission));
        json::close(Node::Object(pairs))
    }
}

fn write_resources(claims: &Option<Vec<ResourceClaim>>) -> (r: Value)
    ensures
        json_of(r) == resources_json(claims.deep_view()),
{
    let list = match claims {
        Some(list) => list,
        None => {
            return json::null();
        },
    };
    let ghost wanted = list.deep_view().map_values(|c: ResourceClaimView| resource_json(c));
    let mut out: Vec<Value> = Vec::new();
    let mut i: usize = 0;
    assert(json::items(out@) =~= wanted.take(0));
    while i < list.len()
        invariant
            i <= list@.len(),
            wanted == list.deep_view().map_values(|c: ResourceClaimView| resource_json(c)),
            json::items(out@) == wanted.take(i as int),
        decreases list@.len() - i,
    {
        let ghost before = out@;
        let v = list[i].to_json();
        out.push(v);
        assert(json::items(out@) =~= json::items(before).push(json_of(v)));
        assert(wanted.take(i + 1) =~= wanted.take(i as int).push(wanted[i as int]));
        i = i + 1;
    }
    assert(wanted.take(i as int) =~= wanted);
    json::close(Node::List(out))
}

impl Claims {
    pub fn to_json(&self) -> (r: Value)
        ensures
            json_of(r) == claims_json(self@),
    {
        let mut pairs: Vec<(String, Value)> = Vec::new();
        json::put(&mut pairs, "sub", json::string(self.user_id.as_str()));
        json::put(&mut pairs, "iss", json::string(self.issuer.as_str()));
        json::put(&mut pairs, "iat", json::close(Node::Number(self.issued_at)));
        json::put(&mut pairs, "exp", json::close(Node::Number(self.expires)));
        json::put(&mut pairs, "aud", json::strings(&self.audience));
        json::put(&mut pairs, "env", json::string(self.env.as_str()));
        json::put(&mut pairs, "name", json::string(self.name.as_str()));
        json::put(
            &mut pairs,
            "preferred_username",
            json::string(self.preferred_username.as_str()),
        );
        json::put(&mut pairs, "resources", write_resources(&self.resources));
        let groups = match &self.groups {
            Some(list) => json::strings(list),
            None => json::null(),
        };
        json::put(&mut pairs, "groups", groups);
        let is_service_account = match self.is_service_account {
            Some(b) => json::close(Node::Bool(b)),
            None => json::null(),
        };
        json::put(&mut pairs, "is_service_account", is_service_account);
        json::put(&mut pairs, "idp", json::string(self.idp.as_str()));
        json::put(&mut pairs, "token_use", json::string(self.token_use.as_str()));
        json::close(Node::Object(pairs))
    }
}

/// The member `key`, where there is one that is not null.
pub open spec fn present(m: Members, key: Text) -> Option<Json> {
    match m.get(key) {
        Some(Json::Null) => None,
        found => found,
    }
}

pub open spec fn string_at(m: Members, key: Text) -> Option<Text> {
    match m.get(key) {
        Some(j) => json::string_in(j),
        None => None,
    }
}

pub open spec fn number_at(m: Members, key: Text) -> Option<u64> {
    match m.get(key) {
        Some(j) => json::number_in(j),
        None => None,
    }
}

pub open spec fn strings_at(m: Members, key: Text) -> Option<Seq<Text>> {
    match m.get(key) {
        Some(j) => json::strings_in(j),
        None => None,
    }
}

fn get_string(pairs: &Vec<(String, Value)>, key: &str) -> (r: Option<String>)
    ensures
        r.deep_view() == string_at(json::members(pairs@), key@),
{
    match json::member(pairs, key) {
        Some(v) => json::read_string(v),
        None => None,
    }
}

fn get_number(pairs: &Vec<(String, Value)>, key: &str) -> (r: Option<u64>)
    ensures
        r == number_at(json::members(pairs@), key@),
{
    match json::member(pairs, key) {
        Some(v) => json::read_number(v),
        None => None,
    }
}

fn get_strings(pairs: &Vec<(String, Value)>, key: &str) -> (r: Option<Vec<String>>)
    ensures
        r.deep_view() == strings_at(json::members(pairs@), key@),
{
    match json::member(pairs, key) {
        Some(v) => json::read_strings(v),
        None => None,
    }
}

fn get_present<'a>(pairs: &'a Vec<(String, Value)>, key: &str) -> (r: Option<&'a Value>)
    ensures
        match r {
            Some(v) => present(json::members(pairs@), key@) == Some(json_of(*v)),
            None => present(json::members(pairs@), key@) is None,
        },
{
    match json::member(pairs, key) {
        Some(v) => match json::open(v) {
            Node::Null => None,
            _ => Some(v),
        },
        None => None,
    }
}

/// The claim on one resource that a value is: an object with the two members, or a
/// list of the two.
pub open spec fn resource_in(j: Json) -> Option<ResourceClaimView> {
    let (resource_id, permission) = match j {
        Json::Object(m) => (string_at(m, "resource_id"@), strings_at(m, "permission"@)),
        Json::List(list) => if list.len() == 2 {
            (json::string_in(list[0]), json::strings_in(list[1]))
        } else {
            (None, None)
        },
        _ => (None, None),
    };
    match (resource_id, permission) {
        (Some(resource_id), Some(permission)) => Some(
            ResourceClaimView { resource_id, permission },
        ),
        _ => None,
    }
}

fn read_resource(value: &Value) -> (r: Option<ResourceClaim>)
    ensures
        r.deep_view() == resource_in(json_of(*value)),
{
    let (resource_id, permission) = match json::open(value) {
        Node::Object(pairs) => (
            get_string(&pairs, "resource_id"),
            get_strings(&pairs, "permission"),
        ),
        Node::List(list) => {
            if list.len() == 2 {
                assert(json::items(list@)[0] == json_of(list@[0]));
                assert(json::items(list@)[1] == json_of(list@[1]));
                (json::read_string(&list[0]), json::read_strings(&list[1]))
            } else {
                (None, None)
            }
        },
        _ => (None, None),
    };
    match (resource_id, permission) {
        (Some(resource_id), Some(permission)) => Some(ResourceClaim { resource_id, permission }),
        _ => None,
    }
}

pub open spec fn resources_in(j: Json) -> Option<Seq<ResourceClaimView>> {
    match j {
        Json::List(list) => if forall|i: int|
            0 <= i < list.len() ==> resource_in(#[trigger] list[i]) is Some {
            Some(list.map_values(|j: Json| resource_in(j)->0))
        } else {
            None
        },
        _ => None,
    }
}

fn read_resources(value: &Value) -> (r: Option<Vec<ResourceClaim>>)
    ensures
        r.deep_view() == resources_in(json_of(*value)),
{
    let list = match json::open(value) {
        Node::List(list) => list,
        _ => {
            return None;
        },
    };
    let ghost all = json::items(list@);
    let ghost wanted = all.map_values(|j: Json| resource_in(j)->0);
    let mut out: Vec<ResourceClaim> = Vec::new();
    let mut i: usize = 0;
    assert(out.deep_view() =~= wanted.take(0));
    while i < list.len()
        invariant
            i <= list@.len(),
            all == json::items(list@),
            json_of(*value) == Json::List(all),
            wanted == all.map_values(|j: Json| resource_in(j)->0),
            out.deep_view() == wanted.take(i as int),
            forall|k: int| 0 <= k < i ==> resource_in(#[trigger] all[k]) is Some,
        decreases list@.len() - i,
    {
        assert(all[i as int] == json_of(list@[i as int]));
        match read_resource(&list[i]) {
            Some(claim) => {
                let ghost before = out.deep_view();
                out.push(claim);
                assert(out.deep_view() =~= before.push(claim@));
                assert(wanted.take(i + 1) =~= wanted.take(i as int).push(wanted[i as int]));
            },
            None => {
                assert(resource_in(all[i as int]) is None);
                return None;
            },
        }
        i = i + 1;
    }
    assert(wanted.take(i as int) =~= wanted);
    Some(out)
}

/// An optional member: `None` where it cannot be read, `Some(None)` where it is not
/// there.
pub open spec fn resources_at(m: Members) -> Option<Option<Seq<ResourceClaimView>>> {
    match present(m, "resources"@) {
        None => Some(None),
        Some(j) => match resources_in(j) {
            Some(list) => Some(Some(list)),
            None => None,
        },
    }
}

pub open spec fn groups_at(m: Members) -> Option<Option<Seq<Text>>> {
    match present(m, "groups"@) {
        None => Some(None),
        Some(j) => match json::strings_in(j) {
            Some(list) => Some(Some(list)),
            None => None,
        },
    }
}

pub open spec fn service_account_at(m: Members) -> Option<Option<bool>> {
    match present(m, "is_service_account"@) {
        None => Some(None),
        Some(j) => match json::bool_in(j) {
            Some(b) => Some(Some(b)),
            None => None,
        },
    }
}

/// Whether an object holds every claim, each of its type.
pub open spec fn holds_claims(m: Members) -> bool {
    &&& string_at(m, "sub"@) is Some
    &&& string_at(m, "iss"@) is Some
    &&& number_at(m, "iat"@) is Some
    &&& number_at(m, "exp"@) is Some
    &&& strings_at(m, "aud"@) is Some
    &&& string_at(m, "env"@) is Some
    &&& string_at(m, "name"@) is Some
    &&& string_at(m, "preferred_username"@) is Some
    &&& resources_at(m) is Some
    &&& groups_at(m) is Some
    &&& service_account_at(m) is Some
    &&& string_at(m, "idp"@) is Some
    &&& string_at(m, "token_use"@) is Some
}

/// The claims that a value holds. Members that are not claims do not count, and the
/// last three kinds of claim may be missing or null.
pub open spec fn claims_in(j: Json) -> Option<ClaimsView> {
    match j {
        Json::Object(m) => if holds_claims(m) {
            Some(
                ClaimsView {
                    user_id: string_at(m, "sub"@)->0,
                    issuer: string_at(m, "iss"@)->0,
                    issued_at: number_at(m, "iat"@)->0,
                    expires: number_at(m, "exp"@)->0,
                    audience: strings_at(m, "aud"@)->0,
                    env: string_at(m, "env"@)->0,
                    name: string_at(m, "name"@)->0,
                    preferred_username: string_at(m, "preferred_username"@)->0,
                    resources: resources_at(m)->0,
                    groups: groups_at(m)->0,
                    is_service_account: service_account_at(m)->0,
                    idp: string_at(m, "idp"@)->0,
                    token_use: string_at(m, "token_use"@)->0,
                },
            )
        } else {
            None
        },
        _ => None,
    }
}

impl Claims {
    pub fn from_json(value: &Value) -> (r: Option<Claims>)
        ensures
            r.deep_view() == claims_in(json_of(*value)),
    {
        let pairs = match json::open(value) {
            Node::Object(pairs) => pairs,
            _ => {
                return None;
            },
        };
        let resources = match get_present(&pairs, "resources") {
            Some(v) => match read_resources(v) {
                Some(list) => Some(list),
                None => {
                    return None;
                },
            },
            None => None,
        };
        let groups = match get_present(&pairs, "groups") {
            Some(v) => match json::read_strings(v) {
                Some(list) => Some(list),
                None => {
                    return None;
                },
            },
            None => None,
        };
        let is_service_account = match get_present(&pairs, "is_service_account") {
            Some(v) => match json::read_bool(v) {
                Some(b) => Some(b),
                None => {
                    return None;
                },
            },
            None => None,
        };
        let user_id = get_string(&pairs, "sub");
        let issuer = get_string(&pairs, "iss");
        let issued_at = get_number(&pairs, "iat");
        let expires = get_number(&pairs, "exp");
        let audience = get_strings(&pairs, "aud");
        let env = get_string(&pairs, "env");
        let name = get_string(&pairs, "name");
        let preferred_username = get_string(&pairs, "preferred_username");
        let idp = get_string(&pairs, "idp");
        let token_use = get_string(&pairs, "token_use");
        if user_id.is_none() || issuer.is_none() || issued_at.is_none() || expires.is_none()
            || audience.is_none() || env.is_none() || name.is_none()
            || preferred_username.is_none() || idp.is_none() || token_use.is_none() {
            return None;
        }
        Some(
            Claims {
                user_id: user_id.unwrap(),
                issuer: issuer.unwrap(),
                issued_at: issued_at.unwrap(),
                expires: expires.unwrap(),
                audience: audience.unwrap(),
                env: env.unwrap(),
                name: name.unwrap(),
                preferred_username: preferred_username.unwrap(),
                resources,
                groups,
                is_service_account,
                idp: idp.unwrap(),
                token_use: token_use.unwrap(),
            },
        )
    }
}


/// Writing claims and reading them back gives the claims.
pub proof fn claims_round_trip(c: ClaimsView)
    ensures
        claims_in(claims_json(c)) == Some(c),
{
    reveal_strlit("sub");
    reveal_strlit("iss");
    reveal_strlit("iat");
    reveal_strlit("exp");
    reveal_strlit("aud");
    reveal_strlit("env");
    reveal_strlit("name");
    reveal_strlit("preferred_username");
    reveal_strlit("resources");
    reveal_strlit("groups");
    reveal_strlit("is_service_account");
    reveal_strlit("idp");
    reveal_strlit("token_use");
    assert("sub"@.len() == 3 && "sub"@[0] == 's' && "sub"@[1] == 'u');
    assert("iss"@.len() == 3 && "iss"@[0] == 'i' && "iss"@[1] == 's');
    assert("iat"@.len() == 3 && "iat"@[0] == 'i' && "iat"@[1] == 'a');
    assert("exp"@.len() == 3 && "exp"@[0] == 'e' && "exp"@[1] == 'x');
    assert("aud"@.len() == 3 && "aud"@[0] == 'a' && "aud"@[1] == 'u');
    assert("env"@.len() == 3 && "env"@[0] == 'e' && "env"@[1] == 'n');
    assert("name"@.len() == 4 && "name"@[0] == 'n' && "name"@[1] == 'a');
    assert("preferred_username"@.len() == 18 && "preferred_username"@[0] == 'p' && "preferred_username"@[1] == 'r');
    assert("resources"@.len() == 9 && "resources"@[0] == 'r' && "resources"@[1] == 'e');
    assert("groups"@.len() == 6 && "groups"@[0] == 'g' && "groups"@[1] == 'r');
    assert("is_service_account"@.len() == 18 && "is_service_account"@[0] == 'i' && "is_service_account"@[1] == 's');
    assert("idp"@.len() == 3 && "idp"@[0] == 'i' && "idp"@[1] == 'd');
    assert("token_use"@.len() == 9 && "token_use"@[0] == 't' && "token_use"@[1] == 'o');
    json::strings_round_trip(c.audience);
    if c.groups is Some {
        json::strings_round_trip(c.groups->0);
    }
    if c.resources is Some {
        let list = c.resources->0;
        let written = list.map_values(|r: ResourceClaimView| resource_json(r));
        assert forall|i: int| 0 <= i < list.len() implies resource_in(#[trigger] written[i]) == Some(
            list[i],
        ) by {
            resource_round_trip(list[i]);
        }
        assert(written.map_values(|j: Json| resource_in(j)->0) =~= list);
    }
    broadcast use json::inserted_members_are_found;

    let m = claims_json(c)->Object_0;
    assert(m.get("token_use"@) == Some(Json::Str(c.token_use)));
    assert(m.get("idp"@) == Some(Json::Str(c.idp)));
    assert(m.get("preferred_username"@) == Some(Json::Str(c.preferred_username)));
    assert(m.get("name"@) == Some(Json::Str(c.name)));
    assert(m.get("env"@) == Some(Json::Str(c.env)));
    assert(m.get("exp"@) == Some(Json::Number(c.expires)));
    assert(m.get("iat"@) == Some(Json::Number(c.issued_at)));
    assert(m.get("iss"@) == Some(Json::Str(c.issuer)));
    assert(m.get("sub"@) == Some(Json::Str(c.user_id)));
}

proof fn resource_round_trip(r: ResourceClaimView)
    ensures
        resource_in(resource_json(r)) == Some(r),
{
    reveal_strlit("resource_id");
    reveal_strlit("permission");
    assert("resource_id"@.len() == 11 && "permission"@.len() == 10);
    json::strings_round_trip(r.permission);
    broadcast use json::inserted_members_are_found;

    let m = resource_json(r)->Object_0;
    assert(m.get("resource_id"@) == Some(Json::Str(r.resource_id)));
}

// ---------------------------------------------------------------------------
// Keys
// ---------------------------------------------------------------------------

/// Why a key cannot be used, or a token not be made or read.
#[derive(Debug)]
pub struct TokenError {
    pub message: String,
}

impl View for TokenError {
    type V = Text;

    open spec fn view(&self) -> Text {
        self.message@
    }
}

fn failure(message: &str) -> (e: TokenError)
    ensures
        e@ == message@,
{
    TokenError { message: message.to_owned() }
}

/// The parts of a public key: its PEM text, its DER bytes, and modulus and exponent
/// with the high byte first.
pub struct PublicKey {
    pub pem: String,
    pub der: Vec<u8>,
    pub modulus: Vec<u8>,
    pub exponent: Vec<u8>,
}

#[verifier::ext_equal]
pub struct PublicKeyView {
    pub pem: Text,
    pub der: Seq<u8>,
    pub modulus: Seq<u8>,
    pub exponent: Seq<u8>,
}

impl View for PublicKey {
    type V = PublicKeyView;

    open spec fn view(&self) -> PublicKeyView {
        PublicKeyView {
            pem: self.pem@,
            der: self.der@,
            modulus: self.modulus@,
            exponent: self.exponent@,
        }
    }
}

/// The PKCS#8 PEM text with which `rsa` writes the private key that it reads in a PEM
/// text, or the text of its error.
pub uninterp spec fn rsa_private_key(pem: Text) -> Result<Text, Text>;

/// The parts of the public key that belongs to a private key in PKCS#8 PEM, as `rsa`
/// gives them, or the text of its error.
pub uninterp spec fn rsa_public_key(private_pem: Text) -> Result<PublicKeyView, Text>;

/// The BLAKE3 hash of some bytes, in hexadecimal.
pub uninterp spec fn blake3_hex(bytes: Seq<u8>) -> Text;

/// Whether `EncodingKey::from_rsa_pem` takes a PEM text, or the text of its error.
pub uninterp spec fn signing_key(pem: Text) -> Result<(), Text>;

/// Whether `DecodingKey::from_rsa_pem` takes a PEM text, or the text of its error.
pub uninterp spec fn verifying_key(pem: Text) -> Result<(), Text>;

/// The token that `jsonwebtoken::encode` signs by RS256 with a private key in PEM, for
/// a key identifier in the header and the claims, or the text of its error.
pub uninterp spec fn rs256_token(kid: Text, claims: Json, private_pem: Text) -> Result<Text, Text>;

/// The algorithm that `jsonwebtoken::decode_header` finds in the header of a token.
pub uninterp spec fn header_algorithm(token: Text) -> Option<Text>;

/// The payload that `jsonwebtoken::decode` gives of a token, for RS256 with a public key
/// in PEM and, where there is one, an issuer and an audience, and without regard to the
/// expiry; or the text of its error.
pub uninterp spec fn decoded_payload(
    token: Text,
    public_pem: Text,
    names: Option<(Text, Text)>,
) -> Result<Json, Text>;

/// Reads a private key with `RsaPrivateKey::from_pkcs8_pem` and writes it with
/// `to_pkcs8_pem`. Reading what was written and writing it again gives the same text.
#[verifier::external_body]
fn private_key(pem: &str) -> (r: Result<String, String>)
    ensures
        match r {
            Ok(s) => rsa_private_key(pem@) == Ok::<Text, Text>(s@) && rsa_private_key(s@) == Ok::<
                Text,
                Text,
            >(s@),
            Err(e) => rsa_private_key(pem@) == Err::<Text, Text>(e@),
        },
{
    let key = RsaPrivateKey::from_pkcs8_pem(pem).map_err(|e| e.to_string())?;
    let pem = key.to_pkcs8_pem(LineEnding::LF).map_err(|e| e.to_string())?;
    Ok(pem.to_string())
}

/// The bits of a new key.
pub const KEY_BITS: usize = 3072;

/// Calls `RsaPrivateKey::new` for a key of so many bits with the random numbers of the
/// operating system, and writes the key with `to_pkcs8_pem`. Which key comes is left
/// open; reading it and writing it again gives the same text, and its modulus has so many
/// bits.
#[verifier::external_body]
fn fresh_private_key(bits: usize) -> (r: Result<String, String>)
    requires
        2048 <= bits <= 4096,
    ensures
        match r {
            Ok(s) => rsa_private_key(s@) == Ok::<Text, Text>(s@) && (rsa_public_key(s@) matches Ok(
                k,
            ) ==> k.modulus.len() == (bits + 7) / 8),
            Err(_) => true,
        },
{
    let key = RsaPrivateKey::new(&mut OsRng, bits).map_err(|e| e.to_string())?;
    let pem = key.to_pkcs8_pem(LineEnding::LF).map_err(|e| e.to_string())?;
    Ok(pem.to_string())
}

/// Calls `RsaPublicKey::from` on the private key in a PEM text, and takes the parts of
/// the public key.
#[verifier::external_body]
fn public_key(private_pem: &str) -> (r: Result<PublicKey, String>)
    ensures
        match r {
            Ok(k) => rsa_public_key(private_pem@) == Ok::<PublicKeyView, Text>(k@),
            Err(e) => rsa_public_key(private_pem@) == Err::<PublicKeyView, Text>(e@),
        },
{
    let private = RsaPrivateKey::from_pkcs8_pem(private_pem).map_err(|e| e.to_string())?;
    let public = RsaPublicKey::from(&private);
    let pem = public.to_public_key_pem(LineEnding::LF).map_err(|e| e.to_string())?;
    let der = public.to_public_key_der().map_err(|e| e.to_string())?.as_bytes().to_vec();
    let (modulus, exponent) = (public.n().to_bytes_be(), public.e().to_bytes_be());
    Ok(PublicKey { pem, der, modulus, exponent })
}

/// Calls `blake3::hash` and writes the hash with `to_hex`, which gives 64 small
/// hexadecimal digits.
#[verifier::external_body]
fn hash_hex(bytes: &Vec<u8>) -> (r: String)
    ensures
        r@ == blake3_hex(bytes@),
        r@.len() == 64,
        forall|i: int| 0 <= i < r@.len() ==> ids::is_lower_hex(#[trigger] r@[i]),
{
    blake3::hash(bytes).to_hex().to_string()
}

/// The character of the base64 alphabet for URLs that stands for a number below 64.
pub open spec fn base64_digit(n: int) -> char {
    if n < 26 {
        (0x41 + n) as char
    } else if n < 52 {
        (0x61 + n - 26) as char
    } else if n < 62 {
        (0x30 + n - 52) as char
    } else if n == 62 {
        '-'
    } else {
        '_'
    }
}

/// Base64 for URLs, without padding: three bytes are four digits.
pub open spec fn base64url(b: Seq<u8>) -> Text
    decreases b.len(),
{
    if b.len() == 0 {
        Seq::empty()
    } else if b.len() == 1 {
        seq![base64_digit(b[0] as int / 4), base64_digit(b[0] as int % 4 * 16)]
    } else if b.len() == 2 {
        seq![
            base64_digit(b[0] as int / 4),
            base64_digit(b[0] as int % 4 * 16 + b[1] as int / 16),
            base64_digit(b[1] as int % 16 * 4),
        ]
    } else {
        seq![
            base64_digit(b[0] as int / 4),
            base64_digit(b[0] as int % 4 * 16 + b[1] as int / 16),
            base64_digit(b[1] as int % 16 * 4 + b[2] as int / 64),
            base64_digit(b[2] as int % 64),
        ] + base64url(b.skip(3))
    }
}

/// Calls `encode` of `base64`'s engine `URL_SAFE_NO_PAD`.
#[verifier::external_body]
fn encode_base64url(bytes: &Vec<u8>) -> (r: String)
    ensures
        r@ == base64url(bytes@),
{
    URL_SAFE_NO_PAD.encode(bytes)
}

/// Whether a public key belongs to a private key, which is written as `rsa` writes it.
pub open spec fn key_pair(private_pem: Text, public_pem: Text) -> bool {
    &&& rsa_private_key(private_pem) == (Ok::<Text, Text>(private_pem))
    &&& rsa_public_key(private_pem) matches Ok(k) && k.pem == public_pem
}

/// Calls `EncodingKey::from_rsa_pem` on a key that `rsa` has written, for its error only.
#[verifier::external_body]
fn check_signing_key(pem: &str) -> (r: Result<(), String>)
    requires
        rsa_private_key(pem@) == (Ok::<Text, Text>(pem@)),
    ensures
        match r {
            Ok(_) => signing_key(pem@) == Ok::<(), Text>(()),
            Err(e) => signing_key(pem@) == Err::<(), Text>(e@),
        },
{
    EncodingKey::from_rsa_pem(pem.as_bytes()).map(|_| ()).map_err(|e| e.to_string())
}

/// Calls `DecodingKey::from_rsa_pem` on a key that `rsa` has written, for its error only.
#[verifier::external_body]
fn check_verifying_key(pem: &str) -> (r: Result<(), String>)
    requires
        exists|private_pem: Text| #[trigger] key_pair(private_pem, pem@),
    ensures
        match r {
            Ok(_) => verifying_key(pem@) == Ok::<(), Text>(()),
            Err(e) => verifying_key(pem@) == Err::<(), Text>(e@),
        },
{
    DecodingKey::from_rsa_pem(pem.as_bytes()).map(|_| ()).map_err(|e| e.to_string())
}

/// Calls `jsonwebtoken::encode` for RS256, with the key identifier in the header, which
/// names that algorithm. The token has three parts.
#[verifier::external_body]
fn sign(kid: &str, claims: &Value, private_pem: &str) -> (r: Result<String, String>)
    requires
        rsa_private_key(private_pem@) == (Ok::<Text, Text>(private_pem@)),
    ensures
        match r {
            Ok(t) => rs256_token(kid@, json_of(*claims), private_pem@) == Ok::<Text, Text>(t@),
            Err(e) => rs256_token(kid@, json_of(*claims), private_pem@) == Err::<Text, Text>(e@),
        },
        r matches Ok(t) ==> header_algorithm(t@) == Some("RS256"@) && text::pieces(
            t@,
            '.',
        ).len() == 3,
{
    let key = EncodingKey::from_rsa_pem(private_pem.as_bytes()).map_err(|e| e.to_string())?;
    let mut header = Header::new(Algorithm::RS256);
    header.kid = Some(kid.to_string());
    encode(&header, claims, &key).map_err(|e| e.to_string())
}

/// Whether claims are of this issuer and for this audience.
pub open spec fn addressed(c: ClaimsView, issuer: Text, audience: Text) -> bool {
    c.issuer == issuer && c.audience.contains(audience)
}

/// Whether claims have not been expired for more than a minute at the time `now`.
pub open spec fn unexpired(c: ClaimsView, now: u64) -> bool {
    now <= c.expires + 60
}

/// Whether a token has three parts and a header that names RS256.
pub open spec fn has_token_form(token: Text) -> bool {
    text::pieces(token, '.').len() == 3 && header_algorithm(token) == Some("RS256"@)
}

/// Whether two tokens of three parts have the same middle part, which is the payload.
pub open spec fn same_payload(a: Text, b: Text) -> bool {
    &&& text::pieces(a, '.').len() == 3
    &&& text::pieces(b, '.').len() == 3
    &&& text::pieces(a, '.')[1] == text::pieces(b, '.')[1]
}

/// What comes of claims that were signed with the key that belongs to the public key.
pub open spec fn read_claims(c: ClaimsView, names: Option<(Text, Text)>) -> Result<Json, Text> {
    match names {
        Some((issuer, audience)) => if c.issuer != issuer {
            Err("InvalidIssuer"@)
        } else if !c.audience.contains(audience) {
            Err("InvalidAudience"@)
        } else {
            Ok(claims_json(c))
        },
        None => Ok(claims_json(c)),
    }
}

/// What holds of the payload that is read of a token.
/// - The token has three parts, and its header names the algorithm.
/// - Where the issuer and the audience are asked for, the payload is the same as without,
///   and claims in it are of the issuer and for the audience.
/// - With the payload part of a token that was signed, nothing but its claims is read.
/// - A token that was signed is read with the key that belongs to the private key.
pub open spec fn reads(
    token: Text,
    public_pem: Text,
    names: Option<(Text, Text)>,
    read: Result<Json, Text>,
) -> bool {
    &&& text::pieces(token, '.').len() < 3 ==> read == (Err::<Json, Text>("InvalidToken"@))
    &&& read is Ok ==> has_token_form(token)
    &&& read is Ok ==> decoded_payload(token, public_pem, None) == read
    &&& read matches Ok(j) ==> (names matches Some((issuer, audience)) ==> (claims_in(
        j,
    ) matches Some(c) ==> addressed(c, issuer, audience)))
    &&& forall|kid: Text, c: ClaimsView, private_pem: Text|
        (#[trigger] rs256_token(kid, claims_json(c), private_pem)) matches Ok(signed) ==> {
            &&& same_payload(signed, token) ==> (read matches Ok(j) ==> j == claims_json(c))
            &&& signed == token && key_pair(private_pem, public_pem) ==> read == read_claims(
                c,
                names,
            )
        }
}

/// What was read, over views.
pub open spec fn held(r: Result<Value, String>) -> Result<Json, Text> {
    match r {
        Ok(v) => Ok(json_of(v)),
        Err(e) => Err(e@),
    }
}

pub open spec fn viewed(names: Option<(&str, &str)>) -> Option<(Text, Text)> {
    match names {
        Some((issuer, audience)) => Some((issuer@, audience@)),
        None => None,
    }
}

/// Calls `jsonwebtoken::decode` for RS256 with the public key, and without a look at the
/// clock. It checks the header and the signature, then that there is an expiry, then the
/// issuer and the audience where they are given. What comes is the payload: the part of
/// the token that was signed, as JSON. Of two members with the same name that are none of
/// the registered ones, the latter counts. That a token with another signature is refused
/// is left unsaid.
#[verifier::external_body]
fn read_token(token: &str, public_pem: &str, names: Option<(&str, &str)>) -> (r: Result<
    Value,
    String,
>)
    requires
        exists|private_pem: Text| #[trigger] key_pair(private_pem, public_pem@),
        verifying_key(public_pem@) is Ok,
    ensures
        held(r) == decoded_payload(token@, public_pem@, viewed(names)),
        reads(token@, public_pem@, viewed(names), held(r)),
{
    let key = DecodingKey::from_rsa_pem(public_pem.as_bytes()).map_err(|e| e.to_string())?;
    let mut validation = Validation::new(Algorithm::RS256);
    validation.validate_exp = false;
    validation.validate_aud = names.is_some();
    validation.iss = names.map(|(issuer, _)| HashSet::from([issuer.to_string()]));
    validation.aud = names.map(|(_, audience)| HashSet::from([audience.to_string()]));
    decode::<Value>(token, &key, &validation).map(|data| data.claims).map_err(|e| e.to_string())
}

// ---------------------------------------------------------------------------
// The issuer
// ---------------------------------------------------------------------------

pub struct TokenIssuer {
    private_pem: String,
    public_pem: String,
    kid: String,
    modulus: String,
    exponent: String,
    issuer: String,
    audience: String,
    environment: String,
    ttl_seconds: u64,
}

#[verifier::ext_equal]
pub struct TokenIssuerView {
    pub private_pem: Text,
    pub public_pem: Text,
    pub kid: Text,
    pub modulus: Text,
    pub exponent: Text,
    pub issuer: Text,
    pub audience: Text,
    pub environment: Text,
    pub ttl_seconds: u64,
}

impl View for TokenIssuer {
    type V = TokenIssuerView;

    closed spec fn view(&self) -> TokenIssuerView {
        TokenIssuerView {
            private_pem: self.private_pem@,
            public_pem: self.public_pem@,
            kid: self.kid@,
            modulus: self.modulus@,
            exponent: self.exponent@,
            issuer: self.issuer@,
            audience: self.audience@,
            environment: self.environment@,
            ttl_seconds: self.ttl_seconds,
        }
    }
}

impl Clone for TokenIssuer {
    fn clone(&self) -> (r: Self)
        ensures
            r@ == self@,
    {
        proof {
            use_type_invariant(self);
        }
        TokenIssuer {
            private_pem: self.private_pem.clone(),
            public_pem: self.public_pem.clone(),
            kid: self.kid.clone(),
            modulus: self.modulus.clone(),
            exponent: self.exponent.clone(),
            issuer: self.issuer.clone(),
            audience: self.audience.clone(),
            environment: self.environment.clone(),
            ttl_seconds: self.ttl_seconds,
        }
    }
}

/// A key identifier: 16 small hexadecimal digits.
pub open spec fn is_kid(s: Text) -> bool {
    s.len() == 16 && forall|i: int| 0 <= i < s.len() ==> ids::is_lower_hex(#[trigger] s[i])
}

/// The issuer with a private key in PEM, or why the key cannot be used. The key
/// identifier is the beginning of the hash of the public key.
pub open spec fn issuer_with_key(
    pem: Text,
    issuer: Text,
    audience: Text,
    environment: Text,
    ttl_seconds: u64,
) -> Result<TokenIssuerView, Text> {
    match rsa_private_key(pem) {
        Err(_) => Err("parsing RSA private key"@),
        Ok(private_pem) => match rsa_public_key(private_pem) {
            Err(e) => Err(e),
            Ok(key) => match (signing_key(private_pem), verifying_key(key.pem)) {
                (Err(e), _) => Err(e),
                (Ok(_), Err(e)) => Err(e),
                (Ok(_), Ok(_)) => Ok(
                    TokenIssuerView {
                        private_pem,
                        public_pem: key.pem,
                        kid: blake3_hex(key.der).take(16),
                        modulus: base64url(key.modulus),
                        exponent: base64url(key.exponent),
                        issuer,
                        audience,
                        environment,
                        ttl_seconds,
                    },
                ),
            },
        },
    }
}

/// The time at which a token issued now expires.
pub open spec fn expiry(now: u64, ttl_seconds: u64) -> u64 {
    if now + ttl_seconds > u64::MAX {
        u64::MAX
    } else {
        (now + ttl_seconds) as u64
    }
}

/// The claims of a token for a user.
pub open spec fn claims_for(
    t: TokenIssuerView,
    user: UserView,
    resources: Option<Seq<ResourceClaimView>>,
    token_use: Text,
    now: u64,
) -> ClaimsView {
    ClaimsView {
        user_id: user.id,
        issuer: t.issuer,
        issued_at: now,
        expires: expiry(now, t.ttl_seconds),
        audience: seq![t.audience],
        env: t.environment,
        name: user.display_name,
        preferred_username: user.username,
        resources,
        groups: if user.is_admin {
            Some(seq!["admin"@])
        } else {
            None
        },
        is_service_account: Some(false),
        idp: "lore-auth"@,
        token_use,
    }
}

/// The token for a user and the time at which it expires, or why it cannot be signed.
pub open spec fn issued(
    t: TokenIssuerView,
    user: UserView,
    resources: Option<Seq<ResourceClaimView>>,
    token_use: Text,
    now: u64,
) -> Result<(Text, u64), Text> {
    let claims = claims_for(t, user, resources, token_use, now);
    match rs256_token(t.kid, claims_json(claims), t.private_pem) {
        Ok(token) => Ok((token, claims.expires)),
        Err(e) => Err(e),
    }
}

/// The outcome of an operation over views.
pub open spec fn token_outcome<T: DeepView>(r: Result<T, TokenError>) -> Result<T::V, Text> {
    match r {
        Ok(t) => Ok(t.deep_view()),
        Err(e) => Err(e@),
    }
}

pub open spec fn key_json(t: TokenIssuerView) -> Json {
    Json::Object(
        Members::empty().insert("alg"@, Json::Str("RS256"@)).insert(
            "e"@,
            Json::Str(t.exponent),
        ).insert("kid"@, Json::Str(t.kid)).insert("kty"@, Json::Str("RSA"@)).insert(
            "n"@,
            Json::Str(t.modulus),
        ).insert("use"@, Json::Str("sig"@)),
    )
}

/// The JSON Web Key Set with the public key.
pub open spec fn jwks_json(t: TokenIssuerView) -> Json {
    Json::Object(Members::empty().insert("keys"@, Json::List(seq![key_json(t)])))
}

/// The claims of a token at the time `now`, or why it is refused: the payload cannot be
/// read, does not hold the claims, has expired, or is not of the issuer and for the
/// audience.
pub open spec fn verified_claims(t: TokenIssuerView, token: Text, now: u64) -> Result<
    ClaimsView,
    Text,
> {
    match decoded_payload(token, t.public_pem, None) {
        Err(e) => Err(e),
        Ok(j) => match claims_in(j) {
            None => Err("JSON error: invalid claims"@),
            Some(c) => if !unexpired(c, now) {
                Err("ExpiredSignature"@)
            } else {
                match decoded_payload(token, t.public_pem, Some((t.issuer, t.audience))) {
                    Err(e) => Err(e),
                    Ok(_) => Ok(c),
                }
            },
        },
    }
}

/// Whether `r` is what comes of a token at the time `now`, with what holds of its payload.
pub open spec fn verified_at(
    t: TokenIssuerView,
    token: Text,
    now: u64,
    r: Result<ClaimsView, Text>,
) -> bool {
    let names = Some((t.issuer, t.audience));
    &&& r == verified_claims(t, token, now)
    &&& key_pair(t.private_pem, t.public_pem)
    &&& reads(token, t.public_pem, None, decoded_payload(token, t.public_pem, None))
    &&& reads(token, t.public_pem, names, decoded_payload(token, t.public_pem, names))
}

/// The claims, where there are any.
pub open spec fn claims_found(r: Result<ClaimsView, Text>) -> Option<ClaimsView> {
    match r {
        Ok(c) => Some(c),
        Err(_) => None,
    }
}

impl TokenIssuer {
    /// The public key belongs to the private key and can be used, and the key identifier
    /// is one.
    #[verifier::type_invariant]
    spec fn keys_match(&self) -> bool {
        &&& key_pair(self.private_pem@, self.public_pem@)
        &&& verifying_key(self.public_pem@) is Ok
        &&& is_kid(self.kid@)
    }

    /// The issuer with a private key in PEM.
    pub fn with_private_key(
        pem: &str,
        issuer: String,
        audience: String,
        environment: String,
        ttl_seconds: u64,
    ) -> (r: Result<TokenIssuer, TokenError>)
        ensures
            match r {
                Ok(t) => issuer_with_key(pem@, issuer@, audience@, environment@, ttl_seconds)
                    == Ok::<TokenIssuerView, Text>(t@),
                Err(e) => issuer_with_key(pem@, issuer@, audience@, environment@, ttl_seconds)
                    == Err::<TokenIssuerView, Text>(e@),
            },
            r matches Ok(t) ==> key_pair(t@.private_pem, t@.public_pem) && is_kid(t@.kid),
    {
        let private_pem = match private_key(pem) {
            Ok(pem) => pem,
            Err(_) => {
                return Err(failure("parsing RSA private key"));
            },
        };
        let key = match public_key(private_pem.as_str()) {
            Ok(key) => key,
            Err(message) => {
                return Err(TokenError { message });
            },
        };
        let digits = text::chars_of(hash_hex(&key.der).as_str());
        let kid = text::text_of(&digits, 0, 16);
        assert(digits@.subrange(0, 16) =~= digits@.take(16));
        let modulus = encode_base64url(&key.modulus);
        let exponent = encode_base64url(&key.exponent);
        match check_signing_key(private_pem.as_str()) {
            Ok(_) => {},
            Err(message) => {
                return Err(TokenError { message });
            },
        }
        assert(key_pair(private_pem@, key.pem@));
        match check_verifying_key(key.pem.as_str()) {
            Ok(_) => {},
            Err(message) => {
                return Err(TokenError { message });
            },
        }
        Ok(
            TokenIssuer {
                private_pem,
                public_pem: key.pem,
                kid,
                modulus,
                exponent,
                issuer,
                audience,
                environment,
                ttl_seconds,
            },
        )
    }

    /// The issuer with the stored private key, or with a new one. A new key comes with
    /// the issuer, in PEM, to be stored.
    pub fn load_or_create(
        stored: Option<&str>,
        issuer: String,
        audience: String,
        environment: String,
        ttl_seconds: u64,
    ) -> (r: Result<(TokenIssuer, Option<String>), TokenError>)
        ensures
            match stored {
                Some(pem) => match r {
                    Ok((t, new)) => new is None && issuer_with_key(
                        pem@,
                        issuer@,
                        audience@,
                        environment@,
                        ttl_seconds,
                    ) == Ok::<TokenIssuerView, Text>(t@),
                    Err(e) => issuer_with_key(pem@, issuer@, audience@, environment@, ttl_seconds)
                        == Err::<TokenIssuerView, Text>(e@),
                },
                None => match r {
                    Ok((t, new)) => new is Some && issuer_with_key(
                        new->0@,
                        issuer@,
                        audience@,
                        environment@,
                        ttl_seconds,
                    ) == Ok::<TokenIssuerView, Text>(t@) && t@.private_pem == new->0@
                        && rsa_public_key(new->0@)->Ok_0.modulus.len() == KEY_BITS / 8,
                    Err(_) => true,
                },
            },
            r matches Ok((t, _)) ==> key_pair(t@.private_pem, t@.public_pem) && is_kid(t@.kid),
    {
        match stored {
            Some(pem) => match Self::with_private_key(
                pem,
                issuer,
                audience,
                environment,
                ttl_seconds,
            ) {
                Ok(t) => Ok((t, None)),
                Err(e) => Err(e),
            },
            None => match fresh_private_key(KEY_BITS) {
                Ok(pem) => match Self::with_private_key(
                    pem.as_str(),
                    issuer,
                    audience,
                    environment,
                    ttl_seconds,
                ) {
                    Ok(t) => Ok((t, Some(pem))),
                    Err(e) => Err(e),
                },
                Err(message) => Err(TokenError { message }),
            },
        }
    }

    /// A token for a user, issued at the time `now`.
    pub fn issue_at(
        &self,
        user: &User,
        resources: Option<Vec<ResourceClaim>>,
        token_use: &str,
        now: u64,
    ) -> (r: Result<(String, u64), TokenError>)
        ensures
            token_outcome(r) == issued(self@, user@, resources.deep_view(), token_use@, now),
            r matches Ok((token, _)) ==> has_token_form(token@),
    {
        proof {
            use_type_invariant(self);
        }
        let expires = now.saturating_add(self.ttl_seconds);
        let mut audience: Vec<String> = Vec::new();
        audience.push(self.audience.clone());
        let groups = if user.is_admin {
            let mut groups: Vec<String> = Vec::new();
            groups.push("admin".to_owned());
            assert(groups.deep_view() =~= seq!["admin"@]);
            Some(groups)
        } else {
            None
        };
        assert(audience.deep_view() =~= seq![self@.audience]);
        let claims = Claims {
            user_id: user.id.clone(),
            issuer: self.issuer.clone(),
            issued_at: now,
            expires,
            audience,
            env: self.environment.clone(),
            name: user.display_name.clone(),
            preferred_username: user.username.clone(),
            resources,
            groups,
            is_service_account: Some(false),
            idp: "lore-auth".to_owned(),
            token_use: token_use.to_owned(),
        };
        assert(claims@ == claims_for(self@, user@, resources.deep_view(), token_use@, now));
        let value = claims.to_json();
        match sign(self.kid.as_str(), &value, self.private_pem.as_str()) {
            Ok(token) => Ok((token, expires)),
            Err(message) => Err(TokenError { message }),
        }
    }

    /// A token for a user, issued at the present time.
    fn issue(&self, user: &User, resources: Option<Vec<ResourceClaim>>, token_use: &str) -> (r:
        Result<(String, u64), TokenError>)
        ensures
            exists|now: u64|
                now <= clock::CLOCK_LIMIT && token_outcome(r) == #[trigger] issued(
                    self@,
                    user@,
                    resources.deep_view(),
                    token_use@,
                    now,
                ),
            r matches Ok((token, _)) ==> has_token_form(token@),
    {
        let now = clock::now() as u64;
        self.issue_at(user, resources, token_use, now)
    }

    /// A token that says who the user is.
    pub fn issue_authentication(&self, user: &User) -> (r: Result<(String, u64), TokenError>)
        ensures
            exists|now: u64|
                now <= clock::CLOCK_LIMIT && token_outcome(r) == #[trigger] issued(
                    self@,
                    user@,
                    None,
                    "authentication"@,
                    now,
                ),
            r matches Ok((token, _)) ==> has_token_form(token@),
    {
        self.issue(user, None, "authentication")
    }

    /// A token that says what the user may do with some resources.
    pub fn issue_authorization(&self, user: &User, resources: Vec<ResourceClaim>) -> (r: Result<
        (String, u64),
        TokenError,
    >)
        ensures
            exists|now: u64|
                now <= clock::CLOCK_LIMIT && token_outcome(r) == #[trigger] issued(
                    self@,
                    user@,
                    Some(resources.deep_view()),
                    "authorization"@,
                    now,
                ),
            r matches Ok((token, _)) ==> has_token_form(token@),
    {
        self.issue(user, Some(resources), "authorization")
    }

    /// The claims of a token at the time `now`.
    pub fn verify_at(&self, token: &str, now: u64) -> (r: Result<Claims, TokenError>)
        ensures
            verified_at(self@, token@, now, token_outcome(r)),
    {
        proof {
            use_type_invariant(self);
        }
        let names = Some((self.issuer.as_str(), self.audience.as_str()));
        // Of two faults, one of the payload itself is told.
        let (payload, refusal) = match read_token(token, self.public_pem.as_str(), names) {
            Ok(payload) => (payload, None),
            Err(refusal) => match read_token(token, self.public_pem.as_str(), None) {
                Ok(payload) => (payload, Some(refusal)),
                Err(message) => {
                    return Err(TokenError { message });
                },
            },
        };
        match Claims::from_json(&payload) {
            Some(claims) => {
                if now > 60 && now - 60 > claims.expires {
                    return Err(failure("ExpiredSignature"));
                }
                match refusal {
                    Some(message) => Err(TokenError { message }),
                    None => Ok(claims),
                }
            },
            None => Err(failure("JSON error: invalid claims")),
        }
    }

    /// The claims of a token that this issuer signed and that has not expired.
    pub fn verify(&self, token: &str) -> (r: Result<Claims, TokenError>)
        ensures
            exists|now: u64|
                now <= clock::CLOCK_LIMIT && #[trigger] verified_at(
                    self@,
                    token@,
                    now,
                    token_outcome(r),
                ),
    {
        let now = clock::now() as u64;
        self.verify_at(token, now)
    }

    /// The public key in PEM.
    pub fn public_key_pem(&self) -> (r: String)
        ensures
            r@ == self@.public_pem,
            key_pair(self@.private_pem, r@),
    {
        proof {
            use_type_invariant(self);
        }
        self.public_pem.clone()
    }

    /// The JSON Web Key Set with the public key.
    pub fn jwks(&self) -> (r: Value)
        ensures
            json_of(r) == jwks_json(self@),
            is_kid(self@.kid),
    {
        proof {
            use_type_invariant(self);
        }
        let mut key: Vec<(String, Value)> = Vec::new();
        json::put(&mut key, "alg", json::string("RS256"));
        json::put(&mut key, "e", json::string(self.exponent.as_str()));
        json::put(&mut key, "kid", json::string(self.kid.as_str()));
        json::put(&mut key, "kty", json::string("RSA"));
        json::put(&mut key, "n", json::string(self.modulus.as_str()));
        json::put(&mut key, "use", json::string("sig"));
        let mut keys: Vec<Value> = Vec::new();
        keys.push(json::close(Node::Object(key)));
        assert(json::items(keys@) =~= seq![key_json(self@)]);
        let mut set: Vec<(String, Value)> = Vec::new();
        json::put(&mut set, "keys", json::close(Node::List(keys)));
        json::close(Node::Object(set))
    }
}

/// A token that was issued reads back as its claims until a minute after it expired, and
/// then no more.
pub proof fn issued_tokens_verify(
    t: TokenIssuerView,
    user: UserView,
    resources: Option<Seq<ResourceClaimView>>,
    token_use: Text,
    issue_time: u64,
    now: u64,
    r: Result<ClaimsView, Text>,
)
    requires
        issued(t, user, resources, token_use, issue_time) is Ok,
        verified_at(t, issued(t, user, resources, token_use, issue_time)->Ok_0.0, now, r),
    ensures
        r == if now <= expiry(issue_time, t.ttl_seconds) + 60 {
            Ok::<ClaimsView, Text>(claims_for(t, user, resources, token_use, issue_time))
        } else {
            Err::<ClaimsView, Text>("ExpiredSignature"@)
        },
        decoded_payload(
            issued(t, user, resources, token_use, issue_time)->Ok_0.0,
            t.public_pem,
            None,
        ) == (Ok::<Json, Text>(
            claims_json(claims_for(t, user, resources, token_use, issue_time)),
        )),
{
    let c = claims_for(t, user, resources, token_use, issue_time);
    assert(c.audience[0] == t.audience);
    assert(c.audience.contains(t.audience));
    assert(rs256_token(t.kid, claims_json(c), t.private_pem) is Ok);
    claims_round_trip(c);
}

/// What another issuer makes of a token: if anything, then the claims that were signed,
/// which are of its own issuer name, for its own audience, and not expired. If its public
/// key belongs to the private key that signed, this is all that it asks for, and it tells
/// what is missing.
pub proof fn tokens_are_for_one_issuer_and_audience(
    a: TokenIssuerView,
    b: TokenIssuerView,
    user: UserView,
    resources: Option<Seq<ResourceClaimView>>,
    token_use: Text,
    issue_time: u64,
    now: u64,
    r: Result<ClaimsView, Text>,
)
    requires
        issued(a, user, resources, token_use, issue_time) is Ok,
        verified_at(b, issued(a, user, resources, token_use, issue_time)->Ok_0.0, now, r),
    ensures
        ({
            let claims = claims_for(a, user, resources, token_use, issue_time);
            let alive = now <= expiry(issue_time, a.ttl_seconds) + 60;
            &&& r matches Ok(c) ==> c == claims && alive && a.issuer == b.issuer && a.audience
                == b.audience
            &&& key_pair(a.private_pem, b.public_pem) ==> r == if !alive {
                Err::<ClaimsView, Text>("ExpiredSignature"@)
            } else if a.issuer != b.issuer {
                Err::<ClaimsView, Text>("InvalidIssuer"@)
            } else if a.audience != b.audience {
                Err::<ClaimsView, Text>("InvalidAudience"@)
            } else {
                Ok::<ClaimsView, Text>(claims)
            }
        }),
{
    let c = claims_for(a, user, resources, token_use, issue_time);
    assert(c.audience[0] == a.audience);
    assert(rs256_token(a.kid, claims_json(c), a.private_pem) is Ok);
    claims_round_trip(c);
    assert(c.audience.contains(b.audience) == (a.audience == b.audience));
}

/// A token whose header or signature was altered is refused, or says what it said before.
pub proof fn altered_tokens_say_nothing_new(
    a: TokenIssuerView,
    b: TokenIssuerView,
    user: UserView,
    resources: Option<Seq<ResourceClaimView>>,
    token_use: Text,
    issue_time: u64,
    token: Text,
    now: u64,
    r: Result<ClaimsView, Text>,
)
    requires
        issued(a, user, resources, token_use, issue_time) is Ok,
        same_payload(issued(a, user, resources, token_use, issue_time)->Ok_0.0, token),
        verified_at(b, token, now, r),
    ensures
        r matches Ok(c) ==> {
            &&& c == claims_for(a, user, resources, token_use, issue_time)
            &&& a.issuer == b.issuer
            &&& a.audience == b.audience
        },
{
    let c = claims_for(a, user, resources, token_use, issue_time);
    assert(c.audience[0] == a.audience);
    assert(rs256_token(a.kid, claims_json(c), a.private_pem) is Ok);
    claims_round_trip(c);
    assert(c.audience.contains(b.audience) == (a.audience == b.audience));
}

/// A token that has not three parts, or whose header names another algorithm, is refused.
pub proof fn tokens_of_another_form_are_refused(
    t: TokenIssuerView,
    token: Text,
    now: u64,
    r: Result<ClaimsView, Text>,
)
    requires
        verified_at(t, token, now, r),
        !has_token_form(token),
    ensures
        r is Err,
        text::pieces(token, '.').len() < 3 ==> r == (Err::<ClaimsView, Text>("InvalidToken"@)),
{
}

/// What a verified token says was said by this issuer, for its audience, and has not
/// been expired for more than a minute.
pub proof fn verified_claims_are_admitted(
    t: TokenIssuerView,
    token: Text,
    now: u64,
    c: ClaimsView,
)
    requires
        verified_at(t, token, now, Ok::<ClaimsView, Text>(c)),
    ensures
        c.issuer == t.issuer,
        c.audience.contains(t.audience),
        now <= c.expires + 60,
        decoded_payload(token, t.public_pem, None) matches Ok(j) && claims_in(j) == Some(c),
{
}

/// A key that is read twice is the same key, and shows the same key set, whatever else the
/// issuer is set up with. A key that is stored as it was written gives the issuer again.
pub proof fn stored_keys_come_back(
    pem: Text,
    issuer: Text,
    audience: Text,
    environment: Text,
    ttl_seconds: u64,
    other_issuer: Text,
    other_audience: Text,
    other_environment: Text,
    other_ttl_seconds: u64,
)
    ensures
        match (
            issuer_with_key(pem, issuer, audience, environment, ttl_seconds),
            issuer_with_key(
                pem,
                other_issuer,
                other_audience,
                other_environment,
                other_ttl_seconds,
            ),
        ) {
            (Ok(a), Ok(b)) => {
                &&& a.private_pem == b.private_pem
                &&& a.public_pem == b.public_pem
                &&& a.kid == b.kid
                &&& jwks_json(a) == jwks_json(b)
                &&& key_pair(a.private_pem, a.public_pem) ==> issuer_with_key(
                    a.private_pem,
                    issuer,
                    audience,
                    environment,
                    ttl_seconds,
                ) == (Ok::<TokenIssuerView, Text>(a))
            },
            (Err(e), Err(f)) => e == f,
            _ => false,
        },
{
}

/// Whether a character is of the base64 alphabet for URLs, which has no padding.
pub open spec fn is_base64url_char(c: char) -> bool {
    'A' <= c <= 'Z' || 'a' <= c <= 'z' || '0' <= c <= '9' || c == '-' || c == '_'
}

/// Base64 for URLs has four digits for three bytes, and no padding.
pub proof fn base64url_is_unpadded(b: Seq<u8>)
    ensures
        base64url(b).len() == (4 * b.len() + 2) / 3,
        forall|i: int|
            0 <= i < base64url(b).len() ==> is_base64url_char(#[trigger] base64url(b)[i]),
    decreases b.len(),
{
    if b.len() >= 3 {
        let rest = base64url(b.skip(3));
        base64url_is_unpadded(b.skip(3));
        assert forall|i: int| 0 <= i < base64url(b).len() implies is_base64url_char(
            #[trigger] base64url(b)[i],
        ) by {
            if i >= 4 {
                assert(base64url(b)[i] == rest[i - 4]);
            }
        }
    }
}

/// The modulus and the exponent in the key set are base64 for URLs without padding.
pub proof fn key_sets_are_unpadded(
    pem: Text,
    issuer: Text,
    audience: Text,
    environment: Text,
    ttl_seconds: u64,
)
    ensures
        issuer_with_key(pem, issuer, audience, environment, ttl_seconds) matches Ok(t) ==> {
            &&& forall|i: int|
                0 <= i < t.modulus.len() ==> is_base64url_char(#[trigger] t.modulus[i])
            &&& forall|i: int|
                0 <= i < t.exponent.len() ==> is_base64url_char(#[trigger] t.exponent[i])
        },
{
    if let Ok(private_pem) = rsa_private_key(pem) {
        if let Ok(key) = rsa_public_key(private_pem) {
            base64url_is_unpadded(key.modulus);
            base64url_is_unpadded(key.exponent);
        }
    }
}

} // verus!
