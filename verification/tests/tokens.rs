use base64::engine::general_purpose::{STANDARD, URL_SAFE_NO_PAD};
use base64::Engine;
use lore_auth::db::User;
use lore_auth::keys::{Claims, ResourceClaim, TokenIssuer};
use rsa::pkcs8::{DecodePublicKey, EncodePrivateKey, EncodePublicKey, LineEnding};
use rsa::traits::PublicKeyParts;
use rsa::{BigUint, RsaPrivateKey, RsaPublicKey};

/// A key of two primes just below round numbers, which is made at once.
fn private_key() -> RsaPrivateKey {
    let p = (BigUint::from(1u8) << 1024) - BigUint::from(105u8);
    let q = (BigUint::from(3u8) << 1022) - BigUint::from(91u8);
    RsaPrivateKey::from_p_q(p, q, BigUint::from(65537u32)).unwrap()
}

fn other_private_key() -> RsaPrivateKey {
    let p = (BigUint::from(1u8) << 1024) - BigUint::from(179u8);
    let q = (BigUint::from(15u8) << 1020) - BigUint::from(299u16);
    RsaPrivateKey::from_p_q(p, q, BigUint::from(65537u32)).unwrap()
}

fn pem_of(key: &RsaPrivateKey) -> String {
    key.to_pkcs8_pem(LineEnding::LF).unwrap().to_string()
}

fn issuer_with(key: &RsaPrivateKey, ttl: u64) -> TokenIssuer {
    TokenIssuer::with_private_key(
        &pem_of(key),
        "https://issuer".into(),
        "audience".into(),
        "test".into(),
        ttl,
    )
    .unwrap()
}

fn alice(is_admin: bool) -> User {
    User {
        id: "id-1".into(),
        username: "alice".into(),
        display_name: "Alice A.".into(),
        password_hash: "none".into(),
        disabled: false,
        is_admin,
    }
}

fn part(token: &str, n: usize) -> serde_json::Value {
    let part = token.split('.').nth(n).unwrap();
    serde_json::from_slice(&URL_SAFE_NO_PAD.decode(part).unwrap()).unwrap()
}

fn now() -> u64 {
    chrono::Utc::now().timestamp() as u64
}

#[test]
fn tokens_read_back() {
    let issuer = issuer_with(&private_key(), 600);
    let (token, expires) = issuer.issue_authentication(&alice(false)).unwrap();
    assert!(expires >= now() + 590 && expires <= now() + 600);
    let claims = issuer.verify(&token).unwrap();
    assert_eq!(claims.user_id, "id-1");
    assert_eq!(claims.issuer, "https://issuer");
    assert_eq!(claims.expires, expires);
    assert_eq!(claims.issued_at, expires - 600);
    assert_eq!(claims.audience, vec!["audience"]);
    assert_eq!(claims.env, "test");
    assert_eq!(claims.name, "Alice A.");
    assert_eq!(claims.preferred_username, "alice");
    assert!(claims.resources.is_none());
    assert_eq!(claims.groups, None);
    assert_eq!(claims.is_service_account, Some(false));
    assert_eq!(claims.idp, "lore-auth");
    assert_eq!(claims.token_use, "authentication");
}

#[test]
fn tokens_for_resources_read_back() {
    let issuer = issuer_with(&private_key(), 600);
    let resources = vec![
        ResourceClaim { resource_id: "urc-*".into(), permission: vec!["*".into()] },
        ResourceClaim { resource_id: "urc-1".into(), permission: vec!["read".into(), "ü".into()] },
    ];
    let (token, _) = issuer.issue_authorization(&alice(true), resources).unwrap();
    let claims = issuer.verify(&token).unwrap();
    assert_eq!(claims.token_use, "authorization");
    assert_eq!(claims.groups, Some(vec!["admin".to_string()]));
    let resources = claims.resources.unwrap();
    assert_eq!(resources.len(), 2);
    assert_eq!(resources[1].resource_id, "urc-1");
    assert_eq!(resources[1].permission, vec!["read", "ü"]);
}

#[test]
fn the_parts_of_a_token() {
    let key = private_key();
    let issuer = issuer_with(&key, 5);
    let (token, expires) = issuer
        .issue_at(&alice(true), None, "authentication", 1_000)
        .unwrap();
    assert_eq!(expires, 1_005);
    let header = part(&token, 0);
    assert_eq!(header["alg"], "RS256");
    assert_eq!(header["typ"], "JWT");
    let der = RsaPublicKey::from(&key).to_public_key_der().unwrap();
    let kid = blake3::hash(der.as_bytes()).to_hex()[..16].to_string();
    assert_eq!(header["kid"], kid.as_str());
    let payload = part(&token, 1);
    assert_eq!(payload["sub"], "id-1");
    assert_eq!(payload["iss"], "https://issuer");
    assert_eq!(payload["iat"], 1_000);
    assert_eq!(payload["exp"], 1_005);
    assert_eq!(payload["aud"][0], "audience");
    assert!(payload["resources"].is_null());
    assert_eq!(payload["groups"][0], "admin");
    assert_eq!(payload["is_service_account"], false);
    assert_eq!(payload.as_object().unwrap().len(), 13);
    let names: Vec<&String> = payload.as_object().unwrap().keys().collect();
    assert_eq!(
        names,
        [
            "sub",
            "iss",
            "iat",
            "exp",
            "aud",
            "env",
            "name",
            "preferred_username",
            "resources",
            "groups",
            "is_service_account",
            "idp",
            "token_use"
        ]
    );
}

#[test]
fn tokens_hold_until_a_minute_after_their_expiry() {
    let issuer = issuer_with(&private_key(), 600);
    let (token, expires) = issuer.issue_at(&alice(false), None, "x", 1_000).unwrap();
    assert_eq!(expires, 1_600);
    for now in [0, 1_000, 1_600, 1_660] {
        assert_eq!(issuer.verify_at(&token, now).unwrap().user_id, "id-1");
    }
    for now in [1_661, 10_000, u64::MAX] {
        assert_eq!(issuer.verify_at(&token, now).unwrap_err().message, "ExpiredSignature");
    }
    // The time is gone by the clock.
    assert!(issuer.verify(&token).is_err());
}

#[test]
fn another_issuer_with_the_same_names_reads_the_token_of_its_key() {
    let (key, other_key) = (private_key(), other_private_key());
    let make = |key: &RsaPrivateKey, issuer: &str, audience: &str| {
        TokenIssuer::with_private_key(
            &pem_of(key),
            issuer.into(),
            audience.into(),
            "elsewhere".into(),
            1,
        )
        .unwrap()
    };
    let (token, _) = issuer_with(&key, 600)
        .issue_at(&alice(false), None, "authentication", 1_000)
        .unwrap();
    let claims = make(&key, "https://issuer", "audience").verify_at(&token, 1_000).unwrap();
    assert_eq!(claims.user_id, "id-1");
    assert_eq!(claims.expires, 1_600);
    assert!(make(&key, "https://issuer", "other").verify_at(&token, 1_000).is_err());
    assert!(make(&key, "https://other", "audience").verify_at(&token, 1_000).is_err());
    assert!(make(&other_key, "https://issuer", "audience").verify_at(&token, 1_000).is_err());
    assert!(make(&key, "https://issuer", "audience").verify_at(&token, 1_661).is_err());
}

#[test]
fn refusals_tell_why() {
    let (key, other_key) = (private_key(), other_private_key());
    let make = |key: &RsaPrivateKey, issuer: &str, audience: &str| {
        TokenIssuer::with_private_key(
            &pem_of(key),
            issuer.into(),
            audience.into(),
            "test".into(),
            600,
        )
        .unwrap()
    };
    let issuer = make(&key, "i", "a");
    let (token, _) = issuer.issue_at(&alice(false), None, "x", 1_000).unwrap();
    let why = |reader: &TokenIssuer, token: &str, now: u64| {
        reader.verify_at(token, now).err().unwrap().message
    };
    assert_eq!(why(&make(&key, "other", "a"), &token, 1_000), "InvalidIssuer");
    assert_eq!(why(&make(&key, "i", "other"), &token, 1_000), "InvalidAudience");
    assert_eq!(why(&make(&key, "other", "other"), &token, 1_000), "InvalidIssuer");
    // The expiry is looked at first.
    assert_eq!(why(&make(&key, "other", "a"), &token, 1_661), "ExpiredSignature");
    assert_eq!(why(&make(&other_key, "i", "a"), &token, 1_000), "InvalidSignature");
    assert_eq!(why(&issuer, "nonsense", 1_000), "InvalidToken");
    assert_eq!(why(&issuer, "one.two", 1_000), "InvalidToken");
    assert!(why(&issuer, &format!("x.{token}"), 1_000).starts_with("Base64 error: "));
    // A header that names another algorithm, with the payload and the signature kept.
    let (_, rest) = token.split_once('.').unwrap();
    for (alg, message) in [("RS512", "InvalidAlgorithm"), ("HS256", "InvalidAlgorithm")] {
        let header = URL_SAFE_NO_PAD.encode(format!("{{\"alg\":\"{alg}\"}}"));
        assert_eq!(why(&issuer, &format!("{header}.{rest}"), 1_000), message);
    }
    // Another header for the same algorithm does not fit the signature.
    let header = URL_SAFE_NO_PAD.encode("{\"alg\":\"RS256\"}");
    assert_eq!(why(&issuer, &format!("{header}.{rest}"), 1_000), "InvalidSignature");
}

#[test]
fn a_key_is_read_from_its_own_lines_only() {
    // The key that the library takes from a text signs and verifies, whatever stands
    // before it.
    let mixed = format!("x{}{}", pem_of(&private_key()), pem_of(&other_private_key()));
    let issuer = TokenIssuer::with_private_key(
        &mixed,
        "https://issuer".into(),
        "audience".into(),
        "test".into(),
        600,
    )
    .unwrap();
    let (token, _) = issuer.issue_authentication(&alice(false)).unwrap();
    assert!(issuer.verify(&token).is_ok());
    assert!(issuer_with(&other_private_key(), 600).verify(&token).is_ok());
}

#[test]
fn lifetimes_do_not_overflow() {
    let issuer = issuer_with(&private_key(), u64::MAX);
    let (_, expires) = issuer.issue_at(&alice(false), None, "x", 7).unwrap();
    assert_eq!(expires, u64::MAX);
}

#[test]
fn expired_tokens_are_refused() {
    let issuer = issuer_with(&private_key(), 0);
    // A minute of grace is given, and no more.
    let (token, _) = issuer.issue_at(&alice(false), None, "x", now() - 30).unwrap();
    assert!(issuer.verify(&token).is_ok());
    let (token, _) = issuer.issue_at(&alice(false), None, "x", now() - 90).unwrap();
    assert_eq!(issuer.verify(&token).unwrap_err().message, "ExpiredSignature");
}

#[test]
fn tokens_of_others_are_refused() {
    let key = private_key();
    let issuer = issuer_with(&key, 600);
    let other = issuer_with(&other_private_key(), 600);
    let (token, _) = other.issue_authentication(&alice(false)).unwrap();
    assert!(issuer.verify(&token).is_err());
    for (name, audience) in [("https://issuer", "other"), ("https://other", "audience")] {
        let other = TokenIssuer::with_private_key(
            &pem_of(&key),
            name.into(),
            audience.into(),
            "test".into(),
            600,
        )
        .unwrap();
        let (token, _) = other.issue_authentication(&alice(false)).unwrap();
        assert!(issuer.verify(&token).is_err());
        assert!(other.verify(&token).is_ok());
    }
    assert!(issuer.verify("").is_err());
    assert!(issuer.verify("a.b.c").is_err());
}

#[test]
fn changed_tokens_are_refused() {
    let issuer = issuer_with(&private_key(), 600);
    let (token, _) = issuer.issue_authentication(&alice(false)).unwrap();
    let (head, signature) = token.rsplit_once('.').unwrap();
    let (header, _) = head.split_once('.').unwrap();
    let mut payload = part(&token, 1);
    payload["sub"] = serde_json::Value::String("id-2".into());
    let payload = URL_SAFE_NO_PAD.encode(serde_json::to_vec(&payload).unwrap());
    assert!(issuer.verify(&format!("{header}.{payload}.{signature}")).is_err());
    assert!(issuer.verify(&token).is_ok());
}

#[test]
fn signed_payloads_without_the_claims_are_refused() {
    let key = private_key();
    let issuer = issuer_with(&key, 600);
    let mut payload = serde_json::Map::new();
    payload.insert("iss".into(), "https://issuer".into());
    payload.insert("aud".into(), vec!["audience".to_string()].into());
    payload.insert("exp".into(), (now() + 600).into());
    let signing = jsonwebtoken::EncodingKey::from_rsa_pem(pem_of(&key).as_bytes()).unwrap();
    let header = jsonwebtoken::Header::new(jsonwebtoken::Algorithm::RS256);
    let token = jsonwebtoken::encode(&header, &payload, &signing).unwrap();
    assert_eq!(issuer.verify(&token).unwrap_err().message, "JSON error: invalid claims");
    for name in ["sub", "env", "name", "preferred_username", "idp", "token_use"] {
        payload.insert(name.into(), "x".into());
    }
    payload.insert("iat".into(), 1.into());
    // Claims that may be absent are.
    let token = jsonwebtoken::encode(&header, &payload, &signing).unwrap();
    let claims = issuer.verify(&token).unwrap();
    assert_eq!(claims.user_id, "x");
    assert_eq!(claims.groups, None);
    payload.insert("iat".into(), "1".into());
    let token = jsonwebtoken::encode(&header, &payload, &signing).unwrap();
    assert!(issuer.verify(&token).is_err());
}

#[test]
fn the_key_set_holds_the_public_key() {
    let key = private_key();
    let public = RsaPublicKey::from(&key);
    let jwks = issuer_with(&key, 600).jwks();
    assert_eq!(jwks.as_object().unwrap().len(), 1);
    assert_eq!(jwks["keys"].as_array().unwrap().len(), 1);
    let shown = &jwks["keys"][0];
    assert_eq!(shown.as_object().unwrap().len(), 6);
    assert_eq!(shown["kty"], "RSA");
    assert_eq!(shown["use"], "sig");
    assert_eq!(shown["alg"], "RS256");
    let kid = shown["kid"].as_str().unwrap();
    assert_eq!(kid.len(), 16);
    assert!(kid.chars().all(|c| c.is_ascii_digit() || ('a'..='f').contains(&c)));
    assert!(shown["n"]
        .as_str()
        .unwrap()
        .chars()
        .all(|c| c.is_ascii_alphanumeric() || c == '-' || c == '_'));
    assert_eq!(shown["n"].as_str().unwrap().len(), (4 * 256 + 2) / 3);
    assert!(jwks.to_string().starts_with("{\"keys\":[{\"alg\":\"RS256\",\"e\":\"AQAB\",\"kid\":"));
    assert_eq!(shown["e"], "AQAB");
    let n = URL_SAFE_NO_PAD.decode(shown["n"].as_str().unwrap()).unwrap();
    assert_eq!(n, public.n().to_bytes_be());
    assert!(STANDARD.decode(shown["n"].as_str().unwrap()).is_err() || n.len() % 3 == 0);
}

#[test]
fn stored_keys_are_used_again() {
    let pem = pem_of(&private_key());
    let load = |stored: &str| {
        TokenIssuer::load_or_create(Some(stored), "i".into(), "a".into(), "e".into(), 60)
    };
    let (one, new) = load(&pem).unwrap();
    assert!(new.is_none());
    let (two, _) = load(&pem).unwrap();
    let (token, _) = one.issue_authentication(&alice(false)).unwrap();
    assert!(two.verify(&token).is_ok());
    assert_eq!(one.jwks(), two.jwks());
    let copy = one.clone();
    assert!(copy.verify(&token).is_ok());
    let refused = load("no key");
    assert_eq!(refused.err().unwrap().message, "parsing RSA private key");
}

#[test]
fn claims_survive_json() {
    let claims = Claims {
        user_id: "u".into(),
        issuer: "i".into(),
        issued_at: 1,
        expires: u64::MAX,
        audience: vec![],
        env: "\"\n".into(),
        name: "".into(),
        preferred_username: "p".into(),
        resources: Some(vec![]),
        groups: Some(vec!["g".into()]),
        is_service_account: None,
        idp: "idp".into(),
        token_use: "t".into(),
    };
    let value = claims.to_json();
    assert_eq!(value["exp"], u64::MAX);
    assert!(value["is_service_account"].is_null());
    let again = Claims::from_json(&value).unwrap();
    assert_eq!(again.expires, u64::MAX);
    assert_eq!(again.env, "\"\n");
    assert!(again.resources.unwrap().is_empty());
    assert_eq!(again.groups, Some(vec!["g".to_string()]));
    assert_eq!(again.is_service_account, None);
    assert!(Claims::from_json(&serde_json::Value::Null).is_none());
    let mut broken = value.clone();
    broken["aud"] = "a".into();
    assert!(Claims::from_json(&broken).is_none());
}

#[test]
fn public_keys_are_spki() {
    // The key set is made of the key whose DER form gives the identifier.
    let key = private_key();
    let der = RsaPublicKey::from(&key).to_public_key_der().unwrap();
    let again = RsaPublicKey::from_public_key_der(der.as_bytes()).unwrap();
    let jwks = issuer_with(&key, 60).jwks();
    let hash = blake3::hash(again.to_public_key_der().unwrap().as_bytes()).to_hex();
    assert_eq!(jwks["keys"][0]["kid"], hash[..16]);
    let pem = issuer_with(&key, 60).public_key_pem();
    assert_eq!(RsaPublicKey::from_public_key_pem(&pem).unwrap(), again);
}
