//! Password hashes in the PHC string format, made and checked by `argon2`.

use argon2::password_hash::{PasswordHash, PasswordHasher, PasswordVerifier, SaltString};
use argon2::Argon2;
use rand_core::OsRng;
use vstd::prelude::*;
use vstd::utf8::*;

use crate::text;
use crate::text::Text;

verus! {

/// The PHC string that `Argon2::default().hash_password` gives for a password and
/// a salt, or the text of its error.
pub uninterp spec fn argon2_hash(password: Text, salt: Text) -> Result<Text, Text>;

/// The parameters, by name and value, that `PasswordHash::new` finds in a stored PHC
/// string, or the text of the error with which it refuses the string.
pub uninterp spec fn phc_params(stored: Text) -> Result<Seq<(Text, Text)>, Text>;

/// Whether `Argon2::default().verify_password` accepts a password for a stored PHC string.
pub uninterp spec fn argon2_verdict(password: Text, stored: Text) -> bool;

/// The value of a parameter; of two with the same name the latter counts.
pub open spec fn last_value(params: Seq<(Text, Text)>, name: Text) -> Option<Text>
    decreases params.len(),
{
    if params.len() == 0 {
        None
    } else if params.last().0 == name {
        Some(params.last().1)
    } else {
        last_value(params.drop_last(), name)
    }
}

/// Whether the number of lanes has at most eight digits. Argon2 refuses a greater one, or
/// overflows over it.
pub open spec fn few_lanes(params: Seq<(Text, Text)>) -> bool {
    last_value(params, "p"@) matches Some(lanes) ==> lanes.len() <= 8
}

/// Whether a stored PHC string can be read and has few enough lanes.
pub open spec fn checkable(stored: Text) -> bool {
    phc_params(stored) matches Ok(params) && few_lanes(params)
}

/// Whether a password is the one that a PHC string was made from, or the text of the
/// error with which the string is refused.
pub open spec fn accepted(password: Text, stored: Text) -> Result<bool, Text> {
    match phc_params(stored) {
        Err(e) => Err(e),
        Ok(params) => Ok(few_lanes(params) && argon2_verdict(password, stored)),
    }
}

/// Passwords of a length that Argon2 takes.
pub open spec fn hashable(password: Text) -> bool {
    encode_utf8(password).len() <= 0xffff_ffff
}

/// Salts with which every password of such a length is hashed.
pub open spec fn serves(salt: Text) -> bool {
    forall|password: Text|
        hashable(password) ==> (#[trigger] argon2_hash(password, salt)) is Ok
}

/// What a hash begins with: the algorithm, its version and its parameters.
pub const HASH_PREFIX: &'static str = "$argon2id$v=19$m=19456,t=2,p=1$";

/// Whether a hash is of Argon2id, and shows the salt that it was made with.
pub open spec fn is_argon2id(hash: Text, salt: Text) -> bool {
    &&& (HASH_PREFIX@ + salt + "$"@).is_prefix_of(hash)
    &&& forall|i: int| 0 <= i < salt.len() ==> #[trigger] salt[i] != '$'
}

/// Calls `SaltString::generate` with the random numbers of the operating system.
/// Which salt comes is left open. With any salt that it gives, hashing a password
/// of at most `u32::MAX` bytes succeeds.
#[verifier::external_body]
pub(crate) fn fresh_salt() -> (salt: String)
    ensures
        forall|password: Text|
            hashable(password) ==> (#[trigger] argon2_hash(password, salt@)) is Ok,
{
    SaltString::generate(&mut OsRng).to_string()
}

/// Calls `hash_password` of `Argon2::default()` on the bytes of the password, with
/// the salt given in the form that `SaltString` prints. The hash verifies for the
/// password that it was made from. It begins with `$argon2id`, the version, the default
/// parameters, of which one is the single lane, and the salt; a salt that is taken holds
/// no `$`.
#[verifier::external_body]
pub(crate) fn hash(password: &str, salt: &str) -> (r: Result<String, String>)
    ensures
        match r {
            Ok(h) => argon2_hash(password@, salt@) == Ok::<Text, Text>(h@) && argon2_verdict(
                password@,
                h@,
            ) && is_argon2id(h@, salt@) && checkable(h@),
            Err(e) => argon2_hash(password@, salt@) == Err::<Text, Text>(e@),
        },
{
    let salt = SaltString::from_b64(salt).map_err(|e| e.to_string())?;
    let hash = Argon2::default().hash_password(password.as_bytes(), &salt);
    hash.map(|h| h.to_string()).map_err(|e| e.to_string())
}

/// Parses a stored hash with `PasswordHash::new`, and hands out its parameters one by one.
#[verifier::external_body]
fn stored_params(stored: &str) -> (r: Result<Vec<(String, String)>, String>)
    ensures
        match r {
            Ok(list) => phc_params(stored@) == Ok::<Seq<(Text, Text)>, Text>(list.deep_view()),
            Err(e) => phc_params(stored@) == Err::<Seq<(Text, Text)>, Text>(e@),
        },
{
    let parsed = PasswordHash::new(stored).map_err(|e| e.to_string())?;
    Ok(parsed.params.iter().map(|(name, value)| (name.to_string(), value.to_string())).collect())
}

/// Calls `verify_password` of `Argon2::default()` with a stored hash that
/// `PasswordHash::new` takes. It hashes the password with the memory and the passes that
/// the stored parameters ask for, and would overflow over a greater number of lanes.
#[verifier::external_body]
fn verify(password: &str, stored: &str) -> (r: bool)
    requires
        checkable(stored@),
    ensures
        r == argon2_verdict(password@, stored@),
{
    match PasswordHash::new(stored) {
        Ok(parsed) => Argon2::default().verify_password(password.as_bytes(), &parsed).is_ok(),
        Err(_) => false,
    }
}

/// Whether the number of lanes in the parameters of a hash has at most eight digits.
fn has_few_lanes(params: &Vec<(String, String)>) -> (r: bool)
    ensures
        r == few_lanes(params.deep_view()),
{
    let ghost all = params.deep_view();
    let mut i: usize = params.len();
    assert(all.take(i as int) =~= all);
    while i > 0
        invariant
            i <= params@.len(),
            all == params.deep_view(),
            last_value(all, "p"@) == last_value(all.take(i as int), "p"@),
        decreases i,
    {
        assert(all.take(i as int).drop_last() =~= all.take(i - 1));
        assert(all.take(i as int).last() == (params@[i - 1].0@, params@[i - 1].1@));
        if text::same_text(params[i - 1].0.as_str(), "p") {
            return params[i - 1].1.as_str().unicode_len() <= 8;
        }
        i = i - 1;
    }
    true
}

/// Whether a password is the one that a stored hash was made from.
pub fn check(password: &str, stored: &str) -> (r: Result<bool, String>)
    ensures
        match r {
            Ok(b) => accepted(password@, stored@) == Ok::<bool, Text>(b),
            Err(e) => accepted(password@, stored@) == Err::<bool, Text>(e@),
        },
{
    match stored_params(stored) {
        Ok(params) => {
            if has_few_lanes(&params) {
                Ok(verify(password, stored))
            } else {
                Ok(false)
            }
        },
        Err(e) => Err(e),
    }
}

/// The character of a hash at a place in the salt, or at its end.
proof fn lemma_salt_in_hash(hash: Text, salt: Text, i: int)
    requires
        is_argon2id(hash, salt),
        0 <= i <= salt.len(),
    ensures
        hash[HASH_PREFIX@.len() + i] == if i < salt.len() {
            salt[i]
        } else {
            '$'
        },
{
    reveal_strlit("$");
    let start = HASH_PREFIX@ + salt + "$"@;
    assert(start[HASH_PREFIX@.len() + i] == hash[HASH_PREFIX@.len() + i]);
}

/// Hashes that were made with different salts are different.
pub proof fn salts_show_in_hashes(hash: Text, salt: Text, other: Text)
    requires
        is_argon2id(hash, salt),
        is_argon2id(hash, other),
    ensures
        salt == other,
{
    if salt.len() < other.len() {
        lemma_salt_in_hash(hash, salt, salt.len() as int);
        lemma_salt_in_hash(hash, other, salt.len() as int);
    }
    if other.len() < salt.len() {
        lemma_salt_in_hash(hash, salt, other.len() as int);
        lemma_salt_in_hash(hash, other, other.len() as int);
    }
    assert forall|i: int| 0 <= i < salt.len() implies salt[i] == other[i] by {
        lemma_salt_in_hash(hash, salt, i);
        lemma_salt_in_hash(hash, other, i);
    }
    assert(salt =~= other);
}

} // verus!
