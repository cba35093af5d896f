//! The salted password digest of the account flow: the concatenation of
//! password and salt is hashed and the digest rendered in decimal.

use vstd::prelude::*;
use vstd::string::StringExecFns;
use std::collections::hash_map::DefaultHasher;
use std::hash::{Hash, Hasher};
use crate::util::{decimal_of, u64_to_decimal};

verus! {

/// The digest the standard hasher assigns to a text; a function of the
/// characters alone within one build of the library.
pub uninterp spec fn default_hash_of(s: Seq<char>) -> u64;

/// Relies on `DefaultHasher` seeded by `new`: hashing a string and taking
/// `finish` yields a digest determined by the characters alone.
#[verifier::external_body]
fn default_hash(s: &str) -> (r: u64)
    ensures
        r == default_hash_of(s@),
{
    let mut hasher = DefaultHasher::new();
    s.hash(&mut hasher);
    hasher.finish()
}

/// Digests a password with its salt: the two concatenated, hashed, and
/// the digest written in decimal.
pub fn get_salted_password_hash(password: &String, salt: &String) -> (r: String)
    ensures
        r@ == decimal_of(default_hash_of(password@ + salt@) as nat),
{
    let combined = password.clone().concat(salt.as_str());
    u64_to_decimal(default_hash(combined.as_str()))
}

} // verus!
