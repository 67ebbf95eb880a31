//! The object store: the keys that artifacts are stored under.

use crate::models::StorageLocation;
use vstd::prelude::*;
use vstd::string::*;

verus! {

/// An ASCII letter or digit.
pub open spec fn is_alphanumeric(c: char) -> bool {
    ('0' <= c && c <= '9') || ('a' <= c && c <= 'z') || ('A' <= c && c <= 'Z')
}

/// Every character of `s` is an ASCII letter or digit.
pub open spec fn all_alphanumeric(s: Seq<char>) -> bool {
    forall|i: int| 0 <= i < s.len() ==> is_alphanumeric(#[trigger] s[i])
}

/// The length of the random part of a name.
pub const NAME_LENGTH: usize = 30;

/// A random text of `length` ASCII letters and digits. Trusted:
/// `rand::Rng::sample_iter` over `rand::distributions::Alphanumeric` on the
/// thread's generator, which gives letters and digits only. Nothing is
/// claimed of which: two calls may give two texts.
#[verifier::external_body]
pub(crate) fn random_alphanumeric(length: usize) -> (text: String)
    ensures
        text@.len() == length,
        all_alphanumeric(text@),
{
    rand::Rng::sample_iter(rand::thread_rng(), rand::distributions::Alphanumeric).take(
        length,
    ).map(char::from).collect()
}

/// `key` is a name of thirty letters and digits with `.mobi` behind it.
pub open spec fn is_object_key(key: Seq<char>) -> bool {
    exists|name: Seq<char>|
        name.len() == NAME_LENGTH && all_alphanumeric(name) && key == #[trigger] (name + ".mobi"@)
}

/// The key made of `name`.
pub fn key_of(name: &str) -> (key: String)
    ensures
        key@ == name@ + ".mobi"@,
{
    let mut key = String::from_str(name);
    key.append(".mobi");
    key
}

/// A fresh key for an artifact: thirty random letters and digits, then
/// `.mobi`.
pub fn new_object_key() -> (key: String)
    ensures
        is_object_key(key@),
{
    let name = random_alphanumeric(NAME_LENGTH);
    key_of(name.as_str())
}

/// The place of an artifact stored under `key` in `bucket`.
pub fn location_of(bucket: &str, key: &str) -> (place: StorageLocation)
    ensures
        place.bucket@ == bucket@,
        place.key@ == key@,
{
    StorageLocation { bucket: String::from_str(bucket), key: String::from_str(key) }
}

/// The room to set aside for an object before it is read: the length the
/// store announces, or nothing where it announces none or one that is no
/// size.
pub fn room_for(content_length: Option<i64>) -> (room: usize)
    ensures
        room == match content_length {
            Some(length) => if 0 <= length <= usize::MAX {
                length as usize
            } else {
                0
            },
            None => 0,
        },
{
    match content_length {
        Some(length) => {
            if length >= 0 && length as u64 <= usize::MAX as u64 {
                length as usize
            } else {
                0
            }
        },
        None => 0,
    }
}

} // verus!
