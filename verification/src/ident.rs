//! Fresh identities and the time of day in words.
use crate::digest::is_hex;
use crate::text::finishes_with;
use vstd::prelude::*;
use vstd::string::*;

verus! {

/// The shape of a random UUID in words: 36 characters, hyphens behind the 8th, 12th, 16th and 20th
/// hexadecimal digit, version 4 and the variant of RFC 4122.
pub open spec fn is_uuid_v4(s: Seq<char>) -> bool {
    &&& s.len() == 36
    &&& s[8] == '-' && s[13] == '-' && s[18] == '-' && s[23] == '-'
    &&& s[14] == '4'
    &&& s[19] == '8' || s[19] == '9' || s[19] == 'a' || s[19] == 'b'
    &&& forall|i: int|
        0 <= i < 36 && i != 8 && i != 13 && i != 18 && i != 23 ==> is_hex(#[trigger] s[i])
}

/// `uuid::Uuid::new_v4` and its `to_string`: a random UUID in lower-case hyphenated notation.
/// Which one comes is left to chance. The operating system is taken to have random bytes to give.
#[verifier::external_body]
pub(crate) fn fresh_uuid() -> (res: String)
    ensures
        is_uuid_v4(res@),
{
    uuid::Uuid::new_v4().to_string()
}

/// `uuid::Uuid::new_v4` and its `as_u128`: the bits of a random UUID, which hold the version 4 and
/// the variant of RFC 4122. The other bits are left to chance. The operating system is taken to have
/// random bytes to give.
#[verifier::external_body]
pub(crate) fn random_bits() -> (res: u128)
    ensures
        res / 0x1000_0000_0000_0000_0000 % 16 == 4,
        res / 0x4000_0000_0000_0000 % 4 == 2,
{
    uuid::Uuid::new_v4().as_u128()
}

/// `chrono::Utc::now` and its `to_rfc3339`: the current time in words, at the offset `+00:00`.
/// What time it is is left to the clock, which is taken to be past 1970.
#[verifier::external_body]
pub(crate) fn current_time() -> (res: String)
    ensures
        finishes_with(res@, "+00:00"@),
{
    chrono::Utc::now().to_rfc3339()
}

} // verus!
