//! Names for new uploads.
use crate::digest::is_hex_digit;
use vstd::prelude::*;

verus! {

/// The text of a random UUID: 32 hexadecimal digits in groups of 8, 4, 4, 4 and
/// 12 with hyphens between, the third group beginning with `4` and the fourth
/// with `8`, `9`, `a` or `b`.
pub open spec fn is_uuid_text(s: Seq<char>) -> bool {
    &&& s.len() == 36
    &&& forall|i: int|
        0 <= i < 36 ==> if i == 8 || i == 13 || i == 18 || i == 23 {
            #[trigger] s[i] == '-'
        } else {
            is_hex_digit(s[i])
        }
    &&& s[14] == '4'
    &&& s[19] == '8' || s[19] == '9' || s[19] == 'a' || s[19] == 'b'
}

/// Calls `uuid::Uuid::new_v4` and writes the result. Which id comes is a matter
/// of chance; its form is that of a random UUID.
#[verifier::external_body]
pub(crate) fn new_id() -> (id: String)
    ensures
        is_uuid_text(id@),
{
    uuid::Uuid::new_v4().to_string()
}

} // verus!
