//! Fresh UUIDv4 identifiers: for the `x-request-id` header of requests
//! that carry none, and for new positions, alerts and strategies.

use vstd::prelude::*;
use crate::codec::is_lower_hex;

verus! {

/// Whether `s` is the lowercase hyphenated text of a version-4 (random)
/// UUID: 36 characters, hyphens at 8, 13, 18 and 23, lowercase hex digits
/// elsewhere, version digit `4`, and an RFC 4122 variant digit.
pub open spec fn is_uuid_v4_text(s: Seq<char>) -> bool {
    &&& s.len() == 36
    &&& forall|i: int| 0 <= i < 36 ==> (if i == 8 || i == 13 || i == 18 || i == 23 {
        s[i] == '-'
    } else {
        is_lower_hex(#[trigger] s[i])
    })
    &&& s[14] == '4'
    &&& (s[19] == '8' || s[19] == '9' || s[19] == 'a' || s[19] == 'b')
}

/// `uuid::Uuid::new_v4()` rendered by its `Display` (lowercase hyphenated
/// text). The value is random; claimed is only its shape, which `new_v4`
/// (version and variant bits set) and the hyphenated format fix.
#[verifier::external_body]
fn uuid_v4_text() -> (s: String)
    ensures
        is_uuid_v4_text(s@),
{
    uuid::Uuid::new_v4().to_string()
}

/// A fresh random identifier.
pub fn new_id() -> (id: String)
    ensures
        is_uuid_v4_text(id@),
{
    uuid_v4_text()
}

/// Generates a fresh UUIDv4 for every request that does not already carry
/// an `x-request-id` header.
#[derive(Clone, Copy, Default)]
pub struct MakeRequestUuid;

impl MakeRequestUuid {
    /// The identifier for a request without one: a fresh UUIDv4.
    pub fn make_request_id(&mut self) -> (id: String)
        ensures
            is_uuid_v4_text(id@),
    {
        new_id()
    }
}

} // verus!
