//! Identifiers of queue entries and workflows.
use vstd::prelude::*;

use crate::text::{is_blank, is_white_space, lemma_visible_start};

verus! {

/// Whether `c` is a digit of lower-case hexadecimal.
pub open spec fn is_lower_hex(c: char) -> bool {
    '0' <= c <= '9' || 'a' <= c <= 'f'
}

/// Whether `s` is a version 4 UUID in its hyphenated lower-case form.
pub open spec fn is_uuid_v4(s: Seq<char>) -> bool {
    &&& s.len() == 36
    &&& forall|i: int|
        0 <= i < 36 ==> if i == 8 || i == 13 || i == 18 || i == 23 {
            #[trigger] s[i] == '-'
        } else {
            is_lower_hex(s[i])
        }
    &&& s[14] == '4'
    &&& s[19] == '8' || s[19] == '9' || s[19] == 'a' || s[19] == 'b'
}

/// `uuid::Uuid::new_v4` draws a random version 4 UUID, and its `Display`
/// writes the hyphenated lower-case form. Which one is drawn is left open. It
/// panics where the system has no random bytes to give.
#[verifier::external_body]
pub(crate) fn fresh_uuid() -> (id: String)
    ensures
        is_uuid_v4(id@),
{
    uuid::Uuid::new_v4().to_string()
}

/// A UUID is never blank.
pub proof fn lemma_uuid_not_blank(s: Seq<char>)
    requires
        is_uuid_v4(s),
    ensures
        !is_blank(s),
{
    assert(is_lower_hex(s[0]));
    assert(!is_white_space(s[0]));
    lemma_visible_start(s);
}

} // verus!
