//! Fresh identifiers.

use vstd::prelude::*;

verus! {

/// A lower-case hexadecimal digit.
pub open spec fn hex(c: char) -> bool {
    '0' <= c <= '9' || 'a' <= c <= 'f'
}

/// The text form of a random UUID: 36 characters, hyphens after 8, 12, 16 and
/// 20 hexadecimal digits, and the version 4.
pub open spec fn uuid_text(s: Seq<char>) -> bool {
    &&& s.len() == 36
    &&& s[8] == '-' && s[13] == '-' && s[18] == '-' && s[23] == '-'
    &&& s[14] == '4'
    &&& forall|i: int|
        0 <= i < 36 && i != 8 && i != 13 && i != 18 && i != 23 ==> hex(#[trigger] s[i])
}

/// `to_string` of `uuid::Uuid::new_v4`. Which UUID comes is chance; that it is
/// a version 4 one, written in lower case with hyphens, holds of each.
#[verifier::external_body]
pub(crate) fn fresh_uuid() -> (r: String)
    ensures
        uuid_text(r@),
{
    uuid::Uuid::new_v4().to_string()
}

/// An id has 36 characters: five groups of 8, 4, 4, 4 and 12 small hexadecimal
/// digits with a dash between each two, the third beginning with a 4.
pub proof fn an_id_is_five_groups(s: Seq<char>)
    ensures
        uuid_text(s) <==> s.len() == 36 && s[14] == '4' && (forall|i: int|
            0 <= i < 36 ==> if i == 8 || i == 13 || i == 18 || i == 23 {
                #[trigger] s[i] == '-'
            } else {
                '0' <= s[i] <= '9' || 'a' <= s[i] <= 'f'
            }),
{
    if uuid_text(s) {
        assert forall|i: int| 0 <= i < 36 implies if i == 8 || i == 13 || i == 18 || i == 23 {
            #[trigger] s[i] == '-'
        } else {
            '0' <= s[i] <= '9' || 'a' <= s[i] <= 'f'
        } by {
            if i != 8 && i != 13 && i != 18 && i != 23 {
                assert(hex(s[i]));
            }
        }
    }
    if s.len() == 36 && s[14] == '4' && (forall|i: int|
        0 <= i < 36 ==> if i == 8 || i == 13 || i == 18 || i == 23 {
            #[trigger] s[i] == '-'
        } else {
            '0' <= s[i] <= '9' || 'a' <= s[i] <= 'f'
        }) {
        assert(s[8] == '-' && s[13] == '-' && s[18] == '-' && s[23] == '-');
        assert forall|i: int| 0 <= i < 36 && i != 8 && i != 13 && i != 18 && i != 23 implies hex(
            #[trigger] s[i],
        ) by {}
    }
}

} // verus!
