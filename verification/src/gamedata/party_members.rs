use vstd::prelude::*;

verus! {

/// The known party member names, by slot identifier.
pub open spec fn spec_party_member_name(index: i32) -> Option<Seq<char>> {
    match index {
        1 => Some("Kris"@),
        2 => Some("Susie"@),
        3 => Some("Ralsei"@),
        4 => Some("Noelle"@),
        _ => None,
    }
}

/// Looks up the display name of a party member slot.
pub fn try_get_party_member_name(index: i32) -> (r: Option<&'static str>)
    ensures
        ({
            match spec_party_member_name(index) {
                Some(n) => r matches Some(s) && s@ == n,
                None => r is None,
            }
        }),
{
    match index {
        1 => Some("Kris"),
        2 => Some("Susie"),
        3 => Some("Ralsei"),
        4 => Some("Noelle"),
        _ => None,
    }
}

/// Looks up a party member name by an unsigned slot index.
pub fn get_party_member(index: usize) -> (r: Option<&'static str>)
    requires
        index <= 0x7fff_ffff,
    ensures
        ({
            match spec_party_member_name(index as i32) {
                Some(n) => r matches Some(s) && s@ == n,
                None => r is None,
            }
        }),
{
    try_get_party_member_name(index as i32)
}

} // verus!
