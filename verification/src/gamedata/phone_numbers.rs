use vstd::prelude::*;

verus! {

/// The known phone entry names, by identifier.
pub open spec fn spec_phone_number_name(number_id: i32) -> Option<Seq<char>> {
    match number_id {
        201 => Some("Call Home"@),
        202 => Some("Sans's Number"@),
        _ => None,
    }
}

/// Looks up the display name of a phone entry identifier.
pub fn try_get_phone_number_name(number_id: i32) -> (r: Option<&'static str>)
    ensures
        ({
            match spec_phone_number_name(number_id) {
                Some(n) => r matches Some(s) && s@ == n,
                None => r is None,
            }
        }),
{
    match number_id {
        201 => Some("Call Home"),
        202 => Some("Sans's Number"),
        _ => None,
    }
}

} // verus!
