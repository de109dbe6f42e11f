use vstd::prelude::*;

verus! {

/// The known key item names, by identifier.
pub open spec fn spec_key_item_name(key_item_id: i32) -> Option<Seq<char>> {
    match key_item_id {
        0 => Some("---"@),
        1 => Some("Cell Phone"@),
        2 => Some("Egg"@),
        3 => Some("BrokenCake"@),
        4 => Some("Broken Key A"@),
        5 => Some("Door Key"@),
        6 => Some("Broken Key B"@),
        7 => Some("Broken Key C"@),
        8 => Some("Lancer"@),
        9 => Some("Rouxls Kaard"@),
        10 => Some("EmptyDisk"@),
        11 => Some("LoadedDisk"@),
        12 => Some("KeyGen"@),
        13 => Some("ShadowCrystal"@),
        14 => Some("Starwalker"@),
        15 => Some("PureCrystal"@),
        16 => Some("OddController"@),
        17 => Some("BackstagePass"@),
        18 => Some("TripTicket"@),
        19 => Some("LancerCon"@),
        30 => Some("SheetMusic"@),
        31 => Some("ClaimbClaws"@),
        _ => None,
    }
}

/// Looks up the display name of a key item identifier.
pub fn try_get_key_item_name(key_item_id: i32) -> (r: Option<&'static str>)
    ensures
        ({
            match spec_key_item_name(key_item_id) {
                Some(n) => r matches Some(s) && s@ == n,
                None => r is None,
            }
        }),
{
    match key_item_id {
        0 => Some("---"),
        1 => Some("Cell Phone"),
        2 => Some("Egg"),
        3 => Some("BrokenCake"),
        4 => Some("Broken Key A"),
        5 => Some("Door Key"),
        6 => Some("Broken Key B"),
        7 => Some("Broken Key C"),
        8 => Some("Lancer"),
        9 => Some("Rouxls Kaard"),
        10 => Some("EmptyDisk"),
        11 => Some("LoadedDisk"),
        12 => Some("KeyGen"),
        13 => Some("ShadowCrystal"),
        14 => Some("Starwalker"),
        15 => Some("PureCrystal"),
        16 => Some("OddController"),
        17 => Some("BackstagePass"),
        18 => Some("TripTicket"),
        19 => Some("LancerCon"),
        30 => Some("SheetMusic"),
        31 => Some("ClaimbClaws"),
        _ => None,
    }
}

} // verus!
