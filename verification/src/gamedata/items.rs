use vstd::prelude::*;

verus! {

/// The known consumable item names, by identifier.
pub open spec fn spec_item_name(item_id: i32) -> Option<Seq<char>> {
    match item_id {
        0 => Some("---"@),
        1 => Some("Dark Candy"@),
        2 => Some("ReviveMint"@),
        3 => Some("Glowshard"@),
        4 => Some("Manual"@),
        5 => Some("BrokenCake"@),
        6 => Some("TopCake"@),
        7 => Some("SpinCake"@),
        8 => Some("Darkburger"@),
        9 => Some("LancerCookie"@),
        10 => Some("GigaSalad"@),
        11 => Some("Clubswich"@),
        12 => Some("HeartsDonut"@),
        13 => Some("ChocDiamond"@),
        14 => Some("FavSandwich"@),
        15 => Some("RouxlsRoux"@),
        16 => Some("CD Bagel"@),
        17 => Some("Mannequin"@),
        18 => Some("Kris Tea"@),
        19 => Some("Noelle Tea"@),
        20 => Some("Ralsei Tea"@),
        21 => Some("Susie Tea"@),
        22 => Some("DD-Burger"@),
        23 => Some("LightCandy"@),
        24 => Some("ButJuice"@),
        25 => Some("SpagettiCode"@),
        26 => Some("JavaCookie"@),
        27 => Some("TensionBit"@),
        28 => Some("TensionGem"@),
        29 => Some("TensionMax"@),
        30 => Some("ReviveDust"@),
        31 => Some("ReviveBrite"@),
        32 => Some("S.POISON"@),
        33 => Some("DogDollar"@),
        34 => Some("TVDinner"@),
        35 => Some("Pipis"@),
        36 => Some("FlatSoda"@),
        37 => Some("TVSlop"@),
        38 => Some("ExecBuffet"@),
        39 => Some("DeluxeDinner"@),
        60 => Some("AncientSweet"@),
        61 => Some("Rhapsotea"@),
        62 => Some("Scarlixir"@),
        63 => Some("BitterTear"@),
        _ => None,
    }
}

/// Looks up the display name of a consumable item identifier.
pub fn try_get_item_name(item_id: i32) -> (r: Option<&'static str>)
    ensures
        ({
            match spec_item_name(item_id) {
                Some(n) => r matches Some(s) && s@ == n,
                None => r is None,
            }
        }),
{
    match item_id {
        0 => Some("---"),
        1 => Some("Dark Candy"),
        2 => Some("ReviveMint"),
        3 => Some("Glowshard"),
        4 => Some("Manual"),
        5 => Some("BrokenCake"),
        6 => Some("TopCake"),
        7 => Some("SpinCake"),
        8 => Some("Darkburger"),
        9 => Some("LancerCookie"),
        10 => Some("GigaSalad"),
        11 => Some("Clubswich"),
        12 => Some("HeartsDonut"),
        13 => Some("ChocDiamond"),
        14 => Some("FavSandwich"),
        15 => Some("RouxlsRoux"),
        16 => Some("CD Bagel"),
        17 => Some("Mannequin"),
        18 => Some("Kris Tea"),
        19 => Some("Noelle Tea"),
        20 => Some("Ralsei Tea"),
        21 => Some("Susie Tea"),
        22 => Some("DD-Burger"),
        23 => Some("LightCandy"),
        24 => Some("ButJuice"),
        25 => Some("SpagettiCode"),
        26 => Some("JavaCookie"),
        27 => Some("TensionBit"),
        28 => Some("TensionGem"),
        29 => Some("TensionMax"),
        30 => Some("ReviveDust"),
        31 => Some("ReviveBrite"),
        32 => Some("S.POISON"),
        33 => Some("DogDollar"),
        34 => Some("TVDinner"),
        35 => Some("Pipis"),
        36 => Some("FlatSoda"),
        37 => Some("TVSlop"),
        38 => Some("ExecBuffet"),
        39 => Some("DeluxeDinner"),
        60 => Some("AncientSweet"),
        61 => Some("Rhapsotea"),
        62 => Some("Scarlixir"),
        63 => Some("BitterTear"),
        _ => None,
    }
}

} // verus!
