use vstd::prelude::*;

verus! {

/// The known light-world item names, by identifier.
pub open spec fn spec_lightworld_item_name(item_id: i32) -> Option<Seq<char>> {
    match item_id {
        0 => Some("---"@),
        1 => Some("Hot Chocolate"@),
        2 => Some("Pencil"@),
        3 => Some("Bandage"@),
        4 => Some("Bouquet"@),
        5 => Some("Ball of Junk"@),
        6 => Some("Halloween Pencil"@),
        7 => Some("Lucky Pencil"@),
        8 => Some("Egg"@),
        9 => Some("Cards"@),
        10 => Some("Box of Heart Candy"@),
        11 => Some("Glass"@),
        12 => Some("Eraser"@),
        13 => Some("Mech. Pencil"@),
        14 => Some("Wristwatch"@),
        15 => Some("Holiday Pencil"@),
        16 => Some("CactusNeedle"@),
        17 => Some("BlackShard"@),
        18 => Some("QuillPen"@),
        _ => None,
    }
}

/// Looks up the display name of a light-world item identifier.
pub fn try_get_lightworld_item_name(item_id: i32) -> (r: Option<&'static str>)
    ensures
        ({
            match spec_lightworld_item_name(item_id) {
                Some(n) => r matches Some(s) && s@ == n,
                None => r is None,
            }
        }),
{
    match item_id {
        0 => Some("---"),
        1 => Some("Hot Chocolate"),
        2 => Some("Pencil"),
        3 => Some("Bandage"),
        4 => Some("Bouquet"),
        5 => Some("Ball of Junk"),
        6 => Some("Halloween Pencil"),
        7 => Some("Lucky Pencil"),
        8 => Some("Egg"),
        9 => Some("Cards"),
        10 => Some("Box of Heart Candy"),
        11 => Some("Glass"),
        12 => Some("Eraser"),
        13 => Some("Mech. Pencil"),
        14 => Some("Wristwatch"),
        15 => Some("Holiday Pencil"),
        16 => Some("CactusNeedle"),
        17 => Some("BlackShard"),
        18 => Some("QuillPen"),
        _ => None,
    }
}

} // verus!
