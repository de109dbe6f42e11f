use vstd::prelude::*;

verus! {

/// The known spell names, by identifier.
pub open spec fn spec_spell_name(spell_id: i32) -> Option<Seq<char>> {
    match spell_id {
        0 => Some("---"@),
        1 => Some("Rude Sword"@),
        2 => Some("Heal Prayer"@),
        3 => Some("Pacify"@),
        4 => Some("Rude Buster"@),
        5 => Some("Red Buster"@),
        6 => Some("Dual Heal"@),
        7 => Some("ACT"@),
        8 => Some("Sleep Mist"@),
        9 => Some("Ice Shock"@),
        10 => Some("SnowGrave"@),
        11 => Some("* Heal"@),
        _ => None,
    }
}

/// Looks up the display name of a spell identifier.
pub fn try_get_spell_name(spell_id: i32) -> (r: Option<&'static str>)
    ensures
        ({
            match spec_spell_name(spell_id) {
                Some(n) => r matches Some(s) && s@ == n,
                None => r is None,
            }
        }),
{
    match spell_id {
        0 => Some("---"),
        1 => Some("Rude Sword"),
        2 => Some("Heal Prayer"),
        3 => Some("Pacify"),
        4 => Some("Rude Buster"),
        5 => Some("Red Buster"),
        6 => Some("Dual Heal"),
        7 => Some("ACT"),
        8 => Some("Sleep Mist"),
        9 => Some("Ice Shock"),
        10 => Some("SnowGrave"),
        11 => Some("* Heal"),
        _ => None,
    }
}

} // verus!
