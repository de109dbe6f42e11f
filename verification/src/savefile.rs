//! The typed save-state record and its decoder.

use vstd::prelude::*;
use crate::floatval::FloatVal;

verus! {

/// Per-slot stat spread of one carried item.
#[derive(Debug)]
pub struct ItemStats {
    pub attack: i32,
    pub defense: i32,
    pub magic: i32,
    pub bolts: i32,
    pub graze_amount: i32,
    pub graze_size: i32,
    pub bolts_speed: i32,
    pub item_special: i32,
    /// Read from the file only for chapter 2 and up; zero for chapter 1.
    pub item_element: i32,
    /// Read from the file only for chapter 2 and up; zero for chapter 1.
    pub item_element_amount: FloatVal,
}

/// One party member's stat block.
#[derive(Debug)]
pub struct Stats {
    pub hp: i32,
    pub max_hp: i32,
    pub attack: i32,
    pub defense: i32,
    pub magic: i32,
    pub guts: i32,
    pub weapon: i32,
    pub armor1: i32,
    pub armor2: i32,
    pub weapon_style: String,
    pub item_stats: Vec<ItemStats>,
    pub spells: Vec<i32>,
}

impl Stats {
    /// Fixed layout: four item-stat blocks and twelve spell slots.
    pub open spec fn wf(self) -> bool {
        &&& self.item_stats@.len() == 4
        &&& self.spells@.len() == 12
    }
}

/// The light-world counterpart stat block.
#[derive(Debug)]
pub struct LightworldStats {
    pub weapon: i32,
    pub armor: i32,
    pub xp: i32,
    pub lv: i32,
    pub gold: i32,
    pub hp: i32,
    pub max_hp: i32,
    pub attack: i32,
    pub defense: i32,
    pub wstrength: i32,
    pub adef: i32,
}

/// Highest play time, in whole seconds, that a save state may carry: the
/// frame count it renders to stays within a 64-bit value.
pub open spec fn play_secs_cap() -> int {
    33_333_333_333_333_333
}

/// A fully decoded save file.
///
/// Array lengths are fixed by the chapter and never change after decoding;
/// [`SaveData::wf`] states them.
#[derive(Debug)]
pub struct SaveData {
    pub chapter: i32,
    pub true_name: String,
    pub vessel_names: Vec<String>,
    pub party: Vec<i32>,
    pub dark_dollars: i32,
    pub xp: i32,
    pub level: i32,
    pub inv: i32,
    pub invc: i32,
    pub is_darkworld: bool,
    pub stats: Vec<Stats>,
    pub bolt_speed: i32,
    pub graze_amount: i32,
    pub graze_size: i32,
    pub inventory: Vec<i32>,
    pub key_items: Vec<i32>,
    pub weapons: Vec<i32>,
    pub armors: Vec<i32>,
    /// Extra item storage, present only for chapter 2 and up.
    pub storage: Option<Vec<i32>>,
    pub tension: FloatVal,
    pub max_tension: FloatVal,
    pub lightworld_stats: LightworldStats,
    pub lightworld_items: Vec<i32>,
    pub lightworld_phone: Vec<i32>,
    pub flags: Vec<FloatVal>,
    pub plot_value: i32,
    pub room_id: i32,
    /// Elapsed play time in whole seconds (the file stores frames at 30 per
    /// second).
    pub time_played: u64,
}



} // verus!

verus! {

/// Ghost image of a [`Stats`] block: the same fields with text as character
/// sequences.
#[verifier::ext_equal]
pub ghost struct SpecStats {
    pub hp: i32,
    pub max_hp: i32,
    pub attack: i32,
    pub defense: i32,
    pub magic: i32,
    pub guts: i32,
    pub weapon: i32,
    pub armor1: i32,
    pub armor2: i32,
    pub weapon_style: Seq<char>,
    pub item_stats: Seq<ItemStats>,
    pub spells: Seq<i32>,
}

impl SpecStats {
    /// Fixed layout: four item-stat blocks and twelve spell slots.
    pub open spec fn wf(self) -> bool {
        &&& self.item_stats.len() == 4
        &&& self.spells.len() == 12
    }
}

impl View for Stats {
    type V = SpecStats;

    open spec fn view(&self) -> SpecStats {
        SpecStats {
            hp: self.hp,
            max_hp: self.max_hp,
            attack: self.attack,
            defense: self.defense,
            magic: self.magic,
            guts: self.guts,
            weapon: self.weapon,
            armor1: self.armor1,
            armor2: self.armor2,
            weapon_style: self.weapon_style@,
            item_stats: self.item_stats@,
            spells: self.spells@,
        }
    }
}

/// Ghost image of a [`SaveData`] record: the same fields with text as
/// character sequences and arrays as sequences.
#[verifier::ext_equal]
pub ghost struct SpecSaveData {
    pub chapter: i32,
    pub true_name: Seq<char>,
    pub vessel_names: Seq<Seq<char>>,
    pub party: Seq<i32>,
    pub dark_dollars: i32,
    pub xp: i32,
    pub level: i32,
    pub inv: i32,
    pub invc: i32,
    pub is_darkworld: bool,
    pub stats: Seq<SpecStats>,
    pub bolt_speed: i32,
    pub graze_amount: i32,
    pub graze_size: i32,
    pub inventory: Seq<i32>,
    pub key_items: Seq<i32>,
    pub weapons: Seq<i32>,
    pub armors: Seq<i32>,
    pub storage: Option<Seq<i32>>,
    pub tension: FloatVal,
    pub max_tension: FloatVal,
    pub lightworld_stats: LightworldStats,
    pub lightworld_items: Seq<i32>,
    pub lightworld_phone: Seq<i32>,
    pub flags: Seq<FloatVal>,
    pub plot_value: i32,
    pub room_id: i32,
    pub time_played: u64,
}

impl SpecSaveData {
    /// The lengths the chapter fixes for every array of the record.
    pub open spec fn wf(self) -> bool {
        &&& self.chapter >= 1
        &&& self.vessel_names.len() == 6
        &&& self.party.len() == 3
        &&& self.stats.len() == (if self.chapter == 1 {
            4int
        } else {
            5int
        })
        &&& forall|i: int| 0 <= i < self.stats.len() ==> (#[trigger] self.stats[i]).wf()
        &&& self.inventory.len() == 13
        &&& self.key_items.len() == 13
        &&& self.weapons.len() == (if self.chapter == 1 {
            13int
        } else {
            48int
        })
        &&& self.armors.len() == (if self.chapter == 1 {
            13int
        } else {
            48int
        })
        &&& (if self.chapter == 1 {
            self.storage is None
        } else {
            self.storage matches Some(st) && st.len() == 72
        })
        &&& self.lightworld_items.len() == 8
        &&& self.lightworld_phone.len() == 8
        &&& self.flags.len() == 2500
        &&& self.time_played <= play_secs_cap()
    }
}

impl View for SaveData {
    type V = SpecSaveData;

    open spec fn view(&self) -> SpecSaveData {
        SpecSaveData {
            chapter: self.chapter,
            true_name: self.true_name@,
            vessel_names: self.vessel_names@.map_values(|s: String| s@),
            party: self.party@,
            dark_dollars: self.dark_dollars,
            xp: self.xp,
            level: self.level,
            inv: self.inv,
            invc: self.invc,
            is_darkworld: self.is_darkworld,
            stats: self.stats@.map_values(|st: Stats| st@),
            bolt_speed: self.bolt_speed,
            graze_amount: self.graze_amount,
            graze_size: self.graze_size,
            inventory: self.inventory@,
            key_items: self.key_items@,
            weapons: self.weapons@,
            armors: self.armors@,
            storage: match self.storage {
                Some(st) => Some(st@),
                None => None,
            },
            tension: self.tension,
            max_tension: self.max_tension,
            lightworld_stats: self.lightworld_stats,
            lightworld_items: self.lightworld_items@,
            lightworld_phone: self.lightworld_phone@,
            flags: self.flags@,
            plot_value: self.plot_value,
            room_id: self.room_id,
            time_played: self.time_played,
        }
    }
}

} // verus!

use crate::errors::ParseError;
use crate::errors::ParseErrorKind;
use crate::save_parser::SaveParser;
use crate::save_parser::lines_view;
use crate::save_parser::sp_bool;
use crate::save_parser::sp_eof;
use crate::save_parser::sp_float;
use crate::save_parser::sp_floats;
use crate::save_parser::sp_ints;
use crate::save_parser::sp_lightworld;
use crate::save_parser::sp_prepend;
use crate::save_parser::sp_stats_vec;
use crate::save_parser::sp_string;
use crate::save_parser::sp_strings;
use crate::floatval::spec_play_secs;
use crate::floatval::play_secs;

verus! {

/// Mirror of the leading fields: the true name, six vessel names, three
/// party slots, five counters, and the dark-world flag.
pub open spec fn dec_head(lines: Seq<Seq<char>>, cur: int) -> Result<
    ((Seq<char>, Seq<Seq<char>>, Seq<i32>, Seq<i32>, bool), int),
    ParseError,
> {
    match sp_string(lines, cur) {
        Err(e) => Err(e),
        Ok((name, c1)) => match sp_strings(lines, c1, 6) {
            Err(e) => Err(e),
            Ok((vessels, c2)) => match sp_ints(lines, c2, 3) {
                Err(e) => Err(e),
                Ok((party, c3)) => match sp_ints(lines, c3, 5) {
                    Err(e) => Err(e),
                    Ok((head5, c4)) => match sp_bool(lines, c4) {
                        Err(e) => Err(e),
                        Ok((dark, c5)) => Ok(((name, vessels, party, head5, dark), c5)),
                    },
                },
            },
        },
    }
}

/// Mirror of the stat blocks and the three combat tuning counters.
pub open spec fn dec_mid(ch: i32, lines: Seq<Seq<char>>, cur: int) -> Result<
    ((Seq<SpecStats>, Seq<i32>), int),
    ParseError,
> {
    match sp_stats_vec(
        ch,
        lines,
        cur,
        if ch == 1 {
            4nat
        } else {
            5nat
        },
    ) {
        Err(e) => Err(e),
        Ok((stats, c1)) => match sp_ints(lines, c1, 3) {
            Err(e) => Err(e),
            Ok((tuning, c2)) => Ok(((stats, tuning), c2)),
        },
    }
}

/// Mirror of the item sections. Chapter 1 interleaves four values per slot
/// (item, key item, weapon, armor) over thirteen slots; later chapters
/// interleave two values per slot, then read forty-eight weapon and armor
/// pairs and seventy-two storage slots.
pub open spec fn dec_inventories(ch: i32, lines: Seq<Seq<char>>, cur: int) -> Result<
    ((Seq<i32>, Seq<i32>, Seq<i32>, Seq<i32>, Option<Seq<i32>>), int),
    ParseError,
> {
    if ch == 1 {
        match sp_ints(lines, cur, 52) {
            Err(e) => Err(e),
            Ok((vs, c)) => Ok(
                (
                    (
                        Seq::new(13, |i: int| vs[4 * i]),
                        Seq::new(13, |i: int| vs[4 * i + 1]),
                        Seq::new(13, |i: int| vs[4 * i + 2]),
                        Seq::new(13, |i: int| vs[4 * i + 3]),
                        None,
                    ),
                    c,
                ),
            ),
        }
    } else {
        match sp_ints(lines, cur, 26) {
            Err(e) => Err(e),
            Ok((vs, c1)) => match sp_ints(lines, c1, 96) {
                Err(e) => Err(e),
                Ok((wa, c2)) => match sp_ints(lines, c2, 72) {
                    Err(e) => Err(e),
                    Ok((st, c3)) => Ok(
                        (
                            (
                                Seq::new(13, |i: int| vs[2 * i]),
                                Seq::new(13, |i: int| vs[2 * i + 1]),
                                Seq::new(48, |i: int| wa[2 * i]),
                                Seq::new(48, |i: int| wa[2 * i + 1]),
                                Some(st),
                            ),
                            c3,
                        ),
                    ),
                },
            },
        }
    }
}

/// Mirror of the tension counters, the light-world stat block, and the
/// interleaved light-world item and phone slots.
pub open spec fn dec_lightworld(lines: Seq<Seq<char>>, cur: int) -> Result<
    ((FloatVal, FloatVal, LightworldStats, Seq<i32>, Seq<i32>), int),
    ParseError,
> {
    match sp_floats(lines, cur, 2) {
        Err(e) => Err(e),
        Ok((tens, c1)) => match sp_lightworld(lines, c1) {
            Err(e) => Err(e),
            Ok((lw, c2)) => match sp_ints(lines, c2, 16) {
                Err(e) => Err(e),
                Ok((ip, c3)) => Ok(
                    (
                        (
                            tens[0],
                            tens[1],
                            lw,
                            Seq::new(8, |i: int| ip[2 * i]),
                            Seq::new(8, |i: int| ip[2 * i + 1]),
                        ),
                        c3,
                    ),
                ),
            },
        },
    }
}

/// Mirror of the flag table and the closing fields. Chapter 1 stores 9999
/// flags, so the positions past 2500 are read and discarded; then come the
/// plot counter, the room, and the play-time frame count, which must be a
/// non-negative frame value.
pub open spec fn dec_tail(ch: i32, lines: Seq<Seq<char>>, cur: int) -> Result<
    ((Seq<FloatVal>, i32, i32, u64), int),
    ParseError,
> {
    match sp_floats(lines, cur, 2500) {
        Err(e) => Err(e),
        Ok((flags, c1)) => match (if ch == 1 {
            match sp_ints(lines, c1, 7499) {
                Err(e) => Err::<int, ParseError>(e),
                Ok((skipped, c2)) => Ok(c2),
            }
        } else {
            Ok(c1)
        }) {
            Err(e) => Err(e),
            Ok(c2) => match sp_ints(lines, c2, 2) {
                Err(e) => Err(e),
                Ok((pr, c3)) => match sp_float(lines, c3) {
                    Err(e) => Err(e),
                    Ok((frames, c4)) => match spec_play_secs(frames) {
                        None => Err(
                            ParseError {
                                kind: ParseErrorKind::FloatParse,
                                line: Some(c4 as usize),
                            },
                        ),
                        Some(secs) => Ok(((flags, pr[0], pr[1], secs as u64), c4)),
                    },
                },
            },
        },
    }
}

/// Mirror of the whole decode: the stages in order, then the end-of-input
/// check.
pub open spec fn decode_spec(chapter: i32, lines: Seq<Seq<char>>) -> Result<
    SpecSaveData,
    ParseError,
> {
    match dec_head(lines, 0) {
        Err(e) => Err(e),
        Ok((h, c1)) => match dec_mid(chapter, lines, c1) {
            Err(e) => Err(e),
            Ok((m, c2)) => match dec_inventories(chapter, lines, c2) {
                Err(e) => Err(e),
                Ok((inv, c3)) => match dec_lightworld(lines, c3) {
                    Err(e) => Err(e),
                    Ok((lw, c4)) => match dec_tail(chapter, lines, c4) {
                        Err(e) => Err(e),
                        Ok((t, c5)) => match sp_eof(lines, c5) {
                            Err(e) => Err(e),
                            Ok(_) => Ok(
                                SpecSaveData {
                                    chapter,
                                    true_name: h.0,
                                    vessel_names: h.1,
                                    party: h.2,
                                    dark_dollars: h.3[0],
                                    xp: h.3[1],
                                    level: h.3[2],
                                    inv: h.3[3],
                                    invc: h.3[4],
                                    is_darkworld: h.4,
                                    stats: m.0,
                                    bolt_speed: m.1[0],
                                    graze_amount: m.1[1],
                                    graze_size: m.1[2],
                                    inventory: inv.0,
                                    key_items: inv.1,
                                    weapons: inv.2,
                                    armors: inv.3,
                                    storage: inv.4,
                                    tension: lw.0,
                                    max_tension: lw.1,
                                    lightworld_stats: lw.2,
                                    lightworld_items: lw.3,
                                    lightworld_phone: lw.4,
                                    flags: t.0,
                                    plot_value: t.1,
                                    room_id: t.2,
                                    time_played: t.3,
                                },
                            ),
                        },
                    },
                },
            },
        },
    }
}

/// Copies every `stride`-th element of `vs`, starting at `offset`.
fn take_stride(vs: &Vec<i32>, offset: usize, stride: usize, count: usize) -> (r: Vec<i32>)
    requires
        stride >= 1,
        count >= 1,
        offset + stride * (count - 1) < vs@.len(),
    ensures
        r@ == Seq::new(count as nat, |i: int| vs@[offset + stride * i]),
{
    let mut out: Vec<i32> = Vec::new();
    let vlen = vs.len();
    let mut j: usize = 0;
    while j < count
        invariant
            0 <= j <= count,
            stride >= 1,
            count >= 1,
            vlen == vs@.len(),
            offset + stride * (count - 1) < vs@.len(),
            out@.len() == j,
            forall|k: int| 0 <= k < j ==> out@[k] == vs@[offset + stride * k],
        decreases count - j,
    {
        proof {
            assert(stride * j <= stride * (count - 1)) by (nonlinear_arith)
                requires
                    stride >= 1,
                    0 <= j <= count - 1,
            ;
            assert(stride * j >= 0) by (nonlinear_arith)
                requires
                    stride >= 1,
                    j >= 0,
            ;
            assert(offset + stride * j < vs@.len());
        }
        let idx = offset + stride * j;
        out.push(vs[idx]);
        j = j + 1;
    }
    proof {
        assert(out@ =~= Seq::new(count as nat, |i: int| vs@[offset + stride * i]));
    }
    out
}

} // verus!

verus! {

impl SaveData {
    /// The lengths the chapter fixes for every array of the record.
    pub open spec fn wf(self) -> bool {
        self@.wf()
    }

    /// Decodes a full save state from its lines under the chapter's schema,
    /// exactly as [`decode_spec`] describes: one fully populated record, or
    /// the first failure with its line number and nothing else.
    #[verifier::loop_isolation(false)]
    #[verifier::rlimit(100)]
    pub fn read(chapter: i32, save_lines: &Vec<String>) -> (r: Result<SaveData, ParseError>)
        requires
            chapter >= 1,
        ensures
            match decode_spec(chapter, lines_view(save_lines@)) {
                Ok(sd) => r matches Ok(d) && d@ == sd && d.wf(),
                Err(e) => r == Err::<SaveData, ParseError>(e),
            },
    {
        let ghost l0 = lines_view(save_lines@);
        let mut parser = SaveParser::new(chapter, save_lines);
        let is_chapter_1 = chapter == 1;

        let true_name = match parser.parse_string() {
            Ok(v) => v,
            Err(e) => {
                return Err(e);
            },
        };
        let vessel_names = match parser.parse_strings(6) {
            Ok(v) => v,
            Err(e) => {
                return Err(e);
            },
        };
        let party = match parser.parse_ints(3) {
            Ok(v) => v,
            Err(e) => {
                return Err(e);
            },
        };
        let head5 = match parser.parse_ints(5) {
            Ok(v) => v,
            Err(e) => {
                return Err(e);
            },
        };
        let is_darkworld = match parser.parse_bool() {
            Ok(v) => v,
            Err(e) => {
                return Err(e);
            },
        };

        let stat_blocks: usize = if is_chapter_1 {
            4
        } else {
            5
        };
        let mut stats: Vec<Stats> = Vec::new();
        let ghost c_st = parser.cursor();
        let mut i: usize = 0;
        while i < stat_blocks
            invariant
                0 <= i <= stat_blocks,
                parser.wf(),
                parser.slines() == l0,
                parser.spec_chapter() == chapter,
                stats@.len() == i,
                forall|k: int| 0 <= k < i ==> (#[trigger] stats@[k]).wf(),
                sp_stats_vec(chapter, l0, c_st, stat_blocks as nat) == sp_prepend(
                    stats@.map_values(|st: Stats| st@),
                    sp_stats_vec(chapter, l0, parser.cursor(), (stat_blocks - i) as nat),
                ),
            decreases stat_blocks - i,
        {
            let ghost rest = sp_stats_vec(chapter, l0, parser.cursor(), (stat_blocks - i) as nat);
            match parser.parse_stats() {
                Ok(st) => {
                    proof {
                        let tail = sp_stats_vec(
                            chapter,
                            l0,
                            parser.cursor(),
                            (stat_blocks - i - 1) as nat,
                        );
                        assert(rest == sp_prepend(seq![st@], tail));
                        assert(stats@.push(st).map_values(|s: Stats| s@) =~= stats@.map_values(
                            |s: Stats| s@,
                        ).push(st@));
                        match tail {
                            Ok((vs, c)) => {
                                assert(stats@.map_values(|s: Stats| s@).push(st@) + vs
                                    =~= stats@.map_values(|s: Stats| s@) + (seq![st@] + vs));
                            },
                            Err(_) => {},
                        }
                    }
                    stats.push(st);
                },
                Err(e) => {
                    return Err(e);
                },
            }
            i = i + 1;
        }
        proof {
            assert(stats@.map_values(|s: Stats| s@) + Seq::<SpecStats>::empty()
                =~= stats@.map_values(|s: Stats| s@));
        }

        let tuning = match parser.parse_ints(3) {
            Ok(v) => v,
            Err(e) => {
                return Err(e);
            },
        };

        let inventory: Vec<i32>;
        let key_items: Vec<i32>;
        let weapons: Vec<i32>;
        let armors: Vec<i32>;
        let storage: Option<Vec<i32>>;
        if is_chapter_1 {
            let vs = match parser.parse_ints(52) {
                Ok(v) => v,
                Err(e) => {
                    return Err(e);
                },
            };
            inventory = take_stride(&vs, 0, 4, 13);
            key_items = take_stride(&vs, 1, 4, 13);
            weapons = take_stride(&vs, 2, 4, 13);
            armors = take_stride(&vs, 3, 4, 13);
            storage = None;
            proof {
                assert(inventory@ =~= Seq::new(13, |i: int| vs@[4 * i]));
                assert(key_items@ =~= Seq::new(13, |i: int| vs@[4 * i + 1]));
                assert(weapons@ =~= Seq::new(13, |i: int| vs@[4 * i + 2]));
                assert(armors@ =~= Seq::new(13, |i: int| vs@[4 * i + 3]));
            }
        } else {
            let vs = match parser.parse_ints(26) {
                Ok(v) => v,
                Err(e) => {
                    return Err(e);
                },
            };
            let wa = match parser.parse_ints(96) {
                Ok(v) => v,
                Err(e) => {
                    return Err(e);
                },
            };
            let st = match parser.parse_ints(72) {
                Ok(v) => v,
                Err(e) => {
                    return Err(e);
                },
            };
            inventory = take_stride(&vs, 0, 2, 13);
            key_items = take_stride(&vs, 1, 2, 13);
            weapons = take_stride(&wa, 0, 2, 48);
            armors = take_stride(&wa, 1, 2, 48);
            storage = Some(st);
            proof {
                assert(inventory@ =~= Seq::new(13, |i: int| vs@[2 * i]));
                assert(key_items@ =~= Seq::new(13, |i: int| vs@[2 * i + 1]));
                assert(weapons@ =~= Seq::new(48, |i: int| wa@[2 * i]));
                assert(armors@ =~= Seq::new(48, |i: int| wa@[2 * i + 1]));
            }
        }

        let tens = match parser.parse_floats(2) {
            Ok(v) => v,
            Err(e) => {
                return Err(e);
            },
        };
        let lightworld_stats = match parser.parse_lightworld_stats() {
            Ok(v) => v,
            Err(e) => {
                return Err(e);
            },
        };
        let ip = match parser.parse_ints(16) {
            Ok(v) => v,
            Err(e) => {
                return Err(e);
            },
        };
        let lightworld_items = take_stride(&ip, 0, 2, 8);
        let lightworld_phone = take_stride(&ip, 1, 2, 8);
        proof {
            assert(lightworld_items@ =~= Seq::new(8, |i: int| ip@[2 * i]));
            assert(lightworld_phone@ =~= Seq::new(8, |i: int| ip@[2 * i + 1]));
        }

        let flags = match parser.parse_floats(2500) {
            Ok(v) => v,
            Err(e) => {
                return Err(e);
            },
        };
        if is_chapter_1 {
            // chapter 1 stores 9999 flags; the rest are read and discarded
            match parser.parse_ints(7499) {
                Ok(_) => {},
                Err(e) => {
                    return Err(e);
                },
            }
        }
        let pr = match parser.parse_ints(2) {
            Ok(v) => v,
            Err(e) => {
                return Err(e);
            },
        };
        let frames = match parser.parse_float() {
            Ok(v) => v,
            Err(e) => {
                return Err(e);
            },
        };
        let time_played = match play_secs(&frames) {
            Some(s) => s,
            None => {
                return Err(ParseError::new(ParseErrorKind::FloatParse, Some(parser.position())));
            },
        };
        match parser.expect_eof() {
            Ok(_) => {},
            Err(e) => {
                return Err(e);
            },
        }

        let d = SaveData {
            chapter,
            true_name,
            vessel_names,
            party,
            dark_dollars: head5[0],
            xp: head5[1],
            level: head5[2],
            inv: head5[3],
            invc: head5[4],
            is_darkworld,
            stats,
            bolt_speed: tuning[0],
            graze_amount: tuning[1],
            graze_size: tuning[2],
            inventory,
            key_items,
            weapons,
            armors,
            storage,
            tension: tens[0],
            max_tension: tens[1],
            lightworld_stats,
            lightworld_items,
            lightworld_phone,
            flags,
            plot_value: pr[0],
            room_id: pr[1],
            time_played,
        };
        proof {
            assert(d@.vessel_names =~= lines_view(d.vessel_names@));
            assert(decode_spec(chapter, l0) matches Ok(sd) && d@ =~= sd);
            assert(d.wf());
        }
        Ok(d)
    }
}

} // verus!
