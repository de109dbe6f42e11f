//! The merge driver: walks every field of two save states (and an optional
//! ancestor) in the exact order the decoder consumes them, applies the
//! policy picked for the field, and emits one merge outcome per output
//! line. The emitted sequence re-serializes into a loadable save file.

use vstd::prelude::*;
use crate::errors::MergeError;
use crate::floatval::FloatVal;
use crate::merging::Diagnostic;
use crate::merging::MergeResult;
use crate::merging::count_val;
use crate::merging::merge_inv_spec;
use crate::merging::merge_inventories;
use crate::merging::merge_max;
use crate::merging::merge_max_spec;
use crate::merging::merge_same;
use crate::merging::merge_same_spec;
use crate::merging::merge_simple;
use crate::merging::merge_simple_spec;
use crate::merging::merge_values;
use crate::merging::merge_values_spec;
use crate::savefile::ItemStats;
use crate::savefile::LightworldStats;
use crate::savefile::SaveData;
use crate::savefile::SpecSaveData;
use crate::savefile::SpecStats;
use crate::savefile::Stats;
use crate::serialize::rend_bool;
use crate::serialize::rend_float;
use crate::serialize::rend_i32;
use crate::serialize::rend_u64;
use crate::serialize::serialize_bool;
use crate::serialize::serialize_float;
use crate::serialize::serialize_i32;
use crate::serialize::serialize_str;
use crate::serialize::serialize_u64;
use vstd::string::StringExecFns;

verus! {

/// The character view of every emitted line outcome.
pub open spec fn out_view(data: Seq<MergeResult<String>>) -> Seq<MergeResult<Seq<char>>> {
    data.map_values(|m: MergeResult<String>| m@)
}

/// A resolved output line.
pub open spec fn res(s: Seq<char>) -> MergeResult<Seq<char>> {
    MergeResult::Resolved(s)
}

/// An integer merge outcome, rendered per branch.
pub open spec fn rend_mr_i32(m: MergeResult<i32>) -> MergeResult<Seq<char>> {
    match m {
        MergeResult::Resolved(v) => MergeResult::Resolved(rend_i32(v)),
        MergeResult::Conflict { ours, theirs, ancestor } => MergeResult::Conflict {
            ours: rend_i32(ours),
            theirs: rend_i32(theirs),
            ancestor: match ancestor {
                Some(a) => Some(rend_i32(a)),
                None => None,
            },
        },
    }
}

/// A wide-counter merge outcome, rendered per branch.
pub open spec fn rend_mr_i64(m: MergeResult<i64>) -> MergeResult<Seq<char>> {
    match m {
        MergeResult::Resolved(v) => MergeResult::Resolved(
            crate::numtext::int_text_rend(v as int) + seq![' '],
        ),
        MergeResult::Conflict { ours, theirs, ancestor } => MergeResult::Conflict {
            ours: crate::numtext::int_text_rend(ours as int) + seq![' '],
            theirs: crate::numtext::int_text_rend(theirs as int) + seq![' '],
            ancestor: match ancestor {
                Some(a) => Some(crate::numtext::int_text_rend(a as int) + seq![' ']),
                None => None,
            },
        },
    }
}

/// An unsigned-counter merge outcome, rendered per branch.
pub open spec fn rend_mr_u64(m: MergeResult<u64>) -> MergeResult<Seq<char>> {
    match m {
        MergeResult::Resolved(v) => MergeResult::Resolved(rend_u64(v)),
        MergeResult::Conflict { ours, theirs, ancestor } => MergeResult::Conflict {
            ours: rend_u64(ours),
            theirs: rend_u64(theirs),
            ancestor: match ancestor {
                Some(a) => Some(rend_u64(a)),
                None => None,
            },
        },
    }
}

/// A fraction merge outcome, rendered per branch.
pub open spec fn rend_mr_float(m: MergeResult<FloatVal>) -> MergeResult<Seq<char>> {
    match m {
        MergeResult::Resolved(v) => MergeResult::Resolved(rend_float(v)),
        MergeResult::Conflict { ours, theirs, ancestor } => MergeResult::Conflict {
            ours: rend_float(ours),
            theirs: rend_float(theirs),
            ancestor: match ancestor {
                Some(a) => Some(rend_float(a)),
                None => None,
            },
        },
    }
}

/// Maps the value inside an optional ancestor.
pub open spec fn omap<A, B>(o: Option<A>, f: spec_fn(A) -> B) -> Option<B> {
    match o {
        Some(x) => Some(f(x)),
        None => None,
    }
}

} // verus!

verus! {

impl MergeResult<String> {
    /// True of a conflict outcome; the caller uses it to pick the process
    /// exit convention.
    pub fn is_conflict(&self) -> (r: bool)
        ensures
            r == (self@ is Conflict),
    {
        match self {
            MergeResult::Conflict { .. } => true,
            MergeResult::Resolved(_) => false,
        }
    }
}

/// Pushes a resolved integer line.
fn push_res_i32(data: &mut Vec<MergeResult<String>>, v: i32)
    ensures
        out_view(final(data)@) == out_view(old(data)@).push(res(rend_i32(v))),
{
    data.push(MergeResult::Resolved(serialize_i32(v)));
    proof {
        assert(out_view(final(data)@) =~= out_view(old(data)@).push(res(rend_i32(v))));
    }
}

/// Pushes a resolved raw text line.
fn push_res_str(data: &mut Vec<MergeResult<String>>, v: &str)
    ensures
        out_view(final(data)@) == out_view(old(data)@).push(res(v@)),
{
    data.push(MergeResult::Resolved(serialize_str(v)));
    proof {
        assert(out_view(final(data)@) =~= out_view(old(data)@).push(res(v@)));
    }
}

/// Pushes an integer merge outcome.
fn push_mr_i32(data: &mut Vec<MergeResult<String>>, m: MergeResult<i32>)
    ensures
        out_view(final(data)@) == out_view(old(data)@).push(rend_mr_i32(m)),
{
    let rendered = match m {
        MergeResult::Resolved(v) => MergeResult::Resolved(serialize_i32(v)),
        MergeResult::Conflict { ours, theirs, ancestor } => MergeResult::Conflict {
            ours: serialize_i32(ours),
            theirs: serialize_i32(theirs),
            ancestor: match ancestor {
                Some(a) => Some(serialize_i32(a)),
                None => None,
            },
        },
    };
    data.push(rendered);
    proof {
        assert(out_view(final(data)@) =~= out_view(old(data)@).push(rend_mr_i32(m)));
    }
}

/// Pushes a wide-counter merge outcome.
fn push_mr_i64(data: &mut Vec<MergeResult<String>>, m: MergeResult<i64>)
    ensures
        out_view(final(data)@) == out_view(old(data)@).push(rend_mr_i64(m)),
{
    let rendered = match m {
        MergeResult::Resolved(v) => MergeResult::Resolved(serialize_i64_line(v)),
        MergeResult::Conflict { ours, theirs, ancestor } => MergeResult::Conflict {
            ours: serialize_i64_line(ours),
            theirs: serialize_i64_line(theirs),
            ancestor: match ancestor {
                Some(a) => Some(serialize_i64_line(a)),
                None => None,
            },
        },
    };
    data.push(rendered);
    proof {
        assert(out_view(final(data)@) =~= out_view(old(data)@).push(rend_mr_i64(m)));
    }
}

/// Renders a wide counter line with its trailing space.
fn serialize_i64_line(v: i64) -> (r: String)
    ensures
        r@ == crate::numtext::int_text_rend(v as int) + seq![' '],
{
    let mut s = crate::numtext::render_int(v);
    proof {
        reveal_strlit(" ");
    }
    s.append(" ");
    proof {
        assert(s@ =~= crate::numtext::int_text_rend(v as int) + seq![' ']);
    }
    s
}

/// Pushes an unsigned-counter merge outcome.
fn push_mr_u64(data: &mut Vec<MergeResult<String>>, m: MergeResult<u64>)
    ensures
        out_view(final(data)@) == out_view(old(data)@).push(rend_mr_u64(m)),
{
    let rendered = match m {
        MergeResult::Resolved(v) => MergeResult::Resolved(serialize_u64(v)),
        MergeResult::Conflict { ours, theirs, ancestor } => MergeResult::Conflict {
            ours: serialize_u64(ours),
            theirs: serialize_u64(theirs),
            ancestor: match ancestor {
                Some(a) => Some(serialize_u64(a)),
                None => None,
            },
        },
    };
    data.push(rendered);
    proof {
        assert(out_view(final(data)@) =~= out_view(old(data)@).push(rend_mr_u64(m)));
    }
}

/// Pushes a fraction merge outcome.
fn push_mr_float(data: &mut Vec<MergeResult<String>>, m: MergeResult<FloatVal>)
    ensures
        out_view(final(data)@) == out_view(old(data)@).push(rend_mr_float(m)),
{
    let rendered = match m {
        MergeResult::Resolved(v) => MergeResult::Resolved(serialize_float(&v)),
        MergeResult::Conflict { ours, theirs, ancestor } => MergeResult::Conflict {
            ours: serialize_float(&ours),
            theirs: serialize_float(&theirs),
            ancestor: match ancestor {
                Some(a) => Some(serialize_float(&a)),
                None => None,
            },
        },
    };
    data.push(rendered);
    proof {
        assert(out_view(final(data)@) =~= out_view(old(data)@).push(rend_mr_float(m)));
    }
}

/// Pushes a resolved boolean line.
fn push_res_bool(data: &mut Vec<MergeResult<String>>, b: bool)
    ensures
        out_view(final(data)@) == out_view(old(data)@).push(res(rend_bool(b))),
{
    data.push(MergeResult::Resolved(serialize_bool(b)));
    proof {
        assert(out_view(final(data)@) =~= out_view(old(data)@).push(res(rend_bool(b))));
    }
}

} // verus!

verus! {

/// The carried-over lines of one item-stat block: eight counters, plus the
/// element pair for chapter 2 and up.
pub open spec fn item_block_lines(b: ItemStats, ch: i32) -> Seq<MergeResult<Seq<char>>> {
    seq![
        res(rend_i32(b.attack)),
        res(rend_i32(b.defense)),
        res(rend_i32(b.magic)),
        res(rend_i32(b.bolts)),
        res(rend_i32(b.graze_amount)),
        res(rend_i32(b.graze_size)),
        res(rend_i32(b.bolts_speed)),
        res(rend_i32(b.item_special)),
    ] + if ch > 1 {
        seq![res(rend_i32(b.item_element)), res(rend_float(b.item_element_amount))]
    } else {
        Seq::<MergeResult<Seq<char>>>::empty()
    }
}

/// The merged lines of one item-stat block, every counter under the
/// equal-or-ancestor-pick policy.
pub open spec fn item_block_merged(
    o: ItemStats,
    t: ItemStats,
    a: Option<ItemStats>,
    ch: i32,
) -> Seq<MergeResult<Seq<char>>> {
    seq![
        rend_mr_i32(merge_simple_spec(o.attack, t.attack, omap(a, |x: ItemStats| x.attack))),
        rend_mr_i32(merge_simple_spec(o.defense, t.defense, omap(a, |x: ItemStats| x.defense))),
        rend_mr_i32(merge_simple_spec(o.magic, t.magic, omap(a, |x: ItemStats| x.magic))),
        rend_mr_i32(merge_simple_spec(o.bolts, t.bolts, omap(a, |x: ItemStats| x.bolts))),
        rend_mr_i32(
            merge_simple_spec(
                o.graze_amount,
                t.graze_amount,
                omap(a, |x: ItemStats| x.graze_amount),
            ),
        ),
        rend_mr_i32(
            merge_simple_spec(o.graze_size, t.graze_size, omap(a, |x: ItemStats| x.graze_size)),
        ),
        rend_mr_i32(
            merge_simple_spec(
                o.bolts_speed,
                t.bolts_speed,
                omap(a, |x: ItemStats| x.bolts_speed),
            ),
        ),
        rend_mr_i32(
            merge_simple_spec(
                o.item_special,
                t.item_special,
                omap(a, |x: ItemStats| x.item_special),
            ),
        ),
    ] + if ch > 1 {
        seq![
            rend_mr_i32(
                merge_simple_spec(
                    o.item_element,
                    t.item_element,
                    omap(a, |x: ItemStats| x.item_element),
                ),
            ),
            rend_mr_float(
                merge_simple_spec(
                    o.item_element_amount,
                    t.item_element_amount,
                    omap(a, |x: ItemStats| x.item_element_amount),
                ),
            ),
        ]
    } else {
        Seq::<MergeResult<Seq<char>>>::empty()
    }
}

/// The merged lines of one full stat block: the healed hit points (the
/// merged maximum, written twice), the merged base counters, the carried
/// equipment and style, the carried item-stat blocks, and the spell slots
/// under the equal-or-conflict policy.
pub open spec fn stats_section_spec(
    o: SpecStats,
    t: SpecStats,
    a: Option<SpecStats>,
    ch: i32,
) -> Seq<MergeResult<Seq<char>>> {
    let mhp = rend_mr_i32(merge_simple_spec(o.max_hp, t.max_hp, omap(a, |x: SpecStats| x.max_hp)));
    seq![
        mhp,
        mhp,
        rend_mr_i32(merge_simple_spec(o.attack, t.attack, omap(a, |x: SpecStats| x.attack))),
        rend_mr_i32(merge_simple_spec(o.defense, t.defense, omap(a, |x: SpecStats| x.defense))),
        rend_mr_i32(merge_simple_spec(o.magic, t.magic, omap(a, |x: SpecStats| x.magic))),
        rend_mr_i32(merge_simple_spec(o.guts, t.guts, omap(a, |x: SpecStats| x.guts))),
        res(rend_i32(o.weapon)),
        res(rend_i32(o.armor1)),
        res(rend_i32(o.armor2)),
        res(o.weapon_style),
    ] + item_block_lines(o.item_stats[0], ch) + item_block_lines(o.item_stats[1], ch)
        + item_block_lines(o.item_stats[2], ch) + item_block_lines(o.item_stats[3], ch)
        + spells_lines(o.spells, t.spells, omap(a, |x: SpecStats| x.spells))
}

/// The merged spell-slot lines, each under the equal-or-conflict policy.
pub open spec fn spells_lines(o: Seq<i32>, t: Seq<i32>, a: Option<Seq<i32>>) -> Seq<
    MergeResult<Seq<char>>,
> {
    Seq::new(
        12,
        |i: int| rend_mr_i32(merge_same_spec(o[i], t[i], omap(a, |s: Seq<i32>| s[i]))),
    )
}

/// The merged lines of every stat block from `i` on.
pub open spec fn stats_blocks_spec(
    o: Seq<SpecStats>,
    t: Seq<SpecStats>,
    a: Option<Seq<SpecStats>>,
    ch: i32,
    i: nat,
) -> Seq<MergeResult<Seq<char>>>
    decreases o.len() - i,
{
    if i >= o.len() {
        Seq::<MergeResult<Seq<char>>>::empty()
    } else {
        stats_section_spec(o[i as int], t[i as int], omap(a, |s: Seq<SpecStats>| s[i as int]), ch)
            + stats_blocks_spec(o, t, a, ch, i + 1)
    }
}

/// Merges one item-stat block field by field, the element pair only for
/// chapter 2 and up, and appends the outcome lines.
pub fn merge_item_stats(
    output: &mut Vec<MergeResult<String>>,
    ours: &ItemStats,
    theirs: &ItemStats,
    ancestor: Option<&ItemStats>,
    chapter: i32,
)
    ensures
        out_view(final(output)@) == out_view(old(output)@) + item_block_merged(
            *ours,
            *theirs,
            match ancestor {
                Some(a) => Some(*a),
                None => None,
            },
            chapter,
        ),
{
    let ghost a0 = match ancestor {
        Some(a) => Some(*a),
        None => None,
    };
    push_mr_i32(
        output,
        merge_simple(
            ours.attack,
            theirs.attack,
            match ancestor {
                Some(a) => Some(a.attack),
                None => None,
            },
        ),
    );
    push_mr_i32(
        output,
        merge_simple(
            ours.defense,
            theirs.defense,
            match ancestor {
                Some(a) => Some(a.defense),
                None => None,
            },
        ),
    );
    push_mr_i32(
        output,
        merge_simple(
            ours.magic,
            theirs.magic,
            match ancestor {
                Some(a) => Some(a.magic),
                None => None,
            },
        ),
    );
    push_mr_i32(
        output,
        merge_simple(
            ours.bolts,
            theirs.bolts,
            match ancestor {
                Some(a) => Some(a.bolts),
                None => None,
            },
        ),
    );
    push_mr_i32(
        output,
        merge_simple(
            ours.graze_amount,
            theirs.graze_amount,
            match ancestor {
                Some(a) => Some(a.graze_amount),
                None => None,
            },
        ),
    );
    push_mr_i32(
        output,
        merge_simple(
            ours.graze_size,
            theirs.graze_size,
            match ancestor {
                Some(a) => Some(a.graze_size),
                None => None,
            },
        ),
    );
    push_mr_i32(
        output,
        merge_simple(
            ours.bolts_speed,
            theirs.bolts_speed,
            match ancestor {
                Some(a) => Some(a.bolts_speed),
                None => None,
            },
        ),
    );
    push_mr_i32(
        output,
        merge_simple(
            ours.item_special,
            theirs.item_special,
            match ancestor {
                Some(a) => Some(a.item_special),
                None => None,
            },
        ),
    );
    if chapter > 1 {
        push_mr_i32(
            output,
            merge_simple(
                ours.item_element,
                theirs.item_element,
                match ancestor {
                    Some(a) => Some(a.item_element),
                    None => None,
                },
            ),
        );
        push_mr_float(
            output,
            merge_simple(
                ours.item_element_amount,
                theirs.item_element_amount,
                match ancestor {
                    Some(a) => Some(a.item_element_amount),
                    None => None,
                },
            ),
        );
    }
    proof {
        assert(out_view(final(output)@) =~= out_view(old(output)@) + item_block_merged(
            *ours,
            *theirs,
            a0,
            chapter,
        ));
    }
}

} // verus!

verus! {

/// The merged lines of the light-world stat block, every field under the
/// equal-or-ancestor-pick policy.
pub open spec fn lw_section_spec(
    o: LightworldStats,
    t: LightworldStats,
    a: Option<LightworldStats>,
) -> Seq<MergeResult<Seq<char>>> {
    seq![
        rend_mr_i32(merge_simple_spec(o.weapon, t.weapon, omap(a, |x: LightworldStats| x.weapon))),
        rend_mr_i32(merge_simple_spec(o.armor, t.armor, omap(a, |x: LightworldStats| x.armor))),
        rend_mr_i32(merge_simple_spec(o.xp, t.xp, omap(a, |x: LightworldStats| x.xp))),
        rend_mr_i32(merge_simple_spec(o.lv, t.lv, omap(a, |x: LightworldStats| x.lv))),
        rend_mr_i32(merge_simple_spec(o.gold, t.gold, omap(a, |x: LightworldStats| x.gold))),
        rend_mr_i32(merge_simple_spec(o.hp, t.hp, omap(a, |x: LightworldStats| x.hp))),
        rend_mr_i32(merge_simple_spec(o.max_hp, t.max_hp, omap(a, |x: LightworldStats| x.max_hp))),
        rend_mr_i32(merge_simple_spec(o.attack, t.attack, omap(a, |x: LightworldStats| x.attack))),
        rend_mr_i32(
            merge_simple_spec(o.defense, t.defense, omap(a, |x: LightworldStats| x.defense)),
        ),
        rend_mr_i32(
            merge_simple_spec(o.wstrength, t.wstrength, omap(a, |x: LightworldStats| x.wstrength)),
        ),
        rend_mr_i32(merge_simple_spec(o.adef, t.adef, omap(a, |x: LightworldStats| x.adef))),
    ]
}

/// Merges the light-world stat block field by field and appends the
/// outcome lines.
pub fn merge_lightworld_stats(
    output: &mut Vec<MergeResult<String>>,
    ours: &LightworldStats,
    theirs: &LightworldStats,
    ancestor: Option<&LightworldStats>,
)
    ensures
        out_view(final(output)@) == out_view(old(output)@) + lw_section_spec(
            *ours,
            *theirs,
            match ancestor {
                Some(a) => Some(*a),
                None => None,
            },
        ),
{
    let ghost a0 = match ancestor {
        Some(a) => Some(*a),
        None => None,
    };
    push_mr_i32(
        output,
        merge_simple(
            ours.weapon,
            theirs.weapon,
            match ancestor {
                Some(a) => Some(a.weapon),
                None => None,
            },
        ),
    );
    push_mr_i32(
        output,
        merge_simple(
            ours.armor,
            theirs.armor,
            match ancestor {
                Some(a) => Some(a.armor),
                None => None,
            },
        ),
    );
    push_mr_i32(
        output,
        merge_simple(
            ours.xp,
            theirs.xp,
            match ancestor {
                Some(a) => Some(a.xp),
                None => None,
            },
        ),
    );
    push_mr_i32(
        output,
        merge_simple(
            ours.lv,
            theirs.lv,
            match ancestor {
                Some(a) => Some(a.lv),
                None => None,
            },
        ),
    );
    push_mr_i32(
        output,
        merge_simple(
            ours.gold,
            theirs.gold,
            match ancestor {
                Some(a) => Some(a.gold),
                None => None,
            },
        ),
    );
    push_mr_i32(
        output,
        merge_simple(
            ours.hp,
            theirs.hp,
            match ancestor {
                Some(a) => Some(a.hp),
                None => None,
            },
        ),
    );
    push_mr_i32(
        output,
        merge_simple(
            ours.max_hp,
            theirs.max_hp,
            match ancestor {
                Some(a) => Some(a.max_hp),
                None => None,
            },
        ),
    );
    push_mr_i32(
        output,
        merge_simple(
            ours.attack,
            theirs.attack,
            match ancestor {
                Some(a) => Some(a.attack),
                None => None,
            },
        ),
    );
    push_mr_i32(
        output,
        merge_simple(
            ours.defense,
            theirs.defense,
            match ancestor {
                Some(a) => Some(a.defense),
                None => None,
            },
        ),
    );
    push_mr_i32(
        output,
        merge_simple(
            ours.wstrength,
            theirs.wstrength,
            match ancestor {
                Some(a) => Some(a.wstrength),
                None => None,
            },
        ),
    );
    push_mr_i32(
        output,
        merge_simple(
            ours.adef,
            theirs.adef,
            match ancestor {
                Some(a) => Some(a.adef),
                None => None,
            },
        ),
    );
    proof {
        assert(out_view(final(output)@) =~= out_view(old(output)@) + lw_section_spec(
            *ours,
            *theirs,
            a0,
        ));
    }
}

/// One carried line for each of `xs[i..n]`.
pub open spec fn single_lines(xs: Seq<i32>, i: nat, n: nat) -> Seq<MergeResult<Seq<char>>>
    decreases n - i,
{
    if i >= n {
        Seq::<MergeResult<Seq<char>>>::empty()
    } else {
        seq![res(rend_i32(xs[i as int]))] + single_lines(xs, i + 1, n)
    }
}

/// Two carried lines per slot, `xs` then `ys`, for slots `i..n`.
pub open spec fn pair_lines(xs: Seq<i32>, ys: Seq<i32>, i: nat, n: nat) -> Seq<
    MergeResult<Seq<char>>,
>
    decreases n - i,
{
    if i >= n {
        Seq::<MergeResult<Seq<char>>>::empty()
    } else {
        seq![res(rend_i32(xs[i as int])), res(rend_i32(ys[i as int]))] + pair_lines(xs, ys, i + 1, n)
    }
}

/// Four carried lines per slot for slots `i..n`.
pub open spec fn quad_lines(
    ws: Seq<i32>,
    xs: Seq<i32>,
    ys: Seq<i32>,
    zs: Seq<i32>,
    i: nat,
    n: nat,
) -> Seq<MergeResult<Seq<char>>>
    decreases n - i,
{
    if i >= n {
        Seq::<MergeResult<Seq<char>>>::empty()
    } else {
        seq![
            res(rend_i32(ws[i as int])),
            res(rend_i32(xs[i as int])),
            res(rend_i32(ys[i as int])),
            res(rend_i32(zs[i as int])),
        ] + quad_lines(ws, xs, ys, zs, i + 1, n)
    }
}

/// `n` literal zero lines, the legacy flag-table tail of chapter 1.
pub open spec fn zero_lines(n: nat) -> Seq<MergeResult<Seq<char>>>
    decreases n,
{
    if n == 0 {
        Seq::<MergeResult<Seq<char>>>::empty()
    } else {
        seq![res("0"@)] + zero_lines((n - 1) as nat)
    }
}

/// The merged flag lines: with an ancestor each flag takes the
/// equal-or-ancestor-pick policy; without one the larger value wins.
pub open spec fn flags_spec(
    of: Seq<FloatVal>,
    tf: Seq<FloatVal>,
    af: Option<Seq<FloatVal>>,
) -> Seq<MergeResult<Seq<char>>> {
    Seq::new(
        2500,
        |i: int|
            match af {
                Some(av) => rend_mr_float(merge_simple_spec(of[i], tf[i], Some(av[i]))),
                None => rend_mr_float(merge_max_spec(of[i], tf[i])),
            },
    )
}

/// Emits one carried line for each of `xs[from..from+n]`.
#[verifier::loop_isolation(false)]
fn emit_singles(data: &mut Vec<MergeResult<String>>, xs: &Vec<i32>, from: usize, n: usize)
    requires
        from + n <= xs@.len(),
    ensures
        out_view(final(data)@) == out_view(old(data)@) + single_lines(
            xs@.skip(from as int),
            0,
            n as nat,
        ),
{
    let ghost tailseq = xs@.skip(from as int);
    let xl = xs.len();
    let mut i: usize = 0;
    while i < n
        invariant
            0 <= i <= n,
            out_view(data@) + single_lines(tailseq, i as nat, n as nat) == out_view(old(data)@)
                + single_lines(tailseq, 0, n as nat),
        decreases n - i,
    {
        let ghost before = out_view(data@);
        push_res_i32(data, xs[from + i]);
        proof {
            assert(tailseq[i as int] == xs@[from + i]);
            assert(before.push(res(rend_i32(xs@[from + i]))) + single_lines(
                tailseq,
                (i + 1) as nat,
                n as nat,
            ) =~= before + single_lines(tailseq, i as nat, n as nat));
        }
        i = i + 1;
    }
    proof {
        assert(out_view(data@) + Seq::<MergeResult<Seq<char>>>::empty() =~= out_view(data@));
    }
}

/// Emits two carried lines per slot for slots `0..n`.
#[verifier::loop_isolation(false)]
fn emit_pairs(data: &mut Vec<MergeResult<String>>, xs: &Vec<i32>, ys: &Vec<i32>, n: usize)
    requires
        n <= xs@.len(),
        n <= ys@.len(),
    ensures
        out_view(final(data)@) == out_view(old(data)@) + pair_lines(xs@, ys@, 0, n as nat),
{
    let mut i: usize = 0;
    while i < n
        invariant
            0 <= i <= n,
            out_view(data@) + pair_lines(xs@, ys@, i as nat, n as nat) == out_view(old(data)@)
                + pair_lines(xs@, ys@, 0, n as nat),
        decreases n - i,
    {
        let ghost before = out_view(data@);
        push_res_i32(data, xs[i]);
        push_res_i32(data, ys[i]);
        proof {
            assert(before.push(res(rend_i32(xs@[i as int]))).push(res(rend_i32(ys@[i as int])))
                + pair_lines(xs@, ys@, (i + 1) as nat, n as nat) =~= before + pair_lines(
                xs@,
                ys@,
                i as nat,
                n as nat,
            ));
        }
        i = i + 1;
    }
    proof {
        assert(out_view(data@) + Seq::<MergeResult<Seq<char>>>::empty() =~= out_view(data@));
    }
}

/// Emits four carried lines per slot for slots `0..n`.
#[verifier::loop_isolation(false)]
fn emit_quads(
    data: &mut Vec<MergeResult<String>>,
    ws: &Vec<i32>,
    xs: &Vec<i32>,
    ys: &Vec<i32>,
    zs: &Vec<i32>,
    n: usize,
)
    requires
        n <= ws@.len(),
        n <= xs@.len(),
        n <= ys@.len(),
        n <= zs@.len(),
    ensures
        out_view(final(data)@) == out_view(old(data)@) + quad_lines(
            ws@,
            xs@,
            ys@,
            zs@,
            0,
            n as nat,
        ),
{
    let mut i: usize = 0;
    while i < n
        invariant
            0 <= i <= n,
            out_view(data@) + quad_lines(ws@, xs@, ys@, zs@, i as nat, n as nat) == out_view(
                old(data)@,
            ) + quad_lines(ws@, xs@, ys@, zs@, 0, n as nat),
        decreases n - i,
    {
        let ghost before = out_view(data@);
        push_res_i32(data, ws[i]);
        push_res_i32(data, xs[i]);
        push_res_i32(data, ys[i]);
        push_res_i32(data, zs[i]);
        proof {
            assert(before.push(res(rend_i32(ws@[i as int]))).push(res(rend_i32(xs@[i as int]))).push(
                res(rend_i32(ys@[i as int])),
            ).push(res(rend_i32(zs@[i as int]))) + quad_lines(
                ws@,
                xs@,
                ys@,
                zs@,
                (i + 1) as nat,
                n as nat,
            ) =~= before + quad_lines(ws@, xs@, ys@, zs@, i as nat, n as nat));
        }
        i = i + 1;
    }
    proof {
        assert(out_view(data@) + Seq::<MergeResult<Seq<char>>>::empty() =~= out_view(data@));
    }
}

/// Emits `n` literal zero lines.
#[verifier::loop_isolation(false)]
fn emit_zero_lines(data: &mut Vec<MergeResult<String>>, n: usize)
    ensures
        out_view(final(data)@) == out_view(old(data)@) + zero_lines(n as nat),
{
    proof {
        reveal_strlit("0");
    }
    let mut i: usize = 0;
    while i < n
        invariant
            0 <= i <= n,
            out_view(data@) + zero_lines((n - i) as nat) == out_view(old(data)@) + zero_lines(
                n as nat,
            ),
        decreases n - i,
    {
        let ghost before = out_view(data@);
        push_res_str(data, "0");
        proof {
            assert(before.push(res("0"@)) + zero_lines((n - i - 1) as nat) =~= before + zero_lines(
                (n - i) as nat,
            ));
        }
        i = i + 1;
    }
    proof {
        assert(out_view(data@) + Seq::<MergeResult<Seq<char>>>::empty() =~= out_view(data@));
    }
}

} // verus!

verus! {

/// Merges one stat block and appends its lines: the merged maximum hit
/// points written twice (the character comes out healed), the merged base
/// counters, the carried equipment, style and item-stat blocks, and the
/// spell slots under the equal-or-conflict policy.
#[verifier::loop_isolation(false)]
#[verifier::rlimit(100)]
pub fn merge_stats(
    output: &mut Vec<MergeResult<String>>,
    ours: &Stats,
    theirs: &Stats,
    ancestor: Option<&Stats>,
    chapter: i32,
)
    requires
        ours.wf(),
        theirs.wf(),
        ancestor matches Some(a) ==> a.wf(),
    ensures
        out_view(final(output)@) == out_view(old(output)@) + stats_section_spec(
            ours@,
            theirs@,
            match ancestor {
                Some(a) => Some(a@),
                None => None,
            },
            chapter,
        ),
{
    let ghost a0: Option<SpecStats> = match ancestor {
        Some(a) => Some(a@),
        None => None,
    };
    let mhp1 = merge_simple(
        ours.max_hp,
        theirs.max_hp,
        match ancestor {
            Some(a) => Some(a.max_hp),
            None => None,
        },
    );
    let mhp2 = merge_simple(
        ours.max_hp,
        theirs.max_hp,
        match ancestor {
            Some(a) => Some(a.max_hp),
            None => None,
        },
    );
    // the character is written back healed: the merged maximum stands for
    // both the hit-point line and the maximum line
    push_mr_i32(output, mhp1);
    push_mr_i32(output, mhp2);
    push_mr_i32(
        output,
        merge_simple(
            ours.attack,
            theirs.attack,
            match ancestor {
                Some(a) => Some(a.attack),
                None => None,
            },
        ),
    );
    push_mr_i32(
        output,
        merge_simple(
            ours.defense,
            theirs.defense,
            match ancestor {
                Some(a) => Some(a.defense),
                None => None,
            },
        ),
    );
    push_mr_i32(
        output,
        merge_simple(
            ours.magic,
            theirs.magic,
            match ancestor {
                Some(a) => Some(a.magic),
                None => None,
            },
        ),
    );
    push_mr_i32(
        output,
        merge_simple(
            ours.guts,
            theirs.guts,
            match ancestor {
                Some(a) => Some(a.guts),
                None => None,
            },
        ),
    );
    push_res_i32(output, ours.weapon);
    push_res_i32(output, ours.armor1);
    push_res_i32(output, ours.armor2);
    push_res_str(output, ours.weapon_style.as_str());
    push_item_block(output, &ours.item_stats[0], chapter);
    push_item_block(output, &ours.item_stats[1], chapter);
    push_item_block(output, &ours.item_stats[2], chapter);
    push_item_block(output, &ours.item_stats[3], chapter);
    merge_spell_slots(
        output,
        &ours.spells,
        &theirs.spells,
        match ancestor {
            Some(a) => Some(&a.spells),
            None => None,
        },
    );
    proof {
        assert(out_view(final(output)@) =~= out_view(old(output)@) + stats_section_spec(
            ours@,
            theirs@,
            a0,
            chapter,
        ));
    }
}

/// Pushes a resolved fraction line.
fn push_res_float(data: &mut Vec<MergeResult<String>>, v: &FloatVal)
    ensures
        out_view(final(data)@) == out_view(old(data)@).push(res(rend_float(*v))),
{
    data.push(MergeResult::Resolved(serialize_float(v)));
    proof {
        assert(out_view(final(data)@) =~= out_view(old(data)@).push(res(rend_float(*v))));
    }
}

/// Appends the carried lines of one item-stat block.
fn push_item_block(output: &mut Vec<MergeResult<String>>, blk: &ItemStats, chapter: i32)
    ensures
        out_view(final(output)@) == out_view(old(output)@) + item_block_lines(*blk, chapter),
{
    push_res_i32(output, blk.attack);
    push_res_i32(output, blk.defense);
    push_res_i32(output, blk.magic);
    push_res_i32(output, blk.bolts);
    push_res_i32(output, blk.graze_amount);
    push_res_i32(output, blk.graze_size);
    push_res_i32(output, blk.bolts_speed);
    push_res_i32(output, blk.item_special);
    if chapter > 1 {
        push_res_i32(output, blk.item_element);
        push_res_float(output, &blk.item_element_amount);
    }
    proof {
        assert(out_view(final(output)@) =~= out_view(old(output)@) + item_block_lines(
            *blk,
            chapter,
        ));
    }
}

/// Merges the twelve spell slots under the equal-or-conflict policy.
#[verifier::loop_isolation(false)]
fn merge_spell_slots(
    output: &mut Vec<MergeResult<String>>,
    ours: &Vec<i32>,
    theirs: &Vec<i32>,
    ancestor: Option<&Vec<i32>>,
)
    requires
        ours@.len() == 12,
        theirs@.len() == 12,
        ancestor matches Some(a) ==> a@.len() == 12,
    ensures
        out_view(final(output)@) == out_view(old(output)@) + spells_lines(
            ours@,
            theirs@,
            match ancestor {
                Some(a) => Some(a@),
                None => None,
            },
        ),
{
    let ghost a0: Option<Seq<i32>> = match ancestor {
        Some(a) => Some(a@),
        None => None,
    };
    let ghost spells_all = spells_lines(ours@, theirs@, a0);
    let ghost base = out_view(output@);
    proof {
        assert(base + spells_all.take(0) =~= base);
    }
    let mut i: usize = 0;
    while i < 12
        invariant
            0 <= i <= 12,
            out_view(output@) == base + spells_all.take(i as int),
        decreases 12 - i,
    {
        push_mr_i32(
            output,
            merge_same(
                ours[i],
                theirs[i],
                match ancestor {
                    Some(a) => Some(a[i]),
                    None => None,
                },
            ),
        );
        proof {
            assert(spells_all.take(i as int + 1) =~= spells_all.take(i as int).push(
                spells_all[i as int],
            ));
            assert(out_view(output@) =~= base + spells_all.take(i as int + 1));
        }
        i = i + 1;
    }
    proof {
        assert(spells_all.take(12) =~= spells_all);
    }
}

/// The weapons the other side's characters hold that differ from ours',
/// appended for reconciliation in character order.
pub open spec fn wappend(os: Seq<SpecStats>, ts: Seq<SpecStats>, i: nat) -> Seq<i32>
    decreases ts.len() - i,
{
    if i >= ts.len() {
        Seq::<i32>::empty()
    } else {
        (if ts[i as int].weapon != os[i as int].weapon {
            seq![ts[i as int].weapon]
        } else {
            Seq::<i32>::empty()
        }) + wappend(os, ts, i + 1)
    }
}

/// The armors the other side's characters wear that differ from ours',
/// appended for reconciliation in character order, first slot then second.
pub open spec fn aappend(os: Seq<SpecStats>, ts: Seq<SpecStats>, i: nat) -> Seq<i32>
    decreases ts.len() - i,
{
    if i >= ts.len() {
        Seq::<i32>::empty()
    } else {
        (if ts[i as int].armor1 != os[i as int].armor1 {
            seq![ts[i as int].armor1]
        } else {
            Seq::<i32>::empty()
        }) + (if ts[i as int].armor2 != os[i as int].armor2 {
            seq![ts[i as int].armor2]
        } else {
            Seq::<i32>::empty()
        }) + aappend(os, ts, i + 1)
    }
}

/// Extends `acc` with the other side's differing equipped weapons.
#[verifier::loop_isolation(false)]
fn push_weapon_diffs(acc: &mut Vec<i32>, os: &Vec<Stats>, ts: &Vec<Stats>)
    requires
        ts@.len() <= os@.len(),
    ensures
        final(acc)@ == old(acc)@ + wappend(
            os@.map_values(|s: Stats| s@),
            ts@.map_values(|s: Stats| s@),
            0,
        ),
{
    let ghost osv = os@.map_values(|s: Stats| s@);
    let ghost tsv = ts@.map_values(|s: Stats| s@);
    let n = ts.len();
    let mut i: usize = 0;
    while i < n
        invariant
            0 <= i <= n,
            acc@ + wappend(osv, tsv, i as nat) == old(acc)@ + wappend(osv, tsv, 0),
        decreases n - i,
    {
        let ghost before = acc@;
        if ts[i].weapon != os[i].weapon {
            acc.push(ts[i].weapon);
            proof {
                assert(before.push(tsv[i as int].weapon) + wappend(osv, tsv, (i + 1) as nat)
                    =~= before + wappend(osv, tsv, i as nat));
            }
        } else {
            proof {
                assert(wappend(osv, tsv, i as nat) =~= wappend(osv, tsv, (i + 1) as nat));
            }
        }
        i = i + 1;
    }
    proof {
        assert(acc@ + Seq::<i32>::empty() =~= acc@);
    }
}

/// Extends `acc` with the other side's differing worn armors.
#[verifier::loop_isolation(false)]
fn push_armor_diffs(acc: &mut Vec<i32>, os: &Vec<Stats>, ts: &Vec<Stats>)
    requires
        ts@.len() <= os@.len(),
    ensures
        final(acc)@ == old(acc)@ + aappend(
            os@.map_values(|s: Stats| s@),
            ts@.map_values(|s: Stats| s@),
            0,
        ),
{
    let ghost osv = os@.map_values(|s: Stats| s@);
    let ghost tsv = ts@.map_values(|s: Stats| s@);
    let n = ts.len();
    let mut i: usize = 0;
    while i < n
        invariant
            0 <= i <= n,
            acc@ + aappend(osv, tsv, i as nat) == old(acc)@ + aappend(osv, tsv, 0),
        decreases n - i,
    {
        let ghost before = acc@;
        let ghost step1 = if tsv[i as int].armor1 != osv[i as int].armor1 {
            seq![tsv[i as int].armor1]
        } else {
            Seq::<i32>::empty()
        };
        let ghost step2 = if tsv[i as int].armor2 != osv[i as int].armor2 {
            seq![tsv[i as int].armor2]
        } else {
            Seq::<i32>::empty()
        };
        if ts[i].armor1 != os[i].armor1 {
            acc.push(ts[i].armor1);
        }
        if ts[i].armor2 != os[i].armor2 {
            acc.push(ts[i].armor2);
        }
        proof {
            assert(acc@ =~= before + step1 + step2);
            assert(before + step1 + step2 + aappend(osv, tsv, (i + 1) as nat) =~= before + aappend(
                osv,
                tsv,
                i as nat,
            ));
        }
        i = i + 1;
    }
    proof {
        assert(acc@ + Seq::<i32>::empty() =~= acc@);
    }
}

} // verus!

verus! {

/// The number of output lines the schema fixes for a chapter.
pub open spec fn expected_line_count(ch: i32) -> int {
    if ch == 1 {
        10318
    } else {
        3055
    }
}

#[verifier::rlimit(100)]
proof fn lemma_stats_blocks_len(
    o: Seq<SpecStats>,
    t: Seq<SpecStats>,
    a: Option<Seq<SpecStats>>,
    ch: i32,
    i: nat,
)
    ensures
        stats_blocks_spec(o, t, a, ch, i).len() == if i >= o.len() {
            0int
        } else {
            (o.len() - i) * (if ch > 1 {
                62int
            } else {
                54int
            })
        },
    decreases o.len() - i,
{
    if i < o.len() {
        lemma_stats_blocks_len(o, t, a, ch, i + 1);
        let sec = stats_section_spec(o[i as int], t[i as int], omap(a, |s: Seq<SpecStats>| s[i as int]), ch);
        let blocklen: int = if ch > 1 {
            10
        } else {
            8
        };
        assert(item_block_lines(o[i as int].item_stats[0], ch).len() == blocklen);
        assert(item_block_lines(o[i as int].item_stats[1], ch).len() == blocklen);
        assert(item_block_lines(o[i as int].item_stats[2], ch).len() == blocklen);
        assert(item_block_lines(o[i as int].item_stats[3], ch).len() == blocklen);
        assert(spells_lines(
            o[i as int].spells,
            t[i as int].spells,
            omap(omap(a, |s: Seq<SpecStats>| s[i as int]), |x: SpecStats| x.spells),
        ).len() == 12);
        assert(sec.len() == if ch > 1 {
            62int
        } else {
            54int
        });
    }
}

proof fn lemma_pair_len(xs: Seq<i32>, ys: Seq<i32>, i: nat, n: nat)
    ensures
        pair_lines(xs, ys, i, n).len() == if i >= n {
            0int
        } else {
            2 * (n - i)
        },
    decreases n - i,
{
    if i < n {
        lemma_pair_len(xs, ys, i + 1, n);
    }
}

proof fn lemma_quad_len(ws: Seq<i32>, xs: Seq<i32>, ys: Seq<i32>, zs: Seq<i32>, i: nat, n: nat)
    ensures
        quad_lines(ws, xs, ys, zs, i, n).len() == if i >= n {
            0int
        } else {
            4 * (n - i)
        },
    decreases n - i,
{
    if i < n {
        lemma_quad_len(ws, xs, ys, zs, i + 1, n);
    }
}

proof fn lemma_single_len(xs: Seq<i32>, i: nat, n: nat)
    ensures
        single_lines(xs, i, n).len() == if i >= n {
            0int
        } else {
            n - i
        },
    decreases n - i,
{
    if i < n {
        lemma_single_len(xs, i + 1, n);
    }
}

proof fn lemma_zero_len(n: nat)
    ensures
        zero_lines(n).len() == n,
    decreases n,
{
    if n > 0 {
        lemma_zero_len((n - 1) as nat);
    }
}

} // verus!

verus! {

/// The item-and-storage block a side brings to reconciliation: the first
/// twelve inventory slots, with the storage array behind them for chapter 2
/// and up.
pub open spec fn inv_storage(s: SpecSaveData) -> Seq<i32> {
    s.inventory.take(12) + (match s.storage {
        Some(st) => st,
        None => Seq::<i32>::empty(),
    })
}

/// Every output line of a merge, in the exact order the decoder consumes
/// them: identity fields carried from ours, stat counters under
/// equal-or-ancestor-pick, currency and play time under
/// additive-delta-with-clamp, experience and level under take-max, spells
/// under equal-or-conflict, the reconciled inventories, and the flag table
/// (equal-or-ancestor-pick three-way, take-max two-way). Chapter 1 pads the
/// legacy flag-table tail with literal zeros.
pub open spec fn merge_spec(
    o: SpecSaveData,
    t: SpecSaveData,
    a: Option<SpecSaveData>,
) -> Seq<MergeResult<Seq<char>>> {
    front_spec(o, t, a) + mid_spec(o, t, a) + tail_spec(o, t, a)
}

/// The leading lines: the carried identity fields, the merged header
/// counters, the stat blocks, and the combat tuning counters.
pub open spec fn front_spec(
    o: SpecSaveData,
    t: SpecSaveData,
    a: Option<SpecSaveData>,
) -> Seq<MergeResult<Seq<char>>> {
    seq![res(o.true_name)] + Seq::new(6, |i: int| res(o.vessel_names[i])) + Seq::new(
        3,
        |i: int| res(rend_i32(o.party[i])),
    ) + seq![
        rend_mr_i64(
            merge_values_spec(
                o.dark_dollars as i64,
                t.dark_dollars as i64,
                omap(a, |x: SpecSaveData| x.dark_dollars as i64),
                Some(0i64),
                None,
            ),
        ),
        rend_mr_i32(merge_max_spec(o.xp, t.xp)),
        rend_mr_i32(merge_max_spec(o.level, t.level)),
        res(rend_i32(o.inv)),
        res(rend_i32(o.invc)),
        res(rend_bool(o.is_darkworld)),
    ] + stats_blocks_spec(o.stats, t.stats, omap(a, |x: SpecSaveData| x.stats), o.chapter, 0)
        + seq![
        rend_mr_i32(
            merge_simple_spec(o.bolt_speed, t.bolt_speed, omap(a, |x: SpecSaveData| x.bolt_speed)),
        ),
        rend_mr_i32(
            merge_simple_spec(
                o.graze_amount,
                t.graze_amount,
                omap(a, |x: SpecSaveData| x.graze_amount),
            ),
        ),
        rend_mr_i32(
            merge_simple_spec(o.graze_size, t.graze_size, omap(a, |x: SpecSaveData| x.graze_size)),
        ),
    ]
}

/// The middle lines: the reconciled item collections in schema order, the
/// tension counters, the merged light-world block, and the reconciled
/// light-world slots.
pub open spec fn mid_spec(
    o: SpecSaveData,
    t: SpecSaveData,
    a: Option<SpecSaveData>,
) -> Seq<MergeResult<Seq<char>>> {
    let ch = o.chapter;
    let inv_m = merge_inv_spec(inv_storage(o), inv_storage(t), 0).0;
    let key_m = merge_inv_spec(o.key_items, t.key_items, 0).0;
    let tw = t.weapons + wappend(o.stats, t.stats, 0);
    let weap_m = merge_inv_spec(o.weapons, tw, 0).0;
    let arm_m = merge_inv_spec(o.armors + aappend(o.stats, t.stats, 0), tw, 0).0;
    let lwi_m = merge_inv_spec(o.lightworld_items, t.lightworld_items, 0).0;
    let lwp_m = merge_inv_spec(o.lightworld_phone, t.lightworld_phone, 0).0;
    (if ch == 1 {
        quad_lines(inv_m, key_m, weap_m, arm_m, 0, 12)
    } else {
        pair_lines(inv_m, key_m, 0, 12)
    }) + seq![res(rend_i32(o.inventory[12])), res(rend_i32(key_m[12]))] + (if ch == 1 {
        seq![res(rend_i32(weap_m[12])), res(rend_i32(arm_m[12]))]
    } else {
        Seq::<MergeResult<Seq<char>>>::empty()
    }) + (if ch != 1 {
        pair_lines(weap_m, arm_m, 0, 48) + single_lines(inv_m.skip(12), 0, 72)
    } else {
        Seq::<MergeResult<Seq<char>>>::empty()
    }) + seq![
        rend_mr_float(merge_simple_spec(o.tension, t.tension, omap(a, |x: SpecSaveData| x.tension))),
        rend_mr_float(
            merge_simple_spec(
                o.max_tension,
                t.max_tension,
                omap(a, |x: SpecSaveData| x.max_tension),
            ),
        ),
    ] + lw_section_spec(
        o.lightworld_stats,
        t.lightworld_stats,
        omap(a, |x: SpecSaveData| x.lightworld_stats),
    ) + pair_lines(lwi_m, lwp_m, 0, 8)
}

/// The closing lines: the flag table, the legacy zero padding of chapter 1,
/// the carried plot and room fields, and the merged play time.
pub open spec fn tail_spec(
    o: SpecSaveData,
    t: SpecSaveData,
    a: Option<SpecSaveData>,
) -> Seq<MergeResult<Seq<char>>> {
    flags_spec(o.flags, t.flags, omap(a, |x: SpecSaveData| x.flags)) + (if o.chapter == 1 {
        zero_lines(7499)
    } else {
        Seq::<MergeResult<Seq<char>>>::empty()
    }) + seq![
        res(rend_i32(o.plot_value)),
        res(rend_i32(o.room_id)),
        match a {
            Some(av) => rend_mr_i64(
                merge_values_spec(
                    (o.time_played * 30) as i64,
                    (t.time_played * 30) as i64,
                    Some((av.time_played * 30) as i64),
                    None,
                    None,
                ),
            ),
            None => rend_mr_u64(
                merge_max_spec((o.time_played * 30) as u64, (t.time_played * 30) as u64),
            ),
        },
    ]
}

/// Builds the item-and-storage block of one side.
#[verifier::loop_isolation(false)]
fn build_inv_storage(inv: &Vec<i32>, storage: &Option<Vec<i32>>, chapter: i32) -> (r: Vec<i32>)
    requires
        inv@.len() == 13,
        chapter == 1 ==> storage is None,
        chapter != 1 ==> (storage matches Some(st) && st@.len() == 72),
    ensures
        r@ == inv@.take(12) + (match storage {
            Some(st) => st@,
            None => Seq::<i32>::empty(),
        }),
{
    let mut out: Vec<i32> = Vec::new();
    let mut k: usize = 0;
    while k < 12
        invariant
            0 <= k <= 12,
            out@ == inv@.take(k as int),
        decreases 12 - k,
    {
        out.push(inv[k]);
        proof {
            assert(inv@.take(k as int + 1) =~= inv@.take(k as int).push(inv@[k as int]));
        }
        k = k + 1;
    }
    match storage {
        Some(st) => {
            let mut k: usize = 0;
            while k < st.len()
                invariant
                    0 <= k <= st@.len(),
                    out@ == inv@.take(12) + st@.take(k as int),
                decreases st@.len() - k,
            {
                out.push(st[k]);
                proof {
                    assert(st@.take(k as int + 1) =~= st@.take(k as int).push(st@[k as int]));
                    assert(inv@.take(12) + st@.take(k as int + 1) =~= (inv@.take(12) + st@.take(
                        k as int,
                    )).push(st@[k as int]));
                }
                k = k + 1;
            }
            proof {
                assert(st@.take(st@.len() as int) =~= st@);
            }
            out
        },
        None => {
            proof {
                assert(inv@.take(12) + Seq::<i32>::empty() =~= inv@.take(12));
            }
            out
        },
    }
}

} // verus!

verus! {

/// Merges every stat block in character order.
#[verifier::loop_isolation(false)]
#[verifier::rlimit(100)]
fn merge_all_stats(
    data: &mut Vec<MergeResult<String>>,
    ours: &SaveData,
    theirs: &SaveData,
    ancestor: Option<&SaveData>,
    chapter: i32,
)
    requires
        ours.wf(),
        theirs.wf(),
        ancestor matches Some(a) ==> a.wf() && a@.chapter == ours@.chapter,
        theirs@.chapter == ours@.chapter,
        chapter == ours@.chapter,
    ensures
        out_view(final(data)@) == out_view(old(data)@) + stats_blocks_spec(
            ours.stats@.map_values(|s: Stats| s@),
            theirs.stats@.map_values(|s: Stats| s@),
            omap(
                match ancestor {
                    Some(a) => Some(a@),
                    None => None::<SpecSaveData>,
                },
                |x: SpecSaveData| x.stats,
            ),
            chapter,
            0,
        ),
{
    let ghost av: Option<SpecSaveData> = match ancestor {
        Some(a) => Some(a@),
        None => None,
    };
    let stat_blocks: usize = if chapter == 1 {
        4
    } else {
        5
    };
    let ghost osv = ours.stats@.map_values(|s: Stats| s@);
    let ghost tsv = theirs.stats@.map_values(|s: Stats| s@);
    let ghost avstats = omap(av, |x: SpecSaveData| x.stats);
    let ghost base_st = out_view(data@);
    let mut i: usize = 0;
    while i < stat_blocks
        invariant
            0 <= i <= stat_blocks,
            out_view(data@) + stats_blocks_spec(osv, tsv, avstats, chapter, i as nat) == base_st
                + stats_blocks_spec(osv, tsv, avstats, chapter, 0),
        decreases stat_blocks - i,
    {
        let ghost before = out_view(data@);
        merge_stats(
            data,
            &ours.stats[i],
            &theirs.stats[i],
            match ancestor {
                Some(a) => Some(&a.stats[i]),
                None => None,
            },
            chapter,
        );
        proof {
            let sec = stats_section_spec(
                osv[i as int],
                tsv[i as int],
                omap(avstats, |s: Seq<SpecStats>| s[i as int]),
                chapter,
            );
            assert(ours.stats@[i as int]@ == osv[i as int]);
            assert(theirs.stats@[i as int]@ == tsv[i as int]);
            match ancestor {
                Some(a) => {
                    assert(omap(avstats, |s: Seq<SpecStats>| s[i as int]) == Some(
                        a.stats@[i as int]@,
                    ));
                },
                None => {},
            }
            assert(out_view(data@) =~= before + sec);
        }
        i = i + 1;
    }
    proof {
        assert(out_view(data@) + Seq::<MergeResult<Seq<char>>>::empty() =~= out_view(data@));
    }
}

/// Emits the leading lines of a merge, exactly [`front_spec`].
#[verifier::loop_isolation(false)]
#[verifier::rlimit(100)]
fn merge_front(
    data: &mut Vec<MergeResult<String>>,
    ours: &SaveData,
    theirs: &SaveData,
    ancestor: Option<&SaveData>,
    diag: &mut Vec<Diagnostic>,
)
    requires
        ours.wf(),
        theirs.wf(),
        ancestor matches Some(a) ==> a.wf() && a@.chapter == ours@.chapter,
        theirs@.chapter == ours@.chapter,
    ensures
        out_view(final(data)@) == out_view(old(data)@) + front_spec(ours@, theirs@, match ancestor {
            Some(a) => Some(a@),
            None => None,
        }),
{
    let chapter = ours.chapter;
    let ghost o = ours@;
    let ghost t = theirs@;
    let ghost av: Option<SpecSaveData> = match ancestor {
        Some(a) => Some(a@),
        None => None,
    };
    let ghost mut acc: Seq<MergeResult<Seq<char>>> = out_view(old(data)@);

    // identity header, carried from ours
    push_res_str(data, ours.true_name.as_str());
    push_res_str(data, ours.vessel_names[0].as_str());
    push_res_str(data, ours.vessel_names[1].as_str());
    push_res_str(data, ours.vessel_names[2].as_str());
    push_res_str(data, ours.vessel_names[3].as_str());
    push_res_str(data, ours.vessel_names[4].as_str());
    push_res_str(data, ours.vessel_names[5].as_str());
    push_res_i32(data, ours.party[0]);
    push_res_i32(data, ours.party[1]);
    push_res_i32(data, ours.party[2]);
    proof {
        acc = acc + (seq![res(o.true_name)] + Seq::new(6, |i: int| res(o.vessel_names[i]))
            + Seq::new(3, |i: int| res(rend_i32(o.party[i]))));
        assert(out_view(data@) =~= acc);
    }

    // counters and flags of the header
    let dollars = merge_values(
        ours.dark_dollars as i64,
        theirs.dark_dollars as i64,
        match ancestor {
            Some(a) => Some(a.dark_dollars as i64),
            None => None,
        },
        Some(0i64),
        None,
        "dark dollars",
        diag,
    );
    push_mr_i64(data, dollars);
    push_mr_i32(data, merge_max(ours.xp, theirs.xp));
    push_mr_i32(data, merge_max(ours.level, theirs.level));
    push_res_i32(data, ours.inv);
    push_res_i32(data, ours.invc);
    push_res_bool(data, ours.is_darkworld);
    proof {
        acc = acc + seq![
            rend_mr_i64(
                merge_values_spec(
                    o.dark_dollars as i64,
                    t.dark_dollars as i64,
                    omap(av, |x: SpecSaveData| x.dark_dollars as i64),
                    Some(0i64),
                    None,
                ),
            ),
            rend_mr_i32(merge_max_spec(o.xp, t.xp)),
            rend_mr_i32(merge_max_spec(o.level, t.level)),
            res(rend_i32(o.inv)),
            res(rend_i32(o.invc)),
            res(rend_bool(o.is_darkworld)),
        ];
        assert(out_view(data@) =~= acc);
    }

    // the stat blocks
    merge_all_stats(data, ours, theirs, ancestor, chapter);
    proof {
        acc = acc + stats_blocks_spec(
            ours.stats@.map_values(|s: Stats| s@),
            theirs.stats@.map_values(|s: Stats| s@),
            omap(av, |x: SpecSaveData| x.stats),
            chapter,
            0,
        );
        assert(out_view(data@) =~= acc);
    }

    // the combat tuning counters
    push_mr_i32(
        data,
        merge_simple(
            ours.bolt_speed,
            theirs.bolt_speed,
            match ancestor {
                Some(a) => Some(a.bolt_speed),
                None => None,
            },
        ),
    );
    push_mr_i32(
        data,
        merge_simple(
            ours.graze_amount,
            theirs.graze_amount,
            match ancestor {
                Some(a) => Some(a.graze_amount),
                None => None,
            },
        ),
    );
    push_mr_i32(
        data,
        merge_simple(
            ours.graze_size,
            theirs.graze_size,
            match ancestor {
                Some(a) => Some(a.graze_size),
                None => None,
            },
        ),
    );
    proof {
        acc = acc + seq![
            rend_mr_i32(
                merge_simple_spec(
                    o.bolt_speed,
                    t.bolt_speed,
                    omap(av, |x: SpecSaveData| x.bolt_speed),
                ),
            ),
            rend_mr_i32(
                merge_simple_spec(
                    o.graze_amount,
                    t.graze_amount,
                    omap(av, |x: SpecSaveData| x.graze_amount),
                ),
            ),
            rend_mr_i32(
                merge_simple_spec(
                    o.graze_size,
                    t.graze_size,
                    omap(av, |x: SpecSaveData| x.graze_size),
                ),
            ),
        ];
        assert(out_view(data@) =~= acc);
        assert(acc =~= out_view(old(data)@) + front_spec(o, t, av));
    }
}

/// Reconciles the four item collections: the item-and-storage block, the
/// key items, and the weapon and armor lists with the other side's
/// differing equipment appended. The armor list is reconciled against the
/// weapon difference list, as the game's own merge rules have it.
#[verifier::rlimit(100)]
fn reconcile_collections(
    ours: &SaveData,
    theirs: &SaveData,
    diag: &mut Vec<Diagnostic>,
) -> (r: (Vec<i32>, Vec<i32>, Vec<i32>, Vec<i32>))
    requires
        ours.wf(),
        theirs.wf(),
        theirs@.chapter == ours@.chapter,
    ensures
        ({
            let o = ours@;
            let t = theirs@;
            let tw = t.weapons + wappend(o.stats, t.stats, 0);
            &&& r.0@ == merge_inv_spec(inv_storage(o), inv_storage(t), 0).0
            &&& r.1@ == merge_inv_spec(o.key_items, t.key_items, 0).0
            &&& r.2@ == merge_inv_spec(o.weapons, tw, 0).0
            &&& r.3@ == merge_inv_spec(o.armors + aappend(o.stats, t.stats, 0), tw, 0).0
            &&& r.0@.len() == inv_storage(o).len()
            &&& r.1@.len() == o.key_items.len()
            &&& r.2@.len() == o.weapons.len()
            &&& r.3@.len() == o.armors.len() + aappend(o.stats, t.stats, 0).len()
        }),
{
    let chapter = ours.chapter;
    let ghost o = ours@;
    let ghost t = theirs@;
    let mut inventory_and_storage = build_inv_storage(&ours.inventory, &ours.storage, chapter);
    let their_inv_storage = build_inv_storage(&theirs.inventory, &theirs.storage, chapter);
    let mut key_items = ours.key_items.clone();
    let mut weapons = ours.weapons.clone();
    let mut their_weapons = theirs.weapons.clone();
    push_weapon_diffs(&mut their_weapons, &ours.stats, &theirs.stats);
    let mut armors = ours.armors.clone();
    push_armor_diffs(&mut armors, &ours.stats, &theirs.stats);
    proof {
        assert(key_items@ =~= o.key_items);
        assert(weapons@ =~= o.weapons);
        assert(ours.stats@.map_values(|s: Stats| s@) =~= o.stats);
        assert(theirs.stats@.map_values(|s: Stats| s@) =~= t.stats);
        assert(their_weapons@ =~= t.weapons + wappend(o.stats, t.stats, 0));
        assert(armors@ =~= o.armors + aappend(o.stats, t.stats, 0));
        assert(inventory_and_storage@ =~= inv_storage(o));
        assert(their_inv_storage@ =~= inv_storage(t));
    }
    merge_inventories(&mut inventory_and_storage, &their_inv_storage, "item", diag);
    merge_inventories(&mut key_items, &theirs.key_items, "key item", diag);
    merge_inventories(&mut weapons, &their_weapons, "weapon", diag);
    merge_inventories(&mut armors, &their_weapons, "armor", diag);
    proof {
        lemma_merge_inv_len_all(o, t);
    }
    (inventory_and_storage, key_items, weapons, armors)
}

/// Emits the middle lines of a merge, exactly [`mid_spec`].
#[verifier::loop_isolation(false)]
#[verifier::rlimit(100)]
fn merge_mid(
    data: &mut Vec<MergeResult<String>>,
    ours: &SaveData,
    theirs: &SaveData,
    ancestor: Option<&SaveData>,
    diag: &mut Vec<Diagnostic>,
)
    requires
        ours.wf(),
        theirs.wf(),
        ancestor matches Some(a) ==> a.wf() && a@.chapter == ours@.chapter,
        theirs@.chapter == ours@.chapter,
    ensures
        out_view(final(data)@) == out_view(old(data)@) + mid_spec(ours@, theirs@, match ancestor {
            Some(a) => Some(a@),
            None => None,
        }),
{
    let chapter = ours.chapter;
    let is_chapter_1 = chapter == 1;
    let ghost o = ours@;
    let ghost t = theirs@;
    let ghost av: Option<SpecSaveData> = match ancestor {
        Some(a) => Some(a@),
        None => None,
    };
    let ghost mut acc: Seq<MergeResult<Seq<char>>> = out_view(old(data)@);

    // reconcile the item collections
    let (inventory_and_storage, key_items, weapons, armors) = reconcile_collections(
        ours,
        theirs,
        diag,
    );

    // emit the reconciled slots in schema order
    if is_chapter_1 {
        emit_quads(data, &inventory_and_storage, &key_items, &weapons, &armors, 12);
        proof {
            acc = acc + quad_lines(inventory_and_storage@, key_items@, weapons@, armors@, 0, 12);
            assert(out_view(data@) =~= acc);
        }
    } else {
        emit_pairs(data, &inventory_and_storage, &key_items, 12);
        proof {
            acc = acc + pair_lines(inventory_and_storage@, key_items@, 0, 12);
            assert(out_view(data@) =~= acc);
        }
    }
    push_res_i32(data, ours.inventory[12]);
    push_res_i32(data, key_items[12]);
    proof {
        acc = acc + seq![res(rend_i32(o.inventory[12])), res(rend_i32(key_items@[12]))];
        assert(out_view(data@) =~= acc);
    }
    if is_chapter_1 {
        push_res_i32(data, weapons[12]);
        push_res_i32(data, armors[12]);
        proof {
            acc = acc + seq![res(rend_i32(weapons@[12])), res(rend_i32(armors@[12]))];
            assert(out_view(data@) =~= acc);
        }
    } else {
        emit_pairs(data, &weapons, &armors, 48);
        emit_singles(data, &inventory_and_storage, 12, 72);
        proof {
            acc = acc + (pair_lines(weapons@, armors@, 0, 48) + single_lines(
                inventory_and_storage@.skip(12),
                0,
                72,
            ));
            assert(out_view(data@) =~= acc);
        }
    }

    // the tension counters
    push_mr_float(
        data,
        merge_simple(
            ours.tension,
            theirs.tension,
            match ancestor {
                Some(a) => Some(a.tension),
                None => None,
            },
        ),
    );
    push_mr_float(
        data,
        merge_simple(
            ours.max_tension,
            theirs.max_tension,
            match ancestor {
                Some(a) => Some(a.max_tension),
                None => None,
            },
        ),
    );
    proof {
        acc = acc + seq![
            rend_mr_float(
                merge_simple_spec(o.tension, t.tension, omap(av, |x: SpecSaveData| x.tension)),
            ),
            rend_mr_float(
                merge_simple_spec(
                    o.max_tension,
                    t.max_tension,
                    omap(av, |x: SpecSaveData| x.max_tension),
                ),
            ),
        ];
        assert(out_view(data@) =~= acc);
    }

    // the light world
    merge_lightworld_stats(
        data,
        &ours.lightworld_stats,
        &theirs.lightworld_stats,
        match ancestor {
            Some(a) => Some(&a.lightworld_stats),
            None => None,
        },
    );
    proof {
        acc = acc + lw_section_spec(
            o.lightworld_stats,
            t.lightworld_stats,
            omap(av, |x: SpecSaveData| x.lightworld_stats),
        );
        assert(out_view(data@) =~= acc);
    }
    let mut lightworld_items = ours.lightworld_items.clone();
    let mut phone_numbers = ours.lightworld_phone.clone();
    proof {
        assert(lightworld_items@ =~= o.lightworld_items);
        assert(phone_numbers@ =~= o.lightworld_phone);
    }
    merge_inventories(&mut lightworld_items, &theirs.lightworld_items, "lightworld item", diag);
    merge_inventories(&mut phone_numbers, &theirs.lightworld_phone, "phone number", diag);
    proof {
        crate::merging::lemma_merge_inv_len(o.lightworld_items, t.lightworld_items, 0);
        crate::merging::lemma_merge_inv_len(o.lightworld_phone, t.lightworld_phone, 0);
    }
    emit_pairs(data, &lightworld_items, &phone_numbers, 8);
    proof {
        acc = acc + pair_lines(lightworld_items@, phone_numbers@, 0, 8);
        assert(out_view(data@) =~= acc);
        assert(acc =~= out_view(old(data)@) + mid_spec(o, t, av));
    }
}

/// Emits the closing lines of a merge, exactly [`tail_spec`].
#[verifier::loop_isolation(false)]
#[verifier::rlimit(100)]
fn merge_tail(
    data: &mut Vec<MergeResult<String>>,
    ours: &SaveData,
    theirs: &SaveData,
    ancestor: Option<&SaveData>,
    diag: &mut Vec<Diagnostic>,
)
    requires
        ours.wf(),
        theirs.wf(),
        ancestor matches Some(a) ==> a.wf() && a@.chapter == ours@.chapter,
        theirs@.chapter == ours@.chapter,
    ensures
        out_view(final(data)@) == out_view(old(data)@) + tail_spec(ours@, theirs@, match ancestor {
            Some(a) => Some(a@),
            None => None,
        }),
{
    let chapter = ours.chapter;
    let ghost o = ours@;
    let ghost t = theirs@;
    let ghost av: Option<SpecSaveData> = match ancestor {
        Some(a) => Some(a@),
        None => None,
    };
    let ghost mut acc: Seq<MergeResult<Seq<char>>> = out_view(old(data)@);

    // the flag table
    let ghost flagsall = flags_spec(o.flags, t.flags, omap(av, |x: SpecSaveData| x.flags));
    let ghost base_fl = out_view(data@);
    proof {
        assert(base_fl + flagsall.take(0) =~= base_fl);
    }
    let mut i: usize = 0;
    while i < 2500
        invariant
            0 <= i <= 2500,
            out_view(data@) == base_fl + flagsall.take(i as int),
        decreases 2500 - i,
    {
        match ancestor {
            Some(a) => {
                push_mr_float(
                    data,
                    merge_simple(ours.flags[i], theirs.flags[i], Some(a.flags[i])),
                );
            },
            None => {
                push_mr_float(data, merge_max(ours.flags[i], theirs.flags[i]));
            },
        }
        proof {
            assert(flagsall.take(i as int + 1) =~= flagsall.take(i as int).push(
                flagsall[i as int],
            ));
            assert(out_view(data@) =~= base_fl + flagsall.take(i as int + 1));
        }
        i = i + 1;
    }
    proof {
        assert(flagsall.take(2500) =~= flagsall);
        acc = acc + flagsall;
        assert(out_view(data@) =~= acc);
    }

    // chapter 1 re-emits the legacy flag-table tail as zeros
    if chapter == 1 {
        emit_zero_lines(data, 7499);
        proof {
            acc = acc + zero_lines(7499);
            assert(out_view(data@) =~= acc);
        }
    }

    // the closing fields
    push_res_i32(data, ours.plot_value);
    push_res_i32(data, ours.room_id);
    match ancestor {
        Some(a) => {
            let tm = merge_values(
                (ours.time_played * 30) as i64,
                (theirs.time_played * 30) as i64,
                Some((a.time_played * 30) as i64),
                None,
                None,
                "time played",
                diag,
            );
            push_mr_i64(data, tm);
        },
        None => {
            push_mr_u64(data, merge_max(ours.time_played * 30, theirs.time_played * 30));
        },
    }
    proof {
        acc = acc + seq![
            res(rend_i32(o.plot_value)),
            res(rend_i32(o.room_id)),
            match av {
                Some(avx) => rend_mr_i64(
                    merge_values_spec(
                        (o.time_played * 30) as i64,
                        (t.time_played * 30) as i64,
                        Some((avx.time_played * 30) as i64),
                        None,
                        None,
                    ),
                ),
                None => rend_mr_u64(
                    merge_max_spec((o.time_played * 30) as u64, (t.time_played * 30) as u64),
                ),
            },
        ];
        assert(out_view(data@) =~= acc);
        assert(acc =~= out_view(old(data)@) + tail_spec(o, t, av));
    }
}

/// Merges two decoded save states against an optional common ancestor,
/// producing one merge outcome per output line in the exact order the
/// decoder consumes them, so the rendered outcome re-serializes into a
/// loadable save file. Fails with [`MergeError::ChapterMismatch`] when the
/// other side or the ancestor reports a later chapter than ours, whatever
/// the fields hold; otherwise the outcome is exactly [`merge_spec`] and its
/// length is the line count the chapter's schema fixes. Diagnostics about
/// counter merges and dropped items are appended to `diag` and never alter
/// the outcome.
pub fn merge_savefiles(
    ours: &SaveData,
    theirs: &SaveData,
    ancestor: Option<&SaveData>,
    diag: &mut Vec<Diagnostic>,
) -> (r: Result<Vec<MergeResult<String>>, MergeError>)
    requires
        ours.wf(),
        theirs.wf(),
        ancestor matches Some(a) ==> a.wf(),
        theirs@.chapter >= ours@.chapter,
        ancestor matches Some(a) ==> a@.chapter >= ours@.chapter,
    ensures
        ({
            let av = match ancestor {
                Some(a) => Some(a@),
                None => None::<SpecSaveData>,
            };
            if theirs@.chapter > ours@.chapter || (av matches Some(x) && x.chapter
                > ours@.chapter) {
                r == Err::<Vec<MergeResult<String>>, MergeError>(MergeError::ChapterMismatch)
            } else {
                r matches Ok(lines) && out_view(lines@) == merge_spec(ours@, theirs@, av)
                    && lines@.len() == expected_line_count(ours@.chapter)
            }
        }),
{
    let chapter = ours.chapter;
    let mismatched = theirs.chapter > chapter || (match ancestor {
        Some(a) => a.chapter > chapter,
        None => false,
    });
    if mismatched {
        return Err(MergeError::ChapterMismatch);
    }
    let ghost o = ours@;
    let ghost t = theirs@;
    let ghost av: Option<SpecSaveData> = match ancestor {
        Some(a) => Some(a@),
        None => None,
    };
    let mut data: Vec<MergeResult<String>> = Vec::new();
    proof {
        assert(out_view(data@) =~= Seq::<MergeResult<Seq<char>>>::empty());
    }
    merge_front(&mut data, ours, theirs, ancestor, diag);
    merge_mid(&mut data, ours, theirs, ancestor, diag);
    merge_tail(&mut data, ours, theirs, ancestor, diag);
    proof {
        assert(out_view(data@) =~= merge_spec(o, t, av));
        lemma_merge_spec_len(o, t, av);
        assert(data@.len() == out_view(data@).len());
    }
    Ok(data)
}

/// Shape facts for every reconciled collection of one merge.
proof fn lemma_merge_inv_len_all(o: SpecSaveData, t: SpecSaveData)
    ensures
        merge_inv_spec(inv_storage(o), inv_storage(t), 0).0.len() == inv_storage(o).len(),
        merge_inv_spec(o.key_items, t.key_items, 0).0.len() == o.key_items.len(),
        merge_inv_spec(o.weapons, t.weapons + wappend(o.stats, t.stats, 0), 0).0.len()
            == o.weapons.len(),
        merge_inv_spec(
            o.armors + aappend(o.stats, t.stats, 0),
            t.weapons + wappend(o.stats, t.stats, 0),
            0,
        ).0.len() == o.armors.len() + aappend(o.stats, t.stats, 0).len(),
{
    crate::merging::lemma_merge_inv_len(inv_storage(o), inv_storage(t), 0);
    crate::merging::lemma_merge_inv_len(o.key_items, t.key_items, 0);
    crate::merging::lemma_merge_inv_len(o.weapons, t.weapons + wappend(o.stats, t.stats, 0), 0);
    crate::merging::lemma_merge_inv_len(
        o.armors + aappend(o.stats, t.stats, 0),
        t.weapons + wappend(o.stats, t.stats, 0),
        0,
    );
}

proof fn lemma_front_len(o: SpecSaveData, t: SpecSaveData, a: Option<SpecSaveData>)
    requires
        o.wf(),
    ensures
        front_spec(o, t, a).len() == 19 + (if o.chapter == 1 {
            4int * 54
        } else {
            5int * 62
        }),
{
    lemma_stats_blocks_len(o.stats, t.stats, omap(a, |x: SpecSaveData| x.stats), o.chapter, 0);
}

#[verifier::rlimit(100)]
proof fn lemma_mid_len(o: SpecSaveData, t: SpecSaveData, a: Option<SpecSaveData>)
    requires
        o.wf(),
    ensures
        mid_spec(o, t, a).len() == if o.chapter == 1 {
            81int
        } else {
            223int
        },
{
    let ch = o.chapter;
    let inv_m = merge_inv_spec(inv_storage(o), inv_storage(t), 0).0;
    let key_m = merge_inv_spec(o.key_items, t.key_items, 0).0;
    let tw = t.weapons + wappend(o.stats, t.stats, 0);
    let weap_m = merge_inv_spec(o.weapons, tw, 0).0;
    let arm_m = merge_inv_spec(o.armors + aappend(o.stats, t.stats, 0), tw, 0).0;
    let lwi_m = merge_inv_spec(o.lightworld_items, t.lightworld_items, 0).0;
    let lwp_m = merge_inv_spec(o.lightworld_phone, t.lightworld_phone, 0).0;
    crate::merging::lemma_merge_inv_len(o.lightworld_items, t.lightworld_items, 0);
    crate::merging::lemma_merge_inv_len(o.lightworld_phone, t.lightworld_phone, 0);
    lemma_quad_len(inv_m, key_m, weap_m, arm_m, 0, 12);
    lemma_pair_len(inv_m, key_m, 0, 12);
    lemma_pair_len(weap_m, arm_m, 0, 48);
    lemma_single_len(inv_m.skip(12), 0, 72);
    lemma_pair_len(lwi_m, lwp_m, 0, 8);
}

proof fn lemma_tail_len(o: SpecSaveData, t: SpecSaveData, a: Option<SpecSaveData>)
    ensures
        tail_spec(o, t, a).len() == 2503 + (if o.chapter == 1 {
            7499int
        } else {
            0int
        }),
{
    lemma_zero_len(7499);
}

/// The merged line sequence has exactly the length the chapter fixes.
proof fn lemma_merge_spec_len(o: SpecSaveData, t: SpecSaveData, a: Option<SpecSaveData>)
    requires
        o.wf(),
        t.wf(),
        t.chapter == o.chapter,
        a matches Some(x) ==> x.wf() && x.chapter == o.chapter,
    ensures
        merge_spec(o, t, a).len() == expected_line_count(o.chapter),
{
    lemma_front_len(o, t, a);
    lemma_mid_len(o, t, a);
    lemma_tail_len(o, t, a);
}

} // verus!
