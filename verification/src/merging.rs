//! Merge outcomes, the per-field reconciliation policies, and inventory
//! reconciliation.

use vstd::prelude::*;
use vstd::std_specs::cmp::PartialEqSpec;
use vstd::std_specs::cmp::PartialOrdSpec;
use vstd::string::StringExecFns;

verus! {

/// The outcome of merging one field: an accepted value, or both sides kept
/// for manual resolution, with the ancestor when one was supplied.
#[derive(Debug)]
pub enum MergeResult<T> {
    Resolved(T),
    Conflict { ours: T, theirs: T, ancestor: Option<T> },
}

impl<T: View> View for MergeResult<T> {
    type V = MergeResult<T::V>;

    open spec fn view(&self) -> MergeResult<T::V> {
        match self {
            MergeResult::Resolved(v) => MergeResult::Resolved(v@),
            MergeResult::Conflict { ours, theirs, ancestor } => MergeResult::Conflict {
                ours: ours@,
                theirs: theirs@,
                ancestor: match ancestor {
                    Some(a) => Some(a@),
                    None => None,
                },
            },
        }
    }
}

impl<T> MergeResult<T> {
    /// Applies `f` to every value inside, keeping the shape.
    pub fn map<T2, F: Fn(T) -> T2>(self, f: F) -> (r: MergeResult<T2>)
        requires
            forall|v: T| call_requires(f, (v,)),
        ensures
            match self {
                MergeResult::Resolved(v) => r matches MergeResult::Resolved(v2)
                    && call_ensures(f, (v,), v2),
                MergeResult::Conflict { ours, theirs, ancestor } => r matches MergeResult::Conflict {
                    ours: o2,
                    theirs: t2,
                    ancestor: a2,
                } && call_ensures(f, (ours,), o2) && call_ensures(f, (theirs,), t2) && (match (
                    ancestor,
                    a2,
                ) {
                    (Some(a), Some(av2)) => call_ensures(f, (a,), av2),
                    (None, None) => true,
                    _ => false,
                }),
            },
    {
        match self {
            MergeResult::Resolved(v) => MergeResult::Resolved(f(v)),
            MergeResult::Conflict { ours, theirs, ancestor } => MergeResult::Conflict {
                ours: f(ours),
                theirs: f(theirs),
                ancestor: match ancestor {
                    Some(a) => Some(f(a)),
                    None => None,
                },
            },
        }
    }

    /// Replaces a conflict by what `f` makes of its parts; a resolved value
    /// passes through unchanged.
    pub fn map_conflict<F: FnOnce(T, T, Option<T>) -> MergeResult<T>>(self, f: F) -> (r:
        MergeResult<T>)
        requires
            forall|o: T, t: T, a: Option<T>| call_requires(f, (o, t, a)),
        ensures
            match self {
                MergeResult::Resolved(v) => r == MergeResult::Resolved(v),
                MergeResult::Conflict { ours, theirs, ancestor } => call_ensures(
                    f,
                    (ours, theirs, ancestor),
                    r,
                ),
            },
    {
        match self {
            MergeResult::Resolved(v) => MergeResult::Resolved(v),
            MergeResult::Conflict { ours, theirs, ancestor } => f(ours, theirs, ancestor),
        }
    }
}

/// Equal-or-ancestor-pick: what [`merge_simple`] returns. Agreeing sides
/// resolve at once; otherwise a known ancestor equal to one side yields the
/// other, changed side; anything else is a conflict.
pub open spec fn merge_simple_spec<T: PartialEq>(ours: T, theirs: T, ancestor: Option<T>) -> MergeResult<T> {
    if ours.eq_spec(&theirs) {
        MergeResult::Resolved(ours)
    } else {
        match ancestor {
            Some(a) => if a.eq_spec(&ours) {
                MergeResult::Resolved(theirs)
            } else if a.eq_spec(&theirs) {
                MergeResult::Resolved(ours)
            } else {
                MergeResult::Conflict { ours, theirs, ancestor: Some(a) }
            },
            None => MergeResult::Conflict { ours, theirs, ancestor: None },
        }
    }
}

/// Merges one scalar field with the equal-or-ancestor-pick policy.
pub fn merge_simple<T: PartialEq>(ours: T, theirs: T, ancestor: Option<T>) -> (r: MergeResult<T>)
    ensures
        T::obeys_eq_spec() ==> r == merge_simple_spec(ours, theirs, ancestor),
{
    if ours == theirs {
        return MergeResult::Resolved(ours);
    }
    match ancestor {
        Some(a) => {
            if a == ours {
                MergeResult::Resolved(theirs)
            } else if a == theirs {
                MergeResult::Resolved(ours)
            } else {
                MergeResult::Conflict { ours, theirs, ancestor: Some(a) }
            }
        },
        None => MergeResult::Conflict { ours, theirs, ancestor: None },
    }
}

/// Equal-or-conflict: what [`merge_same`] returns. Only agreeing sides
/// resolve; the ancestor never decides.
pub open spec fn merge_same_spec<T: PartialEq>(ours: T, theirs: T, ancestor: Option<T>) -> MergeResult<T> {
    if ours.eq_spec(&theirs) {
        MergeResult::Resolved(ours)
    } else {
        MergeResult::Conflict { ours, theirs, ancestor }
    }
}

/// Merges one order-sensitive field with the equal-or-conflict policy.
pub fn merge_same<T: PartialEq>(ours: T, theirs: T, ancestor: Option<T>) -> (r: MergeResult<T>)
    ensures
        T::obeys_eq_spec() ==> r == merge_same_spec(ours, theirs, ancestor),
{
    if ours == theirs {
        MergeResult::Resolved(ours)
    } else {
        MergeResult::Conflict { ours, theirs, ancestor }
    }
}

/// Take-max: what [`merge_max`] returns. The larger side wins outright; the
/// ancestor is ignored.
pub open spec fn merge_max_spec<T: PartialOrd>(ours: T, theirs: T) -> MergeResult<T> {
    if theirs.partial_cmp_spec(&ours) == Some(core::cmp::Ordering::Greater) {
        MergeResult::Resolved(theirs)
    } else {
        MergeResult::Resolved(ours)
    }
}

/// Merges one monotone field by keeping the larger side.
pub fn merge_max<T: PartialOrd>(ours: T, theirs: T) -> (r: MergeResult<T>)
    ensures
        T::obeys_partial_cmp_spec() ==> r == merge_max_spec(ours, theirs),
{
    if theirs > ours {
        MergeResult::Resolved(theirs)
    } else {
        MergeResult::Resolved(ours)
    }
}

/// Law: a field merged with the equal-or-ancestor-pick policy resolves to
/// ours whenever the two sides agree, whatever the ancestor holds.
pub proof fn lemma_merge_simple_agreeing<T: PartialEq>(ours: T, theirs: T, ancestor: Option<T>)
    requires
        ours.eq_spec(&theirs),
    ensures
        merge_simple_spec(ours, theirs, ancestor) == MergeResult::Resolved(ours),
{
}

/// Law: with the ancestor equal to ours and the two sides apart, the
/// equal-or-ancestor-pick policy resolves to theirs, the changed side.
pub proof fn lemma_merge_simple_their_change<T: PartialEq>(ours: T, theirs: T, ancestor: T)
    requires
        !ours.eq_spec(&theirs),
        ancestor.eq_spec(&ours),
    ensures
        merge_simple_spec(ours, theirs, Some(ancestor)) == MergeResult::Resolved(theirs),
{
}

} // verus!

verus! {

/// Advisory record of a merge decision or a dropped item. Diagnostics are
/// collected by the caller and never alter the merge outcome.
#[derive(Debug, Clone)]
pub enum Diagnostic {
    /// An additive three-way counter merge, with the raw result before any
    /// clamping.
    ValueMerge { name: String, ours: i64, ancestor: i64, theirs: i64, result: i64 },
    /// A two-way counter merge fell back to the larger side.
    MaxFallback { name: String, ours: i64, theirs: i64 },
    /// An item the other side gained could not be placed: no slot is free.
    InventoryDrop { kind: String, item: i32 },
}

/// Bound on the counters handed to [`merge_values`], so that the additive
/// formula stays within a 64-bit value.
pub open spec fn merge_values_bound() -> int {
    0x2000_0000_0000_0000
}

/// The value, brought down to the bound when one is given and exceeded.
pub open spec fn clamp_high(raw: int, max: Option<i64>) -> int {
    match max {
        Some(x) => if raw > x {
            x as int
        } else {
            raw
        },
        None => raw,
    }
}

/// Additive-delta-with-clamp: what [`merge_values`] returns. Agreeing sides
/// resolve at once. With an ancestor, both sides' deltas are added onto the
/// ancestor baseline and the sum is clamped to the optional bounds, the
/// floor first. Without one, the larger side wins.
pub open spec fn merge_values_spec(
    ours: i64,
    theirs: i64,
    ancestor: Option<i64>,
    min: Option<i64>,
    max: Option<i64>,
) -> MergeResult<i64> {
    if ours == theirs {
        MergeResult::Resolved(ours)
    } else {
        match ancestor {
            Some(a) => {
                let raw = a + (ours - a) + (theirs - a);
                let clamped = match min {
                    Some(m) => if raw < m {
                        m as int
                    } else {
                        clamp_high(raw, max)
                    },
                    None => clamp_high(raw, max),
                };
                MergeResult::Resolved(clamped as i64)
            },
            None => if theirs > ours {
                MergeResult::Resolved(theirs)
            } else {
                MergeResult::Resolved(ours)
            },
        }
    }
}

/// Merges one monotonically adjusted counter with the
/// additive-delta-with-clamp policy, recording what was decided.
pub fn merge_values(
    ours: i64,
    theirs: i64,
    ancestor: Option<i64>,
    min: Option<i64>,
    max: Option<i64>,
    merge_name: &str,
    diag: &mut Vec<Diagnostic>,
) -> (r: MergeResult<i64>)
    requires
        -merge_values_bound() <= ours <= merge_values_bound(),
        -merge_values_bound() <= theirs <= merge_values_bound(),
        ancestor matches Some(a) ==> -merge_values_bound() <= a <= merge_values_bound(),
    ensures
        r == merge_values_spec(ours, theirs, ancestor, min, max),
        ours == theirs ==> final(diag)@ == old(diag)@,
        (ours != theirs && ancestor is Some) ==> (final(diag)@ == old(diag)@.push(
            Diagnostic::ValueMerge {
                name: final(diag)@.last()->ValueMerge_name,
                ours,
                ancestor: ancestor->0,
                theirs,
                result: (ancestor->0 + (ours - ancestor->0) + (theirs - ancestor->0)) as i64,
            },
        ) && final(diag)@.last()->ValueMerge_name@ == merge_name@),
        (ours != theirs && ancestor is None) ==> (final(diag)@ == old(diag)@.push(
            Diagnostic::MaxFallback { name: final(diag)@.last()->MaxFallback_name, ours, theirs },
        ) && final(diag)@.last()->MaxFallback_name@ == merge_name@),
{
    if ours == theirs {
        return MergeResult::Resolved(ours);
    }
    match ancestor {
        Some(a) => {
            let raw = a + (ours - a) + (theirs - a);
            let mut name = String::new();
            name.append(merge_name);
            diag.push(
                Diagnostic::ValueMerge { name, ours, ancestor: a, theirs, result: raw },
            );
            let value = match min {
                Some(m) if raw < m => m,
                _ => match max {
                    Some(x) if raw > x => x,
                    _ => raw,
                },
            };
            MergeResult::Resolved(value)
        },
        None => {
            let mut name = String::new();
            name.append(merge_name);
            diag.push(Diagnostic::MaxFallback { name, ours, theirs });
            if theirs > ours {
                MergeResult::Resolved(theirs)
            } else {
                MergeResult::Resolved(ours)
            }
        },
    }
}

} // verus!

verus! {

/// How many positions of `s` hold `v`.
pub open spec fn count_val(s: Seq<i32>, v: i32) -> int
    decreases s.len(),
{
    if s.len() == 0 {
        0
    } else {
        count_val(s.drop_last(), v) + if s.last() == v {
            1int
        } else {
            0int
        }
    }
}

/// Counts the slots of `array` holding `value`.
pub fn count_in_array(array: &Vec<i32>, value: i32) -> (r: usize)
    ensures
        r == count_val(array@, value),
{
    let mut cnt: usize = 0;
    let mut i: usize = 0;
    proof {
        assert(array@.take(0) =~= Seq::<i32>::empty());
    }
    while i < array.len()
        invariant
            0 <= i <= array@.len(),
            cnt == count_val(array@.take(i as int), value),
            cnt <= i,
        decreases array@.len() - i,
    {
        proof {
            let t = array@.take(i as int + 1);
            assert(t.drop_last() =~= array@.take(i as int));
            assert(t.last() == array@[i as int]);
        }
        if array[i] == value {
            cnt = cnt + 1;
        }
        i = i + 1;
    }
    proof {
        assert(array@.take(array@.len() as int) =~= array@);
    }
    cnt
}

/// Index of the first empty slot at or after `i`, or `-1` when none exists.
pub open spec fn find_empty_fwd(s: Seq<i32>, i: int) -> int
    decreases s.len() - i,
{
    if i < 0 || i >= s.len() {
        -1
    } else if s[i] == 0 {
        i
    } else {
        find_empty_fwd(s, i + 1)
    }
}

/// Index of the first empty slot at or below `i`, scanning down, or `-1`.
pub open spec fn find_empty_back(s: Seq<i32>, i: int) -> int
    decreases i + 1,
{
    if i < 0 || i >= s.len() {
        -1
    } else if s[i] == 0 {
        i
    } else {
        find_empty_back(s, i - 1)
    }
}

/// What adding one item does: the slot search of [`add_to_inventory`] and
/// the array it leaves behind.
pub open spec fn spec_add_slot(s: Seq<i32>, item: i32, start: int) -> (Seq<i32>, Option<int>) {
    let f = find_empty_fwd(s, start);
    if f >= 0 {
        (s.update(f, item), Some(f))
    } else {
        let b = find_empty_back(s, start - 1);
        if b >= 0 {
            (s.update(b, item), Some(b))
        } else {
            (s, None)
        }
    }
}

/// Places `item` in the first empty slot at or after `start_index`, else in
/// the closest empty slot below it; fails when every slot is taken. Empty
/// slots hold the zero identifier.
pub fn add_to_inventory(inventory: &mut Vec<i32>, item: i32, start_index: usize) -> (r: Result<
    usize,
    (),
>)
    requires
        start_index <= old(inventory)@.len(),
    ensures
        ({
            let (s2, slot) = spec_add_slot(old(inventory)@, item, start_index as int);
            final(inventory)@ == s2 && (match slot {
                Some(idx) => r == Ok::<usize, ()>(idx as usize),
                None => r == Err::<usize, ()>(()),
            })
        }),
{
    let n = inventory.len();
    let mut i: usize = start_index;
    while i < n && inventory[i] != 0
        invariant
            start_index <= i <= n,
            n == inventory@.len(),
            inventory == old(inventory),
            find_empty_fwd(inventory@, start_index as int) == find_empty_fwd(
                inventory@,
                i as int,
            ),
        decreases n - i,
    {
        i = i + 1;
    }
    if i < n {
        inventory.set(i, item);
        proof {
            assert(find_empty_fwd(old(inventory)@, i as int) == i);
        }
        return Ok(i);
    }
    proof {
        assert(find_empty_fwd(old(inventory)@, start_index as int) == -1);
    }
    let mut j: usize = start_index;
    while j > 0 && inventory[j - 1] != 0
        invariant
            0 <= j <= start_index,
            n == inventory@.len(),
            start_index <= n,
            inventory == old(inventory),
            find_empty_back(inventory@, start_index as int - 1) == find_empty_back(
                inventory@,
                j as int - 1,
            ),
        decreases j,
    {
        j = j - 1;
    }
    if j > 0 {
        inventory.set(j - 1, item);
        proof {
            assert(find_empty_back(old(inventory)@, j as int - 1) == j - 1);
        }
        return Ok(j - 1);
    }
    proof {
        assert(find_empty_back(old(inventory)@, start_index as int - 1) == -1);
    }
    Err(())
}

} // verus!

verus! {

/// What reconciling two inventories does. For every non-empty value in
/// theirs, in slot order: when theirs still holds strictly more copies of
/// the value than ours, one copy is placed into ours (at or after theirs'
/// slot, clamped to the end of ours, else in the closest slot below) and
/// theirs' slot is blanked so the copy is not counted again. The result
/// carries the final ours, the consumed theirs copy, and the values that
/// found no free slot, in order.
pub open spec fn merge_inv_spec(ours: Seq<i32>, th: Seq<i32>, i: nat) -> (
    Seq<i32>,
    Seq<i32>,
    Seq<i32>,
)
    decreases th.len() - i,
{
    if i >= th.len() {
        (ours, th, Seq::<i32>::empty())
    } else {
        let v = th[i as int];
        if v == 0 {
            merge_inv_spec(ours, th, i + 1)
        } else if count_val(th, v) > count_val(ours, v) {
            let start = if i < ours.len() {
                i as int
            } else {
                ours.len() as int
            };
            let added = spec_add_slot(ours, v, start);
            let th2 = th.update(i as int, 0);
            let rec = merge_inv_spec(added.0, th2, i + 1);
            if added.1 is Some {
                rec
            } else {
                (rec.0, rec.1, seq![v] + rec.2)
            }
        } else {
            merge_inv_spec(ours, th, i + 1)
        }
    }
}

/// Reconciles the multiset difference of two slotted inventories, exactly
/// as [`merge_inv_spec`] describes: copies theirs gained beyond ours are
/// placed into ours, preferring slot locality to theirs' placement; a copy
/// with no free slot anywhere is dropped and recorded.
#[verifier::loop_isolation(false)]
pub fn merge_inventories(
    ours: &mut Vec<i32>,
    theirs: &Vec<i32>,
    item_kind: &str,
    diag: &mut Vec<Diagnostic>,
) -> (dropped: Ghost<Seq<i32>>)
    ensures
        ({
            let full = merge_inv_spec(old(ours)@, theirs@, 0);
            &&& dropped@ == full.2
            &&& final(ours)@ == full.0
            &&& final(diag)@.len() == old(diag)@.len() + full.2.len()
            &&& forall|k: int| 0 <= k < old(diag)@.len() ==> final(diag)@[k] == old(diag)@[k]
            &&& forall|k: int|
                0 <= k < full.2.len() ==> ((#[trigger] final(diag)@[old(diag)@.len() + k])
                    matches Diagnostic::InventoryDrop { kind, item } && kind@ == item_kind@
                    && item == full.2[k])
        }),
{
    let mut th = theirs.clone();
    proof {
        assert(th@ =~= theirs@);
    }
    let ghost full = merge_inv_spec(old(ours)@, theirs@, 0);
    let mut i: usize = 0;
    let ghost mut dropped_pre: Seq<i32> = Seq::<i32>::empty();
    proof {
        assert(dropped_pre + merge_inv_spec(ours@, th@, 0).2 =~= merge_inv_spec(ours@, th@, 0).2);
    }
    while i < th.len()
        invariant
            0 <= i <= th@.len(),
            th@.len() == theirs@.len(),
            ({
                let rec = merge_inv_spec(ours@, th@, i as nat);
                &&& full.0 == rec.0
                &&& full.1 == rec.1
                &&& full.2 == dropped_pre + rec.2
            }),
            diag@.len() == old(diag)@.len() + dropped_pre.len(),
            forall|k: int| 0 <= k < old(diag)@.len() ==> diag@[k] == old(diag)@[k],
            forall|k: int|
                0 <= k < dropped_pre.len() ==> ((#[trigger] diag@[old(diag)@.len() + k])
                    matches Diagnostic::InventoryDrop { kind, item } && kind@ == item_kind@
                    && item == dropped_pre[k]),
        decreases th@.len() - i,
    {
        let ghost rec = merge_inv_spec(ours@, th@, i as nat);
        let v = th[i];
        if v != 0 {
            let count_ours = count_in_array(ours, v);
            let count_theirs = count_in_array(&th, v);
            if count_theirs > count_ours {
                let start = if i < ours.len() {
                    i
                } else {
                    ours.len()
                };
                let res = add_to_inventory(ours, v, start);
                th.set(i, 0);
                match res {
                    Ok(_) => {},
                    Err(_) => {
                        let mut kind = String::new();
                        kind.append(item_kind);
                        diag.push(Diagnostic::InventoryDrop { kind, item: v });
                        proof {
                            let rec2 = merge_inv_spec(ours@, th@, (i + 1) as nat);
                            assert(rec.2 =~= seq![v] + rec2.2);
                            assert(dropped_pre + rec.2 =~= dropped_pre.push(v) + rec2.2);
                            dropped_pre = dropped_pre.push(v);
                        }
                    },
                }
            }
        }
        i = i + 1;
    }
    proof {
        assert(merge_inv_spec(ours@, th@, i as nat).2 =~= Seq::<i32>::empty());
        assert(dropped_pre + Seq::<i32>::empty() =~= dropped_pre);
    }
    Ghost(dropped_pre)
}

} // verus!

verus! {

/// `n` copies of one character.
pub open spec fn repeat_char(c: char, n: nat) -> Seq<char>
    decreases n,
{
    if n == 0 {
        Seq::<char>::empty()
    } else {
        repeat_char(c, (n - 1) as nat).push(c)
    }
}

/// The rendered text of one merge outcome: a resolved value's own text, or
/// the standard conflict block. With an ancestor the block has five bands
/// (`<` marker and ours, `|` marker and ancestor, `=` marker, theirs, `>`
/// marker); without one the ancestor band is left out.
pub open spec fn merge_text(m: MergeResult<Seq<char>>, width: nat) -> Seq<char> {
    match m {
        MergeResult::Resolved(v) => v,
        MergeResult::Conflict { ours, theirs, ancestor: Some(a) } => repeat_char('<', width)
            + " ours\n"@ + ours + "\n"@ + repeat_char('|', width) + " ancestor\n"@ + a + "\n"@
            + repeat_char('=', width) + "\n"@ + theirs + "\n"@ + repeat_char('>', width)
            + " theirs"@,
        MergeResult::Conflict { ours, theirs, ancestor: None } => repeat_char('<', width)
            + " ours\n"@ + ours + "\n"@ + repeat_char('=', width) + "\n"@ + theirs + "\n"@
            + repeat_char('>', width) + " theirs"@,
    }
}

/// Appends `n` copies of the single character of `marker`.
fn append_marker(s: &mut String, marker: &str, n: usize)
    requires
        marker@.len() == 1,
    ensures
        final(s)@ == old(s)@ + repeat_char(marker@[0], n as nat),
{
    let mut i: usize = 0;
    proof {
        assert(old(s)@ + repeat_char(marker@[0], 0) =~= old(s)@);
    }
    while i < n
        invariant
            0 <= i <= n,
            marker@.len() == 1,
            s@ == old(s)@ + repeat_char(marker@[0], i as nat),
        decreases n - i,
    {
        s.append(marker);
        proof {
            assert(old(s)@ + repeat_char(marker@[0], i as nat) + marker@ =~= old(s)@
                + repeat_char(marker@[0], (i + 1) as nat));
        }
        i = i + 1;
    }
}

impl MergeResult<String> {
    /// Renders the outcome for the merged file: the value's text when
    /// resolved, else the conflict block with markers of the given width,
    /// exactly as [`merge_text`] describes.
    pub fn to_merge_string(&self, conflict_marker_length: usize) -> (r: String)
        ensures
            r@ == merge_text(self@, conflict_marker_length as nat),
    {
        proof {
            reveal_strlit("<");
            reveal_strlit("|");
            reveal_strlit("=");
            reveal_strlit(">");
            reveal_strlit(" ours\n");
            reveal_strlit(" ancestor\n");
            reveal_strlit(" theirs");
            reveal_strlit("\n");
        }
        match self {
            MergeResult::Resolved(v) => v.clone(),
            MergeResult::Conflict { ours, theirs, ancestor: Some(a) } => {
                let w = conflict_marker_length;
                let mut out = String::new();
                append_marker(&mut out, "<", w);
                out.append(" ours\n");
                out.append(ours.as_str());
                out.append("\n");
                append_marker(&mut out, "|", w);
                out.append(" ancestor\n");
                out.append(a.as_str());
                out.append("\n");
                append_marker(&mut out, "=", w);
                out.append("\n");
                out.append(theirs.as_str());
                out.append("\n");
                append_marker(&mut out, ">", w);
                out.append(" theirs");
                proof {
                    assert(out@ =~= merge_text(self@, w as nat));
                }
                out
            },
            MergeResult::Conflict { ours, theirs, ancestor: None } => {
                let w = conflict_marker_length;
                let mut out = String::new();
                append_marker(&mut out, "<", w);
                out.append(" ours\n");
                out.append(ours.as_str());
                out.append("\n");
                append_marker(&mut out, "=", w);
                out.append("\n");
                out.append(theirs.as_str());
                out.append("\n");
                append_marker(&mut out, ">", w);
                out.append(" theirs");
                proof {
                    assert(out@ =~= merge_text(self@, w as nat));
                }
                out
            },
        }
    }
}

} // verus!

verus! {

proof fn lemma_find_fwd_props(s: Seq<i32>, i: int)
    ensures
        find_empty_fwd(s, i) == -1 || (i <= find_empty_fwd(s, i) < s.len() && s[find_empty_fwd(
            s,
            i,
        )] == 0),
    decreases s.len() - i,
{
    if 0 <= i < s.len() && s[i] != 0 {
        lemma_find_fwd_props(s, i + 1);
    }
}

proof fn lemma_find_back_props(s: Seq<i32>, i: int)
    ensures
        find_empty_back(s, i) == -1 || (0 <= find_empty_back(s, i) <= i && find_empty_back(s, i)
            < s.len() && s[find_empty_back(s, i)] == 0),
    decreases i + 1,
{
    if 0 <= i < s.len() && s[i] != 0 {
        lemma_find_back_props(s, i - 1);
    }
}

/// Placing one item never changes the shape of the inventory.
pub proof fn lemma_spec_add_len(s: Seq<i32>, item: i32, start: int)
    ensures
        spec_add_slot(s, item, start).0.len() == s.len(),
{
    lemma_find_fwd_props(s, start);
    lemma_find_back_props(s, start - 1);
}

/// Reconciliation never changes the shape of either inventory.
pub proof fn lemma_merge_inv_len(ours: Seq<i32>, th: Seq<i32>, i: nat)
    ensures
        merge_inv_spec(ours, th, i).0.len() == ours.len(),
        merge_inv_spec(ours, th, i).1.len() == th.len(),
    decreases th.len() - i,
{
    if i < th.len() {
        let v = th[i as int];
        if v == 0 {
            lemma_merge_inv_len(ours, th, i + 1);
        } else if count_val(th, v) > count_val(ours, v) {
            let start = if i < ours.len() {
                i as int
            } else {
                ours.len() as int
            };
            lemma_spec_add_len(ours, v, start);
            lemma_merge_inv_len(spec_add_slot(ours, v, start).0, th.update(i as int, 0), i + 1);
        } else {
            lemma_merge_inv_len(ours, th, i + 1);
        }
    }
}

} // verus!
