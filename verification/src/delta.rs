//! Field-wise difference of two component states, and its application.
//!
//! A component state is the sequence of its replicated fields; a field's
//! identifier is its index. A delta lists the fields that changed with their
//! new values.

use vstd::prelude::*;

verus! {

/// A replicated field that differs from the baseline, with its new value.
#[derive(Clone, Copy, Debug, PartialEq, Eq, Structural)]
pub struct FieldChange {
    pub field: usize,
    pub value: i64,
}

/// The changes among the first `n` fields, in ascending field order.
pub open spec fn changes_upto(base: Seq<i64>, cur: Seq<i64>, n: int) -> Seq<FieldChange>
    decreases n,
{
    if n <= 0 {
        Seq::empty()
    } else if base[n - 1] != cur[n - 1] {
        changes_upto(base, cur, n - 1).push(
            FieldChange { field: (n - 1) as usize, value: cur[n - 1] },
        )
    } else {
        changes_upto(base, cur, n - 1)
    }
}

/// The delta that leads from `base` to `cur`: exactly the fields whose values differ.
pub open spec fn delta_of(base: Seq<i64>, cur: Seq<i64>) -> Seq<FieldChange> {
    changes_upto(base, cur, cur.len() as int)
}

/// Every change names a field of a state with `len` fields.
pub open spec fn fits(changes: Seq<FieldChange>, len: nat) -> bool {
    forall|i: int| 0 <= i < changes.len() ==> (#[trigger] changes[i]).field < len
}

/// The state after the changes were written over `base`, first to last.
pub open spec fn patched(base: Seq<i64>, changes: Seq<FieldChange>) -> Seq<i64>
    decreases changes.len(),
{
    if changes.len() == 0 {
        base
    } else {
        let prev = patched(base, changes.drop_last());
        let c = changes.last();
        if c.field < prev.len() {
            prev.update(c.field as int, c.value)
        } else {
            prev
        }
    }
}

/// Writing changes over a state keeps its number of fields.
proof fn lemma_patched_len(base: Seq<i64>, changes: Seq<FieldChange>)
    ensures
        patched(base, changes).len() == base.len(),
    decreases changes.len(),
{
    if changes.len() > 0 {
        lemma_patched_len(base, changes.drop_last());
    }
}

/// The changes among the first `n` fields name fields of the state, and are at most `n`.
proof fn lemma_changes_fit(base: Seq<i64>, cur: Seq<i64>, n: int)
    requires
        n <= cur.len(),
    ensures
        fits(changes_upto(base, cur, n), cur.len()),
        changes_upto(base, cur, n).len() <= if n < 0 { 0 } else { n },
    decreases n,
{
    if n > 0 {
        lemma_changes_fit(base, cur, n - 1);
    }
}

/// Writing the changes among the first `n` fields over the baseline gives the
/// current state on those fields and leaves the others as the baseline has them.
pub proof fn lemma_patch_prefix(base: Seq<i64>, cur: Seq<i64>, n: int)
    requires
        base.len() == cur.len(),
        cur.len() <= usize::MAX,
        0 <= n <= cur.len(),
    ensures
        patched(base, changes_upto(base, cur, n)) =~= cur.take(n) + base.skip(n),
    decreases n,
{
    if n > 0 {
        lemma_patch_prefix(base, cur, n - 1);
        let before = changes_upto(base, cur, n - 1);
        lemma_patched_len(base, before);
        if base[n - 1] != cur[n - 1] {
            let c = FieldChange { field: (n - 1) as usize, value: cur[n - 1] };
            assert(before.push(c).drop_last() =~= before);
            assert(before.push(c).last() == c);
        }
    }
}

/// Diff and apply round-trip: the delta from a baseline to a state, applied to
/// that baseline, gives the state.
pub proof fn lemma_delta_round_trip(base: Seq<i64>, cur: Seq<i64>)
    requires
        base.len() == cur.len(),
        cur.len() <= usize::MAX,
    ensures
        patched(base, delta_of(base, cur)) == cur,
        fits(delta_of(base, cur), base.len()),
{
    lemma_patch_prefix(base, cur, cur.len() as int);
    lemma_changes_fit(base, cur, cur.len() as int);
    assert(cur.take(cur.len() as int) + base.skip(cur.len() as int) =~= cur);
}

/// A copy of a component state.
pub fn copy_values(values: &Vec<i64>) -> (r: Vec<i64>)
    ensures
        r@ == values@,
{
    let mut out: Vec<i64> = Vec::new();
    let mut i: usize = 0;
    while i < values.len()
        invariant
            i <= values.len(),
            out@ == values@.take(i as int),
        decreases values.len() - i,
    {
        out.push(values[i]);
        proof {
            assert(values@.take(i + 1) =~= values@.take(i as int).push(values@[i as int]));
        }
        i += 1;
    }
    proof {
        assert(values@.take(values.len() as int) =~= values@);
    }
    out
}

/// The fields of `current` that differ from `baseline`. Two states with
/// different numbers of fields have no delta.
pub fn diff(baseline: &Vec<i64>, current: &Vec<i64>) -> (r: Option<Vec<FieldChange>>)
    ensures
        r is Some <==> baseline.len() == current.len(),
        r is Some ==> r->0@ == delta_of(baseline@, current@),
        r is Some ==> patched(baseline@, r->0@) == current@,
{
    if baseline.len() != current.len() {
        return None;
    }
    let mut out: Vec<FieldChange> = Vec::new();
    let mut i: usize = 0;
    while i < current.len()
        invariant
            baseline.len() == current.len(),
            i <= current.len(),
            out@ == changes_upto(baseline@, current@, i as int),
        decreases current.len() - i,
    {
        if baseline[i] != current[i] {
            out.push(FieldChange { field: i, value: current[i] });
        }
        i += 1;
    }
    proof {
        lemma_delta_round_trip(baseline@, current@);
    }
    Some(out)
}

/// Writes the changes over a copy of `base`. A change that names a field the
/// state does not have makes the whole delta unusable.
pub fn apply_delta(base: &Vec<i64>, changes: &Vec<FieldChange>) -> (r: Option<Vec<i64>>)
    ensures
        r is Some <==> fits(changes@, base@.len()),
        r is Some ==> r->0@ == patched(base@, changes@),
{
    let mut out: Vec<i64> = copy_values(base);
    let mut i: usize = 0;
    while i < changes.len()
        invariant
            i <= changes.len(),
            out.len() == base.len(),
            fits(changes@.take(i as int), base@.len()),
            out@ == patched(base@, changes@.take(i as int)),
        decreases changes.len() - i,
    {
        let c: FieldChange = changes[i];
        if c.field >= out.len() {
            proof {
                assert(changes@[i as int].field >= base@.len());
            }
            return None;
        }
        out.set(c.field, c.value);
        proof {
            assert(changes@.take(i + 1).drop_last() =~= changes@.take(i as int));
            assert(changes@.take(i + 1).last() == c);
            assert forall|j: int| 0 <= j < i + 1 implies (#[trigger] changes@.take(i + 1)[j]).field
                < base@.len() by {
                if j < i {
                    assert(changes@.take(i as int)[j] == changes@[j]);
                }
            }
        }
        i += 1;
    }
    proof {
        assert(changes@.take(changes.len() as int) =~= changes@);
    }
    Some(out)
}

} // verus!
