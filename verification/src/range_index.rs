//! Overlap-tolerant range index.
//!
//! Untrusted inputs hand this module possibly-overlapping `(range,
//! value)` pairs. They are sorted by start, then scanned once: entries
//! that overlap an accepted entry with a different value are dropped
//! (each drop is reported), entries that touch or overlap an accepted
//! entry with an equal value extend it, and everything else is kept.
//! The result is a sorted list of pairwise disjoint ranges, looked up
//! by binary search.

use vstd::prelude::*;
use vstd::std_specs::cmp::PartialEqSpec;

verus! {

/// An inclusive address range.
#[derive(Debug, Clone, Copy, PartialEq, Eq, Structural)]
pub struct AddressRange {
    pub start: u64,
    pub end: u64,
}

impl AddressRange {
    /// The range's bounds are ordered.
    pub open spec fn wf(self) -> bool {
        self.start <= self.end
    }

    /// Whether `addr` lies in this inclusive range.
    pub open spec fn spec_contains(self, addr: u64) -> bool {
        self.start <= addr <= self.end
    }

    /// Whether `addr` lies in this inclusive range.
    pub fn contains(&self, addr: u64) -> (r: bool)
        ensures
            r == self.spec_contains(addr),
    {
        self.start <= addr && addr <= self.end
    }
}

/// Ranges ordered by start alone; the sort keeps the arrival order
/// of entries with equal starts.
pub open spec fn range_le(a: AddressRange, b: AddressRange) -> bool {
    a.start <= b.start
}

/// Ranges ordered by start alone.
fn range_le_exec(a: &AddressRange, b: &AddressRange) -> (r: bool)
    ensures
        r == range_le(*a, *b),
{
    a.start <= b.start
}

/// `end + 1`, saturating at the top of the address space.
pub open spec fn sat_succ(x: u64) -> u64 {
    if x == 0xffffffffffffffff {
        x
    } else {
        (x + 1) as u64
    }
}

/// Entries sorted by start.
pub open spec fn entries_sorted<V>(s: Seq<(AddressRange, V)>) -> bool {
    forall|i: int, j: int| 0 <= i < j < s.len() ==> range_le(s[i].0, s[j].0)
}

/// Every entry's range has ordered bounds.
pub open spec fn entries_wf<V>(s: Seq<(AddressRange, V)>) -> bool {
    forall|i: int| 0 <= i < s.len() ==> (#[trigger] s[i].0).wf()
}

/// Stable insertion: `e` goes after every entry that starts no later
/// than it does.
pub open spec fn spec_insert_entry<V>(s: Seq<(AddressRange, V)>, e: (AddressRange, V)) -> Seq<
    (AddressRange, V),
>
    decreases s.len(),
{
    if s.len() == 0 {
        seq![e]
    } else if range_le(s.last().0, e.0) {
        s.push(e)
    } else {
        spec_insert_entry(s.drop_last(), e).push(s.last())
    }
}

/// Stable insertion sort of the entries, by start.
pub open spec fn spec_sort_entries<V>(s: Seq<(AddressRange, V)>) -> Seq<(AddressRange, V)>
    decreases s.len(),
{
    if s.len() == 0 {
        Seq::empty()
    } else {
        spec_insert_entry(spec_sort_entries(s.drop_last()), s.last())
    }
}

/// Inserting at the position found from the right realises
/// `spec_insert_entry`.
proof fn lemma_insert_entry_at<V>(s: Seq<(AddressRange, V)>, e: (AddressRange, V), j: int)
    requires
        0 <= j <= s.len(),
        forall|k: int| j <= k < s.len() ==> !range_le((#[trigger] s[k]).0, e.0),
        j > 0 ==> range_le(s[j - 1].0, e.0),
    ensures
        spec_insert_entry(s, e) == s.subrange(0, j).push(e) + s.subrange(j, s.len() as int),
    decreases s.len(),
{
    if s.len() == 0 {
        assert(spec_insert_entry(s, e) =~= s.subrange(0, j).push(e) + s.subrange(
            j,
            s.len() as int,
        ));
    } else if range_le(s.last().0, e.0) {
        assert(j == s.len());
        assert(spec_insert_entry(s, e) =~= s.subrange(0, j).push(e) + s.subrange(
            j,
            s.len() as int,
        ));
    } else {
        lemma_insert_entry_at(s.drop_last(), e, j);
        assert(s.drop_last().subrange(0, j) =~= s.subrange(0, j));
        assert(s.drop_last().subrange(j, s.len() - 1) =~= s.subrange(j, s.len() - 1));
        assert(spec_insert_entry(s, e) =~= s.subrange(0, j).push(e) + s.subrange(
            j,
            s.len() as int,
        ));
    }
}

/// Insert `e` into a sorted vector, keeping it sorted and stable.
fn insert_entry<V>(out: &mut Vec<(AddressRange, V)>, e: (AddressRange, V))
    ensures
        final(out)@ == spec_insert_entry(old(out)@, e),
{
    let ghost orig = out@;
    let mut j: usize = out.len();
    while j > 0 && !range_le_exec(&out[j - 1].0, &e.0)
        invariant
            j <= out@.len(),
            out@ == orig,
            forall|k: int| j <= k < out@.len() ==> !range_le((#[trigger] out@[k]).0, e.0),
        decreases j,
    {
        j = j - 1;
    }
    out.insert(j, e);
    proof {
        lemma_insert_entry_at(orig, e, j as int);
        assert(out@ =~= orig.subrange(0, j as int).push(e) + orig.subrange(
            j as int,
            orig.len() as int,
        ));
    }
}

/// Sort the entries by start, stably: entries with equal starts keep
/// their arrival order.
pub fn sort_entries<V>(input: Vec<(AddressRange, V)>) -> (r: Vec<(AddressRange, V)>)
    ensures
        r@ == spec_sort_entries(input@),
{
    let ghost orig = input@;
    let mut rest = input;
    let mut out: Vec<(AddressRange, V)> = Vec::new();
    while rest.len() > 0
        invariant
            rest@.len() <= orig.len(),
            rest@ == orig.subrange(orig.len() - rest@.len(), orig.len() as int),
            out@ == spec_sort_entries(orig.subrange(0, orig.len() - rest@.len())),
        decreases rest@.len(),
    {
        let ghost k = orig.len() - rest@.len();
        let ghost pre_rest = rest@;
        let ghost pre_out = out@;
        let e = rest.remove(0);
        proof {
            assert(pre_rest == orig.subrange(k as int, orig.len() as int));
            assert(e == pre_rest[0]);
            assert(pre_rest[0] == orig[k as int]);
            assert(rest@ == pre_rest.remove(0));
            assert(rest@ =~= orig.subrange(k + 1, orig.len() as int));
        }
        insert_entry(&mut out, e);
        proof {
            assert(orig.subrange(0, k + 1).drop_last() =~= orig.subrange(0, k as int));
            assert(orig.subrange(0, k + 1).last() == orig[k as int]);
            assert(out@ == spec_insert_entry(pre_out, e));
            assert(out@ == spec_sort_entries(orig.subrange(0, k + 1)));
        }
    }
    proof {
        assert(orig.subrange(0, orig.len() as int) =~= orig);
    }
    out
}

/// The larger of two addresses.
pub open spec fn max64(a: u64, b: u64) -> u64 {
    if a < b {
        b
    } else {
        a
    }
}

/// Whether the scan drops the next entry: it overlaps the last
/// accepted entry and carries a different value.
pub open spec fn spec_step_drops<V: PartialEqSpec>(
    acc: Seq<(AddressRange, V)>,
    e: (AddressRange, V),
) -> bool {
    acc.len() > 0 && e.0.start <= acc.last().0.end && !e.1.eq_spec(&acc.last().1)
}

/// Whether the scan extends the last accepted entry: the next entry
/// touches or overlaps it and carries an equal value.
pub open spec fn spec_step_extends<V: PartialEqSpec>(
    acc: Seq<(AddressRange, V)>,
    e: (AddressRange, V),
) -> bool {
    &&& acc.len() > 0
    &&& !spec_step_drops(acc, e)
    &&& e.0.start <= sat_succ(acc.last().0.end)
    &&& e.1.eq_spec(&acc.last().1)
}

/// One scan step of the merge policy.
pub open spec fn spec_merge_step<V: PartialEqSpec>(
    acc: Seq<(AddressRange, V)>,
    e: (AddressRange, V),
) -> Seq<(AddressRange, V)> {
    if spec_step_drops(acc, e) {
        acc
    } else if spec_step_extends(acc, e) {
        acc.drop_last().push(
            (
                AddressRange {
                    start: acc.last().0.start,
                    end: max64(acc.last().0.end, e.0.end),
                },
                acc.last().1,
            ),
        )
    } else {
        acc.push(e)
    }
}

/// The accepted entries after scanning `s` left to right.
pub open spec fn spec_merge<V: PartialEqSpec>(s: Seq<(AddressRange, V)>) -> Seq<
    (AddressRange, V),
>
    decreases s.len(),
{
    if s.len() == 0 {
        Seq::empty()
    } else {
        spec_merge_step(spec_merge(s.drop_last()), s.last())
    }
}

/// The entries the scan dropped, in scan order: one per conflict.
pub open spec fn spec_merge_dropped<V: PartialEqSpec>(s: Seq<(AddressRange, V)>) -> Seq<
    (AddressRange, V),
>
    decreases s.len(),
{
    if s.len() == 0 {
        Seq::empty()
    } else if spec_step_drops(spec_merge(s.drop_last()), s.last()) {
        spec_merge_dropped(s.drop_last()).push(s.last())
    } else {
        spec_merge_dropped(s.drop_last())
    }
}

/// Scan sorted entries once, merging equal-valued neighbours and
/// dropping conflicting overlaps. Returns the accepted entries and
/// the dropped ones, one per conflict.
pub fn merge_entries<V: PartialEqSpec>(sorted: Vec<(AddressRange, V)>) -> (r: (
    Vec<(AddressRange, V)>,
    Vec<(AddressRange, V)>,
))
    requires
        V::obeys_eq_spec(),
    ensures
        r.0@ == spec_merge(sorted@),
        r.1@ == spec_merge_dropped(sorted@),
{
    let ghost orig = sorted@;
    let mut rest = sorted;
    let mut out: Vec<(AddressRange, V)> = Vec::new();
    let mut dropped: Vec<(AddressRange, V)> = Vec::new();
    while rest.len() > 0
        invariant
            V::obeys_eq_spec(),
            rest@.len() <= orig.len(),
            rest@ == orig.subrange(orig.len() - rest@.len(), orig.len() as int),
            out@ == spec_merge(orig.subrange(0, orig.len() - rest@.len())),
            dropped@ == spec_merge_dropped(orig.subrange(0, orig.len() - rest@.len())),
        decreases rest@.len(),
    {
        let ghost k = orig.len() - rest@.len();
        let ghost pre_rest = rest@;
        let ghost pre_out = out@;
        let ghost pre_dropped = dropped@;
        let e = rest.remove(0);
        proof {
            assert(pre_rest == orig.subrange(k as int, orig.len() as int));
            assert(e == pre_rest[0]);
            assert(pre_rest[0] == orig[k as int]);
            assert(rest@ == pre_rest.remove(0));
            assert(rest@ =~= orig.subrange(k + 1, orig.len() as int));
            assert(orig.subrange(0, k + 1).drop_last() =~= orig.subrange(0, k as int));
            assert(orig.subrange(0, k + 1).last() == orig[k as int]);
        }
        if out.len() > 0 {
            let li = out.len() - 1;
            let overlap = e.0.start <= out[li].0.end;
            let equal = e.1 == out[li].1;
            if overlap && !equal {
                dropped.push(e);
            } else {
                let touch = if out[li].0.end == 0xffffffffffffffff {
                    true
                } else {
                    e.0.start <= out[li].0.end + 1
                };
                if touch && equal {
                    let last = out.pop().unwrap();
                    let new_end = if last.0.end < e.0.end {
                        e.0.end
                    } else {
                        last.0.end
                    };
                    out.push((AddressRange { start: last.0.start, end: new_end }, last.1));
                    proof {
                        assert(out@ =~= spec_merge_step(pre_out, e));
                    }
                } else {
                    out.push(e);
                }
            }
        } else {
            out.push(e);
        }
        proof {
            assert(out@ == spec_merge(orig.subrange(0, k + 1)));
            assert(dropped@ == spec_merge_dropped(orig.subrange(0, k + 1)));
        }
    }
    proof {
        assert(orig.subrange(0, orig.len() as int) =~= orig);
    }
    (out, dropped)
}

/// Adjacent accepted entries leave a gap of at least one address.
pub open spec fn entries_disjoint<V>(s: Seq<(AddressRange, V)>) -> bool {
    forall|i: int| 0 <= i < s.len() - 1 ==> (#[trigger] s[i]).0.end < s[i + 1].0.start
}

/// The merge of sorted, well-formed entries is well formed and has
/// pairwise-gapped neighbours, and its last entry starts no later
/// than the last input.
pub proof fn lemma_merge_wf<V: PartialEqSpec>(s: Seq<(AddressRange, V)>)
    requires
        entries_sorted(s),
        entries_wf(s),
    ensures
        entries_disjoint(spec_merge(s)),
        entries_wf(spec_merge(s)),
        spec_merge(s).len() == 0 <==> s.len() == 0,
        s.len() > 0 ==> spec_merge(s).last().0.start <= s.last().0.start,
    decreases s.len(),
{
    if s.len() > 0 {
        let pre = s.drop_last();
        let e = s.last();
        assert(entries_sorted(pre)) by {
            assert(forall|i: int, j: int|
                0 <= i < j < pre.len() ==> range_le((#[trigger] pre[i]).0, (#[trigger] pre[j]).0));
        }
        assert(entries_wf(pre)) by {
            assert(forall|i: int| 0 <= i < pre.len() ==> (#[trigger] pre[i]).0 == s[i].0);
        }
        lemma_merge_wf(pre);
        let acc = spec_merge(pre);
        if acc.len() > 0 {
            assert(pre.len() > 0);
            assert(range_le(s[s.len() - 2].0, e.0));
            assert(pre.last() == s[s.len() - 2]);
            assert(acc.last().0.start <= e.0.start);
        }
        if spec_step_drops(acc, e) {
        } else if spec_step_extends(acc, e) {
            let m = spec_merge(s);
            assert(m == acc.drop_last().push(
                (
                    AddressRange { start: acc.last().0.start, end: max64(acc.last().0.end, e.0.end) },
                    acc.last().1,
                ),
            ));
            assert(entries_disjoint(m)) by {
                assert(forall|i: int| 0 <= i < m.len() - 1 ==> (#[trigger] m[i]) == acc[i]);
                assert(m.last().0.start == acc.last().0.start);
            }
            assert(entries_wf(m)) by {
                assert(forall|i: int| 0 <= i < m.len() - 1 ==> (#[trigger] m[i]) == acc[i]);
                assert(acc.last().0.wf());
                assert(m.last().0.wf());
            }
        } else {
            let m = spec_merge(s);
            assert(m == acc.push(e));
            if acc.len() > 0 {
                assert(acc.last().0.end < e.0.start) by {
                    if e.1.eq_spec(&acc.last().1) {
                        assert(e.0.start > sat_succ(acc.last().0.end));
                    } else {
                        assert(e.0.start > acc.last().0.end);
                    }
                }
            }
            assert(entries_disjoint(m)) by {
                assert(forall|i: int| 0 <= i < acc.len() ==> (#[trigger] m[i]) == acc[i]);
            }
            assert(entries_wf(m)) by {
                assert(forall|i: int| 0 <= i < acc.len() ==> (#[trigger] m[i]) == acc[i]);
                assert(e.0.wf());
            }
        }
    }
}

/// In a well-formed, gapped list, any two entries' ranges are
/// disjoint, earlier ones entirely below later ones.
pub proof fn lemma_disjoint_pairwise<V>(s: Seq<(AddressRange, V)>, i: int, j: int)
    requires
        entries_disjoint(s),
        entries_wf(s),
        0 <= i < j < s.len(),
    ensures
        s[i].0.end < s[j].0.start,
    decreases j - i,
{
    if i + 1 < j {
        lemma_disjoint_pairwise(s, i + 1, j);
        assert(s[i + 1].0.wf());
    }
}

/// The index is a function of the address: in a well-formed index no
/// two entries' ranges share an address, so any address is contained
/// in at most one entry.
pub proof fn lemma_at_most_one_entry<V>(s: Seq<(AddressRange, V)>, addr: u64, i: int, j: int)
    requires
        entries_disjoint(s),
        entries_wf(s),
        0 <= i < s.len(),
        0 <= j < s.len(),
        s[i].0.spec_contains(addr),
        s[j].0.spec_contains(addr),
    ensures
        i == j,
{
    if i < j {
        lemma_disjoint_pairwise(s, i, j);
    }
    if j < i {
        lemma_disjoint_pairwise(s, j, i);
    }
}

/// Whether some entry's range contains `addr`.
pub open spec fn covered<V>(s: Seq<(AddressRange, V)>, addr: u64) -> bool {
    exists|i: int| 0 <= i < s.len() && (#[trigger] s[i]).0.spec_contains(addr)
}

/// When no conflict arises, the merge covers exactly the union of the
/// inputs: every address in some input range is in some accepted
/// range, and nothing more.
pub proof fn lemma_merge_covers<V: PartialEqSpec>(s: Seq<(AddressRange, V)>, addr: u64)
    requires
        entries_sorted(s),
        entries_wf(s),
        spec_merge_dropped(s).len() == 0,
    ensures
        covered(spec_merge(s), addr) <==> covered(s, addr),
    decreases s.len(),
{
    if s.len() > 0 {
        let pre = s.drop_last();
        let e = s.last();
        assert(entries_sorted(pre)) by {
            assert(forall|i: int, j: int|
                0 <= i < j < pre.len() ==> range_le((#[trigger] pre[i]).0, (#[trigger] pre[j]).0));
        }
        assert(entries_wf(pre)) by {
            assert(forall|i: int| 0 <= i < pre.len() ==> (#[trigger] pre[i]).0 == s[i].0);
        }
        lemma_merge_covers(pre, addr);
        lemma_merge_wf(pre);
        let acc = spec_merge(pre);
        let m = spec_merge(s);
        assert(!spec_step_drops(acc, e));
        assert(covered(s, addr) <==> covered(pre, addr) || e.0.spec_contains(addr)) by {
            if covered(pre, addr) {
                let i = choose|i: int| 0 <= i < pre.len() && (#[trigger] pre[i]).0.spec_contains(
                    addr,
                );
                assert(s[i].0.spec_contains(addr));
            }
            if covered(s, addr) {
                let i = choose|i: int| 0 <= i < s.len() && (#[trigger] s[i]).0.spec_contains(addr);
                if i < s.len() - 1 {
                    assert(pre[i].0.spec_contains(addr));
                }
            }
        }
        if spec_step_extends(acc, e) {
            let ext = AddressRange {
                start: acc.last().0.start,
                end: max64(acc.last().0.end, e.0.end),
            };
            assert(acc.last().0.start <= e.0.start) by {
                if pre.len() > 1 {
                    assert(range_le(pre.last().0, e.0));
                } else {
                    assert(acc.last().0.start <= pre.last().0.start);
                    assert(range_le(pre.last().0, e.0));
                }
            }
            assert(covered(m, addr) <==> covered(acc, addr) || e.0.spec_contains(addr)) by {
                if covered(acc, addr) {
                    let i = choose|i: int|
                        0 <= i < acc.len() && (#[trigger] acc[i]).0.spec_contains(addr);
                    if i < acc.len() - 1 {
                        assert(m[i].0.spec_contains(addr));
                    } else {
                        assert(m.last().0.spec_contains(addr));
                    }
                }
                if e.0.spec_contains(addr) {
                    assert(m.last().0.spec_contains(addr));
                }
                if covered(m, addr) {
                    let i = choose|i: int| 0 <= i < m.len() && (#[trigger] m[i]).0.spec_contains(
                        addr,
                    );
                    if i < m.len() - 1 {
                        assert(acc[i].0.spec_contains(addr));
                    } else {
                        if addr <= acc.last().0.end {
                            assert(acc[acc.len() - 1].0.spec_contains(addr));
                        } else {
                            assert(addr > acc.last().0.end);
                            assert(addr >= e.0.start);
                            assert(e.0.spec_contains(addr));
                        }
                    }
                }
            }
        } else {
            assert(m == acc.push(e));
            assert(covered(m, addr) <==> covered(acc, addr) || e.0.spec_contains(addr)) by {
                if covered(acc, addr) {
                    let i = choose|i: int|
                        0 <= i < acc.len() && (#[trigger] acc[i]).0.spec_contains(addr);
                    assert(m[i].0.spec_contains(addr));
                }
                if e.0.spec_contains(addr) {
                    assert(m[m.len() - 1].0.spec_contains(addr));
                }
                if covered(m, addr) {
                    let i = choose|i: int| 0 <= i < m.len() && (#[trigger] m[i]).0.spec_contains(
                        addr,
                    );
                    if i < m.len() - 1 {
                        assert(acc[i].0.spec_contains(addr));
                    }
                }
            }
        }
    }
}

/// Whether two inclusive ranges share an address.
pub open spec fn ranges_overlap(a: AddressRange, b: AddressRange) -> bool {
    a.start <= b.end && b.start <= a.end
}

/// Whether every two entries whose ranges overlap carry values that
/// compare equal.
pub open spec fn values_agree_on_overlap<V: PartialEqSpec>(s: Seq<(AddressRange, V)>) -> bool {
    forall|i: int, j: int|
        0 <= i < s.len() && 0 <= j < s.len() && ranges_overlap(
            (#[trigger] s[i]).0,
            (#[trigger] s[j]).0,
        ) ==> s[i].1.eq_spec(&s[j].1)
}

/// Whether the type's structural equality is reflexive and
/// transitive, as an equality is.
pub open spec fn eq_spec_equivalence<V: PartialEqSpec>() -> bool {
    &&& forall|a: V| #[trigger] a.eq_spec(&a)
    &&& forall|a: V, b: V, c: V|
        #[trigger] a.eq_spec(&b) && #[trigger] b.eq_spec(&c) ==> a.eq_spec(&c)
}

/// On sorted entries that agree wherever they overlap, the scan never
/// drops: every step merges or appends. Alongside, the last accepted
/// entry's end and value always come from some input entry.
proof fn lemma_agreeing_merge_drops_nothing<V: PartialEqSpec>(s: Seq<(AddressRange, V)>)
    requires
        entries_sorted(s),
        entries_wf(s),
        values_agree_on_overlap(s),
        eq_spec_equivalence::<V>(),
    ensures
        spec_merge_dropped(s).len() == 0,
        spec_merge(s).len() > 0 ==> exists|k: int|
            {
                &&& 0 <= k < s.len()
                &&& (#[trigger] s[k]).0.end == spec_merge(s).last().0.end
                &&& s[k].1.eq_spec(&spec_merge(s).last().1)
            },
    decreases s.len(),
{
    if s.len() > 0 {
        let pre = s.drop_last();
        let e = s.last();
        assert(entries_sorted(pre)) by {
            assert(forall|i: int, j: int|
                0 <= i < j < pre.len() ==> range_le((#[trigger] pre[i]).0, (#[trigger] pre[j]).0));
        }
        assert(entries_wf(pre)) by {
            assert(forall|i: int| 0 <= i < pre.len() ==> (#[trigger] pre[i]).0 == s[i].0);
        }
        assert(values_agree_on_overlap(pre)) by {
            assert(forall|i: int| 0 <= i < pre.len() ==> #[trigger] pre[i] == s[i]);
        }
        lemma_agreeing_merge_drops_nothing(pre);
        lemma_merge_wf(pre);
        let acc = spec_merge(pre);
        let m = spec_merge(s);
        if acc.len() > 0 && e.0.start <= acc.last().0.end {
            // The last accepted end belongs to some earlier entry `c`;
            // `c` and `e` overlap, so they agree, and `c` agrees with
            // the accepted value: by transitivity so does `e`.
            let k = choose|k: int|
                {
                    &&& 0 <= k < pre.len()
                    &&& (#[trigger] pre[k]).0.end == acc.last().0.end
                    &&& pre[k].1.eq_spec(&acc.last().1)
                };
            assert(s[k] == pre[k]);
            assert(range_le(s[k].0, e.0));
            assert(s[s.len() - 1] == e);
            assert(ranges_overlap(s[s.len() - 1].0, s[k].0));
            assert(e.1.eq_spec(&s[k].1));
            assert(e.1.eq_spec(&acc.last().1));
            assert(!spec_step_drops(acc, e));
        }
        assert(spec_merge_dropped(s).len() == 0);
        if acc.len() == 0 {
            assert(m == acc.push(e));
            assert(s[s.len() - 1] == e);
            assert(e.1.eq_spec(&e.1));
            assert(s[s.len() - 1].0.end == m.last().0.end && s[s.len() - 1].1.eq_spec(
                &m.last().1,
            ));
        } else if spec_step_extends(acc, e) {
            if e.0.end >= acc.last().0.end {
                assert(m.last().0.end == e.0.end);
                assert(m.last().1 == acc.last().1);
                assert(s[s.len() - 1] == e);
                assert(s[s.len() - 1].0.end == m.last().0.end && s[s.len() - 1].1.eq_spec(
                    &m.last().1,
                ));
            } else {
                let k = choose|k: int|
                    {
                        &&& 0 <= k < pre.len()
                        &&& (#[trigger] pre[k]).0.end == acc.last().0.end
                        &&& pre[k].1.eq_spec(&acc.last().1)
                    };
                assert(s[k] == pre[k]);
                assert(m.last().0.end == acc.last().0.end);
                assert(m.last().1 == acc.last().1);
                assert(s[k].0.end == m.last().0.end && s[k].1.eq_spec(&m.last().1));
            }
        } else {
            assert(m == acc.push(e));
            assert(s[s.len() - 1] == e);
            assert(e.1.eq_spec(&e.1));
            assert(s[s.len() - 1].0.end == m.last().0.end && s[s.len() - 1].1.eq_spec(
                &m.last().1,
            ));
        }
    }
}

/// When any two inputs whose ranges overlap carry equal values, the
/// overlap-tolerant build drops nothing — no conflict is reported —
/// and the accepted entries cover exactly the union of the inputs'
/// ranges.
pub proof fn lemma_agreeing_inputs_union<V: PartialEqSpec>(
    input: Seq<(AddressRange, V)>,
    addr: u64,
)
    requires
        entries_wf(input),
        values_agree_on_overlap(input),
        eq_spec_equivalence::<V>(),
    ensures
        spec_merge_dropped(spec_sort_entries(input)).len() == 0,
        covered(spec_merge(spec_sort_entries(input)), addr) <==> covered(input, addr),
{
    let sorted = spec_sort_entries(input);
    lemma_sort_entries_props(input);
    lemma_sort_entries_wf(input);
    assert(values_agree_on_overlap(sorted)) by {
        assert forall|i: int, j: int|
            0 <= i < sorted.len() && 0 <= j < sorted.len() && ranges_overlap(
                (#[trigger] sorted[i]).0,
                (#[trigger] sorted[j]).0,
            ) implies sorted[i].1.eq_spec(&sorted[j].1) by {
            assert(input.contains(sorted[i]));
            assert(input.contains(sorted[j]));
            let wi = choose|w: int| 0 <= w < input.len() && input[w] == sorted[i];
            let wj = choose|w: int| 0 <= w < input.len() && input[w] == sorted[j];
            assert(ranges_overlap(input[wi].0, input[wj].0));
        }
    }
    lemma_agreeing_merge_drops_nothing(sorted);
    lemma_merge_covers(sorted, addr);
    assert(covered(sorted, addr) <==> covered(input, addr)) by {
        if covered(sorted, addr) {
            let i = choose|i: int| 0 <= i < sorted.len() && (#[trigger] sorted[i]).0.spec_contains(
                addr,
            );
            assert(input.contains(sorted[i]));
            let w = choose|w: int| 0 <= w < input.len() && input[w] == sorted[i];
            assert(input[w].0.spec_contains(addr));
        }
        if covered(input, addr) {
            let i = choose|i: int| 0 <= i < input.len() && (#[trigger] input[i]).0.spec_contains(
                addr,
            );
            assert(sorted.contains(input[i]));
            let w = choose|w: int| 0 <= w < sorted.len() && sorted[w] == input[i];
            assert(sorted[w].0.spec_contains(addr));
        }
    }
}

/// Accepted neighbours that touch never carry equal values: such
/// entries were merged by the scan.
pub proof fn lemma_merge_no_adjacent_equal<V: PartialEqSpec>(s: Seq<(AddressRange, V)>)
    requires
        entries_sorted(s),
        entries_wf(s),
    ensures
        forall|i: int|
            0 <= i < spec_merge(s).len() - 1 && (#[trigger] spec_merge(s)[i + 1]).0.start
                <= sat_succ(spec_merge(s)[i].0.end) ==> !spec_merge(s)[i + 1].1.eq_spec(
                &spec_merge(s)[i].1,
            ),
    decreases s.len(),
{
    if s.len() > 0 {
        let pre = s.drop_last();
        let e = s.last();
        assert(entries_sorted(pre)) by {
            assert(forall|i: int, j: int|
                0 <= i < j < pre.len() ==> range_le((#[trigger] pre[i]).0, (#[trigger] pre[j]).0));
        }
        assert(entries_wf(pre)) by {
            assert(forall|i: int| 0 <= i < pre.len() ==> (#[trigger] pre[i]).0 == s[i].0);
        }
        lemma_merge_no_adjacent_equal(pre);
        let acc = spec_merge(pre);
        let m = spec_merge(s);
        if spec_step_drops(acc, e) {
        } else if spec_step_extends(acc, e) {
            assert(forall|i: int| 0 <= i < m.len() - 1 ==> (#[trigger] m[i]) == acc[i]);
            assert(m.last().0.start == acc.last().0.start && m.last().1 == acc.last().1);
        } else {
            assert(forall|i: int| 0 <= i < acc.len() ==> (#[trigger] m[i]) == acc[i]);
            if acc.len() > 0 {
                if e.1.eq_spec(&acc.last().1) {
                    assert(e.0.start > sat_succ(acc.last().0.end));
                }
            }
        }
    }
}

/// Every dropped entry is one of the inputs, and nothing is counted
/// twice: accepted and dropped entries together never outnumber the
/// inputs.
pub proof fn lemma_dropped_from_inputs<V: PartialEqSpec>(s: Seq<(AddressRange, V)>)
    ensures
        forall|i: int|
            0 <= i < spec_merge_dropped(s).len() ==> s.contains(#[trigger] spec_merge_dropped(s)[i]),
        spec_merge(s).len() + spec_merge_dropped(s).len() <= s.len(),
    decreases s.len(),
{
    if s.len() > 0 {
        let pre = s.drop_last();
        lemma_dropped_from_inputs(pre);
        assert(forall|i: int| 0 <= i < pre.len() ==> pre[i] == s[i]);
        assert(forall|x: (AddressRange, V)| pre.contains(x) ==> s.contains(x)) by {
            assert forall|x: (AddressRange, V)| pre.contains(x) implies s.contains(x) by {
                let i = choose|i: int| 0 <= i < pre.len() && pre[i] == x;
                assert(s[i] == x);
            }
        }
        assert(s.contains(s.last())) by {
            assert(s[s.len() - 1] == s.last());
        }
    }
}

/// Stable insertion keeps entries sorted, adds one entry, invents
/// nothing — every entry of the result is `e` or one of `s` — and
/// loses nothing: the result holds `e` and every entry of `s`.
proof fn lemma_insert_entry_props<V>(s: Seq<(AddressRange, V)>, e: (AddressRange, V))
    requires
        entries_sorted(s),
    ensures
        entries_sorted(spec_insert_entry(s, e)),
        spec_insert_entry(s, e).len() == s.len() + 1,
        forall|i: int|
            0 <= i < spec_insert_entry(s, e).len() ==> (#[trigger] spec_insert_entry(s, e)[i]) == e
                || s.contains(spec_insert_entry(s, e)[i]),
        spec_insert_entry(s, e).contains(e),
        forall|i: int| 0 <= i < s.len() ==> spec_insert_entry(s, e).contains(#[trigger] s[i]),
    decreases s.len(),
{
    let r = spec_insert_entry(s, e);
    if s.len() == 0 {
        assert(r[0] == e);
    } else if range_le(s.last().0, e.0) {
        assert(r == s.push(e));
        assert(entries_sorted(r)) by {
            assert(forall|i: int| 0 <= i < s.len() ==> (#[trigger] r[i]) == s[i]);
            assert(forall|i: int|
                0 <= i < s.len() ==> range_le((#[trigger] s[i]).0, s[s.len() - 1].0) || i == s.len()
                    - 1);
        }
        assert(forall|i: int| 0 <= i < s.len() ==> s.contains(#[trigger] r[i])) by {
            assert(forall|i: int| 0 <= i < s.len() ==> (#[trigger] r[i]) == s[i]);
        }
        assert(r[s.len() as int] == e);
        assert(forall|i: int| 0 <= i < s.len() ==> (#[trigger] s[i]) == r[i]);
    } else {
        let pre = s.drop_last();
        assert(entries_sorted(pre)) by {
            assert(forall|i: int, j: int|
                0 <= i < j < pre.len() ==> range_le((#[trigger] pre[i]).0, (#[trigger] pre[j]).0));
        }
        lemma_insert_entry_props(pre, e);
        let rp = spec_insert_entry(pre, e);
        assert(r == rp.push(s.last()));
        assert(range_le(e.0, s.last().0));
        assert(forall|i: int| 0 <= i < rp.len() ==> range_le((#[trigger] rp[i]).0, s.last().0)) by {
            assert forall|i: int| 0 <= i < rp.len() implies range_le(
                (#[trigger] rp[i]).0,
                s.last().0,
            ) by {
                if rp[i] == e {
                } else {
                    let j = choose|j: int| 0 <= j < pre.len() && pre[j] == rp[i];
                    assert(range_le(pre[j].0, s.last().0));
                }
            }
        }
        assert(entries_sorted(r)) by {
            assert(forall|i: int| 0 <= i < rp.len() ==> (#[trigger] r[i]) == rp[i]);
        }
        assert(forall|i: int| 0 <= i < r.len() ==> (#[trigger] r[i]) == e || s.contains(r[i])) by {
            assert forall|i: int| 0 <= i < r.len() implies (#[trigger] r[i]) == e || s.contains(
                r[i],
            ) by {
                if i < rp.len() {
                    assert(r[i] == rp[i]);
                    if rp[i] != e {
                        let j = choose|j: int| 0 <= j < pre.len() && pre[j] == rp[i];
                        assert(s[j] == rp[i]);
                    }
                } else {
                    assert(r[i] == s.last());
                    assert(s[s.len() - 1] == s.last());
                }
            }
        }
        assert(r.contains(e)) by {
            let j = choose|j: int| 0 <= j < rp.len() && rp[j] == e;
            assert(r[j] == e);
        }
        assert forall|i: int| 0 <= i < s.len() implies r.contains(#[trigger] s[i]) by {
            if i < s.len() - 1 {
                assert(pre[i] == s[i]);
                assert(rp.contains(pre[i]));
                let j = choose|j: int| 0 <= j < rp.len() && rp[j] == s[i];
                assert(r[j] == s[i]);
            } else {
                assert(r[rp.len() as int] == s.last());
            }
        }
    }
}

/// The sort orders the entries, invents nothing, and loses nothing:
/// the result's entries are exactly drawn from the input, and every
/// input entry is among them.
pub proof fn lemma_sort_entries_props<V>(s: Seq<(AddressRange, V)>)
    ensures
        entries_sorted(spec_sort_entries(s)),
        spec_sort_entries(s).len() == s.len(),
        forall|i: int|
            0 <= i < spec_sort_entries(s).len() ==> s.contains(#[trigger] spec_sort_entries(s)[i]),
        forall|i: int| 0 <= i < s.len() ==> spec_sort_entries(s).contains(#[trigger] s[i]),
    decreases s.len(),
{
    if s.len() > 0 {
        let pre = s.drop_last();
        lemma_sort_entries_props(pre);
        lemma_insert_entry_props(spec_sort_entries(pre), s.last());
        let r = spec_sort_entries(s);
        assert(forall|i: int| 0 <= i < r.len() ==> s.contains(#[trigger] r[i])) by {
            assert forall|i: int| 0 <= i < r.len() implies s.contains(#[trigger] r[i]) by {
                if r[i] == s.last() {
                    assert(s[s.len() - 1] == s.last());
                } else {
                    let sp = spec_sort_entries(pre);
                    assert(sp.contains(r[i]));
                    let j = choose|j: int| 0 <= j < sp.len() && sp[j] == r[i];
                    assert(pre.contains(sp[j]));
                    let k = choose|k: int| 0 <= k < pre.len() && pre[k] == sp[j];
                    assert(s[k] == r[i]);
                }
            }
        }
        assert forall|i: int| 0 <= i < s.len() implies r.contains(#[trigger] s[i]) by {
            let sp = spec_sort_entries(pre);
            if i < s.len() - 1 {
                assert(pre[i] == s[i]);
                assert(sp.contains(pre[i]));
                let j = choose|j: int| 0 <= j < sp.len() && sp[j] == s[i];
                assert(spec_insert_entry(sp, s.last()).contains(sp[j]));
            } else {
                assert(spec_insert_entry(sp, s.last()).contains(s.last()));
                assert(s[s.len() - 1] == s.last());
            }
        }
    }
}

/// Sorting keeps every range well formed.
pub proof fn lemma_sort_entries_wf<V>(s: Seq<(AddressRange, V)>)
    requires
        entries_wf(s),
    ensures
        entries_wf(spec_sort_entries(s)),
{
    lemma_sort_entries_props(s);
    let r = spec_sort_entries(s);
    assert forall|i: int| 0 <= i < r.len() implies (#[trigger] r[i]).0.wf() by {
        assert(s.contains(r[i]));
        let j = choose|j: int| 0 <= j < s.len() && s[j] == r[i];
        assert(s[j].0.wf());
    }
}

/// Every accepted entry's value is one of the input values.
pub proof fn lemma_merge_values<V: PartialEqSpec>(s: Seq<(AddressRange, V)>)
    ensures
        forall|i: int|
            0 <= i < spec_merge(s).len() ==> exists|j: int|
                0 <= j < s.len() && (#[trigger] spec_merge(s)[i]).1 == s[j].1,
    decreases s.len(),
{
    if s.len() > 0 {
        let pre = s.drop_last();
        lemma_merge_values(pre);
        let acc = spec_merge(pre);
        let m = spec_merge(s);
        assert forall|i: int| 0 <= i < m.len() implies exists|j: int|
            0 <= j < s.len() && (#[trigger] m[i]).1 == s[j].1 by {
            if spec_step_drops(acc, s.last()) {
                assert(m[i] == acc[i]);
                let j = choose|j: int| 0 <= j < pre.len() && acc[i].1 == pre[j].1;
                assert(m[i].1 == s[j].1);
            } else if spec_step_extends(acc, s.last()) {
                if i < m.len() - 1 {
                    assert(m[i] == acc[i]);
                    let j = choose|j: int| 0 <= j < pre.len() && acc[i].1 == pre[j].1;
                    assert(m[i].1 == s[j].1);
                } else {
                    assert(m[i].1 == acc.last().1);
                    let j = choose|j: int|
                        0 <= j < pre.len() && acc[acc.len() - 1].1 == pre[j].1;
                    assert(m[i].1 == s[j].1);
                }
            } else {
                if i < m.len() - 1 {
                    assert(m[i] == acc[i]);
                    let j = choose|j: int| 0 <= j < pre.len() && acc[i].1 == pre[j].1;
                    assert(m[i].1 == s[j].1);
                } else {
                    assert(m[i].1 == s[s.len() - 1].1);
                }
            }
        }
    }
}

/// A sorted, non-overlapping index from inclusive address ranges to
/// values, looked up by binary search.
#[derive(Debug, Clone)]
pub struct RangeIndex<V> {
    entries: Vec<(AddressRange, V)>,
}

impl<V> RangeIndex<V> {
    /// The indexed entries, in address order.
    pub closed spec fn spec_entries(self) -> Seq<(AddressRange, V)> {
        self.entries@
    }

    /// Ranges are well formed and pairwise gapped.
    pub open spec fn wf(self) -> bool {
        &&& entries_disjoint(self.spec_entries())
        &&& entries_wf(self.spec_entries())
    }

    /// The indexed entries, in address order.
    pub fn entries(&self) -> (r: &Vec<(AddressRange, V)>)
        ensures
            r@ == self.spec_entries(),
    {
        &self.entries
    }

    /// How many disjoint ranges are indexed.
    pub fn len(&self) -> (r: usize)
        ensures
            r == self.spec_entries().len(),
    {
        self.entries.len()
    }

    /// Find the value mapped at `addr`, if any, by binary search.
    pub fn get(&self, addr: u64) -> (r: Option<&V>)
        requires
            self.wf(),
        ensures
            match r {
                Option::Some(v) => exists|i: int|
                    0 <= i < self.spec_entries().len() && (
                    #[trigger] self.spec_entries()[i]).0.spec_contains(addr) && *v
                        == self.spec_entries()[i].1,
                Option::None => !covered(self.spec_entries(), addr),
            },
    {
        let ghost es = self.entries@;
        let mut lo: usize = 0;
        let mut hi: usize = self.entries.len();
        while lo < hi
            invariant
                self.wf(),
                es == self.entries@,
                lo <= hi <= es.len(),
                forall|i: int| 0 <= i < lo ==> (#[trigger] es[i]).0.end < addr,
                forall|i: int| hi <= i < es.len() ==> addr < (#[trigger] es[i]).0.start,
            decreases hi - lo,
        {
            let mid = lo + (hi - lo) / 2;
            if self.entries[mid].0.end < addr {
                proof {
                    assert forall|i: int| 0 <= i < mid + 1 implies (#[trigger] es[i]).0.end
                        < addr by {
                        if i < mid {
                            lemma_disjoint_pairwise(es, i, mid as int);
                            assert(es[mid as int].0.wf());
                        }
                    }
                }
                lo = mid + 1;
            } else if addr < self.entries[mid].0.start {
                proof {
                    assert forall|i: int| mid <= i < es.len() implies addr < (
                    #[trigger] es[i]).0.start by {
                        if i > mid {
                            lemma_disjoint_pairwise(es, mid as int, i);
                            assert(es[mid as int].0.wf());
                        }
                    }
                }
                hi = mid;
            } else {
                proof {
                    assert(es[mid as int].0.spec_contains(addr));
                }
                return Option::Some(&self.entries[mid].1);
            }
        }
        proof {
            assert forall|i: int| 0 <= i < es.len() implies !(#[trigger] es[i]).0.spec_contains(
                addr,
            ) by {
            }
        }
        Option::None
    }
}

/// Build a range index from possibly-overlapping entries: sort them
/// by range, merge equal-valued neighbours, drop conflicting
/// overlaps. The second result holds the dropped entries, one per
/// conflict, for the caller to report.
pub fn into_range_index<V: PartialEqSpec>(input: Vec<(AddressRange, V)>) -> (r: (
    RangeIndex<V>,
    Vec<(AddressRange, V)>,
))
    requires
        V::obeys_eq_spec(),
        entries_wf(input@),
    ensures
        r.0.spec_entries() == spec_merge(spec_sort_entries(input@)),
        r.1@ == spec_merge_dropped(spec_sort_entries(input@)),
        r.0.wf(),
{
    let ghost orig = input@;
    let sorted = sort_entries(input);
    proof {
        lemma_sort_entries_props(orig);
        lemma_sort_entries_wf(orig);
        lemma_merge_wf(spec_sort_entries(orig));
    }
    let (kept, dropped) = merge_entries(sorted);
    (RangeIndex { entries: kept }, dropped)
}

} // verus!
