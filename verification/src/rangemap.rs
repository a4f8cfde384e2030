//! Filling the `RangeMap` container of the range-map crate from
//! untrusted, possibly-overlapping input.
//!
//! `RangeMap` panics callers that hand it overlapping data, so the
//! verified scan of [`crate::range_index`] runs first: it sorts,
//! merges equal-valued neighbours and drops conflicting overlaps,
//! and only the clean result is handed to the container.

use vstd::prelude::*;
use crate::range_index::{
    AddressRange, entries_wf, entries_sorted, spec_merge, spec_merge_dropped, spec_sort_entries,
    into_range_index, lemma_sort_entries_props, lemma_sort_entries_wf, lemma_merge_wf,
    lemma_merge_no_adjacent_equal,
};

verus! {

#[verifier::external_type_specification]
#[verifier::external_body]
#[verifier::reject_recursive_types(T)]
#[verifier::reject_recursive_types(V)]
pub struct ExRangeMap<T, V>(range_map::RangeMap<T, V>);

/// What a `RangeMap` holds: its `(start, end, value)` entries in
/// address order.
pub uninterp spec fn rangemap_entries(m: range_map::RangeMap<u64, u64>) -> Seq<(u64, u64, u64)>;

/// Relies on range_map's `RangeMap::try_from_iter`: entries that are
/// already sorted, pairwise gapped, and free of touching neighbours
/// with equal values are stored exactly as given (its normalisation
/// pass then has nothing to merge or discard).
#[verifier::external_body]
fn rangemap_from_entries(entries: Vec<(u64, u64, u64)>) -> (r: range_map::RangeMap<u64, u64>)
    requires
        forall|i: int| 0 <= i < entries@.len() ==> (#[trigger] entries@[i]).0 <= entries@[i].1,
        forall|i: int|
            0 <= i < entries@.len() - 1 ==> (#[trigger] entries@[i]).1 < entries@[i + 1].0,
        forall|i: int|
            0 <= i < entries@.len() - 1 ==> (#[trigger] entries@[i]).1 == 0xffffffffffffffff
                || entries@[i + 1].0 > entries@[i].1 + 1 || entries@[i + 1].2 != entries@[i].2,
    ensures
        rangemap_entries(r) == entries@,
{
    match range_map::RangeMap::try_from_iter(
        entries.into_iter().map(|t| (range_map::Range::new(t.0, t.1), t.2)),
    ) {
        Ok(m) => m,
        Err(e) => e.non_overlapping,
    }
}

/// Relies on range_map's `RangeMap::get`: a binary search for the
/// entry whose inclusive range contains the point, handing back that
/// entry's value and nothing otherwise.
#[verifier::external_body]
pub fn rangemap_get(m: &range_map::RangeMap<u64, u64>, addr: u64) -> (r: Option<u64>)
    ensures
        match r {
            Option::Some(v) => exists|i: int|
                0 <= i < rangemap_entries(*m).len() && (#[trigger] rangemap_entries(*m)[i]).0
                    <= addr && addr <= rangemap_entries(*m)[i].1 && v == rangemap_entries(*m)[i].2,
            Option::None => forall|i: int|
                0 <= i < rangemap_entries(*m).len() ==> !((#[trigger] rangemap_entries(*m)[i]).0
                    <= addr && addr <= rangemap_entries(*m)[i].1),
        },
{
    m.get(addr).copied()
}

/// Relies on range_map's `RangeMap::ranges_values`: iterates the
/// stored entries in address order.
#[verifier::external_body]
pub fn rangemap_to_entries(m: &range_map::RangeMap<u64, u64>) -> (r: Vec<(u64, u64, u64)>)
    ensures
        r@ == rangemap_entries(*m),
{
    m.ranges_values().map(|p| (p.0.start, p.0.end, p.1)).collect()
}

/// The flat `(start, end, value)` form of an entry.
pub open spec fn flat_entry(e: (AddressRange, u64)) -> (u64, u64, u64) {
    (e.0.start, e.0.end, e.1)
}

/// Build a `RangeMap` from possibly-overlapping entries: sort, merge
/// equal-valued neighbours, drop conflicting overlaps. The dropped
/// entries come back beside the map, one per conflict, for the
/// caller to report.
pub fn into_rangemap_safe(input: Vec<(AddressRange, u64)>) -> (r: (
    range_map::RangeMap<u64, u64>,
    Vec<(AddressRange, u64)>,
))
    requires
        entries_wf(input@),
    ensures
        rangemap_entries(r.0) == spec_merge(spec_sort_entries(input@)).map_values(
            |e: (AddressRange, u64)| flat_entry(e),
        ),
        r.1@ == spec_merge_dropped(spec_sort_entries(input@)),
{
    let ghost orig = input@;
    let (idx, dropped) = into_range_index(input);
    proof {
        lemma_sort_entries_props(orig);
        lemma_sort_entries_wf(orig);
        lemma_merge_wf(spec_sort_entries(orig));
        lemma_merge_no_adjacent_equal(spec_sort_entries(orig));
    }
    let es = idx.entries();
    let ghost kept = idx.spec_entries();
    let mut flat: Vec<(u64, u64, u64)> = Vec::new();
    let mut i: usize = 0;
    while i < es.len()
        invariant
            es@ == kept,
            i <= kept.len(),
            flat@.len() == i as int,
            forall|j: int| 0 <= j < i ==> flat@[j] == flat_entry(#[trigger] kept[j]),
        decreases es@.len() - i,
    {
        let e = &es[i];
        flat.push((e.0.start, e.0.end, e.1));
        i = i + 1;
    }
    proof {
        assert(flat@ =~= kept.map_values(|e: (AddressRange, u64)| flat_entry(e)));
    }
    let m = rangemap_from_entries(flat);
    (m, dropped)
}

} // verus!
