//! A set of closed ranges that answers whether a point lies in any of them.

use core::ops::RangeInclusive;
use vstd::prelude::*;
use vstd::std_specs::cmp::PartialOrdSpec;
use vstd::std_specs::range::ContainsSpec;

verus! {

/// The spans pushed so far, in the order in which they came. Spans may
/// overlap or lie apart: they are kept as given and never merged.
pub struct NRangeInclusive<Idx> {
    ranges: Vec<RangeInclusive<Idx>>,
}

impl<Idx: PartialOrd<Idx>> View for NRangeInclusive<Idx> {
    type V = Seq<RangeInclusive<Idx>>;

    closed spec fn view(&self) -> Seq<RangeInclusive<Idx>> {
        self.ranges@
    }
}

/// `item` lies in at least one of `ranges`.
pub open spec fn covered<Idx: PartialOrd<Idx>>(ranges: Seq<RangeInclusive<Idx>>, item: Idx) -> bool {
    exists|i: int| 0 <= i < ranges.len() && (#[trigger] ranges[i]).contains_spec(&item)
}

impl<Idx: PartialOrd<Idx>> NRangeInclusive<Idx> {
    /// The empty set: it contains nothing.
    pub fn new() -> (set: Self)
        ensures
            set@ == Seq::<RangeInclusive<Idx>>::empty(),
    {
        Self { ranges: Vec::new() }
    }

    /// Adds one span and keeps all the others.
    pub fn push(&mut self, range: RangeInclusive<Idx>)
        ensures
            final(self)@ == old(self)@.push(range),
    {
        self.ranges.push(range);
    }

    /// Whether `item` lies in at least one pushed span.
    pub fn contains(&self, item: &Idx) -> (found: bool)
        ensures
            Idx::obeys_partial_cmp_spec() ==> found == covered(self@, *item),
    {
        let mut i: usize = 0;
        while i < self.ranges.len()
            invariant
                i <= self.ranges.len(),
                Idx::obeys_partial_cmp_spec() ==> forall|j: int|
                    0 <= j < i ==> !(#[trigger] self.ranges@[j]).contains_spec(item),
            decreases self.ranges.len() - i,
        {
            if self.ranges[i].contains(item) {
                return true;
            }
            i += 1;
        }
        false
    }
}

} // verus!
