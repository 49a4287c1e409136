use std::collections::BTreeMap;
use std::ops::Range;
use vstd::prelude::*;

verus! {

broadcast use {vstd::laws_cmp::group_laws_cmp, vstd::std_specs::btree::group_btree_axioms};

/// For each operator of a script, by its index, the range of bytes of the
/// source text that it was compiled from.
#[derive(Debug)]
pub struct SourceMap {
    ranges: BTreeMap<u32, Range<usize>>,
}

impl View for SourceMap {
    type V = Map<u32, Range<usize>>;

    closed spec fn view(&self) -> Map<u32, Range<usize>> {
        self.ranges@
    }
}

impl SourceMap {
    /// A map without entries.
    pub fn new() -> (map: SourceMap)
        ensures
            map@ == Map::<u32, Range<usize>>::empty(),
    {
        SourceMap { ranges: BTreeMap::new() }
    }

    /// Record `range` for the operator at `index`.
    pub fn insert(&mut self, index: u32, range: Range<usize>)
        ensures
            final(self)@ == old(self)@.insert(index, range),
    {
        self.ranges.insert(index, range);
    }

    /// The range that was recorded for the operator at `index`.
    pub fn get(&self, index: u32) -> (result: Option<Range<usize>>)
        ensures
            match result {
                Some(range) => self@.contains_key(index) && self@[index] == range,
                None => !self@.contains_key(index),
            },
    {
        match self.ranges.get(&index) {
            Some(range) => Some(Range { start: range.start, end: range.end }),
            None => None,
        }
    }
}

} // verus!
