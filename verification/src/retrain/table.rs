//! A weight model that is a table: one weight for every category.

use vstd::prelude::*;
use vstd::string::*;

use super::weights::{listed, WeightModel, WeightsView};
use crate::name_map::{lists, NameMap};

verus! {

/// The weight that changes nothing: one, as the bits of an IEEE 754 double.
pub const NEUTRAL_WEIGHT: u64 = 0x3ff0_0000_0000_0000;

/// A table of weights. A category that is not in it has the neutral weight.
#[derive(Debug)]
pub struct WeightTable {
    /// The version.
    pub version: u64,
    /// The weight of every category that the model tracks: the bits of IEEE 754
    /// doubles.
    pub adjustments: NameMap<u64>,
}

impl Clone for WeightTable {
    fn clone(&self) -> (r: Self)
        ensures
            r.version == self.version,
            r.adjustments@ == self.adjustments@,
    {
        let adjustments = self.adjustments.clone();
        assert(adjustments@ =~= self.adjustments@);
        WeightTable { version: self.version, adjustments }
    }
}

impl WeightModel for WeightTable {
    open spec fn weights(&self) -> WeightsView {
        WeightsView {
            version: self.version,
            categories: self.adjustments@.dom(),
            listing_len: self.adjustments@.len(),
            weight: |category: Seq<char>|
                if self.adjustments@.contains_key(category) {
                    self.adjustments@[category]
                } else {
                    NEUTRAL_WEIGHT
                },
        }
    }

    proof fn clone_is_faithful(original: Self, copy: Self) {
    }

    fn version(&self) -> (r: u64) {
        self.version
    }

    fn set_version(&mut self, version: u64)
        ensures
            final(self).adjustments@ == old(self).adjustments@,
    {
        self.version = version;
    }

    fn categories(&self) -> (r: Vec<String>)
        ensures
            r@.len() == self.adjustments.listing().len(),
            forall|i: int|
                0 <= i < r@.len() ==> (#[trigger] r@[i])@ == self.adjustments.listing()[i].0@,
    {
        let n: usize = self.adjustments.len();
        let ghost listing = self.adjustments.listing();
        let mut names: Vec<String> = Vec::new();
        let mut i: usize = 0;
        while i < n
            invariant
                i <= n,
                listing == self.adjustments.listing(),
                n == listing.len(),
                names@.len() == i,
                forall|k: int| 0 <= k < i ==> (#[trigger] names@[k])@ == listing[k].0@,
            decreases n - i,
        {
            let (name, _) = self.adjustments.entry(i);
            names.push(name.to_owned());
            i = i + 1;
        }
        proof {
            assert(lists(listing, self.adjustments@));
            assert forall|category: Seq<char>| #[trigger]
                self.weights().categories.contains(category) <==> listed(names@, category) by {
                if self.adjustments@.contains_key(category) {
                    let k = choose|k: int|
                        0 <= k < listing.len() && (#[trigger] listing[k]).0@ == category;
                    assert(names@[k]@ == category);
                }
                if listed(names@, category) {
                    let k = choose|k: int|
                        0 <= k < names@.len() && (#[trigger] names@[k])@ == category;
                    assert(self.adjustments@.contains_pair(listing[k].0@, listing[k].1));
                }
            }
        }
        names
    }

    fn adjustment(&self, category: &str) -> (r: u64) {
        match self.adjustments.get(category) {
            Some(weight) => *weight,
            None => NEUTRAL_WEIGHT,
        }
    }

    fn set_adjustment(&mut self, category: &str, value: u64)
        ensures
            final(self).version == old(self).version,
            final(self).adjustments@ == old(self).adjustments@.insert(category@, value),
    {
        self.adjustments.insert(category.to_owned(), value);
        assert(old(self).adjustments@.contains_key(category@) ==> self.adjustments@.dom()
            =~= old(self).adjustments@.dom());
    }
}

} // verus!
