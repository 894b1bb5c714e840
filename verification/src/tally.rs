//! The whole numbers that are known of a dataset, and how those of two
//! datasets are brought together.

use vstd::prelude::*;

verus! {

/// The smallest and the largest of some numbers.
#[derive(Clone, Copy, Debug, PartialEq, Eq, Structural)]
pub struct Extent {
    pub min: usize,
    pub max: usize,
}

impl Extent {
    /// The extent of one number.
    pub fn new(v: usize) -> (e: Extent)
        ensures
            e == (Extent { min: v, max: v }),
    {
        Extent { min: v, max: v }
    }

    /// The extent of the numbers of `self` and `other` together.
    pub open spec fn merged(self, other: Extent) -> Extent {
        Extent {
            min: if self.min < other.min {
                self.min
            } else {
                other.min
            },
            max: if self.max > other.max {
                self.max
            } else {
                other.max
            },
        }
    }

    /// Takes the numbers of `other` in.
    pub fn merge(&mut self, other: Extent)
        ensures
            *final(self) == old(self).merged(other),
    {
        if other.min < self.min {
            self.min = other.min;
        }
        if other.max > self.max {
            self.max = other.max;
        }
    }
}

/// How many files, sequence pairs and bases a dataset has, and how many
/// edits of each kind lie between its sequences.
#[derive(Clone, Copy, Debug, PartialEq, Eq, Structural)]
pub struct Tally {
    pub files: usize,
    pub seq_pairs: usize,
    pub total_bases: usize,
    pub edit_distance: usize,
    pub substitutions: usize,
    pub insertions: usize,
    pub deletions: usize,
}

impl Tally {
    /// Each count of `self` and `other` together is a number that can be
    /// kept.
    pub open spec fn fits(self, other: Tally) -> bool {
        &&& self.files + other.files <= usize::MAX
        &&& self.seq_pairs + other.seq_pairs <= usize::MAX
        &&& self.total_bases + other.total_bases <= usize::MAX
        &&& self.edit_distance + other.edit_distance <= usize::MAX
        &&& self.substitutions + other.substitutions <= usize::MAX
        &&& self.insertions + other.insertions <= usize::MAX
        &&& self.deletions + other.deletions <= usize::MAX
    }

    /// The counts of `self` and `other` together.
    pub open spec fn merged(self, other: Tally) -> Tally {
        Tally {
            files: (self.files + other.files) as usize,
            seq_pairs: (self.seq_pairs + other.seq_pairs) as usize,
            total_bases: (self.total_bases + other.total_bases) as usize,
            edit_distance: (self.edit_distance + other.edit_distance) as usize,
            substitutions: (self.substitutions + other.substitutions) as usize,
            insertions: (self.insertions + other.insertions) as usize,
            deletions: (self.deletions + other.deletions) as usize,
        }
    }

    /// Adds the counts of `other`. Where a count would be too large a
    /// number nothing is added, and the answer says so.
    pub fn merge(&mut self, other: Tally) -> (ok: bool)
        ensures
            ok == old(self).fits(other),
            ok ==> *final(self) == old(self).merged(other),
            !ok ==> *final(self) == *old(self),
    {
        let fits = other.files <= usize::MAX - self.files && other.seq_pairs <= usize::MAX
            - self.seq_pairs && other.total_bases <= usize::MAX - self.total_bases
            && other.edit_distance <= usize::MAX - self.edit_distance && other.substitutions
            <= usize::MAX - self.substitutions && other.insertions <= usize::MAX - self.insertions
            && other.deletions <= usize::MAX - self.deletions;
        if fits {
            self.files = self.files + other.files;
            self.seq_pairs = self.seq_pairs + other.seq_pairs;
            self.total_bases = self.total_bases + other.total_bases;
            self.edit_distance = self.edit_distance + other.edit_distance;
            self.substitutions = self.substitutions + other.substitutions;
            self.insertions = self.insertions + other.insertions;
            self.deletions = self.deletions + other.deletions;
        }
        fits
    }
}

} // verus!
