//! Datasets: the sequence pairs that a job aligns.

use vstd::prelude::*;
use vstd::std_specs::cmp::PartialEqSpecImpl;
use crate::text::{decimal, push_decimal};

verus! {

/// A synthetic dataset, named by the settings that generate it.
///
/// Two generated datasets with the same error model can be ordered by how
/// hard they are: more errors, longer sequences and more of them are harder.
#[derive(Debug)]
pub struct GeneratedDataset {
    /// Directory in which the generated file is kept.
    pub prefix: String,
    pub seed: u64,
    /// Name of the model by which errors are introduced.
    pub error_model: String,
    /// The error rate as an order-preserving code: a larger code is a larger
    /// rate, and equal codes are equal rates.
    pub error_rate: u32,
    /// Length of each sequence.
    pub length: usize,
    /// Total length of all sequences together.
    pub total_size: usize,
    pub pattern_length: Option<usize>,
}

/// The mathematical value of a [`GeneratedDataset`].
pub struct GeneratedDatasetView {
    pub prefix: Seq<char>,
    pub seed: u64,
    pub error_model: Seq<char>,
    pub error_rate: u32,
    pub length: usize,
    pub total_size: usize,
    pub pattern_length: Option<usize>,
}

impl GeneratedDatasetView {
    /// The name of the file that keeps the dataset, given its error rate
    /// as a text: the error model, the total size behind `-t`, the length
    /// behind `-n`, the error rate behind `-e`, and `.seq`.
    pub open spec fn name(self, error_rate: Seq<char>) -> Seq<char> {
        self.error_model + "-t"@ + decimal(self.total_size as nat) + "-n"@ + decimal(
            self.length as nat,
        ) + "-e"@ + error_rate + ".seq"@
    }

    /// `self` is at least as hard as `o`: the same error model and pattern
    /// length, and no smaller in error rate, length and total size.
    pub open spec fn is_larger_than(self, o: GeneratedDatasetView) -> bool {
        &&& self.error_model == o.error_model
        &&& self.pattern_length == o.pattern_length
        &&& self.error_rate >= o.error_rate
        &&& self.length >= o.length
        &&& self.total_size >= o.total_size
    }
}

impl View for GeneratedDataset {
    type V = GeneratedDatasetView;

    open spec fn view(&self) -> GeneratedDatasetView {
        GeneratedDatasetView {
            prefix: self.prefix@,
            seed: self.seed,
            error_model: self.error_model@,
            error_rate: self.error_rate,
            length: self.length,
            total_size: self.total_size,
            pattern_length: self.pattern_length,
        }
    }
}

fn option_eq(a: &Option<usize>, b: &Option<usize>) -> (r: bool)
    ensures
        r == (*a == *b),
{
    match (a, b) {
        (Some(x), Some(y)) => *x == *y,
        (None, None) => true,
        _ => false,
    }
}

impl GeneratedDataset {
    /// The name of the file that keeps the dataset. The error rate is
    /// given as the text that stands for it in the name.
    pub fn name(&self, error_rate: &str) -> (name: String)
        ensures
            name@ == self@.name(error_rate@),
    {
        let mut name = self.error_model.clone();
        name.append("-t");
        push_decimal(&mut name, self.total_size as u64);
        name.append("-n");
        push_decimal(&mut name, self.length as u64);
        name.append("-e");
        name.append(error_rate);
        name.append(".seq");
        assert(name@ =~= self@.name(error_rate@));
        name
    }

    /// Whether `self` is at least as hard as `o`.
    pub fn is_larger_than(&self, o: &GeneratedDataset) -> (r: bool)
        ensures
            r == self@.is_larger_than(o@),
    {
        self.error_model == o.error_model && option_eq(&self.pattern_length, &o.pattern_length)
            && self.error_rate >= o.error_rate && self.length >= o.length && self.total_size
            >= o.total_size
    }
}

impl Clone for GeneratedDataset {
    fn clone(&self) -> (r: GeneratedDataset)
        ensures
            r@ == self@,
    {
        GeneratedDataset {
            prefix: self.prefix.clone(),
            seed: self.seed,
            error_model: self.error_model.clone(),
            error_rate: self.error_rate,
            length: self.length,
            total_size: self.total_size,
            pattern_length: self.pattern_length,
        }
    }
}

impl PartialEq for GeneratedDataset {
    fn eq(&self, other: &GeneratedDataset) -> (r: bool) {
        self.prefix == other.prefix && self.seed == other.seed && self.error_model
            == other.error_model && self.error_rate == other.error_rate && self.length
            == other.length && self.total_size == other.total_size && option_eq(
            &self.pattern_length,
            &other.pattern_length,
        )
    }
}

impl PartialEqSpecImpl for GeneratedDataset {
    open spec fn obeys_eq_spec() -> bool {
        true
    }

    open spec fn eq_spec(&self, other: &GeneratedDataset) -> bool {
        self@ == other@
    }
}

/// The sequence pairs of a job, given in one of three ways.
#[derive(Debug)]
pub enum Dataset {
    /// Settings from which the dataset is generated.
    Generated(GeneratedDataset),
    /// Path of a file of sequence pairs.
    File(String),
    /// The sequence pairs themselves.
    Data(Vec<(String, String)>),
}

/// The mathematical value of a [`Dataset`].
pub enum DatasetView {
    Generated(GeneratedDatasetView),
    File(Seq<char>),
    Data(Seq<(Seq<char>, Seq<char>)>),
}

/// The pairs of texts that a vector of pairs of strings holds.
pub open spec fn pairs_view(pairs: Seq<(String, String)>) -> Seq<(Seq<char>, Seq<char>)> {
    Seq::new(pairs.len(), |i: int| (pairs[i].0@, pairs[i].1@))
}

impl View for Dataset {
    type V = DatasetView;

    open spec fn view(&self) -> DatasetView {
        match self {
            Dataset::Generated(g) => DatasetView::Generated(g@),
            Dataset::File(path) => DatasetView::File(path@),
            Dataset::Data(pairs) => DatasetView::Data(pairs_view(pairs@)),
        }
    }
}

fn pairs_eq(a: &Vec<(String, String)>, b: &Vec<(String, String)>) -> (r: bool)
    ensures
        r == (pairs_view(a@) == pairs_view(b@)),
{
    if a.len() != b.len() {
        assert(pairs_view(a@).len() != pairs_view(b@).len());
        return false;
    }
    let mut i: usize = 0;
    while i < a.len()
        invariant
            i <= a.len(),
            a.len() == b.len(),
            forall|j: int| 0 <= j < i ==> pairs_view(a@)[j] == pairs_view(b@)[j],
        decreases a.len() - i,
    {
        if !(a[i].0 == b[i].0 && a[i].1 == b[i].1) {
            assert(pairs_view(a@)[i as int] != pairs_view(b@)[i as int]);
            return false;
        }
        i = i + 1;
    }
    assert(pairs_view(a@) =~= pairs_view(b@));
    true
}

impl Dataset {
    pub open spec fn spec_is_generated(&self) -> bool {
        self is Generated
    }

    /// Whether the dataset is generated from settings.
    #[verifier::when_used_as_spec(spec_is_generated)]
    #[must_use]
    pub fn is_generated(&self) -> (r: bool)
        ensures
            r == (self is Generated),
            r == (self@ is Generated),
    {
        match self {
            Dataset::Generated(_) => true,
            _ => false,
        }
    }
}

fn pairs_clone(pairs: &Vec<(String, String)>) -> (r: Vec<(String, String)>)
    ensures
        pairs_view(r@) == pairs_view(pairs@),
{
    let mut r: Vec<(String, String)> = Vec::new();
    let mut i: usize = 0;
    while i < pairs.len()
        invariant
            i <= pairs.len(),
            r.len() == i,
            forall|j: int| 0 <= j < i ==> pairs_view(r@)[j] == pairs_view(pairs@)[j],
        decreases pairs.len() - i,
    {
        r.push((pairs[i].0.clone(), pairs[i].1.clone()));
        i = i + 1;
    }
    assert(pairs_view(r@) =~= pairs_view(pairs@));
    r
}

impl Clone for Dataset {
    fn clone(&self) -> (r: Dataset)
        ensures
            r@ == self@,
    {
        match self {
            Dataset::Generated(g) => Dataset::Generated(g.clone()),
            Dataset::File(path) => Dataset::File(path.clone()),
            Dataset::Data(pairs) => Dataset::Data(pairs_clone(pairs)),
        }
    }
}

impl PartialEq for Dataset {
    fn eq(&self, other: &Dataset) -> (r: bool) {
        match (self, other) {
            (Dataset::Generated(a), Dataset::Generated(b)) => a.eq(b),
            (Dataset::File(a), Dataset::File(b)) => a.eq(b),
            (Dataset::Data(a), Dataset::Data(b)) => pairs_eq(a, b),
            _ => false,
        }
    }
}

impl PartialEqSpecImpl for Dataset {
    open spec fn obeys_eq_spec() -> bool {
        true
    }

    open spec fn eq_spec(&self, other: &Dataset) -> bool {
        self@ == other@
    }
}

} // verus!
