//! From the description of an experiment to its jobs.
//!
//! An experiment names datasets, cost models, outputs and aligners, and
//! stands for one job for each way of choosing one of each.

use vstd::prelude::*;
use crate::algorithms::{AlgorithmParams, AlgorithmParamsView};
use crate::cost::CostModel;
use crate::dataset::{Dataset, DatasetView, GeneratedDataset, GeneratedDatasetView};
use crate::job::{Bytes, Job, JobView, Seconds};

verus! {

/// The time limit of a job when none is given: a year.
pub const DEFAULT_TIME_LIMIT: Seconds = 31_556_952;

/// The memory limit of a job when none is given: 1000 TiB.
pub const DEFAULT_MEM_LIMIT: Bytes = 1_099_511_627_776_000;

/// The limit that holds: the one given for the run, else the one that the
/// experiment names, else the default.
pub fn resolve_limit(given: Option<u64>, experiment: Option<u64>, default: u64) -> (limit: u64)
    ensures
        limit == match given {
            Some(g) => g,
            None => match experiment {
                Some(e) => e,
                None => default,
            },
        },
{
    match given {
        Some(g) => g,
        None => match experiment {
            Some(e) => e,
            None => default,
        },
    }
}

/// The error with which `parse_size` refuses a text.
#[verifier::external_type_specification]
#[verifier::external_body]
pub struct ExSizeError(parse_size::Error);

/// The number of bytes that `parse_size::parse_size` reads from a text
/// such as `1GiB`, if it reads one.
pub uninterp spec fn parsed_size(text: Seq<char>) -> Option<u64>;

/// The longest text that is read as a size. A text of this length holds
/// fewer digits than make a number too large for 64 bits.
pub const MAX_SIZE_TEXT: usize = 19;

/// Reads a size in bytes from a text such as `1GiB`, by
/// `parse_size::parse_size`.
///
/// The crate reads a number, which may have a fraction and an exponent,
/// and a unit with a decimal or binary prefix, and refuses texts that are
/// no such thing or stand for too large a number. What it reads is given
/// the name [`parsed_size`] here and not said again. The text is kept
/// short because the crate rounds numbers of 20 digits and more in a way
/// that can overflow.
#[verifier::external_body]
pub fn parse_bytes(s: &str) -> (r: Result<u64, parse_size::Error>)
    requires
        s@.len() <= MAX_SIZE_TEXT,
    ensures
        match r {
            Ok(bytes) => parsed_size(s@) == Some(bytes),
            Err(_) => parsed_size(s@) is None,
        },
{
    parse_size::parse_size(s)
}

/// A text that is not read as a size: it is too long, or `parse_size`
/// refuses it.
#[derive(Clone, Copy, Debug, PartialEq, Eq, Structural)]
pub enum SizeError {
    TooLong,
    Invalid,
}

/// The size that a text stands for: that which `parse_size` reads from
/// it, if the text is short enough to be read.
pub open spec fn size_of_text(text: Seq<char>) -> Result<Bytes, SizeError> {
    if text.len() > MAX_SIZE_TEXT {
        Err(SizeError::TooLong)
    } else {
        match parsed_size(text) {
            Some(bytes) => Ok(bytes),
            None => Err(SizeError::Invalid),
        }
    }
}

/// Reads a memory limit from a text such as `1GiB`.
pub fn parse_mem_limit(text: &str) -> (r: Result<Bytes, SizeError>)
    ensures
        r == size_of_text(text@),
{
    if text.unicode_len() > MAX_SIZE_TEXT {
        return Err(SizeError::TooLong);
    }
    match parse_bytes(text) {
        Ok(bytes) => Ok(bytes),
        Err(_) => Err(SizeError::Invalid),
    }
}

/// What an experiment is made of.
pub struct Product {
    pub datasets: Seq<DatasetView>,
    pub costs: Seq<CostModel>,
    pub traces: Seq<bool>,
    pub algos: Seq<AlgorithmParamsView>,
    pub time_limit: Seconds,
    pub mem_limit: Bytes,
}

impl Product {
    /// The job for one dataset, cost model, output and aligner, with the
    /// position of its dataset.
    pub open spec fn job(self, d: int, c: int, t: int, a: int) -> (JobView, usize) {
        (
            JobView {
                time_limit: self.time_limit,
                mem_limit: self.mem_limit,
                dataset: self.datasets[d],
                costs: self.costs[c],
                traceback: self.traces[t],
                algo: self.algos[a],
            },
            d as usize,
        )
    }

    /// The jobs for one dataset, cost model and output with the first `n`
    /// aligners.
    pub open spec fn with_algos(self, d: int, c: int, t: int, n: nat) -> Seq<(JobView, usize)>
        decreases n,
    {
        if n == 0 {
            Seq::empty()
        } else {
            self.with_algos(d, c, t, (n - 1) as nat).push(self.job(d, c, t, n - 1))
        }
    }

    /// The jobs for one dataset and cost model with the first `n` outputs
    /// and every aligner.
    pub open spec fn with_traces(self, d: int, c: int, n: nat) -> Seq<(JobView, usize)>
        decreases n,
    {
        if n == 0 {
            Seq::empty()
        } else {
            self.with_traces(d, c, (n - 1) as nat) + self.with_algos(d, c, n - 1, self.algos.len())
        }
    }

    /// The jobs for one dataset with the first `n` cost models and every
    /// output and aligner.
    pub open spec fn with_costs(self, d: int, n: nat) -> Seq<(JobView, usize)>
        decreases n,
    {
        if n == 0 {
            Seq::empty()
        } else {
            self.with_costs(d, (n - 1) as nat) + self.with_traces(d, n - 1, self.traces.len())
        }
    }

    /// The jobs for the first `n` datasets with every cost model, output
    /// and aligner.
    pub open spec fn with_datasets(self, n: nat) -> Seq<(JobView, usize)>
        decreases n,
    {
        if n == 0 {
            Seq::empty()
        } else {
            self.with_datasets((n - 1) as nat) + self.with_costs(n - 1, self.costs.len())
        }
    }

    /// All jobs of the experiment. The jobs of a dataset stand together,
    /// among them those of a cost model, and among those the ones of an
    /// output.
    pub open spec fn jobs(self) -> Seq<(JobView, usize)> {
        self.with_datasets(self.datasets.len())
    }

    /// There is one job for each choice of a dataset, a cost model, an
    /// output and an aligner.
    pub proof fn lemma_count(self)
        ensures
            self.jobs().len() == self.datasets.len() * (self.costs.len() * (self.traces.len()
                * self.algos.len())),
    {
        self.lemma_count_datasets(self.datasets.len());
    }

    proof fn lemma_count_algos(self, d: int, c: int, t: int, n: nat)
        ensures
            self.with_algos(d, c, t, n).len() == n,
        decreases n,
    {
        if n > 0 {
            self.lemma_count_algos(d, c, t, (n - 1) as nat);
        }
    }

    proof fn lemma_count_traces(self, d: int, c: int, n: nat)
        ensures
            self.with_traces(d, c, n).len() == n * self.algos.len(),
        decreases n,
    {
        if n > 0 {
            self.lemma_count_traces(d, c, (n - 1) as nat);
            self.lemma_count_algos(d, c, n - 1, self.algos.len());
            let k = self.algos.len() as int;
            assert(n * k == (n - 1) * k + k) by (nonlinear_arith);
        } else {
            assert(0 * self.algos.len() == 0) by (nonlinear_arith);
        }
    }

    proof fn lemma_count_costs(self, d: int, n: nat)
        ensures
            self.with_costs(d, n).len() == n * (self.traces.len() * self.algos.len()),
        decreases n,
    {
        if n > 0 {
            self.lemma_count_costs(d, (n - 1) as nat);
            self.lemma_count_traces(d, n - 1, self.traces.len());
            let k = (self.traces.len() * self.algos.len()) as int;
            assert(n * k == (n - 1) * k + k) by (nonlinear_arith);
        } else {
            assert(0 * (self.traces.len() * self.algos.len()) == 0) by (nonlinear_arith);
        }
    }

    proof fn lemma_count_datasets(self, n: nat)
        ensures
            self.with_datasets(n).len() == n * (self.costs.len() * (self.traces.len()
                * self.algos.len())),
        decreases n,
    {
        if n > 0 {
            self.lemma_count_datasets((n - 1) as nat);
            self.lemma_count_costs(n - 1, self.costs.len());
            let k = (self.costs.len() * (self.traces.len() * self.algos.len())) as int;
            assert(n * k == (n - 1) * k + k) by (nonlinear_arith);
        } else {
            assert(0 * (self.costs.len() * (self.traces.len() * self.algos.len())) == 0)
                by (nonlinear_arith);
        }
    }
}

/// The values of datasets.
pub open spec fn dataset_views(datasets: Seq<Dataset>) -> Seq<DatasetView> {
    datasets.map_values(|d: Dataset| d@)
}

/// The values of aligners with their parameters.
pub open spec fn algo_views(algos: Seq<AlgorithmParams>) -> Seq<AlgorithmParamsView> {
    algos.map_values(|a: AlgorithmParams| a@)
}

/// The values of jobs that stand with the position of their dataset.
pub open spec fn indexed_job_views(jobs: Seq<(Job, usize)>) -> Seq<(JobView, usize)> {
    jobs.map_values(|j: (Job, usize)| (j.0@, j.1))
}

/// The jobs of an experiment: one for each choice of a dataset, a cost
/// model, an output and an aligner, all with the same limits. Each job
/// comes with the position of its dataset in `datasets`.
pub fn expand(
    datasets: &Vec<Dataset>,
    costs: &Vec<CostModel>,
    traces: &Vec<bool>,
    algos: &Vec<AlgorithmParams>,
    time_limit: Seconds,
    mem_limit: Bytes,
) -> (jobs: Vec<(Job, usize)>)
    ensures
        indexed_job_views(jobs@) == (Product {
            datasets: dataset_views(datasets@),
            costs: costs@,
            traces: traces@,
            algos: algo_views(algos@),
            time_limit,
            mem_limit,
        }).jobs(),
{
    let ghost p = Product {
        datasets: dataset_views(datasets@),
        costs: costs@,
        traces: traces@,
        algos: algo_views(algos@),
        time_limit,
        mem_limit,
    };
    let mut jobs: Vec<(Job, usize)> = Vec::new();
    let mut d: usize = 0;
    assert(indexed_job_views(jobs@) =~= p.with_datasets(0));
    while d < datasets.len()
        invariant
            d <= datasets.len(),
            p == (Product {
                datasets: dataset_views(datasets@),
                costs: costs@,
                traces: traces@,
                algos: algo_views(algos@),
                time_limit,
                mem_limit,
            }),
            indexed_job_views(jobs@) == p.with_datasets(d as nat),
        decreases datasets.len() - d,
    {
        let mut c: usize = 0;
        assert(indexed_job_views(jobs@) =~= p.with_datasets(d as nat) + p.with_costs(d as int, 0));
        while c < costs.len()
            invariant
                d < datasets.len(),
                c <= costs.len(),
                p == (Product {
                    datasets: dataset_views(datasets@),
                    costs: costs@,
                    traces: traces@,
                    algos: algo_views(algos@),
                    time_limit,
                    mem_limit,
                }),
                indexed_job_views(jobs@) == p.with_datasets(d as nat) + p.with_costs(
                    d as int,
                    c as nat,
                ),
            decreases costs.len() - c,
        {
            let mut t: usize = 0;
            assert(indexed_job_views(jobs@) =~= p.with_datasets(d as nat) + p.with_costs(
                d as int,
                c as nat,
            ) + p.with_traces(d as int, c as int, 0));
            while t < traces.len()
                invariant
                    d < datasets.len(),
                    c < costs.len(),
                    t <= traces.len(),
                    p == (Product {
                        datasets: dataset_views(datasets@),
                        costs: costs@,
                        traces: traces@,
                        algos: algo_views(algos@),
                        time_limit,
                        mem_limit,
                    }),
                    indexed_job_views(jobs@) == p.with_datasets(d as nat) + p.with_costs(
                        d as int,
                        c as nat,
                    ) + p.with_traces(d as int, c as int, t as nat),
                decreases traces.len() - t,
            {
                let mut a: usize = 0;
                assert(indexed_job_views(jobs@) =~= p.with_datasets(d as nat) + p.with_costs(
                    d as int,
                    c as nat,
                ) + p.with_traces(d as int, c as int, t as nat) + p.with_algos(
                    d as int,
                    c as int,
                    t as int,
                    0,
                ));
                while a < algos.len()
                    invariant
                        d < datasets.len(),
                        c < costs.len(),
                        t < traces.len(),
                        a <= algos.len(),
                        p == (Product {
                            datasets: dataset_views(datasets@),
                            costs: costs@,
                            traces: traces@,
                            algos: algo_views(algos@),
                            time_limit,
                            mem_limit,
                        }),
                        indexed_job_views(jobs@) == p.with_datasets(d as nat) + p.with_costs(
                            d as int,
                            c as nat,
                        ) + p.with_traces(d as int, c as int, t as nat) + p.with_algos(
                            d as int,
                            c as int,
                            t as int,
                            a as nat,
                        ),
                    decreases algos.len() - a,
                {
                    let job = Job {
                        time_limit,
                        mem_limit,
                        dataset: datasets[d].clone(),
                        costs: costs[c],
                        traceback: traces[t],
                        algo: algos[a].clone(),
                    };
                    let ghost before = jobs@;
                    jobs.push((job, d));
                    proof {
                        assert((job@, d) == p.job(d as int, c as int, t as int, a as int));
                        assert(indexed_job_views(before.push((job, d))) =~= indexed_job_views(
                            before,
                        ).push((job@, d)));
                        assert(indexed_job_views(jobs@) =~= p.with_datasets(d as nat)
                            + p.with_costs(d as int, c as nat) + p.with_traces(
                            d as int,
                            c as int,
                            t as nat,
                        ) + p.with_algos(d as int, c as int, t as int, (a + 1) as nat));
                    }
                    a = a + 1;
                }
                proof {
                    assert(indexed_job_views(jobs@) =~= p.with_datasets(d as nat) + p.with_costs(
                        d as int,
                        c as nat,
                    ) + p.with_traces(d as int, c as int, (t + 1) as nat));
                }
                t = t + 1;
            }
            proof {
                assert(indexed_job_views(jobs@) =~= p.with_datasets(d as nat) + p.with_costs(
                    d as int,
                    (c + 1) as nat,
                ));
            }
            c = c + 1;
        }
        proof {
            assert(indexed_job_views(jobs@) =~= p.with_datasets((d + 1) as nat));
        }
        d = d + 1;
    }
    jobs
}

/// Why the settings of a generator give no datasets.
#[derive(Clone, Copy, Debug, PartialEq, Eq, Structural)]
pub enum GeneratorError {
    /// Neither the total size of a dataset nor its number of sequence
    /// pairs is given.
    NoSize,
    /// The number of sequence pairs times their length is too large.
    SizeOverflow,
}

/// The settings from which generated datasets are made: one dataset for
/// each choice of an error model, an error rate and a length.
pub struct Generator {
    pub prefix: Seq<char>,
    pub seed: u64,
    pub error_models: Seq<Seq<char>>,
    pub error_rates: Seq<u32>,
    pub lengths: Seq<usize>,
    /// The total size of each dataset.
    pub total_size: Option<usize>,
    /// The number of sequence pairs of each dataset, which decides its
    /// total size where that is not given.
    pub count: Option<usize>,
}

impl Generator {
    /// No dataset is asked for.
    pub open spec fn is_empty(self) -> bool {
        self.error_models.len() == 0 || self.error_rates.len() == 0 || self.lengths.len() == 0
    }

    /// The total size of a dataset with sequences of length `length`: the
    /// size that is given, and else the given number of pairs times the
    /// length.
    pub open spec fn size(self, length: usize) -> int {
        match self.total_size {
            Some(size) => size as int,
            None => self.count->Some_0 * length,
        }
    }

    /// Why no datasets are made, if there is a reason.
    pub open spec fn error(self) -> Option<GeneratorError> {
        if self.is_empty() || self.total_size is Some {
            None
        } else if self.count is None {
            Some(GeneratorError::NoSize)
        } else if exists|l: int|
            0 <= l < self.lengths.len() && self.size(#[trigger] self.lengths[l]) > usize::MAX {
            Some(GeneratorError::SizeOverflow)
        } else {
            None
        }
    }

    /// The dataset for one error model, error rate and length.
    pub open spec fn dataset(self, m: int, r: int, l: int) -> GeneratedDatasetView {
        GeneratedDatasetView {
            prefix: self.prefix,
            seed: self.seed,
            error_model: self.error_models[m],
            error_rate: self.error_rates[r],
            length: self.lengths[l],
            total_size: self.size(self.lengths[l]) as usize,
            pattern_length: None,
        }
    }

    /// The datasets for one error model and error rate with the first `n`
    /// lengths.
    pub open spec fn with_lengths(self, m: int, r: int, n: nat) -> Seq<GeneratedDatasetView>
        decreases n,
    {
        if n == 0 {
            Seq::empty()
        } else {
            self.with_lengths(m, r, (n - 1) as nat).push(self.dataset(m, r, n - 1))
        }
    }

    /// The datasets for one error model with the first `n` error rates and
    /// every length.
    pub open spec fn with_rates(self, m: int, n: nat) -> Seq<GeneratedDatasetView>
        decreases n,
    {
        if n == 0 {
            Seq::empty()
        } else {
            self.with_rates(m, (n - 1) as nat) + self.with_lengths(m, n - 1, self.lengths.len())
        }
    }

    /// The datasets for the first `n` error models with every error rate
    /// and length.
    pub open spec fn with_models(self, n: nat) -> Seq<GeneratedDatasetView>
        decreases n,
    {
        if n == 0 {
            Seq::empty()
        } else {
            self.with_models((n - 1) as nat) + self.with_rates(n - 1, self.error_rates.len())
        }
    }

    /// All datasets. Those of an error model stand together, and among
    /// them those of an error rate.
    pub open spec fn datasets(self) -> Seq<GeneratedDatasetView> {
        self.with_models(self.error_models.len())
    }
}

/// The texts that strings hold.
pub open spec fn model_views(models: Seq<String>) -> Seq<Seq<char>> {
    models.map_values(|m: String| m@)
}

/// The values of generated datasets.
pub open spec fn generated_views(datasets: Seq<GeneratedDataset>) -> Seq<GeneratedDatasetView> {
    datasets.map_values(|d: GeneratedDataset| d@)
}

/// The total size of the datasets for each of `lengths`.
fn sizes(lengths: &Vec<usize>, total_size: Option<usize>, count: Option<usize>) -> (r: Result<
    Vec<usize>,
    GeneratorError,
>)
    ensures
        match r {
            Ok(sizes) => sizes.len() == lengths.len() && (total_size is Some || count is Some)
                && forall|l: int|
                0 <= l < lengths.len() ==> #[trigger] sizes[l] == match total_size {
                    Some(size) => size as int,
                    None => count->Some_0 * lengths[l],
                },
            Err(GeneratorError::NoSize) => total_size is None && count is None,
            Err(GeneratorError::SizeOverflow) => total_size is None && count is Some && exists|
                l: int,
            |
                0 <= l < lengths.len() && count->Some_0 * (#[trigger] lengths[l]) > usize::MAX,
        },
        lengths.len() > 0 && total_size is None && count is None ==> r is Err,
{
    let mut sizes: Vec<usize> = Vec::new();
    let mut l: usize = 0;
    while l < lengths.len()
        invariant
            l <= lengths.len(),
            sizes.len() == l,
            l > 0 ==> total_size is Some || count is Some,
            forall|k: int|
                0 <= k < l ==> #[trigger] sizes[k] == match total_size {
                    Some(size) => size as int,
                    None => count->Some_0 * lengths[k],
                },
        decreases lengths.len() - l,
    {
        let size = match total_size {
            Some(size) => size,
            None => match count {
                None => {
                    return Err(GeneratorError::NoSize);
                },
                Some(n) => match n.checked_mul(lengths[l]) {
                    Some(size) => size,
                    None => {
                        return Err(GeneratorError::SizeOverflow);
                    },
                },
            },
        };
        sizes.push(size);
        l = l + 1;
    }
    if total_size.is_none() && count.is_none() {
        return Err(GeneratorError::NoSize);
    }
    Ok(sizes)
}

/// The generated datasets that the settings of a generator stand for: one
/// for each choice of an error model, an error rate and a length.
///
/// Where no dataset is asked for, none is made. Otherwise each dataset has
/// the total size that is given, or else as many sequence pairs as are
/// given; it is an error if neither is given, or if the total size of a
/// dataset is too large a number.
pub fn generated_datasets(
    prefix: &String,
    seed: u64,
    error_models: &Vec<String>,
    error_rates: &Vec<u32>,
    lengths: &Vec<usize>,
    total_size: Option<usize>,
    count: Option<usize>,
) -> (r: Result<Vec<GeneratedDataset>, GeneratorError>)
    ensures
        ({
            let g = Generator {
                prefix: prefix@,
                seed,
                error_models: model_views(error_models@),
                error_rates: error_rates@,
                lengths: lengths@,
                total_size,
                count,
            };
            match g.error() {
                Some(e) => r == Err::<Vec<GeneratedDataset>, GeneratorError>(e),
                None => r matches Ok(datasets) && generated_views(datasets@) == g.datasets(),
            }
        }),
{
    let ghost g = Generator {
        prefix: prefix@,
        seed,
        error_models: model_views(error_models@),
        error_rates: error_rates@,
        lengths: lengths@,
        total_size,
        count,
    };
    let mut datasets: Vec<GeneratedDataset> = Vec::new();
    if error_models.len() == 0 || error_rates.len() == 0 || lengths.len() == 0 {
        proof {
            lemma_nothing_generated(g);
            assert(generated_views(datasets@) =~= g.datasets());
        }
        return Ok(datasets);
    }
    let sizes = match sizes(lengths, total_size, count) {
        Ok(sizes) => sizes,
        Err(e) => {
            return Err(e);
        },
    };
    proof {
        assert forall|l: int| 0 <= l < g.lengths.len() implies g.size(#[trigger] g.lengths[l])
            <= usize::MAX by {
            assert(sizes[l] == g.size(lengths[l]));
        }
    }
    let mut m: usize = 0;
    assert(generated_views(datasets@) =~= g.with_models(0));
    while m < error_models.len()
        invariant
            m <= error_models.len(),
            g == (Generator {
                prefix: prefix@,
                seed,
                error_models: model_views(error_models@),
                error_rates: error_rates@,
                lengths: lengths@,
                total_size,
                count,
            }),
            sizes.len() == lengths.len(),
            forall|l: int| 0 <= l < lengths.len() ==> #[trigger] sizes[l] == g.size(lengths[l]),
            generated_views(datasets@) == g.with_models(m as nat),
        decreases error_models.len() - m,
    {
        let mut r: usize = 0;
        assert(generated_views(datasets@) =~= g.with_models(m as nat) + g.with_rates(m as int, 0));
        while r < error_rates.len()
            invariant
                m < error_models.len(),
                r <= error_rates.len(),
                g == (Generator {
                    prefix: prefix@,
                    seed,
                    error_models: model_views(error_models@),
                    error_rates: error_rates@,
                    lengths: lengths@,
                    total_size,
                    count,
                }),
                sizes.len() == lengths.len(),
                forall|l: int| 0 <= l < lengths.len() ==> #[trigger] sizes[l] == g.size(lengths[l]),
                generated_views(datasets@) == g.with_models(m as nat) + g.with_rates(
                    m as int,
                    r as nat,
                ),
            decreases error_rates.len() - r,
        {
            let mut l: usize = 0;
            assert(generated_views(datasets@) =~= g.with_models(m as nat) + g.with_rates(
                m as int,
                r as nat,
            ) + g.with_lengths(m as int, r as int, 0));
            while l < lengths.len()
                invariant
                    m < error_models.len(),
                    r < error_rates.len(),
                    l <= lengths.len(),
                    g == (Generator {
                        prefix: prefix@,
                        seed,
                        error_models: model_views(error_models@),
                        error_rates: error_rates@,
                        lengths: lengths@,
                        total_size,
                        count,
                    }),
                    sizes.len() == lengths.len(),
                    forall|l: int|
                        0 <= l < lengths.len() ==> #[trigger] sizes[l] == g.size(lengths[l]),
                    generated_views(datasets@) == g.with_models(m as nat) + g.with_rates(
                        m as int,
                        r as nat,
                    ) + g.with_lengths(m as int, r as int, l as nat),
                decreases lengths.len() - l,
            {
                let dataset = GeneratedDataset {
                    prefix: prefix.clone(),
                    seed,
                    error_model: error_models[m].clone(),
                    error_rate: error_rates[r],
                    length: lengths[l],
                    total_size: sizes[l],
                    pattern_length: None,
                };
                let ghost before = datasets@;
                datasets.push(dataset);
                proof {
                    assert(dataset@ == g.dataset(m as int, r as int, l as int));
                    assert(generated_views(before.push(dataset)) =~= generated_views(before).push(
                        dataset@,
                    ));
                    assert(generated_views(datasets@) =~= g.with_models(m as nat) + g.with_rates(
                        m as int,
                        r as nat,
                    ) + g.with_lengths(m as int, r as int, (l + 1) as nat));
                }
                l = l + 1;
            }
            proof {
                assert(generated_views(datasets@) =~= g.with_models(m as nat) + g.with_rates(
                    m as int,
                    (r + 1) as nat,
                ));
            }
            r = r + 1;
        }
        proof {
            assert(generated_views(datasets@) =~= g.with_models((m + 1) as nat));
        }
        m = m + 1;
    }
    Ok(datasets)
}

/// Where an error model, an error rate or a length is missing, there is
/// no dataset.
pub proof fn lemma_nothing_generated(g: Generator)
    requires
        g.is_empty(),
    ensures
        g.datasets().len() == 0,
{
    lemma_generated_models(g, g.error_models.len());
}

proof fn lemma_generated_lengths(g: Generator, m: int, r: int, n: nat)
    ensures
        g.with_lengths(m, r, n).len() == n,
    decreases n,
{
    if n > 0 {
        lemma_generated_lengths(g, m, r, (n - 1) as nat);
    }
}

proof fn lemma_generated_rates(g: Generator, m: int, n: nat)
    ensures
        g.lengths.len() == 0 ==> g.with_rates(m, n).len() == 0,
    decreases n,
{
    if n > 0 {
        lemma_generated_rates(g, m, (n - 1) as nat);
        lemma_generated_lengths(g, m, n - 1, g.lengths.len());
    }
}

proof fn lemma_generated_models(g: Generator, n: nat)
    requires
        g.is_empty(),
        n <= g.error_models.len(),
    ensures
        g.with_models(n).len() == 0,
    decreases n,
{
    if n > 0 {
        lemma_generated_models(g, (n - 1) as nat);
        lemma_generated_rates(g, n - 1, g.error_rates.len());
    }
}

} // verus!
