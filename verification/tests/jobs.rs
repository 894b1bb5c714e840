use pa_bench::algorithms::{AlgorithmParams, AstarPaParams, EdlibParams, Ksw2Params};
use pa_bench::cost::CostModel;
use pa_bench::dataset::{Dataset, GeneratedDataset};
use pa_bench::job::Job;

fn generated() -> GeneratedDataset {
    GeneratedDataset {
        prefix: String::from("data/generated"),
        seed: 1,
        error_model: String::from("Uniform"),
        error_rate: 100,
        length: 1000,
        total_size: 1_000_000,
        pattern_length: None,
    }
}

fn job(dataset: Dataset) -> Job {
    Job {
        time_limit: 60,
        mem_limit: 1000,
        dataset,
        costs: CostModel::unit(),
        traceback: true,
        algo: AlgorithmParams::Edlib(EdlibParams),
    }
}

fn base() -> Job {
    job(Dataset::Generated(generated()))
}

#[test]
fn datasets_are_compared_by_value() {
    assert_eq!(Dataset::Generated(generated()), Dataset::Generated(generated()));
    assert_ne!(
        Dataset::Generated(generated()),
        Dataset::Generated(GeneratedDataset { seed: 2, ..generated() })
    );
    assert_ne!(
        Dataset::Generated(generated()),
        Dataset::Generated(GeneratedDataset { prefix: String::from("other"), ..generated() })
    );
    assert_eq!(Dataset::File(String::from("a")), Dataset::File(String::from("a")));
    assert_ne!(Dataset::File(String::from("a")), Dataset::File(String::from("b")));
    assert_ne!(Dataset::File(String::from("a")), Dataset::Data(vec![]));
    let pairs = vec![(String::from("ACGT"), String::from("AGT"))];
    assert_eq!(Dataset::Data(pairs.clone()), Dataset::Data(pairs.clone()));
    assert_ne!(Dataset::Data(pairs.clone()), Dataset::Data(vec![]));
    assert_ne!(
        Dataset::Data(pairs),
        Dataset::Data(vec![(String::from("ACGT"), String::from("ACT"))])
    );
    assert!(Dataset::Generated(generated()).is_generated());
    assert!(!Dataset::File(String::from("a")).is_generated());
    assert!(!Dataset::Data(vec![]).is_generated());
}

#[test]
fn clones_are_equal() {
    let data = Dataset::Data(vec![(String::from("A"), String::from("C"))]);
    assert_eq!(data.clone(), data);
    assert_eq!(generated().clone(), generated());
    let astar = AlgorithmParams::AstarPA(AstarPaParams {
        diagonal_transition: true,
        heuristic: String::from("{\"heuristic\":\"GCSH\"}"),
    });
    assert_eq!(astar.clone(), astar);
    assert_ne!(astar, AlgorithmParams::AstarNW(String::from("{\"heuristic\":\"GCSH\"}")));
    let other = Job { algo: astar, ..base() };
    assert!(other.clone().is_same_as(&other));
    assert!(other.clone().has_more_resources_than(&other));
    assert!(other.has_more_resources_than(&other.clone()));
}

#[test]
fn identity_ignores_resources() {
    assert!(base().is_same_as(&base()));
    assert!(base().is_same_as(&Job { time_limit: 1, mem_limit: 1, ..base() }));
    assert!(!base().is_same_as(&Job { traceback: false, ..base() }));
    assert!(!base().is_same_as(&Job { costs: CostModel::linear(1, 2), ..base() }));
    assert!(!base().is_same_as(&Job { algo: AlgorithmParams::Ksw2(Ksw2Params::default()), ..base() }));
    assert!(!base().is_same_as(&job(Dataset::File(String::from("a")))));
}

#[test]
fn same_input_ignores_aligner_and_output() {
    let other = Job {
        traceback: false,
        algo: AlgorithmParams::Ksw2(Ksw2Params::default()),
        time_limit: 1,
        ..base()
    };
    assert!(base().same_input(&other));
    assert!(!base().same_input(&Job { costs: CostModel::linear(1, 2), ..base() }));
    assert!(!base().same_input(&job(Dataset::File(String::from("a")))));
}

#[test]
fn resources_are_compared_one_by_one() {
    let more_time = Job { time_limit: 61, ..base() };
    let more_memory = Job { mem_limit: 1001, ..base() };
    assert!(base().has_more_resources_than(&base()));
    assert!(more_time.has_more_resources_than(&base()));
    assert!(!base().has_more_resources_than(&more_time));
    assert!(!more_time.has_more_resources_than(&more_memory));
    assert!(!more_memory.has_more_resources_than(&more_time));
}

#[test]
fn harder_datasets_are_larger() {
    let small = generated();
    assert!(small.is_larger_than(&small));
    assert!(GeneratedDataset { length: 1001, ..generated() }.is_larger_than(&small));
    assert!(GeneratedDataset { error_rate: 101, ..generated() }.is_larger_than(&small));
    assert!(GeneratedDataset { total_size: 1_000_001, ..generated() }.is_larger_than(&small));
    assert!(GeneratedDataset { seed: 9, prefix: String::from("x"), ..generated() }.is_larger_than(&small));
    assert!(!GeneratedDataset { length: 999, ..generated() }.is_larger_than(&small));
    assert!(!GeneratedDataset { error_rate: 99, ..generated() }.is_larger_than(&small));
    assert!(!GeneratedDataset { total_size: 999_999, ..generated() }.is_larger_than(&small));
    assert!(!GeneratedDataset { length: 2000, error_rate: 99, ..generated() }.is_larger_than(&small));
    assert!(!GeneratedDataset { error_model: String::from("NoisyInsert"), ..generated() }
        .is_larger_than(&small));
    assert!(!GeneratedDataset { pattern_length: Some(10), ..generated() }.is_larger_than(&small));
}

#[test]
fn larger_jobs_have_no_more_resources() {
    let harder = || job(Dataset::Generated(GeneratedDataset { length: 2000, ..generated() }));
    assert!(harder().is_larger(&base()));
    assert!(base().is_larger(&base()));
    assert!(!base().is_larger(&harder()));
    assert!(Job { time_limit: 59, mem_limit: 999, ..harder() }.is_larger(&base()));
    assert!(!Job { time_limit: 61, ..harder() }.is_larger(&base()));
    assert!(!Job { mem_limit: 1001, ..harder() }.is_larger(&base()));
    assert!(!Job { traceback: false, ..harder() }.is_larger(&base()));
    assert!(!Job { costs: CostModel::affine(1, 1, 1), ..harder() }.is_larger(&base()));
    assert!(!Job { algo: AlgorithmParams::Ksw2(Ksw2Params::default()), ..harder() }.is_larger(&base()));
    let file = job(Dataset::File(String::from("a.seq")));
    assert!(!file.is_larger(&file));
    assert!(!harder().is_larger(&file));
    assert!(!file.is_larger(&base()));
}

#[test]
fn generated_datasets_are_named_by_their_settings() {
    assert_eq!(generated().name("0.05"), "Uniform-t1000000-n1000-e0.05.seq");
    let other = GeneratedDataset {
        error_model: String::from("NoisyInsert"),
        total_size: 0,
        length: 7,
        ..generated()
    };
    assert_eq!(other.name("1"), "NoisyInsert-t0-n7-e1.seq");
    let (model, size, length, rate) = ("Uniform", 1_000_000usize, 1000usize, 0.2f32);
    assert_eq!(generated().name(&rate.to_string()), format!("{model}-t{size}-n{length}-e{rate}.seq"));
}
