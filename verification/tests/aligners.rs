use pa_bench::algorithms::{
    band_doubling_enabled, default_heuristic, default_memory_model, AlgorithmParams,
    AstarPaParams, BlockAlignerParams, BlockAlignerSize, EdlibParams, Heuristic, Ksw2Method,
    Ksw2Params, MemoryModel, ParasailStripedParams, Refusal, TripleAccelParams, WfaParams,
};
use pa_bench::backends::{
    edlib_op, ksw2_decode, ksw2_encode, ksw2_gaps, ksw2_score_matrix, wfa_cost, wfa_penalties,
    WfaPenalties,
};
use pa_bench::cigar::{CigarElem, CigarOp};
use pa_bench::cost::CostModel;
use pa_bench::edit_distance::{
    alignment_of, cigar_of_edits, AlignError, BuildError, Edit, EditType, MAX_LEN,
};

fn wfa(memory_model: MemoryModel, heuristic: Heuristic) -> AlgorithmParams {
    AlgorithmParams::Wfa(WfaParams { memory_model, heuristic })
}

#[test]
fn cost_models_are_told_apart() {
    assert!(CostModel::unit().is_unit());
    assert!(CostModel::unit().is_linear());
    assert!(!CostModel::unit().is_affine());
    assert_eq!(CostModel::linear(3, 2), CostModel { sub: 3, open: 0, extend: 2 });
    assert!(CostModel::linear(3, 2).is_linear());
    assert!(!CostModel::linear(3, 2).is_unit());
    assert_eq!(CostModel::affine(4, 6, 2), CostModel { sub: 4, open: 6, extend: 2 });
    assert!(CostModel::affine(4, 6, 2).is_affine());
    assert!(!CostModel::affine(4, 6, 2).is_linear());
}

#[test]
fn defaults_are_as_documented() {
    assert!(band_doubling_enabled());
    assert_eq!(Ksw2Method::default(), Ksw2Method::GlobalSuzukiSse);
    assert_eq!(
        Ksw2Params::default(),
        Ksw2Params { method: Ksw2Method::GlobalSuzukiSse, band_doubling: true }
    );
    assert_eq!(default_memory_model(), MemoryModel::MemoryUltraLow);
    assert_eq!(default_heuristic(), Heuristic::Disabled);
    assert_eq!(
        WfaParams::default(),
        WfaParams { memory_model: MemoryModel::MemoryUltraLow, heuristic: Heuristic::Disabled }
    );
}

#[test]
fn exactness_of_each_aligner() {
    let astar_pa = AstarPaParams { diagonal_transition: true, heuristic: String::from("GCSH") };
    assert!(AlgorithmParams::AstarNW(String::new()).is_exact());
    assert!(AlgorithmParams::AstarPA(astar_pa).is_exact());
    assert!(AlgorithmParams::Edlib(EdlibParams).is_exact());
    assert!(AlgorithmParams::Ksw2(Ksw2Params::default()).is_exact());
    assert!(AlgorithmParams::TripleAccel(TripleAccelParams).is_exact());
    assert!(!AlgorithmParams::ParasailStriped(ParasailStripedParams).is_exact());
    let block = BlockAlignerParams { size: BlockAlignerSize::Size(32, 64) };
    assert!(!AlgorithmParams::BlockAligner(block).is_exact());
    assert!(wfa(MemoryModel::MemoryHigh, Heuristic::Disabled).is_exact());
    assert!(!wfa(MemoryModel::MemoryHigh, Heuristic::BandedStatic(-10, 10)).is_exact());
}

#[test]
fn every_refusal_has_an_input() {
    let unit = CostModel::unit();
    let linear = CostModel::linear(2, 3);
    let affine = CostModel::affine(2, 3, 1);
    let astar_pa = || {
        AlgorithmParams::AstarPA(AstarPaParams {
            diagonal_transition: false,
            heuristic: String::from("SH"),
        })
    };
    let block =
        AlgorithmParams::BlockAligner(BlockAlignerParams { size: BlockAlignerSize::Size(32, 64) });
    assert_eq!(AlgorithmParams::AstarNW(String::new()).check(linear, true), Err(Refusal::AstarNwCosts));
    assert_eq!(AlgorithmParams::AstarNW(String::new()).check(unit, false), Ok(()));
    assert_eq!(astar_pa().check(unit, false), Err(Refusal::AstarPaTrace));
    assert_eq!(astar_pa().check(affine, false), Err(Refusal::AstarPaTrace));
    assert_eq!(astar_pa().check(affine, true), Err(Refusal::AstarPaCosts));
    assert_eq!(astar_pa().check(unit, true), Ok(()));
    assert_eq!(block.check(linear, false), Err(Refusal::BlockAlignerCosts));
    assert_eq!(block.check(affine, true), Ok(()));
    assert_eq!(AlgorithmParams::Edlib(EdlibParams).check(affine, false), Err(Refusal::EdlibCosts));
    assert_eq!(AlgorithmParams::Edlib(EdlibParams).check(unit, true), Ok(()));
    assert_eq!(AlgorithmParams::Ksw2(Ksw2Params::default()).check(affine, true), Ok(()));
    let parasail = AlgorithmParams::ParasailStriped(ParasailStripedParams);
    assert_eq!(parasail.check(affine, true), Err(Refusal::ParasailTrace));
    assert_eq!(parasail.check(affine, false), Ok(()));
    let triple_accel = AlgorithmParams::TripleAccel(TripleAccelParams);
    assert_eq!(triple_accel.check(affine, true), Err(Refusal::TripleAccelAffineTrace));
    assert_eq!(triple_accel.check(affine, false), Ok(()));
    assert_eq!(triple_accel.check(linear, true), Ok(()));
    let high = wfa(MemoryModel::MemoryHigh, Heuristic::Disabled);
    let low = wfa(MemoryModel::MemoryUltraLow, Heuristic::Disabled);
    assert_eq!(high.check(unit, false), Err(Refusal::WfaMemoryModel));
    assert_eq!(high.check(unit, true), Ok(()));
    assert_eq!(low.check(CostModel::affine(1, -1, 1), false), Err(Refusal::WfaCosts));
    assert_eq!(low.check(affine, false), Ok(()));
}

#[test]
fn triple_accel_is_built_for_costs_in_range() {
    let params = TripleAccelParams;
    assert!(params.is_exact());
    assert!(params.build(CostModel::unit(), true, 100).is_ok());
    assert!(params.build(CostModel::affine(1, 255, 255), false, 100).is_ok());
    assert_eq!(
        params.build(CostModel::affine(1, 2, 1), true, 100).err(),
        Some(BuildError::Unsupported(Refusal::TripleAccelAffineTrace))
    );
    assert_eq!(
        params.build(CostModel::linear(0, 1), true, 100).err(),
        Some(BuildError::CostOutOfRange)
    );
    assert_eq!(
        params.build(CostModel::linear(1, 256), false, 100).err(),
        Some(BuildError::CostOutOfRange)
    );
    assert_eq!(
        params.build(CostModel::affine(1, 256, 1), false, 100).err(),
        Some(BuildError::CostOutOfRange)
    );
}

#[test]
fn triple_accel_aligns_with_unit_costs() {
    let mut aligner = TripleAccelParams.build(CostModel::unit(), true, 3).unwrap();
    let (cost, cigar) = aligner.align(b"abc", b"ab").unwrap();
    assert_eq!(cost, 1);
    assert_eq!(
        cigar.unwrap().ops,
        vec![
            CigarElem { op: CigarOp::Match, cnt: 2 },
            CigarElem { op: CigarOp::Del, cnt: 1 },
        ]
    );
    let (cost, cigar) = aligner.align(b"ACGT", b"ACGT").unwrap();
    assert_eq!(cost, 0);
    assert_eq!(cigar.unwrap().ops, vec![CigarElem { op: CigarOp::Match, cnt: 4 }]);
    let (cost, cigar) = aligner.align(b"", b"").unwrap();
    assert_eq!(cost, 0);
    assert_eq!(cigar.unwrap().ops, vec![]);
}

#[test]
fn triple_accel_gives_cost_alone_without_trace() {
    let mut aligner = TripleAccelParams.build(CostModel::affine(2, 3, 1), false, 8).unwrap();
    let (cost, cigar) = aligner.align(b"ACGTACGT", b"ACGAACGT").unwrap();
    assert_eq!(cost, 2);
    assert!(cigar.is_none());
    let (cost, cigar) = aligner.align(b"ACGTACGT", b"ACGTAACGT").unwrap();
    assert_eq!(cost, 4);
    assert!(cigar.is_none());
}

#[test]
fn triple_accel_doubles_its_bound() {
    // The sequences differ everywhere: the cost of 100 is beyond the first
    // two bounds of 30 and 60.
    let a = vec![b'A'; 100];
    let b = vec![b'C'; 100];
    let mut aligner = TripleAccelParams.build(CostModel::unit(), false, 100).unwrap();
    assert_eq!(aligner.align(&a, &b).unwrap().0, 100);
}

#[test]
fn long_sequences_are_refused() {
    let long = vec![b'A'; MAX_LEN + 1];
    let mut aligner = TripleAccelParams.build(CostModel::unit(), false, MAX_LEN + 1).unwrap();
    assert_eq!(aligner.align(&long, b"A").err(), Some(AlignError::TooLong));
    assert_eq!(aligner.align(b"A", &long).err(), Some(AlignError::TooLong));
}

#[test]
fn edits_become_cigar_runs() {
    let edits = vec![
        Edit { edit: EditType::Match, count: 5 },
        Edit { edit: EditType::Mismatch, count: 1 },
        Edit { edit: EditType::AGap, count: 2 },
        Edit { edit: EditType::BGap, count: 3 },
    ];
    assert_eq!(
        cigar_of_edits(&edits).unwrap().ops,
        vec![
            CigarElem { op: CigarOp::Match, cnt: 5 },
            CigarElem { op: CigarOp::Sub, cnt: 1 },
            CigarElem { op: CigarOp::Ins, cnt: 2 },
            CigarElem { op: CigarOp::Del, cnt: 3 },
        ]
    );
    assert_eq!(cigar_of_edits(&vec![]).unwrap().ops, vec![]);
}

#[test]
fn edits_without_a_cigar_run_are_errors() {
    let transposed =
        vec![Edit { edit: EditType::Match, count: 1 }, Edit { edit: EditType::Transpose, count: 1 }];
    assert_eq!(cigar_of_edits(&transposed).err(), Some(AlignError::Transposition));
    let long = vec![Edit { edit: EditType::Match, count: i32::MAX as usize + 1 }];
    assert_eq!(cigar_of_edits(&long).err(), Some(AlignError::RunOverflow));
    let longest = vec![Edit { edit: EditType::Match, count: i32::MAX as usize }];
    assert_eq!(cigar_of_edits(&longest).unwrap().ops[0].cnt, i32::MAX);
    let both =
        vec![Edit { edit: EditType::AGap, count: usize::MAX }, Edit { edit: EditType::Transpose, count: 1 }];
    assert_eq!(cigar_of_edits(&both).err(), Some(AlignError::RunOverflow));
}

#[test]
fn found_alignments_are_converted() {
    assert_eq!(alignment_of(7, None).unwrap().0, 7);
    assert!(alignment_of(7, None).unwrap().1.is_none());
    assert_eq!(alignment_of(i32::MAX as u32, None).unwrap().0, i32::MAX);
    assert_eq!(alignment_of(i32::MAX as u32 + 1, None).err(), Some(AlignError::CostOverflow));
    let (cost, cigar) = alignment_of(2, Some(vec![Edit { edit: EditType::Mismatch, count: 2 }])).unwrap();
    assert_eq!(cost, 2);
    assert_eq!(cigar.unwrap().ops, vec![CigarElem { op: CigarOp::Sub, cnt: 2 }]);
    assert_eq!(
        alignment_of(2, Some(vec![Edit { edit: EditType::Transpose, count: 1 }])).err(),
        Some(AlignError::Transposition)
    );
}

#[test]
fn ksw2_gets_its_tables() {
    let m = ksw2_score_matrix(3).unwrap();
    let expected: Vec<i8> = vec![
         0, -3, -3, -3, 0,
        -3,  0, -3, -3, 0,
        -3, -3,  0, -3, 0,
        -3, -3, -3,  0, 0,
         0,  0,  0,  0, 0,
    ];
    assert_eq!(m, expected);
    assert_eq!(ksw2_score_matrix(128).unwrap()[1], -128);
    assert_eq!(ksw2_score_matrix(-127).unwrap()[1], 127);
    assert_eq!(ksw2_score_matrix(129), None);
    assert_eq!(ksw2_score_matrix(-128), None);
    assert_eq!(ksw2_encode(b"ACGTNacgt"), vec![0, 1, 2, 3, 0, 0, 0, 0, 0]);
    assert_eq!(ksw2_encode(b""), Vec::<u8>::new());
    assert_eq!(ksw2_gaps(CostModel::affine(1, 6, 2)), Some((6, 2)));
    assert_eq!(ksw2_gaps(CostModel::affine(1, 127, -128)), Some((127, -128)));
    assert_eq!(ksw2_gaps(CostModel::affine(1, 128, 2)), None);
    assert_eq!(ksw2_gaps(CostModel::affine(1, 6, -129)), None);
}

#[test]
fn ksw2_runs_are_decoded() {
    let runs = [5 << 4, (3 << 4) | 1, (2 << 4) | 2, (7 << 4) | 7, (1 << 4) | 8];
    assert_eq!(
        ksw2_decode(&runs),
        Ok(vec![
            CigarElem { op: CigarOp::Match, cnt: 5 },
            CigarElem { op: CigarOp::Del, cnt: 3 },
            CigarElem { op: CigarOp::Ins, cnt: 2 },
            CigarElem { op: CigarOp::Match, cnt: 7 },
            CigarElem { op: CigarOp::Sub, cnt: 1 },
        ])
    );
    assert_eq!(ksw2_decode(&[]), Ok(vec![]));
    assert_eq!(ksw2_decode(&[16, 17, 19, 20]), Err(2));
    assert_eq!(ksw2_decode(&[u32::MAX & !15]).unwrap()[0].cnt, (u32::MAX / 16) as i32);
}

#[test]
fn edlib_steps_are_decoded() {
    assert_eq!(edlib_op(0), Some(CigarOp::Match));
    assert_eq!(edlib_op(1), Some(CigarOp::Del));
    assert_eq!(edlib_op(2), Some(CigarOp::Ins));
    assert_eq!(edlib_op(3), Some(CigarOp::Sub));
    assert_eq!(edlib_op(4), None);
    assert_eq!(edlib_op(255), None);
}

#[test]
fn wavefront_penalties_follow_the_cost_model() {
    assert_eq!(wfa_penalties(CostModel::unit()), Some(WfaPenalties::Edit));
    assert_eq!(
        wfa_penalties(CostModel::linear(2, 3)),
        Some(WfaPenalties::Linear { sub: 2, extend: 3 })
    );
    assert_eq!(
        wfa_penalties(CostModel::affine(2, 4, 3)),
        Some(WfaPenalties::Affine { sub: 2, open: 4, extend: 3 })
    );
    assert_eq!(wfa_penalties(CostModel::affine(2, -1, 3)), None);
    assert_eq!(wfa_cost(WfaPenalties::Edit, 7), Some(7));
    assert_eq!(wfa_cost(WfaPenalties::Linear { sub: 2, extend: 3 }, -7), Some(7));
    assert_eq!(wfa_cost(WfaPenalties::Affine { sub: 2, open: 4, extend: 3 }, -12), Some(12));
    assert_eq!(wfa_cost(WfaPenalties::Linear { sub: 2, extend: 3 }, i32::MIN), None);
    assert_eq!(wfa_cost(WfaPenalties::Edit, i32::MIN), Some(i32::MIN));
}
