use pa_bench::cigar::{CigarElem, CigarOp};
use pa_bench::gaps::{largest_surplus, measure_steps, Steps};
use pa_bench::tally::{Extent, Tally};

fn run(op: CigarOp, cnt: i32) -> CigarElem {
    CigarElem { op, cnt }
}

/// The largest surplus by trying every stretch.
fn by_trying_all(ops: &[CigarElem], kind: CigarOp) -> i128 {
    let mut best = 0i128;
    for i in 0..=ops.len() {
        let mut sum = 0i128;
        for run in &ops[i..] {
            sum += if run.op == kind { run.cnt as i128 } else { -(run.cnt as i128) };
            best = best.max(sum);
        }
    }
    best
}

/// The largest gap by keeping two running counts.
fn by_running_counts(ops: &[CigarElem]) -> usize {
    let (mut largest, mut ins, mut dels) = (0usize, 0usize, 0usize);
    for run in ops {
        let cnt = run.cnt as usize;
        match run.op {
            CigarOp::Ins => {
                ins += cnt;
                largest = largest.max(ins);
                dels = dels.saturating_sub(cnt);
            }
            CigarOp::Del => {
                dels += cnt;
                largest = largest.max(dels);
                ins = ins.saturating_sub(cnt);
            }
            _ => {
                ins = ins.saturating_sub(cnt);
                dels = dels.saturating_sub(cnt);
            }
        }
    }
    largest
}

#[test]
fn steps_are_counted() {
    let ops = vec![
        run(CigarOp::Match, 10),
        run(CigarOp::Sub, 1),
        run(CigarOp::Ins, 3),
        run(CigarOp::Match, 1),
        run(CigarOp::Ins, 2),
        run(CigarOp::Match, 5),
        run(CigarOp::Del, 4),
        run(CigarOp::Sub, 2),
    ];
    assert_eq!(
        measure_steps(&ops),
        Some(Steps { matches: 16, substitutions: 3, insertions: 5, deletions: 4, largest_gap: 4 })
    );
    assert_eq!(largest_surplus(&ops, CigarOp::Ins), Some(4));
    assert_eq!(largest_surplus(&ops, CigarOp::Del), Some(4));
    assert_eq!(largest_surplus(&ops, CigarOp::Match), Some(10));
    assert_eq!(largest_surplus(&ops, CigarOp::Sub), Some(2));
}

#[test]
fn empty_alignment_has_no_gap() {
    assert_eq!(
        measure_steps(&vec![]),
        Some(Steps { matches: 0, substitutions: 0, insertions: 0, deletions: 0, largest_gap: 0 })
    );
    assert_eq!(measure_steps(&vec![run(CigarOp::Match, 7)]).unwrap().largest_gap, 0);
}

#[test]
fn matches_inside_a_gap_do_not_split_it() {
    let ops = vec![run(CigarOp::Del, 50), run(CigarOp::Match, 2), run(CigarOp::Del, 50)];
    assert_eq!(measure_steps(&ops).unwrap().largest_gap, 98);
    let split = vec![run(CigarOp::Del, 50), run(CigarOp::Match, 60), run(CigarOp::Del, 50)];
    assert_eq!(measure_steps(&split).unwrap().largest_gap, 50);
}

#[test]
fn negative_runs_have_no_answer() {
    let ops = vec![run(CigarOp::Match, 3), run(CigarOp::Ins, -1)];
    assert_eq!(measure_steps(&ops), None);
    assert_eq!(largest_surplus(&ops, CigarOp::Ins), None);
    assert_eq!(largest_surplus(&vec![run(CigarOp::Del, i32::MIN)], CigarOp::Ins), None);
}

#[test]
fn long_runs_do_not_overflow() {
    let ops = vec![run(CigarOp::Ins, i32::MAX); 5];
    assert_eq!(measure_steps(&ops).unwrap().largest_gap, 5 * i32::MAX as u128);
    assert_eq!(measure_steps(&ops).unwrap().insertions, 5 * i32::MAX as u128);
}

#[test]
fn largest_gap_agrees_with_other_ways_to_find_it() {
    let kinds = [CigarOp::Match, CigarOp::Sub, CigarOp::Ins, CigarOp::Del];
    // A fixed pseudo-random walk over kinds and lengths.
    let mut state = 0x2545_f491_4f6c_dd1du64;
    for _ in 0..200 {
        let mut ops = Vec::new();
        for _ in 0..(state % 12) {
            state ^= state << 13;
            state ^= state >> 7;
            state ^= state << 17;
            ops.push(run(kinds[(state % 4) as usize], ((state >> 8) % 9) as i32));
        }
        state = state.wrapping_mul(6364136223846793005).wrapping_add(1442695040888963407);
        let steps = measure_steps(&ops).unwrap();
        let ins = by_trying_all(&ops, CigarOp::Ins);
        let del = by_trying_all(&ops, CigarOp::Del);
        assert_eq!(steps.largest_gap as i128, ins.max(del));
        assert_eq!(steps.largest_gap as usize, by_running_counts(&ops));
        for kind in kinds {
            assert_eq!(largest_surplus(&ops, kind).unwrap() as i128, by_trying_all(&ops, kind));
        }
    }
}

#[test]
fn extents_are_merged() {
    let mut extent = Extent::new(5);
    assert_eq!(extent, Extent { min: 5, max: 5 });
    extent.merge(Extent::new(9));
    assert_eq!(extent, Extent { min: 5, max: 9 });
    extent.merge(Extent { min: 1, max: 3 });
    assert_eq!(extent, Extent { min: 1, max: 9 });
    extent.merge(Extent { min: 2, max: 20 });
    assert_eq!(extent, Extent { min: 1, max: 20 });
}

#[test]
fn counts_are_added() {
    let mut counts = Tally {
        files: 1,
        seq_pairs: 10,
        total_bases: 2000,
        edit_distance: 30,
        substitutions: 10,
        insertions: 12,
        deletions: 8,
    };
    let more = Tally {
        files: 2,
        seq_pairs: 5,
        total_bases: 1000,
        edit_distance: 3,
        substitutions: 1,
        insertions: 1,
        deletions: 1,
    };
    assert!(counts.merge(more));
    assert_eq!(
        counts,
        Tally {
            files: 3,
            seq_pairs: 15,
            total_bases: 3000,
            edit_distance: 33,
            substitutions: 11,
            insertions: 13,
            deletions: 9,
        }
    );
    let before = counts;
    assert!(!counts.merge(Tally { total_bases: usize::MAX, ..more }));
    assert_eq!(counts, before);
    assert!(!counts.merge(Tally { deletions: usize::MAX - 8, ..more }));
    assert_eq!(counts, before);
    assert!(counts.merge(Tally { deletions: usize::MAX - 9, ..more }));
    assert_eq!(counts.deletions, usize::MAX);
}
