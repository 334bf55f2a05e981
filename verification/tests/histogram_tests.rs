//! The histogram aggregator: per-cluster sequences, exact frequencies, the
//! threshold filter, and the whole-stack analysis.

use digestiflow::histogram::{analyze_stacks, counts_from_arrays, BclFile, LaneStack};
use digestiflow::stacks::BclLocator;
use digestiflow::IngestError;

fn hist_of(pairs: &[(&str, usize)]) -> Vec<(String, usize)> {
    pairs.iter().map(|(s, c)| (s.to_string(), *c)).collect()
}

#[test]
fn sequences_are_joined_in_cycle_order() {
    // Two cycles, four clusters: the sequences read down the columns.
    let arrays = vec![vec!['A', 'A', 'C', 'T'], vec!['C', 'C', 'C', 'T']];
    let ic = counts_from_arrays(&arrays, 1, 1, 0).unwrap();
    assert_eq!(ic.sample_size, 4);
    assert_eq!(ic.hist, hist_of(&[("AC", 2), ("CC", 1), ("TT", 1)]));
}

#[test]
fn filter_keeps_only_entries_above_the_threshold() {
    // With a 30% threshold only `AC` (2 of 4 = 50%) survives; `CC` and `TT`
    // sit at exactly 25%.
    let arrays = vec![vec!['A', 'A', 'C', 'T'], vec!['C', 'C', 'C', 'T']];
    let ic = counts_from_arrays(&arrays, 1, 1, 300000).unwrap();
    assert_eq!(ic.hist, hist_of(&[("AC", 2)]));
}

#[test]
fn filter_threshold_is_strict() {
    // A count exactly at the threshold is dropped: 2 of 4 is not more than
    // 50%.
    let arrays = vec![vec!['A', 'A', 'C', 'C']];
    let ic = counts_from_arrays(&arrays, 1, 1, 500000).unwrap();
    assert_eq!(ic.hist, Vec::<(String, usize)>::new());
}

#[test]
fn emitted_numbers_are_passed_through() {
    let arrays = vec![vec!['G']];
    let ic = counts_from_arrays(&arrays, 2, 7, 0).unwrap();
    assert_eq!(ic.index_no, 2);
    assert_eq!(ic.lane_no, 7);
    assert_eq!(ic.sample_size, 1);
    assert_eq!(ic.hist, hist_of(&[("G", 1)]));
}

#[test]
fn disagreeing_array_lengths_fail() {
    let arrays = vec![vec!['A', 'C'], vec!['G']];
    assert_eq!(
        counts_from_arrays(&arrays, 1, 1, 0).map(|_| ()),
        Err(IngestError::StackLengthMismatch)
    );
}

fn plain_file(name: &str, bytes: &[u8]) -> BclFile {
    let mut data = (bytes.len() as u32).to_le_bytes().to_vec();
    data.extend_from_slice(bytes);
    BclFile { locator: BclLocator { path: name.to_string(), cbcl_tile: None }, data }
}

#[test]
fn whole_stack_analysis_emits_one_histogram_per_lane() {
    // Lane 1: clusters `CG`, `CG`; lane 2: clusters `TT`.
    let lanes = vec![
        LaneStack {
            lane_no: 1,
            files: vec![
                plain_file("c1.bcl", &[0x01, 0x01]),
                plain_file("c2.bcl", &[0x02, 0x02]),
            ],
        },
        LaneStack {
            lane_no: 2,
            files: vec![plain_file("c1.bcl", &[0x03]), plain_file("c2.bcl", &[0x03])],
        },
    ];
    let counts = analyze_stacks(&lanes, 1, 0, 0).unwrap();
    assert_eq!(counts.len(), 2);
    assert_eq!(counts[0].lane_no, 1);
    assert_eq!(counts[0].index_no, 1);
    assert_eq!(counts[0].sample_size, 2);
    assert_eq!(counts[0].hist, hist_of(&[("CG", 2)]));
    assert_eq!(counts[1].lane_no, 2);
    assert_eq!(counts[1].sample_size, 1);
    assert_eq!(counts[1].hist, hist_of(&[("TT", 1)]));
}

#[test]
fn whole_stack_analysis_reports_length_mismatch() {
    let lanes = vec![LaneStack {
        lane_no: 1,
        files: vec![plain_file("c1.bcl", &[0x01, 0x01]), plain_file("c2.bcl", &[0x02])],
    }];
    assert_eq!(
        analyze_stacks(&lanes, 1, 0, 0).map(|_| ()),
        Err(IngestError::StackLengthMismatch)
    );
}

#[test]
fn whole_stack_analysis_reports_broken_files() {
    let lanes = vec![LaneStack {
        lane_no: 1,
        files: vec![BclFile {
            locator: BclLocator { path: "c1.bcl".to_string(), cbcl_tile: None },
            data: vec![1, 0],
        }],
    }];
    assert_eq!(analyze_stacks(&lanes, 1, 0, 0).map(|_| ()), Err(IngestError::IoError));
}
