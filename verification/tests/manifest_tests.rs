//! Manifest assembly rules: planned reads, RTA versions, raw read elements,
//! and the sequencing-status derivation.

use digestiflow::manifest::{
    get_status_sequencing, parse_version_major, planned_reads_from_cycles, reads_from_raw,
    select_rta_version, RawReadElem, RunInfo, RunParameters,
};
use digestiflow::reads::ReadDescription;
use digestiflow::IngestError;

fn rd(number: i32, num_cycles: i32, is_index: bool) -> ReadDescription {
    ReadDescription { number, num_cycles, is_index }
}

fn raw(number: &str, num_cycles: &str, is_indexed: &str) -> RawReadElem {
    RawReadElem {
        number: number.to_string(),
        num_cycles: num_cycles.to_string(),
        is_indexed: is_indexed.to_string(),
    }
}

fn run_info_with_reads(reads: Vec<ReadDescription>) -> RunInfo {
    RunInfo {
        run_id: "200101_M1_0042_FC1".to_string(),
        run_number: 42,
        flowcell: "FC1".to_string(),
        instrument: "M1".to_string(),
        date: "2020-01-01".to_string(),
        lane_count: 1,
        reads,
    }
}

fn run_params_with_planned(planned_reads: Vec<ReadDescription>) -> RunParameters {
    RunParameters {
        planned_reads,
        rta_version: "2.7.6".to_string(),
        run_number: 42,
        flowcell_slot: "A".to_string(),
        experiment_name: String::new(),
    }
}

#[test]
fn planned_reads_skip_zero_fields() {
    // The four-field scenario: the zero-cycle entry is omitted and the
    // numbers stay sequential.
    let planned = planned_reads_from_cycles(76, 8, 0, 76);
    assert_eq!(planned, vec![rd(1, 76, false), rd(2, 8, true), rd(3, 76, false)]);
}

#[test]
fn planned_reads_all_fields() {
    let planned = planned_reads_from_cycles(151, 8, 8, 151);
    assert_eq!(
        planned,
        vec![rd(1, 151, false), rd(2, 8, true), rd(3, 8, true), rd(4, 151, false)]
    );
}

#[test]
fn planned_reads_all_zero_is_empty() {
    assert_eq!(planned_reads_from_cycles(0, 0, 0, 0), Vec::new());
}

#[test]
fn rta_version_prefers_stripped_v3_field() {
    // `RtaVersion` (`v3.4.4`) loses its first character; the major is 3.
    let selected = select_rta_version("v3.4.4", "2.7.6");
    assert_eq!(selected, "3.4.4");
    assert_eq!(parse_version_major(&selected), Some(3));
}

#[test]
fn rta_version_falls_back_to_the_old_field() {
    let selected = select_rta_version("", "2.7.6");
    assert_eq!(selected, "2.7.6");
    assert_eq!(parse_version_major(&selected), Some(2));
}

#[test]
fn version_major_without_dot_is_whole_string() {
    assert_eq!(parse_version_major("3"), Some(3));
    assert_eq!(parse_version_major(""), None);
    assert_eq!(parse_version_major("x.2"), None);
}

#[test]
fn raw_reads_filter_and_flags() {
    let raws = vec![
        raw("1", "76", "N"),
        raw("2", "0", "Y"),
        raw("3", "8", "Y"),
    ];
    let reads = reads_from_raw(&raws).unwrap();
    assert_eq!(reads, vec![rd(1, 76, false), rd(3, 8, true)]);
}

#[test]
fn raw_reads_with_bad_attribute_fail() {
    let raws = vec![raw("1", "many", "N")];
    assert_eq!(reads_from_raw(&raws), Err(IngestError::ManifestParse));
    let raws = vec![raw("", "76", "N")];
    assert_eq!(reads_from_raw(&raws), Err(IngestError::ManifestParse));
}

#[test]
fn terminal_status_is_never_downgraded() {
    // Even with disagreeing reads and a completion marker, a terminal
    // status is returned unchanged.
    let info = run_info_with_reads(vec![rd(1, 76, false)]);
    let params = run_params_with_planned(vec![rd(1, 151, false)]);
    for terminal in ["closed", "failed", "complete"] {
        assert_eq!(get_status_sequencing(&info, &params, true, terminal), terminal);
        assert_eq!(get_status_sequencing(&info, &params, false, terminal), terminal);
    }
}

#[test]
fn disagreeing_planned_reads_fail_the_run() {
    let info = run_info_with_reads(vec![rd(1, 76, false)]);
    let params = run_params_with_planned(vec![rd(1, 151, false)]);
    assert_eq!(get_status_sequencing(&info, &params, false, "initial"), "failed");
}

#[test]
fn completion_marker_completes_the_run() {
    let reads = vec![rd(1, 76, false)];
    let info = run_info_with_reads(reads.clone());
    let params = run_params_with_planned(reads);
    assert_eq!(get_status_sequencing(&info, &params, true, "in_progress"), "complete");
}

#[test]
fn empty_planned_reads_do_not_fail_the_run() {
    let info = run_info_with_reads(vec![rd(1, 76, false)]);
    let params = run_params_with_planned(Vec::new());
    assert_eq!(get_status_sequencing(&info, &params, false, "initial"), "in_progress");
}
