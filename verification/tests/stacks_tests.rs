//! The stack planner and the seeded tile-stack selection.

use digestiflow::reads::ReadDescription;
use digestiflow::stacks::{
    choose_stack_no, find_file_stacks, index_read_plan, sample_adapters_plan, IndexRead,
    LaneDirectory,
};
use digestiflow::{FolderLayout, IngestError};

fn rd(number: i32, num_cycles: i32, is_index: bool) -> ReadDescription {
    ReadDescription { number, num_cycles, is_index }
}

fn lane(path: &str, prototypes: &[&str]) -> LaneDirectory {
    LaneDirectory {
        path: path.to_string(),
        prototypes: prototypes.iter().map(|p| p.to_string()).collect(),
    }
}

#[test]
fn miniseq_plan_names_zero_padded_cycle_files() {
    let lanes = vec![lane("Data/Intensities/BaseCalls/L001", &[]), lane(
        "Data/Intensities/BaseCalls/L002",
        &[],
    )];
    let desc = rd(2, 2, true);
    let stacks = find_file_stacks(FolderLayout::MiniSeq, &desc, &lanes, 77).unwrap();
    assert_eq!(stacks.len(), 2);
    assert_eq!(stacks[0].len(), 1);
    assert_eq!(stacks[0][0].lane_no, 1);
    assert_eq!(stacks[1][0].lane_no, 2);
    let paths: Vec<&str> = stacks[0][0].paths.iter().map(|l| l.path.as_str()).collect();
    assert_eq!(
        paths,
        vec![
            "Data/Intensities/BaseCalls/L001/0077.bcl.bgzf",
            "Data/Intensities/BaseCalls/L001/0078.bcl.bgzf",
        ]
    );
    assert!(stacks[0][0].paths.iter().all(|l| l.cbcl_tile.is_none()));
}

#[test]
fn miseq_plan_names_per_cycle_directories() {
    let lanes = vec![lane("L001", &["s_1_1101.bcl", "s_1_1102.bcl.gz"])];
    let desc = rd(2, 2, true);
    let stacks = find_file_stacks(FolderLayout::MiSeq, &desc, &lanes, 77).unwrap();
    assert_eq!(stacks[0].len(), 2);
    let first: Vec<&str> = stacks[0][0].paths.iter().map(|l| l.path.as_str()).collect();
    assert_eq!(first, vec!["L001/C77.1/s_1_1101.bcl", "L001/C78.1/s_1_1101.bcl"]);
    let second: Vec<&str> = stacks[0][1].paths.iter().map(|l| l.path.as_str()).collect();
    assert_eq!(second, vec!["L001/C77.1/s_1_1102.bcl.gz", "L001/C78.1/s_1_1102.bcl.gz"]);
    assert!(stacks[0][0].paths.iter().all(|l| l.cbcl_tile.is_none()));
}

#[test]
fn novaseq_plan_points_into_the_first_cbcl_tile() {
    let lanes = vec![lane("L001", &["L001_1.cbcl"])];
    let desc = rd(2, 1, true);
    let stacks = find_file_stacks(FolderLayout::NovaSeq, &desc, &lanes, 151).unwrap();
    assert_eq!(stacks[0].len(), 1);
    assert_eq!(stacks[0][0].paths.len(), 1);
    assert_eq!(stacks[0][0].paths[0].path, "L001/C151.1/L001_1.cbcl");
    assert_eq!(stacks[0][0].paths[0].cbcl_tile, Some(0));
}

#[test]
fn hiseqx_plan_is_unsupported() {
    let lanes = vec![lane("L001", &[])];
    let desc = rd(2, 1, true);
    assert_eq!(
        find_file_stacks(FolderLayout::HiSeqX, &desc, &lanes, 1).map(|_| ()),
        Err(IngestError::LayoutUnsupported)
    );
}

#[test]
fn stack_choice_is_reproducible() {
    // For a fixed seed and stack count the drawn index is the same on
    // every call.
    let first = choose_stack_no(42, 5).unwrap();
    let second = choose_stack_no(42, 5).unwrap();
    assert_eq!(first, second);
    assert!(first < 5);
}

#[test]
fn stack_choice_needs_a_stack() {
    assert_eq!(choose_stack_no(42, 0), None);
    assert_eq!(choose_stack_no(7, 1), Some(0));
}

#[test]
fn index_plan_walks_cycles_from_one() {
    // The driver discards the first cycle: read one starts at cycle 1 and
    // the first index read begins right after the 76 template cycles.
    let reads = vec![rd(1, 76, false), rd(2, 8, true), rd(3, 8, true), rd(4, 76, false)];
    let plan = index_read_plan(&reads);
    assert_eq!(
        plan,
        vec![
            IndexRead { index_no: 1, start_cycle: 77, num_cycles: 8 },
            IndexRead { index_no: 2, start_cycle: 85, num_cycles: 8 },
        ]
    );
}

#[test]
fn index_plan_without_index_reads_is_empty() {
    let reads = vec![rd(1, 76, false)];
    assert_eq!(index_read_plan(&reads), Vec::new());
}

#[test]
fn sampling_plan_picks_the_same_position_in_every_lane() {
    let lanes = vec![
        lane("L001", &["s_1_1101.bcl", "s_1_1102.bcl"]),
        lane("L002", &["s_2_1101.bcl", "s_2_1102.bcl"]),
    ];
    let desc = rd(2, 1, true);
    let chosen = sample_adapters_plan(FolderLayout::MiSeq, &desc, &lanes, 77, 42).unwrap();
    assert_eq!(chosen.len(), 2);
    assert_eq!(chosen[0].lane_no, 1);
    assert_eq!(chosen[1].lane_no, 2);
    // Both lanes use the same prototype position.
    let leaf0 = chosen[0].paths[0].path.rsplit('/').next().unwrap().to_string();
    let leaf1 = chosen[1].paths[0].path.rsplit('/').next().unwrap().to_string();
    assert_eq!(leaf0.replace("s_1", "s_x"), leaf1.replace("s_2", "s_x"));
    // And the choice is reproducible.
    let again = sample_adapters_plan(FolderLayout::MiSeq, &desc, &lanes, 77, 42).unwrap();
    assert_eq!(again[0].paths[0].path, chosen[0].paths[0].path);
}

#[test]
fn sampling_plan_fails_on_a_short_lane() {
    let lanes = vec![lane("L001", &["s_1_1101.bcl", "s_1_1102.bcl"]), lane("L002", &[])];
    let desc = rd(2, 1, true);
    // Whatever position the seed picks, the second lane has no stack at it.
    assert_eq!(
        sample_adapters_plan(FolderLayout::MiSeq, &desc, &lanes, 77, 42).map(|_| ()),
        Err(IngestError::IoError)
    );
}
