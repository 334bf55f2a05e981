//! The layout detector: rule order and determinism over marker files.

use digestiflow::{guess_folder_layout, FolderLayout, IngestError, LayoutMarkers};

fn no_markers() -> LayoutMarkers {
    LayoutMarkers {
        basecalls_l001: false,
        basecalls_l001_c11: false,
        l001_cbcl: false,
        s_locs: false,
        run_parameters_lower: false,
        run_parameters_upper: false,
    }
}

#[test]
fn miseq_markers_give_miseq() {
    // The first end-to-end scenario: `C1.1` plus lowercase `runParameters.xml`.
    let m = LayoutMarkers {
        basecalls_l001_c11: true,
        run_parameters_lower: true,
        ..no_markers()
    };
    assert_eq!(guess_folder_layout(m), Ok(FolderLayout::MiSeq));
}

#[test]
fn miniseq_markers_give_miniseq() {
    let m = LayoutMarkers { basecalls_l001: true, run_parameters_upper: true, ..no_markers() };
    assert_eq!(guess_folder_layout(m), Ok(FolderLayout::MiniSeq));
}

#[test]
fn hiseqx_markers_give_hiseqx() {
    let m = LayoutMarkers { s_locs: true, run_parameters_upper: true, ..no_markers() };
    assert_eq!(guess_folder_layout(m), Ok(FolderLayout::HiSeqX));
}

#[test]
fn novaseq_wins_over_every_other_rule() {
    let m = LayoutMarkers {
        basecalls_l001: true,
        basecalls_l001_c11: true,
        l001_cbcl: true,
        s_locs: true,
        run_parameters_lower: true,
        run_parameters_upper: true,
    };
    assert_eq!(guess_folder_layout(m), Ok(FolderLayout::NovaSeq));
}

#[test]
fn cbcl_without_upper_parameters_is_not_novaseq() {
    let m = LayoutMarkers { l001_cbcl: true, ..no_markers() };
    assert_eq!(guess_folder_layout(m), Err(IngestError::LayoutUnknown));
}

#[test]
fn no_markers_is_unknown() {
    assert_eq!(guess_folder_layout(no_markers()), Err(IngestError::LayoutUnknown));
}

#[test]
fn classification_is_deterministic() {
    // The detector is a pure function of the marker flags.
    let m = LayoutMarkers { basecalls_l001: true, run_parameters_upper: true, ..no_markers() };
    assert_eq!(guess_folder_layout(m), guess_folder_layout(m));
}
