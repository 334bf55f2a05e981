//! The layout detector: classifies a run directory by its marker files.

use vstd::prelude::*;
use crate::errors::IngestError;

verus! {

/// The marker files whose existence decides the folder layout.
///
/// The caller tests each path below the run directory and hands the flags in;
/// the classification itself never touches the disk.
#[derive(Clone, Copy, PartialEq, Eq, Structural, Debug)]
pub struct LayoutMarkers {
    /// `Data/Intensities/BaseCalls/L001` exists.
    pub basecalls_l001: bool,
    /// `Data/Intensities/BaseCalls/L001/C1.1` exists.
    pub basecalls_l001_c11: bool,
    /// `Data/Intensities/BaseCalls/L001/C1.1/L001_1.cbcl` or `.../L001_2.cbcl` exists.
    pub l001_cbcl: bool,
    /// `Data/Intensities/s.locs` exists.
    pub s_locs: bool,
    /// `runParameters.xml` (lowercase leading `r`) exists.
    pub run_parameters_lower: bool,
    /// `RunParameters.xml` exists.
    pub run_parameters_upper: bool,
}

/// The instrument families whose directory conventions the library understands.
#[derive(Clone, Copy, PartialEq, Eq, Structural, Debug)]
pub enum FolderLayout {
    /// MiSeq, HiSeq 2000 and kin: `runParameters.xml`, one `C<cycle>.1` directory per cycle.
    MiSeq,
    /// MiniSeq, NextSeq and kin: `RunParameters.xml`, one `.bcl.bgzf` file per cycle.
    MiniSeq,
    /// HiSeq X: recognized, but its base calls cannot be sampled.
    HiSeqX,
    /// NovaSeq: `RunParameters.xml` and CBCL containers.
    NovaSeq,
}

/// Which layout the marker files decide, evaluated in rule order, or `None`
/// when no rule matches.
pub open spec fn spec_guess_folder_layout(m: LayoutMarkers) -> Option<FolderLayout> {
    if m.run_parameters_upper && m.l001_cbcl {
        Some(FolderLayout::NovaSeq)
    } else if m.basecalls_l001_c11 && m.run_parameters_lower {
        Some(FolderLayout::MiSeq)
    } else if m.basecalls_l001 && m.run_parameters_upper {
        Some(FolderLayout::MiniSeq)
    } else if m.s_locs && m.run_parameters_upper {
        Some(FolderLayout::HiSeqX)
    } else {
        None
    }
}

/// Classify a run directory from its marker files, the first rule that
/// matches winning; `LayoutUnknown` when no rule matches.
///
/// The result is pinned to `spec_guess_folder_layout`, a pure function of the
/// marker flags, so the classification depends on the set of extant marker
/// files alone.
pub fn guess_folder_layout(m: LayoutMarkers) -> (r: Result<FolderLayout, IngestError>)
    ensures
        r matches Ok(layout) ==> spec_guess_folder_layout(m) == Some(layout),
        r matches Err(e) ==> e == IngestError::LayoutUnknown
            && spec_guess_folder_layout(m) is None,
{
    if m.run_parameters_upper && m.l001_cbcl {
        Ok(FolderLayout::NovaSeq)
    } else if m.basecalls_l001_c11 && m.run_parameters_lower {
        Ok(FolderLayout::MiSeq)
    } else if m.basecalls_l001 && m.run_parameters_upper {
        Ok(FolderLayout::MiniSeq)
    } else if m.s_locs && m.run_parameters_upper {
        Ok(FolderLayout::HiSeqX)
    } else {
        Err(IngestError::LayoutUnknown)
    }
}

} // verus!
