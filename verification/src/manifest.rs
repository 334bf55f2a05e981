//! The two typed manifest records and the rules that assemble them from the
//! raw values a manifest query hands back.

use vstd::prelude::*;
use crate::digits::{parse_i32_str, spec_is_signed_decimal, spec_signed_value};
use crate::errors::IngestError;
use crate::reads::ReadDescription;
use crate::strutil::str_eq;

verus! {

/// The contents of `RunInfo.xml`.
#[derive(Debug)]
pub struct RunInfo {
    /// The long, full run identifier.
    pub run_id: String,
    /// The running number of the run on its instrument.
    pub run_number: i32,
    /// The vendor identifier of the flow cell.
    pub flowcell: String,
    /// The instrument's identifier.
    pub instrument: String,
    /// The run date, canonicalized to `YYYY-MM-DD`.
    pub date: String,
    /// How many lanes the flow cell has.
    pub lane_count: i32,
    /// The observed reads, in order.
    pub reads: Vec<ReadDescription>,
}

/// The contents of the layout-specific run-parameters manifest.
#[derive(Debug)]
pub struct RunParameters {
    /// The planned reads, in order; possibly empty.
    pub planned_reads: Vec<ReadDescription>,
    /// The real-time-analysis version string, as selected from the manifest.
    pub rta_version: String,
    /// The running number of the run on its instrument.
    pub run_number: i32,
    /// Which physical slot the flow cell sits in, `A` or `B`.
    pub flowcell_slot: String,
    /// The operator-chosen experiment name, possibly empty.
    pub experiment_name: String,
}

/// One read element as the manifest query hands it back: the raw attribute
/// texts, still unparsed.
#[derive(Debug, Clone)]
pub struct RawReadElem {
    /// The `Number` attribute's text.
    pub number: String,
    /// The `NumCycles` attribute's text.
    pub num_cycles: String,
    /// The `IsIndexedRead` attribute's text.
    pub is_indexed: String,
}

/// Whether a raw attribute text is a well-formed `i32`.
pub open spec fn spec_attr_i32_ok(s: Seq<char>) -> bool {
    spec_is_signed_decimal(s) && i32::MIN <= spec_signed_value(s) <= i32::MAX
}

/// Assemble read descriptions from raw elements, from index `i` on: parse
/// both numeric attributes, keep elements with a positive cycle count, and
/// read the index flag as `IsIndexedRead == "Y"`.  `None` when an attribute
/// does not parse.
pub open spec fn spec_reads_from_raw_from(
    raws: Seq<(Seq<char>, Seq<char>, Seq<char>)>,
    i: int,
) -> Option<Seq<ReadDescription>>
    decreases raws.len() - i when 0 <= i <= raws.len()
{
    if i == raws.len() {
        Some(Seq::empty())
    } else {
        let (number, cycles, indexed) = raws[i];
        if !spec_attr_i32_ok(number) || !spec_attr_i32_ok(cycles) {
            None
        } else {
            match spec_reads_from_raw_from(raws, i + 1) {
                None => None,
                Some(tail) => if spec_signed_value(cycles) > 0 {
                    Some(
                        seq![
                            ReadDescription {
                                number: spec_signed_value(number) as i32,
                                num_cycles: spec_signed_value(cycles) as i32,
                                is_index: indexed == "Y"@,
                            },
                        ] + tail,
                    )
                } else {
                    Some(tail)
                },
            }
        }
    }
}

/// The raw attribute views of a list of raw read elements.
pub open spec fn spec_raw_views(raws: Seq<RawReadElem>) -> Seq<(Seq<char>, Seq<char>, Seq<char>)> {
    raws.map_values(|e: RawReadElem| (e.number@, e.num_cycles@, e.is_indexed@))
}

/// What assembling a whole raw element list must give.
pub open spec fn spec_reads_from_raw(raws: Seq<RawReadElem>) -> Option<Seq<ReadDescription>> {
    spec_reads_from_raw_from(spec_raw_views(raws), 0)
}

/// Assemble read descriptions from the raw elements of a manifest query:
/// elements whose `NumCycles` is zero or negative are dropped, `IsIndexedRead
/// == "Y"` marks an index read, and a numeric attribute that does not parse
/// fails the manifest.
pub fn reads_from_raw(raws: &Vec<RawReadElem>) -> (r: Result<Vec<ReadDescription>, IngestError>)
    ensures
        r matches Ok(v) ==> spec_reads_from_raw(raws@) == Some(v@),
        r matches Err(e) ==> e == IngestError::ManifestParse
            && spec_reads_from_raw(raws@) is None,
{
    let ghost views = spec_raw_views(raws@);
    let mut out: Vec<ReadDescription> = Vec::new();
    let mut i: usize = 0;
    while i < raws.len()
        invariant
            0 <= i <= raws.len(),
            views == spec_raw_views(raws@),
            views.len() == raws@.len(),
            forall|m: int| 0 <= m < raws@.len() ==> views[m] == (
                (#[trigger] raws@[m]).number@,
                raws@[m].num_cycles@,
                raws@[m].is_indexed@,
            ),
            match spec_reads_from_raw_from(views, i as int) {
                None => spec_reads_from_raw(raws@) is None,
                Some(q) => spec_reads_from_raw(raws@) == Some(out@ + q),
            },
        decreases raws.len() - i,
    {
        let e = &raws[i];
        let number = parse_i32_str(e.number.as_str());
        let cycles = parse_i32_str(e.num_cycles.as_str());
        match (number, cycles) {
            (Some(num), Some(cyc)) => {
                if cyc > 0 {
                    let rd = ReadDescription {
                        number: num,
                        num_cycles: cyc,
                        is_index: str_eq(e.is_indexed.as_str(), "Y"),
                    };
                    proof {
                        if let Some(q2) = spec_reads_from_raw_from(views, i + 1) {
                            assert(out@ + (seq![rd] + q2) =~= (out@ + seq![rd]) + q2);
                            assert(out@.push(rd) =~= out@ + seq![rd]);
                        }
                    }
                    out.push(rd);
                } else {
                    proof {
                        assert(spec_attr_i32_ok(views[i as int].0));
                        assert(spec_attr_i32_ok(views[i as int].1));
                    }
                }
            },
            _ => {
                return Err(IngestError::ManifestParse);
            },
        }
        i += 1;
    }
    proof {
        assert(spec_reads_from_raw_from(views, views.len() as int) == Some(
            Seq::<ReadDescription>::empty(),
        ));
        assert(out@ + Seq::<ReadDescription>::empty() =~= out@);
    }
    Ok(out)
}

/// Every read that raw assembly keeps has a positive cycle count.
pub proof fn lemma_reads_from_raw_positive(
    raws: Seq<(Seq<char>, Seq<char>, Seq<char>)>,
    i: int,
    v: Seq<ReadDescription>,
)
    requires
        0 <= i <= raws.len(),
        spec_reads_from_raw_from(raws, i) == Some(v),
    ensures
        forall|k: int| 0 <= k < v.len() ==> (#[trigger] v[k]).num_cycles > 0,
    decreases raws.len() - i,
{
    if i < raws.len() {
        if let Some(tail) = spec_reads_from_raw_from(raws, i + 1) {
            lemma_reads_from_raw_positive(raws, i + 1, tail);
            let (number, cycles, indexed) = raws[i];
            if spec_signed_value(cycles) > 0 {
                assert(forall|k: int| 1 <= k < v.len() ==> #[trigger] v[k] == tail[k - 1]);
            } else {
                assert(v == tail);
            }
        }
    }
}

/// The planned reads of the four-field parameter form: up to four entries in
/// the fixed order template 1, index 1, index 2, template 2, each skipped
/// when its cycle count is zero, numbered sequentially from one.
pub open spec fn spec_planned_reads(r1: i32, i1: i32, i2: i32, r2: i32) -> Seq<ReadDescription> {
    let a = if r1 != 0 {
        seq![ReadDescription { number: 1, num_cycles: r1, is_index: false }]
    } else {
        Seq::empty()
    };
    let b = if i1 != 0 {
        a.push(ReadDescription { number: (a.len() + 1) as i32, num_cycles: i1, is_index: true })
    } else {
        a
    };
    let c = if i2 != 0 {
        b.push(ReadDescription { number: (b.len() + 1) as i32, num_cycles: i2, is_index: true })
    } else {
        b
    };
    if r2 != 0 {
        c.push(ReadDescription { number: (c.len() + 1) as i32, num_cycles: r2, is_index: false })
    } else {
        c
    }
}

/// Assemble the planned reads of the four-field parameter form.
pub fn planned_reads_from_cycles(r1: i32, i1: i32, i2: i32, r2: i32) -> (r: Vec<ReadDescription>)
    ensures
        r@ == spec_planned_reads(r1, i1, i2, r2),
{
    let mut out: Vec<ReadDescription> = Vec::new();
    let mut number: i32 = 1;
    if r1 != 0 {
        out.push(ReadDescription { number, num_cycles: r1, is_index: false });
        number += 1;
    }
    if i1 != 0 {
        out.push(ReadDescription { number, num_cycles: i1, is_index: true });
        number += 1;
    }
    if i2 != 0 {
        out.push(ReadDescription { number, num_cycles: i2, is_index: true });
        number += 1;
    }
    if r2 != 0 {
        out.push(ReadDescription { number, num_cycles: r2, is_index: false });
    }
    proof {
        assert(out@ =~= spec_planned_reads(r1, i1, i2, r2));
    }
    out
}

/// Which RTA version text a manifest offers: the `RtaVersion` value with its
/// first character removed when that value is non-empty, else the
/// `RTAVersion` value.
pub open spec fn spec_rta_version(rta_v3: Seq<char>, rta: Seq<char>) -> Seq<char> {
    if rta_v3.len() > 0 {
        rta_v3.subrange(1, rta_v3.len() as int)
    } else {
        rta
    }
}

/// Select the RTA version text from the two candidate manifest values.
pub fn select_rta_version(rta_v3: &str, rta: &str) -> (r: String)
    ensures
        r@ == spec_rta_version(rta_v3@, rta@),
{
    let n = rta_v3.unicode_len();
    if n > 0 {
        rta_v3.substring_char(1, n).to_owned()
    } else {
        rta.to_owned()
    }
}

/// The text before the first `.` of a version string (the whole string when
/// it has no dot).
pub open spec fn spec_version_prefix(s: Seq<char>) -> Seq<char> {
    s.take(spec_non_dot_run(s, 0) as int)
}

/// The number of consecutive non-dot characters of `s` starting at `i`.
pub open spec fn spec_non_dot_run(s: Seq<char>, i: int) -> nat
    decreases s.len() - i when i >= 0
{
    if i < 0 || i >= s.len() {
        0
    } else if s[i] != '.' {
        1 + spec_non_dot_run(s, i + 1)
    } else {
        0
    }
}

/// The non-dot run is exactly the stretch before the first dot.
proof fn lemma_non_dot_run_char(s: Seq<char>, i: int, j: int)
    requires
        0 <= i <= j <= s.len(),
        forall|m: int| i <= m < j ==> #[trigger] s[m] != '.',
        j == s.len() || s[j] == '.',
    ensures
        spec_non_dot_run(s, i) == j - i,
    decreases j - i,
{
    if i < j {
        lemma_non_dot_run_char(s, i + 1, j);
    }
}

/// The leading integer of a version string: its text before the first dot,
/// read as an `i32`.  `None` when that text is not a number or does not fit.
pub fn parse_version_major(s: &str) -> (r: Option<i32>)
    ensures
        r matches Some(v) ==> spec_is_signed_decimal(spec_version_prefix(s@))
            && v == spec_signed_value(spec_version_prefix(s@)),
        r is None ==> !spec_is_signed_decimal(spec_version_prefix(s@))
            || spec_signed_value(spec_version_prefix(s@)) > i32::MAX
            || spec_signed_value(spec_version_prefix(s@)) < i32::MIN,
{
    let n = s.unicode_len();
    let mut j: usize = 0;
    while j < n
        invariant_except_break
            0 <= j <= n,
            n == s@.len(),
            forall|m: int| 0 <= m < j ==> #[trigger] s@[m] != '.',
        ensures
            0 <= j <= n,
            n == s@.len(),
            forall|m: int| 0 <= m < j ==> #[trigger] s@[m] != '.',
            j == n || s@[j as int] == '.',
        decreases n - j,
    {
        if s.get_char(j) == '.' {
            break;
        }
        j += 1;
    }
    proof {
        lemma_non_dot_run_char(s@, 0, j as int);
        assert(s@.subrange(0, j as int) =~= s@.take(j as int));
    }
    let prefix = s.substring_char(0, j);
    parse_i32_str(prefix)
}

/// The sequencing-status values that are terminal: once reached, later
/// derivations never leave them.
pub open spec fn spec_is_terminal_status(s: Seq<char>) -> bool {
    s == "closed"@ || s == "failed"@ || s == "complete"@
}

/// The derived sequencing status: a terminal current status is kept; planned
/// reads that disagree with the observed reads fail the run; an
/// `RTAComplete.txt` marker completes it; otherwise it is in progress.
pub open spec fn spec_derive_status(
    current: Seq<char>,
    planned_nonempty: bool,
    reads_match: bool,
    rta_complete: bool,
) -> Seq<char> {
    if spec_is_terminal_status(current) {
        current
    } else if planned_nonempty && !reads_match {
        "failed"@
    } else if rta_complete {
        "complete"@
    } else {
        "in_progress"@
    }
}

/// A terminal status is never downgraded: whatever the planned reads, the
/// observed reads and the completion marker say, deriving from a terminal
/// current status returns that status unchanged.
pub proof fn lemma_status_monotone(
    current: Seq<char>,
    planned_nonempty: bool,
    reads_match: bool,
    rta_complete: bool,
)
    requires
        spec_is_terminal_status(current),
    ensures
        spec_derive_status(current, planned_nonempty, reads_match, rta_complete) == current,
{
}

/// Whether two read-description vectors hold the same reads in the same order.
pub fn reads_equal(a: &Vec<ReadDescription>, b: &Vec<ReadDescription>) -> (r: bool)
    ensures
        r == (a@ == b@),
{
    if a.len() != b.len() {
        return false;
    }
    let mut i: usize = 0;
    while i < a.len()
        invariant
            0 <= i <= a.len(),
            a@.len() == b@.len(),
            forall|m: int| 0 <= m < i ==> a@[m] == b@[m],
        decreases a.len() - i,
    {
        if a[i] != b[i] {
            assert(a@[i as int] != b@[i as int]);
            return false;
        }
        i += 1;
    }
    proof {
        assert(a@ =~= b@);
    }
    true
}

/// Derive the sequencing status from the manifests, the `RTAComplete.txt`
/// marker and the current status, as `spec_derive_status` says.
pub fn get_status_sequencing(
    run_info: &RunInfo,
    run_params: &RunParameters,
    rta_complete: bool,
    current_status: &str,
) -> (r: String)
    ensures
        r@ == spec_derive_status(
            current_status@,
            run_params.planned_reads@.len() > 0,
            run_info.reads@ == run_params.planned_reads@,
            rta_complete,
        ),
{
    if str_eq(current_status, "closed") || str_eq(current_status, "failed") || str_eq(
        current_status,
        "complete",
    ) {
        return current_status.to_owned();
    }
    let matches = reads_equal(&run_info.reads, &run_params.planned_reads);
    if run_params.planned_reads.len() > 0 && !matches {
        "failed".to_owned()
    } else if rta_complete {
        "complete".to_owned()
    } else {
        "in_progress".to_owned()
    }
}

} // verus!
