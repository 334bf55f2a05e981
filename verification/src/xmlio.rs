//! The manifest readers: XML parsing and XPath evaluation are delegated to
//! the XML libraries, each query result named as a function of the manifest
//! text and the expression; everything that interprets the query results is
//! verified here and in `manifest`.

use vstd::prelude::*;
use crate::dates::{canonical_date, spec_date_parses, spec_date_renders};
use crate::errors::IngestError;
use crate::layout::FolderLayout;
use crate::manifest::{
    planned_reads_from_cycles, reads_from_raw, select_rta_version, spec_planned_reads,
    spec_raw_views, spec_reads_from_raw_from, spec_rta_version, lemma_reads_from_raw_positive,
    RawReadElem, RunInfo, RunParameters,
};
use crate::reads::{spec_reads_wf, ReadDescription};

verus! {

/// The text the XPath expression selects in the document the manifest text
/// parses to: the string rendering of the expression's value (the first
/// matching node's text, or the empty string when nothing matches), or
/// `None` when the text is no well-formed XML or the expression fails.
pub uninterp spec fn xpath_text_of(text: Seq<char>, expr: Seq<char>) -> Option<Seq<char>>;

/// The number the XPath expression selects in the document the manifest
/// text parses to, truncated to an `i32` (text that is no number, and an
/// empty match, read as zero), or `None` when the text is no well-formed
/// XML or the expression fails.
pub uninterp spec fn xpath_num_of(text: Seq<char>, expr: Seq<char>) -> Option<int>;

/// The read elements of the document the manifest text parses to: for each
/// element matching `//RunInfoRead|//Read`, in document order, the texts of
/// its `Number`, `NumCycles` and `IsIndexedRead` attributes (a missing
/// attribute reads as empty); `None` when the text is no well-formed XML or
/// a match is no element.
pub uninterp spec fn read_elems_of(text: Seq<char>) -> Option<
    Seq<(Seq<char>, Seq<char>, Seq<char>)>,
>;

/// Relies on `sxd_document::parser::parse`, `sxd_xpath::evaluate_xpath` and
/// `Value::into_string`: the result is a function of the text and the
/// expression alone.
#[verifier::external_body]
fn xpath_string(text: &str, expr: &str) -> (r: Option<String>)
    ensures
        match r {
            Some(v) => xpath_text_of(text@, expr@) == Some(v@),
            None => xpath_text_of(text@, expr@) is None,
        },
{
    let package = match sxd_document::parser::parse(text) {
        Ok(p) => p,
        Err(_) => return None,
    };
    match sxd_xpath::evaluate_xpath(&package.as_document(), expr) {
        Ok(v) => Some(v.into_string()),
        Err(_) => None,
    }
}

/// Relies on `sxd_document::parser::parse`, `sxd_xpath::evaluate_xpath` and
/// `Value::into_number` with a saturating cast: the result is a function of
/// the text and the expression alone.
#[verifier::external_body]
fn xpath_i32(text: &str, expr: &str) -> (r: Option<i32>)
    ensures
        match r {
            Some(v) => xpath_num_of(text@, expr@) == Some(v as int),
            None => xpath_num_of(text@, expr@) is None,
        },
{
    let package = match sxd_document::parser::parse(text) {
        Ok(p) => p,
        Err(_) => return None,
    };
    match sxd_xpath::evaluate_xpath(&package.as_document(), expr) {
        Ok(v) => Some(v.into_number() as i32),
        Err(_) => None,
    }
}

/// Relies on `sxd_document::parser::parse`, `sxd_xpath::evaluate_xpath`
/// with `//RunInfoRead|//Read` and the node set's `document_order`: hands
/// each matched element's attribute texts out in document order, a function
/// of the text alone.
#[verifier::external_body]
fn xpath_read_elements(text: &str) -> (r: Option<Vec<RawReadElem>>)
    ensures
        match r {
            Some(v) => read_elems_of(text@) == Some(spec_raw_views(v@)),
            None => read_elems_of(text@) is None,
        },
{
    let package = sxd_document::parser::parse(text).ok()?;
    match sxd_xpath::evaluate_xpath(&package.as_document(), "//RunInfoRead|//Read") {
        Ok(sxd_xpath::Value::Nodeset(ns)) => ns.document_order().into_iter().map(
            |node| match node {
                sxd_xpath::nodeset::Node::Element(e) => Some(RawReadElem {
                    number: e.attribute("Number").map(|a| a.value().to_string()).unwrap_or_default(),
                    num_cycles: e.attribute("NumCycles").map(|a| a.value().to_string()).unwrap_or_default(),
                    is_indexed: e.attribute("IsIndexedRead").map(|a| a.value().to_string()).unwrap_or_default(),
                }),
                _ => None,
            },
        ).collect::<Option<Vec<RawReadElem>>>(),
        _ => None,
    }
}

/// All reads the document describes, assembled and filtered; a failed query
/// or an unparseable attribute fails the manifest.
fn query_reads(text: &str) -> (r: Result<Vec<ReadDescription>, IngestError>)
    ensures
        r matches Ok(v) ==> (read_elems_of(text@) matches Some(elems)
            && spec_reads_from_raw_from(elems, 0) == Some(v@)) && spec_reads_wf(v@) && forall|
            k: int,
        |
            0 <= k < v@.len() ==> (#[trigger] v@[k]).num_cycles > 0,
        r matches Err(e) ==> e == IngestError::ManifestParse && match read_elems_of(text@) {
            Some(elems) => spec_reads_from_raw_from(elems, 0) is None,
            None => true,
        },
{
    let raws = match xpath_read_elements(text) {
        Option::Some(raws) => raws,
        Option::None => {
            return Err(IngestError::ManifestParse);
        },
    };
    let reads = reads_from_raw(&raws)?;
    proof {
        lemma_reads_from_raw_positive(spec_raw_views(raws@), 0, reads@);
    }
    Ok(reads)
}

/// A required text value; a failed query fails the manifest.
fn require_string(text: &str, expr: &str) -> (r: Result<String, IngestError>)
    ensures
        r matches Ok(s) ==> xpath_text_of(text@, expr@) == Some(s@),
        r matches Err(e) ==> e == IngestError::ManifestParse && xpath_text_of(text@, expr@)
            is None,
{
    match xpath_string(text, expr) {
        Option::Some(s) => Ok(s),
        Option::None => Err(IngestError::ManifestParse),
    }
}

/// A required numeric value; a failed query fails the manifest.
fn require_i32(text: &str, expr: &str) -> (r: Result<i32, IngestError>)
    ensures
        r matches Ok(v) ==> xpath_num_of(text@, expr@) == Some(v as int),
        r matches Err(e) ==> e == IngestError::ManifestParse && xpath_num_of(text@, expr@)
            is None,
{
    match xpath_i32(text, expr) {
        Option::Some(v) => Ok(v),
        Option::None => Err(IngestError::ManifestParse),
    }
}

/// What an interpreted `RunInfo.xml` must hold, tied query by query: the
/// assembled reads, the canonicalized date, and the identity fields.
pub open spec fn spec_run_info_ok(text: Seq<char>, ri: RunInfo) -> bool {
    &&& read_elems_of(text) matches Some(elems) && spec_reads_from_raw_from(elems, 0) == Some(
        ri.reads@,
    )
    &&& xpath_text_of(text, "//Date/text()"@) matches Some(d) && spec_date_renders(d, ri.date@)
    &&& xpath_text_of(text, "//Run/@Id"@) == Some(ri.run_id@)
    &&& xpath_num_of(text, "//Run/@Number"@) == Some(ri.run_number as int)
    &&& xpath_text_of(text, "//Flowcell/text()"@) == Some(ri.flowcell@)
    &&& xpath_text_of(text, "//Instrument/text()"@) == Some(ri.instrument@)
    &&& xpath_num_of(text, "//FlowcellLayout/@LaneCount"@) == Some(ri.lane_count as int)
    &&& spec_reads_wf(ri.reads@)
    &&& forall|k: int| 0 <= k < ri.reads@.len() ==> (#[trigger] ri.reads@[k]).num_cycles > 0
}

/// When interpreting `RunInfo.xml` succeeds: every required query answers
/// and the date text names a day.
pub open spec fn spec_run_info_parses(text: Seq<char>) -> bool {
    &&& read_elems_of(text) matches Some(elems) && spec_reads_from_raw_from(elems, 0) is Some
    &&& xpath_text_of(text, "//Date/text()"@) matches Some(d) && spec_date_parses(d)
    &&& xpath_text_of(text, "//Run/@Id"@) is Some
    &&& xpath_num_of(text, "//Run/@Number"@) is Some
    &&& xpath_text_of(text, "//Flowcell/text()"@) is Some
    &&& xpath_text_of(text, "//Instrument/text()"@) is Some
    &&& xpath_num_of(text, "//FlowcellLayout/@LaneCount"@) is Some
}

/// Interpret `RunInfo.xml`: the observed reads (zero-cycle entries
/// dropped), the run identity, the canonicalized date, and the lane count,
/// each tied to its query by `spec_run_info_ok`; the call succeeds exactly
/// when `spec_run_info_parses` holds.
pub fn process_xml_run_info(text: &str) -> (r: Result<RunInfo, IngestError>)
    ensures
        r is Ok <==> spec_run_info_parses(text@),
        r matches Ok(ri) ==> spec_run_info_ok(text@, ri),
        r matches Err(e) ==> e == IngestError::ManifestParse || e == IngestError::DateUnparseable,
{
    let reads = query_reads(text)?;
    let xml_date = require_string(text, "//Date/text()")?;
    let date = canonical_date(xml_date.as_str())?;
    let run_id = require_string(text, "//Run/@Id")?;
    let run_number = require_i32(text, "//Run/@Number")?;
    let flowcell = require_string(text, "//Flowcell/text()")?;
    let instrument = require_string(text, "//Instrument/text()")?;
    let lane_count = require_i32(text, "//FlowcellLayout/@LaneCount")?;
    Ok(RunInfo { run_id, run_number, flowcell, instrument, date, lane_count, reads })
}

/// The RTA version text of a parameters document: the `RtaVersion` value
/// with its first character removed when non-empty, else the `RTAVersion`
/// value.
fn query_rta_version(text: &str) -> (r: Result<String, IngestError>)
    ensures
        r matches Ok(s) ==> (xpath_text_of(text@, "//RTAVersion/text()"@) matches Some(rta)
            && xpath_text_of(text@, "//RtaVersion/text()"@) matches Some(rta_v3) && s@
            == spec_rta_version(rta_v3, rta)),
        r matches Err(e) ==> e == IngestError::ManifestParse && (xpath_text_of(
            text@,
            "//RTAVersion/text()"@,
        ) is None || xpath_text_of(text@, "//RtaVersion/text()"@) is None),
{
    let rta = require_string(text, "//RTAVersion/text()")?;
    let rta_v3 = require_string(text, "//RtaVersion/text()")?;
    Ok(select_rta_version(rta_v3.as_str(), rta.as_str()))
}

/// Whether both RTA version queries answer.
pub open spec fn spec_rta_queries_ok(text: Seq<char>) -> bool {
    xpath_text_of(text, "//RTAVersion/text()"@) is Some && xpath_text_of(
        text,
        "//RtaVersion/text()"@,
    ) is Some
}

/// The selected RTA version text, tied to its two queries.
pub open spec fn spec_rta_selected(text: Seq<char>, out: Seq<char>) -> bool {
    xpath_text_of(text, "//RTAVersion/text()"@) matches Some(rta) && xpath_text_of(
        text,
        "//RtaVersion/text()"@,
    ) matches Some(rta_v3) && out == spec_rta_version(rta_v3, rta)
}

/// The slot rule of the per-tile parameters: the `FCPosition` text when the
/// query answers with a non-empty text, else `A`.
pub open spec fn spec_slot_rule(text: Seq<char>, slot: Seq<char>) -> bool {
    match xpath_text_of(text, "//FCPosition/text()"@) {
        Some(s) => if s.len() == 0 {
            slot == "A"@
        } else {
            slot == s
        },
        None => slot == "A"@,
    }
}

/// The experiment-name rule: the query's text, or empty when it fails.
pub open spec fn spec_experiment_rule(text: Seq<char>, name: Seq<char>) -> bool {
    match xpath_text_of(text, "//ExperimentName/text()"@) {
        Some(s) => name == s,
        None => name.len() == 0,
    }
}

/// What an interpreted per-tile parameters document must hold.
pub open spec fn spec_params_miseq_ok(text: Seq<char>, rp: RunParameters) -> bool {
    &&& read_elems_of(text) matches Some(elems) && spec_reads_from_raw_from(elems, 0) == Some(
        rp.planned_reads@,
    )
    &&& spec_rta_selected(text, rp.rta_version@)
    &&& xpath_num_of(text, "//ScanNumber/text()"@) == Some(rp.run_number as int)
    &&& spec_slot_rule(text, rp.flowcell_slot@)
    &&& spec_experiment_rule(text, rp.experiment_name@)
    &&& spec_reads_wf(rp.planned_reads@)
}

/// When interpreting the per-tile parameters succeeds.
pub open spec fn spec_params_miseq_parses(text: Seq<char>) -> bool {
    &&& read_elems_of(text) matches Some(elems) && spec_reads_from_raw_from(elems, 0) is Some
    &&& spec_rta_queries_ok(text)
    &&& xpath_num_of(text, "//ScanNumber/text()"@) is Some
}

/// Interpret the parameters document of the per-tile layout family: reads
/// come from the same elements as the run info, the run number from
/// `ScanNumber`, and the slot from `FCPosition` (defaulting to `A`), each
/// tied to its query by `spec_params_miseq_ok`; the call succeeds exactly
/// when `spec_params_miseq_parses` holds.
pub fn process_xml_param_doc_miseq(text: &str) -> (r: Result<RunParameters, IngestError>)
    ensures
        r is Ok <==> spec_params_miseq_parses(text@),
        r matches Ok(rp) ==> spec_params_miseq_ok(text@, rp),
        r matches Err(e) ==> e == IngestError::ManifestParse,
{
    let planned_reads = query_reads(text)?;
    let rta_version = query_rta_version(text)?;
    let run_number = require_i32(text, "//ScanNumber/text()")?;
    let flowcell_slot = match xpath_string(text, "//FCPosition/text()") {
        Option::Some(s) => {
            if s.as_str().unicode_len() == 0 {
                proof {
                    reveal_strlit("A");
                }
                "A".to_owned()
            } else {
                s
            }
        },
        Option::None => "A".to_owned(),
    };
    let experiment_name = match xpath_string(text, "//ExperimentName/text()") {
        Option::Some(s) => s,
        Option::None => String::new(),
    };
    Ok(RunParameters { planned_reads, rta_version, run_number, flowcell_slot, experiment_name })
}

/// What an interpreted four-field parameters document must hold: the four
/// planned cycle counts, non-negative, assembled in their fixed order; the
/// run number from `RunNumber`; the slot always `A`.
pub open spec fn spec_params_miniseq_ok(text: Seq<char>, rp: RunParameters) -> bool {
    &&& xpath_num_of(text, "//PlannedRead1Cycles/text()"@) matches Some(r1) && xpath_num_of(
        text,
        "//PlannedIndex1ReadCycles/text()"@,
    ) matches Some(i1) && xpath_num_of(text, "//PlannedIndex2ReadCycles/text()"@) matches Some(i2)
        && xpath_num_of(text, "//PlannedRead2Cycles/text()"@) matches Some(r2) && 0 <= r1 && 0
        <= i1 && 0 <= i2 && 0 <= r2 && rp.planned_reads@ == spec_planned_reads(
        r1 as i32,
        i1 as i32,
        i2 as i32,
        r2 as i32,
    )
    &&& spec_rta_selected(text, rp.rta_version@)
    &&& xpath_num_of(text, "//RunNumber/text()"@) == Some(rp.run_number as int)
    &&& rp.flowcell_slot@ == "A"@
    &&& spec_experiment_rule(text, rp.experiment_name@)
    &&& spec_reads_wf(rp.planned_reads@)
}

/// When interpreting the four-field parameters succeeds: the four cycle
/// queries answer with non-negative values, and the version and run-number
/// queries answer.
pub open spec fn spec_params_miniseq_parses(text: Seq<char>) -> bool {
    &&& xpath_num_of(text, "//PlannedRead1Cycles/text()"@) matches Some(r1) && 0 <= r1
    &&& xpath_num_of(text, "//PlannedIndex1ReadCycles/text()"@) matches Some(i1) && 0 <= i1
    &&& xpath_num_of(text, "//PlannedIndex2ReadCycles/text()"@) matches Some(i2) && 0 <= i2
    &&& xpath_num_of(text, "//PlannedRead2Cycles/text()"@) matches Some(r2) && 0 <= r2
    &&& spec_rta_queries_ok(text)
    &&& xpath_num_of(text, "//RunNumber/text()"@) is Some
}

/// Interpret the parameters document of the four-field layout family: the
/// planned reads come from the four cycle-count fields in their fixed
/// order, the run number from `RunNumber`, and the slot is always `A`, each
/// tied to its query by `spec_params_miniseq_ok`; the call succeeds exactly
/// when `spec_params_miniseq_parses` holds.
pub fn process_xml_param_doc_miniseq(text: &str) -> (r: Result<RunParameters, IngestError>)
    ensures
        r is Ok <==> spec_params_miniseq_parses(text@),
        r matches Ok(rp) ==> spec_params_miniseq_ok(text@, rp),
        r matches Err(e) ==> e == IngestError::ManifestParse,
{
    let r1 = require_i32(text, "//PlannedRead1Cycles/text()")?;
    let i1 = require_i32(text, "//PlannedIndex1ReadCycles/text()")?;
    let i2 = require_i32(text, "//PlannedIndex2ReadCycles/text()")?;
    let r2 = require_i32(text, "//PlannedRead2Cycles/text()")?;
    if r1 < 0 || i1 < 0 || i2 < 0 || r2 < 0 {
        // A negative planned cycle count violates the manifests' data model.
        return Err(IngestError::ManifestParse);
    }
    let planned_reads = planned_reads_from_cycles(r1, i1, i2, r2);
    proof {
        assert(spec_reads_wf(spec_planned_reads(r1, i1, i2, r2)));
    }
    let rta_version = query_rta_version(text)?;
    let run_number = require_i32(text, "//RunNumber/text()")?;
    let experiment_name = match xpath_string(text, "//ExperimentName/text()") {
        Option::Some(s) => s,
        Option::None => String::new(),
    };
    Ok(
        RunParameters {
            planned_reads,
            rta_version,
            run_number,
            flowcell_slot: "A".to_owned(),
            experiment_name,
        },
    )
}

/// Interpret both manifests of a run directory, dispatching the parameters
/// document on the folder layout: the per-tile form for the `C<cycle>.1`
/// family, the four-field form for the others; the unsupported layout is
/// refused once the run info is read.
pub fn process_xml(folder_layout: FolderLayout, info_text: &str, param_text: &str) -> (r: Result<
    (RunInfo, RunParameters),
    IngestError,
>)
    ensures
        folder_layout == FolderLayout::HiSeqX ==> r is Err && (spec_run_info_parses(info_text@)
            ==> r == Err::<(RunInfo, RunParameters), IngestError>(IngestError::LayoutUnsupported)),
        folder_layout != FolderLayout::HiSeqX ==> (r is Ok <==> spec_run_info_parses(info_text@)
            && (if folder_layout == FolderLayout::MiSeq {
            spec_params_miseq_parses(param_text@)
        } else {
            spec_params_miniseq_parses(param_text@)
        })),
        r matches Ok(pair) ==> spec_run_info_ok(info_text@, pair.0) && match folder_layout {
            FolderLayout::MiSeq => spec_params_miseq_ok(param_text@, pair.1),
            FolderLayout::MiniSeq => spec_params_miniseq_ok(param_text@, pair.1),
            FolderLayout::NovaSeq => spec_params_miniseq_ok(param_text@, pair.1),
            FolderLayout::HiSeqX => false,
        },
        r matches Err(e) ==> e == IngestError::ManifestParse || e == IngestError::DateUnparseable
            || e == IngestError::LayoutUnsupported,
{
    let run_info = process_xml_run_info(info_text)?;
    let run_params = match folder_layout {
        FolderLayout::MiSeq => process_xml_param_doc_miseq(param_text)?,
        FolderLayout::MiniSeq => process_xml_param_doc_miniseq(param_text)?,
        FolderLayout::NovaSeq => process_xml_param_doc_miniseq(param_text)?,
        FolderLayout::HiSeqX => {
            return Err(IngestError::LayoutUnsupported);
        },
    };
    Ok((run_info, run_params))
}

} // verus!
