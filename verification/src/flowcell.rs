//! The canonical flow cell record, its construction from the manifests, and
//! the decisions of the synchronization with the companion REST service.

use vstd::prelude::*;
use crate::digits::{push_idec, spec_idec, spec_is_signed_decimal, spec_signed_value};
use crate::errors::IngestError;
use crate::manifest::{
    get_status_sequencing, parse_version_major, spec_derive_status, spec_version_prefix, RunInfo,
    RunParameters,
};
use crate::reads::{spec_description, spec_reads_wf, string_description};
use crate::settings::Settings;

verus! {

/// The canonical flow cell record, as the REST service holds it.
#[derive(Debug)]
pub struct FlowCell {
    /// The service's identifier of the record, absent before registration.
    pub sodar_uuid: Option<String>,
    /// The run date, `YYYY-MM-DD`.
    pub run_date: String,
    /// The running number of the run on its instrument.
    pub run_number: i32,
    /// Which physical slot the flow cell sits in, `A` or `B`.
    pub slot: String,
    /// The vendor identifier of the flow cell.
    pub vendor_id: String,
    /// The operator-chosen label, when any.
    pub label: Option<String>,
    /// A label set by hand on the service, when any.
    pub manual_label: Option<String>,
    /// A free-text description, when any.
    pub description: Option<String>,
    /// The instrument's identifier.
    pub sequencing_machine: String,
    /// How many lanes the flow cell has.
    pub num_lanes: i32,
    /// The operator recorded on the record, when any.
    pub operator: Option<String>,
    /// The leading integer of the real-time-analysis version.
    pub rta_version: i32,
    /// The sequencing status: `initial`, `in_progress`, `complete`, `failed`
    /// or `closed`.
    pub status_sequencing: String,
    /// The conversion status.
    pub status_conversion: String,
    /// The delivery status.
    pub status_delivery: String,
    /// How the data is delivered; always `seq` here.
    pub delivery_type: String,
    /// The encoded planned reads, when known.
    pub planned_reads: Option<String>,
    /// The encoded observed reads, when known.
    pub current_reads: Option<String>,
}

/// Copy an optional string, value for value.
fn clone_opt_string(o: &Option<String>) -> (r: Option<String>)
    ensures
        r == *o,
{
    match o {
        Option::None => Option::None,
        Option::Some(s) => Option::Some(s.clone()),
    }
}

impl Clone for FlowCell {
    /// An exact copy of the record.
    fn clone(&self) -> (r: Self)
        ensures
            r == *self,
    {
        FlowCell {
            sodar_uuid: clone_opt_string(&self.sodar_uuid),
            run_date: self.run_date.clone(),
            run_number: self.run_number,
            slot: self.slot.clone(),
            vendor_id: self.vendor_id.clone(),
            label: clone_opt_string(&self.label),
            manual_label: clone_opt_string(&self.manual_label),
            description: clone_opt_string(&self.description),
            sequencing_machine: self.sequencing_machine.clone(),
            num_lanes: self.num_lanes,
            operator: clone_opt_string(&self.operator),
            rta_version: self.rta_version,
            status_sequencing: self.status_sequencing.clone(),
            status_conversion: self.status_conversion.clone(),
            status_delivery: self.status_delivery.clone(),
            delivery_type: self.delivery_type.clone(),
            planned_reads: clone_opt_string(&self.planned_reads),
            current_reads: clone_opt_string(&self.current_reads),
        }
    }
}

/// Whether the version string's leading integer exists and fits an `i32`.
pub open spec fn spec_rta_major_ok(s: Seq<char>) -> bool {
    spec_is_signed_decimal(spec_version_prefix(s)) && i32::MIN <= spec_signed_value(
        spec_version_prefix(s),
    ) <= i32::MAX
}

/// The previous status handed to the record builder, `initial` when none.
pub open spec fn spec_prev_status(prev: Option<String>) -> Seq<char> {
    match prev {
        Option::Some(s) => s@,
        Option::None => "initial"@,
    }
}

/// What a freshly built flow cell record holds, field by field.
pub open spec fn spec_flow_cell_built(
    fc: FlowCell,
    info: RunInfo,
    params: RunParameters,
    prev: Seq<char>,
    rta_complete: bool,
    operator: Seq<char>,
) -> bool {
    &&& fc.sodar_uuid is None
    &&& fc.run_date@ == info.date@
    &&& fc.run_number == info.run_number
    &&& fc.slot@ == params.flowcell_slot@
    &&& fc.vendor_id@ == info.flowcell@
    &&& fc.label matches Some(l) && l@ == params.experiment_name@
    &&& fc.manual_label is None
    &&& fc.description is None
    &&& fc.sequencing_machine@ == info.instrument@
    &&& fc.num_lanes == info.lane_count
    &&& fc.operator matches Some(o) && o@ == operator
    &&& fc.rta_version == spec_signed_value(spec_version_prefix(params.rta_version@))
    &&& fc.status_sequencing@ == spec_derive_status(
        prev,
        params.planned_reads@.len() > 0,
        info.reads@ == params.planned_reads@,
        rta_complete,
    )
    &&& fc.status_conversion@ == "initial"@
    &&& fc.status_delivery@ == "initial"@
    &&& fc.delivery_type@ == "seq"@
    &&& fc.planned_reads matches Some(p) && p@ == spec_description(params.planned_reads@)
    &&& fc.current_reads matches Some(c) && c@ == spec_description(info.reads@)
}

/// Build the canonical flow cell record from the two manifests.
///
/// `rta_complete` tells whether `RTAComplete.txt` exists in the run
/// directory; `status_sequencing` is the previously known status, when any.
/// The one failure is a version string without a leading integer.
pub fn build_flow_cell(
    run_info: &RunInfo,
    run_params: &RunParameters,
    rta_complete: bool,
    status_sequencing: Option<String>,
    settings: &Settings,
) -> (r: Result<FlowCell, IngestError>)
    requires
        spec_reads_wf(run_info.reads@),
        spec_reads_wf(run_params.planned_reads@),
    ensures
        r matches Ok(fc) ==> spec_rta_major_ok(run_params.rta_version@) && spec_flow_cell_built(
            fc,
            *run_info,
            *run_params,
            spec_prev_status(status_sequencing),
            rta_complete,
            settings.ingest.operator@,
        ),
        r matches Err(e) ==> e == IngestError::RtaVersionUnparseable && !spec_rta_major_ok(
            run_params.rta_version@,
        ),
{
    let rta_version = match parse_version_major(run_params.rta_version.as_str()) {
        Option::Some(v) => v,
        Option::None => {
            return Err(IngestError::RtaVersionUnparseable);
        },
    };
    let status = match &status_sequencing {
        Option::Some(s) => get_status_sequencing(run_info, run_params, rta_complete, s.as_str()),
        Option::None => {
            proof {
                reveal_strlit("initial");
            }
            get_status_sequencing(run_info, run_params, rta_complete, "initial")
        },
    };
    Ok(
        FlowCell {
            sodar_uuid: Option::None,
            run_date: run_info.date.clone(),
            run_number: run_info.run_number,
            slot: run_params.flowcell_slot.clone(),
            vendor_id: run_info.flowcell.clone(),
            label: Option::Some(run_params.experiment_name.clone()),
            manual_label: Option::None,
            description: Option::None,
            sequencing_machine: run_info.instrument.clone(),
            num_lanes: run_info.lane_count,
            operator: Option::Some(settings.ingest.operator.clone()),
            rta_version,
            status_sequencing: status,
            status_conversion: "initial".to_owned(),
            status_delivery: "initial".to_owned(),
            delivery_type: "seq".to_owned(),
            planned_reads: Option::Some(string_description(&run_params.planned_reads)),
            current_reads: Option::Some(string_description(&run_info.reads)),
        },
    )
}

/// What a merged update record holds: the rebuilt read encodings and status,
/// everything else from the remote record.
pub open spec fn spec_flow_cell_merged(
    m: FlowCell,
    remote: FlowCell,
    info: RunInfo,
    params: RunParameters,
    rta_complete: bool,
) -> bool {
    &&& m.sodar_uuid == remote.sodar_uuid
    &&& m.run_date == remote.run_date
    &&& m.run_number == remote.run_number
    &&& m.slot == remote.slot
    &&& m.vendor_id == remote.vendor_id
    &&& m.label == remote.label
    &&& m.manual_label == remote.manual_label
    &&& m.description == remote.description
    &&& m.sequencing_machine == remote.sequencing_machine
    &&& m.num_lanes == remote.num_lanes
    &&& m.operator == remote.operator
    &&& m.rta_version == remote.rta_version
    &&& m.status_sequencing@ == spec_derive_status(
        remote.status_sequencing@,
        params.planned_reads@.len() > 0,
        info.reads@ == params.planned_reads@,
        rta_complete,
    )
    &&& m.status_conversion == remote.status_conversion
    &&& m.status_delivery == remote.status_delivery
    &&& m.delivery_type == remote.delivery_type
    &&& m.planned_reads matches Some(p) && p@ == spec_description(params.planned_reads@)
    &&& m.current_reads matches Some(c) && c@ == spec_description(info.reads@)
}

/// Merge a rebuilt record into the remote one: only the read encodings and
/// the sequencing status are taken from the rebuild; everything else,
/// including the service's identifier, is preserved.
pub fn merge_flowcell(remote: &FlowCell, rebuilt: &FlowCell) -> (r: FlowCell)
    ensures
        r.planned_reads == rebuilt.planned_reads,
        r.current_reads == rebuilt.current_reads,
        r.status_sequencing == rebuilt.status_sequencing,
        r.sodar_uuid == remote.sodar_uuid,
        r.run_date == remote.run_date,
        r.run_number == remote.run_number,
        r.slot == remote.slot,
        r.vendor_id == remote.vendor_id,
        r.label == remote.label,
        r.manual_label == remote.manual_label,
        r.description == remote.description,
        r.sequencing_machine == remote.sequencing_machine,
        r.num_lanes == remote.num_lanes,
        r.operator == remote.operator,
        r.rta_version == remote.rta_version,
        r.status_conversion == remote.status_conversion,
        r.status_delivery == remote.status_delivery,
        r.delivery_type == remote.delivery_type,
{
    let mut r = remote.clone();
    r.planned_reads = clone_opt_string(&rebuilt.planned_reads);
    r.current_reads = clone_opt_string(&rebuilt.current_reads);
    r.status_sequencing = rebuilt.status_sequencing.clone();
    r
}

/// What resolving the flow cell against the service gave.
pub enum ResolveOutcome {
    /// The service answered 200 with this record.
    Found(FlowCell),
    /// The service answered 404: it does not know the flow cell.
    NotFound,
    /// The service answered with any other status code.
    Failed(u16),
}

/// The next synchronization step the caller must take.
pub enum SyncAction {
    /// Keep working with this remote record; nothing is sent.
    UseRemote(FlowCell),
    /// Send this merged record with a PUT, then work with it.
    Update(FlowCell),
    /// Send this new record with a POST and work with what comes back.
    Register(FlowCell),
    /// The flow cell is unknown and registration is off: leave the
    /// directory without error.
    SkipNotRegistered,
}

/// Whether the remote sequencing status still allows updates.
pub open spec fn spec_status_updatable(s: Seq<char>) -> bool {
    s == "initial"@ || s == "in_progress"@
}

/// Decide the synchronization step after resolving the flow cell.
///
/// A 200 with updates disabled keeps the remote record; with updates enabled
/// the record is rebuilt and merged, unless the remote status is final and
/// `skip_if_status_final` holds, in which case the remote record is kept
/// untouched.  A 404 registers a fresh record when registration is enabled
/// and otherwise skips the directory.  Any other answer is fatal.
pub fn plan_sync(
    run_info: &RunInfo,
    run_params: &RunParameters,
    rta_complete: bool,
    outcome: ResolveOutcome,
    settings: &Settings,
) -> (r: Result<SyncAction, IngestError>)
    requires
        spec_reads_wf(run_info.reads@),
        spec_reads_wf(run_params.planned_reads@),
    ensures
        outcome matches ResolveOutcome::Failed(code) ==> r == Err::<SyncAction, IngestError>(
            IngestError::HttpError(code),
        ),
        outcome matches ResolveOutcome::NotFound ==> (if settings.ingest.register {
            match r {
                Ok(a) => a matches SyncAction::Register(fc) && spec_flow_cell_built(
                    fc,
                    *run_info,
                    *run_params,
                    "initial"@,
                    rta_complete,
                    settings.ingest.operator@,
                ),
                Err(e) => e == IngestError::RtaVersionUnparseable && !spec_rta_major_ok(
                    run_params.rta_version@,
                ),
            }
        } else {
            r == Ok::<SyncAction, IngestError>(SyncAction::SkipNotRegistered)
        }),
        outcome matches ResolveOutcome::Found(remote) ==> (if !settings.ingest.update || (
        !spec_status_updatable(remote.status_sequencing@) && settings.ingest.skip_if_status_final) {
            r matches Ok(a) && a matches SyncAction::UseRemote(kept) && kept == remote
        } else {
            match r {
                Ok(a) => a matches SyncAction::Update(m) && spec_flow_cell_merged(
                    m,
                    remote,
                    *run_info,
                    *run_params,
                    rta_complete,
                ),
                Err(e) => e == IngestError::RtaVersionUnparseable && !spec_rta_major_ok(
                    run_params.rta_version@,
                ),
            }
        }),
{
    match outcome {
        ResolveOutcome::Failed(code) => Err(IngestError::HttpError(code)),
        ResolveOutcome::NotFound => {
            if settings.ingest.register {
                proof {
                    reveal_strlit("initial");
                }
                let fc = build_flow_cell(run_info, run_params, rta_complete, Option::None, settings)?;
                Ok(SyncAction::Register(fc))
            } else {
                Ok(SyncAction::SkipNotRegistered)
            }
        },
        ResolveOutcome::Found(remote) => {
            if !settings.ingest.update {
                return Ok(SyncAction::UseRemote(remote));
            }
            let updatable = crate::strutil::str_eq(remote.status_sequencing.as_str(), "initial")
                || crate::strutil::str_eq(remote.status_sequencing.as_str(), "in_progress");
            if !updatable && settings.ingest.skip_if_status_final {
                return Ok(SyncAction::UseRemote(remote));
            }
            let prev = remote.status_sequencing.clone();
            let rebuilt = build_flow_cell(
                run_info,
                run_params,
                rta_complete,
                Option::Some(prev),
                settings,
            )?;
            let merged = merge_flowcell(&remote, &rebuilt);
            Ok(SyncAction::Update(merged))
        },
    }
}

/// How many occurrences of `c` the string holds.
pub open spec fn spec_count_char(s: Seq<char>, c: char) -> nat
    decreases s.len(),
{
    if s.len() == 0 {
        0
    } else {
        spec_count_char(s.drop_last(), c) + if s.last() == c {
            1nat
        } else {
            0nat
        }
    }
}

/// Count the occurrences of `c` in the string.
pub fn count_char(s: &str, c: char) -> (r: usize)
    ensures
        r == spec_count_char(s@, c),
{
    let n = s.unicode_len();
    let mut count: usize = 0;
    let mut i: usize = 0;
    while i < n
        invariant
            0 <= i <= n,
            n == s@.len(),
            count == spec_count_char(s@.take(i as int), c),
            count <= i,
        decreases n - i,
    {
        proof {
            assert(s@.take(i + 1).drop_last() =~= s@.take(i as int));
            assert(s@.take(i + 1).last() == s@[i as int]);
        }
        if s.get_char(i) == c {
            count += 1;
        }
        i += 1;
    }
    proof {
        assert(s@.take(n as int) =~= s@);
    }
    count
}

/// Whether the adapter analysis is skipped: the service already holds one
/// histogram per lane and index read — `num_lanes` times the number of `B`
/// tokens in the encoded planned reads — and the analysis is not forced.
pub fn skip_adapter_analysis(
    num_hists: usize,
    num_lanes: i32,
    planned_reads: &str,
    force_analyze_adapters: bool,
) -> (r: bool)
    requires
        num_lanes >= 0,
    ensures
        r == (num_hists == num_lanes * spec_count_char(planned_reads@, 'B')
            && !force_analyze_adapters),
{
    let b_count = count_char(planned_reads, 'B');
    proof {
        assert((num_lanes as int) * (b_count as int) < 0x8000_0000 * 0x1_0000_0000_0000_0000)
            by (nonlinear_arith)
            requires
                0 <= num_lanes < 0x8000_0000,
                0 <= b_count < 0x1_0000_0000_0000_0000,
        ;
    }
    let expected: u128 = (num_lanes as u128) * (b_count as u128);
    (num_hists as u128) == expected && !force_analyze_adapters
}

/// The resolve endpoint's path for one flow cell identity.
pub fn resolve_flowcell_path(
    project_uuid: &str,
    instrument: &str,
    run_number: i32,
    flowcell: &str,
) -> (r: String)
    ensures
        r@ == "api/flowcells/"@ + project_uuid@ + "/resolve/"@ + instrument@ + "/"@ + spec_idec(
            run_number as int,
        ) + "/"@ + flowcell@ + "/"@,
{
    let mut out = String::new();
    out.append("api/flowcells/");
    out.append(project_uuid);
    out.append("/resolve/");
    out.append(instrument);
    out.append("/");
    push_idec(&mut out, run_number);
    out.append("/");
    out.append(flowcell);
    out.append("/");
    proof {
        assert(out@ =~= "api/flowcells/"@ + project_uuid@ + "/resolve/"@ + instrument@ + "/"@
            + spec_idec(run_number as int) + "/"@ + flowcell@ + "/"@);
    }
    out
}

/// The flow cell collection path of a project, for registration.
pub fn project_flowcells_path(project_uuid: &str) -> (r: String)
    ensures
        r@ == "api/flowcells/"@ + project_uuid@ + "/"@,
{
    let mut out = String::new();
    out.append("api/flowcells/");
    out.append(project_uuid);
    out.append("/");
    proof {
        assert(out@ =~= "api/flowcells/"@ + project_uuid@ + "/"@);
    }
    out
}

/// The path of one flow cell record, for reading and updating.
pub fn project_flowcell_path(project_uuid: &str, flowcell_uuid: &str) -> (r: String)
    ensures
        r@ == "api/flowcells/"@ + project_uuid@ + "/"@ + flowcell_uuid@ + "/"@,
{
    let mut out = String::new();
    out.append("api/flowcells/");
    out.append(project_uuid);
    out.append("/");
    out.append(flowcell_uuid);
    out.append("/");
    proof {
        assert(out@ =~= "api/flowcells/"@ + project_uuid@ + "/"@ + flowcell_uuid@ + "/"@);
    }
    out
}

/// The index-histogram collection path of one flow cell, for listing and
/// posting histograms.
pub fn index_histograms_path(project_uuid: &str, flowcell_uuid: &str) -> (r: String)
    ensures
        r@ == "api/indexhistos/"@ + project_uuid@ + "/"@ + flowcell_uuid@ + "/"@,
{
    let mut out = String::new();
    out.append("api/indexhistos/");
    out.append(project_uuid);
    out.append("/");
    out.append(flowcell_uuid);
    out.append("/");
    proof {
        assert(out@ =~= "api/indexhistos/"@ + project_uuid@ + "/"@ + flowcell_uuid@ + "/"@);
    }
    out
}

} // verus!
