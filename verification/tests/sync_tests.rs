//! The flow cell record, its construction, and the synchronization state
//! machine against the REST service.

use digestiflow::flowcell::{
    build_flow_cell, index_histograms_path, merge_flowcell, plan_sync, project_flowcell_path,
    project_flowcells_path, resolve_flowcell_path, skip_adapter_analysis, FlowCell,
    ResolveOutcome, SyncAction,
};
use digestiflow::manifest::{RunInfo, RunParameters};
use digestiflow::reads::ReadDescription;
use digestiflow::settings::{IngestArgs, Settings, Web};
use digestiflow::IngestError;

fn rd(number: i32, num_cycles: i32, is_index: bool) -> ReadDescription {
    ReadDescription { number, num_cycles, is_index }
}

fn sample_run_info() -> RunInfo {
    RunInfo {
        run_id: "210503_M1_0042_FC1".to_string(),
        run_number: 42,
        flowcell: "FC1".to_string(),
        instrument: "M00001".to_string(),
        date: "2021-05-03".to_string(),
        lane_count: 4,
        reads: vec![rd(1, 76, false), rd(2, 8, true), rd(3, 76, false)],
    }
}

fn sample_run_params() -> RunParameters {
    RunParameters {
        planned_reads: vec![rd(1, 76, false), rd(2, 8, true), rd(3, 76, false)],
        rta_version: "3.4.4".to_string(),
        run_number: 42,
        flowcell_slot: "A".to_string(),
        experiment_name: "demo".to_string(),
    }
}

fn settings_with(register: bool, update: bool, skip_if_status_final: bool) -> Settings {
    let mut s = Settings::default();
    s.ingest.operator = "op".to_string();
    s.ingest.register = register;
    s.ingest.update = update;
    s.ingest.skip_if_status_final = skip_if_status_final;
    s
}

fn remote_with_status(status: &str) -> FlowCell {
    FlowCell {
        sodar_uuid: Some("uuid-1".to_string()),
        run_date: "2021-05-01".to_string(),
        run_number: 42,
        slot: "A".to_string(),
        vendor_id: "FC1".to_string(),
        label: Some("old".to_string()),
        manual_label: Some("hand".to_string()),
        description: None,
        sequencing_machine: "M00001".to_string(),
        num_lanes: 4,
        operator: Some("old-op".to_string()),
        rta_version: 2,
        status_sequencing: status.to_string(),
        status_conversion: "initial".to_string(),
        status_delivery: "initial".to_string(),
        delivery_type: "seq".to_string(),
        planned_reads: Some("151T".to_string()),
        current_reads: Some("151T".to_string()),
    }
}

#[test]
fn built_record_holds_the_manifest_values() {
    let settings = settings_with(true, true, true);
    let fc = build_flow_cell(&sample_run_info(), &sample_run_params(), false, None, &settings)
        .unwrap();
    assert_eq!(fc.sodar_uuid, None);
    assert_eq!(fc.run_date, "2021-05-03");
    assert_eq!(fc.run_number, 42);
    assert_eq!(fc.slot, "A");
    assert_eq!(fc.vendor_id, "FC1");
    assert_eq!(fc.label.as_deref(), Some("demo"));
    assert_eq!(fc.sequencing_machine, "M00001");
    assert_eq!(fc.num_lanes, 4);
    assert_eq!(fc.operator.as_deref(), Some("op"));
    assert_eq!(fc.rta_version, 3);
    assert_eq!(fc.status_sequencing, "in_progress");
    assert_eq!(fc.status_conversion, "initial");
    assert_eq!(fc.delivery_type, "seq");
    assert_eq!(fc.planned_reads.as_deref(), Some("76T8B76T"));
    assert_eq!(fc.current_reads.as_deref(), Some("76T8B76T"));
}

#[test]
fn built_record_completes_on_the_marker() {
    let settings = settings_with(true, true, true);
    let fc = build_flow_cell(&sample_run_info(), &sample_run_params(), true, None, &settings)
        .unwrap();
    assert_eq!(fc.status_sequencing, "complete");
}

#[test]
fn built_record_fails_without_a_version_number() {
    let settings = settings_with(true, true, true);
    let mut params = sample_run_params();
    params.rta_version = "vX".to_string();
    assert_eq!(
        build_flow_cell(&sample_run_info(), &params, false, None, &settings).map(|_| ()),
        Err(IngestError::RtaVersionUnparseable)
    );
}

#[test]
fn merge_takes_reads_and_status_and_keeps_the_rest() {
    let settings = settings_with(true, true, true);
    let remote = remote_with_status("in_progress");
    let rebuilt = build_flow_cell(
        &sample_run_info(),
        &sample_run_params(),
        false,
        Some(remote.status_sequencing.clone()),
        &settings,
    )
    .unwrap();
    let merged = merge_flowcell(&remote, &rebuilt);
    assert_eq!(merged.sodar_uuid.as_deref(), Some("uuid-1"));
    assert_eq!(merged.run_date, "2021-05-01");
    assert_eq!(merged.operator.as_deref(), Some("old-op"));
    assert_eq!(merged.rta_version, 2);
    assert_eq!(merged.planned_reads.as_deref(), Some("76T8B76T"));
    assert_eq!(merged.current_reads.as_deref(), Some("76T8B76T"));
    assert_eq!(merged.status_sequencing, "in_progress");
}

#[test]
fn found_without_update_keeps_the_remote_record() {
    let settings = settings_with(true, false, true);
    let outcome = ResolveOutcome::Found(remote_with_status("failed"));
    match plan_sync(&sample_run_info(), &sample_run_params(), false, outcome, &settings).unwrap()
    {
        SyncAction::UseRemote(kept) => assert_eq!(kept.status_sequencing, "failed"),
        other => panic!("unexpected action: {:?}", action_name(&other)),
    }
}

#[test]
fn found_updatable_status_is_updated() {
    let settings = settings_with(true, true, true);
    let outcome = ResolveOutcome::Found(remote_with_status("in_progress"));
    match plan_sync(&sample_run_info(), &sample_run_params(), false, outcome, &settings).unwrap()
    {
        SyncAction::Update(m) => {
            assert_eq!(m.sodar_uuid.as_deref(), Some("uuid-1"));
            assert_eq!(m.planned_reads.as_deref(), Some("76T8B76T"));
        },
        other => panic!("unexpected action: {:?}", action_name(&other)),
    }
}

#[test]
fn found_final_status_with_skip_is_kept_unchanged() {
    // Resolve 200 with `failed`, updates enabled, skip-if-final set: the
    // remote record is kept as it is.
    let settings = settings_with(true, true, true);
    let outcome = ResolveOutcome::Found(remote_with_status("failed"));
    match plan_sync(&sample_run_info(), &sample_run_params(), false, outcome, &settings).unwrap()
    {
        SyncAction::UseRemote(kept) => {
            assert_eq!(kept.status_sequencing, "failed");
            assert_eq!(kept.planned_reads.as_deref(), Some("151T"));
        },
        other => panic!("unexpected action: {:?}", action_name(&other)),
    }
}

#[test]
fn found_final_status_without_skip_is_updated() {
    let settings = settings_with(true, true, false);
    let outcome = ResolveOutcome::Found(remote_with_status("failed"));
    match plan_sync(&sample_run_info(), &sample_run_params(), false, outcome, &settings).unwrap()
    {
        SyncAction::Update(m) => {
            // The terminal status survives the rebuild.
            assert_eq!(m.status_sequencing, "failed");
            assert_eq!(m.planned_reads.as_deref(), Some("76T8B76T"));
        },
        other => panic!("unexpected action: {:?}", action_name(&other)),
    }
}

#[test]
fn not_found_with_register_registers() {
    let settings = settings_with(true, true, true);
    match plan_sync(
        &sample_run_info(),
        &sample_run_params(),
        false,
        ResolveOutcome::NotFound,
        &settings,
    )
    .unwrap()
    {
        SyncAction::Register(fc) => {
            assert_eq!(fc.sodar_uuid, None);
            assert_eq!(fc.status_sequencing, "in_progress");
        },
        other => panic!("unexpected action: {:?}", action_name(&other)),
    }
}

#[test]
fn not_found_without_register_skips() {
    let settings = settings_with(false, true, true);
    match plan_sync(
        &sample_run_info(),
        &sample_run_params(),
        false,
        ResolveOutcome::NotFound,
        &settings,
    )
    .unwrap()
    {
        SyncAction::SkipNotRegistered => {},
        other => panic!("unexpected action: {:?}", action_name(&other)),
    }
}

#[test]
fn other_answers_are_fatal() {
    let settings = settings_with(true, true, true);
    assert_eq!(
        plan_sync(
            &sample_run_info(),
            &sample_run_params(),
            false,
            ResolveOutcome::Failed(500),
            &settings,
        )
        .map(|_| ()),
        Err(IngestError::HttpError(500))
    );
}

fn action_name(a: &SyncAction) -> &'static str {
    match a {
        SyncAction::UseRemote(_) => "UseRemote",
        SyncAction::Update(_) => "Update",
        SyncAction::Register(_) => "Register",
        SyncAction::SkipNotRegistered => "SkipNotRegistered",
    }
}

#[test]
fn adapter_analysis_is_skipped_when_the_service_is_complete() {
    // Four lanes, two index reads planned: eight histograms satisfy the
    // service, so the analysis is skipped unless forced.
    assert!(skip_adapter_analysis(8, 4, "76T8B8B76T", false));
    assert!(!skip_adapter_analysis(8, 4, "76T8B8B76T", true));
    assert!(!skip_adapter_analysis(7, 4, "76T8B8B76T", false));
    // Without planned index reads, zero histograms already satisfy it.
    assert!(skip_adapter_analysis(0, 4, "76T", false));
}

#[test]
fn rest_paths_are_built_as_the_service_expects() {
    assert_eq!(
        resolve_flowcell_path("proj", "M00001", 42, "FC1"),
        "api/flowcells/proj/resolve/M00001/42/FC1/"
    );
    assert_eq!(project_flowcells_path("proj"), "api/flowcells/proj/");
    assert_eq!(project_flowcell_path("proj", "u1"), "api/flowcells/proj/u1/");
    assert_eq!(index_histograms_path("proj", "u1"), "api/indexhistos/proj/u1/");
}

#[test]
fn default_settings_match_the_documented_defaults() {
    let s = Settings::default();
    assert!(!s.debug && !s.verbose && !s.quiet);
    assert_eq!(s.threads, 1);
    assert_eq!(s.seed, 42);
    assert!(!s.log_token);
    let w = Web::default();
    assert_eq!(w.url, "");
    assert_eq!(w.token, "");
    let i = IngestArgs::default();
    assert!(i.register && i.update && i.analyze_adapters && i.post_adapters);
    assert_eq!(i.sample_tiles, 1);
    assert_eq!(i.sample_reads_per_tile, 0);
    assert!(i.skip_if_status_final);
    assert_eq!(i.min_index_fraction_ppm, 10000);
    assert!(!i.force_analyze_adapters);
}

#[test]
fn missing_project_uuid_is_a_configuration_error() {
    let mut s = Settings::default();
    assert_eq!(
        digestiflow::settings::validate_project_uuid(&s),
        Err(IngestError::ConfigError)
    );
    s.ingest.project_uuid = "p".to_string();
    assert_eq!(digestiflow::settings::validate_project_uuid(&s), Ok(()));
}

#[test]
fn error_descriptions_are_not_empty() {
    for e in [
        IngestError::LayoutUnknown,
        IngestError::LayoutUnsupported,
        IngestError::ManifestMissing,
        IngestError::ManifestParse,
        IngestError::DateUnparseable,
        IngestError::RtaVersionUnparseable,
        IngestError::BadCbcl,
        IngestError::IoError,
        IngestError::StackLengthMismatch,
        IngestError::HttpError(500),
        IngestError::ConfigError,
    ] {
        assert!(!e.describe().is_empty());
    }
}
