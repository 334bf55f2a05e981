//! The manifest queries end to end, on real XML text.

use digestiflow::reads::ReadDescription;
use digestiflow::xmlio::{
    process_xml, process_xml_param_doc_miniseq, process_xml_param_doc_miseq, process_xml_run_info,
};
use digestiflow::{FolderLayout, IngestError};

fn rd(number: i32, num_cycles: i32, is_index: bool) -> ReadDescription {
    ReadDescription { number, num_cycles, is_index }
}

const RUN_INFO: &str = "<?xml version=\"1.0\"?>\
<RunInfo Version=\"2\">\
  <Run Id=\"210503_M00001_0042_FC1\" Number=\"42\">\
    <Flowcell>FC1</Flowcell>\
    <Instrument>M00001</Instrument>\
    <Date>210503</Date>\
    <Reads>\
      <Read Number=\"1\" NumCycles=\"76\" IsIndexedRead=\"N\" />\
      <Read Number=\"2\" NumCycles=\"8\" IsIndexedRead=\"Y\" />\
      <Read Number=\"3\" NumCycles=\"0\" IsIndexedRead=\"Y\" />\
      <Read Number=\"4\" NumCycles=\"76\" IsIndexedRead=\"N\" />\
    </Reads>\
    <FlowcellLayout LaneCount=\"4\" />\
  </Run>\
</RunInfo>";

#[test]
fn run_info_is_interpreted() {
    let ri = process_xml_run_info(RUN_INFO).unwrap();
    assert_eq!(ri.run_id, "210503_M00001_0042_FC1");
    assert_eq!(ri.run_number, 42);
    assert_eq!(ri.flowcell, "FC1");
    assert_eq!(ri.instrument, "M00001");
    assert_eq!(ri.date, "2021-05-03");
    assert_eq!(ri.lane_count, 4);
    // The zero-cycle read is dropped.
    assert_eq!(ri.reads, vec![rd(1, 76, false), rd(2, 8, true), rd(4, 76, false)]);
}

#[test]
fn run_info_with_us_date_is_interpreted() {
    let text = RUN_INFO.replace("210503", "5/3/2021 9:15:00 AM");
    let ri = process_xml_run_info(&text).unwrap();
    assert_eq!(ri.date, "2021-05-03");
}

#[test]
fn run_info_with_bad_date_fails() {
    let text = RUN_INFO.replace("210503", "someday");
    assert_eq!(process_xml_run_info(&text).map(|_| ()), Err(IngestError::DateUnparseable));
}

#[test]
fn broken_xml_fails_the_manifest() {
    assert_eq!(process_xml_run_info("<open").map(|_| ()), Err(IngestError::ManifestParse));
}

const MINISEQ_PARAMS: &str = "<?xml version=\"1.0\"?>\
<RunParameters>\
  <PlannedRead1Cycles>76</PlannedRead1Cycles>\
  <PlannedIndex1ReadCycles>8</PlannedIndex1ReadCycles>\
  <PlannedIndex2ReadCycles>0</PlannedIndex2ReadCycles>\
  <PlannedRead2Cycles>76</PlannedRead2Cycles>\
  <RtaVersion>v3.4.4</RtaVersion>\
  <RTAVersion></RTAVersion>\
  <RunNumber>42</RunNumber>\
  <ExperimentName>demo</ExperimentName>\
</RunParameters>";

#[test]
fn miniseq_parameters_are_interpreted() {
    // The four-field scenario: the zero-cycle entry is omitted.
    let rp = process_xml_param_doc_miniseq(MINISEQ_PARAMS).unwrap();
    assert_eq!(rp.planned_reads, vec![rd(1, 76, false), rd(2, 8, true), rd(3, 76, false)]);
    assert_eq!(rp.rta_version, "3.4.4");
    assert_eq!(rp.run_number, 42);
    assert_eq!(rp.flowcell_slot, "A");
    assert_eq!(rp.experiment_name, "demo");
}

const MISEQ_PARAMS: &str = "<?xml version=\"1.0\"?>\
<RunParameters>\
  <Reads>\
    <RunInfoRead Number=\"1\" NumCycles=\"76\" IsIndexedRead=\"N\" />\
    <RunInfoRead Number=\"2\" NumCycles=\"8\" IsIndexedRead=\"Y\" />\
  </Reads>\
  <RTAVersion>2.7.6</RTAVersion>\
  <ScanNumber>42</ScanNumber>\
  <FCPosition>B</FCPosition>\
  <ExperimentName>demo</ExperimentName>\
</RunParameters>";

#[test]
fn miseq_parameters_are_interpreted() {
    let rp = process_xml_param_doc_miseq(MISEQ_PARAMS).unwrap();
    assert_eq!(rp.planned_reads, vec![rd(1, 76, false), rd(2, 8, true)]);
    // No `RtaVersion` value: the old field is used unchanged.
    assert_eq!(rp.rta_version, "2.7.6");
    assert_eq!(rp.run_number, 42);
    assert_eq!(rp.flowcell_slot, "B");
}

#[test]
fn miseq_empty_slot_defaults_to_a() {
    let text = MISEQ_PARAMS.replace("<FCPosition>B</FCPosition>", "<FCPosition></FCPosition>");
    let rp = process_xml_param_doc_miseq(&text).unwrap();
    assert_eq!(rp.flowcell_slot, "A");
}

#[test]
fn process_xml_dispatches_on_the_layout() {
    let (ri, rp) = process_xml(FolderLayout::MiniSeq, RUN_INFO, MINISEQ_PARAMS).unwrap();
    assert_eq!(ri.run_number, 42);
    assert_eq!(rp.rta_version, "3.4.4");
    let (_, rp2) = process_xml(FolderLayout::MiSeq, RUN_INFO, MISEQ_PARAMS).unwrap();
    assert_eq!(rp2.flowcell_slot, "B");
    assert_eq!(
        process_xml(FolderLayout::HiSeqX, RUN_INFO, MINISEQ_PARAMS).map(|_| ()),
        Err(IngestError::LayoutUnsupported)
    );
}
