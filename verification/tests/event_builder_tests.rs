use trace_profiler::Argument;
use trace_profiler::EventBuilder;
use trace_profiler::Phase;
use trace_profiler::TraceEvent;

#[test]
fn event_builder_duration_begin() {
    let memory = EventBuilder::default()
        .phase(Phase::DurationBegin)
        .name("Task A")
        .timestamp(10)
        .process_id(0)
        .build_for_trace_event()
        .unwrap();
    let json = r#"{
  "ph": "B",
  "name": "Task A",
  "pid": 0,
  "ts": 10
}"#;
    let serialized = memory.encode_pretty();
    assert_eq!(serialized, json);

    let deserialized = TraceEvent::decode(json).unwrap();
    assert_eq!(deserialized, memory);
}

#[test]
fn duration_begin_missing_fields() {
    let err = EventBuilder::default()
        .phase(Phase::DurationBegin)
        .build_for_trace_event()
        .unwrap_err();
    assert_eq!(err.kind, "DurationBegin");
    assert_eq!(err.field, "name");

    let err = EventBuilder::default().name("Task A").build_duration_begin().unwrap_err();
    assert_eq!(err.kind, "DurationBegin");
    assert_eq!(err.field, "process_id");

    let err = EventBuilder::default()
        .name("Task A")
        .process_id(0)
        .build_duration_begin()
        .unwrap_err();
    assert_eq!(err.kind, "DurationBegin");
    assert_eq!(err.field, "timestamp");
}

#[test]
fn duration_end_missing_fields() {
    let err = EventBuilder::default().build_duration_end().unwrap_err();
    assert_eq!(err.kind, "DurationEnd");
    assert_eq!(err.field, "process_id");

    let err = EventBuilder::default().process_id(0).build_duration_end().unwrap_err();
    assert_eq!(err.kind, "DurationEnd");
    assert_eq!(err.field, "timestamp");
}

#[test]
fn complete_missing_fields() {
    let err = EventBuilder::default().build_complete().unwrap_err();
    assert_eq!(err.kind, "Complete");
    assert_eq!(err.field, "name");

    let err = EventBuilder::default().name("t").build_complete().unwrap_err();
    assert_eq!(err.kind, "Complete");
    assert_eq!(err.field, "process_id");

    let err = EventBuilder::default().name("t").process_id(0).build_complete().unwrap_err();
    assert_eq!(err.kind, "Complete");
    assert_eq!(err.field, "timestamp");

    let err = EventBuilder::default()
        .name("t")
        .process_id(0)
        .timestamp(1)
        .build_complete()
        .unwrap_err();
    assert_eq!(err.kind, "Complete");
    assert_eq!(err.field, "duration");
}

#[test]
fn metadata_missing_fields() {
    let err = EventBuilder::default().build_metadata().unwrap_err();
    assert_eq!(err.kind, "Metadata");
    assert_eq!(err.field, "name");

    let err = EventBuilder::default().name("t").build_metadata().unwrap_err();
    assert_eq!(err.kind, "Metadata");
    assert_eq!(err.field, "process_id");

    let err = EventBuilder::default().name("t").process_id(0).build_metadata().unwrap_err();
    assert_eq!(err.kind, "Metadata");
    assert_eq!(err.field, "argument");

    let ok = EventBuilder::default()
        .name("t")
        .process_id(0)
        .argument(Argument::new("v"))
        .build_metadata();
    assert!(ok.is_ok());
}

#[test]
fn flow_begin_missing_fields() {
    let err = EventBuilder::default().build_flow_begin().unwrap_err();
    assert_eq!(err.kind, "FlowBegin");
    assert_eq!(err.field, "name");

    let err = EventBuilder::default().name("t").build_flow_begin().unwrap_err();
    assert_eq!(err.kind, "FlowBegin");
    assert_eq!(err.field, "category");

    let err = EventBuilder::default().name("t").category("c").build_flow_begin().unwrap_err();
    assert_eq!(err.kind, "FlowBegin");
    assert_eq!(err.field, "process_id");

    let err = EventBuilder::default()
        .name("t")
        .category("c")
        .process_id(0)
        .build_flow_begin()
        .unwrap_err();
    assert_eq!(err.kind, "FlowBegin");
    assert_eq!(err.field, "thread_id");

    let err = EventBuilder::default()
        .name("t")
        .category("c")
        .process_id(0)
        .thread_id(1)
        .build_flow_begin()
        .unwrap_err();
    assert_eq!(err.kind, "FlowBegin");
    assert_eq!(err.field, "timestamp");

    let err = EventBuilder::default()
        .name("t")
        .category("c")
        .process_id(0)
        .thread_id(1)
        .timestamp(2)
        .build_flow_begin()
        .unwrap_err();
    assert_eq!(err.kind, "FlowBegin");
    assert_eq!(err.field, "id");
}

#[test]
fn flow_end_missing_fields() {
    let err = EventBuilder::default().build_flow_end().unwrap_err();
    assert_eq!(err.kind, "FlowEnd");
    assert_eq!(err.field, "name");

    let err = EventBuilder::default()
        .name("t")
        .category("c")
        .process_id(0)
        .thread_id(1)
        .timestamp(2)
        .build_flow_end()
        .unwrap_err();
    assert_eq!(err.kind, "FlowEnd");
    assert_eq!(err.field, "id");

    let ok = EventBuilder::default()
        .name("t")
        .category("c")
        .process_id(0)
        .thread_id(1)
        .timestamp(2)
        .id(9)
        .build_flow_end();
    assert!(ok.is_ok());
}

#[test]
fn missing_field_message() {
    let err = EventBuilder::default()
        .phase(Phase::DurationBegin)
        .build_for_trace_event()
        .unwrap_err();
    assert_eq!(err.message(), "DurationBegin::name must be initialized");
}

#[test]
fn dispatch_requires_phase() {
    let err = EventBuilder::default().name("Task A").build_for_trace_event().unwrap_err();
    assert_eq!(err.field, "phase");
}
