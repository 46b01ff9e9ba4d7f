use trace_profiler::EventBuilder;
use trace_profiler::Phase;
use trace_profiler::TraceEventFormat;

#[test]
fn serialize_root_simple() {
    let task_a = EventBuilder::default()
        .phase(Phase::Complete)
        .name("task A")
        .timestamp(10)
        .duration(50)
        .process_id(0)
        .build_for_trace_event()
        .unwrap();

    let memory = TraceEventFormat::new(vec![task_a]);
    let serialized = memory.encode_pretty();

    let json = r#"{
  "traceEvents": [
    {
      "ph": "X",
      "name": "task A",
      "pid": 0,
      "ts": 10,
      "dur": 50
    }
  ]
}"#;
    assert_eq!(serialized, json);

    let deserialized = TraceEventFormat::decode(json).unwrap();
    assert_eq!(deserialized, memory);
}

#[test]
fn complete_event_envelope() {
    let task_a = EventBuilder::default()
        .phase(Phase::Complete)
        .name("task A")
        .timestamp(10)
        .duration(50)
        .process_id(0)
        .build_for_trace_event()
        .unwrap();
    let memory = TraceEventFormat::new(vec![task_a]);
    assert_eq!(
        memory.encode(),
        "{\"traceEvents\":[{\"ph\":\"X\",\"name\":\"task A\",\"pid\":0,\"ts\":10,\"dur\":50}]}"
    );
}

#[test]
fn empty_envelope() {
    let memory = TraceEventFormat::new(Vec::new());
    assert_eq!(memory.encode(), "{\"traceEvents\":[]}");
    let back = TraceEventFormat::decode("{\"traceEvents\":[]}").unwrap();
    assert_eq!(back.events().len(), 0);
    assert_eq!(memory.encode_pretty(), "{\n  \"traceEvents\": []\n}");
}

#[test]
fn duration_begin_compact_scenario() {
    let ev = EventBuilder::default()
        .phase(Phase::DurationBegin)
        .name("Task A")
        .timestamp(10)
        .process_id(0)
        .build_for_trace_event()
        .unwrap();
    assert_eq!(ev.encode(), "{\"ph\":\"B\",\"name\":\"Task A\",\"pid\":0,\"ts\":10}");
}
