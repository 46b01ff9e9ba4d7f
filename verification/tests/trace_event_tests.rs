use trace_profiler::Argument;
use trace_profiler::TraceEvent;

#[test]
fn trace_event_duration_begin() {
    let memory = TraceEvent::B {
        name: "Task A".to_string(),
        pid: 1,
        ts: 10,
        tid: None,
    };
    let json = r#"{
  "ph": "B",
  "name": "Task A",
  "pid": 1,
  "ts": 10
}"#;
    let serialized = memory.encode_pretty();
    assert_eq!(serialized, json);

    let deserialized = TraceEvent::decode(json).unwrap();
    assert_eq!(deserialized, memory);
}

#[test]
fn tid_omitted_when_absent() {
    let b = TraceEvent::B { name: "a".to_string(), pid: 0, ts: 1, tid: None };
    assert!(!b.encode().contains("tid"));
    let e = TraceEvent::E { pid: 0, ts: 1, tid: None };
    assert!(!e.encode().contains("tid"));
    let x = TraceEvent::X { name: "a".to_string(), pid: 0, ts: 1, dur: 2, tid: None };
    assert!(!x.encode().contains("tid"));
    let m = TraceEvent::M { name: "a".to_string(), pid: 0, args: Argument::new("v"), tid: None };
    assert!(!m.encode().contains("tid"));
}

#[test]
fn tid_present_when_supplied() {
    let b = TraceEvent::B { name: "a".to_string(), pid: 0, ts: 1, tid: Some(7) };
    assert_eq!(b.encode(), "{\"ph\":\"B\",\"name\":\"a\",\"pid\":0,\"ts\":1,\"tid\":7}");
    let e = TraceEvent::E { pid: 0, ts: 1, tid: Some(8) };
    assert_eq!(e.encode(), "{\"ph\":\"E\",\"pid\":0,\"ts\":1,\"tid\":8}");
    let x = TraceEvent::X { name: "a".to_string(), pid: 0, ts: 1, dur: 2, tid: Some(9) };
    assert_eq!(x.encode(), "{\"ph\":\"X\",\"name\":\"a\",\"pid\":0,\"ts\":1,\"dur\":2,\"tid\":9}");
    let m = TraceEvent::M { name: "a".to_string(), pid: 0, args: Argument::new("v"), tid: Some(3) };
    assert_eq!(
        m.encode(),
        "{\"ph\":\"M\",\"name\":\"a\",\"pid\":0,\"args\":{\"name\":\"v\"},\"tid\":3}"
    );
}

#[test]
fn argument_wraps_name() {
    let a = Argument::new("display");
    assert_eq!(a.name_str(), "display");
    assert_eq!(a, Argument::new("display"));
}
