use trace_profiler::Argument;
use trace_profiler::TraceEvent;
use trace_profiler::TraceEventFormat;

fn sample_events() -> Vec<TraceEvent> {
    vec![
        TraceEvent::B { name: "b".to_string(), pid: 1, ts: 2, tid: Some(3) },
        TraceEvent::B { name: "b2".to_string(), pid: 1, ts: 2, tid: None },
        TraceEvent::E { pid: 1, ts: 5, tid: Some(3) },
        TraceEvent::E { pid: 1, ts: 5, tid: None },
        TraceEvent::X { name: "x".to_string(), pid: 1, ts: 2, dur: 9, tid: Some(3) },
        TraceEvent::X { name: "x2".to_string(), pid: 1, ts: 2, dur: 9, tid: None },
        TraceEvent::M { name: "thread_name".to_string(), pid: 1, args: Argument::new("w"), tid: Some(3) },
        TraceEvent::M { name: "process_name".to_string(), pid: 1, args: Argument::new("w"), tid: None },
        TraceEvent::s {
            name: "0".to_string(),
            pid: 1,
            tid: 3,
            ts: 4,
            cat: "main_to_spawn".to_string(),
            id: 0,
        },
        TraceEvent::f {
            name: "0".to_string(),
            pid: 1,
            tid: 3,
            ts: 6,
            cat: "spawn_to_main".to_string(),
            id: 0,
        },
        TraceEvent::I {},
        TraceEvent::C {},
        TraceEvent::b {},
        TraceEvent::n {},
        TraceEvent::e {},
        TraceEvent::t {},
        TraceEvent::P {},
        TraceEvent::N {},
        TraceEvent::O {},
        TraceEvent::D {},
        TraceEvent::V {},
        TraceEvent::v {},
        TraceEvent::R {},
        TraceEvent::c {},
    ]
}

#[test]
fn round_trip_every_phase_code() {
    for ev in sample_events() {
        let compact = ev.encode();
        let back = TraceEvent::decode(compact.as_str()).unwrap();
        assert_eq!(back, ev);

        let pretty = ev.encode_pretty();
        let back = TraceEvent::decode(pretty.as_str()).unwrap();
        assert_eq!(back, ev);
    }
}

#[test]
fn round_trip_whole_document() {
    let memory = TraceEventFormat::new(sample_events());

    let compact = memory.encode();
    let back = TraceEventFormat::decode(compact.as_str()).unwrap();
    assert_eq!(back, memory);
    // Decoding and re-encoding canonical text reproduces it exactly.
    assert_eq!(back.encode(), compact);

    let pretty = memory.encode_pretty();
    let back = TraceEventFormat::decode(pretty.as_str()).unwrap();
    assert_eq!(back, memory);
}

#[test]
fn round_trip_escaped_names() {
    let ev = TraceEvent::B {
        name: "a\"b\\c".to_string(),
        pid: 0,
        ts: 1,
        tid: None,
    };
    let text = ev.encode();
    assert_eq!(text, "{\"ph\":\"B\",\"name\":\"a\\\"b\\\\c\",\"pid\":0,\"ts\":1}");
    let back = TraceEvent::decode(text.as_str()).unwrap();
    assert_eq!(back, ev);
}

#[test]
fn round_trip_extreme_numbers() {
    let ev = TraceEvent::X {
        name: String::new(),
        pid: u32::MAX,
        ts: u64::MAX,
        dur: 0,
        tid: Some(u64::MAX),
    };
    let back = TraceEvent::decode(ev.encode().as_str()).unwrap();
    assert_eq!(back, ev);
}

#[test]
fn decode_accepts_whitespace() {
    let text = " { \"traceEvents\" : [ { \"ph\" : \"E\" , \"pid\" : 0 , \"ts\" : 7 } ] } ";
    let doc = TraceEventFormat::decode(text).unwrap();
    assert_eq!(doc.events().len(), 1);
    assert_eq!(doc.events()[0], TraceEvent::E { pid: 0, ts: 7, tid: None });
}

#[test]
fn decode_accepts_fields_in_any_order() {
    let ev = TraceEvent::decode("{\"ph\":\"B\",\"ts\":10,\"name\":\"Task A\",\"pid\":0}").unwrap();
    assert_eq!(
        ev,
        TraceEvent::B { name: "Task A".to_string(), pid: 0, ts: 10, tid: None }
    );

    let ev = TraceEvent::decode(
        "{\"ph\":\"s\",\"id\":1,\"cat\":\"main_to_spawn\",\"ts\":4,\"tid\":3,\"pid\":1,\"name\":\"Spawn\"}",
    )
    .unwrap();
    assert_eq!(
        ev,
        TraceEvent::s {
            name: "Spawn".to_string(),
            pid: 1,
            tid: 3,
            ts: 4,
            cat: "main_to_spawn".to_string(),
            id: 1,
        }
    );

    let ev = TraceEvent::decode("{\"ph\":\"X\",\"dur\":50,\"tid\":2,\"ts\":10,\"pid\":0,\"name\":\"t\"}")
        .unwrap();
    assert_eq!(
        ev,
        TraceEvent::X { name: "t".to_string(), pid: 0, ts: 10, dur: 50, tid: Some(2) }
    );
}

#[test]
fn decode_accepts_null_tid() {
    let ev = TraceEvent::decode("{\"ph\":\"E\",\"pid\":0,\"ts\":7,\"tid\":null}").unwrap();
    assert_eq!(ev, TraceEvent::E { pid: 0, ts: 7, tid: None });
    // Flow events need a real identifier; null is not one.
    assert!(
        TraceEvent::decode(
            "{\"ph\":\"s\",\"name\":\"n\",\"pid\":0,\"tid\":null,\"ts\":1,\"cat\":\"c\",\"id\":2}"
        )
        .is_err()
    );
}

#[test]
fn decode_rejects_duplicate_and_foreign_keys() {
    // The same key twice.
    assert!(TraceEvent::decode("{\"ph\":\"E\",\"pid\":0,\"pid\":1,\"ts\":7}").is_err());
    // A key outside the vocabulary.
    assert!(TraceEvent::decode("{\"ph\":\"E\",\"pid\":0,\"ts\":7,\"bogus\":1}").is_err());
    // A known key that this phase does not take.
    assert!(TraceEvent::decode("{\"ph\":\"E\",\"pid\":0,\"ts\":7,\"dur\":1}").is_err());
    // A placeholder object carries no fields at all.
    assert!(TraceEvent::decode("{\"ph\":\"I\",\"name\":\"x\"}").is_err());
    // A metadata event has no timestamp.
    assert!(
        TraceEvent::decode(
            "{\"ph\":\"M\",\"name\":\"n\",\"pid\":0,\"args\":{\"name\":\"v\"},\"ts\":1}"
        )
        .is_err()
    );
}

#[test]
fn decode_rejects_malformed() {
    assert!(TraceEventFormat::decode("").is_err());
    assert!(TraceEventFormat::decode("[]").is_err());
    assert!(TraceEventFormat::decode("{\"traceEvents\":}").is_err());
    assert!(TraceEventFormat::decode("{\"traceEvents\":[").is_err());
    assert!(TraceEventFormat::decode("{\"traceEvents\":[]} trailing").is_err());
    // Unknown phase code.
    assert!(TraceEventFormat::decode("{\"traceEvents\":[{\"ph\":\"q\"}]}").is_err());
    // A process id beyond the 32-bit range.
    assert!(
        TraceEvent::decode("{\"ph\":\"E\",\"pid\":4294967296,\"ts\":0}").is_err()
    );
    // A number beyond the 64-bit range.
    assert!(
        TraceEvent::decode("{\"ph\":\"E\",\"pid\":0,\"ts\":18446744073709551616}").is_err()
    );
    // Required field out of order or missing.
    assert!(TraceEvent::decode("{\"ph\":\"B\",\"pid\":0,\"ts\":0}").is_err());
    assert!(TraceEvent::decode("{\"ph\":\"E\",\"pid\":0}").is_err());
}

#[test]
fn decode_within_range_numbers() {
    let doc = TraceEvent::decode(
        "{\"ph\":\"E\",\"pid\":4294967295,\"ts\":18446744073709551615}",
    )
    .unwrap();
    assert_eq!(doc, TraceEvent::E { pid: u32::MAX, ts: u64::MAX, tid: None });
}
