use trace_profiler::Argument;
use trace_profiler::FlowId;
use trace_profiler::Profiler;
use trace_profiler::TraceEvent;

#[test]
fn duration_pair() {
    let mut profiler = Profiler::new(0, 1);
    profiler.begin_duration("Task A");
    profiler.end_duration();
    let events = profiler.events();
    assert_eq!(events.len(), 2);
    match &events[0] {
        TraceEvent::B { name, pid, tid, .. } => {
            assert_eq!(name, "Task A");
            assert_eq!(*pid, 0);
            assert_eq!(*tid, Some(1));
        },
        other => panic!("expected a B event, got {:?}", other),
    }
    match &events[1] {
        TraceEvent::E { pid, tid, .. } => {
            assert_eq!(*pid, 0);
            assert_eq!(*tid, Some(1));
        },
        other => panic!("expected an E event, got {:?}", other),
    }
}

#[test]
fn begin_and_end_duration_records_one_complete_event() {
    let mut profiler = Profiler::new(0, 1);
    let result = profiler.begin_and_end_duration("Task B", || 40 + 2);
    assert_eq!(result, 42);
    let events = profiler.events();
    assert_eq!(events.len(), 1);
    match &events[0] {
        TraceEvent::X { name, pid, ts, dur, tid } => {
            assert_eq!(name, "Task B");
            assert_eq!(*pid, 0);
            assert_eq!(*tid, Some(1));
            // The duration is the difference of two readings taken around
            // the computation, so it can never be negative; both fit u64.
            assert!(*ts <= u64::MAX && *dur <= u64::MAX);
        },
        other => panic!("expected an X event, got {:?}", other),
    }
}

#[test]
fn flow_pairing() {
    let mut profiler = Profiler::new(0, 1);
    let id = profiler.begin_flow("Spawn", "main_to_spawn");
    assert_eq!(id, 0);
    {
        let events = profiler.events();
        assert_eq!(events.len(), 3);
        assert!(matches!(events[0], TraceEvent::B { .. }));
        match &events[1] {
            TraceEvent::s { name, cat, id: flow, pid, tid, .. } => {
                assert_eq!(name, "Spawn");
                assert_eq!(cat, "main_to_spawn");
                assert_eq!(*flow, id);
                assert_eq!(*pid, 0);
                assert_eq!(*tid, 1);
            },
            other => panic!("expected an s event, got {:?}", other),
        }
        assert!(matches!(events[2], TraceEvent::E { .. }));
    }

    profiler.end_flow("End", "spawn_to_main", id);
    let events = profiler.events();
    assert_eq!(events.len(), 6);
    match &events[3] {
        TraceEvent::f { name, cat, id: flow, .. } => {
            assert_eq!(name, "End");
            assert_eq!(cat, "spawn_to_main");
            assert_eq!(*flow, id);
        },
        other => panic!("expected an f event, got {:?}", other),
    }
    assert!(matches!(events[4], TraceEvent::B { .. }));
    assert!(matches!(events[5], TraceEvent::E { .. }));
}

#[test]
fn flow_ids_strictly_increase() {
    let mut profiler = Profiler::new(0, 1);
    let first = profiler.begin_flow("Task B", "main_to_spawn");
    profiler.end_flow("Task B", "spawn_to_main", first);
    let second = profiler.begin_flow("Task C", "main_to_spawn");
    profiler.end_flow("Task C", "spawn_to_main", second);
    assert_eq!(first, 0);
    assert_eq!(second, 1);
    assert!(first < second);
}

#[test]
fn metadata_names() {
    let mut profiler = Profiler::new(7, 8);
    profiler.current_process_name("metadata test");
    profiler.current_thread_name("metadata thread");
    let events = profiler.events();
    assert_eq!(events.len(), 2);
    assert_eq!(
        events[0],
        TraceEvent::M {
            name: "process_name".to_string(),
            pid: 7,
            args: Argument::new("metadata test"),
            tid: Some(8),
        }
    );
    assert_eq!(
        events[1],
        TraceEvent::M {
            name: "thread_name".to_string(),
            pid: 7,
            args: Argument::new("metadata thread"),
            tid: Some(8),
        }
    );
}

#[test]
fn push_extend_clear() {
    let mut main_log = Profiler::new(0, 1);
    main_log.begin_duration("Task A");

    let mut worker = Profiler::new(0, 2);
    worker.begin_and_end_duration("Task B", || ());
    let worker_events = worker.into_events();

    main_log.extend(worker_events);
    main_log.push(TraceEvent::I {});
    assert_eq!(main_log.events().len(), 3);
    assert!(matches!(main_log.events()[1], TraceEvent::X { .. }));
    assert!(matches!(main_log.events()[2], TraceEvent::I {}));

    main_log.clear();
    assert_eq!(main_log.events().len(), 0);
    // The flow counter survives a clear.
    let id = main_log.begin_flow("Spawn", "main_to_spawn");
    assert_eq!(id, 0);
}

#[test]
fn timestamps_never_decrease() {
    let profiler = Profiler::new(0, 1);
    let first = profiler.current_timestamp();
    let second = profiler.current_timestamp();
    assert!(second >= first);
}

#[test]
fn seeded_flow_counters_partition_ids() {
    let mut first = Profiler::with_flow_counter(0, 1, 0);
    let mut second = Profiler::with_flow_counter(0, 2, 1000);
    assert_eq!(first.begin_flow("Task B", "main_to_spawn"), 0);
    assert_eq!(second.begin_flow("Task C", "main_to_spawn"), 1000);
    assert_eq!(first.begin_flow("Task B", "main_to_spawn"), 1);
    assert_eq!(second.begin_flow("Task C", "main_to_spawn"), 1001);
}

#[test]
fn flow_id_carries_its_parts() {
    let flow = FlowId::new(5, "main_to_spawn");
    assert_eq!(flow.id(), 5);
    assert_eq!(flow.category_str(), "main_to_spawn");
    let copy = flow.clone();
    assert_eq!(copy.id(), 5);
}
