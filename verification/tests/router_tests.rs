//! The router: replay on subscribe, filtered fanout, eviction and
//! overflow behaviour.  The tests drive the router loop step by step, so
//! every interleaving here is deterministic.

use uuid::Uuid;
use zelos_trace::filter::Filter;
use zelos_trace::subscribe::handle_command;
use zelos_trace::wire;
use zelos_trace::ipc;
use zelos_trace::router::{RouterTask, TraceRouter};
use zelos_trace::sink::SinkHandle;
use zelos_trace::store::MetadataOnlyStore;
use zelos_trace::{Error, TraceSource, Value};

fn step_times(task: &mut RouterTask<MetadataOnlyStore>, sinks: &mut Vec<SinkHandle>, n: usize) {
    for _ in 0..n {
        assert!(task.step(sinks).is_none());
    }
}

fn event_msg(segment_id: u128, source_name: &str, event: &str, time_ns: i64) -> ipc::IpcMessageWithId {
    ipc::IpcMessageWithId {
        segment_id,
        source_name: source_name.to_string(),
        msg: ipc::TraceEvent {
            time_ns,
            name: event.to_string(),
            fields: ipc::FieldMap::new(),
        }
        .into(),
    }
}

/// Start/End roundtrip: a segment that emitted nothing replays exactly
/// its start announcement, and after closing also its end, in order.
#[test]
fn start_end_roundtrip() {
    let (router, mut task) = TraceRouter::new();
    let mut sinks: Vec<SinkHandle> = Vec::new();
    let sender = router.sender();

    let segment_id = Uuid::try_parse("0196c84d-6eb8-7c46-83b1-e4cac73ba9b6")
        .unwrap()
        .as_u128();
    let t0 = zelos_trace::now_time_ns();
    assert!(t0 > 0);
    sender
        .send(ipc::IpcMessageWithId {
            segment_id,
            source_name: "src".to_string(),
            msg: ipc::TraceSegmentStart {
                time_ns: t0,
                source_name: "src".to_string(),
            }
            .into(),
        })
        .unwrap();
    step_times(&mut task, &mut sinks, 1);

    // Before the segment ends, the replay is exactly the start message.
    let (_recv_a, reply_a) = router.subscribe_all_blocking_request().unwrap();
    step_times(&mut task, &mut sinks, 1);
    let replay = reply_a.recv().unwrap().unwrap();
    assert_eq!(replay.len(), 1);
    assert_eq!(replay[0].segment_id, segment_id);
    assert_eq!(replay[0].source_name, "src");
    match &replay[0].msg {
        ipc::IpcMessage::TraceSegmentStart(s) => {
            assert_eq!(s.time_ns, t0);
            assert_eq!(s.source_name, "src");
        }
        other => panic!("expected a start message, got {:?}", other),
    }

    // After the end announcement, the replay is start then end.
    let t1 = zelos_trace::now_time_ns();
    sender
        .send(ipc::IpcMessageWithId {
            segment_id,
            source_name: "src".to_string(),
            msg: ipc::TraceSegmentEnd { time_ns: t1 }.into(),
        })
        .unwrap();
    step_times(&mut task, &mut sinks, 1);

    let (_recv_b, reply_b) = router.subscribe_all_blocking_request().unwrap();
    step_times(&mut task, &mut sinks, 1);
    let replay = reply_b.recv().unwrap().unwrap();
    assert_eq!(replay.len(), 2);
    assert!(matches!(replay[0].msg, ipc::IpcMessage::TraceSegmentStart(_)));
    match &replay[1].msg {
        ipc::IpcMessage::TraceSegmentEnd(e) => {
            assert_eq!(e.time_ns, t1);
            assert!(t0 <= t1);
        }
        other => panic!("expected an end message, got {:?}", other),
    }
}

/// Replay on subscribe: after a start, a schema and a hundred events, a
/// new subscriber first sees the start, then the schema, and none of the
/// past events.
#[test]
fn replay_on_subscribe() {
    let (router, mut task) = TraceRouter::new();
    let mut sinks: Vec<SinkHandle> = Vec::new();

    let mut src = TraceSource::new("src", router.sender());
    let evt = src
        .build_event("hello")
        .add_i32_field("sig", None)
        .build(&mut src)
        .unwrap();
    for i in 0..100 {
        evt.build().try_insert_i32("sig", i).unwrap().emit().unwrap();
    }
    // Start + schema + one hundred events sit in the ingress queue.
    step_times(&mut task, &mut sinks, 102);

    let (_sink, receiver, reply) = router.subscribe_request().unwrap();
    step_times(&mut task, &mut sinks, 1);
    let replay = reply.recv().unwrap().unwrap();
    assert_eq!(replay.len(), 2);
    assert!(matches!(replay[0].msg, ipc::IpcMessage::TraceSegmentStart(_)));
    assert!(matches!(replay[1].msg, ipc::IpcMessage::TraceEventSchema(_)));
    // No past event is replayed, and nothing was delivered live.
    assert!(receiver.try_recv().is_err());
}

/// Filter routing: with one sink filtered to the motor source and one to
/// the battery source, each receives exactly its producer's ten events,
/// in order.
#[test]
fn filter_routing() {
    let (router, mut task) = TraceRouter::new();
    let mut sinks: Vec<SinkHandle> = Vec::new();
    let sender = router.sender();

    let (sink_a, recv_a, reply_a) = router.subscribe_request().unwrap();
    step_times(&mut task, &mut sinks, 1);
    assert!(reply_a.recv().unwrap().unwrap().is_empty());
    sink_a.subscribe(Filter::parse("*/motor/*").unwrap());

    let (sink_b, recv_b, reply_b) = router.subscribe_request().unwrap();
    step_times(&mut task, &mut sinks, 1);
    assert!(reply_b.recv().unwrap().unwrap().is_empty());
    sink_b.subscribe(Filter::parse("*/battery/*").unwrap());

    for i in 0..10 {
        sender.send(event_msg(1, "motor", "m", i)).unwrap();
        sender.send(event_msg(2, "battery", "b", i)).unwrap();
    }
    step_times(&mut task, &mut sinks, 20);

    for i in 0..10 {
        let m = recv_a.try_recv().unwrap();
        assert_eq!(m.source_name, "motor");
        match &m.msg {
            ipc::IpcMessage::TraceEvent(e) => assert_eq!(e.time_ns, i),
            other => panic!("expected an event, got {:?}", other),
        }
    }
    assert!(recv_a.try_recv().is_err());
    for i in 0..10 {
        let m = recv_b.try_recv().unwrap();
        assert_eq!(m.source_name, "battery");
        match &m.msg {
            ipc::IpcMessage::TraceEvent(e) => assert_eq!(e.time_ns, i),
            other => panic!("expected an event, got {:?}", other),
        }
    }
    assert!(recv_b.try_recv().is_err());
}

/// A sink whose receiver is gone is evicted; the router keeps serving the
/// others.
#[test]
fn closed_sink_is_evicted() {
    let (router, mut task) = TraceRouter::new();
    let mut sinks: Vec<SinkHandle> = Vec::new();
    let sender = router.sender();

    let (sink_a, recv_a, reply_a) = router.subscribe_request().unwrap();
    step_times(&mut task, &mut sinks, 1);
    reply_a.recv().unwrap().unwrap();
    sink_a.subscribe(Filter::any());

    let (sink_b, recv_b, reply_b) = router.subscribe_request().unwrap();
    step_times(&mut task, &mut sinks, 1);
    reply_b.recv().unwrap().unwrap();
    sink_b.subscribe(Filter::any());
    assert_eq!(sinks.len(), 2);

    drop(recv_a);
    sender.send(event_msg(1, "src", "e", 1)).unwrap();
    step_times(&mut task, &mut sinks, 1);
    assert_eq!(sinks.len(), 1);

    sender.send(event_msg(1, "src", "e", 2)).unwrap();
    step_times(&mut task, &mut sinks, 1);
    assert_eq!(recv_b.try_recv().unwrap().source_name, "src");
    assert_eq!(recv_b.try_recv().unwrap().source_name, "src");
}

/// Wire subscribe commands edit a sink's filter list: a subscribe starts
/// delivery, an unsubscribe of the structurally equal filter stops it.
#[test]
fn wire_commands_drive_the_filter_list() {
    let (sink, receiver, handle) = zelos_trace::sink::TraceSink::new();
    let msg = event_msg(1, "motor", "m", 1);

    // No filter yet: nothing is delivered.
    assert!(handle.send(&msg).is_ok());
    assert!(receiver.try_recv().is_err());

    handle_command(
        &sink,
        &wire::SubscribeCmd::Subscribe(wire::SubscribeCommand {
            filter: Some("*/motor/*".to_string()),
            start_time: None,
        }),
    );
    assert!(handle.send(&msg).is_ok());
    assert_eq!(receiver.try_recv().unwrap().source_name, "motor");

    handle_command(
        &sink,
        &wire::SubscribeCmd::Unsubscribe(wire::UnsubscribeCommand {
            filter: Some("*/motor/*".to_string()),
        }),
    );
    assert!(handle.send(&msg).is_ok());
    assert!(receiver.try_recv().is_err());
}

/// A full filtered sink drops the overflowing message and reports the
/// lagging subscriber, without blocking.
#[test]
fn filtered_sink_overflow_drops() {
    let (sink, receiver, handle) = zelos_trace::sink::TraceSink::new();
    sink.subscribe(Filter::any());
    let msg = event_msg(1, "src", "e", 1);
    for _ in 0..1024 {
        assert!(handle.send(&msg).is_ok());
    }
    let r = handle.send(&msg);
    assert!(matches!(r, Err(Error::SubscriberLagged)));
    // The first message is still there: the queue kept its contents.
    assert_eq!(receiver.try_recv().unwrap().source_name, "src");
}

/// Cancelling the router drains the ingress queue into the attached
/// sinks before the loop stops.
#[test]
fn cancel_drains_ingress() {
    let (router, mut task) = TraceRouter::new();
    let mut sinks: Vec<SinkHandle> = Vec::new();
    let sender = router.sender();

    let (sink, receiver, reply) = router.subscribe_request().unwrap();
    step_times(&mut task, &mut sinks, 1);
    reply.recv().unwrap().unwrap();
    sink.subscribe(Filter::any());

    sender.send(event_msg(1, "src", "e", 1)).unwrap();
    sender.send(event_msg(1, "src", "e", 2)).unwrap();
    router.cancel().unwrap();
    // The loop may process buffered messages before it sees the cancel
    // signal; either way it stops and nothing is lost.
    let mut stopped = false;
    for _ in 0..3 {
        if let Some(r) = task.step(&mut sinks) {
            assert!(r.is_ok());
            stopped = true;
            break;
        }
    }
    assert!(stopped);
    assert_eq!(receiver.try_recv().unwrap().source_name, "src");
    assert_eq!(receiver.try_recv().unwrap().source_name, "src");
    assert!(receiver.try_recv().is_err());
}

/// Backpressure: with nothing draining the bounded ingress queue, the
/// sync emit path fails fast once the queue fills, and reports the full
/// queue rather than the router being gone.
#[test]
fn sync_emit_fails_fast_when_ingress_fills() {
    let (router, task) = TraceRouter::new();
    let mut src = TraceSource::new("src", router.sender());
    let evt = src
        .build_event("hello")
        .add_i32_field("sig", None)
        .build(&mut src)
        .unwrap();

    // The ingress queue holds 1024 records; the start announcement and
    // the schema announcement already took two slots.
    for i in 0..1022 {
        evt.build().try_insert_i32("sig", i).unwrap().emit().unwrap();
    }
    let r = evt.build().try_insert_i32("sig", 0).unwrap().emit();
    assert!(matches!(r, Err(Error::IngressFull)));
    drop(task);
    // With the router gone the failure changes kind.
    let r = evt.build().try_insert_i32("sig", 0).unwrap().emit();
    assert!(matches!(r, Err(Error::RouterUnavailable)));
}

