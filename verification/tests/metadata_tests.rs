//! The metadata index: creation, merge rules, replay serialization.

use uuid::Uuid;
use zelos_trace::ipc;
use zelos_trace::metadata::TraceMetadata;
use zelos_trace::Value;

fn start_msg(segment_id: u128, source_name: &str, time_ns: i64) -> ipc::IpcMessageWithId {
    ipc::IpcMessageWithId {
        segment_id,
        source_name: source_name.to_string(),
        msg: ipc::TraceSegmentStart {
            time_ns,
            source_name: source_name.to_string(),
        }
        .into(),
    }
}

fn end_msg(segment_id: u128, source_name: &str, time_ns: i64) -> ipc::IpcMessageWithId {
    ipc::IpcMessageWithId {
        segment_id,
        source_name: source_name.to_string(),
        msg: ipc::TraceSegmentEnd { time_ns }.into(),
    }
}

fn schema_msg(
    segment_id: u128,
    source_name: &str,
    event: &str,
    fields: Vec<(&str, zelos_trace::DataType)>,
) -> ipc::IpcMessageWithId {
    ipc::IpcMessageWithId {
        segment_id,
        source_name: source_name.to_string(),
        msg: ipc::TraceEventSchema {
            name: event.to_string(),
            fields: fields
                .into_iter()
                .map(|(n, dt)| ipc::TraceEventFieldMetadata {
                    name: n.to_string(),
                    data_type: dt,
                    unit: None,
                })
                .collect(),
        }
        .into(),
    }
}

fn named_values_msg(
    segment_id: u128,
    source_name: &str,
    event: &str,
    field: &str,
    pairs: Vec<(Value, &str)>,
) -> ipc::IpcMessageWithId {
    let mut values = ipc::ValueTable::new();
    for (k, v) in pairs {
        values.insert(k, v.to_string());
    }
    ipc::IpcMessageWithId {
        segment_id,
        source_name: source_name.to_string(),
        msg: ipc::TraceEventFieldNamedValues {
            event_name: event.to_string(),
            field_name: field.to_string(),
            values,
        }
        .into(),
    }
}

fn event_msg(segment_id: u128, source_name: &str, event: &str, time_ns: i64) -> ipc::IpcMessageWithId {
    ipc::IpcMessageWithId {
        segment_id,
        source_name: source_name.to_string(),
        msg: ipc::TraceEvent {
            time_ns,
            name: event.to_string(),
            fields: ipc::FieldMap::new(),
        }
        .into(),
    }
}

#[test]
fn test_basic() {
    let mut metadata = TraceMetadata::new();

    let segment_id = Uuid::try_parse("0196c84d-6eb8-7c46-83b1-e4cac73ba9b6")
        .unwrap()
        .as_u128();
    let source_name = "src";
    let start = ipc::TraceSegmentStart {
        time_ns: 0,
        source_name: source_name.to_string(),
    };
    metadata.update(&ipc::IpcMessageWithId {
        segment_id,
        source_name: source_name.to_string(),
        msg: start.into(),
    });

    {
        let seg = metadata.get_segment(segment_id).unwrap();
        assert_eq!(seg.id, segment_id);
        assert_eq!(seg.source, "src");
        assert_eq!(seg.start_time, Some(0));
        assert_eq!(seg.end_time, None);
    }

    let end = ipc::TraceSegmentEnd { time_ns: 1 };
    metadata.update(&ipc::IpcMessageWithId {
        segment_id,
        source_name: source_name.to_string(),
        msg: end.into(),
    });

    {
        let seg = metadata.get_segment(segment_id).unwrap();
        assert_eq!(seg.end_time, Some(1));
    }
}

#[test]
fn earliest_start_wins() {
    let mut metadata = TraceMetadata::new();
    let id: u128 = 7;
    metadata.update(&start_msg(id, "src", 50));
    metadata.update(&start_msg(id, "src", 20));
    metadata.update(&start_msg(id, "src", 90));
    let seg = metadata.get_segment(id).unwrap();
    assert_eq!(seg.start_time, Some(20));
}

#[test]
fn latest_end_wins() {
    let mut metadata = TraceMetadata::new();
    let id: u128 = 7;
    metadata.update(&end_msg(id, "src", 10));
    metadata.update(&end_msg(id, "src", 30));
    metadata.update(&end_msg(id, "src", 25));
    let seg = metadata.get_segment(id).unwrap();
    assert_eq!(seg.end_time, Some(25));
}

#[test]
fn schema_is_write_once() {
    let mut metadata = TraceMetadata::new();
    let id: u128 = 9;
    metadata.update(&schema_msg(id, "src", "hello", vec![("a", zelos_trace::DataType::Int32)]));
    metadata.update(&schema_msg(id, "src", "hello", vec![("b", zelos_trace::DataType::Int64)]));
    let seg = metadata.get_segment(id).unwrap();
    assert_eq!(seg.schemas.len(), 1);
    assert_eq!(seg.schemas[0].name, "hello");
    assert_eq!(seg.schemas[0].fields.len(), 1);
    assert_eq!(seg.schemas[0].fields[0].metadata.name, "a");
}

#[test]
fn trace_event_never_touches_metadata() {
    let mut metadata = TraceMetadata::new();
    let id: u128 = 11;
    metadata.update(&event_msg(id, "src", "hello", 1));
    assert!(metadata.get_segment(id).is_none());
    metadata.update(&start_msg(id, "src", 5));
    metadata.update(&event_msg(id, "src", "hello", 2));
    let seg = metadata.get_segment(id).unwrap();
    assert_eq!(seg.start_time, Some(5));
    assert_eq!(seg.schemas.len(), 0);
}

#[test]
fn update_is_idempotent() {
    let mut once = TraceMetadata::new();
    let mut twice = TraceMetadata::new();
    let id: u128 = 13;
    let msgs = vec![
        start_msg(id, "src", 50),
        schema_msg(id, "src", "hello", vec![("sig", zelos_trace::DataType::UInt8)]),
        named_values_msg(id, "src", "hello", "sig", vec![(Value::UInt8(0), "idle")]),
        end_msg(id, "src", 60),
    ];
    for m in &msgs {
        once.update(m);
        twice.update(m);
        twice.update(m);
    }
    let a = once.get_segment(id).unwrap();
    let b = twice.get_segment(id).unwrap();
    assert_eq!(a.start_time, b.start_time);
    assert_eq!(a.end_time, b.end_time);
    assert_eq!(a.schemas.len(), b.schemas.len());
    assert_eq!(a.schemas[0].fields[0].values.len(), b.schemas[0].fields[0].values.len());
}

#[test]
fn replay_reconstructs_metadata() {
    let mut metadata = TraceMetadata::new();
    let id: u128 = 17;
    metadata.update(&start_msg(id, "src", 50));
    metadata.update(&schema_msg(id, "src", "hello", vec![("sig", zelos_trace::DataType::UInt8)]));
    metadata.update(&named_values_msg(
        id,
        "src",
        "hello",
        "sig",
        vec![(Value::UInt8(0), "idle")],
    ));
    metadata.update(&end_msg(id, "src", 60));

    let replay = metadata.as_ipc();
    let rebuilt = TraceMetadata::from(replay);
    let a = metadata.get_segment(id).unwrap();
    let b = rebuilt.get_segment(id).unwrap();
    assert_eq!(a.id, b.id);
    assert_eq!(a.source, b.source);
    assert_eq!(a.start_time, b.start_time);
    assert_eq!(a.end_time, b.end_time);
    assert_eq!(a.schemas.len(), b.schemas.len());
    assert_eq!(a.schemas[0].name, b.schemas[0].name);
    assert_eq!(a.schemas[0].fields[0].metadata.name, b.schemas[0].fields[0].metadata.name);
    assert_eq!(a.schemas[0].fields[0].values.len(), b.schemas[0].fields[0].values.len());
}

#[test]
fn value_table_accumulates_last_write_wins() {
    let mut metadata = TraceMetadata::new();
    let id: u128 = 19;
    metadata.update(&schema_msg(id, "status_src", "status", vec![(
        "status_code",
        zelos_trace::DataType::UInt8,
    )]));
    metadata.update(&named_values_msg(
        id,
        "status_src",
        "status",
        "status_code",
        vec![(Value::UInt8(0), "idle"), (Value::UInt8(1), "busy")],
    ));

    // The replay must contain a named-values message carrying exactly
    // these two labels.
    let replay = metadata.as_ipc();
    let nv = replay
        .iter()
        .find_map(|m| match &m.msg {
            ipc::IpcMessage::TraceEventFieldNamedValues(nv) => Some(nv),
            _ => None,
        })
        .expect("replay holds a named-values message");
    assert_eq!(nv.event_name, "status");
    assert_eq!(nv.field_name, "status_code");
    let pairs = nv.values.pairs();
    assert_eq!(pairs.len(), 2);
    assert!(pairs.contains(&(Value::UInt8(0), "idle".to_string())));
    assert!(pairs.contains(&(Value::UInt8(1), "busy".to_string())));

    // Re-adding a label for an existing key overwrites it.
    metadata.update(&named_values_msg(
        id,
        "status_src",
        "status",
        "status_code",
        vec![(Value::UInt8(1), "BUSY")],
    ));
    let replay = metadata.as_ipc();
    let nv = replay
        .iter()
        .find_map(|m| match &m.msg {
            ipc::IpcMessage::TraceEventFieldNamedValues(nv) => Some(nv),
            _ => None,
        })
        .unwrap();
    let pairs = nv.values.pairs();
    assert_eq!(pairs.len(), 2);
    assert!(pairs.contains(&(Value::UInt8(0), "idle".to_string())));
    assert!(pairs.contains(&(Value::UInt8(1), "BUSY".to_string())));
}

#[test]
fn named_values_for_unknown_event_or_field_are_dropped() {
    let mut metadata = TraceMetadata::new();
    let id: u128 = 23;
    metadata.update(&schema_msg(id, "src", "hello", vec![("sig", zelos_trace::DataType::UInt8)]));
    metadata.update(&named_values_msg(
        id,
        "src",
        "absent_event",
        "sig",
        vec![(Value::UInt8(0), "idle")],
    ));
    metadata.update(&named_values_msg(
        id,
        "src",
        "hello",
        "absent_field",
        vec![(Value::UInt8(0), "idle")],
    ));
    let seg = metadata.get_segment(id).unwrap();
    assert_eq!(seg.schemas.len(), 1);
    assert_eq!(seg.schemas[0].fields[0].values.len(), 0);
}

#[test]
fn remove_segment_forgets_it() {
    let mut metadata = TraceMetadata::new();
    let id: u128 = 29;
    metadata.update(&start_msg(id, "src", 1));
    assert!(metadata.get_segment(id).is_some());
    metadata.remove_segment(id);
    assert!(metadata.get_segment(id).is_none());
}
