//! The producer API: schema registration, typed emission, and the
//! builder's validation errors.

use zelos_trace::ipc::IpcMessage;
use zelos_trace::{DataType, Error, TraceSource, Value};

#[test]
fn test_source_basic() -> Result<(), Error> {
    // Create our flume channel for messages
    let (sender, receiver) = flume::unbounded::<zelos_trace::ipc::IpcMessageWithId>();
    // Create our source
    let mut src = TraceSource::new("src", sender.clone());
    let id = src.id;
    assert_ne!(id, 0);

    // Check we get a start event on creation
    {
        let m = receiver.recv().unwrap();
        assert_eq!(m.segment_id, id);
        assert!(matches!(m.msg, IpcMessage::TraceSegmentStart(_)));
    }

    // Create our event
    let evt = src.build_event("hello").add_i32_field("sig", None).build(&mut src)?;

    // Check specific contents of the TraceEventSchema
    {
        let m = receiver.recv().unwrap();
        assert_eq!(m.segment_id, id);
        if let IpcMessage::TraceEventSchema(schema) = &m.msg {
            assert_eq!(schema.name, "hello");
            assert_eq!(schema.fields.len(), 1);
            assert_eq!(schema.fields[0].name, "sig");
            assert_eq!(schema.fields[0].data_type, DataType::Int32);
        } else {
            panic!("Expected TraceEventSchema");
        }
    }

    // Use our event handle to insert
    evt.build().try_insert_i32("sig", 10)?.emit()?;

    // Check specific contents of the first TraceEvent
    {
        let m = receiver.recv().unwrap();
        assert_eq!(m.segment_id, id);
        if let IpcMessage::TraceEvent(event) = &m.msg {
            assert_eq!(event.name, "hello");
            assert_eq!(event.fields.len(), 1);
            let data = event.fields.pairs();
            assert_eq!(data[0].0, "sig");
            assert_eq!(data[0].1, Value::Int32(10));
        } else {
            panic!("Expected TraceEvent");
        }
    }

    // Get the message and insert using that
    src.get_event("hello")?.build().try_insert_i32("sig", 20)?.emit()?;

    // Check specific contents of the second TraceEvent
    {
        let m = receiver.recv().unwrap();
        assert_eq!(m.segment_id, id);
        if let IpcMessage::TraceEvent(event) = &m.msg {
            assert_eq!(event.name, "hello");
            assert_eq!(event.fields.len(), 1);
            let data = event.fields.pairs();
            assert_eq!(data[0].0, "sig");
            assert_eq!(data[0].1, Value::Int32(20));
        } else {
            panic!("Expected TraceEvent");
        }
    }

    // Close the source to trigger the end event
    src.close()?;

    // Check we get an end event on close
    {
        let m = receiver.recv().unwrap();
        assert_eq!(m.segment_id, id);
        assert!(matches!(m.msg, IpcMessage::TraceSegmentEnd(_)));
    }

    Ok(())
}

#[test]
fn builder_rejects_unknown_field_and_type_mismatch() {
    let (sender, _receiver) = flume::unbounded::<zelos_trace::ipc::IpcMessageWithId>();
    let mut src = TraceSource::new("src", sender);
    let evt = src.build_event("hello").add_i32_field("sig", None).build(&mut src).unwrap();

    // An unknown field name is rejected.
    let r = evt.build().try_insert_i32("sig_missing", 0);
    assert!(matches!(r, Err(Error::UnknownField)));

    // A value of the wrong type is rejected.
    let r = evt.build().try_insert_i64("sig", 0);
    assert!(matches!(r, Err(Error::SchemaTypeMismatch)));

    // The declared field with the declared type is accepted.
    assert!(evt.build().try_insert_i32("sig", 10).is_ok());
}

#[test]
fn duplicate_event_is_rejected() {
    let (sender, _receiver) = flume::unbounded::<zelos_trace::ipc::IpcMessageWithId>();
    let mut src = TraceSource::new("src", sender);
    src.build_event("hello").add_i32_field("sig", None).build(&mut src).unwrap();
    let r = src.build_event("hello").add_i32_field("sig", None).build(&mut src);
    assert!(matches!(r, Err(Error::DuplicateEvent)));
}

#[test]
fn get_event_for_unknown_name_fails() {
    let (sender, _receiver) = flume::unbounded::<zelos_trace::ipc::IpcMessageWithId>();
    let src = TraceSource::new("src", sender);
    assert!(matches!(src.get_event("absent"), Err(Error::EventNotFound)));
}

#[test]
fn emit_after_router_gone_reports_unavailable() {
    let (sender, receiver) = flume::unbounded::<zelos_trace::ipc::IpcMessageWithId>();
    let mut src = TraceSource::new("src", sender);
    let evt = src.build_event("hello").add_i32_field("sig", None).build(&mut src).unwrap();
    drop(receiver);
    let r = evt.build().try_insert_i32("sig", 1).unwrap().emit();
    assert!(matches!(r, Err(Error::RouterUnavailable)));
}

#[test]
fn value_table_message_carries_the_pairs() {
    let (sender, receiver) = flume::unbounded::<zelos_trace::ipc::IpcMessageWithId>();
    let src = TraceSource::new("status_src", sender);
    // Skip the start announcement.
    let _ = receiver.recv().unwrap();
    src.add_value_table(
        "status",
        "status_code",
        vec![
            (Value::UInt8(0), "idle".to_string()),
            (Value::UInt8(1), "busy".to_string()),
            (Value::UInt8(1), "BUSY".to_string()),
        ],
    )
    .unwrap();
    let m = receiver.recv().unwrap();
    if let IpcMessage::TraceEventFieldNamedValues(nv) = &m.msg {
        assert_eq!(nv.event_name, "status");
        assert_eq!(nv.field_name, "status_code");
        // The duplicate key was overwritten in place.
        let pairs = nv.values.pairs();
        assert_eq!(pairs.len(), 2);
        assert!(pairs.contains(&(Value::UInt8(0), "idle".to_string())));
        assert!(pairs.contains(&(Value::UInt8(1), "BUSY".to_string())));
    } else {
        panic!("Expected TraceEventFieldNamedValues");
    }
}

#[test]
fn minted_segment_ids_are_version_seven() {
    let (sender, _receiver) = flume::unbounded::<zelos_trace::ipc::IpcMessageWithId>();
    let src = TraceSource::new("src", sender);
    // The version nibble of a freshly minted id reads 7.
    assert_eq!((src.id >> 76) & 0xf, 7);
}

