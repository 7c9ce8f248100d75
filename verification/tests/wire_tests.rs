//! Values, filters and wire conversions.

use uuid::Uuid;
use zelos_trace::filter::Filter;
use zelos_trace::publish;
use zelos_trace::publish::forward_request_messages;
use zelos_trace::signal::Signal;
use zelos_trace::signal_key::{PathSegment, SignalKey};
use zelos_trace::subscribe;
use zelos_trace::ipc;
use zelos_trace::metadata::TraceMetadata;
use zelos_trace::value::NumberValue;
use zelos_trace::wire;
use zelos_trace::{DataType, Error, Value};

#[test]
fn value_data_type_matches_variant() {
    assert_eq!(Value::Int8(1).data_type(), DataType::Int8);
    assert_eq!(Value::Int16(1).data_type(), DataType::Int16);
    assert_eq!(Value::Int32(1).data_type(), DataType::Int32);
    assert_eq!(Value::Int64(1).data_type(), DataType::Int64);
    assert_eq!(Value::UInt8(1).data_type(), DataType::UInt8);
    assert_eq!(Value::UInt16(1).data_type(), DataType::UInt16);
    assert_eq!(Value::UInt32(1).data_type(), DataType::UInt32);
    assert_eq!(Value::UInt64(1).data_type(), DataType::UInt64);
    assert_eq!(Value::Float32(1.5f32.to_bits()).data_type(), DataType::Float32);
    assert_eq!(Value::Float64(2.5f64.to_bits()).data_type(), DataType::Float64);
    assert_eq!(Value::TimestampNs(1).data_type(), DataType::TimestampNs);
    assert_eq!(Value::Binary(vec![1, 2]).data_type(), DataType::Binary);
    assert_eq!(Value::String("x".to_string()).data_type(), DataType::String);
    assert_eq!(Value::Boolean(true).data_type(), DataType::Boolean);
}

#[test]
fn float_values_compare_by_bit_pattern() {
    let nan_a = f32::NAN.to_bits();
    let nan_b = f32::NAN.to_bits();
    assert_eq!(Value::Float32(nan_a), Value::Float32(nan_b));
    // Positive and negative zero have different bit patterns, so the
    // values differ even though the floats compare equal.
    assert_ne!(
        Value::Float32(0.0f32.to_bits()),
        Value::Float32((-0.0f32).to_bits())
    );
    assert_ne!(Value::Float64(1.5f64.to_bits()), Value::Float32(1.5f32.to_bits()));
}

#[test]
fn wire_value_roundtrip_is_bitwise() {
    let values = vec![
        Value::Int8(-5),
        Value::Int16(-300),
        Value::Int32(70000),
        Value::Int64(-1 << 40),
        Value::UInt8(200),
        Value::UInt16(60000),
        Value::UInt32(4000000000),
        Value::UInt64(u64::MAX),
        Value::Float32(f32::NAN.to_bits()),
        Value::Float64((-0.0f64).to_bits()),
        Value::TimestampNs(123456789),
        Value::Binary(vec![0, 255, 7]),
        Value::String("hi".to_string()),
        Value::Boolean(true),
    ];
    for v in values {
        let w = wire::value_to_wire(&v);
        let back = wire::wire_to_value(&w).unwrap();
        assert_eq!(back, v);
    }
}

#[test]
fn wire_value_out_of_range_is_truncation_error() {
    assert!(matches!(
        wire::wire_to_value(&wire::WireValue::Int8(1000)),
        Err(Error::IntTruncation)
    ));
    assert!(matches!(
        wire::wire_to_value(&wire::WireValue::UInt16(70000)),
        Err(Error::IntTruncation)
    ));
}

#[test]
fn wire_data_type_unspecified_is_missing() {
    assert!(matches!(
        wire::WireDataType::Unspecified.to_data_type(),
        Err(Error::MissingDataType)
    ));
    assert_eq!(
        wire::WireDataType::from_data_type(&DataType::TimestampNs).to_data_type(),
        Ok(DataType::TimestampNs)
    );
}

fn sample_msg() -> ipc::IpcMessageWithId {
    let mut fields = ipc::FieldMap::new();
    fields.insert("sig".to_string(), Value::Int32(10));
    ipc::IpcMessageWithId {
        segment_id: 42,
        source_name: "src".to_string(),
        msg: ipc::TraceEvent {
            time_ns: 7,
            name: "hello".to_string(),
            fields,
        }
        .into(),
    }
}

#[test]
fn wire_message_roundtrip() {
    let msg = sample_msg();
    let w = wire::ipc_to_wire(&msg);
    // The id travels as 16 big-endian bytes.
    assert_eq!(w.segment_id.len(), 16);
    assert_eq!(w.segment_id[15], 42);
    assert!(w.segment_id[..15].iter().all(|b| *b == 0));
    let back = wire::wire_to_ipc(&w).unwrap();
    assert_eq!(back.segment_id, 42);
    assert_eq!(back.source_name, "src");
    match &back.msg {
        ipc::IpcMessage::TraceEvent(e) => {
            assert_eq!(e.time_ns, 7);
            assert_eq!(e.name, "hello");
            assert_eq!(e.fields.pairs()[0], ("sig".to_string(), Value::Int32(10)));
        }
        other => panic!("expected an event, got {:?}", other),
    }
}

#[test]
fn wire_message_without_payload_is_missing_message() {
    let w = wire::TraceMessage {
        segment_id: vec![0; 16],
        source_name: "src".to_string(),
        msg: None,
    };
    assert!(matches!(wire::wire_to_ipc(&w), Err(Error::MissingMessage)));
}

#[test]
fn wire_message_with_short_id_is_invalid_uuid() {
    let w = wire::TraceMessage {
        segment_id: vec![0; 3],
        source_name: "src".to_string(),
        msg: Some(wire::WireMsg::SegmentEnd(wire::WireSegmentEnd { time_ns: 1 })),
    };
    assert!(matches!(wire::wire_to_ipc(&w), Err(Error::InvalidUuid)));
}

#[test]
fn wire_entry_without_value_is_missing_value() {
    let w = wire::TraceMessage {
        segment_id: vec![0; 16],
        source_name: "src".to_string(),
        msg: Some(wire::WireMsg::Event(wire::WireEvent {
            time_ns: 1,
            name: "hello".to_string(),
            fields: vec![wire::WireFieldEntry {
                name: "sig".to_string(),
                value: None,
            }],
        })),
    };
    assert!(matches!(wire::wire_to_ipc(&w), Err(Error::MissingValue)));
}

#[test]
fn subscribe_response_roundtrip() {
    let msgs = vec![sample_msg()];
    let resp = zelos_trace::subscribe::make_response(&msgs);
    let back = resp.as_ipc().unwrap();
    assert_eq!(back.len(), 1);
    assert_eq!(back[0].segment_id, 42);
}

#[test]
fn subscribe_response_without_payload_is_missing_message() {
    let resp = wire::SubscribeResponse { msg: None };
    assert!(matches!(resp.as_ipc(), Err(Error::MissingMessage)));
}

#[test]
fn filter_parse_and_matches() {
    let f = Filter::parse("*/motor/*").unwrap();
    assert_eq!(f.segment_id, None);
    assert_eq!(f.source_name, Some("motor".to_string()));
    assert_eq!(f.event_name, None);

    let motor = ipc::IpcMessageWithId {
        segment_id: 1,
        source_name: "motor".to_string(),
        msg: ipc::TraceEvent {
            time_ns: 1,
            name: "m".to_string(),
            fields: ipc::FieldMap::new(),
        }
        .into(),
    };
    let battery = ipc::IpcMessageWithId {
        segment_id: 2,
        source_name: "battery".to_string(),
        msg: ipc::TraceEvent {
            time_ns: 1,
            name: "b".to_string(),
            fields: ipc::FieldMap::new(),
        }
        .into(),
    };
    assert!(f.matches(&motor));
    assert!(!f.matches(&battery));
    assert!(Filter::any().matches(&motor));
    assert!(Filter::any().matches(&battery));
}

#[test]
fn event_filter_rejects_metadata_messages() {
    let f = Filter::new(None, None, Some("m".to_string()));
    let start = ipc::IpcMessageWithId {
        segment_id: 1,
        source_name: "motor".to_string(),
        msg: ipc::TraceSegmentStart {
            time_ns: 1,
            source_name: "motor".to_string(),
        }
        .into(),
    };
    assert!(!f.matches(&start));
}

#[test]
fn filter_parse_errors() {
    assert!(matches!(Filter::parse("noslash"), Err(Error::InvalidFilter)));
    assert!(matches!(Filter::parse("*/oneslash"), Err(Error::InvalidFilter)));
    assert!(matches!(Filter::parse("bogus/x/y"), Err(Error::InvalidUuid)));
    let id = "0196c84d-6eb8-7c46-83b1-e4cac73ba9b6";
    let f = Filter::parse(&format!("{}/src/evt", id)).unwrap();
    assert_eq!(f.segment_id, Some(Uuid::try_parse(id).unwrap().as_u128()));
}

#[test]
fn filter_text_roundtrip() {
    let id = Uuid::try_parse("0196c84d-6eb8-7c46-83b1-e4cac73ba9b6")
        .unwrap()
        .as_u128();
    let cases = vec![
        Filter::new(Some(id), Some("src".to_string()), Some("evt".to_string())),
        Filter::new(None, None, None),
        Filter::new(Some(id), None, Some("evt.with.dots".to_string())),
    ];
    for f in cases {
        let text = f.to_text();
        let back = Filter::parse(&text).unwrap();
        assert_eq!(back, f);
    }
}

#[test]
fn number_value_conversions() {
    assert_eq!(Value::Int8(-5).as_number(), Some(NumberValue::NegInt(-5)));
    assert_eq!(Value::UInt64(7).as_number(), Some(NumberValue::PosInt(7)));
    assert_eq!(Value::String("x".to_string()).as_number(), None);
    assert_eq!(
        Value::from_number_as_type(&NumberValue::PosInt(200), &DataType::UInt8),
        Some(Value::UInt8(200))
    );
    assert_eq!(
        Value::from_number_as_type(&NumberValue::PosInt(300), &DataType::UInt8),
        None
    );
    assert_eq!(
        Value::from_number_as_type(&NumberValue::NegInt(-1), &DataType::Int64),
        Some(Value::Int64(-1))
    );
    assert_eq!(
        Value::from_number_as_type(&NumberValue::NegInt(-1), &DataType::UInt8),
        None
    );
}

#[test]
fn duckdb_type_names_roundtrip() {
    let all = vec![
        DataType::Int8,
        DataType::Int16,
        DataType::Int32,
        DataType::Int64,
        DataType::UInt8,
        DataType::UInt16,
        DataType::UInt32,
        DataType::UInt64,
        DataType::Float32,
        DataType::Float64,
        DataType::TimestampNs,
        DataType::Binary,
        DataType::String,
        DataType::Boolean,
    ];
    for dt in all {
        let name = dt.to_duckdb_type().to_string();
        assert_eq!(DataType::from_duckdb_type(&name), Ok(dt));
    }
    assert!(matches!(
        DataType::from_duckdb_type(&"NOPE".to_string()),
        Err(Error::UnknownTypeName)
    ));
    assert!(DataType::Int8.is_numeric());
    assert!(!DataType::Binary.is_numeric());
}

#[test]
fn publish_decisions() {
    let cfg = publish::TracePublishClientConfig::new_with_url("grpc://host:1".to_string());
    assert_eq!(cfg.batch_size, 1000);
    assert_eq!(cfg.batch_timeout_ms, 100);
    assert_eq!(cfg.reconnect_delay_ms, 1000);
    assert_eq!(publish::reconnect_wait_ms(&cfg, 400), 600);
    assert_eq!(publish::reconnect_wait_ms(&cfg, 1500), 0);

    // The reconnect discipline's status transitions.
    assert_eq!(
        publish::next_connection_status(publish::ConnectionEvent::StreamEstablished),
        publish::ConnectionStatus::Connected
    );
    assert_eq!(
        publish::next_connection_status(publish::ConnectionEvent::StreamFailed),
        publish::ConnectionStatus::Error
    );
    assert_eq!(
        publish::next_connection_status(publish::ConnectionEvent::Attempting),
        publish::ConnectionStatus::Connecting
    );

    let status = publish::heartbeat_status(5);
    assert_eq!(status.total_messages, 5);
    assert_eq!(status.successful_messages, 5);
    assert_eq!(status.failed_messages, 0);
    assert_eq!(status.last_error, "");

    let mut batcher = publish::MessageBatcher::new(2);
    assert!(batcher.push(sample_msg()).is_none());
    let batch = batcher.push(sample_msg()).unwrap();
    assert_eq!(batch.len(), 2);
    assert!(batcher.take().is_empty());
}

#[test]
fn forward_request_messages_counts_and_rejects() {
    let (sender, receiver) = flume::unbounded();
    let req = wire::PublishRequest {
        trace_messages: vec![wire::ipc_to_wire(&sample_msg())],
    };
    assert_eq!(forward_request_messages(req, &sender), Ok(1));
    assert_eq!(receiver.try_recv().unwrap().segment_id, 42);

    let bad = wire::PublishRequest {
        trace_messages: vec![wire::TraceMessage {
            segment_id: vec![1, 2],
            source_name: "src".to_string(),
            msg: None,
        }],
    };
    assert!(matches!(
        forward_request_messages(bad, &sender),
        Err(Error::InvalidUuid)
    ));
}

#[test]
fn signal_key_parsing_and_matching() {
    let key = SignalKey::try_parse("*/vehicle/motor.rpm").unwrap();
    assert!(matches!(key.data_segment_id, PathSegment::Wildcard));
    assert_eq!(key.source, "vehicle");
    assert_eq!(key.message, "motor");
    assert_eq!(key.signal, "rpm");

    // The message component may hold a slash; the field is everything
    // after the first dot of the tail.
    let key = SignalKey::try_parse("*/vehicle/motor/aux.rpm.raw").unwrap();
    assert_eq!(key.message, "motor/aux");
    assert_eq!(key.signal, "rpm.raw");

    assert!(SignalKey::try_parse("novehicle.rpm").is_err());
    assert!(SignalKey::try_parse("*/vehicle/motorrpm").is_err());
    assert!(matches!(
        SignalKey::try_parse("zz!/vehicle/motor.rpm"),
        Err(Error::InvalidSignalKey)
    ));
    assert!(matches!(
        SignalKey::try_parse("abc/vehicle/motor.rpm"),
        Err(Error::InvalidUuid)
    ));

    let id = Uuid::try_parse("0196c84d-6eb8-7c46-83b1-e4cac73ba9b6")
        .unwrap()
        .as_u128();
    let sig = Signal {
        data_segment_id: id,
        source: "vehicle".to_string(),
        message: "motor".to_string(),
        signal: "rpm".to_string(),
        data_type: DataType::Float32,
        unit: None,
        value_table: None,
    };
    let key = SignalKey::try_parse("*/vehicle/motor.rpm").unwrap();
    assert!(key.matches(&sig));
    let exact = sig.key();
    assert!(exact.matches(&sig));
    assert_eq!(
        sig.key_string(),
        "0196c84d-6eb8-7c46-83b1-e4cac73ba9b6/vehicle/motor.rpm"
    );
    assert_eq!(
        sig.fully_qualified_table_name(),
        "\"0196c84d-6eb8-7c46-83b1-e4cac73ba9b6\".\"vehicle/motor\""
    );
}

#[test]
fn subscribe_request_builders() {
    let r = subscribe::subscribe_request(Some("*/a/*".to_string()), Some(5));
    match r.cmd {
        Some(wire::SubscribeCmd::Subscribe(c)) => {
            assert_eq!(c.filter.as_deref(), Some("*/a/*"));
            assert_eq!(c.start_time, Some(5));
        }
        other => panic!("expected a subscribe command, got {:?}", other),
    }
    let r = subscribe::unsubscribe_request(None);
    assert!(matches!(
        r.cmd,
        Some(wire::SubscribeCmd::Unsubscribe(wire::UnsubscribeCommand { filter: None }))
    ));
}

#[test]
fn segment_resolves_signals() {
    let mut metadata = TraceMetadata::new();
    let id: u128 = 77;
    let schema = ipc::IpcMessageWithId {
        segment_id: id,
        source_name: "vehicle".to_string(),
        msg: ipc::TraceEventSchema {
            name: "motor".to_string(),
            fields: vec![
                ipc::TraceEventFieldMetadata {
                    name: "rpm".to_string(),
                    data_type: DataType::UInt16,
                    unit: Some("1/min".to_string()),
                },
                ipc::TraceEventFieldMetadata {
                    name: "mode".to_string(),
                    data_type: DataType::UInt8,
                    unit: None,
                },
            ],
        }
        .into(),
    };
    metadata.update(&schema);
    let mut labels = ipc::ValueTable::new();
    labels.insert(Value::UInt8(0), "off".to_string());
    labels.insert(Value::UInt8(1), "on".to_string());
    metadata.update(&ipc::IpcMessageWithId {
        segment_id: id,
        source_name: "vehicle".to_string(),
        msg: ipc::TraceEventFieldNamedValues {
            event_name: "motor".to_string(),
            field_name: "mode".to_string(),
            values: labels,
        }
        .into(),
    });

    let seg = metadata.get_segment(id).unwrap();
    let signals = seg.signals();
    assert_eq!(signals.len(), 2);
    assert_eq!(signals[0].signal, "rpm");
    assert_eq!(signals[0].data_type, DataType::UInt16);
    assert_eq!(signals[0].unit.as_deref(), Some("1/min"));
    assert!(signals[0].value_table.is_none());
    assert_eq!(signals[1].signal, "mode");
    let vt = signals[1].value_table.as_ref().unwrap();
    assert_eq!(vt.len(), 2);
    assert_eq!(vt[0], (NumberValue::PosInt(0), "off".to_string()));
    assert_eq!(vt[1], (NumberValue::PosInt(1), "on".to_string()));

    let key = SignalKey::try_parse("*/vehicle/motor.mode").unwrap();
    let sig = seg.maybe_signal_matching(&key).unwrap();
    assert_eq!(sig.message, "motor");
    assert_eq!(sig.signal, "mode");
    assert!(seg
        .maybe_signal_matching(&SignalKey::try_parse("*/vehicle/motor.absent").unwrap())
        .is_none());
    assert!(seg
        .maybe_signal_matching(&SignalKey::try_parse("*/other/motor.mode").unwrap())
        .is_none());
    assert_eq!(seg.signals_matching(&vec![key]).len(), 1);
}
