//! The wire shapes of the publish and subscribe protocols, and the checked
//! conversions between them and the in-process message types.
//!
//! Wire integers narrower than 32 bits travel widened, so reading them
//! back checks ranges; floating-point payloads travel as their raw bit
//! patterns; a segment id travels as 16 big-endian bytes.  Every field a
//! transport could omit is optional here, and each omission maps to its
//! own error.

use vstd::prelude::*;

use crate::data_type::DataType;
use crate::error::Error;
use crate::ipc;
use crate::segment_id::{be_val, uuid_from_bytes, uuid_to_bytes};
use crate::value::{Value, ValueView};

verus! {

/// The wire form of a type tag; `Unspecified` is the error sentinel a
/// transport's default value decodes to.
#[derive(Clone, Copy, Debug, PartialEq, Eq, Structural)]
pub enum WireDataType {
    Unspecified,
    Int8,
    Int16,
    Int32,
    Int64,
    UInt8,
    UInt16,
    UInt32,
    UInt64,
    Float32,
    Float64,
    TimestampNs,
    Binary,
    String,
    Boolean,
}

/// The wire tag that stands for each type tag.
pub open spec fn spec_dt_to_wire(dt: DataType) -> WireDataType {
    match dt {
        DataType::Int8 => WireDataType::Int8,
        DataType::Int16 => WireDataType::Int16,
        DataType::Int32 => WireDataType::Int32,
        DataType::Int64 => WireDataType::Int64,
        DataType::UInt8 => WireDataType::UInt8,
        DataType::UInt16 => WireDataType::UInt16,
        DataType::UInt32 => WireDataType::UInt32,
        DataType::UInt64 => WireDataType::UInt64,
        DataType::Float32 => WireDataType::Float32,
        DataType::Float64 => WireDataType::Float64,
        DataType::TimestampNs => WireDataType::TimestampNs,
        DataType::Binary => WireDataType::Binary,
        DataType::String => WireDataType::String,
        DataType::Boolean => WireDataType::Boolean,
    }
}

/// The type tag a wire tag stands for; the sentinel stands for none.
pub open spec fn spec_wire_to_dt(w: WireDataType) -> Result<DataType, Error> {
    match w {
        WireDataType::Unspecified => Err(Error::MissingDataType),
        WireDataType::Int8 => Ok(DataType::Int8),
        WireDataType::Int16 => Ok(DataType::Int16),
        WireDataType::Int32 => Ok(DataType::Int32),
        WireDataType::Int64 => Ok(DataType::Int64),
        WireDataType::UInt8 => Ok(DataType::UInt8),
        WireDataType::UInt16 => Ok(DataType::UInt16),
        WireDataType::UInt32 => Ok(DataType::UInt32),
        WireDataType::UInt64 => Ok(DataType::UInt64),
        WireDataType::Float32 => Ok(DataType::Float32),
        WireDataType::Float64 => Ok(DataType::Float64),
        WireDataType::TimestampNs => Ok(DataType::TimestampNs),
        WireDataType::Binary => Ok(DataType::Binary),
        WireDataType::String => Ok(DataType::String),
        WireDataType::Boolean => Ok(DataType::Boolean),
    }
}

impl WireDataType {
    /// The type tag this wire tag stands for, or the missing-type error
    /// for the sentinel.
    pub fn to_data_type(&self) -> (r: Result<DataType, Error>)
        ensures
            r == spec_wire_to_dt(*self),
    {
        match self {
            WireDataType::Unspecified => Err(Error::MissingDataType),
            WireDataType::Int8 => Ok(DataType::Int8),
            WireDataType::Int16 => Ok(DataType::Int16),
            WireDataType::Int32 => Ok(DataType::Int32),
            WireDataType::Int64 => Ok(DataType::Int64),
            WireDataType::UInt8 => Ok(DataType::UInt8),
            WireDataType::UInt16 => Ok(DataType::UInt16),
            WireDataType::UInt32 => Ok(DataType::UInt32),
            WireDataType::UInt64 => Ok(DataType::UInt64),
            WireDataType::Float32 => Ok(DataType::Float32),
            WireDataType::Float64 => Ok(DataType::Float64),
            WireDataType::TimestampNs => Ok(DataType::TimestampNs),
            WireDataType::Binary => Ok(DataType::Binary),
            WireDataType::String => Ok(DataType::String),
            WireDataType::Boolean => Ok(DataType::Boolean),
        }
    }

    /// The wire tag for a type tag.
    pub fn from_data_type(dt: &DataType) -> (r: WireDataType)
        ensures
            r == spec_dt_to_wire(*dt),
    {
        match dt {
            DataType::Int8 => WireDataType::Int8,
            DataType::Int16 => WireDataType::Int16,
            DataType::Int32 => WireDataType::Int32,
            DataType::Int64 => WireDataType::Int64,
            DataType::UInt8 => WireDataType::UInt8,
            DataType::UInt16 => WireDataType::UInt16,
            DataType::UInt32 => WireDataType::UInt32,
            DataType::UInt64 => WireDataType::UInt64,
            DataType::Float32 => WireDataType::Float32,
            DataType::Float64 => WireDataType::Float64,
            DataType::TimestampNs => WireDataType::TimestampNs,
            DataType::Binary => WireDataType::Binary,
            DataType::String => WireDataType::String,
            DataType::Boolean => WireDataType::Boolean,
        }
    }
}

/// A wire tag always reads back as the type tag it was written from.
pub proof fn lemma_dt_roundtrip(dt: DataType)
    ensures
        spec_wire_to_dt(spec_dt_to_wire(dt)) == Ok::<DataType, Error>(dt),
{
}

/// The wire form of a scalar value.  Values narrower than 32 bits travel
/// widened; floats travel as bit patterns.
#[derive(Debug)]
pub enum WireValue {
    Int8(i32),
    Int16(i32),
    Int32(i32),
    Int64(i64),
    UInt8(u32),
    UInt16(u32),
    UInt32(u32),
    UInt64(u64),
    /// The raw bit pattern of a 32-bit float.
    Float32(u32),
    /// The raw bit pattern of a 64-bit float.
    Float64(u64),
    TimestampNs(i64),
    Binary(Vec<u8>),
    String(String),
    Bool(bool),
}

/// The mathematical shape of [`WireValue`].
pub enum WireValueView {
    Int8(i32),
    Int16(i32),
    Int32(i32),
    Int64(i64),
    UInt8(u32),
    UInt16(u32),
    UInt32(u32),
    UInt64(u64),
    Float32(u32),
    Float64(u64),
    TimestampNs(i64),
    Binary(Seq<u8>),
    String(Seq<char>),
    Bool(bool),
}

impl View for WireValue {
    type V = WireValueView;

    open spec fn view(&self) -> WireValueView {
        match self {
            WireValue::Int8(v) => WireValueView::Int8(*v),
            WireValue::Int16(v) => WireValueView::Int16(*v),
            WireValue::Int32(v) => WireValueView::Int32(*v),
            WireValue::Int64(v) => WireValueView::Int64(*v),
            WireValue::UInt8(v) => WireValueView::UInt8(*v),
            WireValue::UInt16(v) => WireValueView::UInt16(*v),
            WireValue::UInt32(v) => WireValueView::UInt32(*v),
            WireValue::UInt64(v) => WireValueView::UInt64(*v),
            WireValue::Float32(v) => WireValueView::Float32(*v),
            WireValue::Float64(v) => WireValueView::Float64(*v),
            WireValue::TimestampNs(v) => WireValueView::TimestampNs(*v),
            WireValue::Binary(v) => WireValueView::Binary(v@),
            WireValue::String(v) => WireValueView::String(v@),
            WireValue::Bool(v) => WireValueView::Bool(*v),
        }
    }
}

/// The wire form of a scalar value.
pub open spec fn spec_value_to_wire(v: ValueView) -> WireValueView {
    match v {
        ValueView::Int8(x) => WireValueView::Int8(x as i32),
        ValueView::Int16(x) => WireValueView::Int16(x as i32),
        ValueView::Int32(x) => WireValueView::Int32(x),
        ValueView::Int64(x) => WireValueView::Int64(x),
        ValueView::UInt8(x) => WireValueView::UInt8(x as u32),
        ValueView::UInt16(x) => WireValueView::UInt16(x as u32),
        ValueView::UInt32(x) => WireValueView::UInt32(x),
        ValueView::UInt64(x) => WireValueView::UInt64(x),
        ValueView::Float32(x) => WireValueView::Float32(x),
        ValueView::Float64(x) => WireValueView::Float64(x),
        ValueView::TimestampNs(x) => WireValueView::TimestampNs(x),
        ValueView::Binary(b) => WireValueView::Binary(b),
        ValueView::String(s) => WireValueView::String(s),
        ValueView::Boolean(b) => WireValueView::Bool(b),
    }
}

/// The scalar a wire value decodes to: a widened integer outside its
/// type's range is a truncation error.
pub open spec fn spec_wire_to_value(w: WireValueView) -> Result<ValueView, Error> {
    match w {
        WireValueView::Int8(x) => if -128 <= x <= 127 {
            Ok(ValueView::Int8(x as i8))
        } else {
            Err(Error::IntTruncation)
        },
        WireValueView::Int16(x) => if -32768 <= x <= 32767 {
            Ok(ValueView::Int16(x as i16))
        } else {
            Err(Error::IntTruncation)
        },
        WireValueView::Int32(x) => Ok(ValueView::Int32(x)),
        WireValueView::Int64(x) => Ok(ValueView::Int64(x)),
        WireValueView::UInt8(x) => if x <= 255 {
            Ok(ValueView::UInt8(x as u8))
        } else {
            Err(Error::IntTruncation)
        },
        WireValueView::UInt16(x) => if x <= 65535 {
            Ok(ValueView::UInt16(x as u16))
        } else {
            Err(Error::IntTruncation)
        },
        WireValueView::UInt32(x) => Ok(ValueView::UInt32(x)),
        WireValueView::UInt64(x) => Ok(ValueView::UInt64(x)),
        WireValueView::Float32(x) => Ok(ValueView::Float32(x)),
        WireValueView::Float64(x) => Ok(ValueView::Float64(x)),
        WireValueView::TimestampNs(x) => Ok(ValueView::TimestampNs(x)),
        WireValueView::Binary(b) => Ok(ValueView::Binary(b)),
        WireValueView::String(s) => Ok(ValueView::String(s)),
        WireValueView::Bool(b) => Ok(ValueView::Boolean(b)),
    }
}

/// A value written to the wire always reads back as itself, bit for bit.
pub proof fn lemma_value_roundtrip(v: ValueView)
    ensures
        spec_wire_to_value(spec_value_to_wire(v)) == Ok::<ValueView, Error>(v),
{
}

/// Encodes a scalar value for the wire.
pub fn value_to_wire(v: &Value) -> (r: WireValue)
    ensures
        r@ == spec_value_to_wire(v@),
{
    match v {
        Value::Int8(x) => WireValue::Int8(*x as i32),
        Value::Int16(x) => WireValue::Int16(*x as i32),
        Value::Int32(x) => WireValue::Int32(*x),
        Value::Int64(x) => WireValue::Int64(*x),
        Value::UInt8(x) => WireValue::UInt8(*x as u32),
        Value::UInt16(x) => WireValue::UInt16(*x as u32),
        Value::UInt32(x) => WireValue::UInt32(*x),
        Value::UInt64(x) => WireValue::UInt64(*x),
        Value::Float32(x) => WireValue::Float32(*x),
        Value::Float64(x) => WireValue::Float64(*x),
        Value::TimestampNs(x) => WireValue::TimestampNs(*x),
        Value::Binary(b) => WireValue::Binary(b.clone()),
        Value::String(s) => WireValue::String(s.clone()),
        Value::Boolean(b) => WireValue::Bool(*b),
    }
}

/// Decodes a scalar value from the wire, checking integer ranges.
pub fn wire_to_value(w: &WireValue) -> (r: Result<Value, Error>)
    ensures
        match r {
            Ok(v) => spec_wire_to_value(w@) == Ok::<ValueView, Error>(v@),
            Err(e) => spec_wire_to_value(w@) == Err::<ValueView, Error>(e),
        },
{
    match w {
        WireValue::Int8(x) => {
            if -128 <= *x && *x <= 127 {
                Ok(Value::Int8(*x as i8))
            } else {
                Err(Error::IntTruncation)
            }
        }
        WireValue::Int16(x) => {
            if -32768 <= *x && *x <= 32767 {
                Ok(Value::Int16(*x as i16))
            } else {
                Err(Error::IntTruncation)
            }
        }
        WireValue::Int32(x) => Ok(Value::Int32(*x)),
        WireValue::Int64(x) => Ok(Value::Int64(*x)),
        WireValue::UInt8(x) => {
            if *x <= 255 {
                Ok(Value::UInt8(*x as u8))
            } else {
                Err(Error::IntTruncation)
            }
        }
        WireValue::UInt16(x) => {
            if *x <= 65535 {
                Ok(Value::UInt16(*x as u16))
            } else {
                Err(Error::IntTruncation)
            }
        }
        WireValue::UInt32(x) => Ok(Value::UInt32(*x)),
        WireValue::UInt64(x) => Ok(Value::UInt64(*x)),
        WireValue::Float32(x) => Ok(Value::Float32(*x)),
        WireValue::Float64(x) => Ok(Value::Float64(*x)),
        WireValue::TimestampNs(x) => Ok(Value::TimestampNs(*x)),
        WireValue::Binary(b) => {
            let c = b.clone();
            proof {
                assert(c@ =~= b@);
            }
            Ok(Value::Binary(c))
        }
        WireValue::String(s) => Ok(Value::String(s.clone())),
        WireValue::Bool(b) => Ok(Value::Boolean(*b)),
    }
}

/// Converting every element of a sequence, stopping at the first error.
pub open spec fn spec_collect<A, B>(s: Seq<A>, f: spec_fn(A) -> Result<B, Error>) -> Result<
    Seq<B>,
    Error,
>
    decreases s.len(),
{
    if s.len() == 0 {
        Ok(Seq::empty())
    } else {
        match f(s[0]) {
            Err(e) => Err(e),
            Ok(h) => match spec_collect(s.drop_first(), f) {
                Err(e) => Err(e),
                Ok(t) => Ok(seq![h] + t),
            },
        }
    }
}

/// When every element converts, the collection is the element-wise map.
pub proof fn lemma_collect_ok<A, B>(s: Seq<A>, f: spec_fn(A) -> Result<B, Error>)
    requires
        forall|i: int| 0 <= i < s.len() ==> (#[trigger] f(s[i])) is Ok,
    ensures
        spec_collect(s, f) == Ok::<Seq<B>, Error>(Seq::new(s.len(), |i: int| f(s[i])->Ok_0)),
    decreases s.len(),
{
    if s.len() == 0 {
        assert(Seq::new(s.len(), |i: int| f(s[i])->Ok_0) =~= Seq::<B>::empty());
    } else {
        let d = s.drop_first();
        assert(forall|i: int| 0 <= i < d.len() ==> #[trigger] d[i] == s[i + 1]);
        lemma_collect_ok(d, f);
        assert(seq![f(s[0])->Ok_0] + Seq::new(d.len(), |i: int| f(d[i])->Ok_0) =~= Seq::new(
            s.len(),
            |i: int| f(s[i])->Ok_0,
        ));
    }
}

/// The first failing element decides the collection's error.
pub proof fn lemma_collect_err<A, B>(s: Seq<A>, f: spec_fn(A) -> Result<B, Error>, i: int)
    requires
        0 <= i < s.len(),
        forall|j: int| 0 <= j < i ==> (#[trigger] f(s[j])) is Ok,
        f(s[i]) is Err,
    ensures
        spec_collect(s, f) == Err::<Seq<B>, Error>(f(s[i])->Err_0),
    decreases s.len(),
{
    if i > 0 {
        let d = s.drop_first();
        assert(forall|j: int| 0 <= j < d.len() ==> #[trigger] d[j] == s[j + 1]);
        lemma_collect_err(d, f, i - 1);
    }
}

/// One declared field on the wire.
#[derive(Debug)]
pub struct WireFieldMetadata {
    pub name: String,
    pub data_type: WireDataType,
    pub unit: Option<String>,
}

/// The mathematical shape of [`WireFieldMetadata`].
pub struct WireFieldMetadataView {
    pub name: Seq<char>,
    pub data_type: WireDataType,
    pub unit: Option<Seq<char>>,
}

impl View for WireFieldMetadata {
    type V = WireFieldMetadataView;

    open spec fn view(&self) -> WireFieldMetadataView {
        WireFieldMetadataView {
            name: self.name@,
            data_type: self.data_type,
            unit: match self.unit {
                Some(ref u) => Some(u@),
                None => None,
            },
        }
    }
}

/// An event schema on the wire.
#[derive(Debug)]
pub struct WireEventSchema {
    pub name: String,
    pub fields: Vec<WireFieldMetadata>,
}

/// The mathematical shape of [`WireEventSchema`].
pub struct WireEventSchemaView {
    pub name: Seq<char>,
    pub fields: Seq<WireFieldMetadataView>,
}

impl View for WireEventSchema {
    type V = WireEventSchemaView;

    open spec fn view(&self) -> WireEventSchemaView {
        WireEventSchemaView {
            name: self.name@,
            fields: self.fields@.map_values(|f: WireFieldMetadata| f@),
        }
    }
}

/// One named field value of an event on the wire.
#[derive(Debug)]
pub struct WireFieldEntry {
    pub name: String,
    pub value: Option<WireValue>,
}

/// The mathematical shape of [`WireFieldEntry`].
pub struct WireFieldEntryView {
    pub name: Seq<char>,
    pub value: Option<WireValueView>,
}

impl View for WireFieldEntry {
    type V = WireFieldEntryView;

    open spec fn view(&self) -> WireFieldEntryView {
        WireFieldEntryView {
            name: self.name@,
            value: match self.value {
                Some(ref v) => Some(v@),
                None => None,
            },
        }
    }
}

/// A data event on the wire.
#[derive(Debug)]
pub struct WireEvent {
    pub time_ns: i64,
    pub name: String,
    pub fields: Vec<WireFieldEntry>,
}

/// The mathematical shape of [`WireEvent`].
pub struct WireEventView {
    pub time_ns: i64,
    pub name: Seq<char>,
    pub fields: Seq<WireFieldEntryView>,
}

impl View for WireEvent {
    type V = WireEventView;

    open spec fn view(&self) -> WireEventView {
        WireEventView {
            time_ns: self.time_ns,
            name: self.name@,
            fields: self.fields@.map_values(|f: WireFieldEntry| f@),
        }
    }
}

/// One value label of a value table on the wire; the value is the key.
#[derive(Debug)]
pub struct WireNamedValuesEntry {
    pub name: String,
    pub value: Option<WireValue>,
}

/// The mathematical shape of [`WireNamedValuesEntry`].
pub struct WireNamedValuesEntryView {
    pub name: Seq<char>,
    pub value: Option<WireValueView>,
}

impl View for WireNamedValuesEntry {
    type V = WireNamedValuesEntryView;

    open spec fn view(&self) -> WireNamedValuesEntryView {
        WireNamedValuesEntryView {
            name: self.name@,
            value: match self.value {
                Some(ref v) => Some(v@),
                None => None,
            },
        }
    }
}

/// A field's value labels on the wire.
#[derive(Debug)]
pub struct WireNamedValues {
    pub event_name: String,
    pub field_name: String,
    pub values: Vec<WireNamedValuesEntry>,
}

/// The mathematical shape of [`WireNamedValues`].
pub struct WireNamedValuesView {
    pub event_name: Seq<char>,
    pub field_name: Seq<char>,
    pub values: Seq<WireNamedValuesEntryView>,
}

impl View for WireNamedValues {
    type V = WireNamedValuesView;

    open spec fn view(&self) -> WireNamedValuesView {
        WireNamedValuesView {
            event_name: self.event_name@,
            field_name: self.field_name@,
            values: self.values@.map_values(|f: WireNamedValuesEntry| f@),
        }
    }
}

/// A segment start announcement on the wire.
#[derive(Debug)]
pub struct WireSegmentStart {
    pub time_ns: i64,
    pub source_name: String,
}

/// A segment end announcement on the wire.
#[derive(Debug)]
pub struct WireSegmentEnd {
    pub time_ns: i64,
}

/// The five message payloads a trace message can carry.
#[derive(Debug)]
pub enum WireMsg {
    SegmentStart(WireSegmentStart),
    SegmentEnd(WireSegmentEnd),
    EventSchema(WireEventSchema),
    EventFieldNamedValues(WireNamedValues),
    Event(WireEvent),
}

/// The mathematical shape of [`WireMsg`].
pub enum WireMsgView {
    SegmentStart { time_ns: i64, source_name: Seq<char> },
    SegmentEnd { time_ns: i64 },
    EventSchema(WireEventSchemaView),
    EventFieldNamedValues(WireNamedValuesView),
    Event(WireEventView),
}

impl View for WireMsg {
    type V = WireMsgView;

    open spec fn view(&self) -> WireMsgView {
        match self {
            WireMsg::SegmentStart(m) => WireMsgView::SegmentStart {
                time_ns: m.time_ns,
                source_name: m.source_name@,
            },
            WireMsg::SegmentEnd(m) => WireMsgView::SegmentEnd { time_ns: m.time_ns },
            WireMsg::EventSchema(m) => WireMsgView::EventSchema(m@),
            WireMsg::EventFieldNamedValues(m) => WireMsgView::EventFieldNamedValues(m@),
            WireMsg::Event(m) => WireMsgView::Event(m@),
        }
    }
}

/// A routed record on the wire: a 16-byte big-endian segment id, the
/// source name, and the payload.
#[derive(Debug)]
pub struct TraceMessage {
    pub segment_id: Vec<u8>,
    pub source_name: String,
    pub msg: Option<WireMsg>,
}

/// The mathematical shape of [`TraceMessage`].
pub struct TraceMessageView {
    pub segment_id: Seq<u8>,
    pub source_name: Seq<char>,
    pub msg: Option<WireMsgView>,
}

impl View for TraceMessage {
    type V = TraceMessageView;

    open spec fn view(&self) -> TraceMessageView {
        TraceMessageView {
            segment_id: self.segment_id@,
            source_name: self.source_name@,
            msg: match self.msg {
                Some(ref m) => Some(m@),
                None => None,
            },
        }
    }
}

/// What a declared wire field reads back as.
pub open spec fn spec_wire_to_meta(f: WireFieldMetadataView) -> Result<
    ipc::FieldMetadataView,
    Error,
> {
    match spec_wire_to_dt(f.data_type) {
        Err(e) => Err(e),
        Ok(dt) => Ok(ipc::FieldMetadataView { name: f.name, data_type: dt, unit: f.unit }),
    }
}

/// What a wire schema reads back as: its fields in order, the first
/// failing field deciding the error.
pub open spec fn spec_wire_to_schema(s: WireEventSchemaView) -> Result<
    ipc::EventSchemaView,
    Error,
> {
    match spec_collect(s.fields, |f: WireFieldMetadataView| spec_wire_to_meta(f)) {
        Err(e) => Err(e),
        Ok(fields) => Ok(ipc::EventSchemaView { name: s.name, fields }),
    }
}

/// What one wire event-field entry reads back as: a name/value pair, a
/// missing value being its own error.
pub open spec fn spec_wire_to_field_pair(e: WireFieldEntryView) -> Result<
    (Seq<char>, ValueView),
    Error,
> {
    match e.value {
        None => Err(Error::MissingValue),
        Some(wv) => match spec_wire_to_value(wv) {
            Err(x) => Err(x),
            Ok(v) => Ok((e.name, v)),
        },
    }
}

/// What one wire value-label entry reads back as: a value/label pair.
pub open spec fn spec_wire_to_label_pair(e: WireNamedValuesEntryView) -> Result<
    (ValueView, Seq<char>),
    Error,
> {
    match e.value {
        None => Err(Error::MissingValue),
        Some(wv) => match spec_wire_to_value(wv) {
            Err(x) => Err(x),
            Ok(v) => Ok((v, e.name)),
        },
    }
}

/// The wire form of a declared field.
pub open spec fn spec_meta_to_wire(m: ipc::FieldMetadataView) -> WireFieldMetadataView {
    WireFieldMetadataView { name: m.name, data_type: spec_dt_to_wire(m.data_type), unit: m.unit }
}

/// The wire form of an in-process message payload.
pub open spec fn spec_msg_to_wire(im: ipc::IpcMessageView) -> WireMsgView {
    match im {
        ipc::IpcMessageView::TraceSegmentStart(s) => WireMsgView::SegmentStart {
            time_ns: s.time_ns,
            source_name: s.source_name,
        },
        ipc::IpcMessageView::TraceSegmentEnd(e) => WireMsgView::SegmentEnd { time_ns: e.time_ns },
        ipc::IpcMessageView::TraceEventSchema(sc) => WireMsgView::EventSchema(
            WireEventSchemaView {
                name: sc.name,
                fields: sc.fields.map_values(|f: ipc::FieldMetadataView| spec_meta_to_wire(f)),
            },
        ),
        ipc::IpcMessageView::TraceEventFieldNamedValues(nv) => WireMsgView::EventFieldNamedValues(
            WireNamedValuesView {
                event_name: nv.event_name,
                field_name: nv.field_name,
                values: nv.values.map_values(
                    |p: (ValueView, Seq<char>)|
                        WireNamedValuesEntryView {
                            name: p.1,
                            value: Some(spec_value_to_wire(p.0)),
                        },
                ),
            },
        ),
        ipc::IpcMessageView::TraceEvent(ev) => WireMsgView::Event(
            WireEventView {
                time_ns: ev.time_ns,
                name: ev.name,
                fields: ev.fields.map_values(
                    |p: (Seq<char>, ValueView)|
                        WireFieldEntryView { name: p.0, value: Some(spec_value_to_wire(p.1)) },
                ),
            },
        ),
    }
}

/// Whether an in-process payload is what a wire payload reads back as:
/// exact for starts, ends and schemas; up to the last-write-wins map
/// reading for event fields and value labels, whose order under duplicate
/// keys the wire does not fix.
pub open spec fn spec_msg_converts(wm: WireMsgView, im: ipc::IpcMessageView) -> bool {
    match wm {
        WireMsgView::SegmentStart { time_ns, source_name } => im
            == ipc::IpcMessageView::TraceSegmentStart(
            ipc::SegmentStartView { time_ns, source_name },
        ),
        WireMsgView::SegmentEnd { time_ns } => im == ipc::IpcMessageView::TraceSegmentEnd(
            ipc::SegmentEndView { time_ns },
        ),
        WireMsgView::EventSchema(ws) => match im {
            ipc::IpcMessageView::TraceEventSchema(sc) => spec_wire_to_schema(ws) == Ok::<
                ipc::EventSchemaView,
                Error,
            >(sc),
            _ => false,
        },
        WireMsgView::EventFieldNamedValues(wnv) => match im {
            ipc::IpcMessageView::TraceEventFieldNamedValues(nv) => {
                &&& nv.event_name == wnv.event_name
                &&& nv.field_name == wnv.field_name
                &&& spec_collect(
                    wnv.values,
                    |e: WireNamedValuesEntryView| spec_wire_to_label_pair(e),
                ) matches Ok(pairs) && ipc::table_as_map(nv.values) == ipc::table_as_map(pairs)
                &&& ipc::table_keys_unique(nv.values)
            },
            _ => false,
        },
        WireMsgView::Event(we) => match im {
            ipc::IpcMessageView::TraceEvent(ev) => {
                &&& ev.time_ns == we.time_ns
                &&& ev.name == we.name
                &&& spec_collect(we.fields, |e: WireFieldEntryView| spec_wire_to_field_pair(e))
                    matches Ok(pairs) && ipc::fields_as_map(ev.fields) == ipc::fields_as_map(pairs)
                &&& ipc::fields_keys_unique(ev.fields)
            },
            _ => false,
        },
    }
}

/// Whether a wire payload reads back without error.
pub open spec fn spec_wire_msg_ok(w: TraceMessageView) -> bool {
    &&& w.segment_id.len() == 16
    &&& match w.msg {
        None => false,
        Some(wm) => match wm {
            WireMsgView::SegmentStart { .. } => true,
            WireMsgView::SegmentEnd { .. } => true,
            WireMsgView::EventSchema(ws) => spec_wire_to_schema(ws) is Ok,
            WireMsgView::EventFieldNamedValues(wnv) => spec_collect(
                wnv.values,
                |e: WireNamedValuesEntryView| spec_wire_to_label_pair(e),
            ) is Ok,
            WireMsgView::Event(we) => spec_collect(
                we.fields,
                |e: WireFieldEntryView| spec_wire_to_field_pair(e),
            ) is Ok,
        },
    }
}

/// The error a wire record fails with: a segment id that is not 16 bytes
/// is an invalid id, a missing payload its own error, and otherwise the
/// payload's first conversion error decides.
pub open spec fn spec_wire_msg_err(w: TraceMessageView, e: Error) -> bool {
    if w.segment_id.len() != 16 {
        e == Error::InvalidUuid
    } else {
        match w.msg {
            None => e == Error::MissingMessage,
            Some(wm) => match wm {
                WireMsgView::SegmentStart { .. } => false,
                WireMsgView::SegmentEnd { .. } => false,
                WireMsgView::EventSchema(ws) => spec_wire_to_schema(ws) == Err::<
                    ipc::EventSchemaView,
                    Error,
                >(e),
                WireMsgView::EventFieldNamedValues(wnv) => spec_collect(
                    wnv.values,
                    |en: WireNamedValuesEntryView| spec_wire_to_label_pair(en),
                ) == Err::<Seq<(ValueView, Seq<char>)>, Error>(e),
                WireMsgView::Event(we) => spec_collect(
                    we.fields,
                    |en: WireFieldEntryView| spec_wire_to_field_pair(en),
                ) == Err::<Seq<(Seq<char>, ValueView)>, Error>(e),
            },
        }
    }
}

/// Decodes one declared field from the wire.
fn wire_to_meta(f: &WireFieldMetadata) -> (r: Result<ipc::TraceEventFieldMetadata, Error>)
    ensures
        match r {
            Ok(m) => spec_wire_to_meta(f@) == Ok::<ipc::FieldMetadataView, Error>(m@),
            Err(e) => spec_wire_to_meta(f@) == Err::<ipc::FieldMetadataView, Error>(e),
        },
{
    let data_type = match f.data_type.to_data_type() {
        Ok(dt) => dt,
        Err(e) => {
            return Err(e);
        }
    };
    let unit: Option<String> = match &f.unit {
        Some(u) => Some(u.clone()),
        None => None,
    };
    Ok(ipc::TraceEventFieldMetadata { name: f.name.clone(), data_type, unit })
}

/// Encodes one declared field for the wire.
fn meta_to_wire(m: &ipc::TraceEventFieldMetadata) -> (r: WireFieldMetadata)
    ensures
        r@ == spec_meta_to_wire(m@),
{
    WireFieldMetadata {
        name: m.name.clone(),
        data_type: WireDataType::from_data_type(&m.data_type),
        unit: match &m.unit {
            Some(u) => Some(u.clone()),
            None => None,
        },
    }
}

/// Decodes an event schema from the wire; the first failing field decides
/// the error.
fn wire_to_schema(s: &WireEventSchema) -> (r: Result<ipc::TraceEventSchema, Error>)
    ensures
        match r {
            Ok(sc) => spec_wire_to_schema(s@) == Ok::<ipc::EventSchemaView, Error>(sc@),
            Err(e) => spec_wire_to_schema(s@) == Err::<ipc::EventSchemaView, Error>(e),
        },
{
    let ghost conv = |f: WireFieldMetadataView| spec_wire_to_meta(f);
    let mut fields: Vec<ipc::TraceEventFieldMetadata> = Vec::new();
    let n: usize = s.fields.len();
    let mut i: usize = 0;
    while i < n
        invariant
            0 <= i <= n,
            n == s@.fields.len(),
            conv == (|f: WireFieldMetadataView| spec_wire_to_meta(f)),
            fields@.len() == i,
            forall|j: int| 0 <= j < i ==> (#[trigger] conv(s@.fields[j])) is Ok,
            forall|j: int| 0 <= j < i ==> conv(s@.fields[j])->Ok_0 == (#[trigger] fields@[j])@,
        decreases n - i,
    {
        match wire_to_meta(&s.fields[i]) {
            Ok(m) => {
                fields.push(m);
            }
            Err(e) => {
                proof {
                    lemma_collect_err(s@.fields, conv, i as int);
                }
                return Err(e);
            }
        }
        i = i + 1;
    }
    let r = ipc::TraceEventSchema { name: s.name.clone(), fields };
    proof {
        lemma_collect_ok(s@.fields, conv);
        assert(r@.fields =~= Seq::new(s@.fields.len(), |j: int| conv(s@.fields[j])->Ok_0));
    }
    Ok(r)
}

/// Encodes an event schema for the wire.
fn schema_to_wire(sc: &ipc::TraceEventSchema) -> (r: WireEventSchema)
    ensures
        r@.name == sc@.name,
        r@.fields =~= sc@.fields.map_values(|f: ipc::FieldMetadataView| spec_meta_to_wire(f)),
{
    let mut fields: Vec<WireFieldMetadata> = Vec::new();
    let n: usize = sc.fields.len();
    let mut i: usize = 0;
    while i < n
        invariant
            0 <= i <= n,
            n == sc.fields@.len(),
            fields@.len() == i,
            forall|j: int|
                0 <= j < i ==> (#[trigger] fields@[j])@ == spec_meta_to_wire(sc.fields@[j]@),
        decreases n - i,
    {
        fields.push(meta_to_wire(&sc.fields[i]));
        i = i + 1;
    }
    let r = WireEventSchema { name: sc.name.clone(), fields };
    proof {
        assert(r@.fields =~= sc@.fields.map_values(
            |f: ipc::FieldMetadataView| spec_meta_to_wire(f),
        ));
    }
    r
}

/// Decodes a data event from the wire; duplicate field names merge with
/// the last value winning.
fn wire_to_event(w: &WireEvent) -> (r: Result<ipc::TraceEvent, Error>)
    ensures
        match r {
            Ok(ev) => {
                &&& ev@.time_ns == w@.time_ns
                &&& ev@.name == w@.name
                &&& spec_collect(w@.fields, |e: WireFieldEntryView| spec_wire_to_field_pair(e))
                    matches Ok(pairs) && ipc::fields_as_map(ev@.fields) == ipc::fields_as_map(
                    pairs,
                )
                &&& ipc::fields_keys_unique(ev@.fields)
            },
            Err(e) => spec_collect(w@.fields, |en: WireFieldEntryView| spec_wire_to_field_pair(en))
                == Err::<Seq<(Seq<char>, ValueView)>, Error>(e),
        },
{
    let ghost conv = |e: WireFieldEntryView| spec_wire_to_field_pair(e);
    let mut fields = ipc::FieldMap::new();
    let ghost pairs: Seq<(Seq<char>, ValueView)> = Seq::empty();
    let n: usize = w.fields.len();
    let mut i: usize = 0;
    while i < n
        invariant
            0 <= i <= n,
            n == w@.fields.len(),
            conv == (|e: WireFieldEntryView| spec_wire_to_field_pair(e)),
            fields.wf(),
            pairs.len() == i,
            forall|j: int| 0 <= j < i ==> (#[trigger] conv(w@.fields[j])) is Ok,
            forall|j: int| 0 <= j < i ==> conv(w@.fields[j])->Ok_0 == #[trigger] pairs[j],
            ipc::fields_as_map(fields@) =~= ipc::fields_as_map(pairs),
        decreases n - i,
    {
        let entry = &w.fields[i];
        let value = match &entry.value {
            Some(wv) => match wire_to_value(wv) {
                Ok(v) => v,
                Err(e) => {
                    proof {
                        lemma_collect_err(w@.fields, conv, i as int);
                    }
                    return Err(e);
                }
            },
            None => {
                proof {
                    lemma_collect_err(w@.fields, conv, i as int);
                }
                return Err(Error::MissingValue);
            }
        };
        let ghost pre_pairs = pairs;
        proof {
            pairs = pairs.push((entry@.name, value@));
            assert(pairs.drop_last() =~= pre_pairs);
        }
        fields.insert(entry.name.clone(), value);
        i = i + 1;
    }
    proof {
        lemma_collect_ok(w@.fields, conv);
        assert(pairs =~= Seq::new(w@.fields.len(), |j: int| conv(w@.fields[j])->Ok_0));
    }
    Ok(ipc::TraceEvent { time_ns: w.time_ns, name: w.name.clone(), fields })
}

/// Encodes a data event for the wire.
fn event_to_wire(ev: &ipc::TraceEvent) -> (r: WireEvent)
    ensures
        r@ == spec_msg_to_wire(ipc::IpcMessageView::TraceEvent(ev@))->Event_0,
{
    let mut fields: Vec<WireFieldEntry> = Vec::new();
    let pairs = ev.fields.pairs();
    let n: usize = pairs.len();
    let mut i: usize = 0;
    while i < n
        invariant
            0 <= i <= n,
            n == ev@.fields.len(),
            pairs@.len() == ev@.fields.len(),
            forall|j: int|
                0 <= j < ev@.fields.len() ==> (#[trigger] pairs@[j].0@, pairs@[j].1@) == ev@.fields[
                    j
                ],
            fields@.len() == i,
            forall|j: int|
                0 <= j < i ==> (#[trigger] fields@[j])@ == (WireFieldEntryView {
                    name: ev@.fields[j].0,
                    value: Some(spec_value_to_wire(ev@.fields[j].1)),
                }),
        decreases n - i,
    {
        fields.push(
            WireFieldEntry { name: pairs[i].0.clone(), value: Some(value_to_wire(&pairs[i].1)) },
        );
        i = i + 1;
    }
    let r = WireEvent { time_ns: ev.time_ns, name: ev.name.clone(), fields };
    proof {
        assert(r@.fields =~= ev@.fields.map_values(
            |p: (Seq<char>, ValueView)|
                WireFieldEntryView { name: p.0, value: Some(spec_value_to_wire(p.1)) },
        ));
    }
    r
}

/// Decodes a field's value labels from the wire; duplicate keys merge
/// with the last label winning.
fn wire_to_named_values(w: &WireNamedValues) -> (r: Result<ipc::TraceEventFieldNamedValues, Error>)
    ensures
        match r {
            Ok(nv) => {
                &&& nv@.event_name == w@.event_name
                &&& nv@.field_name == w@.field_name
                &&& spec_collect(
                    w@.values,
                    |e: WireNamedValuesEntryView| spec_wire_to_label_pair(e),
                ) matches Ok(pairs) && ipc::table_as_map(nv@.values) == ipc::table_as_map(pairs)
                &&& ipc::table_keys_unique(nv@.values)
            },
            Err(e) => spec_collect(
                w@.values,
                |en: WireNamedValuesEntryView| spec_wire_to_label_pair(en),
            ) == Err::<Seq<(ValueView, Seq<char>)>, Error>(e),
        },
{
    let ghost conv = |e: WireNamedValuesEntryView| spec_wire_to_label_pair(e);
    let mut values = ipc::ValueTable::new();
    let ghost pairs: Seq<(ValueView, Seq<char>)> = Seq::empty();
    let n: usize = w.values.len();
    let mut i: usize = 0;
    while i < n
        invariant
            0 <= i <= n,
            n == w@.values.len(),
            conv == (|e: WireNamedValuesEntryView| spec_wire_to_label_pair(e)),
            values.wf(),
            pairs.len() == i,
            forall|j: int| 0 <= j < i ==> (#[trigger] conv(w@.values[j])) is Ok,
            forall|j: int| 0 <= j < i ==> conv(w@.values[j])->Ok_0 == #[trigger] pairs[j],
            ipc::table_as_map(values@) =~= ipc::table_as_map(pairs),
        decreases n - i,
    {
        let entry = &w.values[i];
        let value = match &entry.value {
            Some(wv) => match wire_to_value(wv) {
                Ok(v) => v,
                Err(e) => {
                    proof {
                        lemma_collect_err(w@.values, conv, i as int);
                    }
                    return Err(e);
                }
            },
            None => {
                proof {
                    lemma_collect_err(w@.values, conv, i as int);
                }
                return Err(Error::MissingValue);
            }
        };
        let ghost pre_pairs = pairs;
        proof {
            pairs = pairs.push((value@, entry@.name));
            assert(pairs.drop_last() =~= pre_pairs);
        }
        values.insert(value, entry.name.clone());
        i = i + 1;
    }
    proof {
        lemma_collect_ok(w@.values, conv);
        assert(pairs =~= Seq::new(w@.values.len(), |j: int| conv(w@.values[j])->Ok_0));
    }
    Ok(
        ipc::TraceEventFieldNamedValues {
            event_name: w.event_name.clone(),
            field_name: w.field_name.clone(),
            values,
        },
    )
}

/// Encodes a field's value labels for the wire.
fn named_values_to_wire(nv: &ipc::TraceEventFieldNamedValues) -> (r: WireNamedValues)
    ensures
        r@ == spec_msg_to_wire(
            ipc::IpcMessageView::TraceEventFieldNamedValues(nv@),
        )->EventFieldNamedValues_0,
{
    let mut values: Vec<WireNamedValuesEntry> = Vec::new();
    let pairs = nv.values.pairs();
    let n: usize = pairs.len();
    let mut i: usize = 0;
    while i < n
        invariant
            0 <= i <= n,
            n == nv@.values.len(),
            pairs@.len() == nv@.values.len(),
            forall|j: int|
                0 <= j < nv@.values.len() ==> (#[trigger] pairs@[j].0@, pairs@[j].1@) == nv@.values[
                    j
                ],
            values@.len() == i,
            forall|j: int|
                0 <= j < i ==> (#[trigger] values@[j])@ == (WireNamedValuesEntryView {
                    name: nv@.values[j].1,
                    value: Some(spec_value_to_wire(nv@.values[j].0)),
                }),
        decreases n - i,
    {
        values.push(
            WireNamedValuesEntry {
                name: pairs[i].1.clone(),
                value: Some(value_to_wire(&pairs[i].0)),
            },
        );
        i = i + 1;
    }
    let r = WireNamedValues {
        event_name: nv.event_name.clone(),
        field_name: nv.field_name.clone(),
        values,
    };
    proof {
        assert(r@.values =~= nv@.values.map_values(
            |p: (ValueView, Seq<char>)|
                WireNamedValuesEntryView { name: p.1, value: Some(spec_value_to_wire(p.0)) },
        ));
    }
    r
}

/// Encodes a routed record for the wire.
pub fn ipc_to_wire(m: &ipc::IpcMessageWithId) -> (r: TraceMessage)
    ensures
        r@.segment_id.len() == 16,
        be_val(r@.segment_id) == m@.segment_id,
        r@.source_name == m@.source_name,
        r@.msg == Some(spec_msg_to_wire(m@.msg)),
{
    let segment_id = uuid_to_bytes(m.segment_id);
    let source_name = m.source_name.clone();
    let msg: WireMsg = match &m.msg {
        ipc::IpcMessage::TraceSegmentStart(s) => WireMsg::SegmentStart(
            WireSegmentStart { time_ns: s.time_ns, source_name: s.source_name.clone() },
        ),
        ipc::IpcMessage::TraceSegmentEnd(e) => WireMsg::SegmentEnd(
            WireSegmentEnd { time_ns: e.time_ns },
        ),
        ipc::IpcMessage::TraceEventSchema(sc) => WireMsg::EventSchema(schema_to_wire(sc)),
        ipc::IpcMessage::TraceEventFieldNamedValues(nv) => WireMsg::EventFieldNamedValues(
            named_values_to_wire(nv),
        ),
        ipc::IpcMessage::TraceEvent(ev) => WireMsg::Event(event_to_wire(ev)),
    };
    TraceMessage { segment_id, source_name, msg: Some(msg) }
}

/// Decodes a routed record from the wire.  Decoding succeeds exactly when
/// [`spec_wire_msg_ok`] holds, and fails with the error
/// [`spec_wire_msg_err`] names.
pub fn wire_to_ipc(w: &TraceMessage) -> (r: Result<ipc::IpcMessageWithId, Error>)
    ensures
        r is Ok <==> spec_wire_msg_ok(w@),
        match r {
            Ok(m) => {
                &&& m@.segment_id == be_val(w@.segment_id)
                &&& m@.source_name == w@.source_name
                &&& w@.msg matches Some(wm) && spec_msg_converts(wm, m@.msg)
            },
            Err(e) => spec_wire_msg_err(w@, e),
        },
{
    let segment_id: u128 = match uuid_from_bytes(&w.segment_id) {
        Some(v) => v,
        None => {
            return Err(Error::InvalidUuid);
        }
    };
    let msg: ipc::IpcMessage = match &w.msg {
        None => {
            return Err(Error::MissingMessage);
        }
        Some(WireMsg::SegmentStart(s)) => ipc::IpcMessage::TraceSegmentStart(
            ipc::TraceSegmentStart { time_ns: s.time_ns, source_name: s.source_name.clone() },
        ),
        Some(WireMsg::SegmentEnd(e)) => ipc::IpcMessage::TraceSegmentEnd(
            ipc::TraceSegmentEnd { time_ns: e.time_ns },
        ),
        Some(WireMsg::EventSchema(ws)) => match wire_to_schema(ws) {
            Ok(sc) => ipc::IpcMessage::TraceEventSchema(sc),
            Err(e) => {
                return Err(e);
            }
        },
        Some(WireMsg::EventFieldNamedValues(wnv)) => match wire_to_named_values(wnv) {
            Ok(nv) => ipc::IpcMessage::TraceEventFieldNamedValues(nv),
            Err(e) => {
                return Err(e);
            }
        },
        Some(WireMsg::Event(we)) => match wire_to_event(we) {
            Ok(ev) => ipc::IpcMessage::TraceEvent(ev),
            Err(e) => {
                return Err(e);
            }
        },
    };
    Ok(ipc::IpcMessageWithId { segment_id, source_name: w.source_name.clone(), msg })
}

/// A batch of routed records on the wire.
#[derive(Debug)]
pub struct TraceMessageBatch {
    pub messages: Vec<TraceMessage>,
}

/// The payload of a subscribe response.
#[derive(Debug)]
pub enum SubscribeResponseMsg {
    TraceMessageBatch(TraceMessageBatch),
}

/// One message of the subscribe response stream: a batch of records.
#[derive(Debug)]
pub struct SubscribeResponse {
    pub msg: Option<SubscribeResponseMsg>,
}

impl SubscribeResponse {
    /// Wraps a batch of wire records as one response message.
    pub fn from_ipc(messages: Vec<TraceMessage>) -> (r: Self)
        ensures
            r.msg matches Some(m) && m matches SubscribeResponseMsg::TraceMessageBatch(b)
                && b.messages@ == messages@,
    {
        SubscribeResponse {
            msg: Some(SubscribeResponseMsg::TraceMessageBatch(TraceMessageBatch { messages })),
        }
    }

    /// Unpacks a response into routed records, decoding each wire record;
    /// the first failing record decides the error, and a response without
    /// a payload is its own error.
    pub fn as_ipc(self) -> (r: Result<Vec<ipc::IpcMessageWithId>, Error>)
        ensures
            match r {
                Ok(out) => self.msg matches Some(SubscribeResponseMsg::TraceMessageBatch(b)) && {
                    &&& out@.len() == b.messages@.len()
                    &&& forall|i: int|
                        0 <= i < b.messages@.len() ==> spec_wire_msg_ok(
                            (#[trigger] b.messages@[i])@,
                        )
                    &&& forall|i: int|
                        0 <= i < b.messages@.len() ==> {
                            &&& (#[trigger] out@[i])@.segment_id == be_val(b.messages@[i]@.segment_id)
                            &&& out@[i]@.source_name == b.messages@[i]@.source_name
                            &&& b.messages@[i]@.msg matches Some(wm) && spec_msg_converts(
                                wm,
                                out@[i]@.msg,
                            )
                        }
                },
                Err(e) => match self.msg {
                    None => e == Error::MissingMessage,
                    Some(SubscribeResponseMsg::TraceMessageBatch(b)) => exists|i: int|
                        {
                            &&& 0 <= i < b.messages@.len()
                            &&& forall|j: int|
                                0 <= j < i ==> spec_wire_msg_ok((#[trigger] b.messages@[j])@)
                            &&& !spec_wire_msg_ok((#[trigger] b.messages@[i])@)
                            &&& spec_wire_msg_err(b.messages@[i]@, e)
                        },
                },
            },
    {
        let batch = match self.msg {
            Some(SubscribeResponseMsg::TraceMessageBatch(b)) => b,
            None => {
                return Err(Error::MissingMessage);
            }
        };
        let mut out: Vec<ipc::IpcMessageWithId> = Vec::new();
        let n: usize = batch.messages.len();
        let mut i: usize = 0;
        while i < n
            invariant
                0 <= i <= n,
                n == batch.messages@.len(),
                self.msg == Some(SubscribeResponseMsg::TraceMessageBatch(batch)),
                out@.len() == i,
                forall|j: int| 0 <= j < i ==> spec_wire_msg_ok((#[trigger] batch.messages@[j])@),
                forall|j: int|
                    0 <= j < i ==> {
                        &&& (#[trigger] out@[j])@.segment_id == be_val(
                            batch.messages@[j]@.segment_id,
                        )
                        &&& out@[j]@.source_name == batch.messages@[j]@.source_name
                        &&& batch.messages@[j]@.msg matches Some(wm) && spec_msg_converts(
                            wm,
                            out@[j]@.msg,
                        )
                    },
            decreases n - i,
        {
            match wire_to_ipc(&batch.messages[i]) {
                Ok(m) => {
                    out.push(m);
                }
                Err(e) => {
                    proof {
                        let wi = i as int;
                        assert(!spec_wire_msg_ok(batch.messages@[wi]@));
                        assert(spec_wire_msg_err(batch.messages@[wi]@, e));
                        assert(exists|k: int|
                            {
                                &&& 0 <= k < batch.messages@.len()
                                &&& forall|j: int|
                                    0 <= j < k ==> spec_wire_msg_ok(
                                        (#[trigger] batch.messages@[j])@,
                                    )
                                &&& !spec_wire_msg_ok((#[trigger] batch.messages@[k])@)
                                &&& spec_wire_msg_err(batch.messages@[k]@, e)
                            }) by {
                            assert({
                                &&& 0 <= wi < batch.messages@.len()
                                &&& forall|j: int|
                                    0 <= j < wi ==> spec_wire_msg_ok(
                                        (#[trigger] batch.messages@[j])@,
                                    )
                                &&& !spec_wire_msg_ok((batch.messages@[wi])@)
                                &&& spec_wire_msg_err(batch.messages@[wi]@, e)
                            });
                        }
                    }
                    return Err(e);
                }
            }
            i = i + 1;
        }
        Ok(out)
    }
}

/// One message of the subscribe request stream.
#[derive(Debug)]
pub struct SubscribeRequest {
    pub cmd: Option<SubscribeCmd>,
}

/// The two subscriber commands.
#[derive(Debug)]
pub enum SubscribeCmd {
    Subscribe(SubscribeCommand),
    Unsubscribe(UnsubscribeCommand),
}

/// Asks the server to add a filter; an absent filter text means "match
/// everything", and a start time is accepted for stores that can replay a
/// time range.
#[derive(Debug)]
pub struct SubscribeCommand {
    pub filter: Option<String>,
    pub start_time: Option<i64>,
}

/// Asks the server to drop a filter; an absent filter text means the
/// match-everything filter.
#[derive(Debug)]
pub struct UnsubscribeCommand {
    pub filter: Option<String>,
}

/// One message of the publish request stream: a batch of records pushed
/// by the client.
#[derive(Debug)]
pub struct PublishRequest {
    pub trace_messages: Vec<TraceMessage>,
}

/// One message of the publish response stream: a heartbeat status.
#[derive(Debug)]
pub struct PublishResponse {
    pub status: Option<PublishStatus>,
}

/// The cumulative counts a publish server reports about once a second.
#[derive(Debug)]
pub struct PublishStatus {
    pub total_messages: u64,
    pub successful_messages: u64,
    pub failed_messages: u64,
    pub last_error: String,
}

impl Clone for PublishStatus {
    /// A clone preserves every count and the error text.
    fn clone(&self) -> (r: Self)
        ensures
            r.total_messages == self.total_messages,
            r.successful_messages == self.successful_messages,
            r.failed_messages == self.failed_messages,
            r.last_error@ == self.last_error@,
    {
        PublishStatus {
            total_messages: self.total_messages,
            successful_messages: self.successful_messages,
            failed_messages: self.failed_messages,
            last_error: self.last_error.clone(),
        }
    }
}

} // verus!
