//! The producer API: a source owns a segment identity, registers event
//! schemas, and emits typed events onto the router's ingress queue.
//!
//! Every record a producer hands to the queue is built by a verified
//! constructor with an exact contract (`make_start_record`,
//! `make_end_record`, `make_schema_record`, `make_named_values_record`,
//! `make_event_record`); the send beside it is the one trusted step, and
//! it fails fast — a full ingress queue is reported, never waited on.

use vstd::prelude::*;

use crate::channel::{channel_try_send, TrySendOutcome};
use crate::data_type::DataType;
use crate::error::Error;
use crate::ipc;
use crate::segment_id::mint_segment_id;
use crate::time::now_time_ns;
use crate::value::{Value, ValueView};

verus! {

/// The index of the first declared field named `name`, if any.
pub open spec fn spec_meta_index(metas: Seq<ipc::FieldMetadataView>, name: Seq<char>) -> Option<
    int,
> {
    if exists|i: int| 0 <= i < metas.len() && metas[i].name == name {
        Some(spec_first_meta_index(metas, name, 0))
    } else {
        None
    }
}

/// The least index at or after `from` whose field is named `name`.
pub open spec fn spec_first_meta_index(
    metas: Seq<ipc::FieldMetadataView>,
    name: Seq<char>,
    from: int,
) -> int
    decreases metas.len() - from,
{
    if from < 0 || from >= metas.len() {
        from
    } else if metas[from].name == name {
        from
    } else {
        spec_first_meta_index(metas, name, from + 1)
    }
}

/// Walking `spec_first_meta_index` past a non-matching prefix.
proof fn lemma_first_meta_index_step(metas: Seq<ipc::FieldMetadataView>, name: Seq<char>, i: int)
    requires
        0 <= i < metas.len(),
        forall|j: int| 0 <= j < i ==> metas[j].name != name,
    ensures
        spec_first_meta_index(metas, name, 0) == spec_first_meta_index(metas, name, i),
    decreases i,
{
    if i > 0 {
        lemma_first_meta_index_step(metas, name, i - 1);
        assert(spec_first_meta_index(metas, name, i - 1) == spec_first_meta_index(metas, name, i));
    }
}

/// At the first matching index the walk stops.
proof fn lemma_first_meta_index_at(metas: Seq<ipc::FieldMetadataView>, name: Seq<char>, i: int)
    requires
        0 <= i < metas.len(),
        forall|j: int| 0 <= j < i ==> metas[j].name != name,
        metas[i].name == name,
    ensures
        spec_meta_index(metas, name) == Some(i),
{
    lemma_first_meta_index_step(metas, name, i);
}

/// The index of the first declared field named `name`, if any.
fn find_meta(metas: &Vec<ipc::TraceEventFieldMetadata>, name: &str) -> (r: Option<usize>)
    ensures
        match r {
            Some(i) => {
                &&& spec_meta_index(
                    metas@.map_values(|m: ipc::TraceEventFieldMetadata| m@),
                    name@,
                ) == Some(i as int)
                &&& 0 <= i < metas@.len()
                &&& metas@[i as int]@.name == name@
            },
            None => spec_meta_index(
                metas@.map_values(|m: ipc::TraceEventFieldMetadata| m@),
                name@,
            ) is None,
        },
{
    let ghost views = metas@.map_values(|m: ipc::TraceEventFieldMetadata| m@);
    let n: usize = metas.len();
    let mut i: usize = 0;
    while i < n
        invariant
            0 <= i <= n,
            n == metas@.len(),
            views == metas@.map_values(|m: ipc::TraceEventFieldMetadata| m@),
            forall|j: int| 0 <= j < i ==> views[j].name != name@,
        decreases n - i,
    {
        if crate::text::str_eq_str(metas[i].name.as_str(), name) {
            proof {
                assert(views[i as int].name == name@);
                lemma_first_meta_index_at(views, name@, i as int);
            }
            return Some(i);
        }
        i = i + 1;
    }
    None
}

/// Hands one record to the ingress queue without waiting: a full queue is
/// reported as such, a closed one as the router being gone.
fn send_record(
    sender: &flume::Sender<ipc::IpcMessageWithId>,
    m: ipc::IpcMessageWithId,
) -> (r: Result<(), Error>)
    ensures
        match r {
            Ok(u) => u == (),
            Err(e) => e == Error::IngressFull || e == Error::RouterUnavailable,
        },
{
    match channel_try_send(sender, m) {
        TrySendOutcome::Sent => Ok(()),
        TrySendOutcome::Full(_) => Err(Error::IngressFull),
        TrySendOutcome::Disconnected(_) => Err(Error::RouterUnavailable),
    }
}

/// A value table built from a pair list, the newest label winning per
/// key.
pub fn build_value_table(values: Vec<(Value, String)>) -> (r: ipc::ValueTable)
    ensures
        r.wf(),
        ipc::table_as_map(r@) =~= ipc::ValueTable::spec_extend(
            Map::<ValueView, Seq<char>>::empty(),
            values@.map_values(|p: (Value, String)| (p.0@, p.1@)),
        ),
{
    let ghost views = values@.map_values(|p: (Value, String)| (p.0@, p.1@));
    let mut table = ipc::ValueTable::new();
    proof {
        assert(ipc::table_as_map(table@) =~= ipc::ValueTable::spec_extend(
            Map::<ValueView, Seq<char>>::empty(),
            views.take(0),
        ));
    }
    let n: usize = values.len();
    let mut i: usize = 0;
    while i < n
        invariant
            0 <= i <= n,
            n == values@.len(),
            views == values@.map_values(|p: (Value, String)| (p.0@, p.1@)),
            table.wf(),
            ipc::table_as_map(table@) =~= ipc::ValueTable::spec_extend(
                Map::<ValueView, Seq<char>>::empty(),
                views.take(i as int),
            ),
        decreases n - i,
    {
        let k = values[i].0.clone();
        let v = values[i].1.clone();
        table.insert(k, v);
        proof {
            assert(views.take(i + 1).drop_last() =~= views.take(i as int));
            assert(views.take(i + 1).last() == views[i as int]);
            assert(ipc::table_as_map(table@) =~= ipc::ValueTable::spec_extend(
                Map::<ValueView, Seq<char>>::empty(),
                views.take(i + 1),
            ));
        }
        i = i + 1;
    }
    proof {
        assert(views.take(n as int) =~= views);
    }
    table
}

/// A registered event: its schema, and what is needed to emit data points
/// for it.
pub struct TraceSourceEvent {
    id: u128,
    source_name: String,
    sender: flume::Sender<ipc::IpcMessageWithId>,
    pub name: String,
    pub schema: Vec<ipc::TraceEventFieldMetadata>,
}

impl Clone for TraceSourceEvent {
    /// A clone addresses the same segment, event and queue.
    fn clone(&self) -> (r: Self)
        ensures
            r.spec_name() == self.spec_name(),
            r.spec_schema() =~= self.spec_schema(),
            r.spec_id() == self.spec_id(),
            r.spec_source_name() == self.spec_source_name(),
    {
        let mut schema: Vec<ipc::TraceEventFieldMetadata> = Vec::new();
        let n: usize = self.schema.len();
        let mut i: usize = 0;
        while i < n
            invariant
                0 <= i <= n,
                n == self.schema@.len(),
                schema@.len() == i,
                forall|j: int| 0 <= j < i ==> (#[trigger] schema@[j])@ == self.schema@[j]@,
            decreases n - i,
        {
            schema.push(self.schema[i].clone());
            i = i + 1;
        }
        let r = TraceSourceEvent {
            id: self.id,
            source_name: self.source_name.clone(),
            sender: self.sender.clone(),
            name: self.name.clone(),
            schema,
        };
        proof {
            assert(r.schema@.map_values(|m: ipc::TraceEventFieldMetadata| m@)
                =~= self.schema@.map_values(|m: ipc::TraceEventFieldMetadata| m@));
        }
        r
    }
}

impl TraceSourceEvent {
    /// The segment this event belongs to.
    pub closed spec fn spec_id(&self) -> u128 {
        self.id
    }

    /// The source this event belongs to.
    pub closed spec fn spec_source_name(&self) -> Seq<char> {
        self.source_name@
    }

    /// The event's name.
    pub closed spec fn spec_name(&self) -> Seq<char> {
        self.name@
    }

    /// The declared fields.
    pub closed spec fn spec_schema(&self) -> Seq<ipc::FieldMetadataView> {
        self.schema@.map_values(|m: ipc::TraceEventFieldMetadata| m@)
    }

    /// The data-point record this event emits: the given timestamp and
    /// fields under this event's name, wrapped with the segment's
    /// identity.
    pub fn make_event_record(&self, time_ns: i64, fields: ipc::FieldMap) -> (m:
        ipc::IpcMessageWithId)
        ensures
            m@.segment_id == self.spec_id(),
            m@.source_name == self.spec_source_name(),
            m@.msg == ipc::IpcMessageView::TraceEvent(
                ipc::EventView { time_ns, name: self.spec_name(), fields: fields@ },
            ),
    {
        let evt = ipc::TraceEvent { time_ns, name: self.name.clone(), fields };
        ipc::IpcMessageWithId {
            segment_id: self.id,
            source_name: self.source_name.clone(),
            msg: ipc::IpcMessage::TraceEvent(evt),
        }
    }

    /// Emits one data point for this event: exactly the record of
    /// [`TraceSourceEvent::make_event_record`] is handed to the ingress
    /// queue.  Fails fast with a full queue, and reports a closed one.
    pub fn emit(&self, time_ns: i64, fields: ipc::FieldMap) -> (r: Result<(), Error>)
        ensures
            r matches Err(e) ==> e == Error::IngressFull || e == Error::RouterUnavailable,
    {
        let m = self.make_event_record(time_ns, fields);
        send_record(&self.sender, m)
    }

    /// A builder that checks each field against this event's schema
    /// before it is emitted.
    pub fn build(&self) -> (r: EventBuilder)
        ensures
            r.schema_views() =~= self.spec_schema(),
            r.data_view() =~= Seq::<(Seq<char>, ValueView)>::empty(),
            r.data_wf(),
            r.spec_event_id() == self.spec_id(),
            r.spec_event_name() == self.spec_name(),
    {
        let parent = self.clone();
        EventBuilder { parent, data: ipc::FieldMap::new() }
    }
}

/// Builds one data point field by field, validating every field name and
/// type against the declared schema.
pub struct EventBuilder {
    parent: TraceSourceEvent,
    data: ipc::FieldMap,
}

impl EventBuilder {
    /// The declared schema the builder validates against.
    pub closed spec fn schema_views(&self) -> Seq<ipc::FieldMetadataView> {
        self.parent.schema@.map_values(|m: ipc::TraceEventFieldMetadata| m@)
    }

    /// The fields inserted so far.
    pub closed spec fn data_view(&self) -> Seq<(Seq<char>, ValueView)> {
        self.data@
    }

    /// Whether the inserted fields are well formed (names unique).
    pub closed spec fn data_wf(&self) -> bool {
        self.data.wf()
    }

    /// The segment the built data point will carry.
    pub closed spec fn spec_event_id(&self) -> u128 {
        self.parent.spec_id()
    }

    /// The event name the built data point will carry.
    pub closed spec fn spec_event_name(&self) -> Seq<char> {
        self.parent.spec_name()
    }

    /// Inserts a field value, rejecting an unknown field name and a value
    /// whose type differs from the declared one.  Inserting the same
    /// field again overwrites it.
    pub fn try_insert(&mut self, name: &str, value: Value) -> (r: Result<(), Error>)
        requires
            old(self).data_wf(),
        ensures
            final(self).data_wf(),
            final(self).schema_views() == old(self).schema_views(),
            final(self).spec_event_id() == old(self).spec_event_id(),
            final(self).spec_event_name() == old(self).spec_event_name(),
            match r {
                Ok(u) => {
                    &&& u == ()
                    &&& spec_meta_index(old(self).schema_views(), name@) matches Some(i)
                        && old(self).schema_views()[i].data_type == Value::spec_data_type(value@)
                    &&& ipc::fields_as_map(final(self).data_view()) =~= ipc::fields_as_map(
                        old(self).data_view(),
                    ).insert(name@, value@)
                },
                Err(e) => final(self).data_view() == old(self).data_view() && match e {
                    Error::UnknownField => spec_meta_index(
                        old(self).schema_views(),
                        name@,
                    ) is None,
                    Error::SchemaTypeMismatch => spec_meta_index(
                        old(self).schema_views(),
                        name@,
                    ) matches Some(i) && old(self).schema_views()[i].data_type
                        != Value::spec_data_type(value@),
                    _ => false,
                },
            },
    {
        let idx = match find_meta(&self.parent.schema, name) {
            Some(i) => i,
            None => {
                return Err(Error::UnknownField);
            }
        };
        let dt = value.data_type();
        if self.parent.schema[idx].data_type != dt {
            return Err(Error::SchemaTypeMismatch);
        }
        self.data.insert(name.to_owned(), value);
        Ok(())
    }

    /// Emits the built data point at the current time: the record of
    /// [`TraceSourceEvent::make_event_record`] over the inserted fields.
    pub fn emit(self) -> (r: Result<(), Error>)
        ensures
            r matches Err(e) ==> e == Error::IngressFull || e == Error::RouterUnavailable,
    {
        let time_ns = now_time_ns();
        self.emit_at(time_ns)
    }

    /// Emits the built data point at a caller-supplied time: the record
    /// of [`TraceSourceEvent::make_event_record`] over the inserted
    /// fields.
    pub fn emit_at(self, time_ns: i64) -> (r: Result<(), Error>)
        ensures
            r matches Err(e) ==> e == Error::IngressFull || e == Error::RouterUnavailable,
    {
        let EventBuilder { parent, data } = self;
        parent.emit(time_ns, data)
    }

    /// Inserts a signed 8-bit field: accepted exactly when the schema
    /// declares `name` with type `Int8`, and then the field map gains the
    /// pair; otherwise the exact error names what failed.
    pub fn try_insert_i8(self, name: &str, value: i8) -> (r: Result<Self, Error>)
        requires
            self.data_wf(),
        ensures
            match r {
                Ok(b) => {
                    &&& b.data_wf()
                    &&& b.schema_views() == self.schema_views()
                    &&& b.spec_event_id() == self.spec_event_id()
                    &&& b.spec_event_name() == self.spec_event_name()
                    &&& spec_meta_index(self.schema_views(), name@) matches Some(i)
                        && self.schema_views()[i].data_type == DataType::Int8
                    &&& ipc::fields_as_map(b.data_view()) =~= ipc::fields_as_map(
                        self.data_view(),
                    ).insert(name@, ValueView::Int8(value))
                },
                Err(e) => match e {
                    Error::UnknownField => spec_meta_index(self.schema_views(), name@) is None,
                    Error::SchemaTypeMismatch => spec_meta_index(
                        self.schema_views(),
                        name@,
                    ) matches Some(i) && self.schema_views()[i].data_type != DataType::Int8,
                    _ => false,
                },
            },
    {
        let mut b = self;
        match b.try_insert(name, Value::Int8(value)) {
            Ok(_) => Ok(b),
            Err(e) => Err(e),
        }
    }

    /// Inserts a signed 16-bit field: accepted exactly when the schema
    /// declares `name` with type `Int16`; see [`EventBuilder::try_insert_i8`].
    pub fn try_insert_i16(self, name: &str, value: i16) -> (r: Result<Self, Error>)
        requires
            self.data_wf(),
        ensures
            match r {
                Ok(b) => {
                    &&& b.data_wf()
                    &&& b.schema_views() == self.schema_views()
                    &&& b.spec_event_id() == self.spec_event_id()
                    &&& b.spec_event_name() == self.spec_event_name()
                    &&& spec_meta_index(self.schema_views(), name@) matches Some(i)
                        && self.schema_views()[i].data_type == DataType::Int16
                    &&& ipc::fields_as_map(b.data_view()) =~= ipc::fields_as_map(
                        self.data_view(),
                    ).insert(name@, ValueView::Int16(value))
                },
                Err(e) => match e {
                    Error::UnknownField => spec_meta_index(self.schema_views(), name@) is None,
                    Error::SchemaTypeMismatch => spec_meta_index(
                        self.schema_views(),
                        name@,
                    ) matches Some(i) && self.schema_views()[i].data_type != DataType::Int16,
                    _ => false,
                },
            },
    {
        let mut b = self;
        match b.try_insert(name, Value::Int16(value)) {
            Ok(_) => Ok(b),
            Err(e) => Err(e),
        }
    }

    /// Inserts a signed 32-bit field: accepted exactly when the schema
    /// declares `name` with type `Int32`; see [`EventBuilder::try_insert_i8`].
    pub fn try_insert_i32(self, name: &str, value: i32) -> (r: Result<Self, Error>)
        requires
            self.data_wf(),
        ensures
            match r {
                Ok(b) => {
                    &&& b.data_wf()
                    &&& b.schema_views() == self.schema_views()
                    &&& b.spec_event_id() == self.spec_event_id()
                    &&& b.spec_event_name() == self.spec_event_name()
                    &&& spec_meta_index(self.schema_views(), name@) matches Some(i)
                        && self.schema_views()[i].data_type == DataType::Int32
                    &&& ipc::fields_as_map(b.data_view()) =~= ipc::fields_as_map(
                        self.data_view(),
                    ).insert(name@, ValueView::Int32(value))
                },
                Err(e) => match e {
                    Error::UnknownField => spec_meta_index(self.schema_views(), name@) is None,
                    Error::SchemaTypeMismatch => spec_meta_index(
                        self.schema_views(),
                        name@,
                    ) matches Some(i) && self.schema_views()[i].data_type != DataType::Int32,
                    _ => false,
                },
            },
    {
        let mut b = self;
        match b.try_insert(name, Value::Int32(value)) {
            Ok(_) => Ok(b),
            Err(e) => Err(e),
        }
    }

    /// Inserts a signed 64-bit field: accepted exactly when the schema
    /// declares `name` with type `Int64`; see [`EventBuilder::try_insert_i8`].
    pub fn try_insert_i64(self, name: &str, value: i64) -> (r: Result<Self, Error>)
        requires
            self.data_wf(),
        ensures
            match r {
                Ok(b) => {
                    &&& b.data_wf()
                    &&& b.schema_views() == self.schema_views()
                    &&& b.spec_event_id() == self.spec_event_id()
                    &&& b.spec_event_name() == self.spec_event_name()
                    &&& spec_meta_index(self.schema_views(), name@) matches Some(i)
                        && self.schema_views()[i].data_type == DataType::Int64
                    &&& ipc::fields_as_map(b.data_view()) =~= ipc::fields_as_map(
                        self.data_view(),
                    ).insert(name@, ValueView::Int64(value))
                },
                Err(e) => match e {
                    Error::UnknownField => spec_meta_index(self.schema_views(), name@) is None,
                    Error::SchemaTypeMismatch => spec_meta_index(
                        self.schema_views(),
                        name@,
                    ) matches Some(i) && self.schema_views()[i].data_type != DataType::Int64,
                    _ => false,
                },
            },
    {
        let mut b = self;
        match b.try_insert(name, Value::Int64(value)) {
            Ok(_) => Ok(b),
            Err(e) => Err(e),
        }
    }

    /// Inserts an unsigned 8-bit field: accepted exactly when the schema
    /// declares `name` with type `UInt8`; see [`EventBuilder::try_insert_i8`].
    pub fn try_insert_u8(self, name: &str, value: u8) -> (r: Result<Self, Error>)
        requires
            self.data_wf(),
        ensures
            match r {
                Ok(b) => {
                    &&& b.data_wf()
                    &&& b.schema_views() == self.schema_views()
                    &&& b.spec_event_id() == self.spec_event_id()
                    &&& b.spec_event_name() == self.spec_event_name()
                    &&& spec_meta_index(self.schema_views(), name@) matches Some(i)
                        && self.schema_views()[i].data_type == DataType::UInt8
                    &&& ipc::fields_as_map(b.data_view()) =~= ipc::fields_as_map(
                        self.data_view(),
                    ).insert(name@, ValueView::UInt8(value))
                },
                Err(e) => match e {
                    Error::UnknownField => spec_meta_index(self.schema_views(), name@) is None,
                    Error::SchemaTypeMismatch => spec_meta_index(
                        self.schema_views(),
                        name@,
                    ) matches Some(i) && self.schema_views()[i].data_type != DataType::UInt8,
                    _ => false,
                },
            },
    {
        let mut b = self;
        match b.try_insert(name, Value::UInt8(value)) {
            Ok(_) => Ok(b),
            Err(e) => Err(e),
        }
    }

    /// Inserts an unsigned 16-bit field: accepted exactly when the schema
    /// declares `name` with type `UInt16`; see [`EventBuilder::try_insert_i8`].
    pub fn try_insert_u16(self, name: &str, value: u16) -> (r: Result<Self, Error>)
        requires
            self.data_wf(),
        ensures
            match r {
                Ok(b) => {
                    &&& b.data_wf()
                    &&& b.schema_views() == self.schema_views()
                    &&& b.spec_event_id() == self.spec_event_id()
                    &&& b.spec_event_name() == self.spec_event_name()
                    &&& spec_meta_index(self.schema_views(), name@) matches Some(i)
                        && self.schema_views()[i].data_type == DataType::UInt16
                    &&& ipc::fields_as_map(b.data_view()) =~= ipc::fields_as_map(
                        self.data_view(),
                    ).insert(name@, ValueView::UInt16(value))
                },
                Err(e) => match e {
                    Error::UnknownField => spec_meta_index(self.schema_views(), name@) is None,
                    Error::SchemaTypeMismatch => spec_meta_index(
                        self.schema_views(),
                        name@,
                    ) matches Some(i) && self.schema_views()[i].data_type != DataType::UInt16,
                    _ => false,
                },
            },
    {
        let mut b = self;
        match b.try_insert(name, Value::UInt16(value)) {
            Ok(_) => Ok(b),
            Err(e) => Err(e),
        }
    }

    /// Inserts an unsigned 32-bit field: accepted exactly when the schema
    /// declares `name` with type `UInt32`; see [`EventBuilder::try_insert_i8`].
    pub fn try_insert_u32(self, name: &str, value: u32) -> (r: Result<Self, Error>)
        requires
            self.data_wf(),
        ensures
            match r {
                Ok(b) => {
                    &&& b.data_wf()
                    &&& b.schema_views() == self.schema_views()
                    &&& b.spec_event_id() == self.spec_event_id()
                    &&& b.spec_event_name() == self.spec_event_name()
                    &&& spec_meta_index(self.schema_views(), name@) matches Some(i)
                        && self.schema_views()[i].data_type == DataType::UInt32
                    &&& ipc::fields_as_map(b.data_view()) =~= ipc::fields_as_map(
                        self.data_view(),
                    ).insert(name@, ValueView::UInt32(value))
                },
                Err(e) => match e {
                    Error::UnknownField => spec_meta_index(self.schema_views(), name@) is None,
                    Error::SchemaTypeMismatch => spec_meta_index(
                        self.schema_views(),
                        name@,
                    ) matches Some(i) && self.schema_views()[i].data_type != DataType::UInt32,
                    _ => false,
                },
            },
    {
        let mut b = self;
        match b.try_insert(name, Value::UInt32(value)) {
            Ok(_) => Ok(b),
            Err(e) => Err(e),
        }
    }

    /// Inserts an unsigned 64-bit field: accepted exactly when the schema
    /// declares `name` with type `UInt64`; see [`EventBuilder::try_insert_i8`].
    pub fn try_insert_u64(self, name: &str, value: u64) -> (r: Result<Self, Error>)
        requires
            self.data_wf(),
        ensures
            match r {
                Ok(b) => {
                    &&& b.data_wf()
                    &&& b.schema_views() == self.schema_views()
                    &&& b.spec_event_id() == self.spec_event_id()
                    &&& b.spec_event_name() == self.spec_event_name()
                    &&& spec_meta_index(self.schema_views(), name@) matches Some(i)
                        && self.schema_views()[i].data_type == DataType::UInt64
                    &&& ipc::fields_as_map(b.data_view()) =~= ipc::fields_as_map(
                        self.data_view(),
                    ).insert(name@, ValueView::UInt64(value))
                },
                Err(e) => match e {
                    Error::UnknownField => spec_meta_index(self.schema_views(), name@) is None,
                    Error::SchemaTypeMismatch => spec_meta_index(
                        self.schema_views(),
                        name@,
                    ) matches Some(i) && self.schema_views()[i].data_type != DataType::UInt64,
                    _ => false,
                },
            },
    {
        let mut b = self;
        match b.try_insert(name, Value::UInt64(value)) {
            Ok(_) => Ok(b),
            Err(e) => Err(e),
        }
    }

    /// Inserts a 32-bit float field from its raw bit pattern: accepted
    /// exactly when the schema declares `name` with type `Float32`; see
    /// [`EventBuilder::try_insert_i8`].
    pub fn try_insert_f32_bits(self, name: &str, value: u32) -> (r: Result<Self, Error>)
        requires
            self.data_wf(),
        ensures
            match r {
                Ok(b) => {
                    &&& b.data_wf()
                    &&& b.schema_views() == self.schema_views()
                    &&& b.spec_event_id() == self.spec_event_id()
                    &&& b.spec_event_name() == self.spec_event_name()
                    &&& spec_meta_index(self.schema_views(), name@) matches Some(i)
                        && self.schema_views()[i].data_type == DataType::Float32
                    &&& ipc::fields_as_map(b.data_view()) =~= ipc::fields_as_map(
                        self.data_view(),
                    ).insert(name@, ValueView::Float32(value))
                },
                Err(e) => match e {
                    Error::UnknownField => spec_meta_index(self.schema_views(), name@) is None,
                    Error::SchemaTypeMismatch => spec_meta_index(
                        self.schema_views(),
                        name@,
                    ) matches Some(i) && self.schema_views()[i].data_type != DataType::Float32,
                    _ => false,
                },
            },
    {
        let mut b = self;
        match b.try_insert(name, Value::Float32(value)) {
            Ok(_) => Ok(b),
            Err(e) => Err(e),
        }
    }

    /// Inserts a 64-bit float field from its raw bit pattern: accepted
    /// exactly when the schema declares `name` with type `Float64`; see
    /// [`EventBuilder::try_insert_i8`].
    pub fn try_insert_f64_bits(self, name: &str, value: u64) -> (r: Result<Self, Error>)
        requires
            self.data_wf(),
        ensures
            match r {
                Ok(b) => {
                    &&& b.data_wf()
                    &&& b.schema_views() == self.schema_views()
                    &&& b.spec_event_id() == self.spec_event_id()
                    &&& b.spec_event_name() == self.spec_event_name()
                    &&& spec_meta_index(self.schema_views(), name@) matches Some(i)
                        && self.schema_views()[i].data_type == DataType::Float64
                    &&& ipc::fields_as_map(b.data_view()) =~= ipc::fields_as_map(
                        self.data_view(),
                    ).insert(name@, ValueView::Float64(value))
                },
                Err(e) => match e {
                    Error::UnknownField => spec_meta_index(self.schema_views(), name@) is None,
                    Error::SchemaTypeMismatch => spec_meta_index(
                        self.schema_views(),
                        name@,
                    ) matches Some(i) && self.schema_views()[i].data_type != DataType::Float64,
                    _ => false,
                },
            },
    {
        let mut b = self;
        match b.try_insert(name, Value::Float64(value)) {
            Ok(_) => Ok(b),
            Err(e) => Err(e),
        }
    }

    /// Inserts a timestamp field: accepted exactly when the schema
    /// declares `name` with type `TimestampNs`; see
    /// [`EventBuilder::try_insert_i8`].
    pub fn try_insert_timestamp_ns(self, name: &str, value: i64) -> (r: Result<Self, Error>)
        requires
            self.data_wf(),
        ensures
            match r {
                Ok(b) => {
                    &&& b.data_wf()
                    &&& b.schema_views() == self.schema_views()
                    &&& b.spec_event_id() == self.spec_event_id()
                    &&& b.spec_event_name() == self.spec_event_name()
                    &&& spec_meta_index(self.schema_views(), name@) matches Some(i)
                        && self.schema_views()[i].data_type == DataType::TimestampNs
                    &&& ipc::fields_as_map(b.data_view()) =~= ipc::fields_as_map(
                        self.data_view(),
                    ).insert(name@, ValueView::TimestampNs(value))
                },
                Err(e) => match e {
                    Error::UnknownField => spec_meta_index(self.schema_views(), name@) is None,
                    Error::SchemaTypeMismatch => spec_meta_index(
                        self.schema_views(),
                        name@,
                    ) matches Some(i) && self.schema_views()[i].data_type != DataType::TimestampNs,
                    _ => false,
                },
            },
    {
        let mut b = self;
        match b.try_insert(name, Value::TimestampNs(value)) {
            Ok(_) => Ok(b),
            Err(e) => Err(e),
        }
    }

    /// Inserts a binary field: accepted exactly when the schema declares
    /// `name` with type `Binary`; see [`EventBuilder::try_insert_i8`].
    pub fn try_insert_binary(self, name: &str, value: Vec<u8>) -> (r: Result<Self, Error>)
        requires
            self.data_wf(),
        ensures
            match r {
                Ok(b) => {
                    &&& b.data_wf()
                    &&& b.schema_views() == self.schema_views()
                    &&& b.spec_event_id() == self.spec_event_id()
                    &&& b.spec_event_name() == self.spec_event_name()
                    &&& spec_meta_index(self.schema_views(), name@) matches Some(i)
                        && self.schema_views()[i].data_type == DataType::Binary
                    &&& ipc::fields_as_map(b.data_view()) =~= ipc::fields_as_map(
                        self.data_view(),
                    ).insert(name@, ValueView::Binary(value@))
                },
                Err(e) => match e {
                    Error::UnknownField => spec_meta_index(self.schema_views(), name@) is None,
                    Error::SchemaTypeMismatch => spec_meta_index(
                        self.schema_views(),
                        name@,
                    ) matches Some(i) && self.schema_views()[i].data_type != DataType::Binary,
                    _ => false,
                },
            },
    {
        let mut b = self;
        match b.try_insert(name, Value::Binary(value)) {
            Ok(_) => Ok(b),
            Err(e) => Err(e),
        }
    }

    /// Inserts a text field: accepted exactly when the schema declares
    /// `name` with type `String`; see [`EventBuilder::try_insert_i8`].
    pub fn try_insert_string(self, name: &str, value: String) -> (r: Result<Self, Error>)
        requires
            self.data_wf(),
        ensures
            match r {
                Ok(b) => {
                    &&& b.data_wf()
                    &&& b.schema_views() == self.schema_views()
                    &&& b.spec_event_id() == self.spec_event_id()
                    &&& b.spec_event_name() == self.spec_event_name()
                    &&& spec_meta_index(self.schema_views(), name@) matches Some(i)
                        && self.schema_views()[i].data_type == DataType::String
                    &&& ipc::fields_as_map(b.data_view()) =~= ipc::fields_as_map(
                        self.data_view(),
                    ).insert(name@, ValueView::String(value@))
                },
                Err(e) => match e {
                    Error::UnknownField => spec_meta_index(self.schema_views(), name@) is None,
                    Error::SchemaTypeMismatch => spec_meta_index(
                        self.schema_views(),
                        name@,
                    ) matches Some(i) && self.schema_views()[i].data_type != DataType::String,
                    _ => false,
                },
            },
    {
        let mut b = self;
        match b.try_insert(name, Value::String(value)) {
            Ok(_) => Ok(b),
            Err(e) => Err(e),
        }
    }

    /// Inserts a boolean field: accepted exactly when the schema declares
    /// `name` with type `Boolean`; see [`EventBuilder::try_insert_i8`].
    pub fn try_insert_bool(self, name: &str, value: bool) -> (r: Result<Self, Error>)
        requires
            self.data_wf(),
        ensures
            match r {
                Ok(b) => {
                    &&& b.data_wf()
                    &&& b.schema_views() == self.schema_views()
                    &&& b.spec_event_id() == self.spec_event_id()
                    &&& b.spec_event_name() == self.spec_event_name()
                    &&& spec_meta_index(self.schema_views(), name@) matches Some(i)
                        && self.schema_views()[i].data_type == DataType::Boolean
                    &&& ipc::fields_as_map(b.data_view()) =~= ipc::fields_as_map(
                        self.data_view(),
                    ).insert(name@, ValueView::Boolean(value))
                },
                Err(e) => match e {
                    Error::UnknownField => spec_meta_index(self.schema_views(), name@) is None,
                    Error::SchemaTypeMismatch => spec_meta_index(
                        self.schema_views(),
                        name@,
                    ) matches Some(i) && self.schema_views()[i].data_type != DataType::Boolean,
                    _ => false,
                },
            },
    {
        let mut b = self;
        match b.try_insert(name, Value::Boolean(value)) {
            Ok(_) => Ok(b),
            Err(e) => Err(e),
        }
    }
}

/// A producer: it owns a fresh segment identity, emits the segment start
/// on construction, registers event schemas, and emits the segment end
/// when closed.
pub struct TraceSource {
    pub id: u128,
    pub source_name: String,
    sender: flume::Sender<ipc::IpcMessageWithId>,
    events: Vec<TraceSourceEvent>,
}

impl TraceSource {
    /// The segment id this source owns.
    pub closed spec fn spec_segment_id(&self) -> u128 {
        self.id
    }

    /// This source's human-readable name.
    pub closed spec fn spec_source_name(&self) -> Seq<char> {
        self.source_name@
    }

    /// The names of the registered events, in registration order.
    pub closed spec fn spec_event_names(&self) -> Seq<Seq<char>> {
        self.events@.map_values(|e: TraceSourceEvent| e.name@)
    }

    /// The declared fields of the registered events, in registration
    /// order.
    pub closed spec fn spec_event_schemas(&self) -> Seq<Seq<ipc::FieldMetadataView>> {
        self.events@.map_values(|e: TraceSourceEvent| e.spec_schema())
    }

    /// Whether an event name is already registered.
    pub open spec fn spec_has_event(&self, name: Seq<char>) -> bool {
        exists|i: int| 0 <= i < self.spec_event_names().len() && self.spec_event_names()[i] == name
    }

    /// The start announcement this source emits: the given time and this
    /// source's name, wrapped with its identity.
    pub fn make_start_record(&self, time_ns: i64) -> (m: ipc::IpcMessageWithId)
        ensures
            m@.segment_id == self.spec_segment_id(),
            m@.source_name == self.spec_source_name(),
            m@.msg == ipc::IpcMessageView::TraceSegmentStart(
                ipc::SegmentStartView { time_ns, source_name: self.spec_source_name() },
            ),
    {
        ipc::IpcMessageWithId {
            segment_id: self.id,
            source_name: self.source_name.clone(),
            msg: ipc::IpcMessage::TraceSegmentStart(
                ipc::TraceSegmentStart { time_ns, source_name: self.source_name.clone() },
            ),
        }
    }

    /// The end announcement this source emits, wrapped with its identity.
    pub fn make_end_record(&self, time_ns: i64) -> (m: ipc::IpcMessageWithId)
        ensures
            m@.segment_id == self.spec_segment_id(),
            m@.source_name == self.spec_source_name(),
            m@.msg == ipc::IpcMessageView::TraceSegmentEnd(ipc::SegmentEndView { time_ns }),
    {
        ipc::IpcMessageWithId {
            segment_id: self.id,
            source_name: self.source_name.clone(),
            msg: ipc::IpcMessage::TraceSegmentEnd(ipc::TraceSegmentEnd { time_ns }),
        }
    }

    /// The schema announcement for an event, wrapped with this source's
    /// identity.
    pub fn make_schema_record(&self, name: &str, fields: Vec<ipc::TraceEventFieldMetadata>) -> (m:
        ipc::IpcMessageWithId)
        ensures
            m@.segment_id == self.spec_segment_id(),
            m@.source_name == self.spec_source_name(),
            m@.msg == ipc::IpcMessageView::TraceEventSchema(
                ipc::EventSchemaView {
                    name: name@,
                    fields: fields@.map_values(|f: ipc::TraceEventFieldMetadata| f@),
                },
            ),
    {
        ipc::IpcMessageWithId {
            segment_id: self.id,
            source_name: self.source_name.clone(),
            msg: ipc::IpcMessage::TraceEventSchema(
                ipc::TraceEventSchema { name: name.to_owned(), fields },
            ),
        }
    }

    /// The value-label record for one field of one event, wrapped with
    /// this source's identity.
    pub fn make_named_values_record(
        &self,
        name: &str,
        field_name: &str,
        values: ipc::ValueTable,
    ) -> (m: ipc::IpcMessageWithId)
        ensures
            m@.segment_id == self.spec_segment_id(),
            m@.source_name == self.spec_source_name(),
            m@.msg == ipc::IpcMessageView::TraceEventFieldNamedValues(
                ipc::NamedValuesView {
                    event_name: name@,
                    field_name: field_name@,
                    values: values@,
                },
            ),
    {
        ipc::IpcMessageWithId {
            segment_id: self.id,
            source_name: self.source_name.clone(),
            msg: ipc::IpcMessage::TraceEventFieldNamedValues(
                ipc::TraceEventFieldNamedValues {
                    event_name: name.to_owned(),
                    field_name: field_name.to_owned(),
                    values,
                },
            ),
        }
    }

    /// A new source with a freshly minted, non-nil segment id.  The start
    /// announcement of [`TraceSource::make_start_record`], stamped with
    /// the current time, is handed to the queue at once; a failure there
    /// is swallowed, as the caller can observe it on the first emission.
    pub fn new(source_name: &str, sender: flume::Sender<ipc::IpcMessageWithId>) -> (r:
        TraceSource)
        ensures
            r.spec_segment_id() != 0,
            r.spec_source_name() == source_name@,
            r.spec_event_names() =~= Seq::<Seq<char>>::empty(),
    {
        let id = mint_segment_id();
        let src = TraceSource {
            id,
            source_name: source_name.to_owned(),
            sender,
            events: Vec::new(),
        };
        match src.emit_start() {
            Ok(_) => {}
            Err(_) => {}
        }
        proof {
            assert(src.spec_event_names() =~= Seq::<Seq<char>>::empty());
        }
        src
    }

    /// Announces this segment: exactly the record of
    /// [`TraceSource::make_start_record`], stamped with the current time,
    /// is handed to the ingress queue.
    pub fn emit_start(&self) -> (r: Result<(), Error>)
        ensures
            r matches Err(e) ==> e == Error::IngressFull || e == Error::RouterUnavailable,
    {
        let time_ns = now_time_ns();
        let m = self.make_start_record(time_ns);
        send_record(&self.sender, m)
    }

    /// Announces this segment's closure: exactly the record of
    /// [`TraceSource::make_end_record`], stamped with the current time,
    /// is handed to the ingress queue.
    pub fn emit_end(&self) -> (r: Result<(), Error>)
        ensures
            r matches Err(e) ==> e == Error::IngressFull || e == Error::RouterUnavailable,
    {
        let time_ns = now_time_ns();
        let m = self.make_end_record(time_ns);
        send_record(&self.sender, m)
    }

    /// Closes this source: the segment end is emitted best-effort and the
    /// source is consumed.
    pub fn close(self) -> (r: Result<(), Error>)
        ensures
            r matches Err(e) ==> e == Error::IngressFull || e == Error::RouterUnavailable,
    {
        self.emit_end()
    }

    /// Emits value labels for one field of one event: the pair list is
    /// read as a last-write-wins table by [`build_value_table`] and the
    /// record of [`TraceSource::make_named_values_record`] over it is
    /// handed to the queue.  No check is made against the schema: the
    /// router's metadata merge drops labels for unknown events or fields.
    pub fn add_value_table(&self, name: &str, field_name: &str, values: Vec<(Value, String)>) -> (r:
        Result<(), Error>)
        ensures
            r matches Err(e) ==> e == Error::IngressFull || e == Error::RouterUnavailable,
    {
        let table = build_value_table(values);
        let m = self.make_named_values_record(name, field_name, table);
        send_record(&self.sender, m)
    }

    /// Registers an event schema under a new name, announces it with the
    /// record of [`TraceSource::make_schema_record`], and returns the
    /// handle that emits its data points.  A name registered before is
    /// rejected; a failed announcement leaves the source unchanged.
    pub fn add_event(&mut self, name: &str, schema: Vec<ipc::TraceEventFieldMetadata>) -> (r:
        Result<TraceSourceEvent, Error>)
        ensures
            match r {
                Ok(evt) => {
                    &&& !old(self).spec_has_event(name@)
                    &&& final(self).spec_event_names() =~= old(self).spec_event_names().push(name@)
                    &&& final(self).spec_event_schemas() =~= old(self).spec_event_schemas().push(
                        schema@.map_values(|m: ipc::TraceEventFieldMetadata| m@),
                    )
                    &&& evt.spec_name() == name@
                    &&& evt.spec_schema() =~= schema@.map_values(
                        |m: ipc::TraceEventFieldMetadata| m@,
                    )
                    &&& evt.spec_id() == old(self).spec_segment_id()
                    &&& evt.spec_source_name() == old(self).spec_source_name()
                },
                Err(e) => final(self).spec_event_names() == old(self).spec_event_names()
                    && final(self).spec_event_schemas() == old(self).spec_event_schemas() && match e {
                    Error::DuplicateEvent => old(self).spec_has_event(name@),
                    Error::RouterUnavailable => !old(self).spec_has_event(name@),
                    Error::IngressFull => !old(self).spec_has_event(name@),
                    _ => false,
                },
            },
    {
        if self.has_event(name) {
            return Err(Error::DuplicateEvent);
        }
        let evt = TraceSourceEvent {
            id: self.id,
            source_name: self.source_name.clone(),
            sender: self.sender.clone(),
            name: name.to_owned(),
            schema,
        };
        let announcement_fields = {
            let mut fields: Vec<ipc::TraceEventFieldMetadata> = Vec::new();
            let n: usize = evt.schema.len();
            let mut i: usize = 0;
            while i < n
                invariant
                    0 <= i <= n,
                    n == evt.schema@.len(),
                    fields@.len() == i,
                    forall|j: int| 0 <= j < i ==> (#[trigger] fields@[j])@ == evt.schema@[j]@,
                decreases n - i,
            {
                fields.push(evt.schema[i].clone());
                i = i + 1;
            }
            proof {
                assert(fields@.map_values(|f: ipc::TraceEventFieldMetadata| f@)
                    =~= evt.schema@.map_values(|f: ipc::TraceEventFieldMetadata| f@));
            }
            fields
        };
        let m = self.make_schema_record(name, announcement_fields);
        match send_record(&self.sender, m) {
            Ok(_) => {}
            Err(e) => {
                return Err(e);
            }
        }
        let handle = evt.clone();
        let ghost pre_names = self.spec_event_names();
        let ghost pre_schemas = self.spec_event_schemas();
        self.events.push(evt);
        proof {
            assert(self.spec_event_names() =~= pre_names.push(self.events@.last().name@));
            assert(self.spec_event_schemas() =~= pre_schemas.push(
                self.events@.last().spec_schema(),
            ));
        }
        Ok(handle)
    }

    /// Whether an event name is already registered.
    fn has_event(&self, name: &str) -> (r: bool)
        ensures
            r == self.spec_has_event(name@),
    {
        let n: usize = self.events.len();
        let mut i: usize = 0;
        while i < n
            invariant
                0 <= i <= n,
                n == self.events@.len(),
                forall|j: int| 0 <= j < i ==> self.spec_event_names()[j] != name@,
            decreases n - i,
        {
            if crate::text::str_eq_str(self.events[i].name.as_str(), name) {
                proof {
                    assert(self.spec_event_names()[i as int] == name@);
                }
                return true;
            }
            i = i + 1;
        }
        false
    }

    /// The handle for a registered event, by name: it carries the name
    /// and the schema that were registered under it.
    pub fn get_event(&self, name: &str) -> (r: Result<TraceSourceEvent, Error>)
        ensures
            match r {
                Ok(evt) => {
                    &&& evt.spec_name() == name@
                    &&& exists|i: int|
                        {
                            &&& 0 <= i < self.spec_event_names().len()
                            &&& #[trigger] self.spec_event_names()[i] == name@
                            &&& evt.spec_schema() == self.spec_event_schemas()[i]
                        }
                },
                Err(e) => e == Error::EventNotFound && !self.spec_has_event(name@),
            },
    {
        let n: usize = self.events.len();
        let mut i: usize = 0;
        while i < n
            invariant
                0 <= i <= n,
                n == self.events@.len(),
                forall|j: int| 0 <= j < i ==> self.spec_event_names()[j] != name@,
            decreases n - i,
        {
            if crate::text::str_eq_str(self.events[i].name.as_str(), name) {
                let evt = self.events[i].clone();
                proof {
                    assert(self.spec_event_names()[i as int] == name@);
                    assert(self.spec_event_schemas()[i as int] == self.events@[
                        i as int
                    ].spec_schema());
                    assert(evt.spec_schema() =~= self.spec_event_schemas()[i as int]);
                }
                return Ok(evt);
            }
            i = i + 1;
        }
        Err(Error::EventNotFound)
    }

    /// A builder that accumulates a schema for a new event.
    pub fn build_event(&self, name: &str) -> (r: TraceSourceEventBuilder)
        ensures
            r.name@ == name@,
            r.schema@.len() == 0,
    {
        TraceSourceEventBuilder { name: name.to_owned(), schema: Vec::new() }
    }
}

/// Accumulates the fields of a new event schema; a field added under an
/// existing name replaces it.
pub struct TraceSourceEventBuilder {
    pub name: String,
    pub schema: Vec<ipc::TraceEventFieldMetadata>,
}

impl TraceSourceEventBuilder {
    /// The declared fields accumulated so far.
    pub open spec fn spec_fields(&self) -> Seq<ipc::FieldMetadataView> {
        self.schema@.map_values(|m: ipc::TraceEventFieldMetadata| m@)
    }

    /// Registers the accumulated schema with `source` under this
    /// builder's name, with [`TraceSource::add_event`]'s full contract.
    pub fn build(self, source: &mut TraceSource) -> (r: Result<TraceSourceEvent, Error>)
        ensures
            match r {
                Ok(evt) => {
                    &&& !old(source).spec_has_event(self.name@)
                    &&& final(source).spec_event_names() =~= old(source).spec_event_names().push(
                        self.name@,
                    )
                    &&& final(source).spec_event_schemas() =~= old(
                        source,
                    ).spec_event_schemas().push(self.spec_fields())
                    &&& evt.spec_name() == self.name@
                    &&& evt.spec_schema() =~= self.spec_fields()
                    &&& evt.spec_id() == old(source).spec_segment_id()
                },
                Err(e) => final(source).spec_event_names() == old(source).spec_event_names()
                    && match e {
                    Error::DuplicateEvent => old(source).spec_has_event(self.name@),
                    Error::RouterUnavailable => !old(source).spec_has_event(self.name@),
                    Error::IngressFull => !old(source).spec_has_event(self.name@),
                    _ => false,
                },
            },
    {
        let TraceSourceEventBuilder { name, schema } = self;
        source.add_event(name.as_str(), schema)
    }

    /// Adds a field: an existing field of the same name is replaced in
    /// place, a new name is appended.
    pub fn add_field(self, name: &str, data_type: DataType, unit: Option<String>) -> (r: Self)
        ensures
            r.name@ == self.name@,
            r.spec_fields() == ({
                let meta = ipc::FieldMetadataView {
                    name: name@,
                    data_type,
                    unit: match unit {
                        Some(u) => Some(u@),
                        None => None,
                    },
                };
                match spec_meta_index(self.spec_fields(), name@) {
                    Some(i) => self.spec_fields().update(i, meta),
                    None => self.spec_fields().push(meta),
                }
            }),
    {
        let mut b = self;
        let ghost pre = b.spec_fields();
        let meta = ipc::TraceEventFieldMetadata { name: name.to_owned(), data_type, unit };
        let ghost meta_view = meta@;
        match find_meta(&b.schema, name) {
            Some(i) => {
                b.schema.set(i, meta);
                proof {
                    assert(b.spec_fields() =~= pre.update(i as int, meta_view));
                }
            }
            None => {
                b.schema.push(meta);
                proof {
                    assert(b.spec_fields() =~= pre.push(meta_view));
                }
            }
        }
        b
    }

    /// Adds a signed 8-bit field, replacing an existing field of the same
    /// name.
    pub fn add_i8_field(self, name: &str, unit: Option<String>) -> (r: Self)
        ensures
            r.name@ == self.name@,
            r.spec_fields() == ({
                let meta = ipc::FieldMetadataView {
                    name: name@,
                    data_type: DataType::Int8,
                    unit: match unit {
                        Some(u) => Some(u@),
                        None => None,
                    },
                };
                match spec_meta_index(self.spec_fields(), name@) {
                    Some(i) => self.spec_fields().update(i, meta),
                    None => self.spec_fields().push(meta),
                }
            }),
    {
        self.add_field(name, DataType::Int8, unit)
    }

    /// Adds a signed 16-bit field, replacing an existing field of the
    /// same name.
    pub fn add_i16_field(self, name: &str, unit: Option<String>) -> (r: Self)
        ensures
            r.name@ == self.name@,
            r.spec_fields() == ({
                let meta = ipc::FieldMetadataView {
                    name: name@,
                    data_type: DataType::Int16,
                    unit: match unit {
                        Some(u) => Some(u@),
                        None => None,
                    },
                };
                match spec_meta_index(self.spec_fields(), name@) {
                    Some(i) => self.spec_fields().update(i, meta),
                    None => self.spec_fields().push(meta),
                }
            }),
    {
        self.add_field(name, DataType::Int16, unit)
    }

    /// Adds a signed 32-bit field, replacing an existing field of the
    /// same name.
    pub fn add_i32_field(self, name: &str, unit: Option<String>) -> (r: Self)
        ensures
            r.name@ == self.name@,
            r.spec_fields() == ({
                let meta = ipc::FieldMetadataView {
                    name: name@,
                    data_type: DataType::Int32,
                    unit: match unit {
                        Some(u) => Some(u@),
                        None => None,
                    },
                };
                match spec_meta_index(self.spec_fields(), name@) {
                    Some(i) => self.spec_fields().update(i, meta),
                    None => self.spec_fields().push(meta),
                }
            }),
    {
        self.add_field(name, DataType::Int32, unit)
    }

    /// Adds a signed 64-bit field, replacing an existing field of the
    /// same name.
    pub fn add_i64_field(self, name: &str, unit: Option<String>) -> (r: Self)
        ensures
            r.name@ == self.name@,
            r.spec_fields() == ({
                let meta = ipc::FieldMetadataView {
                    name: name@,
                    data_type: DataType::Int64,
                    unit: match unit {
                        Some(u) => Some(u@),
                        None => None,
                    },
                };
                match spec_meta_index(self.spec_fields(), name@) {
                    Some(i) => self.spec_fields().update(i, meta),
                    None => self.spec_fields().push(meta),
                }
            }),
    {
        self.add_field(name, DataType::Int64, unit)
    }

    /// Adds an unsigned 8-bit field, replacing an existing field of the
    /// same name.
    pub fn add_u8_field(self, name: &str, unit: Option<String>) -> (r: Self)
        ensures
            r.name@ == self.name@,
            r.spec_fields() == ({
                let meta = ipc::FieldMetadataView {
                    name: name@,
                    data_type: DataType::UInt8,
                    unit: match unit {
                        Some(u) => Some(u@),
                        None => None,
                    },
                };
                match spec_meta_index(self.spec_fields(), name@) {
                    Some(i) => self.spec_fields().update(i, meta),
                    None => self.spec_fields().push(meta),
                }
            }),
    {
        self.add_field(name, DataType::UInt8, unit)
    }

    /// Adds an unsigned 16-bit field, replacing an existing field of the
    /// same name.
    pub fn add_u16_field(self, name: &str, unit: Option<String>) -> (r: Self)
        ensures
            r.name@ == self.name@,
            r.spec_fields() == ({
                let meta = ipc::FieldMetadataView {
                    name: name@,
                    data_type: DataType::UInt16,
                    unit: match unit {
                        Some(u) => Some(u@),
                        None => None,
                    },
                };
                match spec_meta_index(self.spec_fields(), name@) {
                    Some(i) => self.spec_fields().update(i, meta),
                    None => self.spec_fields().push(meta),
                }
            }),
    {
        self.add_field(name, DataType::UInt16, unit)
    }

    /// Adds an unsigned 32-bit field, replacing an existing field of the
    /// same name.
    pub fn add_u32_field(self, name: &str, unit: Option<String>) -> (r: Self)
        ensures
            r.name@ == self.name@,
            r.spec_fields() == ({
                let meta = ipc::FieldMetadataView {
                    name: name@,
                    data_type: DataType::UInt32,
                    unit: match unit {
                        Some(u) => Some(u@),
                        None => None,
                    },
                };
                match spec_meta_index(self.spec_fields(), name@) {
                    Some(i) => self.spec_fields().update(i, meta),
                    None => self.spec_fields().push(meta),
                }
            }),
    {
        self.add_field(name, DataType::UInt32, unit)
    }

    /// Adds an unsigned 64-bit field, replacing an existing field of the
    /// same name.
    pub fn add_u64_field(self, name: &str, unit: Option<String>) -> (r: Self)
        ensures
            r.name@ == self.name@,
            r.spec_fields() == ({
                let meta = ipc::FieldMetadataView {
                    name: name@,
                    data_type: DataType::UInt64,
                    unit: match unit {
                        Some(u) => Some(u@),
                        None => None,
                    },
                };
                match spec_meta_index(self.spec_fields(), name@) {
                    Some(i) => self.spec_fields().update(i, meta),
                    None => self.spec_fields().push(meta),
                }
            }),
    {
        self.add_field(name, DataType::UInt64, unit)
    }

    /// Adds a 32-bit float field, replacing an existing field of the same
    /// name.
    pub fn add_f32_field(self, name: &str, unit: Option<String>) -> (r: Self)
        ensures
            r.name@ == self.name@,
            r.spec_fields() == ({
                let meta = ipc::FieldMetadataView {
                    name: name@,
                    data_type: DataType::Float32,
                    unit: match unit {
                        Some(u) => Some(u@),
                        None => None,
                    },
                };
                match spec_meta_index(self.spec_fields(), name@) {
                    Some(i) => self.spec_fields().update(i, meta),
                    None => self.spec_fields().push(meta),
                }
            }),
    {
        self.add_field(name, DataType::Float32, unit)
    }

    /// Adds a 64-bit float field, replacing an existing field of the same
    /// name.
    pub fn add_f64_field(self, name: &str, unit: Option<String>) -> (r: Self)
        ensures
            r.name@ == self.name@,
            r.spec_fields() == ({
                let meta = ipc::FieldMetadataView {
                    name: name@,
                    data_type: DataType::Float64,
                    unit: match unit {
                        Some(u) => Some(u@),
                        None => None,
                    },
                };
                match spec_meta_index(self.spec_fields(), name@) {
                    Some(i) => self.spec_fields().update(i, meta),
                    None => self.spec_fields().push(meta),
                }
            }),
    {
        self.add_field(name, DataType::Float64, unit)
    }

    /// Adds a timestamp field, replacing an existing field of the same
    /// name.
    pub fn add_timestamp_ns_field(self, name: &str, unit: Option<String>) -> (r: Self)
        ensures
            r.name@ == self.name@,
            r.spec_fields() == ({
                let meta = ipc::FieldMetadataView {
                    name: name@,
                    data_type: DataType::TimestampNs,
                    unit: match unit {
                        Some(u) => Some(u@),
                        None => None,
                    },
                };
                match spec_meta_index(self.spec_fields(), name@) {
                    Some(i) => self.spec_fields().update(i, meta),
                    None => self.spec_fields().push(meta),
                }
            }),
    {
        self.add_field(name, DataType::TimestampNs, unit)
    }

    /// Adds a binary field, replacing an existing field of the same name.
    pub fn add_binary_field(self, name: &str, unit: Option<String>) -> (r: Self)
        ensures
            r.name@ == self.name@,
            r.spec_fields() == ({
                let meta = ipc::FieldMetadataView {
                    name: name@,
                    data_type: DataType::Binary,
                    unit: match unit {
                        Some(u) => Some(u@),
                        None => None,
                    },
                };
                match spec_meta_index(self.spec_fields(), name@) {
                    Some(i) => self.spec_fields().update(i, meta),
                    None => self.spec_fields().push(meta),
                }
            }),
    {
        self.add_field(name, DataType::Binary, unit)
    }

    /// Adds a text field, replacing an existing field of the same name.
    pub fn add_string_field(self, name: &str, unit: Option<String>) -> (r: Self)
        ensures
            r.name@ == self.name@,
            r.spec_fields() == ({
                let meta = ipc::FieldMetadataView {
                    name: name@,
                    data_type: DataType::String,
                    unit: match unit {
                        Some(u) => Some(u@),
                        None => None,
                    },
                };
                match spec_meta_index(self.spec_fields(), name@) {
                    Some(i) => self.spec_fields().update(i, meta),
                    None => self.spec_fields().push(meta),
                }
            }),
    {
        self.add_field(name, DataType::String, unit)
    }

    /// Adds a boolean field, replacing an existing field of the same
    /// name.
    pub fn add_bool_field(self, name: &str, unit: Option<String>) -> (r: Self)
        ensures
            r.name@ == self.name@,
            r.spec_fields() == ({
                let meta = ipc::FieldMetadataView {
                    name: name@,
                    data_type: DataType::Boolean,
                    unit: match unit {
                        Some(u) => Some(u@),
                        None => None,
                    },
                };
                match spec_meta_index(self.spec_fields(), name@) {
                    Some(i) => self.spec_fields().update(i, meta),
                    None => self.spec_fields().push(meta),
                }
            }),
    {
        self.add_field(name, DataType::Boolean, unit)
    }
}

} // verus!
