//! Per-segment derived metadata: schemas, value tables and the segment's
//! observed lifetime, with the deterministic merge rules.
//!
//! The mathematical model of a segment reads every value table as a
//! last-write-wins map, so the merge rules are stated exactly:
//! `start_time` only moves downward, `end_time` records the latest end
//! seen, schemas are write-once per event name, value tables accumulate
//! with the newest label winning per key, and events never change
//! metadata.

use vstd::prelude::*;

use crate::ipc;
use crate::ipc::{table_as_map, table_keys_unique, ValueTable};
use crate::value::ValueView;

verus! {

/// One declared field of an event, together with the value labels that have
/// accumulated for it.
#[derive(Debug)]
pub struct TraceEventField {
    pub metadata: ipc::TraceEventFieldMetadata,
    pub values: ValueTable,
}

/// The mathematical shape of [`TraceEventField`]: the declared metadata and
/// the value labels read as a map.
pub struct FieldModel {
    pub metadata: ipc::FieldMetadataView,
    pub values: Map<ValueView, Seq<char>>,
}

impl TraceEventField {
    /// The mathematical reading of this field.
    pub open spec fn model(&self) -> FieldModel {
        FieldModel { metadata: self.metadata@, values: table_as_map(self.values@) }
    }

    /// Whether this field is well formed: its value-table keys are unique.
    pub open spec fn wf(&self) -> bool {
        table_keys_unique(self.values@)
    }

    /// A field fresh from a schema declaration: no value labels yet.
    pub fn from_ipc(msg: ipc::TraceEventFieldMetadata) -> (r: Self)
        ensures
            r.model() == (FieldModel { metadata: msg@, values: Map::<ValueView, Seq<char>>::empty() }),
            r.wf(),
    {
        let r = TraceEventField { metadata: msg, values: ValueTable::new() };
        proof {
            assert(table_as_map(r.values@) =~= Map::<ValueView, Seq<char>>::empty());
        }
        r
    }
}

impl Clone for TraceEventField {
    /// A clone preserves the mathematical value.
    fn clone(&self) -> (r: Self)
        ensures
            r.model() == self.model(),
            r.wf() == self.wf(),
    {
        TraceEventField { metadata: self.metadata.clone(), values: self.values.clone() }
    }
}

/// An event schema inside a segment: the declared fields, each carrying its
/// accumulated value labels.
#[derive(Debug)]
pub struct TraceEventSchema {
    pub name: String,
    pub fields: Vec<TraceEventField>,
}

/// The mathematical shape of [`TraceEventSchema`].
pub struct SchemaModel {
    pub name: Seq<char>,
    pub fields: Seq<FieldModel>,
}

/// The index of the first field of `fields` named `name`, if any.
pub open spec fn spec_field_index(fields: Seq<FieldModel>, name: Seq<char>) -> Option<int> {
    if exists|i: int| 0 <= i < fields.len() && fields[i].metadata.name == name {
        Some(spec_first_field_index(fields, name, 0))
    } else {
        None
    }
}

/// The least index at or after `from` whose field is named `name`; counts up
/// from `from`.
pub open spec fn spec_first_field_index(fields: Seq<FieldModel>, name: Seq<char>, from: int) -> int
    decreases fields.len() - from,
{
    if from < 0 || from >= fields.len() {
        from
    } else if fields[from].metadata.name == name {
        from
    } else {
        spec_first_field_index(fields, name, from + 1)
    }
}

impl TraceEventSchema {
    /// The mathematical reading of this schema.
    pub open spec fn model(&self) -> SchemaModel {
        SchemaModel {
            name: self.name@,
            fields: self.fields@.map_values(|f: TraceEventField| f.model()),
        }
    }

    /// Whether this schema is well formed: every field's table is.
    pub open spec fn wf(&self) -> bool {
        forall|i: int| 0 <= i < self.fields@.len() ==> (#[trigger] self.fields@[i]).wf()
    }

    /// A schema fresh from its declaration message: the declared fields,
    /// each with an empty value table.
    pub fn from_ipc(msg: ipc::TraceEventSchema) -> (r: Self)
        ensures
            r.model() == spec_schema_from_ipc(msg@),
            r.wf(),
    {
        let ghost msg_view = msg@;
        let ipc::TraceEventSchema { name, fields } = msg;
        let mut out: Vec<TraceEventField> = Vec::new();
        let n: usize = fields.len();
        let mut i: usize = 0;
        while i < n
            invariant
                0 <= i <= n,
                n == fields@.len(),
                out@.len() == i,
                forall|j: int| 0 <= j < i ==> (#[trigger] out@[j]).wf(),
                forall|j: int|
                    0 <= j < i ==> (#[trigger] out@[j]).model() == (FieldModel {
                        metadata: fields@[j]@,
                        values: Map::<ValueView, Seq<char>>::empty(),
                    }),
            decreases n - i,
        {
            let f = fields[i].clone();
            out.push(TraceEventField::from_ipc(f));
            i = i + 1;
        }
        let r = TraceEventSchema { name, fields: out };
        proof {
            assert(r.model().fields =~= spec_schema_from_ipc(msg_view).fields);
        }
        r
    }

    /// The index of the first field named `field_name`, if any.
    pub fn find_field(&self, field_name: &str) -> (r: Option<usize>)
        ensures
            match r {
                Some(i) => {
                    &&& spec_field_index(self.model().fields, field_name@) == Some(i as int)
                    &&& 0 <= i < self.model().fields.len()
                    &&& self.model().fields[i as int].metadata.name == field_name@
                },
                None => spec_field_index(self.model().fields, field_name@) is None,
            },
    {
        let n: usize = self.fields.len();
        let mut i: usize = 0;
        while i < n
            invariant
                0 <= i <= n,
                n == self.model().fields.len(),
                forall|j: int| 0 <= j < i ==> self.model().fields[j].metadata.name != field_name@,
            decreases n - i,
        {
            if crate::text::str_eq_str(self.fields[i].metadata.name.as_str(), field_name) {
                proof {
                    assert(self.model().fields[i as int].metadata.name == field_name@);
                    lemma_first_field_index_at(self.model().fields, field_name@, i as int);
                }
                return Some(i);
            }
            i = i + 1;
        }
        None
    }

    /// A reference to the first field named `field_name`, if any.
    pub fn get_field(&self, field_name: &str) -> (r: Option<&TraceEventField>)
        ensures
            match r {
                Some(f) => {
                    &&& spec_field_index(self.model().fields, field_name@) matches Some(i)
                        && f.model() == self.model().fields[i]
                    &&& f.model().metadata.name == field_name@
                },
                None => spec_field_index(self.model().fields, field_name@) is None,
            },
    {
        match self.find_field(field_name) {
            Some(i) => Some(&self.fields[i]),
            None => None,
        }
    }

    /// The metadata of every declared field, in declaration order.
    pub fn metadata(&self) -> (r: Vec<ipc::TraceEventFieldMetadata>)
        ensures
            r@.map_values(|f: ipc::TraceEventFieldMetadata| f@) =~= self.model().fields.map_values(
                |f: FieldModel| f.metadata,
            ),
    {
        let mut out: Vec<ipc::TraceEventFieldMetadata> = Vec::new();
        let n: usize = self.fields.len();
        let mut i: usize = 0;
        while i < n
            invariant
                0 <= i <= n,
                n == self.fields@.len(),
                out@.len() == i,
                forall|j: int| 0 <= j < i ==> #[trigger] out@[j]@ == self.fields@[j].metadata@,
            decreases n - i,
        {
            out.push(self.fields[i].metadata.clone());
            i = i + 1;
        }
        proof {
            assert forall|j: int| 0 <= j < n implies #[trigger] out@[j]@
                == self.model().fields[j].metadata by {
                assert(self.model().fields[j] == self.fields@[j].model());
            }
            assert(out@.map_values(|f: ipc::TraceEventFieldMetadata| f@)
                =~= self.model().fields.map_values(|f: FieldModel| f.metadata));
        }
        out
    }
}

impl Clone for TraceEventSchema {
    /// A clone preserves the mathematical value.
    fn clone(&self) -> (r: Self)
        ensures
            r.model() == self.model(),
            r.wf() == self.wf(),
    {
        let mut fields: Vec<TraceEventField> = Vec::new();
        let n: usize = self.fields.len();
        let mut i: usize = 0;
        while i < n
            invariant
                0 <= i <= n,
                n == self.fields@.len(),
                fields@.len() == i,
                forall|j: int|
                    0 <= j < i ==> (#[trigger] fields@[j]).model() == self.fields@[j].model(),
                forall|j: int| 0 <= j < i ==> (#[trigger] fields@[j]).wf() == self.fields@[j].wf(),
            decreases n - i,
        {
            fields.push(self.fields[i].clone());
            i = i + 1;
        }
        let r = TraceEventSchema { name: self.name.clone(), fields };
        proof {
            assert(r.model().fields =~= self.model().fields);
            if r.wf() {
                assert forall|j: int|
                    0 <= j < self.fields@.len() implies (#[trigger] self.fields@[j]).wf() by {
                    assert(r.fields@[j].wf());
                }
            }
            if self.wf() {
                assert forall|j: int|
                    0 <= j < r.fields@.len() implies (#[trigger] r.fields@[j]).wf() by {
                    assert(self.fields@[j].wf());
                }
            }
        }
        r
    }
}

/// The schema a declaration message denotes: the declared fields with empty
/// value tables.
pub open spec fn spec_schema_from_ipc(m: ipc::EventSchemaView) -> SchemaModel {
    SchemaModel {
        name: m.name,
        fields: m.fields.map_values(
            |f: ipc::FieldMetadataView|
                FieldModel { metadata: f, values: Map::<ValueView, Seq<char>>::empty() },
        ),
    }
}

/// Walking `spec_first_field_index` past a non-matching prefix.
pub proof fn lemma_first_field_index_step(fields: Seq<FieldModel>, name: Seq<char>, i: int)
    requires
        0 <= i < fields.len(),
        forall|j: int| 0 <= j < i ==> fields[j].metadata.name != name,
    ensures
        spec_first_field_index(fields, name, 0) == spec_first_field_index(fields, name, i),
    decreases i,
{
    if i > 0 {
        lemma_first_field_index_step(fields, name, i - 1);
        assert(spec_first_field_index(fields, name, i - 1) == spec_first_field_index(
            fields,
            name,
            i,
        ));
    }
}

/// At the first matching index the walk stops.
pub proof fn lemma_first_field_index_at(fields: Seq<FieldModel>, name: Seq<char>, i: int)
    requires
        0 <= i < fields.len(),
        forall|j: int| 0 <= j < i ==> fields[j].metadata.name != name,
        fields[i].metadata.name == name,
    ensures
        spec_field_index(fields, name) == Some(i),
{
    lemma_first_field_index_step(fields, name, i);
}

/// The merge-relevant reading of a routed message: value labels are read as
/// a last-write-wins map, everything else keeps its shape.
pub enum IpcMessageModel {
    Start { time_ns: i64, source_name: Seq<char> },
    End { time_ns: i64 },
    Schema(ipc::EventSchemaView),
    NamedValues { event_name: Seq<char>, field_name: Seq<char>, values: Map<ValueView, Seq<char>> },
    Event(ipc::EventView),
}

/// The merge-relevant reading of a message.
pub open spec fn msg_model(m: ipc::IpcMessageView) -> IpcMessageModel {
    match m {
        ipc::IpcMessageView::TraceSegmentStart(s) => IpcMessageModel::Start {
            time_ns: s.time_ns,
            source_name: s.source_name,
        },
        ipc::IpcMessageView::TraceSegmentEnd(e) => IpcMessageModel::End { time_ns: e.time_ns },
        ipc::IpcMessageView::TraceEventSchema(s) => IpcMessageModel::Schema(s),
        ipc::IpcMessageView::TraceEventFieldNamedValues(nv) => IpcMessageModel::NamedValues {
            event_name: nv.event_name,
            field_name: nv.field_name,
            values: table_as_map(nv.values),
        },
        ipc::IpcMessageView::TraceEvent(e) => IpcMessageModel::Event(e),
    }
}

/// The index of the first schema of `schemas` named `name`, if any.
pub open spec fn spec_schema_index(schemas: Seq<SchemaModel>, name: Seq<char>) -> Option<int> {
    if exists|i: int| 0 <= i < schemas.len() && schemas[i].name == name {
        Some(spec_first_schema_index(schemas, name, 0))
    } else {
        None
    }
}

/// The least index at or after `from` whose schema is named `name`; counts
/// up from `from`.
pub open spec fn spec_first_schema_index(
    schemas: Seq<SchemaModel>,
    name: Seq<char>,
    from: int,
) -> int
    decreases schemas.len() - from,
{
    if from < 0 || from >= schemas.len() {
        from
    } else if schemas[from].name == name {
        from
    } else {
        spec_first_schema_index(schemas, name, from + 1)
    }
}

/// Walking `spec_first_schema_index` past a non-matching prefix.
pub proof fn lemma_first_schema_index_step(schemas: Seq<SchemaModel>, name: Seq<char>, i: int)
    requires
        0 <= i < schemas.len(),
        forall|j: int| 0 <= j < i ==> schemas[j].name != name,
    ensures
        spec_first_schema_index(schemas, name, 0) == spec_first_schema_index(schemas, name, i),
    decreases i,
{
    if i > 0 {
        lemma_first_schema_index_step(schemas, name, i - 1);
        assert(spec_first_schema_index(schemas, name, i - 1) == spec_first_schema_index(
            schemas,
            name,
            i,
        ));
    }
}

/// A found schema index is in range, names its event, and is least.
pub proof fn lemma_schema_index_valid(schemas: Seq<SchemaModel>, name: Seq<char>)
    requires
        spec_schema_index(schemas, name) is Some,
    ensures
        ({
            let i = spec_schema_index(schemas, name)->Some_0;
            &&& 0 <= i < schemas.len()
            &&& schemas[i].name == name
            &&& forall|j: int| 0 <= j < i ==> schemas[j].name != name
        }),
{
    lemma_schema_walk_finds(schemas, name, 0);
}

/// From any point with a match at or after it, the walk lands on the
/// least such match.
pub proof fn lemma_schema_walk_finds(schemas: Seq<SchemaModel>, name: Seq<char>, from: int)
    requires
        0 <= from,
        exists|i: int| from <= i < schemas.len() && schemas[i].name == name,
    ensures
        ({
            let r = spec_first_schema_index(schemas, name, from);
            &&& from <= r < schemas.len()
            &&& schemas[r].name == name
            &&& forall|j: int| from <= j < r ==> schemas[j].name != name
        }),
    decreases schemas.len() - from,
{
    let w = choose|i: int| from <= i < schemas.len() && schemas[i].name == name;
    if schemas[from].name != name {
        assert(w != from);
        lemma_schema_walk_finds(schemas, name, from + 1);
    }
}

/// A found field index is in range, names its field, and is least.
pub proof fn lemma_field_index_valid(fields: Seq<FieldModel>, name: Seq<char>)
    requires
        spec_field_index(fields, name) is Some,
    ensures
        ({
            let i = spec_field_index(fields, name)->Some_0;
            &&& 0 <= i < fields.len()
            &&& fields[i].metadata.name == name
            &&& forall|j: int| 0 <= j < i ==> fields[j].metadata.name != name
        }),
{
    lemma_field_walk_finds(fields, name, 0);
}

/// From any point with a match at or after it, the walk lands on the
/// least such match.
pub proof fn lemma_field_walk_finds(fields: Seq<FieldModel>, name: Seq<char>, from: int)
    requires
        0 <= from,
        exists|i: int| from <= i < fields.len() && fields[i].metadata.name == name,
    ensures
        ({
            let r = spec_first_field_index(fields, name, from);
            &&& from <= r < fields.len()
            &&& fields[r].metadata.name == name
            &&& forall|j: int| from <= j < r ==> fields[j].metadata.name != name
        }),
    decreases fields.len() - from,
{
    let w = choose|i: int| from <= i < fields.len() && fields[i].metadata.name == name;
    if fields[from].metadata.name != name {
        assert(w != from);
        lemma_field_walk_finds(fields, name, from + 1);
    }
}

/// At the first matching index the walk stops.
pub proof fn lemma_first_schema_index_at(schemas: Seq<SchemaModel>, name: Seq<char>, i: int)
    requires
        0 <= i < schemas.len(),
        forall|j: int| 0 <= j < i ==> schemas[j].name != name,
        schemas[i].name == name,
    ensures
        spec_schema_index(schemas, name) == Some(i),
{
    lemma_first_schema_index_step(schemas, name, i);
}

/// The start time after observing a start message at `t`: the earliest
/// start seen wins.
pub open spec fn spec_merge_start(cur: Option<i64>, t: i64) -> Option<i64> {
    match cur {
        Some(t0) => if t < t0 {
            Some(t)
        } else {
            Some(t0)
        },
        None => Some(t),
    }
}

/// How one message merges into a segment:
/// - a start message overwrites the source name and can only move the
///   start time downward;
/// - an end message records the latest end seen;
/// - a schema message is write-once per event name;
/// - value labels accumulate per field, the newest label winning per key,
///   and are dropped when the event or field is unknown;
/// - a data event changes nothing.
pub open spec fn seg_update(s: SegmentModel, m: IpcMessageModel) -> SegmentModel {
    match m {
        IpcMessageModel::Start { time_ns, source_name } => SegmentModel {
            id: s.id,
            source: source_name,
            start_time: spec_merge_start(s.start_time, time_ns),
            end_time: s.end_time,
            schemas: s.schemas,
        },
        IpcMessageModel::End { time_ns } => SegmentModel {
            id: s.id,
            source: s.source,
            start_time: s.start_time,
            end_time: Some(time_ns),
            schemas: s.schemas,
        },
        IpcMessageModel::Schema(sc) => if spec_schema_index(s.schemas, sc.name) is Some {
            s
        } else {
            SegmentModel {
                id: s.id,
                source: s.source,
                start_time: s.start_time,
                end_time: s.end_time,
                schemas: s.schemas.push(spec_schema_from_ipc(sc)),
            }
        },
        IpcMessageModel::NamedValues { event_name, field_name, values } => match spec_schema_index(
            s.schemas,
            event_name,
        ) {
            Some(i) => match spec_field_index(s.schemas[i].fields, field_name) {
                Some(j) => SegmentModel {
                    id: s.id,
                    source: s.source,
                    start_time: s.start_time,
                    end_time: s.end_time,
                    schemas: s.schemas.update(
                        i,
                        SchemaModel {
                            name: s.schemas[i].name,
                            fields: s.schemas[i].fields.update(
                                j,
                                FieldModel {
                                    metadata: s.schemas[i].fields[j].metadata,
                                    values: s.schemas[i].fields[j].values.union_prefer_right(
                                        values,
                                    ),
                                },
                            ),
                        },
                    ),
                },
                None => s,
            },
            None => s,
        },
        IpcMessageModel::Event(_) => s,
    }
}

/// Writing a label sequence into a map pair by pair equals overlaying the
/// map with the sequence's own last-write-wins reading.
pub proof fn lemma_extend_is_union(m: Map<ValueView, Seq<char>>, s: Seq<(ValueView, Seq<char>)>)
    ensures
        ValueTable::spec_extend(m, s) =~= m.union_prefer_right(table_as_map(s)),
    decreases s.len(),
{
    if s.len() > 0 {
        lemma_extend_is_union(m, s.drop_last());
    }
}

/// The start-message prefix of a segment's serialization: one start
/// message when the start time is known, else nothing.
pub open spec fn spec_start_ipc(s: SegmentModel) -> Seq<IpcMessageModel> {
    match s.start_time {
        Some(t) => seq![IpcMessageModel::Start { time_ns: t, source_name: s.source }],
        None => Seq::empty(),
    }
}

/// The end-message suffix of a segment's serialization: one end message
/// when the end time is known, else nothing.
pub open spec fn spec_end_ipc(s: SegmentModel) -> Seq<IpcMessageModel> {
    match s.end_time {
        Some(t) => seq![IpcMessageModel::End { time_ns: t }],
        None => Seq::empty(),
    }
}

/// The declaration message a schema serializes to.
pub open spec fn spec_schema_msg(sch: SchemaModel) -> IpcMessageModel {
    IpcMessageModel::Schema(
        ipc::EventSchemaView {
            name: sch.name,
            fields: sch.fields.map_values(|f: FieldModel| f.metadata),
        },
    )
}

/// The named-values messages of a schema's fields: one per field with a
/// non-empty table, in declaration order.
pub open spec fn spec_fields_ipc(event_name: Seq<char>, fields: Seq<FieldModel>) -> Seq<
    IpcMessageModel,
>
    decreases fields.len(),
{
    if fields.len() == 0 {
        Seq::empty()
    } else {
        spec_fields_ipc(event_name, fields.drop_last()) + if exists|k: ValueView|
            fields.last().values.dom().contains(k) {
            seq![
                IpcMessageModel::NamedValues {
                    event_name,
                    field_name: fields.last().metadata.name,
                    values: fields.last().values,
                },
            ]
        } else {
            Seq::empty()
        }
    }
}

/// The serialization of every schema, in insertion order.
pub open spec fn spec_schemas_ipc(schemas: Seq<SchemaModel>) -> Seq<IpcMessageModel>
    decreases schemas.len(),
{
    if schemas.len() == 0 {
        Seq::empty()
    } else {
        spec_schemas_ipc(schemas.drop_last()) + seq![spec_schema_msg(schemas.last())]
            + spec_fields_ipc(schemas.last().name, schemas.last().fields)
    }
}

/// The full serialization of a segment: start message if known, then each
/// schema with its named values, then the end message if known.
pub open spec fn spec_seg_ipc(s: SegmentModel) -> Seq<IpcMessageModel> {
    spec_start_ipc(s) + spec_schemas_ipc(s.schemas) + spec_end_ipc(s)
}

/// A contiguous emission session by one source: its identity, its observed
/// lifetime, and the schemas seen so far.
#[derive(Debug)]
pub struct TraceSegment {
    pub id: u128,
    pub source: String,
    /// The earliest start time observed, in nanoseconds since the Unix
    /// epoch.
    pub start_time: Option<i64>,
    /// The latest end time observed, in nanoseconds since the Unix epoch.
    pub end_time: Option<i64>,
    pub schemas: Vec<TraceEventSchema>,
}

/// The mathematical shape of [`TraceSegment`].
pub struct SegmentModel {
    pub id: u128,
    pub source: Seq<char>,
    pub start_time: Option<i64>,
    pub end_time: Option<i64>,
    pub schemas: Seq<SchemaModel>,
}

impl TraceSegment {
    /// The mathematical reading of this segment.
    pub open spec fn model(&self) -> SegmentModel {
        SegmentModel {
            id: self.id,
            source: self.source@,
            start_time: self.start_time,
            end_time: self.end_time,
            schemas: self.schemas@.map_values(|s: TraceEventSchema| s.model()),
        }
    }

    /// Whether this segment is well formed: every schema is.
    pub open spec fn wf(&self) -> bool {
        forall|i: int| 0 <= i < self.schemas@.len() ==> (#[trigger] self.schemas@[i]).wf()
    }

    /// An empty segment, used when the first message observed for an id is
    /// not a start message.
    pub fn empty(id: u128, source_name: String) -> (r: Self)
        ensures
            r.model() == (SegmentModel {
                id,
                source: source_name@,
                start_time: None,
                end_time: None,
                schemas: Seq::<SchemaModel>::empty(),
            }),
            r.wf(),
    {
        let r = TraceSegment {
            id,
            source: source_name,
            start_time: None,
            end_time: None,
            schemas: Vec::new(),
        };
        proof {
            assert(r.model().schemas =~= Seq::<SchemaModel>::empty());
        }
        r
    }

    /// A segment created from its start message.
    pub fn from_ipc(id: u128, start: &ipc::TraceSegmentStart) -> (r: Self)
        ensures
            r.model() == (SegmentModel {
                id,
                source: start@.source_name,
                start_time: Some(start@.time_ns),
                end_time: None,
                schemas: Seq::<SchemaModel>::empty(),
            }),
            r.wf(),
    {
        let r = TraceSegment {
            id,
            source: start.source_name.clone(),
            start_time: Some(start.time_ns),
            end_time: None,
            schemas: Vec::new(),
        };
        proof {
            assert(r.model().schemas =~= Seq::<SchemaModel>::empty());
        }
        r
    }

    /// The index of the first schema named `event_name`, if any.
    pub fn find_schema(&self, event_name: &str) -> (r: Option<usize>)
        ensures
            match r {
                Some(i) => {
                    &&& spec_schema_index(self.model().schemas, event_name@) == Some(i as int)
                    &&& 0 <= i < self.model().schemas.len()
                    &&& self.model().schemas[i as int].name == event_name@
                },
                None => spec_schema_index(self.model().schemas, event_name@) is None,
            },
    {
        let n: usize = self.schemas.len();
        let mut i: usize = 0;
        while i < n
            invariant
                0 <= i <= n,
                n == self.model().schemas.len(),
                forall|j: int| 0 <= j < i ==> self.model().schemas[j].name != event_name@,
            decreases n - i,
        {
            if crate::text::str_eq_str(self.schemas[i].name.as_str(), event_name) {
                proof {
                    assert(self.model().schemas[i as int].name == event_name@);
                    lemma_first_schema_index_at(self.model().schemas, event_name@, i as int);
                }
                return Some(i);
            }
            i = i + 1;
        }
        None
    }

    /// A reference to the schema declared for `event_name`, if any.
    pub fn maybe_event(&self, event_name: &str) -> (r: Option<&TraceEventSchema>)
        ensures
            match r {
                Some(s) => spec_schema_index(self.model().schemas, event_name@) matches Some(i)
                    && s.model() == self.model().schemas[i],
                None => spec_schema_index(self.model().schemas, event_name@) is None,
            },
    {
        match self.find_schema(event_name) {
            Some(i) => Some(&self.schemas[i]),
            None => None,
        }
    }

    /// Merges one message into this segment, by the rules of
    /// [`seg_update`].
    pub fn update_mut(&mut self, msg: &ipc::IpcMessage)
        requires
            old(self).wf(),
        ensures
            final(self).wf(),
            final(self).model() == seg_update(old(self).model(), msg_model(msg@)),
    {
        match msg {
            ipc::IpcMessage::TraceSegmentStart(m) => {
                self.source = m.source_name.clone();
                match self.start_time {
                    Some(t0) => {
                        if m.time_ns < t0 {
                            self.start_time = Some(m.time_ns);
                        }
                    }
                    None => {
                        self.start_time = Some(m.time_ns);
                    }
                }
            }
            ipc::IpcMessage::TraceSegmentEnd(m) => {
                self.end_time = Some(m.time_ns);
            }
            ipc::IpcMessage::TraceEventSchema(m) => {
                match self.find_schema(m.name.as_str()) {
                    Some(_) => {}
                    None => {
                        let ghost pre = self.model().schemas;
                        self.schemas.push(TraceEventSchema::from_ipc(m.clone()));
                        proof {
                            assert(self.model().schemas =~= pre.push(spec_schema_from_ipc(m@)));
                        }
                    }
                }
            }
            ipc::IpcMessage::TraceEventFieldNamedValues(m) => {
                match self.find_schema(m.event_name.as_str()) {
                    Some(i) => {
                        let ghost pre = self.model();
                        let mut schema = self.schemas.remove(i);
                        match schema.find_field(m.field_name.as_str()) {
                            Some(j) => {
                                let ghost pre_schema = schema.model();
                                let mut field = schema.fields.remove(j);
                                field.values.extend_from(&m.values);
                                proof {
                                    lemma_extend_is_union(
                                        pre_schema.fields[j as int].values,
                                        m.values@,
                                    );
                                }
                                schema.fields.insert(j, field);
                                proof {
                                    assert(schema.model().fields =~= pre_schema.fields.update(
                                        j as int,
                                        FieldModel {
                                            metadata: pre_schema.fields[j as int].metadata,
                                            values: pre_schema.fields[
                                                j as int
                                            ].values.union_prefer_right(table_as_map(m.values@)),
                                        },
                                    ));
                                }
                            }
                            None => {}
                        }
                        self.schemas.insert(i, schema);
                        proof {
                            assert(self.model().schemas =~= pre.schemas.update(
                                i as int,
                                self.schemas@[i as int].model(),
                            ));
                            let target = seg_update(pre, msg_model(msg@));
                            assert(self.model().schemas =~= target.schemas);
                            assert(self.model() == target);
                        }
                    }
                    None => {}
                }
            }
            ipc::IpcMessage::TraceEvent(_) => {}
        }
    }

    /// Serializes this segment as the message sequence that reconstructs
    /// it: the start message if the start time is known, then one schema
    /// message per event followed by one named-values message per field
    /// with a non-empty table, then the end message if known.
    pub fn as_ipc(&self) -> (r: Vec<ipc::IpcMessage>)
        ensures
            r@.map_values(|m: ipc::IpcMessage| msg_model(m@)) =~= spec_seg_ipc(self.model()),
    {
        let ghost target = spec_seg_ipc(self.model());
        let mut msgs: Vec<ipc::IpcMessage> = Vec::new();
        match self.start_time {
            Some(t) => {
                msgs.push(
                    ipc::IpcMessage::TraceSegmentStart(
                        ipc::TraceSegmentStart { time_ns: t, source_name: self.source.clone() },
                    ),
                );
            }
            None => {}
        }
        proof {
            assert(msgs@.map_values(|m: ipc::IpcMessage| msg_model(m@)) =~= spec_start_ipc(
                self.model(),
            ));
        }
        let n: usize = self.schemas.len();
        let mut i: usize = 0;
        while i < n
            invariant
                0 <= i <= n,
                n == self.model().schemas.len(),
                msgs@.map_values(|m: ipc::IpcMessage| msg_model(m@)) =~= spec_start_ipc(
                    self.model(),
                ) + spec_schemas_ipc(self.model().schemas.take(i as int)),
            decreases n - i,
        {
            let ghost sch_model = self.model().schemas[i as int];
            let schema = &self.schemas[i];
            let schema_msg = ipc::TraceEventSchema {
                name: schema.name.clone(),
                fields: schema.metadata(),
            };
            msgs.push(ipc::IpcMessage::TraceEventSchema(schema_msg));
            proof {
                assert(msgs@.map_values(|m: ipc::IpcMessage| msg_model(m@)) =~= spec_start_ipc(
                    self.model(),
                ) + spec_schemas_ipc(self.model().schemas.take(i as int)) + seq![
                    spec_schema_msg(sch_model),
                ] + spec_fields_ipc(sch_model.name, sch_model.fields.take(0)));
            }
            let fn_count: usize = schema.fields.len();
            let mut j: usize = 0;
            while j < fn_count
                invariant
                    0 <= j <= fn_count,
                    0 <= i < n,
                    n == self.model().schemas.len(),
                    sch_model == self.model().schemas[i as int],
                    fn_count == sch_model.fields.len(),
                    schema == &self.schemas[i as int],
                    schema.model() == sch_model,
                    msgs@.map_values(|m: ipc::IpcMessage| msg_model(m@)) =~= spec_start_ipc(
                        self.model(),
                    ) + spec_schemas_ipc(self.model().schemas.take(i as int)) + seq![
                        spec_schema_msg(sch_model),
                    ] + spec_fields_ipc(sch_model.name, sch_model.fields.take(j as int)),
                decreases fn_count - j,
            {
                let field = &schema.fields[j];
                let ghost pre_msgs = msgs@;
                if field.values.len() > 0 {
                    let nv = ipc::TraceEventFieldNamedValues {
                        event_name: schema.name.clone(),
                        field_name: field.metadata.name.clone(),
                        values: field.values.clone(),
                    };
                    proof {
                        assert(sch_model.fields[j as int] == field.model());
                        assert(nv@.event_name == sch_model.name);
                        assert(nv@.field_name == sch_model.fields[j as int].metadata.name);
                        assert(nv@.values == field.values@);
                        assert(table_as_map(nv@.values) == sch_model.fields[j as int].values);
                    }
                    msgs.push(ipc::IpcMessage::TraceEventFieldNamedValues(nv));
                    proof {
                        assert(msg_model(msgs@.last()@) == (IpcMessageModel::NamedValues {
                            event_name: sch_model.name,
                            field_name: sch_model.fields[j as int].metadata.name,
                            values: sch_model.fields[j as int].values,
                        }));
                        assert(msgs@.map_values(|m: ipc::IpcMessage| msg_model(m@))
                            =~= pre_msgs.map_values(|m: ipc::IpcMessage| msg_model(m@)).push(
                            msg_model(msgs@.last()@),
                        ));
                        assert(sch_model.fields[j as int].values.dom().contains(
                            field.values@.last().0,
                        ));
                    }
                } else {
                    proof {
                        assert(table_as_map(field.values@) =~= Map::<
                            ValueView,
                            Seq<char>,
                        >::empty());
                        assert(forall|k: ValueView|
                            !(#[trigger] sch_model.fields[j as int].values.dom().contains(k)));
                    }
                }
                proof {
                    assert(sch_model.fields.take(j + 1).drop_last() =~= sch_model.fields.take(
                        j as int,
                    ));
                    assert(sch_model.fields.take(j + 1).last() == sch_model.fields[j as int]);
                    assert(msgs@.map_values(|m: ipc::IpcMessage| msg_model(m@)) =~= spec_start_ipc(
                        self.model(),
                    ) + spec_schemas_ipc(self.model().schemas.take(i as int)) + seq![
                        spec_schema_msg(sch_model),
                    ] + spec_fields_ipc(sch_model.name, sch_model.fields.take(j + 1)));
                }
                j = j + 1;
            }
            proof {
                assert(sch_model.fields.take(fn_count as int) =~= sch_model.fields);
                assert(self.model().schemas.take(i + 1).drop_last() =~= self.model().schemas.take(
                    i as int,
                ));
                assert(self.model().schemas.take(i + 1).last() == sch_model);
                assert(msgs@.map_values(|m: ipc::IpcMessage| msg_model(m@)) =~= spec_start_ipc(
                    self.model(),
                ) + spec_schemas_ipc(self.model().schemas.take(i + 1)));
            }
            i = i + 1;
        }
        proof {
            assert(self.model().schemas.take(n as int) =~= self.model().schemas);
        }
        match self.end_time {
            Some(t) => {
                msgs.push(
                    ipc::IpcMessage::TraceSegmentEnd(ipc::TraceSegmentEnd { time_ns: t }),
                );
            }
            None => {}
        }
        proof {
            assert(msgs@.map_values(|m: ipc::IpcMessage| msg_model(m@)) =~= target);
        }
        msgs
    }

    /// Returns the segment that results from merging one message, leaving
    /// this one unchanged.
    pub fn update(&self, msg: &ipc::IpcMessage) -> (r: Self)
        requires
            self.wf(),
        ensures
            r.wf(),
            r.model() == seg_update(self.model(), msg_model(msg@)),
    {
        let mut new = self.clone();
        new.update_mut(msg);
        new
    }
}

impl Clone for TraceSegment {
    /// A clone preserves the mathematical value.
    fn clone(&self) -> (r: Self)
        ensures
            r.model() == self.model(),
            r.wf() == self.wf(),
    {
        let mut schemas: Vec<TraceEventSchema> = Vec::new();
        let n: usize = self.schemas.len();
        let mut i: usize = 0;
        while i < n
            invariant
                0 <= i <= n,
                n == self.schemas@.len(),
                schemas@.len() == i,
                forall|j: int|
                    0 <= j < i ==> (#[trigger] schemas@[j]).model() == self.schemas@[j].model(),
                forall|j: int|
                    0 <= j < i ==> (#[trigger] schemas@[j]).wf() == self.schemas@[j].wf(),
            decreases n - i,
        {
            schemas.push(self.schemas[i].clone());
            i = i + 1;
        }
        let r = TraceSegment {
            id: self.id,
            source: self.source.clone(),
            start_time: self.start_time,
            end_time: self.end_time,
            schemas,
        };
        proof {
            assert(r.model().schemas =~= self.model().schemas);
            if r.wf() {
                assert forall|j: int|
                    0 <= j < self.schemas@.len() implies (#[trigger] self.schemas@[j]).wf() by {
                    assert(r.schemas@[j].wf());
                }
            }
            if self.wf() {
                assert forall|j: int|
                    0 <= j < r.schemas@.len() implies (#[trigger] r.schemas@[j]).wf() by {
                    assert(self.schemas@[j].wf());
                }
            }
        }
        r
    }
}

} // verus!
