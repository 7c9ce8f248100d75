//! The laws of the metadata merge, proved over the segment model: data
//! events change nothing, merging any message twice equals merging it
//! once, the earliest start and the latest end win over any replay, the
//! last start message names the source, schema declarations are
//! first-wins per event name, and rebuilding an index from its own
//! replay stream preserves every segment's identity, lifetime and
//! declarations.

use vstd::prelude::*;

use crate::ipc;
use crate::metadata::{spec_meta_absorb, spec_meta_update};
use crate::segment::{
    seg_update, spec_field_index, spec_first_field_index, spec_first_schema_index,
    spec_schema_index, spec_merge_start, spec_schema_from_ipc, IpcMessageModel, SchemaModel,
    SegmentModel,
};
use crate::value::ValueView;

verus! {

/// Replaying a message sequence into a segment, oldest first.
pub open spec fn seg_replay(s0: SegmentModel, msgs: Seq<IpcMessageModel>) -> SegmentModel
    decreases msgs.len(),
{
    if msgs.len() == 0 {
        s0
    } else {
        seg_update(seg_replay(s0, msgs.drop_last()), msgs.last())
    }
}

/// Applying a data event to a segment changes nothing.
pub proof fn lemma_trace_event_is_noop(s: SegmentModel, e: ipc::EventView)
    ensures
        seg_update(s, IpcMessageModel::Event(e)) == s,
{
}

/// Applying a data event to the index changes nothing.
pub proof fn lemma_meta_event_is_noop(m: Map<u128, SegmentModel>, msg: ipc::MessageView)
    requires
        msg.msg is TraceEvent,
    ensures
        spec_meta_update(m, msg) == m,
{
}

/// Names equal position by position means the first-index walks agree.
proof fn lemma_schema_walk_names_eq(a: Seq<SchemaModel>, b: Seq<SchemaModel>, name: Seq<char>, from: int)
    requires
        a.len() == b.len(),
        forall|i: int| 0 <= i < a.len() ==> a[i].name == b[i].name,
        0 <= from <= a.len(),
    ensures
        spec_first_schema_index(a, name, from) == spec_first_schema_index(b, name, from),
    decreases a.len() - from,
{
    if from < a.len() && a[from].name != name {
        lemma_schema_walk_names_eq(a, b, name, from + 1);
    }
}

/// Names equal position by position means the indices agree.
proof fn lemma_schema_index_names_eq(a: Seq<SchemaModel>, b: Seq<SchemaModel>, name: Seq<char>)
    requires
        a.len() == b.len(),
        forall|i: int| 0 <= i < a.len() ==> a[i].name == b[i].name,
    ensures
        spec_schema_index(a, name) == spec_schema_index(b, name),
{
    lemma_schema_walk_names_eq(a, b, name, 0);
    if exists|i: int| 0 <= i < a.len() && a[i].name == name {
        let i = choose|i: int| 0 <= i < a.len() && a[i].name == name;
        assert(b[i].name == name);
    } else if exists|i: int| 0 <= i < b.len() && b[i].name == name {
        let i = choose|i: int| 0 <= i < b.len() && b[i].name == name;
        assert(a[i].name == name);
    }
}

/// The first-index walk over a pushed sequence: an already-present name
/// keeps its index, the pushed name takes the new slot, and any other
/// name stays absent.
proof fn lemma_schema_index_push(s: Seq<SchemaModel>, x: SchemaModel, name: Seq<char>, from: int)
    requires
        0 <= from,
    ensures
        spec_schema_index(s, name) matches Some(i) ==> spec_schema_index(s.push(x), name) == Some(
            i,
        ),
        spec_schema_index(s, name) is None && x.name == name ==> spec_schema_index(s.push(x), name)
            == Some(s.len() as int),
        spec_schema_index(s, name) is None && x.name != name ==> spec_schema_index(
            s.push(x),
            name,
        ) is None,
{
    let t = s.push(x);
    if exists|i: int| 0 <= i < s.len() && s[i].name == name {
        let w = choose|i: int| 0 <= i < s.len() && s[i].name == name;
        assert(t[w].name == name);
        assert(exists|i: int| 0 <= i < s.len() && s[i].name == name);
        lemma_first_index_prefix(s, t, name, 0);
    } else {
        if x.name == name {
            assert(t[s.len() as int].name == name);
            lemma_first_index_stops_late(s, t, name, 0);
        } else {
            assert forall|i: int| 0 <= i < t.len() implies t[i].name != name by {
                if i < s.len() {
                    assert(s[i].name != name);
                }
            }
        }
    }
}

/// While a match still lies at or after `from` in the shorter sequence,
/// the walks over it and over an extension of it agree.
proof fn lemma_first_index_prefix(s: Seq<SchemaModel>, t: Seq<SchemaModel>, name: Seq<char>, from: int)
    requires
        s.len() <= t.len(),
        forall|i: int| 0 <= i < s.len() ==> s[i].name == t[i].name,
        exists|i: int| from <= i < s.len() && s[i].name == name,
        0 <= from,
    ensures
        spec_first_schema_index(s, name, from) == spec_first_schema_index(t, name, from),
    decreases s.len() - from,
{
    let w = choose|i: int| from <= i < s.len() && s[i].name == name;
    if s[from].name != name {
        assert(w != from);
        lemma_first_index_prefix(s, t, name, from + 1);
    }
}

/// When the match sits exactly at the pushed slot, the walk over the
/// pushed sequence stops there.
proof fn lemma_first_index_stops_late(s: Seq<SchemaModel>, t: Seq<SchemaModel>, name: Seq<char>, from: int)
    requires
        t.len() == s.len() + 1,
        forall|i: int| 0 <= i < s.len() ==> s[i].name == t[i].name,
        forall|i: int| 0 <= i < s.len() ==> s[i].name != name,
        t[s.len() as int].name == name,
        0 <= from <= s.len(),
    ensures
        spec_first_schema_index(t, name, from) == s.len(),
    decreases s.len() - from,
{
    if from < s.len() {
        lemma_first_index_stops_late(s, t, name, from + 1);
    }
}

/// Merging the same message twice into a segment equals merging it once.
pub proof fn lemma_seg_update_idempotent(s: SegmentModel, m: IpcMessageModel)
    ensures
        seg_update(seg_update(s, m), m) == seg_update(s, m),
{
    let s1 = seg_update(s, m);
    match m {
        IpcMessageModel::Start { time_ns, source_name } => {
            assert(spec_merge_start(spec_merge_start(s.start_time, time_ns), time_ns)
                == spec_merge_start(s.start_time, time_ns));
        }
        IpcMessageModel::End { .. } => {}
        IpcMessageModel::Schema(sc) => {
            match spec_schema_index(s.schemas, sc.name) {
                Some(_) => {}
                None => {
                    lemma_schema_index_push(s.schemas, spec_schema_from_ipc(sc), sc.name, 0);
                    assert(spec_schema_index(s1.schemas, sc.name) is Some);
                }
            }
        }
        IpcMessageModel::NamedValues { event_name, field_name, values } => {
            match spec_schema_index(s.schemas, event_name) {
                None => {}
                Some(i) => {
                    match spec_field_index(s.schemas[i].fields, field_name) {
                        None => {}
                        Some(j) => {
                            crate::segment::lemma_schema_index_valid(s.schemas, event_name);
                            crate::segment::lemma_field_index_valid(s.schemas[i].fields, field_name);
                            let f0 = s.schemas[i].fields[j];
                            let f1 = crate::segment::FieldModel {
                                metadata: f0.metadata,
                                values: f0.values.union_prefer_right(values),
                            };
                            let sch1 = SchemaModel {
                                name: s.schemas[i].name,
                                fields: s.schemas[i].fields.update(j, f1),
                            };
                            assert(s1.schemas == s.schemas.update(i, sch1));
                            assert(s1.schemas[i] == sch1);
                            assert forall|k: int|
                                0 <= k < s.schemas.len() implies s.schemas[k].name
                                == s1.schemas[k].name by {}
                            lemma_schema_index_names_eq(s.schemas, s1.schemas, event_name);
                            assert(spec_schema_index(s1.schemas, event_name) == Some(i));
                            assert forall|k: int|
                                0 <= k < s.schemas[i].fields.len() implies s.schemas[
                                i
                            ].fields[k].metadata.name == s1.schemas[i].fields[k].metadata.name by {}
                            lemma_field_index_metadata_eq(
                                s.schemas[i].fields,
                                s1.schemas[i].fields,
                                field_name,
                            );
                            assert(spec_field_index(s1.schemas[i].fields, field_name) == Some(j));
                            let f2 = crate::segment::FieldModel {
                                metadata: s1.schemas[i].fields[j].metadata,
                                values: s1.schemas[i].fields[j].values.union_prefer_right(values),
                            };
                            assert(f2.values =~= f1.values);
                            assert(f2 == f1);
                            let s2 = seg_update(s1, m);
                            assert(s2.schemas == s1.schemas.update(
                                i,
                                SchemaModel {
                                    name: s1.schemas[i].name,
                                    fields: s1.schemas[i].fields.update(j, f2),
                                },
                            ));
                            assert(s1.schemas[i].fields.update(j, f2) =~= s1.schemas[i].fields);
                            assert(s2.schemas =~= s1.schemas);
                        }
                    }
                }
            }
        }
        IpcMessageModel::Event(_) => {}
    }
}

/// Field names equal position by position means the first-index walks
/// agree.
proof fn lemma_field_walk_metadata_eq(
    a: Seq<crate::segment::FieldModel>,
    b: Seq<crate::segment::FieldModel>,
    name: Seq<char>,
    from: int,
)
    requires
        a.len() == b.len(),
        forall|i: int| 0 <= i < a.len() ==> a[i].metadata.name == b[i].metadata.name,
        0 <= from <= a.len(),
    ensures
        spec_first_field_index(a, name, from) == spec_first_field_index(b, name, from),
    decreases a.len() - from,
{
    if from < a.len() && a[from].metadata.name != name {
        lemma_field_walk_metadata_eq(a, b, name, from + 1);
    }
}

/// Field names equal position by position means the indices agree.
proof fn lemma_field_index_metadata_eq(
    a: Seq<crate::segment::FieldModel>,
    b: Seq<crate::segment::FieldModel>,
    name: Seq<char>,
)
    requires
        a.len() == b.len(),
        forall|i: int| 0 <= i < a.len() ==> a[i].metadata.name == b[i].metadata.name,
    ensures
        spec_field_index(a, name) == spec_field_index(b, name),
{
    lemma_field_walk_metadata_eq(a, b, name, 0);
    if exists|i: int| 0 <= i < a.len() && a[i].metadata.name == name {
        let i = choose|i: int| 0 <= i < a.len() && a[i].metadata.name == name;
        assert(b[i].metadata.name == name);
    } else if exists|i: int| 0 <= i < b.len() && b[i].metadata.name == name {
        let i = choose|i: int| 0 <= i < b.len() && b[i].metadata.name == name;
        assert(a[i].metadata.name == name);
    }
}

/// Merging the same message twice into the index equals merging it once.
pub proof fn lemma_meta_update_idempotent(m: Map<u128, SegmentModel>, msg: ipc::MessageView)
    ensures
        spec_meta_update(spec_meta_update(m, msg), msg) =~= spec_meta_update(m, msg),
{
    if !(msg.msg is TraceEvent) {
        let m1 = spec_meta_absorb(m, msg);
        assert(m1.dom().contains(msg.segment_id));
        let seg0 = if m.dom().contains(msg.segment_id) {
            m[msg.segment_id]
        } else {
            crate::metadata::spec_seed_segment(msg)
        };
        lemma_seg_update_idempotent(seg0, crate::segment::msg_model(msg.msg));
    }
}

/// The start time a message contributes, if it is a start announcement.
pub open spec fn spec_start_of(m: IpcMessageModel) -> Option<i64> {
    match m {
        IpcMessageModel::Start { time_ns, .. } => Some(time_ns),
        _ => None,
    }
}

/// The end time a message contributes, if it is an end announcement.
pub open spec fn spec_end_of(m: IpcMessageModel) -> Option<i64> {
    match m {
        IpcMessageModel::End { time_ns } => Some(time_ns),
        _ => None,
    }
}

/// The source name a message contributes, if it is a start announcement.
pub open spec fn spec_source_of(m: IpcMessageModel) -> Option<Seq<char>> {
    match m {
        IpcMessageModel::Start { source_name, .. } => Some(source_name),
        _ => None,
    }
}

/// The start time after folding every start announcement of `msgs` into
/// `cur`, earliest wins.
pub open spec fn spec_fold_start(cur: Option<i64>, msgs: Seq<IpcMessageModel>) -> Option<i64>
    decreases msgs.len(),
{
    if msgs.len() == 0 {
        cur
    } else {
        match spec_start_of(msgs.last()) {
            Some(t) => spec_merge_start(spec_fold_start(cur, msgs.drop_last()), t),
            None => spec_fold_start(cur, msgs.drop_last()),
        }
    }
}

/// The end time after folding every end announcement of `msgs` into
/// `cur`, the latest seen wins.
pub open spec fn spec_fold_end(cur: Option<i64>, msgs: Seq<IpcMessageModel>) -> Option<i64>
    decreases msgs.len(),
{
    if msgs.len() == 0 {
        cur
    } else {
        match spec_end_of(msgs.last()) {
            Some(t) => Some(t),
            None => spec_fold_end(cur, msgs.drop_last()),
        }
    }
}

/// The source name after folding every start announcement of `msgs` into
/// `cur`, the latest seen wins.
pub open spec fn spec_fold_source(cur: Seq<char>, msgs: Seq<IpcMessageModel>) -> Seq<char>
    decreases msgs.len(),
{
    if msgs.len() == 0 {
        cur
    } else {
        match spec_source_of(msgs.last()) {
            Some(s) => s,
            None => spec_fold_source(cur, msgs.drop_last()),
        }
    }
}

/// Replaying any message sequence folds the lifetime fields exactly: the
/// start time is the fold of the start announcements, the end time the
/// fold of the end announcements, and the source name the last start's.
pub proof fn lemma_replay_lifetime(s0: SegmentModel, msgs: Seq<IpcMessageModel>)
    ensures
        seg_replay(s0, msgs).start_time == spec_fold_start(s0.start_time, msgs),
        seg_replay(s0, msgs).end_time == spec_fold_end(s0.end_time, msgs),
        seg_replay(s0, msgs).source == spec_fold_source(s0.source, msgs),
        seg_replay(s0, msgs).id == s0.id,
    decreases msgs.len(),
{
    if msgs.len() > 0 {
        lemma_replay_lifetime(s0, msgs.drop_last());
    }
}

/// The folded start time is the earliest start announced: it bounds every
/// announcement and the starting value, and is one of them.
pub proof fn lemma_fold_start_earliest(cur: Option<i64>, msgs: Seq<IpcMessageModel>)
    ensures
        match spec_fold_start(cur, msgs) {
            None => cur is None && forall|i: int|
                0 <= i < msgs.len() ==> spec_start_of(#[trigger] msgs[i]) is None,
            Some(t) => {
                &&& (cur matches Some(c) ==> t <= c)
                &&& forall|i: int|
                    0 <= i < msgs.len() ==> match spec_start_of(#[trigger] msgs[i]) {
                        Some(u) => t <= u,
                        None => true,
                    }
                &&& (cur == Some(t) || exists|i: int|
                    0 <= i < msgs.len() && spec_start_of(#[trigger] msgs[i]) == Some(t))
            },
        },
    decreases msgs.len(),
{
    if msgs.len() > 0 {
        let d = msgs.drop_last();
        lemma_fold_start_earliest(cur, d);
        assert(forall|i: int| 0 <= i < d.len() ==> #[trigger] msgs[i] == d[i]);
        match spec_fold_start(cur, msgs) {
            None => {}
            Some(t) => {
                match spec_start_of(msgs.last()) {
                    Some(u) => {
                        match spec_fold_start(cur, d) {
                            None => {
                                assert(spec_start_of(msgs[msgs.len() - 1]) == Some(t));
                            }
                            Some(p) => {
                                if t == p {
                                    if cur != Some(t) {
                                        let w = choose|i: int|
                                            0 <= i < d.len() && spec_start_of(#[trigger] d[i])
                                                == Some(t);
                                        assert(spec_start_of(msgs[w]) == Some(t));
                                    }
                                } else {
                                    assert(spec_start_of(msgs[msgs.len() - 1]) == Some(t));
                                }
                            }
                        }
                    }
                    None => {
                        if cur != Some(t) {
                            let w = choose|i: int|
                                0 <= i < d.len() && spec_start_of(#[trigger] d[i]) == Some(t);
                            assert(spec_start_of(msgs[w]) == Some(t));
                        }
                    }
                }
            }
        }
    }
}

/// The folded end time is the latest end announced: the last end-bearing
/// message decides, and without any the starting value stands.
pub proof fn lemma_fold_end_latest(cur: Option<i64>, msgs: Seq<IpcMessageModel>)
    ensures
        match spec_fold_end(cur, msgs) {
            None => cur is None && forall|i: int|
                0 <= i < msgs.len() ==> spec_end_of(#[trigger] msgs[i]) is None,
            Some(t) => (exists|i: int|
                {
                    &&& 0 <= i < msgs.len()
                    &&& spec_end_of(#[trigger] msgs[i]) == Some(t)
                    &&& forall|j: int| i < j < msgs.len() ==> spec_end_of(#[trigger] msgs[j]) is None
                }) || (cur == Some(t) && forall|i: int|
                0 <= i < msgs.len() ==> spec_end_of(#[trigger] msgs[i]) is None),
        },
    decreases msgs.len(),
{
    if msgs.len() > 0 {
        let d = msgs.drop_last();
        lemma_fold_end_latest(cur, d);
        assert(forall|i: int| 0 <= i < d.len() ==> #[trigger] msgs[i] == d[i]);
        match spec_fold_end(cur, msgs) {
            None => {}
            Some(t) => {
                match spec_end_of(msgs.last()) {
                    Some(u) => {
                        assert(spec_end_of(msgs[msgs.len() - 1]) == Some(t));
                        assert(forall|j: int|
                            msgs.len() - 1 < j < msgs.len() ==> spec_end_of(
                                #[trigger] msgs[j],
                            ) is None);
                    }
                    None => {
                        if cur == Some(t) && (forall|i: int|
                            0 <= i < d.len() ==> spec_end_of(#[trigger] d[i]) is None) {
                        } else {
                            let w = choose|i: int|
                                {
                                    &&& 0 <= i < d.len()
                                    &&& spec_end_of(#[trigger] d[i]) == Some(t)
                                    &&& forall|j: int|
                                        i < j < d.len() ==> spec_end_of(#[trigger] d[j]) is None
                                };
                            assert(spec_end_of(msgs[w]) == Some(t));
                            assert(forall|j: int|
                                w < j < msgs.len() ==> spec_end_of(#[trigger] msgs[j]) is None);
                        }
                    }
                }
            }
        }
    }
}

/// The folded source name is the one the latest start announcement
/// carries: the last start-bearing message decides, and without any the
/// starting value stands.
pub proof fn lemma_fold_source_latest(cur: Seq<char>, msgs: Seq<IpcMessageModel>)
    ensures
        ({
            let src = spec_fold_source(cur, msgs);
            (exists|i: int|
                {
                    &&& 0 <= i < msgs.len()
                    &&& spec_source_of(#[trigger] msgs[i]) == Some(src)
                    &&& forall|j: int|
                        i < j < msgs.len() ==> spec_source_of(#[trigger] msgs[j]) is None
                }) || (src == cur && forall|i: int|
                0 <= i < msgs.len() ==> spec_source_of(#[trigger] msgs[i]) is None)
        }),
    decreases msgs.len(),
{
    if msgs.len() > 0 {
        let d = msgs.drop_last();
        lemma_fold_source_latest(cur, d);
        assert(forall|i: int| 0 <= i < d.len() ==> #[trigger] msgs[i] == d[i]);
        let src = spec_fold_source(cur, msgs);
        match spec_source_of(msgs.last()) {
            Some(_) => {
                assert(spec_source_of(msgs[msgs.len() - 1]) == Some(src));
            }
            None => {
                let prev = spec_fold_source(cur, d);
                if prev == cur && (forall|i: int|
                    0 <= i < d.len() ==> spec_source_of(#[trigger] d[i]) is None) {
                } else {
                    let w = choose|i: int|
                        {
                            &&& 0 <= i < d.len()
                            &&& spec_source_of(#[trigger] d[i]) == Some(prev)
                            &&& forall|j: int|
                                i < j < d.len() ==> spec_source_of(#[trigger] d[j]) is None
                        };
                    assert(spec_source_of(msgs[w]) == Some(src));
                    assert(forall|j: int|
                        w < j < msgs.len() ==> spec_source_of(#[trigger] msgs[j]) is None);
                }
            }
        }
    }
}

/// The declared shape of the schema a segment holds under `name`, if any:
/// its field metadata, without the accumulated value labels.
pub open spec fn spec_schema_decl_at(s: SegmentModel, name: Seq<char>) -> Option<
    ipc::EventSchemaView,
> {
    match spec_schema_index(s.schemas, name) {
        Some(i) => Some(
            ipc::EventSchemaView {
                name: s.schemas[i].name,
                fields: s.schemas[i].fields.map_values(
                    |f: crate::segment::FieldModel| f.metadata,
                ),
            },
        ),
        None => None,
    }
}

/// One merge step changes a name's declared schema only when it is the
/// first declaration of that name: an already-declared name keeps its
/// shape, value labels change no metadata, and lifetime messages change
/// no schemas.
pub proof fn lemma_schema_decl_step(s: SegmentModel, m: IpcMessageModel, name: Seq<char>)
    ensures
        spec_schema_decl_at(seg_update(s, m), name) == match m {
            IpcMessageModel::Schema(sc) => if sc.name == name && spec_schema_decl_at(
                s,
                name,
            ) is None {
                Some(sc)
            } else {
                spec_schema_decl_at(s, name)
            },
            _ => spec_schema_decl_at(s, name),
        },
{
    let s1 = seg_update(s, m);
    match m {
        IpcMessageModel::Schema(sc) => {
            match spec_schema_index(s.schemas, sc.name) {
                Some(_) => {}
                None => {
                    lemma_schema_index_push(s.schemas, spec_schema_from_ipc(sc), name, 0);
                    if sc.name == name {
                        assert(spec_schema_index(s.schemas, name) is None);
                        assert(spec_schema_index(s1.schemas, name) == Some(s.schemas.len() as int));
                        assert(s1.schemas[s.schemas.len() as int] == spec_schema_from_ipc(sc));
                        assert(spec_schema_from_ipc(sc).fields.map_values(
                            |f: crate::segment::FieldModel| f.metadata,
                        ) =~= sc.fields);
                    } else {
                        match spec_schema_index(s.schemas, name) {
                            Some(i) => {
                                crate::segment::lemma_schema_index_valid(s.schemas, name);
                                assert(spec_schema_index(s1.schemas, name) == Some(i));
                                assert(s1.schemas[i] == s.schemas[i]);
                            }
                            None => {
                                assert(spec_schema_index(s1.schemas, name) is None);
                            }
                        }
                    }
                }
            }
        }
        IpcMessageModel::NamedValues { event_name, field_name, values } => {
            match spec_schema_index(s.schemas, event_name) {
                None => {}
                Some(i) => {
                    match spec_field_index(s.schemas[i].fields, field_name) {
                        None => {}
                        Some(j) => {
                            crate::segment::lemma_schema_index_valid(s.schemas, event_name);
                            crate::segment::lemma_field_index_valid(s.schemas[i].fields, field_name);
                            let f0 = s.schemas[i].fields[j];
                            let f1 = crate::segment::FieldModel {
                                metadata: f0.metadata,
                                values: f0.values.union_prefer_right(values),
                            };
                            let sch1 = SchemaModel {
                                name: s.schemas[i].name,
                                fields: s.schemas[i].fields.update(j, f1),
                            };
                            assert(s1.schemas == s.schemas.update(i, sch1));
                            assert forall|k: int|
                                0 <= k < s.schemas.len() implies s.schemas[k].name
                                == s1.schemas[k].name by {}
                            lemma_schema_index_names_eq(s.schemas, s1.schemas, name);
                            match spec_schema_index(s.schemas, name) {
                                Some(k) => {
                                    crate::segment::lemma_schema_index_valid(s.schemas, name);
                                    assert(s1.schemas[k].name == s.schemas[k].name);
                                    assert(s1.schemas[k].fields.map_values(
                                        |f: crate::segment::FieldModel| f.metadata,
                                    ) =~= s.schemas[k].fields.map_values(
                                        |f: crate::segment::FieldModel| f.metadata,
                                    ));
                                }
                                None => {}
                            }
                        }
                    }
                }
            }
        }
        _ => {}
    }
}

/// The first declaration of `name` in a message sequence, if any.
pub open spec fn spec_first_schema_msg(msgs: Seq<IpcMessageModel>, name: Seq<char>) -> Option<
    ipc::EventSchemaView,
>
    decreases msgs.len(),
{
    if msgs.len() == 0 {
        None
    } else {
        match spec_first_schema_msg(msgs.drop_last(), name) {
            Some(sc) => Some(sc),
            None => match msgs.last() {
                IpcMessageModel::Schema(sc) => if sc.name == name {
                    Some(sc)
                } else {
                    None
                },
                _ => None,
            },
        }
    }
}

/// Schema declarations are first-wins per event name: replaying any
/// message sequence into a segment that does not yet declare `name`
/// leaves exactly the sequence's first declaration of `name`, or none.
pub proof fn lemma_replay_schema_first_wins(
    s0: SegmentModel,
    msgs: Seq<IpcMessageModel>,
    name: Seq<char>,
)
    requires
        spec_schema_decl_at(s0, name) is None,
    ensures
        spec_schema_decl_at(seg_replay(s0, msgs), name) == spec_first_schema_msg(msgs, name),
    decreases msgs.len(),
{
    if msgs.len() > 0 {
        let d = msgs.drop_last();
        lemma_replay_schema_first_wins(s0, d, name);
        lemma_schema_decl_step(seg_replay(s0, d), msgs.last(), name);
    }
}

/// A field's value labels accumulate with the newest label winning per
/// key: after one named-values merge, every key of the message carries
/// the message's label, and every other key keeps its old label.
pub proof fn lemma_named_values_last_write_wins(
    s: SegmentModel,
    event_name: Seq<char>,
    field_name: Seq<char>,
    values: Map<ValueView, Seq<char>>,
    i: int,
    j: int,
)
    requires
        spec_schema_index(s.schemas, event_name) == Some(i),
        spec_field_index(s.schemas[i].fields, field_name) == Some(j),
    ensures
        ({
            let s1 = seg_update(
                s,
                IpcMessageModel::NamedValues { event_name, field_name, values },
            );
            &&& forall|k: ValueView|
                values.dom().contains(k) ==> s1.schemas[i].fields[j].values.dom().contains(k)
                    && s1.schemas[i].fields[j].values[k] == values[k]
            &&& forall|k: ValueView|
                !values.dom().contains(k) ==> (s1.schemas[i].fields[j].values.dom().contains(k)
                    <==> s.schemas[i].fields[j].values.dom().contains(k))
                    && (s.schemas[i].fields[j].values.dom().contains(k)
                    ==> s1.schemas[i].fields[j].values[k] == s.schemas[i].fields[j].values[k])
            &&& s1.schemas[i].fields[j].metadata == s.schemas[i].fields[j].metadata
        }),
{
    let m = IpcMessageModel::NamedValues { event_name, field_name, values };
    let s1 = seg_update(s, m);
    crate::segment::lemma_schema_index_valid(s.schemas, event_name);
    crate::segment::lemma_field_index_valid(s.schemas[i].fields, field_name);
    let f0 = s.schemas[i].fields[j];
    let f1 = crate::segment::FieldModel {
        metadata: f0.metadata,
        values: f0.values.union_prefer_right(values),
    };
    let sch1 = SchemaModel { name: s.schemas[i].name, fields: s.schemas[i].fields.update(j, f1) };
    assert(s1.schemas == s.schemas.update(i, sch1));
    assert(s1.schemas[i] == sch1);
    assert(s1.schemas[i].fields[j] == f1);
}

/// Whether no message of the sequence is a start announcement.
pub open spec fn spec_no_starts(s: Seq<IpcMessageModel>) -> bool {
    forall|i: int| 0 <= i < s.len() ==> spec_start_of(#[trigger] s[i]) is None
}

/// Whether no message of the sequence is an end announcement.
pub open spec fn spec_no_ends(s: Seq<IpcMessageModel>) -> bool {
    forall|i: int| 0 <= i < s.len() ==> spec_end_of(#[trigger] s[i]) is None
}

/// Whether no message of the sequence is a schema declaration.
pub open spec fn spec_no_schemas(s: Seq<IpcMessageModel>) -> bool {
    forall|i: int| 0 <= i < s.len() ==> !((#[trigger] s[i]) is Schema)
}

/// Folding the start times distributes over concatenation.
proof fn lemma_fold_start_append(cur: Option<i64>, a: Seq<IpcMessageModel>, b: Seq<IpcMessageModel>)
    ensures
        spec_fold_start(cur, a + b) == spec_fold_start(spec_fold_start(cur, a), b),
    decreases b.len(),
{
    if b.len() == 0 {
        assert(a + b =~= a);
    } else {
        assert((a + b).drop_last() =~= a + b.drop_last());
        assert((a + b).last() == b.last());
        lemma_fold_start_append(cur, a, b.drop_last());
    }
}

/// Folding the end times distributes over concatenation.
proof fn lemma_fold_end_append(cur: Option<i64>, a: Seq<IpcMessageModel>, b: Seq<IpcMessageModel>)
    ensures
        spec_fold_end(cur, a + b) == spec_fold_end(spec_fold_end(cur, a), b),
    decreases b.len(),
{
    if b.len() == 0 {
        assert(a + b =~= a);
    } else {
        assert((a + b).drop_last() =~= a + b.drop_last());
        assert((a + b).last() == b.last());
        lemma_fold_end_append(cur, a, b.drop_last());
    }
}

/// Folding the source names distributes over concatenation.
proof fn lemma_fold_source_append(cur: Seq<char>, a: Seq<IpcMessageModel>, b: Seq<IpcMessageModel>)
    ensures
        spec_fold_source(cur, a + b) == spec_fold_source(spec_fold_source(cur, a), b),
    decreases b.len(),
{
    if b.len() == 0 {
        assert(a + b =~= a);
    } else {
        assert((a + b).drop_last() =~= a + b.drop_last());
        assert((a + b).last() == b.last());
        lemma_fold_source_append(cur, a, b.drop_last());
    }
}

/// Without start announcements the start and source folds change
/// nothing, and without end announcements the end fold changes nothing.
proof fn lemma_folds_skip(cur_s: Option<i64>, cur_e: Option<i64>, cur_src: Seq<char>, msgs: Seq<IpcMessageModel>)
    ensures
        spec_no_starts(msgs) ==> spec_fold_start(cur_s, msgs) == cur_s,
        spec_no_ends(msgs) ==> spec_fold_end(cur_e, msgs) == cur_e,
        spec_no_starts(msgs) ==> spec_fold_source(cur_src, msgs) == cur_src,
    decreases msgs.len(),
{
    if msgs.len() > 0 {
        let d = msgs.drop_last();
        assert(forall|i: int| 0 <= i < d.len() ==> #[trigger] d[i] == msgs[i]);
        lemma_folds_skip(cur_s, cur_e, cur_src, d);
        assert(spec_no_starts(msgs) ==> spec_start_of(msgs[msgs.len() - 1]) is None);
        assert(spec_no_ends(msgs) ==> spec_end_of(msgs[msgs.len() - 1]) is None);
    }
}

/// The first declaration in a concatenation is the first of the left
/// part, or else the first of the right part.
proof fn lemma_first_schema_msg_append(a: Seq<IpcMessageModel>, b: Seq<IpcMessageModel>, name: Seq<char>)
    ensures
        spec_first_schema_msg(a + b, name) == match spec_first_schema_msg(a, name) {
            Some(sc) => Some(sc),
            None => spec_first_schema_msg(b, name),
        },
    decreases b.len(),
{
    if b.len() == 0 {
        assert(a + b =~= a);
    } else {
        assert((a + b).drop_last() =~= a + b.drop_last());
        assert((a + b).last() == b.last());
        lemma_first_schema_msg_append(a, b.drop_last(), name);
    }
}

/// A sequence without declarations declares nothing.
proof fn lemma_first_schema_msg_none(s: Seq<IpcMessageModel>, name: Seq<char>)
    requires
        spec_no_schemas(s),
    ensures
        spec_first_schema_msg(s, name) is None,
    decreases s.len(),
{
    if s.len() > 0 {
        let d = s.drop_last();
        assert(forall|i: int| 0 <= i < d.len() ==> #[trigger] d[i] == s[i]);
        lemma_first_schema_msg_none(d, name);
        assert(!(s[s.len() - 1] is Schema));
    }
}

/// A field's serialization holds only named-values messages.
proof fn lemma_fields_ipc_kinds(event_name: Seq<char>, fields: Seq<crate::segment::FieldModel>)
    ensures
        spec_no_starts(crate::segment::spec_fields_ipc(event_name, fields)),
        spec_no_ends(crate::segment::spec_fields_ipc(event_name, fields)),
        spec_no_schemas(crate::segment::spec_fields_ipc(event_name, fields)),
    decreases fields.len(),
{
    if fields.len() > 0 {
        lemma_fields_ipc_kinds(event_name, fields.drop_last());
    }
}

/// The schemas' serialization holds only declarations and named-values
/// messages.
proof fn lemma_schemas_ipc_kinds(ss: Seq<SchemaModel>)
    ensures
        spec_no_starts(crate::segment::spec_schemas_ipc(ss)),
        spec_no_ends(crate::segment::spec_schemas_ipc(ss)),
    decreases ss.len(),
{
    if ss.len() > 0 {
        lemma_schemas_ipc_kinds(ss.drop_last());
        lemma_fields_ipc_kinds(ss.last().name, ss.last().fields);
    }
}

/// The first declaration of `name` in the schemas' serialization is the
/// first schema of that name, with its declared shape.
proof fn lemma_schemas_ipc_first_decl(ss: Seq<SchemaModel>, name: Seq<char>)
    ensures
        spec_first_schema_msg(crate::segment::spec_schemas_ipc(ss), name) == match spec_schema_index(
            ss,
            name,
        ) {
            Some(k) => Some(
                ipc::EventSchemaView {
                    name: ss[k].name,
                    fields: ss[k].fields.map_values(|f: crate::segment::FieldModel| f.metadata),
                },
            ),
            None => None,
        },
    decreases ss.len(),
{
    if ss.len() == 0 {
        match spec_schema_index(ss, name) {
            Some(k) => {
                crate::segment::lemma_schema_index_valid(ss, name);
            }
            None => {}
        }
    } else {
        let d = ss.drop_last();
        lemma_schemas_ipc_first_decl(d, name);
        let decl_msg = crate::segment::spec_schema_msg(ss.last());
        let head = crate::segment::spec_schemas_ipc(d);
        let mid = seq![decl_msg];
        let tail = crate::segment::spec_fields_ipc(ss.last().name, ss.last().fields);
        assert(crate::segment::spec_schemas_ipc(ss) =~= head + (mid + tail));
        lemma_first_schema_msg_append(head, mid + tail, name);
        lemma_first_schema_msg_append(mid, tail, name);
        assert(spec_first_schema_msg(mid, name) == if ss.last().name == name {
            Some(decl_msg->Schema_0)
        } else {
            None::<ipc::EventSchemaView>
        }) by {
            assert(mid.len() == 1);
            assert(mid.last() == decl_msg);
            assert(mid.drop_last() =~= Seq::<IpcMessageModel>::empty());
            assert(spec_first_schema_msg(mid.drop_last(), name) is None);
            assert(decl_msg is Schema);
            assert(decl_msg->Schema_0.name == ss.last().name);
        }
        lemma_fields_ipc_kinds(ss.last().name, ss.last().fields);
        lemma_first_schema_msg_none(tail, name);
        assert(ss =~= d.push(ss.last()));
        lemma_schema_index_push(d, ss.last(), name, 0);
        match spec_schema_index(d, name) {
            Some(k) => {
                crate::segment::lemma_schema_index_valid(d, name);
                assert(ss[k] == d[k]);
            }
            None => {
                if ss.last().name == name {
                    assert(spec_schema_index(ss, name) == Some(d.len() as int));
                    assert(ss[d.len() as int] == ss.last());
                }
            }
        }
    }
}

/// The models of a message sequence, one per message.
pub open spec fn spec_models_of(msgs: Seq<ipc::MessageView>) -> Seq<IpcMessageModel> {
    msgs.map_values(|m: ipc::MessageView| crate::segment::msg_model(m.msg))
}

/// Replaying a single-segment stream into an empty index keeps exactly
/// one entry: the seed of the first message with every message merged
/// in, oldest first.
proof fn lemma_meta_from_single(msgs: Seq<ipc::MessageView>, id: u128)
    requires
        msgs.len() > 0,
        forall|i: int| 0 <= i < msgs.len() ==> (#[trigger] msgs[i]).segment_id == id,
    ensures
        crate::metadata::spec_meta_from(msgs).dom() =~= Set::<u128>::empty().insert(id),
        crate::metadata::spec_meta_from(msgs)[id] == seg_replay(
            crate::metadata::spec_seed_segment(msgs[0]),
            spec_models_of(msgs),
        ),
    decreases msgs.len(),
{
    let models = spec_models_of(msgs);
    let seed = crate::metadata::spec_seed_segment(msgs[0]);
    if msgs.len() == 1 {
        assert(msgs.drop_last() =~= Seq::<ipc::MessageView>::empty());
        assert(crate::metadata::spec_meta_from(msgs.drop_last()) =~= Map::<
            u128,
            SegmentModel,
        >::empty());
        assert(msgs.last() == msgs[0]);
        assert(models.drop_last() =~= Seq::<IpcMessageModel>::empty());
        assert(models.last() == crate::segment::msg_model(msgs[0].msg));
        assert(seg_replay(seed, models) == seg_update(seed, models.last()));
        assert(crate::metadata::spec_meta_from(msgs) =~= Map::<u128, SegmentModel>::empty().insert(
            id,
            seg_update(seed, crate::segment::msg_model(msgs[0].msg)),
        ));
        assert(crate::metadata::spec_meta_from(msgs).dom() =~= Set::<u128>::empty().insert(id));
    } else {
        let d = msgs.drop_last();
        assert(forall|i: int| 0 <= i < d.len() ==> #[trigger] d[i] == msgs[i]);
        assert(d[0] == msgs[0]);
        lemma_meta_from_single(d, id);
        assert(spec_models_of(d) =~= models.drop_last());
        let prev = crate::metadata::spec_meta_from(d);
        assert(prev.dom().contains(id));
        let last = msgs.last();
        assert(last.segment_id == id);
        assert(models.last() == crate::segment::msg_model(last.msg));
        assert(seg_replay(seed, models) == seg_update(
            seg_replay(seed, models.drop_last()),
            models.last(),
        ));
        assert(prev[id] == seg_replay(seed, models.drop_last()));
        if last.msg is TraceEvent {
            assert(crate::segment::msg_model(last.msg) is Event);
            lemma_trace_event_is_noop(prev[id], crate::segment::msg_model(last.msg)->Event_0);
            assert(crate::metadata::spec_meta_from(msgs) == prev);
            assert(seg_replay(seed, models) == prev[id]);
            assert(crate::metadata::spec_meta_from(msgs).dom() =~= Set::<u128>::empty().insert(
                id,
            ));
        } else {
            assert(crate::metadata::spec_meta_from(msgs) =~= prev.insert(
                id,
                seg_update(prev[id], crate::segment::msg_model(last.msg)),
            ));
            assert(crate::metadata::spec_meta_from(msgs).dom() =~= Set::<u128>::empty().insert(
                id,
            ));
        }
    }
}

/// Rebuilding one segment from its replay stream preserves its identity,
/// its source, its lifetime, and every schema declaration.  (The value
/// labels are restored too, but that is stated only by the merge
/// contracts, not by this law.)
pub proof fn lemma_segment_rebuild(s: SegmentModel, msgs: Seq<ipc::MessageView>)
    requires
        msgs.map_values(|m: ipc::MessageView| crate::metadata::msg_with_id_model(m))
            == crate::metadata::spec_wrap_segment(s),
        crate::segment::spec_seg_ipc(s).len() > 0,
    ensures
        crate::metadata::spec_meta_from(msgs).dom() =~= Set::<u128>::empty().insert(s.id),
        ({
            let r = crate::metadata::spec_meta_from(msgs)[s.id];
            &&& r.id == s.id
            &&& r.source == s.source
            &&& r.start_time == s.start_time
            &&& r.end_time == s.end_time
            &&& forall|name: Seq<char>| spec_schema_decl_at(r, name) == spec_schema_decl_at(
                s,
                name,
            )
        }),
{
    assert(msgs.map_values(|m: ipc::MessageView| crate::metadata::msg_with_id_model(m)).len()
        == msgs.len());
    assert forall|i: int| 0 <= i < msgs.len() implies (#[trigger] msgs[i]).segment_id
        == s.id by {
        assert(msgs.map_values(|m: ipc::MessageView| crate::metadata::msg_with_id_model(m))[i]
            == crate::metadata::msg_with_id_model(msgs[i]));
        assert(crate::metadata::spec_wrap_segment(s)[i].segment_id == s.id);
    }
    lemma_meta_from_single(msgs, s.id);
    lemma_stream_rebuild(s, msgs);
}

/// The replay stream of one segment, merged into the seed its first
/// message opens, recovers the segment's identity, source, lifetime and
/// every schema declaration.
proof fn lemma_stream_rebuild(s: SegmentModel, msgs: Seq<ipc::MessageView>)
    requires
        msgs.map_values(|m: ipc::MessageView| crate::metadata::msg_with_id_model(m))
            == crate::metadata::spec_wrap_segment(s),
        crate::segment::spec_seg_ipc(s).len() > 0,
    ensures
        ({
            let r = seg_replay(crate::metadata::spec_seed_segment(msgs[0]), spec_models_of(msgs));
            &&& r.id == s.id
            &&& r.source == s.source
            &&& r.start_time == s.start_time
            &&& r.end_time == s.end_time
            &&& forall|name: Seq<char>| spec_schema_decl_at(r, name) == spec_schema_decl_at(
                s,
                name,
            )
        }),
{
    let stream = crate::segment::spec_seg_ipc(s);
    let wrapped = crate::metadata::spec_wrap_segment(s);
    assert(msgs.map_values(|m: ipc::MessageView| crate::metadata::msg_with_id_model(m)).len()
        == msgs.len());
    assert(wrapped.len() == stream.len());
    assert(msgs.len() == stream.len());
    assert forall|i: int| 0 <= i < msgs.len() implies (#[trigger] msgs[i]).segment_id == s.id
        && msgs[i].source_name == s.source && crate::segment::msg_model(msgs[i].msg)
        == stream[i] by {
        assert(msgs.map_values(|m: ipc::MessageView| crate::metadata::msg_with_id_model(m))[i]
            == crate::metadata::msg_with_id_model(msgs[i]));
        assert(wrapped[i] == (crate::metadata::MessageModel {
            segment_id: s.id,
            source_name: s.source,
            msg: stream[i],
        }));
    }
    assert(spec_models_of(msgs) =~= stream);
    let seed = crate::metadata::spec_seed_segment(msgs[0]);
    let r = seg_replay(seed, stream);

    // The seed carries the segment's identity and source, and its
    // lifetime from the first message.
    let start_part = crate::segment::spec_start_ipc(s);
    let schemas_part = crate::segment::spec_schemas_ipc(s.schemas);
    let end_part = crate::segment::spec_end_ipc(s);
    assert(stream == start_part + schemas_part + end_part);
    assert(seed.id == s.id);
    assert(stream[0] == crate::segment::msg_model(msgs[0].msg));
    assert(seed.source == s.source) by {
        match msgs[0].msg {
            ipc::IpcMessageView::TraceSegmentStart(st) => {
                assert(stream[0] == IpcMessageModel::Start {
                    time_ns: st.time_ns,
                    source_name: st.source_name,
                });
                assert(spec_source_of(stream[0]) == Some(st.source_name));
                match s.start_time {
                    Some(t0) => {
                        assert(stream[0] == IpcMessageModel::Start {
                            time_ns: t0,
                            source_name: s.source,
                        });
                    }
                    None => {
                        lemma_schemas_ipc_kinds(s.schemas);
                        assert(start_part =~= Seq::<IpcMessageModel>::empty());
                        assert(stream =~= schemas_part + end_part);
                        if 0 < schemas_part.len() {
                            assert(stream[0] == schemas_part[0]);
                            assert(spec_start_of(schemas_part[0]) is None);
                        } else {
                            assert(stream[0] == end_part[0]);
                            match s.end_time {
                                Some(t1) => {
                                    assert(end_part =~= seq![
                                        IpcMessageModel::End { time_ns: t1 },
                                    ]);
                                }
                                None => {
                                    assert(end_part =~= Seq::<IpcMessageModel>::empty());
                                }
                            }
                        }
                        assert(false);
                    }
                }
            }
            _ => {
                assert(msgs[0].source_name == s.source);
            }
        }
    }
    assert(seed.schemas =~= Seq::<SchemaModel>::empty());

    lemma_replay_lifetime(seed, stream);
    lemma_schemas_ipc_kinds(s.schemas);

    // Start time: the start part fixes it, nothing later moves it.
    lemma_fold_start_append(seed.start_time, start_part, schemas_part + end_part);
    lemma_fold_start_append(
        spec_fold_start(seed.start_time, start_part),
        schemas_part,
        end_part,
    );
    assert((start_part + (schemas_part + end_part)) =~= stream);
    match s.start_time {
        Some(t0) => {
            assert(start_part =~= seq![
                IpcMessageModel::Start { time_ns: t0, source_name: s.source },
            ]);
            assert(stream[0] == IpcMessageModel::Start { time_ns: t0, source_name: s.source });
            assert(seed.start_time == Some(t0)) by {
                match msgs[0].msg {
                    ipc::IpcMessageView::TraceSegmentStart(st) => {
                        assert(st.time_ns == t0);
                    }
                    _ => {
                        assert(crate::segment::msg_model(msgs[0].msg) == stream[0]);
                        assert(false);
                    }
                }
            }
            assert(start_part.drop_last() =~= Seq::<IpcMessageModel>::empty());
            assert(start_part.last() == IpcMessageModel::Start {
                time_ns: t0,
                source_name: s.source,
            });
            assert(spec_fold_start(seed.start_time, start_part.drop_last()) == Some(t0));
            assert(spec_start_of(start_part.last()) == Some(t0));
            assert(spec_merge_start(Some(t0), t0) == Some(t0));
            assert(spec_fold_start(seed.start_time, start_part) == Some(t0));
        }
        None => {
            assert(start_part =~= Seq::<IpcMessageModel>::empty());
            assert(seed.start_time is None) by {
                if msgs[0].msg is TraceSegmentStart {
                    assert(stream[0] == crate::segment::msg_model(msgs[0].msg));
                    assert(stream[0] is Start);
                    if stream.len() == schemas_part.len() + end_part.len() {
                        assert(stream[0] == (schemas_part + end_part)[0]);
                        lemma_schemas_ipc_kinds(s.schemas);
                        if 0 < schemas_part.len() {
                            assert(spec_start_of(schemas_part[0]) is None);
                        } else {
                            assert(end_part[0] is End);
                        }
                    }
                }
            }
            assert(spec_fold_start(seed.start_time, start_part) == None::<i64>);
        }
    }
    lemma_folds_skip(
        spec_fold_start(seed.start_time, start_part),
        Option::None,
        Seq::empty(),
        schemas_part,
    );
    match s.end_time {
        Some(t1) => {
            assert(end_part =~= seq![IpcMessageModel::End { time_ns: t1 }]);
            assert(end_part[0] == IpcMessageModel::End { time_ns: t1 });
            assert(spec_no_starts(end_part));
        }
        None => {
            assert(end_part =~= Seq::<IpcMessageModel>::empty());
            assert(spec_no_starts(end_part));
        }
    }
    lemma_folds_skip(
        spec_fold_start(spec_fold_start(seed.start_time, start_part), schemas_part),
        Option::None,
        Seq::empty(),
        end_part,
    );
    assert(r.start_time == s.start_time);

    // End time: nothing before the end part announces an end.
    lemma_fold_end_append(seed.end_time, start_part, schemas_part + end_part);
    lemma_fold_end_append(spec_fold_end(seed.end_time, start_part), schemas_part, end_part);
    assert(seed.end_time is None);
    assert(spec_no_ends(start_part)) by {
        match s.start_time {
            Some(t0) => {
                assert(start_part =~= seq![
                    IpcMessageModel::Start { time_ns: t0, source_name: s.source },
                ]);
            }
            None => {
                assert(start_part =~= Seq::<IpcMessageModel>::empty());
            }
        }
    }
    lemma_folds_skip(Option::None, seed.end_time, Seq::empty(), start_part);
    lemma_folds_skip(Option::None, spec_fold_end(seed.end_time, start_part), Seq::empty(), schemas_part);
    match s.end_time {
        Some(t1) => {
            assert(end_part.drop_last() =~= Seq::<IpcMessageModel>::empty());
            assert(spec_fold_end(Option::None, end_part) == Some(t1));
        }
        None => {
            assert(spec_fold_end(spec_fold_end(spec_fold_end(seed.end_time, start_part), schemas_part), end_part)
                == None::<i64>);
        }
    }
    assert(r.end_time == s.end_time);

    // Source: only the start part can rename it, and it names s.source.
    lemma_fold_source_append(seed.source, start_part, schemas_part + end_part);
    lemma_fold_source_append(spec_fold_source(seed.source, start_part), schemas_part, end_part);
    assert(spec_fold_source(seed.source, start_part) == s.source) by {
        match s.start_time {
            Some(t0) => {
                assert(start_part.drop_last() =~= Seq::<IpcMessageModel>::empty());
            }
            None => {
                assert(start_part =~= Seq::<IpcMessageModel>::empty());
            }
        }
    }
    lemma_folds_skip(Option::None, Option::None, s.source, schemas_part);
    lemma_folds_skip(Option::None, Option::None, s.source, end_part);
    assert(r.source == s.source);

    // Schema declarations: first-wins replay recovers each declared
    // shape.
    assert forall|name: Seq<char>| spec_schema_decl_at(r, name) == spec_schema_decl_at(
        s,
        name,
    ) by {
        assert(spec_schema_decl_at(seed, name) is None);
        lemma_replay_schema_first_wins(seed, stream, name);
        lemma_first_schema_msg_append(start_part, schemas_part + end_part, name);
        lemma_first_schema_msg_append(schemas_part, end_part, name);
        assert(spec_no_schemas(start_part)) by {
            match s.start_time {
                Some(t0) => {
                    assert(start_part =~= seq![
                        IpcMessageModel::Start { time_ns: t0, source_name: s.source },
                    ]);
                }
                None => {
                    assert(start_part =~= Seq::<IpcMessageModel>::empty());
                }
            }
        }
        assert(spec_no_schemas(end_part)) by {
            match s.end_time {
                Some(t1) => {
                    assert(end_part =~= seq![IpcMessageModel::End { time_ns: t1 }]);
                }
                None => {
                    assert(end_part =~= Seq::<IpcMessageModel>::empty());
                }
            }
        }
        lemma_first_schema_msg_none(start_part, name);
        lemma_first_schema_msg_none(end_part, name);
        lemma_schemas_ipc_first_decl(s.schemas, name);
        match spec_schema_index(s.schemas, name) {
            Some(k) => {
                crate::segment::lemma_schema_index_valid(s.schemas, name);
            }
            None => {}
        }
    }
}

/// Replaying a message sequence into an existing index, oldest first.
pub open spec fn spec_meta_replay(
    m0: Map<u128, SegmentModel>,
    msgs: Seq<ipc::MessageView>,
) -> Map<u128, SegmentModel>
    decreases msgs.len(),
{
    if msgs.len() == 0 {
        m0
    } else {
        spec_meta_absorb(spec_meta_replay(m0, msgs.drop_last()), msgs.last())
    }
}

/// Replaying from an empty index is exactly building the index.
proof fn lemma_meta_replay_from(msgs: Seq<ipc::MessageView>)
    ensures
        crate::metadata::spec_meta_from(msgs) == spec_meta_replay(
            Map::<u128, SegmentModel>::empty(),
            msgs,
        ),
    decreases msgs.len(),
{
    if msgs.len() > 0 {
        lemma_meta_replay_from(msgs.drop_last());
    }
}

/// Replaying distributes over concatenation.
proof fn lemma_meta_replay_append(
    m0: Map<u128, SegmentModel>,
    a: Seq<ipc::MessageView>,
    b: Seq<ipc::MessageView>,
)
    ensures
        spec_meta_replay(m0, a + b) == spec_meta_replay(spec_meta_replay(m0, a), b),
    decreases b.len(),
{
    if b.len() == 0 {
        assert(a + b =~= a);
    } else {
        assert((a + b).drop_last() =~= a + b.drop_last());
        assert((a + b).last() == b.last());
        lemma_meta_replay_append(m0, a, b.drop_last());
    }
}

/// Replaying one segment's stream into an index that does not know its id
/// adds exactly that id, seeded from the stream's first message, and
/// leaves every other entry alone.
proof fn lemma_meta_replay_single(
    m0: Map<u128, SegmentModel>,
    msgs: Seq<ipc::MessageView>,
    id: u128,
)
    requires
        msgs.len() > 0,
        forall|i: int| 0 <= i < msgs.len() ==> (#[trigger] msgs[i]).segment_id == id,
        !m0.dom().contains(id),
    ensures
        spec_meta_replay(m0, msgs) =~= m0.insert(
            id,
            seg_replay(crate::metadata::spec_seed_segment(msgs[0]), spec_models_of(msgs)),
        ),
    decreases msgs.len(),
{
    let models = spec_models_of(msgs);
    let seed = crate::metadata::spec_seed_segment(msgs[0]);
    if msgs.len() == 1 {
        assert(msgs.drop_last() =~= Seq::<ipc::MessageView>::empty());
        assert(spec_meta_replay(m0, msgs.drop_last()) == m0);
        assert(msgs.last() == msgs[0]);
        assert(models.drop_last() =~= Seq::<IpcMessageModel>::empty());
        assert(models.last() == crate::segment::msg_model(msgs[0].msg));
        assert(seg_replay(seed, models) == seg_update(seed, models.last()));
    } else {
        let d = msgs.drop_last();
        assert(forall|i: int| 0 <= i < d.len() ==> #[trigger] d[i] == msgs[i]);
        assert(d[0] == msgs[0]);
        lemma_meta_replay_single(m0, d, id);
        assert(spec_models_of(d) =~= models.drop_last());
        let prev = spec_meta_replay(m0, d);
        assert(prev.dom().contains(id));
        let last = msgs.last();
        assert(last.segment_id == id);
        assert(models.last() == crate::segment::msg_model(last.msg));
        assert(seg_replay(seed, models) == seg_update(
            seg_replay(seed, models.drop_last()),
            models.last(),
        ));
        assert(prev[id] == seg_replay(seed, models.drop_last()));
        if last.msg is TraceEvent {
            assert(crate::segment::msg_model(last.msg) is Event);
            lemma_trace_event_is_noop(prev[id], crate::segment::msg_model(last.msg)->Event_0);
            assert(spec_meta_replay(m0, msgs) == prev);
        } else {
            assert(spec_meta_replay(m0, msgs) =~= prev.insert(
                id,
                seg_update(prev[id], crate::segment::msg_model(last.msg)),
            ));
        }
    }
}

/// Rebuilding a whole index from its replay stream preserves every
/// segment: the rebuilt index knows exactly the serialized ids, and each
/// rebuilt segment keeps its identity, source, lifetime and every schema
/// declaration.  A segment whose stream is empty — nothing was ever
/// observed for it — is the one thing a replay cannot carry.
pub proof fn lemma_index_rebuild(ss: Seq<SegmentModel>, msgs: Seq<ipc::MessageView>)
    requires
        crate::metadata::segs_ids_unique(ss),
        forall|k: int|
            0 <= k < ss.len() ==> crate::segment::spec_seg_ipc(#[trigger] ss[k]).len() > 0,
        msgs.map_values(|m: ipc::MessageView| crate::metadata::msg_with_id_model(m))
            == crate::metadata::spec_meta_ipc(ss),
    ensures
        crate::metadata::spec_meta_from(msgs).dom() =~= Set::new(
            |id: u128| crate::metadata::segs_has_id(ss, id),
        ),
        forall|k: int|
            0 <= k < ss.len() ==> ({
                let r = crate::metadata::spec_meta_from(msgs)[(#[trigger] ss[k]).id];
                &&& r.id == ss[k].id
                &&& r.source == ss[k].source
                &&& r.start_time == ss[k].start_time
                &&& r.end_time == ss[k].end_time
                &&& forall|name: Seq<char>| spec_schema_decl_at(r, name) == spec_schema_decl_at(
                    ss[k],
                    name,
                )
            }),
    decreases ss.len(),
{
    lemma_meta_replay_from(msgs);
    if ss.len() == 0 {
        assert(crate::metadata::spec_meta_ipc(ss) =~= Seq::<crate::metadata::MessageModel>::empty());
        assert(msgs.map_values(|m: ipc::MessageView| crate::metadata::msg_with_id_model(m)).len()
            == msgs.len());
        assert(msgs.len() == 0);
        assert(crate::metadata::spec_meta_from(msgs).dom() =~= Set::new(
            |id: u128| crate::metadata::segs_has_id(ss, id),
        ));
    } else {
        let d = ss.drop_last();
        let last = ss.last();
        let full = crate::metadata::spec_meta_ipc(ss);
        let head = crate::metadata::spec_meta_ipc(d);
        let tail_w = crate::metadata::spec_wrap_segment(last);
        assert(full == head + tail_w);
        assert(msgs.map_values(|m: ipc::MessageView| crate::metadata::msg_with_id_model(m)).len()
            == msgs.len());
        assert(msgs.len() == head.len() + tail_w.len());
        let a = msgs.take(head.len() as int);
        let b = msgs.skip(head.len() as int);
        assert(msgs =~= a + b);
        assert forall|i: int| 0 <= i < msgs.len() implies #[trigger] crate::metadata::msg_with_id_model(
            msgs[i],
        ) == full[i] by {
            assert(msgs.map_values(|m: ipc::MessageView| crate::metadata::msg_with_id_model(m))[i]
                == crate::metadata::msg_with_id_model(msgs[i]));
        }
        assert(a.map_values(|m: ipc::MessageView| crate::metadata::msg_with_id_model(m))
            =~= head);
        assert(b.map_values(|m: ipc::MessageView| crate::metadata::msg_with_id_model(m))
            =~= tail_w);
        assert(crate::metadata::segs_ids_unique(d));
        assert(forall|k: int| 0 <= k < d.len() ==> #[trigger] d[k] == ss[k]);
        assert forall|k: int|
            0 <= k < d.len() implies crate::segment::spec_seg_ipc(#[trigger] d[k]).len() > 0 by {
            assert(d[k] == ss[k]);
        }
        lemma_index_rebuild(d, a);
        lemma_meta_replay_from(a);
        lemma_meta_replay_append(Map::<u128, SegmentModel>::empty(), a, b);
        let prev = crate::metadata::spec_meta_from(a);
        // The last segment's id is fresh: it is not among the earlier ids.
        assert(!prev.dom().contains(last.id)) by {
            if prev.dom().contains(last.id) {
                assert(crate::metadata::segs_has_id(d, last.id));
                let w = choose|i: int| 0 <= i < d.len() && d[i].id == last.id;
                assert(ss[w].id == ss[ss.len() - 1].id);
            }
        }
        assert(b.len() == tail_w.len());
        assert(tail_w.len() == crate::segment::spec_seg_ipc(last).len());
        assert(b.len() > 0) by {
            assert(crate::segment::spec_seg_ipc(ss[ss.len() - 1]).len() > 0);
        }
        assert forall|i: int| 0 <= i < b.len() implies (#[trigger] b[i]).segment_id
            == last.id by {
            assert(b.map_values(|m: ipc::MessageView| crate::metadata::msg_with_id_model(m))[i]
                == crate::metadata::msg_with_id_model(b[i]));
            assert(tail_w[i].segment_id == last.id);
        }
        lemma_meta_replay_single(prev, b, last.id);
        lemma_stream_rebuild(last, b);
        let rebuilt = crate::metadata::spec_meta_from(msgs);
        assert(rebuilt =~= prev.insert(
            last.id,
            seg_replay(crate::metadata::spec_seed_segment(b[0]), spec_models_of(b)),
        ));
        // Domain: the earlier ids plus the last one.
        assert forall|id: u128|
            rebuilt.dom().contains(id) <==> crate::metadata::segs_has_id(ss, id) by {
            if rebuilt.dom().contains(id) {
                if id == last.id {
                    assert(ss[ss.len() - 1].id == id);
                } else {
                    assert(crate::metadata::segs_has_id(d, id));
                    let w = choose|i: int| 0 <= i < d.len() && d[i].id == id;
                    assert(ss[w].id == id);
                }
            }
            if crate::metadata::segs_has_id(ss, id) {
                let w = choose|i: int| 0 <= i < ss.len() && ss[i].id == id;
                if w < ss.len() - 1 {
                    assert(d[w].id == id);
                    assert(crate::metadata::segs_has_id(d, id));
                }
            }
        }
        assert(rebuilt.dom() =~= Set::new(|id: u128| crate::metadata::segs_has_id(ss, id)));
        // Each segment's entry: the last one from its own stream, the
        // earlier ones untouched by the insertion of a fresh id.
        assert forall|k: int|
            0 <= k < ss.len() implies ({
                let r = rebuilt[(#[trigger] ss[k]).id];
                &&& r.id == ss[k].id
                &&& r.source == ss[k].source
                &&& r.start_time == ss[k].start_time
                &&& r.end_time == ss[k].end_time
                &&& forall|name: Seq<char>| spec_schema_decl_at(r, name) == spec_schema_decl_at(
                    ss[k],
                    name,
                )
            }) by {
            if k == ss.len() - 1 {
                assert(rebuilt[ss[k].id] == seg_replay(
                    crate::metadata::spec_seed_segment(b[0]),
                    spec_models_of(b),
                ));
            } else {
                assert(ss[k].id != last.id);
                assert(rebuilt[ss[k].id] == prev[ss[k].id]);
                assert(d[k] == ss[k]);
            }
        }
    }
}

/// Merging a single message is one update step.
proof fn lemma_seg_replay_one(s0: SegmentModel, m: IpcMessageModel)
    ensures
        seg_replay(s0, seq![m]) == seg_update(s0, m),
{
    let one: Seq<IpcMessageModel> = seq![m];
    assert(one.len() == 1);
    assert(one.drop_last() =~= Seq::<IpcMessageModel>::empty());
    assert(seg_replay(s0, one.drop_last()) == s0);
    assert(one.last() == m);
}

/// A single field's serialization: one message when it carries labels,
/// nothing otherwise.
proof fn lemma_fields_ipc_one(event_name: Seq<char>, f: crate::segment::FieldModel)
    ensures
        crate::segment::spec_fields_ipc(event_name, seq![f]) == if exists|k: ValueView|
            f.values.dom().contains(k) {
            seq![
                IpcMessageModel::NamedValues {
                    event_name,
                    field_name: f.metadata.name,
                    values: f.values,
                },
            ]
        } else {
            Seq::<IpcMessageModel>::empty()
        },
{
    let one: Seq<crate::segment::FieldModel> = seq![f];
    assert(one.len() == 1);
    assert(one.drop_last() =~= Seq::<crate::segment::FieldModel>::empty());
    assert(crate::segment::spec_fields_ipc(event_name, one.drop_last()) =~= Seq::<
        IpcMessageModel,
    >::empty());
    assert(one.last() == f);
    if exists|k: ValueView| f.values.dom().contains(k) {
        assert(crate::segment::spec_fields_ipc(event_name, one) =~= seq![
            IpcMessageModel::NamedValues {
                event_name,
                field_name: f.metadata.name,
                values: f.values,
            },
        ]);
    } else {
        assert(crate::segment::spec_fields_ipc(event_name, one) =~= Seq::<
            IpcMessageModel,
        >::empty());
    }
}

/// Merging a segment's own messages distributes over concatenation.
proof fn lemma_seg_replay_append(s0: SegmentModel, a: Seq<IpcMessageModel>, b: Seq<IpcMessageModel>)
    ensures
        seg_replay(s0, a + b) == seg_replay(seg_replay(s0, a), b),
    decreases b.len(),
{
    if b.len() == 0 {
        assert(a + b =~= a);
    } else {
        assert((a + b).drop_last() =~= a + b.drop_last());
        assert((a + b).last() == b.last());
        lemma_seg_replay_append(s0, a, b.drop_last());
    }
}

/// Whether a segment names its schemas and, within each schema, its
/// fields without repetition.
pub open spec fn spec_distinct_names(ss: Seq<SchemaModel>) -> bool {
    &&& forall|i: int, j: int| 0 <= i < j < ss.len() ==> ss[i].name != ss[j].name
    &&& forall|k: int, i: int, j: int|
        0 <= k < ss.len() && 0 <= i < j < ss[k].fields.len() ==> ss[k].fields[i].metadata.name
            != ss[k].fields[j].metadata.name
}

/// Schema `sch` with its first `j` fields carrying their labels and the
/// rest still empty.
spec fn spec_mix(sch: SchemaModel, j: int) -> SchemaModel {
    SchemaModel {
        name: sch.name,
        fields: Seq::new(
            sch.fields.len(),
            |i: int|
                if i < j {
                    sch.fields[i]
                } else {
                    crate::segment::FieldModel {
                        metadata: sch.fields[i].metadata,
                        values: Map::<ValueView, Seq<char>>::empty(),
                    }
                },
        ),
    }
}

/// Replaying one schema's label messages onto its empty declaration
/// restores the schema exactly, label table by label table.
proof fn lemma_fields_restore(base: SegmentModel, d: Seq<SchemaModel>, sch: SchemaModel, j: int)
    requires
        base.schemas == d.push(spec_mix(sch, j)),
        forall|i: int| 0 <= i < d.len() ==> d[i].name != sch.name,
        forall|i: int, k: int|
            0 <= i < k < sch.fields.len() ==> sch.fields[i].metadata.name
                != sch.fields[k].metadata.name,
        0 <= j <= sch.fields.len(),
    ensures
        ({
            let r = seg_replay(
                base,
                crate::segment::spec_fields_ipc(sch.name, sch.fields.skip(j)),
            );
            &&& r.schemas == d.push(spec_mix(sch, sch.fields.len() as int))
            &&& r.id == base.id
            &&& r.source == base.source
            &&& r.start_time == base.start_time
            &&& r.end_time == base.end_time
        }),
    decreases sch.fields.len() - j,
{
    let rest = sch.fields.skip(j);
    if rest.len() == 0 {
        assert(crate::segment::spec_fields_ipc(sch.name, rest) =~= Seq::<IpcMessageModel>::empty());
        assert(seg_replay(base, Seq::<IpcMessageModel>::empty()) == base);
        assert(spec_mix(sch, j).fields =~= spec_mix(sch, sch.fields.len() as int).fields);
    } else {
        // Split off the first remaining field: its message part comes
        // first in the serialization of the remainder.
        let f = sch.fields[j];
        let first_part = crate::segment::spec_fields_ipc(
            sch.name,
            sch.fields.skip(j).take(1),
        );
        let tail_part = crate::segment::spec_fields_ipc(sch.name, sch.fields.skip(j + 1));
        assert(sch.fields.skip(j).take(1) =~= seq![f]);
        lemma_fields_ipc_split(sch.name, sch.fields.skip(j));
        assert(sch.fields.skip(j).drop_first() =~= sch.fields.skip(j + 1));
        assert(crate::segment::spec_fields_ipc(sch.name, sch.fields.skip(j)) == first_part
            + tail_part);
        lemma_seg_replay_append(base, first_part, tail_part);
        let mid = seg_replay(base, first_part);
        lemma_fields_ipc_one(sch.name, f);
        assert(first_part == crate::segment::spec_fields_ipc(sch.name, seq![f]));
        if exists|k: ValueView| f.values.dom().contains(k) {
            let m = IpcMessageModel::NamedValues {
                event_name: sch.name,
                field_name: f.metadata.name,
                values: f.values,
            };
            assert(first_part == seq![m]);
            lemma_seg_replay_one(base, m);
            assert(mid == seg_update(base, m));
            // The message lands on this schema and this field exactly.
            assert forall|i: int|
                0 <= i < base.schemas.len() - 1 implies base.schemas[i].name != sch.name by {
                assert(base.schemas[i] == d[i]);
            }
            crate::segment::lemma_first_schema_index_at(
                base.schemas,
                sch.name,
                base.schemas.len() - 1,
            );
            let ki = base.schemas.len() - 1;
            assert(spec_schema_index(base.schemas, sch.name) == Some(ki));
            assert(base.schemas[ki] == spec_mix(sch, j));
            assert forall|i: int|
                0 <= i < j implies spec_mix(sch, j).fields[i].metadata.name
                != f.metadata.name by {
                assert(spec_mix(sch, j).fields[i].metadata == sch.fields[i].metadata);
            }
            crate::segment::lemma_first_field_index_at(
                spec_mix(sch, j).fields,
                f.metadata.name,
                j,
            );
            assert(spec_field_index(spec_mix(sch, j).fields, f.metadata.name) == Some(j));
            assert(spec_mix(sch, j).fields[j].values =~= Map::<ValueView, Seq<char>>::empty());
            assert(spec_mix(sch, j).fields[j].values.union_prefer_right(f.values) =~= f.values);
            assert(mid.schemas == base.schemas.update(
                ki,
                SchemaModel {
                    name: spec_mix(sch, j).name,
                    fields: spec_mix(sch, j).fields.update(
                        j,
                        crate::segment::FieldModel {
                            metadata: spec_mix(sch, j).fields[j].metadata,
                            values: spec_mix(sch, j).fields[j].values.union_prefer_right(
                                f.values,
                            ),
                        },
                    ),
                },
            ));
            assert(spec_mix(sch, j).fields.update(
                j,
                crate::segment::FieldModel {
                    metadata: spec_mix(sch, j).fields[j].metadata,
                    values: spec_mix(sch, j).fields[j].values.union_prefer_right(f.values),
                },
            ) =~= spec_mix(sch, j + 1).fields);
            assert(mid.schemas =~= d.push(spec_mix(sch, j + 1)));
        } else {
            assert(first_part =~= Seq::<IpcMessageModel>::empty());
            assert(mid == seg_replay(base, Seq::<IpcMessageModel>::empty()));
            assert(mid == base);
            assert(f.values.dom() =~= Set::<ValueView>::empty());
            assert(f.values =~= Map::<ValueView, Seq<char>>::empty());
            assert(spec_mix(sch, j).fields =~= spec_mix(sch, j + 1).fields);
            assert(mid.schemas == d.push(spec_mix(sch, j + 1)));
        }
        lemma_fields_restore(mid, d, sch, j + 1);
    }
}

/// A field sequence's serialization splits at its first element.
proof fn lemma_fields_ipc_split(event_name: Seq<char>, fields: Seq<crate::segment::FieldModel>)
    requires
        fields.len() > 0,
    ensures
        crate::segment::spec_fields_ipc(event_name, fields) == crate::segment::spec_fields_ipc(
            event_name,
            fields.take(1),
        ) + crate::segment::spec_fields_ipc(event_name, fields.drop_first()),
    decreases fields.len(),
{
    if fields.len() == 1 {
        assert(fields.drop_first() =~= Seq::<crate::segment::FieldModel>::empty());
        assert(fields.take(1) =~= fields);
        assert(crate::segment::spec_fields_ipc(event_name, fields.drop_first())
            =~= Seq::<IpcMessageModel>::empty());
        assert(crate::segment::spec_fields_ipc(event_name, fields) + Seq::<
            IpcMessageModel,
        >::empty() =~= crate::segment::spec_fields_ipc(event_name, fields));
    } else {
        let d = fields.drop_last();
        assert(d.len() > 0);
        lemma_fields_ipc_split(event_name, d);
        assert(d.take(1) =~= fields.take(1));
        assert(d.drop_first() =~= fields.drop_first().drop_last());
        assert(fields.drop_first().last() == fields.last());
        assert((crate::segment::spec_fields_ipc(event_name, fields.take(1))
            + crate::segment::spec_fields_ipc(event_name, fields.drop_first().drop_last()))
            + (crate::segment::spec_fields_ipc(event_name, fields.drop_first()).skip(
            crate::segment::spec_fields_ipc(event_name, fields.drop_first().drop_last()).len() as int,
        )) =~= crate::segment::spec_fields_ipc(event_name, fields.take(1))
            + crate::segment::spec_fields_ipc(event_name, fields.drop_first()));
        assert(crate::segment::spec_fields_ipc(event_name, fields)
            =~= crate::segment::spec_fields_ipc(event_name, fields.take(1))
            + crate::segment::spec_fields_ipc(event_name, fields.drop_first()));
    }
}

/// Replaying the schemas' serialization onto a segment without schemas
/// restores them exactly, declarations and label tables alike.
proof fn lemma_schemas_restore(base: SegmentModel, ss: Seq<SchemaModel>)
    requires
        base.schemas == Seq::<SchemaModel>::empty(),
        spec_distinct_names(ss),
    ensures
        ({
            let r = seg_replay(base, crate::segment::spec_schemas_ipc(ss));
            &&& r.schemas =~= ss
            &&& r.id == base.id
            &&& r.source == base.source
            &&& r.start_time == base.start_time
            &&& r.end_time == base.end_time
        }),
    decreases ss.len(),
{
    if ss.len() > 0 {
        let d = ss.drop_last();
        let last = ss.last();
        assert(spec_distinct_names(d)) by {
            assert(forall|i: int| 0 <= i < d.len() ==> #[trigger] d[i] == ss[i]);
        }
        lemma_schemas_restore(base, d);
        let r_d = seg_replay(base, crate::segment::spec_schemas_ipc(d));
        let decl_part = seq![crate::segment::spec_schema_msg(last)];
        let labels_part = crate::segment::spec_fields_ipc(last.name, last.fields);
        assert(crate::segment::spec_schemas_ipc(ss) == (crate::segment::spec_schemas_ipc(d)
            + decl_part) + labels_part);
        lemma_seg_replay_append(base, crate::segment::spec_schemas_ipc(d) + decl_part, labels_part);
        lemma_seg_replay_append(base, crate::segment::spec_schemas_ipc(d), decl_part);
        // The declaration pushes the schema with empty label tables.
        let after_decl = seg_update(r_d, crate::segment::spec_schema_msg(last));
        lemma_seg_replay_one(r_d, crate::segment::spec_schema_msg(last));
        assert(seg_replay(r_d, decl_part) == after_decl);
        assert(forall|i: int| 0 <= i < r_d.schemas.len() ==> r_d.schemas[i] == ss[i]);
        assert forall|i: int| 0 <= i < r_d.schemas.len() implies r_d.schemas[i].name
            != last.name by {
            assert(ss[i].name != ss[ss.len() - 1].name);
        }
        assert(spec_schema_index(r_d.schemas, last.name) is None);
        let zeroed = spec_schema_from_ipc(crate::segment::spec_schema_msg(last)->Schema_0);
        assert(after_decl.schemas == r_d.schemas.push(zeroed));
        assert(zeroed =~= spec_mix(last, 0)) by {
            assert(zeroed.fields.len() == last.fields.len());
            assert forall|i: int| 0 <= i < last.fields.len() implies zeroed.fields[i]
                == spec_mix(last, 0).fields[i] by {
                assert(zeroed.fields[i] == crate::segment::FieldModel {
                    metadata: last.fields.map_values(
                        |f: crate::segment::FieldModel| f.metadata,
                    )[i],
                    values: Map::<ValueView, Seq<char>>::empty(),
                });
            }
            assert(zeroed.fields =~= spec_mix(last, 0).fields);
        }
        assert(after_decl.schemas == r_d.schemas.push(spec_mix(last, 0))) by {
            assert(zeroed == spec_mix(last, 0));
        }
        // The label messages then restore each field's table.
        assert(last.fields.skip(0) =~= last.fields);
        assert forall|i: int| 0 <= i < r_d.schemas.len() implies r_d.schemas[i].name
            != last.name by {
            assert(ss[i].name != ss[ss.len() - 1].name);
        }
        assert forall|i: int, k: int|
            0 <= i < k < last.fields.len() implies last.fields[i].metadata.name
            != last.fields[k].metadata.name by {
            assert(ss[ss.len() - 1].fields[i].metadata.name != ss[ss.len() - 1].fields[
                k
            ].metadata.name);
        }
        lemma_fields_restore(after_decl, r_d.schemas, last, 0);
        let r = seg_replay(after_decl, labels_part);
        assert(r.schemas == r_d.schemas.push(spec_mix(last, last.fields.len() as int)));
        assert(spec_mix(last, last.fields.len() as int).fields =~= last.fields);
        assert(spec_mix(last, last.fields.len() as int) == last) by {
            assert(spec_mix(last, last.fields.len() as int).fields == last.fields);
        }
        assert(r.schemas =~= ss);
    }
}

/// With distinct schema and field names, rebuilding one segment from its
/// replay stream restores it exactly: identity, source, lifetime,
/// declarations and every value label.
pub proof fn lemma_segment_rebuild_exact(s: SegmentModel, msgs: Seq<ipc::MessageView>)
    requires
        msgs.map_values(|m: ipc::MessageView| crate::metadata::msg_with_id_model(m))
            == crate::metadata::spec_wrap_segment(s),
        crate::segment::spec_seg_ipc(s).len() > 0,
        spec_distinct_names(s.schemas),
    ensures
        crate::metadata::spec_meta_from(msgs).dom() =~= Set::<u128>::empty().insert(s.id),
        crate::metadata::spec_meta_from(msgs)[s.id] == s,
{
    assert(msgs.map_values(|m: ipc::MessageView| crate::metadata::msg_with_id_model(m)).len()
        == msgs.len());
    assert forall|i: int| 0 <= i < msgs.len() implies (#[trigger] msgs[i]).segment_id
        == s.id by {
        assert(msgs.map_values(|m: ipc::MessageView| crate::metadata::msg_with_id_model(m))[i]
            == crate::metadata::msg_with_id_model(msgs[i]));
        assert(crate::metadata::spec_wrap_segment(s)[i].segment_id == s.id);
    }
    lemma_meta_from_single(msgs, s.id);
    lemma_stream_rebuild(s, msgs);
    lemma_stream_rebuild_schemas(s, msgs);
    let r = seg_replay(crate::metadata::spec_seed_segment(msgs[0]), spec_models_of(msgs));
    assert(r == s) by {
        assert(r.schemas == s.schemas);
    }
}

/// The schemas a segment's replay stream rebuilds are exactly the
/// segment's own, label tables included, when its names are distinct.
proof fn lemma_stream_rebuild_schemas(s: SegmentModel, msgs: Seq<ipc::MessageView>)
    requires
        msgs.map_values(|m: ipc::MessageView| crate::metadata::msg_with_id_model(m))
            == crate::metadata::spec_wrap_segment(s),
        crate::segment::spec_seg_ipc(s).len() > 0,
        spec_distinct_names(s.schemas),
    ensures
        seg_replay(crate::metadata::spec_seed_segment(msgs[0]), spec_models_of(msgs)).schemas
            =~= s.schemas,
{
    let stream = crate::segment::spec_seg_ipc(s);
    assert(msgs.map_values(|m: ipc::MessageView| crate::metadata::msg_with_id_model(m)).len()
        == msgs.len());
    assert forall|i: int| 0 <= i < msgs.len() implies crate::segment::msg_model(
        (#[trigger] msgs[i]).msg,
    ) == stream[i] by {
        assert(msgs.map_values(|m: ipc::MessageView| crate::metadata::msg_with_id_model(m))[i]
            == crate::metadata::msg_with_id_model(msgs[i]));
        assert(crate::metadata::spec_wrap_segment(s)[i].msg == stream[i]);
    }
    assert(spec_models_of(msgs) =~= stream);
    let seed = crate::metadata::spec_seed_segment(msgs[0]);
    assert(seed.schemas =~= Seq::<SchemaModel>::empty());
    let start_part = crate::segment::spec_start_ipc(s);
    let schemas_part = crate::segment::spec_schemas_ipc(s.schemas);
    let end_part = crate::segment::spec_end_ipc(s);
    assert(stream == (start_part + schemas_part) + end_part);
    lemma_seg_replay_append(seed, start_part + schemas_part, end_part);
    lemma_seg_replay_append(seed, start_part, schemas_part);
    let after_start = seg_replay(seed, start_part);
    assert(after_start.schemas == seed.schemas) by {
        match s.start_time {
            Some(t0) => {
                let m = IpcMessageModel::Start { time_ns: t0, source_name: s.source };
                assert(start_part =~= seq![m]);
                lemma_seg_replay_one(seed, m);
                assert(after_start == seg_update(seed, m));
            }
            None => {
                assert(start_part =~= Seq::<IpcMessageModel>::empty());
                assert(after_start == seg_replay(seed, Seq::<IpcMessageModel>::empty()));
            }
        }
    }
    assert(after_start.schemas == Seq::<SchemaModel>::empty()) by {
        assert(seed.schemas =~= Seq::<SchemaModel>::empty());
    }
    lemma_schemas_restore(after_start, s.schemas);
    let after_schemas = seg_replay(after_start, schemas_part);
    assert(after_schemas.schemas =~= s.schemas);
    let r = seg_replay(after_schemas, end_part);
    assert(r.schemas == after_schemas.schemas) by {
        match s.end_time {
            Some(t1) => {
                let m = IpcMessageModel::End { time_ns: t1 };
                assert(end_part =~= seq![m]);
                lemma_seg_replay_one(after_schemas, m);
                assert(r == seg_update(after_schemas, m));
            }
            None => {
                assert(end_part =~= Seq::<IpcMessageModel>::empty());
                assert(r == seg_replay(after_schemas, Seq::<IpcMessageModel>::empty()));
            }
        }
    }
}

/// The full bisimulation: an index whose segments all left a trace and
/// name their schemas and fields without repetition is rebuilt exactly —
/// as a map from segment id to segment state — from its own replay
/// stream.
pub proof fn lemma_index_rebuild_exact(ss: Seq<SegmentModel>, msgs: Seq<ipc::MessageView>)
    requires
        crate::metadata::segs_ids_unique(ss),
        forall|k: int|
            0 <= k < ss.len() ==> crate::segment::spec_seg_ipc(#[trigger] ss[k]).len() > 0,
        forall|k: int| 0 <= k < ss.len() ==> spec_distinct_names((#[trigger] ss[k]).schemas),
        msgs.map_values(|m: ipc::MessageView| crate::metadata::msg_with_id_model(m))
            == crate::metadata::spec_meta_ipc(ss),
    ensures
        crate::metadata::spec_meta_from(msgs) =~= crate::metadata::segs_as_map(ss),
    decreases ss.len(),
{
    lemma_meta_replay_from(msgs);
    crate::metadata::lemma_segs_map_matches(ss);
    if ss.len() == 0 {
        assert(crate::metadata::spec_meta_ipc(ss) =~= Seq::<crate::metadata::MessageModel>::empty());
        assert(msgs.map_values(|m: ipc::MessageView| crate::metadata::msg_with_id_model(m)).len()
            == msgs.len());
        assert(msgs.len() == 0);
        assert(crate::metadata::segs_as_map(ss) =~= Map::<u128, SegmentModel>::empty());
    } else {
        let d = ss.drop_last();
        let last = ss.last();
        let full = crate::metadata::spec_meta_ipc(ss);
        let head = crate::metadata::spec_meta_ipc(d);
        let tail_w = crate::metadata::spec_wrap_segment(last);
        assert(full == head + tail_w);
        assert(msgs.map_values(|m: ipc::MessageView| crate::metadata::msg_with_id_model(m)).len()
            == msgs.len());
        assert(msgs.len() == head.len() + tail_w.len());
        let a = msgs.take(head.len() as int);
        let b = msgs.skip(head.len() as int);
        assert(msgs =~= a + b);
        assert forall|i: int| 0 <= i < msgs.len() implies #[trigger] crate::metadata::msg_with_id_model(
            msgs[i],
        ) == full[i] by {
            assert(msgs.map_values(|m: ipc::MessageView| crate::metadata::msg_with_id_model(m))[i]
                == crate::metadata::msg_with_id_model(msgs[i]));
        }
        assert(a.map_values(|m: ipc::MessageView| crate::metadata::msg_with_id_model(m))
            =~= head);
        assert(b.map_values(|m: ipc::MessageView| crate::metadata::msg_with_id_model(m))
            =~= tail_w);
        assert(crate::metadata::segs_ids_unique(d));
        assert(forall|k: int| 0 <= k < d.len() ==> #[trigger] d[k] == ss[k]);
        assert forall|k: int|
            0 <= k < d.len() implies crate::segment::spec_seg_ipc(#[trigger] d[k]).len() > 0
            && spec_distinct_names(d[k].schemas) by {
            assert(d[k] == ss[k]);
        }
        lemma_index_rebuild_exact(d, a);
        lemma_meta_replay_from(a);
        lemma_meta_replay_append(Map::<u128, SegmentModel>::empty(), a, b);
        let prev = crate::metadata::spec_meta_from(a);
        crate::metadata::lemma_segs_map_matches(d);
        assert(!prev.dom().contains(last.id)) by {
            if prev.dom().contains(last.id) {
                assert(crate::metadata::segs_has_id(d, last.id));
                let w = choose|i: int| 0 <= i < d.len() && d[i].id == last.id;
                assert(ss[w].id == ss[ss.len() - 1].id);
            }
        }
        assert(b.len() == tail_w.len());
        assert(b.len() > 0) by {
            assert(crate::segment::spec_seg_ipc(ss[ss.len() - 1]).len() > 0);
        }
        assert forall|i: int| 0 <= i < b.len() implies (#[trigger] b[i]).segment_id
            == last.id by {
            assert(b.map_values(|m: ipc::MessageView| crate::metadata::msg_with_id_model(m))[i]
                == crate::metadata::msg_with_id_model(b[i]));
            assert(tail_w[i].segment_id == last.id);
        }
        lemma_meta_replay_single(prev, b, last.id);
        assert(spec_distinct_names(last.schemas)) by {
            assert(spec_distinct_names(ss[ss.len() - 1].schemas));
        }
        assert(crate::segment::spec_seg_ipc(last).len() > 0) by {
            assert(crate::segment::spec_seg_ipc(ss[ss.len() - 1]).len() > 0);
        }
        lemma_stream_rebuild(last, b);
        lemma_stream_rebuild_schemas(last, b);
        let rebuilt_last = seg_replay(
            crate::metadata::spec_seed_segment(b[0]),
            spec_models_of(b),
        );
        assert(rebuilt_last == last) by {
            assert(rebuilt_last.schemas == last.schemas);
        }
        assert(crate::metadata::spec_meta_from(msgs) =~= prev.insert(last.id, last));
        assert(crate::metadata::segs_as_map(ss) == crate::metadata::segs_as_map(d).insert(
            last.id,
            last,
        ));
        assert(crate::metadata::spec_meta_from(msgs) =~= crate::metadata::segs_as_map(ss));
    }
}

} // verus!
