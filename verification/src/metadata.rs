//! The metadata index: every known segment's derived state, keyed by
//! segment id, with the merge rules of [`crate::segment`] applied per
//! message.

use vstd::prelude::*;

use crate::ipc;
use crate::segment::{
    msg_model, seg_update, spec_seg_ipc, IpcMessageModel, SegmentModel, TraceSegment,
};

verus! {

/// The segment sequence `s` read as a map keyed by segment id.
pub open spec fn segs_as_map(s: Seq<SegmentModel>) -> Map<u128, SegmentModel>
    decreases s.len(),
{
    if s.len() == 0 {
        Map::empty()
    } else {
        segs_as_map(s.drop_last()).insert(s.last().id, s.last())
    }
}

/// Whether a segment id occurs in the sequence `s`.
pub open spec fn segs_has_id(s: Seq<SegmentModel>, id: u128) -> bool {
    exists|i: int| 0 <= i < s.len() && s[i].id == id
}

/// Whether every segment id in the sequence `s` occurs only once.
pub open spec fn segs_ids_unique(s: Seq<SegmentModel>) -> bool {
    forall|i: int, j: int| 0 <= i < j < s.len() ==> s[i].id != s[j].id
}

/// In a sequence with unique ids, the map reading agrees with the
/// elements.
pub proof fn lemma_segs_map_matches(s: Seq<SegmentModel>)
    requires
        segs_ids_unique(s),
    ensures
        segs_as_map(s).dom() =~= Set::new(|id: u128| segs_has_id(s, id)),
        forall|j: int| 0 <= j < s.len() ==> segs_as_map(s)[#[trigger] s[j].id] == s[j],
    decreases s.len(),
{
    if s.len() == 0 {
        assert(segs_as_map(s).dom() =~= Set::new(|id: u128| segs_has_id(s, id)));
    } else {
        let d = s.drop_last();
        assert(segs_ids_unique(d));
        lemma_segs_map_matches(d);
        assert forall|id: u128| segs_as_map(s).dom().contains(id) <==> segs_has_id(s, id) by {
            if segs_as_map(s).dom().contains(id) {
                if id == s.last().id {
                    assert(s[s.len() - 1].id == id);
                } else {
                    assert(segs_has_id(d, id));
                    let i = choose|i: int| 0 <= i < d.len() && d[i].id == id;
                    assert(s[i].id == id);
                }
            }
            if segs_has_id(s, id) {
                let i = choose|i: int| 0 <= i < s.len() && s[i].id == id;
                if i < s.len() - 1 {
                    assert(d[i].id == id);
                    assert(segs_has_id(d, id));
                    assert(segs_as_map(d).dom().contains(id));
                }
            }
        }
        assert(segs_as_map(s).dom() =~= Set::new(|id: u128| segs_has_id(s, id)));
        assert forall|j: int| 0 <= j < s.len() implies segs_as_map(s)[#[trigger] s[j].id]
            == s[j] by {
            if j < s.len() - 1 {
                assert(s[j].id != s.last().id);
                assert(d[j] == s[j]);
                assert(segs_as_map(d)[d[j].id] == d[j]);
            }
        }
    }
}

/// Replacing the element at an id's own index is, in the map reading, one
/// insertion of that id.
pub proof fn lemma_segs_update_is_insert(s: Seq<SegmentModel>, i: int, v: SegmentModel)
    requires
        segs_ids_unique(s),
        0 <= i < s.len(),
        v.id == s[i].id,
    ensures
        segs_ids_unique(s.update(i, v)),
        segs_as_map(s.update(i, v)) =~= segs_as_map(s).insert(v.id, v),
    decreases s.len(),
{
    let t = s.update(i, v);
    assert(segs_ids_unique(t));
    lemma_segs_map_matches(s);
    if i == s.len() - 1 {
        assert(t.drop_last() =~= s.drop_last());
    } else {
        assert(t.drop_last() =~= s.drop_last().update(i, v));
        assert(segs_ids_unique(s.drop_last()));
        lemma_segs_update_is_insert(s.drop_last(), i, v);
        assert(t.last() == s.last());
        assert(segs_as_map(t) =~= segs_as_map(s.drop_last()).insert(v.id, v).insert(
            s.last().id,
            s.last(),
        ));
        assert(s.last().id != v.id);
    }
}

/// Dropping the element at an id's own index removes, in the map reading,
/// exactly that id.
pub proof fn lemma_segs_remove(s: Seq<SegmentModel>, i: int)
    requires
        segs_ids_unique(s),
        0 <= i < s.len(),
    ensures
        segs_ids_unique(s.remove(i)),
        segs_as_map(s.remove(i)) =~= segs_as_map(s).remove(s[i].id),
    decreases s.len(),
{
    let t = s.remove(i);
    assert(segs_ids_unique(t));
    lemma_segs_map_matches(s);
    lemma_segs_map_matches(t);
    assert forall|id: u128|
        segs_as_map(t).dom().contains(id) <==> (segs_as_map(s).dom().contains(id) && id != s[
            i
        ].id) by {
        if segs_as_map(t).dom().contains(id) {
            let k = choose|k: int| 0 <= k < t.len() && t[k].id == id;
            if k < i {
                assert(s[k].id == id);
            } else {
                assert(s[k + 1].id == id);
            }
        }
        if segs_as_map(s).dom().contains(id) && id != s[i].id {
            let k = choose|k: int| 0 <= k < s.len() && s[k].id == id;
            if k < i {
                assert(t[k].id == id);
            } else {
                assert(t[k - 1].id == id);
            }
        }
    }
    assert forall|id: u128| #[trigger]
        segs_as_map(t).dom().contains(id) implies segs_as_map(t)[id] == segs_as_map(s)[id] by {
        let k = choose|k: int| 0 <= k < t.len() && t[k].id == id;
        assert(segs_as_map(t)[t[k].id] == t[k]);
        if k < i {
            assert(s[k] == t[k]);
            assert(segs_as_map(s)[s[k].id] == s[k]);
        } else {
            assert(s[k + 1] == t[k]);
            assert(segs_as_map(s)[s[k + 1].id] == s[k + 1]);
        }
    }
    assert(segs_as_map(t) =~= segs_as_map(s).remove(s[i].id));
}

/// The segment a message seeds when its id has not been seen: the start
/// message opens a full segment, every other message an empty shell.
pub open spec fn spec_seed_segment(m: ipc::MessageView) -> SegmentModel {
    match m.msg {
        ipc::IpcMessageView::TraceSegmentStart(st) => SegmentModel {
            id: m.segment_id,
            source: st.source_name,
            start_time: Some(st.time_ns),
            end_time: None,
            schemas: Seq::empty(),
        },
        _ => SegmentModel {
            id: m.segment_id,
            source: m.source_name,
            start_time: None,
            end_time: None,
            schemas: Seq::empty(),
        },
    }
}

/// How one message merges into the index when every message may seed a
/// segment: an existing segment absorbs the message by [`seg_update`]
/// (data events change nothing); an unseen id is seeded first.
pub open spec fn spec_meta_absorb(
    m: Map<u128, SegmentModel>,
    msg: ipc::MessageView,
) -> Map<u128, SegmentModel> {
    if m.dom().contains(msg.segment_id) {
        if msg.msg is TraceEvent {
            m
        } else {
            m.insert(msg.segment_id, seg_update(m[msg.segment_id], msg_model(msg.msg)))
        }
    } else {
        m.insert(msg.segment_id, seg_update(spec_seed_segment(msg), msg_model(msg.msg)))
    }
}

/// How one message merges into a live index: as [`spec_meta_absorb`],
/// except that a data event never seeds a segment.
pub open spec fn spec_meta_update(
    m: Map<u128, SegmentModel>,
    msg: ipc::MessageView,
) -> Map<u128, SegmentModel> {
    if msg.msg is TraceEvent {
        m
    } else {
        spec_meta_absorb(m, msg)
    }
}

/// The index that replaying a message sequence into an empty index builds.
pub open spec fn spec_meta_from(msgs: Seq<ipc::MessageView>) -> Map<u128, SegmentModel>
    decreases msgs.len(),
{
    if msgs.len() == 0 {
        Map::empty()
    } else {
        spec_meta_absorb(spec_meta_from(msgs.drop_last()), msgs.last())
    }
}

/// The wrapped reading of a routed record.
pub struct MessageModel {
    pub segment_id: u128,
    pub source_name: Seq<char>,
    pub msg: IpcMessageModel,
}

/// The wrapped reading of a routed record.
pub open spec fn msg_with_id_model(m: ipc::MessageView) -> MessageModel {
    MessageModel { segment_id: m.segment_id, source_name: m.source_name, msg: msg_model(m.msg) }
}

/// One segment's serialization, wrapped with its identity.
pub open spec fn spec_wrap_segment(seg: SegmentModel) -> Seq<MessageModel> {
    spec_seg_ipc(seg).map_values(
        |mm: IpcMessageModel|
            MessageModel { segment_id: seg.id, source_name: seg.source, msg: mm },
    )
}

/// The serialization of every segment, in insertion order.
pub open spec fn spec_meta_ipc(ss: Seq<SegmentModel>) -> Seq<MessageModel>
    decreases ss.len(),
{
    if ss.len() == 0 {
        Seq::empty()
    } else {
        spec_meta_ipc(ss.drop_last()) + spec_wrap_segment(ss.last())
    }
}

/// The metadata index: the derived state of every known segment.
///
/// Readers of a shared index take a snapshot (a clone) and read it without
/// blocking the single writer; the writer merges messages one at a time.
#[derive(Debug)]
pub struct TraceMetadata {
    segments: Vec<TraceSegment>,
}

impl TraceMetadata {
    /// The segments in insertion order, as mathematical values.
    pub closed spec fn seq_model(&self) -> Seq<SegmentModel> {
        self.segments@.map_values(|s: TraceSegment| s.model())
    }

    /// The mathematical reading of the index: segment id to segment state.
    pub open spec fn model(&self) -> Map<u128, SegmentModel> {
        segs_as_map(self.seq_model())
    }

    /// Whether the index is well formed: ids unique, every segment well
    /// formed, every segment stored under its own id.
    pub open spec fn wf(&self) -> bool {
        &&& segs_ids_unique(self.seq_model())
        &&& forall|i: int| 0 <= i < self.seq_model().len() ==> (#[trigger] self.spec_segment(i)).wf()
    }

    /// The stored segment at position `i`.
    pub closed spec fn spec_segment(&self, i: int) -> TraceSegment {
        self.segments@[i]
    }

    /// An empty index.
    pub fn new() -> (r: TraceMetadata)
        ensures
            r.model() =~= Map::<u128, SegmentModel>::empty(),
            r.seq_model() =~= Seq::<SegmentModel>::empty(),
            r.wf(),
    {
        let r = TraceMetadata { segments: Vec::new() };
        proof {
            assert(r.seq_model() =~= Seq::<SegmentModel>::empty());
        }
        r
    }

    /// The position of the segment with id `id`, if it is known.
    fn find_segment(&self, id: u128) -> (r: Option<usize>)
        requires
            self.wf(),
        ensures
            match r {
                Some(i) => {
                    &&& 0 <= i < self.seq_model().len()
                    &&& self.seq_model()[i as int].id == id
                    &&& self.model().dom().contains(id)
                    &&& self.model()[id] == self.seq_model()[i as int]
                },
                None => !self.model().dom().contains(id),
            },
    {
        proof {
            lemma_segs_map_matches(self.seq_model());
        }
        let n: usize = self.segments.len();
        let mut i: usize = 0;
        while i < n
            invariant
                0 <= i <= n,
                n == self.seq_model().len(),
                self.wf(),
                forall|j: int| 0 <= j < i ==> self.seq_model()[j].id != id,
                segs_as_map(self.seq_model()).dom() =~= Set::new(
                    |k: u128| segs_has_id(self.seq_model(), k),
                ),
                forall|j: int|
                    0 <= j < self.seq_model().len() ==> segs_as_map(self.seq_model())[
                        #[trigger] self.seq_model()[j].id
                    ] == self.seq_model()[j],
            decreases n - i,
        {
            if self.segments[i].id == id {
                proof {
                    assert(self.seq_model()[i as int].id == id);
                    assert(segs_has_id(self.seq_model(), id));
                }
                return Some(i);
            }
            i = i + 1;
        }
        None
    }

    /// Merges one message into the index, by the rules of
    /// [`spec_meta_update`]: a data event returns immediately, any other
    /// message updates its segment, seeding it on first observation.
    pub fn update(&mut self, msg: &ipc::IpcMessageWithId)
        requires
            old(self).wf(),
        ensures
            final(self).wf(),
            final(self).model() =~= spec_meta_update(old(self).model(), msg@),
    {
        match &msg.msg {
            ipc::IpcMessage::TraceEvent(_) => {
                return ;
            }
            _ => {}
        }
        self.absorb(msg);
    }

    /// Merges one message, seeding an unknown segment id even for a data
    /// event, by the rules of [`spec_meta_absorb`].
    fn absorb(&mut self, msg: &ipc::IpcMessageWithId)
        requires
            old(self).wf(),
        ensures
            final(self).wf(),
            final(self).model() =~= spec_meta_absorb(old(self).model(), msg@),
    {
        let ghost pre_seq = self.seq_model();
        let ghost pre_map = self.model();
        match self.find_segment(msg.segment_id) {
            Some(i) => {
                match &msg.msg {
                    ipc::IpcMessage::TraceEvent(_) => {}
                    _ => {
                        let ghost pre_segs = self.segments@;
                        let mut seg = self.segments.remove(i);
                        proof {
                            assert(seg == old(self).spec_segment(i as int));
                            assert(seg.wf());
                            assert(seg.model() == pre_seq[i as int]);
                        }
                        seg.update_mut(&msg.msg);
                        self.segments.insert(i, seg);
                        proof {
                            assert(self.segments@ =~= pre_segs.update(i as int, self.segments@[i as int]));
                            assert(self.seq_model() =~= pre_seq.update(
                                i as int,
                                self.segments@[i as int].model(),
                            ));
                            lemma_segs_update_is_insert(
                                pre_seq,
                                i as int,
                                self.segments@[i as int].model(),
                            );
                            assert forall|j: int|
                                0 <= j < self.segments@.len() implies (#[trigger] self.spec_segment(
                                j,
                            )).wf() by {
                                if j != i as int {
                                    assert(self.spec_segment(j) == old(self).spec_segment(j));
                                    assert(old(self).spec_segment(j).wf());
                                }
                            }
                        }
                    }
                }
            }
            None => {
                let mut seg = match &msg.msg {
                    ipc::IpcMessage::TraceSegmentStart(m) => TraceSegment::from_ipc(
                        msg.segment_id,
                        m,
                    ),
                    _ => TraceSegment::empty(msg.segment_id, msg.source_name.clone()),
                };
                proof {
                    assert(seg.model() == spec_seed_segment(msg@));
                }
                seg.update_mut(&msg.msg);
                self.segments.push(seg);
                proof {
                    assert(self.seq_model() =~= pre_seq.push(
                        self.segments@[self.segments@.len() - 1].model(),
                    ));
                    assert(self.seq_model().drop_last() =~= pre_seq);
                    lemma_segs_map_matches(pre_seq);
                    assert(!segs_has_id(pre_seq, msg.segment_id));
                    assert(self.seq_model().last().id == msg.segment_id);
                    assert(segs_ids_unique(self.seq_model()));
                    assert forall|j: int|
                        0 <= j < self.segments@.len() implies (#[trigger] self.spec_segment(
                        j,
                    )).wf() by {
                        if j < self.segments@.len() - 1 {
                            assert(self.spec_segment(j) == old(self).spec_segment(j));
                            assert(old(self).spec_segment(j).wf());
                        }
                    }
                }
            }
        }
    }

    /// Builds an index by replaying a message sequence into an empty one.
    pub fn from(msgs: Vec<ipc::IpcMessageWithId>) -> (r: TraceMetadata)
        ensures
            r.wf(),
            r.model() =~= spec_meta_from(msgs@.map_values(|m: ipc::IpcMessageWithId| m@)),
    {
        let ghost all = msgs@.map_values(|m: ipc::IpcMessageWithId| m@);
        let mut r = TraceMetadata::new();
        let n: usize = msgs.len();
        let mut i: usize = 0;
        while i < n
            invariant
                0 <= i <= n,
                n == msgs@.len(),
                all == msgs@.map_values(|m: ipc::IpcMessageWithId| m@),
                r.wf(),
                r.model() =~= spec_meta_from(all.take(i as int)),
            decreases n - i,
        {
            r.absorb(&msgs[i]);
            proof {
                assert(all.take(i + 1).drop_last() =~= all.take(i as int));
                assert(all.take(i + 1).last() == msgs@[i as int]@);
            }
            i = i + 1;
        }
        proof {
            assert(all.take(n as int) =~= all);
        }
        r
    }

    /// Serializes the whole index: each segment's replay stream, wrapped
    /// with that segment's identity, in insertion order.
    pub fn as_ipc(&self) -> (r: Vec<ipc::IpcMessageWithId>)
        ensures
            r@.map_values(|m: ipc::IpcMessageWithId| msg_with_id_model(m@)) =~= spec_meta_ipc(
                self.seq_model(),
            ),
    {
        let mut out: Vec<ipc::IpcMessageWithId> = Vec::new();
        let n: usize = self.segments.len();
        let mut i: usize = 0;
        while i < n
            invariant
                0 <= i <= n,
                n == self.seq_model().len(),
                out@.map_values(|m: ipc::IpcMessageWithId| msg_with_id_model(m@))
                    =~= spec_meta_ipc(self.seq_model().take(i as int)),
            decreases n - i,
        {
            let ghost seg_model = self.seq_model()[i as int];
            let seg = &self.segments[i];
            let seg_msgs = seg.as_ipc();
            let m: usize = seg_msgs.len();
            let ghost seg_stream = seg_msgs@.map_values(|mm: ipc::IpcMessage| msg_model(mm@));
            proof {
                assert(seg_stream =~= spec_seg_ipc(seg_model));
            }
            let mut j: usize = 0;
            while j < m
                invariant
                    0 <= j <= m,
                    0 <= i < n,
                    n == self.seq_model().len(),
                    m == seg_msgs@.len(),
                    seg == &self.segments@[i as int],
                    seg_model == self.seq_model()[i as int],
                    seg_model == seg.model(),
                    seg_stream == seg_msgs@.map_values(|mm: ipc::IpcMessage| msg_model(mm@)),
                    seg_stream == spec_seg_ipc(seg_model),
                    out@.map_values(|m2: ipc::IpcMessageWithId| msg_with_id_model(m2@))
                        =~= spec_meta_ipc(self.seq_model().take(i as int)) + spec_wrap_segment(
                        seg_model,
                    ).take(j as int),
                decreases m - j,
            {
                let wrapped = ipc::IpcMessageWithId {
                    segment_id: seg.id,
                    source_name: seg.source.clone(),
                    msg: seg_msgs[j].clone(),
                };
                proof {
                    assert(msg_with_id_model(wrapped@) == (MessageModel {
                        segment_id: seg_model.id,
                        source_name: seg_model.source,
                        msg: seg_stream[j as int],
                    }));
                    assert(spec_wrap_segment(seg_model)[j as int] == (MessageModel {
                        segment_id: seg_model.id,
                        source_name: seg_model.source,
                        msg: spec_seg_ipc(seg_model)[j as int],
                    }));
                }
                let ghost pre_out = out@;
                out.push(wrapped);
                proof {
                    assert(out@.map_values(|m2: ipc::IpcMessageWithId| msg_with_id_model(m2@))
                        =~= pre_out.map_values(
                        |m2: ipc::IpcMessageWithId| msg_with_id_model(m2@),
                    ).push(msg_with_id_model(wrapped@)));
                    assert(spec_wrap_segment(seg_model).take(j + 1).drop_last()
                        =~= spec_wrap_segment(seg_model).take(j as int));
                    assert(spec_wrap_segment(seg_model).take(j + 1).last() == spec_wrap_segment(
                        seg_model,
                    )[j as int]);
                    assert(out@.map_values(|m2: ipc::IpcMessageWithId| msg_with_id_model(m2@))
                        =~= spec_meta_ipc(self.seq_model().take(i as int)) + spec_wrap_segment(
                        seg_model,
                    ).take(j + 1));
                }
                j = j + 1;
            }
            proof {
                assert(spec_wrap_segment(seg_model).take(m as int) =~= spec_wrap_segment(
                    seg_model,
                ));
                assert(self.seq_model().take(i + 1).drop_last() =~= self.seq_model().take(i as int));
                assert(self.seq_model().take(i + 1).last() == seg_model);
                assert(out@.map_values(|m2: ipc::IpcMessageWithId| msg_with_id_model(m2@))
                    =~= spec_meta_ipc(self.seq_model().take(i + 1)));
            }
            i = i + 1;
        }
        proof {
            assert(self.seq_model().take(n as int) =~= self.seq_model());
        }
        out
    }

    /// A snapshot of every known segment, in insertion order.
    pub fn segments(&self) -> (r: Vec<TraceSegment>)
        ensures
            r@.map_values(|s: TraceSegment| s.model()) =~= self.seq_model(),
    {
        let mut out: Vec<TraceSegment> = Vec::new();
        let n: usize = self.segments.len();
        let mut i: usize = 0;
        while i < n
            invariant
                0 <= i <= n,
                n == self.segments@.len(),
                out@.len() == i,
                forall|j: int|
                    0 <= j < i ==> (#[trigger] out@[j]).model() == self.segments@[j].model(),
            decreases n - i,
        {
            out.push(self.segments[i].clone());
            i = i + 1;
        }
        proof {
            assert(out@.map_values(|s: TraceSegment| s.model()) =~= self.seq_model());
        }
        out
    }

    /// A snapshot of every known segment, for iteration; the same sequence
    /// as [`TraceMetadata::segments`].
    pub fn segments_iter(&self) -> (r: Vec<TraceSegment>)
        ensures
            r@.map_values(|s: TraceSegment| s.model()) =~= self.seq_model(),
    {
        self.segments()
    }

    /// A snapshot of the segment with id `id`, if it is known.
    pub fn get_segment(&self, id: u128) -> (r: Option<TraceSegment>)
        requires
            self.wf(),
        ensures
            match r {
                Some(seg) => self.model().dom().contains(id) && seg.model() == self.model()[id],
                None => !self.model().dom().contains(id),
            },
    {
        match self.find_segment(id) {
            Some(i) => Some(self.segments[i].clone()),
            None => None,
        }
    }

    /// Forgets the segment with id `id`; unknown ids change nothing.
    pub fn remove_segment(&mut self, id: u128)
        requires
            old(self).wf(),
        ensures
            final(self).wf(),
            final(self).model() =~= old(self).model().remove(id),
    {
        let ghost pre_seq = self.seq_model();
        match self.find_segment(id) {
            Some(i) => {
                self.segments.remove(i);
                proof {
                    assert(self.seq_model() =~= pre_seq.remove(i as int));
                    lemma_segs_remove(pre_seq, i as int);
                    assert forall|j: int|
                        0 <= j < self.segments@.len() implies (#[trigger] self.spec_segment(
                        j,
                    )).wf() by {
                        if j < i as int {
                            assert(self.spec_segment(j) == old(self).spec_segment(j));
                            assert(old(self).spec_segment(j).wf());
                        } else {
                            assert(self.spec_segment(j) == old(self).spec_segment(j + 1));
                            assert(old(self).spec_segment(j + 1).wf());
                        }
                    }
                }
            }
            None => {
                proof {
                    assert(self.model() =~= old(self).model().remove(id));
                }
            }
        }
    }
}

impl Clone for TraceMetadata {
    /// A clone preserves the mathematical value; it is the reader-side
    /// snapshot of a shared index.
    fn clone(&self) -> (r: Self)
        ensures
            r.seq_model() == self.seq_model(),
            r.model() == self.model(),
            r.wf() == self.wf(),
    {
        let mut segments: Vec<TraceSegment> = Vec::new();
        let n: usize = self.segments.len();
        let mut i: usize = 0;
        while i < n
            invariant
                0 <= i <= n,
                n == self.segments@.len(),
                segments@.len() == i,
                forall|j: int|
                    0 <= j < i ==> (#[trigger] segments@[j]).model() == self.segments@[j].model(),
                forall|j: int|
                    0 <= j < i ==> (#[trigger] segments@[j]).wf() == self.segments@[j].wf(),
            decreases n - i,
        {
            segments.push(self.segments[i].clone());
            i = i + 1;
        }
        let r = TraceMetadata { segments };
        proof {
            assert(r.seq_model() =~= self.seq_model());
            if r.wf() {
                assert forall|j: int|
                    0 <= j < self.segments@.len() implies (#[trigger] self.spec_segment(
                    j,
                )).wf() by {
                    assert(r.spec_segment(j).wf());
                }
            }
            if self.wf() {
                assert forall|j: int|
                    0 <= j < r.segments@.len() implies (#[trigger] r.spec_segment(j)).wf() by {
                    assert(self.spec_segment(j).wf());
                }
            }
        }
        r
    }
}

impl Default for TraceMetadata {
    /// The default index is empty.
    fn default() -> (r: Self)
        ensures
            r.model() =~= Map::<u128, SegmentModel>::empty(),
            r.wf(),
    {
        TraceMetadata::new()
    }
}

} // verus!
