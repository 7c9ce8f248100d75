//! The pluggable state keeper the router feeds, and the default keeper
//! that holds metadata only.

use vstd::prelude::*;

use crate::error::Error;
use crate::ipc;
use crate::metadata::{segs_as_map, spec_meta_ipc, spec_meta_update, TraceMetadata};
use crate::segment::SegmentModel;

verus! {

/// What the router keeps state in: every ingress message is offered to
/// the store, and a new subscriber is seeded with the store's metadata
/// serialization.  Richer stores may persist events too; they must still
/// keep the segment metadata this trait's contracts demand: the replay
/// stream reconstructs the model, and an absorbed message advances the
/// model by the merge rules while a failed one leaves it unchanged.
pub trait Store: Sized {
    /// The store's own well-formedness; the router preserves it.
    spec fn inv(&self) -> bool;

    /// The segment metadata this store keeps, in insertion order.
    spec fn model(&self) -> Seq<SegmentModel>;

    /// The replay stream: a message sequence whose models serialize this
    /// store's metadata.
    fn metadata_as_ipc(&self) -> (r: Result<Vec<ipc::IpcMessageWithId>, Error>)
        requires
            self.inv(),
        ensures
            r matches Ok(v) ==> v@.map_values(
                |m: ipc::IpcMessageWithId| crate::metadata::msg_with_id_model(m@),
            ) =~= spec_meta_ipc(self.model()),
    ;

    /// Absorbs one routed message: on success the metadata advances by
    /// the merge rules, on failure it stands unchanged.
    fn update(&mut self, msg: &ipc::IpcMessageWithId) -> (r: Result<(), Error>)
        requires
            old(self).inv(),
        ensures
            final(self).inv(),
            r is Ok ==> segs_as_map(final(self).model()) =~= spec_meta_update(
                segs_as_map(old(self).model()),
                msg@,
            ),
            r is Err ==> final(self).model() == old(self).model(),
    ;
}

/// The default store: it keeps segment metadata and nothing else.
#[derive(Debug)]
pub struct MetadataOnlyStore {
    metadata: TraceMetadata,
}

impl MetadataOnlyStore {
    /// The index this store keeps.
    pub closed spec fn spec_metadata(&self) -> TraceMetadata {
        self.metadata
    }

    /// An empty metadata-only store.
    pub fn new() -> (r: Self)
        ensures
            r.inv(),
            r.model() =~= Seq::<SegmentModel>::empty(),
    {
        MetadataOnlyStore { metadata: TraceMetadata::new() }
    }
}

impl Store for MetadataOnlyStore {
    open spec fn inv(&self) -> bool {
        self.spec_metadata().wf()
    }

    open spec fn model(&self) -> Seq<SegmentModel> {
        self.spec_metadata().seq_model()
    }

    /// The replay stream is the metadata index's serialization; it never
    /// fails.
    fn metadata_as_ipc(&self) -> (r: Result<Vec<ipc::IpcMessageWithId>, Error>)
        ensures
            r matches Ok(v) && v@.map_values(
                |m: ipc::IpcMessageWithId| crate::metadata::msg_with_id_model(m@),
            ) =~= spec_meta_ipc(self.model()),
    {
        Ok(self.metadata.as_ipc())
    }

    /// Updating merges the message into the metadata index; it never
    /// fails.
    fn update(&mut self, msg: &ipc::IpcMessageWithId) -> (r: Result<(), Error>)
        ensures
            r is Ok,
            segs_as_map(final(self).model()) =~= spec_meta_update(
                segs_as_map(old(self).model()),
                msg@,
            ),
    {
        self.metadata.update(msg);
        Ok(())
    }
}

impl Default for MetadataOnlyStore {
    /// The default store is empty.
    fn default() -> (r: Self)
        ensures
            r.inv(),
            r.model() =~= Seq::<SegmentModel>::empty(),
    {
        MetadataOnlyStore::new()
    }
}

} // verus!
