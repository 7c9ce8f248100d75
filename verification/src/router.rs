//! The single-writer router: it merges every local producer stream,
//! offers each message to the store, and fans it out to every attached
//! sink, evicting sinks whose receivers are gone.

use vstd::prelude::*;

use crate::channel::{channel_bounded, channel_drain, channel_send};
use crate::error::Error;
use crate::ipc;
use crate::metadata::{segs_as_map, spec_meta_update};
use crate::sink::{SinkHandle, TraceSink};
use crate::store::{MetadataOnlyStore, Store};

verus! {

/// How many messages the ingress queue holds before producers block.
pub const DEFAULT_CHANNEL_SIZE: usize = 1024;

/// A request to attach a sink: the router adds the handle and answers
/// with the store's replay stream.
pub struct SubscriptionRequest {
    pub handle: SinkHandle,
    pub reply: flume::Sender<Result<Vec<ipc::IpcMessageWithId>, Error>>,
}

/// What the router's control queue carries: subscription requests and the
/// shutdown signal.
pub enum RouterControl {
    Subscribe(SubscriptionRequest),
    Cancel,
}

/// What woke the router: one of the two queues delivered, or one of them
/// closed.
pub enum RouterWake {
    Message(ipc::IpcMessageWithId),
    MessagesClosed,
    Control(RouterControl),
    ControlClosed,
}

/// Reads a message-queue result as a wake event.
pub fn wake_from_message(r: Result<ipc::IpcMessageWithId, flume::RecvError>) -> (res: RouterWake)
    ensures
        match res {
            RouterWake::Message(m) => r matches Ok(rm) && rm == m,
            RouterWake::MessagesClosed => r is Err,
            _ => false,
        },
{
    match r {
        Ok(m) => RouterWake::Message(m),
        Err(_) => RouterWake::MessagesClosed,
    }
}

/// Reads a control-queue result as a wake event.
pub fn wake_from_control(r: Result<RouterControl, flume::RecvError>) -> (res: RouterWake)
    ensures
        match res {
            RouterWake::Control(c) => r matches Ok(rc) && rc == c,
            RouterWake::ControlClosed => r is Err,
            _ => false,
        },
{
    match r {
        Ok(c) => RouterWake::Control(c),
        Err(_) => RouterWake::ControlClosed,
    }
}

/// Relies on `flume::Selector`: blocks until either queue has an outcome
/// and maps it through the verified readers above; which queue wins when
/// both are ready is the selector's choice.
#[verifier::external_body]
fn wait_any(
    msgs: &flume::Receiver<ipc::IpcMessageWithId>,
    control: &flume::Receiver<RouterControl>,
) -> (r: RouterWake) {
    flume::Selector::new()
        .recv(control, |r| wake_from_control(r))
        .recv(msgs, |r| wake_from_message(r))
        .wait()
}

/// The task half of a router: the queues the router loop reads and the
/// store it feeds.
pub struct RouterTask<S: Store> {
    store: S,
    msgs: flume::Receiver<ipc::IpcMessageWithId>,
    control: flume::Receiver<RouterControl>,
}

/// The pub/sub router's handle: producers clone its sender, subscribers
/// attach through its control queue.
pub struct TraceRouter {
    sender: flume::Sender<ipc::IpcMessageWithId>,
    control_sender: flume::Sender<RouterControl>,
}

/// Whether `kept` holds some of `from`'s sinks, each one unmoved
/// relative to the others: there is a strictly increasing index map from
/// `kept` into `from`.
pub open spec fn spec_kept_in_order(kept: Seq<SinkHandle>, from: Seq<SinkHandle>) -> bool {
    exists|m: Seq<int>|
        {
            &&& m.len() == kept.len()
            &&& forall|k: int| 0 <= k < m.len() ==> 0 <= #[trigger] m[k] < from.len()
            &&& forall|k: int| 0 <= k < m.len() ==> kept[k] == from[#[trigger] m[k]]
            &&& forall|k1: int, k2: int| 0 <= k1 < k2 < m.len() ==> m[k1] < m[k2]
        }
}

/// Offers a message to the store and fans it out to every sink in list
/// order, removing the sinks whose queues are gone.  The store either
/// absorbs the message by the merge rules or — on an error, which is
/// swallowed — stands unchanged; the surviving sinks are the old list
/// with some sinks dropped and the order kept.
fn forward_message<S: Store>(
    store: &mut S,
    sinks: &mut Vec<SinkHandle>,
    msg: &ipc::IpcMessageWithId,
)
    requires
        old(store).inv(),
    ensures
        final(store).inv(),
        segs_as_map(final(store).model()) =~= spec_meta_update(
            segs_as_map(old(store).model()),
            msg@,
        ) || final(store).model() == old(store).model(),
        spec_kept_in_order(final(sinks)@, old(sinks)@),
        final(sinks)@.len() <= old(sinks)@.len(),
{
    match store.update(msg) {
        Ok(_) => {}
        Err(_) => {}
    }
    let mut closed_sinks: Vec<usize> = Vec::new();
    let n: usize = sinks.len();
    let mut i: usize = 0;
    while i < n
        invariant
            0 <= i <= n,
            n == sinks@.len(),
            sinks@ == old(sinks)@,
            forall|j: int| 0 <= j < closed_sinks@.len() ==> #[trigger] closed_sinks@[j] < i,
            forall|j: int, k: int|
                0 <= j < k < closed_sinks@.len() ==> #[trigger] closed_sinks@[j]
                    < #[trigger] closed_sinks@[k],
        decreases n - i,
    {
        match sinks[i].send(msg) {
            Ok(_) => {}
            Err(Error::StreamEnded) => {
                // The counterpart receiver is gone: evict this sink.
                closed_sinks.push(i);
            }
            Err(_) => {
                // A lagging filtered sink dropped the message; it stays.
            }
        }
        i = i + 1;
    }
    // Remove the closed sinks from the highest index down, so the lower
    // indices stay valid.  The ghost index map witnesses that the
    // survivors keep their order.
    let ghost mut kept: Seq<int> = Seq::new(sinks@.len() as nat, |k: int| k);
    while closed_sinks.len() > 0
        invariant
            kept.len() == sinks@.len(),
            forall|k: int| 0 <= k < kept.len() ==> 0 <= #[trigger] kept[k] < old(sinks)@.len(),
            forall|k: int| 0 <= k < kept.len() ==> sinks@[k] == old(sinks)@[#[trigger] kept[k]],
            forall|k1: int, k2: int| 0 <= k1 < k2 < kept.len() ==> kept[k1] < kept[k2],
        decreases closed_sinks@.len(),
    {
        let idx = match closed_sinks.pop() {
            Some(idx) => idx,
            None => {
                proof {
                    assert(spec_kept_in_order(sinks@, old(sinks)@));
                    lemma_kept_len(kept, sinks@, old(sinks)@);
                }
                return ;
            }
        };
        if idx < sinks.len() {
            let ghost pre = sinks@;
            sinks.remove(idx);
            proof {
                kept = kept.remove(idx as int);
                assert forall|k: int|
                    0 <= k < kept.len() implies sinks@[k] == old(sinks)@[#[trigger] kept[k]] by {
                    if k < idx {
                        assert(sinks@[k] == pre[k]);
                    } else {
                        assert(sinks@[k] == pre[k + 1]);
                    }
                }
            }
        }
    }
    proof {
        assert(spec_kept_in_order(sinks@, old(sinks)@));
        lemma_kept_len(kept, sinks@, old(sinks)@);
    }
}

/// A strictly increasing index map bounds the kept list by the source
/// list.
proof fn lemma_kept_len(m: Seq<int>, kept: Seq<SinkHandle>, from: Seq<SinkHandle>)
    requires
        m.len() == kept.len(),
        forall|k: int| 0 <= k < m.len() ==> 0 <= #[trigger] m[k] < from.len(),
        forall|k1: int, k2: int| 0 <= k1 < k2 < m.len() ==> m[k1] < m[k2],
    ensures
        kept.len() <= from.len(),
    decreases m.len(),
{
    if m.len() > 0 {
        assert(0 <= m[m.len() - 1] < from.len());
        let d = m.drop_last();
        assert(forall|k: int| 0 <= k < d.len() ==> #[trigger] d[k] == m[k]);
        assert forall|k: int| 0 <= k < d.len() implies 0 <= #[trigger] d[k] < from.len() - 1 by {
            assert(m[k] < m[m.len() - 1]);
        }
        lemma_kept_len(d, kept.drop_last(), from.drop_last());
        assert(kept.drop_last().len() <= from.drop_last().len());
    }
}

/// Attaches the request's own sink handle at the end of the sink list
/// and answers with the store's replay stream; the subscriber prepends
/// that replay to its live stream.
fn handle_subscribe<S: Store>(store: &S, sinks: &mut Vec<SinkHandle>, req: SubscriptionRequest)
    requires
        store.inv(),
    ensures
        final(sinks)@ == old(sinks)@.push(req.handle),
{
    let SubscriptionRequest { handle, reply } = req;
    sinks.push(handle);
    let metadata = store.metadata_as_ipc();
    match channel_send(&reply, metadata) {
        Ok(_) => {}
        Err(_) => {
            // The subscriber gave up before the replay arrived; it will be
            // evicted on the first failed send.
        }
    }
}

impl<S: Store> RouterTask<S> {
    /// Whether the task's store is well formed.
    pub closed spec fn store_inv(&self) -> bool {
        self.store.inv()
    }

    /// One iteration of the router loop: waits on the ingress and
    /// control queues with fair selection, then dispatches.  A
    /// subscription attaches a sink and replays metadata; a message
    /// updates the store and fans out; cancellation drains the ingress
    /// queue, forwards what it held, and stops.  The loop also stops when
    /// a queue closes: a closed control queue is a normal shutdown, a
    /// closed ingress queue reports the router unavailable.
    ///
    /// The caller runs this in a loop of its own until it returns a
    /// final result.
    pub fn step(&mut self, sinks: &mut Vec<SinkHandle>) -> (r: Option<Result<(), Error>>)
        requires
            old(self).store_inv(),
        ensures
            final(self).store_inv(),
            final(sinks)@.len() <= old(sinks)@.len() + 1,
            r matches Some(Err(e)) ==> e == Error::RouterUnavailable,
    {
        match wait_any(&self.msgs, &self.control) {
            RouterWake::Control(RouterControl::Subscribe(req)) => {
                handle_subscribe(&self.store, sinks, req);
                None
            }
            RouterWake::Control(RouterControl::Cancel) => {
                let remaining = channel_drain(&self.msgs);
                let n: usize = remaining.len();
                let mut i: usize = 0;
                while i < n
                    invariant
                        0 <= i <= n,
                        n == remaining@.len(),
                        self.store.inv(),
                        sinks@.len() <= old(sinks)@.len(),
                    decreases n - i,
                {
                    forward_message(&mut self.store, sinks, &remaining[i]);
                    i = i + 1;
                }
                Some(Ok(()))
            }
            RouterWake::ControlClosed => Some(Ok(())),
            RouterWake::Message(msg) => {
                forward_message(&mut self.store, sinks, &msg);
                None
            }
            RouterWake::MessagesClosed => Some(Err(Error::RouterUnavailable)),
        }
    }
}

impl TraceRouter {
    /// A router over the default metadata-only store, and the task that
    /// runs its loop.
    pub fn new() -> (r: (TraceRouter, RouterTask<MetadataOnlyStore>))
        ensures
            r.1.store_inv(),
    {
        TraceRouter::new_with_store(MetadataOnlyStore::new())
    }

    /// A router over a specific store, and the task that runs its loop.
    pub fn new_with_store<S: Store>(store: S) -> (r: (TraceRouter, RouterTask<S>))
        requires
            store.inv(),
        ensures
            r.1.store_inv(),
    {
        let (sender, msgs) = channel_bounded(DEFAULT_CHANNEL_SIZE);
        let (control_sender, control) = channel_bounded(1);
        (TraceRouter { sender, control_sender }, RouterTask { store, msgs, control })
    }

    /// A producer-side handle to the ingress queue.
    pub fn sender(&self) -> flume::Sender<ipc::IpcMessageWithId> {
        self.sender.clone()
    }

    /// Asks the router loop to drain its ingress queue and stop.
    pub fn cancel(&self) -> (r: Result<(), Error>)
        ensures
            r matches Err(e) ==> e == Error::RouterUnavailable,
    {
        match channel_send(&self.control_sender, RouterControl::Cancel) {
            Ok(_) => Ok(()),
            Err(_) => Err(Error::RouterUnavailable),
        }
    }

    /// Begins attaching a blocking sink without waiting for the router:
    /// the replay arrives later on the returned reply queue, once the
    /// router processes the request.
    pub fn subscribe_all_blocking_request(&self) -> (r: Result<
        (
            flume::Receiver<ipc::IpcMessageWithId>,
            flume::Receiver<Result<Vec<ipc::IpcMessageWithId>, Error>>,
        ),
        Error,
    >)
        ensures
            r matches Err(e) ==> e == Error::RouterUnavailable,
    {
        let (handle, receiver) = SinkHandle::new_all_blocking();
        let (reply, reply_receiver) = channel_bounded(1);
        let req = SubscriptionRequest { handle, reply };
        match channel_send(&self.control_sender, RouterControl::Subscribe(req)) {
            Ok(_) => Ok((receiver, reply_receiver)),
            Err(_) => Err(Error::RouterUnavailable),
        }
    }

    /// Begins attaching a filtered sink without waiting for the router:
    /// the replay arrives later on the returned reply queue, once the
    /// router processes the request.
    pub fn subscribe_request(&self) -> (r: Result<
        (
            TraceSink,
            flume::Receiver<ipc::IpcMessageWithId>,
            flume::Receiver<Result<Vec<ipc::IpcMessageWithId>, Error>>,
        ),
        Error,
    >)
        ensures
            r matches Err(e) ==> e == Error::RouterUnavailable,
    {
        let (sink, receiver, handle) = TraceSink::new();
        let (reply, reply_receiver) = channel_bounded(1);
        let req = SubscriptionRequest { handle, reply };
        match channel_send(&self.control_sender, RouterControl::Subscribe(req)) {
            Ok(_) => Ok((sink, receiver, reply_receiver)),
            Err(_) => Err(Error::RouterUnavailable),
        }
    }

    /// Attaches a blocking sink that receives every message and applies
    /// backpressure, returning its queue and the metadata replay that
    /// precedes every live message.
    pub fn subscribe_all_blocking(&self) -> (r: Result<
        (flume::Receiver<ipc::IpcMessageWithId>, Vec<ipc::IpcMessageWithId>),
        Error,
    >) {
        let (handle, receiver) = SinkHandle::new_all_blocking();
        let (reply, reply_receiver) = channel_bounded(1);
        let req = SubscriptionRequest { handle, reply };
        match channel_send(&self.control_sender, RouterControl::Subscribe(req)) {
            Ok(_) => {}
            Err(_) => {
                return Err(Error::RouterUnavailable);
            }
        }
        match crate::channel::channel_recv(&reply_receiver) {
            Some(Ok(metadata)) => Ok((receiver, metadata)),
            Some(Err(e)) => Err(e),
            None => Err(Error::StreamEnded),
        }
    }

    /// Attaches a filtered sink, returning the subscriber handle that
    /// edits its filters, its queue, and the metadata replay.
    pub fn subscribe(&self) -> (r: Result<
        (TraceSink, flume::Receiver<ipc::IpcMessageWithId>, Vec<ipc::IpcMessageWithId>),
        Error,
    >) {
        let (sink, receiver, handle) = TraceSink::new();
        let (reply, reply_receiver) = channel_bounded(1);
        let req = SubscriptionRequest { handle, reply };
        match channel_send(&self.control_sender, RouterControl::Subscribe(req)) {
            Ok(_) => {}
            Err(_) => {
                return Err(Error::RouterUnavailable);
            }
        }
        match crate::channel::channel_recv(&reply_receiver) {
            Some(Ok(metadata)) => Ok((sink, receiver, metadata)),
            Some(Err(e)) => Err(e),
            None => Err(Error::StreamEnded),
        }
    }
}

} // verus!
