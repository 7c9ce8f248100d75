//! Subscriber-side state: the two sink flavours the router fans out to,
//! and the shared filter list a subscription handle edits.

use std::sync::Arc;

use vstd::prelude::*;
use vstd::rwlock::RwLock;

use crate::channel::{channel_bounded, channel_send, channel_try_send, TrySendOutcome};
use crate::error::Error;
use crate::filter::{spec_matches, Filter, FilterView};
use crate::ipc;
use crate::router::DEFAULT_CHANNEL_SIZE;

verus! {

/// The predicate of the filter-list lock: the list carries no invariant.
pub struct FiltersAny;

impl vstd::rwlock::RwLockPredicate<Vec<Filter>> for FiltersAny {
    open spec fn inv(self, v: Vec<Filter>) -> bool {
        true
    }
}

/// The lock around a sink's filter list.
pub type FilterLock = RwLock<Vec<Filter>, FiltersAny>;

/// Whether any filter of the list admits the message.
pub open spec fn spec_should_deliver(filters: Seq<FilterView>, m: ipc::MessageView) -> bool {
    exists|i: int| 0 <= i < filters.len() && spec_matches(filters[i], m)
}

/// Whether any filter of the list admits the message.
pub fn any_filter_matches(filters: &Vec<Filter>, msg: &ipc::IpcMessageWithId) -> (r: bool)
    ensures
        r == spec_should_deliver(filters@.map_values(|f: Filter| f@), msg@),
{
    let ghost views = filters@.map_values(|f: Filter| f@);
    let n: usize = filters.len();
    let mut i: usize = 0;
    while i < n
        invariant
            0 <= i <= n,
            n == filters@.len(),
            views == filters@.map_values(|f: Filter| f@),
            forall|j: int| 0 <= j < i ==> !spec_matches(views[j], msg@),
        decreases n - i,
    {
        if filters[i].matches(msg) {
            proof {
                assert(spec_matches(views[i as int], msg@));
            }
            return true;
        }
        i = i + 1;
    }
    false
}

/// The list with one filter appended.
fn filters_with(mut filters: Vec<Filter>, f: Filter) -> (r: Vec<Filter>)
    ensures
        r@.map_values(|x: Filter| x@) =~= filters@.map_values(|x: Filter| x@).push(f@),
{
    let ghost pre = filters@;
    filters.push(f);
    proof {
        assert(filters@.map_values(|x: Filter| x@) =~= pre.map_values(|x: Filter| x@).push(
            filters@.last()@,
        ));
    }
    filters
}

/// The list with every filter structurally equal to `f` removed.
fn filters_without(filters: Vec<Filter>, f: &Filter) -> (r: Vec<Filter>)
    ensures
        r@.map_values(|x: Filter| x@) =~= filters@.map_values(|x: Filter| x@).filter(
            |v: FilterView| v != f@,
        ),
{
    let ghost views = filters@.map_values(|x: Filter| x@);
    let mut out: Vec<Filter> = Vec::new();
    let n: usize = filters.len();
    let mut i: usize = 0;
    while i < n
        invariant
            0 <= i <= n,
            n == filters@.len(),
            views == filters@.map_values(|x: Filter| x@),
            out@.map_values(|x: Filter| x@) =~= views.take(i as int).filter(
                |v: FilterView| v != f@,
            ),
        decreases n - i,
    {
        let ghost pre = out@.map_values(|x: Filter| x@);
        let keep: bool = !filters[i].eq(f);
        if keep {
            let c = filters[i].clone();
            out.push(c);
        }
        proof {
            assert(views.take(i + 1).drop_last() =~= views.take(i as int));
            assert(views.take(i + 1).last() == views[i as int]);
            reveal_with_fuel(Seq::filter, 2);
            if keep {
                assert(out@.map_values(|x: Filter| x@) =~= pre.push(views[i as int]));
            }
            assert(out@.map_values(|x: Filter| x@) =~= views.take(i + 1).filter(
                |v: FilterView| v != f@,
            ));
        }
        i = i + 1;
    }
    proof {
        assert(views.take(n as int) =~= views);
    }
    out
}

/// A handle the router fans out to: either a blocking sink that receives
/// everything and applies backpressure, or a filtered sink that never
/// blocks the router and drops messages its queue cannot take.
pub enum SinkHandle {
    AllBlocking { sender: flume::Sender<ipc::IpcMessageWithId> },
    Filtered { sender: flume::Sender<ipc::IpcMessageWithId>, filters: Arc<FilterLock> },
}

impl SinkHandle {
    /// A blocking sink and the receiving end of its queue.
    pub fn new_all_blocking() -> (r: (SinkHandle, flume::Receiver<ipc::IpcMessageWithId>)) {
        let (sender, receiver) = channel_bounded(DEFAULT_CHANNEL_SIZE);
        (SinkHandle::AllBlocking { sender }, receiver)
    }

    /// Delivers one message to this sink.
    ///
    /// A blocking sink waits for room and fails only when its receiver is
    /// gone.  A filtered sink first decides delivery from a snapshot of
    /// its filter list — exactly [`spec_should_deliver`] — then enqueues
    /// without blocking: a full queue drops the message and reports the
    /// lagging subscriber, a closed one fails so the router evicts the
    /// sink.
    pub fn send(&self, msg: &ipc::IpcMessageWithId) -> (r: Result<(), Error>)
        ensures
            match r {
                Ok(u) => u == (),
                Err(e) => e == Error::StreamEnded || e == Error::SubscriberLagged,
            },
            self is AllBlocking ==> (r matches Err(e) ==> e == Error::StreamEnded),
    {
        match self {
            SinkHandle::AllBlocking { sender } => {
                match channel_send(sender, msg.clone()) {
                    Ok(_) => Ok(()),
                    Err(_) => Err(Error::StreamEnded),
                }
            }
            SinkHandle::Filtered { sender, filters } => {
                let read_handle = filters.acquire_read();
                let deliver: bool = any_filter_matches(read_handle.borrow(), msg);
                read_handle.release_read();
                if deliver {
                    match channel_try_send(sender, msg.clone()) {
                        TrySendOutcome::Sent => Ok(()),
                        TrySendOutcome::Full(_) => Err(Error::SubscriberLagged),
                        TrySendOutcome::Disconnected(_) => Err(Error::StreamEnded),
                    }
                } else {
                    Ok(())
                }
            }
        }
    }
}

/// The subscriber's half of a filtered sink: the shared filter list, which
/// [`TraceSink::subscribe`] and [`TraceSink::unsubscribe`] edit while the
/// router reads it on every fanout.
pub struct TraceSink {
    filters: Arc<FilterLock>,
}

impl TraceSink {
    /// A filtered sink: the subscriber's handle, the receiving end of its
    /// queue, and the router-side handle, sharing one filter list that
    /// starts empty.
    pub fn new() -> (r: (TraceSink, flume::Receiver<ipc::IpcMessageWithId>, SinkHandle)) {
        let (sender, receiver) = channel_bounded(DEFAULT_CHANNEL_SIZE);
        let lock: FilterLock = RwLock::new(Vec::new(), Ghost(FiltersAny));
        let filters = Arc::new(lock);
        let handle = SinkHandle::Filtered { sender, filters: Arc::clone(&filters) };
        (TraceSink { filters }, receiver, handle)
    }

    /// Appends `filter` to this sink's filter list.
    pub fn subscribe(&self, filter: Filter) {
        let (current, write_handle) = self.filters.acquire_write();
        let updated = filters_with(current, filter);
        write_handle.release_write(updated);
    }

    /// Removes every filter structurally equal to `filter` from this
    /// sink's filter list.
    pub fn unsubscribe(&self, filter: Filter) {
        let (current, write_handle) = self.filters.acquire_write();
        let updated = filters_without(current, &filter);
        write_handle.release_write(updated);
    }
}

/// Over any message sequence, a filter's deliveries are exactly the
/// subsequence of messages it admits, in their original order.
pub open spec fn spec_sink_stream(msgs: Seq<ipc::MessageView>, f: FilterView) -> Seq<
    ipc::MessageView,
> {
    msgs.filter(|m: ipc::MessageView| spec_matches(f, m))
}

/// The filtered stream keeps exactly the admitted messages: every element
/// of it is an admitted message of the input, and dropping a message from
/// the stream means the filter rejected it.
pub proof fn lemma_sink_stream_exact(msgs: Seq<ipc::MessageView>, f: FilterView)
    ensures
        forall|i: int|
            0 <= i < spec_sink_stream(msgs, f).len() ==> spec_matches(
                f,
                #[trigger] spec_sink_stream(msgs, f)[i],
            ) && msgs.contains(spec_sink_stream(msgs, f)[i]),
        forall|i: int|
            0 <= i < msgs.len() && spec_matches(f, #[trigger] msgs[i]) ==> spec_sink_stream(
                msgs,
                f,
            ).contains(msgs[i]),
    decreases msgs.len(),
{
    reveal_with_fuel(Seq::filter, 2);
    if msgs.len() > 0 {
        let d = msgs.drop_last();
        lemma_sink_stream_exact(d, f);
        assert forall|i: int|
            0 <= i < spec_sink_stream(msgs, f).len() implies spec_matches(
            f,
            #[trigger] spec_sink_stream(msgs, f)[i],
        ) && msgs.contains(spec_sink_stream(msgs, f)[i]) by {
            if i < spec_sink_stream(d, f).len() {
                assert(spec_sink_stream(d, f)[i] == spec_sink_stream(msgs, f)[i]);
                let w = choose|k: int| 0 <= k < d.len() && d[k] == spec_sink_stream(d, f)[i];
                assert(msgs[w] == spec_sink_stream(msgs, f)[i]);
            } else {
                assert(spec_sink_stream(msgs, f)[i] == msgs.last());
                assert(msgs[msgs.len() - 1] == spec_sink_stream(msgs, f)[i]);
            }
        }
        assert forall|i: int|
            0 <= i < msgs.len() && spec_matches(f, #[trigger] msgs[i]) implies spec_sink_stream(
            msgs,
            f,
        ).contains(msgs[i]) by {
            if i < msgs.len() - 1 {
                assert(d[i] == msgs[i]);
                assert(spec_sink_stream(d, f).contains(msgs[i]));
                let w = choose|k: int|
                    0 <= k < spec_sink_stream(d, f).len() && spec_sink_stream(d, f)[k] == msgs[i];
                assert(spec_sink_stream(msgs, f)[w] == msgs[i]);
            } else {
                assert(spec_sink_stream(msgs, f).last() == msgs[i]);
            }
        }
    }
}

} // verus!
