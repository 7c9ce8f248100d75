//! The publish protocol's decisions: client configuration, batching, the
//! reconnect discipline, and the server-side forwarding of pushed batches
//! with its heartbeat status.
//!
//! The transport itself (connecting, streaming, timers) lives outside the
//! library; callers drive these decisions from their own loops.

use vstd::prelude::*;

use crate::channel::channel_send;
use crate::error::Error;
use crate::ipc;
use crate::wire;

verus! {

/// How many messages a publish client batches before sending.
pub const DEFAULT_BATCH_SIZE: usize = 1000;

/// How long a partial batch waits before it is sent anyway, in
/// milliseconds.
pub const DEFAULT_BATCH_TIMEOUT_MS: u64 = 100;

/// The least time between connection attempts, in milliseconds.
pub const DEFAULT_RECONNECT_DELAY_MS: u64 = 1000;

/// Where a publish client connects when not told otherwise.
pub const DEFAULT_URL: &'static str = "grpc://localhost:2300";

/// Where a publish client stands with its server.
#[derive(Debug, Clone, Copy, PartialEq, Eq, Structural, Hash)]
pub enum ConnectionStatus {
    Disconnected,
    Connecting,
    Connected,
    Error,
}

/// What the connection loop observed last.
#[derive(Debug, Clone, Copy, PartialEq, Eq, Structural)]
pub enum ConnectionEvent {
    /// A new connection attempt began.
    Attempting,
    /// The publish stream was established.
    StreamEstablished,
    /// The connection attempt or the stream failed.
    StreamFailed,
    /// The stream closed normally.
    StreamClosed,
}

/// The status each connection event moves the client to: an attempt means
/// connecting, an established stream connected, a failure the error
/// state, and a normal close disconnected.
pub open spec fn spec_next_status(e: ConnectionEvent) -> ConnectionStatus {
    match e {
        ConnectionEvent::Attempting => ConnectionStatus::Connecting,
        ConnectionEvent::StreamEstablished => ConnectionStatus::Connected,
        ConnectionEvent::StreamFailed => ConnectionStatus::Error,
        ConnectionEvent::StreamClosed => ConnectionStatus::Disconnected,
    }
}

/// The status a connection event moves the client to.
pub fn next_connection_status(e: ConnectionEvent) -> (r: ConnectionStatus)
    ensures
        r == spec_next_status(e),
{
    match e {
        ConnectionEvent::Attempting => ConnectionStatus::Connecting,
        ConnectionEvent::StreamEstablished => ConnectionStatus::Connected,
        ConnectionEvent::StreamFailed => ConnectionStatus::Error,
        ConnectionEvent::StreamClosed => ConnectionStatus::Disconnected,
    }
}

/// A publish client's knobs.
#[derive(Debug)]
pub struct TracePublishClientConfig {
    /// The endpoint to push to.
    pub url: String,
    /// How many messages to batch together in one request.
    pub batch_size: usize,
    /// How long a partial batch may wait before it is sent, in
    /// milliseconds.
    pub batch_timeout_ms: u64,
    /// The least time between connection attempts, in milliseconds.
    pub reconnect_delay_ms: u64,
}

impl TracePublishClientConfig {
    /// The default knobs with a caller-supplied endpoint.
    pub fn new_with_url(url: String) -> (r: Self)
        ensures
            r.url@ == url@,
            r.batch_size == DEFAULT_BATCH_SIZE,
            r.batch_timeout_ms == DEFAULT_BATCH_TIMEOUT_MS,
            r.reconnect_delay_ms == DEFAULT_RECONNECT_DELAY_MS,
    {
        TracePublishClientConfig {
            url,
            batch_size: DEFAULT_BATCH_SIZE,
            batch_timeout_ms: DEFAULT_BATCH_TIMEOUT_MS,
            reconnect_delay_ms: DEFAULT_RECONNECT_DELAY_MS,
        }
    }
}

impl Clone for TracePublishClientConfig {
    /// A clone preserves every knob.
    fn clone(&self) -> (r: Self)
        ensures
            r.url@ == self.url@,
            r.batch_size == self.batch_size,
            r.batch_timeout_ms == self.batch_timeout_ms,
            r.reconnect_delay_ms == self.reconnect_delay_ms,
    {
        TracePublishClientConfig {
            url: self.url.clone(),
            batch_size: self.batch_size,
            batch_timeout_ms: self.batch_timeout_ms,
            reconnect_delay_ms: self.reconnect_delay_ms,
        }
    }
}

impl Default for TracePublishClientConfig {
    /// The default knobs and the default endpoint.
    fn default() -> (r: Self)
        ensures
            r.url@ == DEFAULT_URL@,
            r.batch_size == DEFAULT_BATCH_SIZE,
            r.batch_timeout_ms == DEFAULT_BATCH_TIMEOUT_MS,
            r.reconnect_delay_ms == DEFAULT_RECONNECT_DELAY_MS,
    {
        TracePublishClientConfig::new_with_url(DEFAULT_URL.to_owned())
    }
}

/// How long to sleep before the next connection attempt: the remainder of
/// the reconnect delay, or nothing when the last attempt already took
/// longer.
pub fn reconnect_wait_ms(config: &TracePublishClientConfig, elapsed_ms: u64) -> (r: u64)
    ensures
        r == if elapsed_ms < config.reconnect_delay_ms {
            config.reconnect_delay_ms - elapsed_ms
        } else {
            0
        },
{
    if elapsed_ms < config.reconnect_delay_ms {
        config.reconnect_delay_ms - elapsed_ms
    } else {
        0
    }
}

/// Accumulates outgoing messages until the batch size is reached; the
/// caller's timer flushes partial batches with [`MessageBatcher::take`].
pub struct MessageBatcher {
    batch_size: usize,
    buf: Vec<ipc::IpcMessageWithId>,
}

impl MessageBatcher {
    /// The messages waiting in the current partial batch.
    pub closed spec fn buffered(&self) -> Seq<ipc::IpcMessageWithId> {
        self.buf@
    }

    /// The batch size this batcher fills to.
    pub closed spec fn spec_batch_size(&self) -> usize {
        self.batch_size
    }

    /// An empty batcher; a batch size of zero sends every message alone.
    pub fn new(batch_size: usize) -> (r: MessageBatcher)
        ensures
            r.buffered() =~= Seq::<ipc::IpcMessageWithId>::empty(),
            r.spec_batch_size() == batch_size,
    {
        MessageBatcher { batch_size, buf: Vec::new() }
    }

    /// Adds one message; when that fills the batch, the full batch comes
    /// back and the buffer starts over.
    pub fn push(&mut self, msg: ipc::IpcMessageWithId) -> (r: Option<Vec<ipc::IpcMessageWithId>>)
        ensures
            final(self).spec_batch_size() == old(self).spec_batch_size(),
            match r {
                Some(batch) => {
                    &&& batch@ == old(self).buffered().push(msg)
                    &&& batch@.len() >= old(self).spec_batch_size()
                    &&& final(self).buffered() =~= Seq::<ipc::IpcMessageWithId>::empty()
                },
                None => {
                    &&& final(self).buffered() == old(self).buffered().push(msg)
                    &&& final(self).buffered().len() < old(self).spec_batch_size()
                },
            },
    {
        self.buf.push(msg);
        if self.buf.len() >= self.batch_size {
            let mut out: Vec<ipc::IpcMessageWithId> = Vec::new();
            std_swap_vec(&mut out, &mut self.buf);
            Some(out)
        } else {
            None
        }
    }

    /// Takes whatever is buffered, leaving the batcher empty; the
    /// caller's batch timer drives this.
    pub fn take(&mut self) -> (r: Vec<ipc::IpcMessageWithId>)
        ensures
            final(self).spec_batch_size() == old(self).spec_batch_size(),
            r@ == old(self).buffered(),
            final(self).buffered() =~= Seq::<ipc::IpcMessageWithId>::empty(),
    {
        let mut out: Vec<ipc::IpcMessageWithId> = Vec::new();
        std_swap_vec(&mut out, &mut self.buf);
        out
    }
}

/// Relies on `core::mem::swap`: the two vectors exchange contents.
#[verifier::external_body]
fn std_swap_vec(
    a: &mut Vec<ipc::IpcMessageWithId>,
    b: &mut Vec<ipc::IpcMessageWithId>,
)
    ensures
        final(a)@ == old(b)@,
        final(b)@ == old(a)@,
{
    core::mem::swap(a, b)
}

/// Encodes a batch of routed records as one publish request.
pub fn make_publish_request(msgs: &Vec<ipc::IpcMessageWithId>) -> (r: wire::PublishRequest)
    ensures
        r.trace_messages@.len() == msgs@.len(),
        forall|i: int|
            0 <= i < msgs@.len() ==> {
                &&& (#[trigger] r.trace_messages@[i])@.segment_id.len() == 16
                &&& crate::segment_id::be_val(r.trace_messages@[i]@.segment_id) == msgs@[
                    i
                ]@.segment_id
                &&& r.trace_messages@[i]@.source_name == msgs@[i]@.source_name
                &&& r.trace_messages@[i]@.msg == Some(wire::spec_msg_to_wire(msgs@[i]@.msg))
            },
{
    let mut trace_messages: Vec<wire::TraceMessage> = Vec::new();
    let n: usize = msgs.len();
    let mut i: usize = 0;
    while i < n
        invariant
            0 <= i <= n,
            n == msgs@.len(),
            trace_messages@.len() == i,
            forall|j: int|
                0 <= j < i ==> {
                    &&& (#[trigger] trace_messages@[j])@.segment_id.len() == 16
                    &&& crate::segment_id::be_val(trace_messages@[j]@.segment_id) == msgs@[
                        j
                    ]@.segment_id
                    &&& trace_messages@[j]@.source_name == msgs@[j]@.source_name
                    &&& trace_messages@[j]@.msg == Some(wire::spec_msg_to_wire(msgs@[j]@.msg))
                },
        decreases n - i,
    {
        trace_messages.push(wire::ipc_to_wire(&msgs[i]));
        i = i + 1;
    }
    wire::PublishRequest { trace_messages }
}

/// Decodes every record of a pushed batch and forwards it to the router's
/// ingress queue.  A record that does not decode is stream-fatal; a
/// failed forward means the router is gone.  On success the count of
/// forwarded messages comes back.
pub fn forward_request_messages(
    req: wire::PublishRequest,
    sender: &flume::Sender<ipc::IpcMessageWithId>,
) -> (r: Result<usize, Error>)
    ensures
        match r {
            Ok(count) => {
                &&& count == req.trace_messages@.len()
                &&& forall|i: int|
                    0 <= i < req.trace_messages@.len() ==> wire::spec_wire_msg_ok(
                        (#[trigger] req.trace_messages@[i])@,
                    )
            },
            Err(e) => e == Error::RouterUnavailable || exists|i: int|
                {
                    &&& 0 <= i < req.trace_messages@.len()
                    &&& !wire::spec_wire_msg_ok((#[trigger] req.trace_messages@[i])@)
                    &&& wire::spec_wire_msg_err(req.trace_messages@[i]@, e)
                },
        },
{
    let n: usize = req.trace_messages.len();
    let mut i: usize = 0;
    while i < n
        invariant
            0 <= i <= n,
            n == req.trace_messages@.len(),
            forall|j: int|
                0 <= j < i ==> wire::spec_wire_msg_ok((#[trigger] req.trace_messages@[j])@),
        decreases n - i,
    {
        let msg = match wire::wire_to_ipc(&req.trace_messages[i]) {
            Ok(m) => m,
            Err(e) => {
                proof {
                    let wi = i as int;
                    assert(!wire::spec_wire_msg_ok(req.trace_messages@[wi]@));
                    assert(wire::spec_wire_msg_err(req.trace_messages@[wi]@, e));
                }
                return Err(e);
            }
        };
        match channel_send(sender, msg) {
            Ok(_) => {}
            Err(_) => {
                return Err(Error::RouterUnavailable);
            }
        }
        i = i + 1;
    }
    Ok(n)
}

/// The heartbeat a publish server sends about once a second: the running
/// message count as both total and successful, no failures, no error
/// text.  It is a liveness signal, not accounting: a conversion failure
/// ends the stream instead of counting here.
pub fn heartbeat_status(msg_count: u64) -> (r: wire::PublishStatus)
    ensures
        r.total_messages == msg_count,
        r.successful_messages == msg_count,
        r.failed_messages == 0,
        r.last_error@ =~= Seq::<char>::empty(),
{
    let last_error = String::new();
    wire::PublishStatus {
        total_messages: msg_count,
        successful_messages: msg_count,
        failed_messages: 0,
        last_error,
    }
}

} // verus!
