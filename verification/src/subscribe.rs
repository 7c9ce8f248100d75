//! The subscribe protocol's decisions: command construction on the
//! client, and filter handling plus batch encoding on the server.

use vstd::prelude::*;

use crate::error::Error;
use crate::filter::{spec_parse, Filter, FilterView};
use crate::ipc;
use crate::sink::TraceSink;
use crate::wire;

verus! {

/// How many messages a subscribe server batches into one response.
pub const SUBSCRIBE_CHUNK_SIZE: usize = 1024;

/// How long a partial response batch waits before it is sent anyway, in
/// milliseconds.
pub const SUBSCRIBE_CHUNK_TIMEOUT_MS: u64 = 10;

/// The filter a command's text denotes: absent text means the filter that
/// matches everything.
pub fn filter_from_text(filter: Option<&str>) -> (r: Result<Filter, Error>)
    ensures
        match filter {
            None => r matches Ok(f) && f@ == (FilterView {
                segment_id: None,
                source_name: None,
                event_name: None,
            }),
            Some(s) => match r {
                Ok(f) => spec_parse(s@) == Ok::<FilterView, Error>(f@),
                Err(e) => spec_parse(s@) == Err::<FilterView, Error>(e),
            },
        },
{
    match filter {
        Some(s) => Filter::parse(s),
        None => Ok(Filter::any()),
    }
}

/// Applies one subscriber command to a sink's filter list: a subscribe
/// adds the denoted filter, an unsubscribe removes it, and text that does
/// not parse is ignored, as a broken command must not tear the stream
/// down.
pub fn handle_command(sink: &TraceSink, cmd: &wire::SubscribeCmd) {
    match cmd {
        wire::SubscribeCmd::Subscribe(sub) => {
            let parsed = match &sub.filter {
                Some(f) => filter_from_text(Some(f.as_str())),
                None => filter_from_text(None),
            };
            match parsed {
                Ok(f) => sink.subscribe(f),
                Err(_) => {}
            }
        }
        wire::SubscribeCmd::Unsubscribe(unsub) => {
            let parsed = match &unsub.filter {
                Some(f) => filter_from_text(Some(f.as_str())),
                None => filter_from_text(None),
            };
            match parsed {
                Ok(f) => sink.unsubscribe(f),
                Err(_) => {}
            }
        }
    }
}

/// A subscribe command with the given filter text and start time.
pub fn subscribe_request(filter: Option<String>, start_time: Option<i64>) -> (r:
    wire::SubscribeRequest)
    ensures
        r.cmd matches Some(wire::SubscribeCmd::Subscribe(c)) && {
            &&& match (c.filter, filter) {
                (Some(a), Some(b)) => a@ == b@,
                (None, None) => true,
                _ => false,
            }
            &&& c.start_time == start_time
        },
{
    wire::SubscribeRequest {
        cmd: Some(
            wire::SubscribeCmd::Subscribe(wire::SubscribeCommand { filter, start_time }),
        ),
    }
}

/// An unsubscribe command with the given filter text.
pub fn unsubscribe_request(filter: Option<String>) -> (r: wire::SubscribeRequest)
    ensures
        r.cmd matches Some(wire::SubscribeCmd::Unsubscribe(c)) && match (c.filter, filter) {
            (Some(a), Some(b)) => a@ == b@,
            (None, None) => true,
            _ => false,
        },
{
    wire::SubscribeRequest {
        cmd: Some(wire::SubscribeCmd::Unsubscribe(wire::UnsubscribeCommand { filter })),
    }
}

/// Encodes a batch of routed records as one subscribe response.
pub fn make_response(msgs: &Vec<ipc::IpcMessageWithId>) -> (r: wire::SubscribeResponse)
    ensures
        r.msg matches Some(wire::SubscribeResponseMsg::TraceMessageBatch(b)) && {
            &&& b.messages@.len() == msgs@.len()
            &&& forall|i: int|
                0 <= i < msgs@.len() ==> {
                    &&& (#[trigger] b.messages@[i])@.segment_id.len() == 16
                    &&& crate::segment_id::be_val(b.messages@[i]@.segment_id) == msgs@[
                        i
                    ]@.segment_id
                    &&& b.messages@[i]@.source_name == msgs@[i]@.source_name
                    &&& b.messages@[i]@.msg == Some(wire::spec_msg_to_wire(msgs@[i]@.msg))
                }
        },
{
    let mut messages: Vec<wire::TraceMessage> = Vec::new();
    let n: usize = msgs.len();
    let mut i: usize = 0;
    while i < n
        invariant
            0 <= i <= n,
            n == msgs@.len(),
            messages@.len() == i,
            forall|j: int|
                0 <= j < i ==> {
                    &&& (#[trigger] messages@[j])@.segment_id.len() == 16
                    &&& crate::segment_id::be_val(messages@[j]@.segment_id) == msgs@[
                        j
                    ]@.segment_id
                    &&& messages@[j]@.source_name == msgs@[j]@.source_name
                    &&& messages@[j]@.msg == Some(wire::spec_msg_to_wire(msgs@[j]@.msg))
                },
        decreases n - i,
    {
        messages.push(wire::ipc_to_wire(&msgs[i]));
        i = i + 1;
    }
    wire::SubscribeResponse::from_ipc(messages)
}

} // verus!
