//! A pub/sub fabric for structured, schema-described telemetry events.
//!
//! Producing sources register event schemas and emit typed field/value
//! records tagged with a segment identity and a nanosecond timestamp.  A
//! single-writer router merges every local producer stream, keeps derived
//! segment metadata, and fans messages out to filtered subscriber sinks.

pub mod channel;
pub mod data_type;
pub mod error;
pub mod filter;
pub mod ipc;
pub mod latest;
pub mod laws;
pub mod metadata;
pub mod publish;
pub mod router;
pub mod segment;
pub mod segment_id;
pub mod signal;
pub mod signal_key;
pub mod sink;
pub mod source;
pub mod store;
pub mod subscribe;
pub mod text;
pub mod time;
pub mod value;
pub mod wire;

pub use data_type::DataType;
pub use error::Error;
pub use latest::{LatestSignalData, SignalValue};
pub use metadata::TraceMetadata;
pub use publish::{ConnectionStatus, TracePublishClientConfig};
pub use router::TraceRouter;
pub use signal::Signal;
pub use signal_key::{PathSegment, SignalKey};
pub use sink::TraceSink;
pub use source::TraceSource;
pub use store::{MetadataOnlyStore, Store};
pub use time::now_time_ns;
pub use value::Value;
