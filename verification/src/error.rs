//! The error kinds the library reports.

use vstd::prelude::*;

verus! {

/// Every failure the library can report.
///
/// Wire-conversion failures (`MissingDataType` through `IntTruncation`) are
/// terminal for the affected stream; the builder errors
/// (`SchemaTypeMismatch`, `UnknownField`, `DuplicateEvent`, `EventNotFound`)
/// are returned to the producer; the channel errors (`RouterUnavailable`,
/// `SubscriberLagged`) describe a closed or overflowing queue; the text
/// errors (`InvalidFilter`, `InvalidSignalKey`, `UnknownTypeName`) reject
/// malformed input text.
#[derive(Clone, Copy, Debug, PartialEq, Eq, Structural)]
pub enum Error {
    MissingDataType,
    MissingValue,
    MissingMessage,
    MissingOneOf,
    InvalidUuid,
    IntTruncation,
    SchemaTypeMismatch,
    UnknownField,
    DuplicateEvent,
    EventNotFound,
    RouterUnavailable,
    IngressFull,
    SubscriberLagged,
    ConnectFailed,
    StreamEnded,
    Cancelled,
    InvalidFilter,
    InvalidSignalKey,
    UnknownTypeName,
}

impl Error {
    /// A short description of the error, for callers that print it.
    pub fn message(&self) -> (r: &'static str) {
        match self {
            Error::MissingDataType => "missing the data type field",
            Error::MissingValue => "missing the value field",
            Error::MissingMessage => "missing a message value",
            Error::MissingOneOf => "missing a oneof value",
            Error::InvalidUuid => "invalid UUID",
            Error::IntTruncation => "integer out of range",
            Error::SchemaTypeMismatch => "value type does not match the schema field",
            Error::UnknownField => "field not found in schema",
            Error::DuplicateEvent => "event already exists",
            Error::EventNotFound => "event not found",
            Error::RouterUnavailable => "router is no longer running",
            Error::IngressFull => "ingress queue is full",
            Error::SubscriberLagged => "subscriber queue overflowed",
            Error::ConnectFailed => "failed to connect",
            Error::StreamEnded => "stream ended",
            Error::Cancelled => "cancelled",
            Error::InvalidFilter => "could not parse filter",
            Error::InvalidSignalKey => "could not parse signal key",
            Error::UnknownTypeName => "could not convert type",
        }
    }
}

} // verus!
