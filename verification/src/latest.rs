//! Snapshot rows for "latest value" consumers.

use vstd::prelude::*;

verus! {

/// One signal's latest value, rendered as text.
#[derive(Debug)]
pub struct SignalValue {
    pub full_name: String,
    pub signal: String,
    pub value: String,
}

impl Clone for SignalValue {
    /// A clone preserves every field.
    fn clone(&self) -> (r: Self)
        ensures
            r.full_name@ == self.full_name@,
            r.signal@ == self.signal@,
            r.value@ == self.value@,
    {
        SignalValue {
            full_name: self.full_name.clone(),
            signal: self.signal.clone(),
            value: self.value.clone(),
        }
    }
}

/// The latest data point of one message: its timestamp and the rendered
/// values of its signals.
#[derive(Debug)]
pub struct LatestSignalData {
    pub message: String,
    pub timestamp: i64,
    pub values: Vec<SignalValue>,
}

} // verus!
