//! Errors of the data layer.
use vstd::prelude::*;

verus! {

/// Errors of the data layer.
#[derive(Debug)]
pub enum DataError {
    /// A storage backend failed; the text says why.
    Storage(String),
    /// A subscriber's channel is closed.
    ChannelClosed,
}

} // verus!
