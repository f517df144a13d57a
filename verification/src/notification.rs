//! The error vocabulary of the notification sinks that consume node-status
//! changes.

use vstd::prelude::*;

verus! {

/// Why a notification sink failed to deliver.
#[derive(Clone, Copy, Debug, PartialEq, Eq, Structural)]
pub enum SinkError {
    PublicationError,
}

} // verus!
