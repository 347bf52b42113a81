//! The error that the library reports to its callers.

use vstd::prelude::*;

verus! {

/// Why a request was turned down before any work was done.
#[derive(Debug, Clone, Copy, PartialEq, Eq, Structural)]
pub enum MissionError {
    /// A parameter of the request is outside what the operation is defined
    /// for: no agents, a swath, step or speed that is not positive, or a
    /// rectangle whose bounds are the wrong way round.
    InvalidConfiguration,
}

} // verus!
