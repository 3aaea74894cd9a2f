//! Failures of the routing core.
use vstd::prelude::*;

verus! {

/// The kinds of failure: a poisoned buffer lock, a topology miss, a library
/// that does not open, a library without the constructor symbol, a failed
/// registration round trip, a send refused by a closed mailbox.
#[derive(Debug, Clone, Copy, PartialEq, Eq, Structural)]
pub enum Error {
    LockFailure,
    RouteNotFound,
    PluginLoadFailure,
    SymbolNotFound,
    RegistrationFailure,
    DeliveryFailure,
}

} // verus!
