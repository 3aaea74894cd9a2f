//! Messages exchanged between the router, services and the runtime.
use vstd::prelude::*;
use crate::operation::Operation;
use crate::route::Route;
use crate::service::ServiceRecipients;
use crate::transport::Transport;

verus! {

#[verifier::external_type_specification]
#[verifier::external_body]
pub struct ExInstant(std::time::Instant);

/// Relies on `std::time::Instant::now`: the current instant of the monotonic
/// clock. Nothing is promised of its value.
#[verifier::external_body]
pub(crate) fn instant_now() -> (r: std::time::Instant) {
    std::time::Instant::now()
}

/// Asks for the parcels waiting for a route.
pub struct GetMessagesSignal {
    pub send_to: Route,
}

/// Asks whether a route is known.
pub struct HasRouteSignal {
    route: Route,
}

/// Registration of a service with its node: the service's name and
/// transport, the operations it serves and the message types it consumes.
pub struct RegisterServiceInNodeSignal {
    pub transport: Transport,
    pub name: String,
    pub operations: Vec<Operation>,
    pub consume_messages: Vec<String>,
}

/// Liveness probe.
pub struct Heartbeat {}

/// The router's periodic flush trigger, stamped with its creation instant.
pub struct Tick {
    time: std::time::Instant,
}

impl Tick {
    pub fn new() -> (r: Tick) {
        Tick { time: instant_now() }
    }

    pub closed spec fn spec_time(&self) -> std::time::Instant {
        self.time
    }

    pub fn time(&self) -> (r: &std::time::Instant)
        ensures
            *r == self.spec_time(),
    {
        &self.time
    }
}

/// Asks a node for its route.
pub struct GetRoute {}

/// Attaches downstream mailboxes to a running service.
pub struct LinkService {
    pub recipients: ServiceRecipients,
}

} // verus!
