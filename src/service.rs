//! Per-service state: registration data, linking and inbound forwarding.
use vstd::prelude::*;
use crate::message::Parcel;
use crate::operation::{Operation, OperationView};
use crate::route::{empty_route, Route, RouteView};
use crate::signal::{LinkService, RegisterServiceInNodeSignal};
use crate::transport::{Delivery, DeliveryView, MailboxId, Transport};

verus! {

#[verifier::external_type_specification]
#[verifier::external_body]
pub struct ExNaiveDateTime(chrono::NaiveDateTime);

/// Relies on `chrono::Utc::now` and `DateTime::naive_local`: the current
/// time. Nothing is promised of its value.
#[verifier::external_body]
fn local_now() -> (r: chrono::NaiveDateTime) {
    chrono::Utc::now().naive_local()
}

/// The two mailboxes of a downstream service: ticks and parcels.
#[derive(Clone, Copy, Debug, PartialEq, Eq, Structural)]
pub struct ServiceRecipients {
    pub tick: MailboxId,
    pub parcel: MailboxId,
}

impl ServiceRecipients {
    pub fn new(tick: MailboxId, parcel: MailboxId) -> (r: ServiceRecipients)
        ensures
            r == (ServiceRecipients { tick, parcel }),
    {
        ServiceRecipients { tick, parcel }
    }
}

/// Counters of a service since it started.
#[derive(Debug)]
pub struct ServiceStatistics {
    pub start_time: chrono::NaiveDateTime,
    pub messages_handled: u64,
    pub requests_handled: u64,
    pub messages_per_second: u64,
    pub requests_per_second: u64,
}

impl ServiceStatistics {
    pub fn new() -> (r: ServiceStatistics)
        ensures
            r.messages_handled == 0,
            r.requests_handled == 0,
            r.messages_per_second == 0,
            r.requests_per_second == 0,
    {
        ServiceStatistics {
            start_time: local_now(),
            messages_handled: 0,
            requests_handled: 0,
            messages_per_second: 0,
            requests_per_second: 0,
        }
    }
}

/// The views of a sequence of operations.
pub open spec fn operations_view(s: Seq<Operation>) -> Seq<OperationView> {
    s.map_values(|o: Operation| o@)
}

/// The views of a sequence of strings.
pub open spec fn strings_view(s: Seq<String>) -> Seq<Seq<char>> {
    s.map_values(|x: String| x@)
}

/// The route of a service: only its service name is set.
pub open spec fn service_route(name: Seq<char>) -> RouteView {
    RouteView { service_name: name, ..empty_route() }
}

fn copy_operations(v: &Vec<Operation>) -> (r: Vec<Operation>)
    ensures
        operations_view(r@) == operations_view(v@),
{
    let mut r: Vec<Operation> = Vec::new();
    let mut i: usize = 0;
    while i < v.len()
        invariant
            i <= v.len(),
            r@.len() == i,
            forall|j: int| 0 <= j < i ==> (#[trigger] r@[j])@ == v@[j]@,
        decreases v.len() - i,
    {
        r.push(v[i].clone());
        i = i + 1;
    }
    assert(operations_view(r@) =~= operations_view(v@));
    r
}

fn copy_strings(v: &Vec<String>) -> (r: Vec<String>)
    ensures
        strings_view(r@) == strings_view(v@),
{
    let mut r: Vec<String> = Vec::new();
    let mut i: usize = 0;
    while i < v.len()
        invariant
            i <= v.len(),
            r@.len() == i,
            forall|j: int| 0 <= j < i ==> (#[trigger] r@[j])@ == v@[j]@,
        decreases v.len() - i,
    {
        r.push(v[i].clone());
        i = i + 1;
    }
    assert(strings_view(r@) =~= strings_view(v@));
    r
}

/// A running service's core: its route, what it offers and consumes, the
/// node it registers with, and the downstream mailboxes once linked.
pub struct ServiceCore {
    route: Route,
    operations: Vec<Operation>,
    consume_message_types: Vec<String>,
    statistics: ServiceStatistics,
    node: MailboxId,
    next: Option<MailboxId>,
    recipients: Option<ServiceRecipients>,
}

impl ServiceCore {
    pub closed spec fn route_view(&self) -> RouteView {
        self.route@
    }

    pub closed spec fn operations_view(&self) -> Seq<OperationView> {
        operations_view(self.operations@)
    }

    pub closed spec fn consumed_view(&self) -> Seq<Seq<char>> {
        strings_view(self.consume_message_types@)
    }

    pub closed spec fn node_view(&self) -> MailboxId {
        self.node
    }

    pub closed spec fn next_view(&self) -> Option<MailboxId> {
        self.next
    }

    pub closed spec fn linked(&self) -> Option<ServiceRecipients> {
        self.recipients
    }

    /// An unlinked service named `service_name` that offers and consumes nothing yet.
    pub fn new(service_name: String, node: MailboxId) -> (r: ServiceCore)
        ensures
            r.route_view() == service_route(service_name@),
            r.operations_view() == Seq::<OperationView>::empty(),
            r.consumed_view() == Seq::<Seq<char>>::empty(),
            r.node_view() == node,
            r.next_view() is None,
            r.linked() is None,
    {
        let mut route = Route::new();
        route.set_service_name(service_name);
        let r = ServiceCore {
            route,
            operations: Vec::new(),
            consume_message_types: Vec::new(),
            statistics: ServiceStatistics::new(),
            node,
            next: None,
            recipients: None,
        };
        assert(r.operations_view() =~= Seq::<OperationView>::empty());
        assert(r.consumed_view() =~= Seq::<Seq<char>>::empty());
        r
    }

    pub fn route(&self) -> (r: &Route)
        ensures
            r@ == self.route_view(),
    {
        &self.route
    }

    pub fn add_operation(&mut self, operation: Operation)
        ensures
            final(self).operations_view() == old(self).operations_view().push(operation@),
            final(self).route_view() == old(self).route_view(),
            final(self).consumed_view() == old(self).consumed_view(),
            final(self).node_view() == old(self).node_view(),
            final(self).linked() == old(self).linked(),
    {
        self.operations.push(operation);
        assert(operations_view(self.operations@) =~= operations_view(old(self).operations@).push(
            operation@,
        ));
    }

    pub fn get_operations(&self) -> (r: &Vec<Operation>)
        ensures
            operations_view(r@) == self.operations_view(),
    {
        &self.operations
    }

    pub fn set_consuming_messages_types(&mut self, message_types: Vec<String>)
        ensures
            final(self).consumed_view() == strings_view(message_types@),
            final(self).route_view() == old(self).route_view(),
            final(self).operations_view() == old(self).operations_view(),
            final(self).node_view() == old(self).node_view(),
            final(self).linked() == old(self).linked(),
    {
        self.consume_message_types = message_types;
    }

    pub fn get_consuming_message_types(&self) -> (r: Vec<String>)
        ensures
            strings_view(r@) == self.consumed_view(),
    {
        copy_strings(&self.consume_message_types)
    }

    /// Attaches the downstream mailboxes.
    pub fn recipients(&mut self, recipients: ServiceRecipients)
        ensures
            final(self).linked() == Some(recipients),
            final(self).route_view() == old(self).route_view(),
            final(self).operations_view() == old(self).operations_view(),
            final(self).consumed_view() == old(self).consumed_view(),
            final(self).node_view() == old(self).node_view(),
    {
        self.recipients = Some(recipients);
    }

    /// Handles a link request: the service is linked to its recipients.
    pub fn handle_link(&mut self, msg: LinkService)
        ensures
            final(self).linked() == Some(msg.recipients),
            final(self).route_view() == old(self).route_view(),
            final(self).operations_view() == old(self).operations_view(),
            final(self).consumed_view() == old(self).consumed_view(),
            final(self).node_view() == old(self).node_view(),
    {
        self.recipients(msg.recipients);
    }

    pub fn next(&self) -> (r: Option<MailboxId>)
        ensures
            r == self.next_view(),
    {
        self.next
    }

    pub fn node(&self) -> (r: MailboxId)
        ensures
            r == self.node_view(),
    {
        self.node
    }

    /// Where an inbound parcel goes: unchanged to the linked parcel mailbox,
    /// or back to the node while the service is not linked.
    pub fn handle(&self, msg: Parcel) -> (r: Delivery)
        ensures
            r@ == forward_of(self.linked(), self.node_view(), msg@),
    {
        match self.recipients {
            None => Delivery { mailbox: self.node, parcel: msg },
            Some(recipients) => Delivery { mailbox: recipients.parcel, parcel: msg },
        }
    }

    /// The registration of this service with its node, over `transport`.
    pub fn registration(&self, transport: Transport) -> (r: RegisterServiceInNodeSignal)
        ensures
            r.transport == transport,
            r.name@ == self.route_view().service_name,
            operations_view(r.operations@) == self.operations_view(),
            strings_view(r.consume_messages@) == self.consumed_view(),
    {
        RegisterServiceInNodeSignal {
            transport,
            name: self.route.service_name().clone(),
            operations: copy_operations(&self.operations),
            consume_messages: copy_strings(&self.consume_message_types),
        }
    }
}

/// The delivery of an inbound parcel: to the linked parcel mailbox, or to the node.
pub open spec fn forward_of(
    linked: Option<ServiceRecipients>,
    node: MailboxId,
    p: crate::message::ParcelView,
) -> DeliveryView {
    match linked {
        Some(rc) => DeliveryView { mailbox: rc.parcel, parcel: p },
        None => DeliveryView { mailbox: node, parcel: p },
    }
}

} // verus!
