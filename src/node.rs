//! The per-node router: registration, the pending buffer and its periodic flush.
use vstd::prelude::*;
use crate::message::{Parcel, ParcelView};
use crate::route::{
    consumer_text, empty_route, route_text, target_text, Route, RouteView, Target, TargetView,
};
use crate::service::{operations_view, strings_view};
use crate::signal::{Heartbeat, RegisterServiceInNodeSignal, Tick};
use crate::topology::{subscribed, Topology};
use crate::transport::{Delivery, DeliveryView, Transport};
use crate::operation::OperationView;

verus! {

/// The views of a sequence of parcels.
pub open spec fn parcels_view(s: Seq<Parcel>) -> Seq<ParcelView> {
    s.map_values(|p: Parcel| p@)
}

/// The views of a sequence of deliveries.
pub open spec fn deliveries_view(s: Seq<Delivery>) -> Seq<DeliveryView> {
    s.map_values(|d: Delivery| d@)
}

/// Route-table key of a service named `name`.
pub open spec fn service_key(name: Seq<char>) -> Seq<char> {
    route_text(RouteView { service_name: name, ..empty_route() })
}

/// Route-table key of an operation named `name`.
pub open spec fn operation_key(name: Seq<char>) -> Seq<char> {
    route_text(RouteView { operation_name: name, ..empty_route() })
}

/// The route table after every operation of `names` is pointed at `t`.
pub open spec fn with_operations(
    m: Map<Seq<char>, Transport>,
    names: Seq<Seq<char>>,
    t: Transport,
) -> Map<Seq<char>, Transport>
    decreases names.len(),
{
    if names.len() == 0 {
        m
    } else {
        with_operations(m, names.drop_last(), t).insert(operation_key(names.last()), t)
    }
}

/// The subscriber table after `t` subscribes to every message type of `types`.
pub open spec fn with_subscriptions(
    m: Map<Seq<char>, Seq<Transport>>,
    types: Seq<Seq<char>>,
    t: Transport,
) -> Map<Seq<char>, Seq<Transport>>
    decreases types.len(),
{
    if types.len() == 0 {
        m
    } else {
        subscribed(with_subscriptions(m, types.drop_last(), t), consumer_text(types.last()), t)
    }
}

/// The names of a sequence of operations.
pub open spec fn operation_names(ops: Seq<OperationView>) -> Seq<Seq<char>> {
    ops.map_values(|o: OperationView| o.name)
}

/// The route table after a service registers: its own route and the route of
/// each of its operations point at its transport.
pub open spec fn registered_routes(
    m: Map<Seq<char>, Transport>,
    name: Seq<char>,
    ops: Seq<OperationView>,
    t: Transport,
) -> Map<Seq<char>, Transport> {
    with_operations(m.insert(service_key(name), t), operation_names(ops), t)
}

/// A pending buffer: targets in order of first arrival, each with its parcels.
pub type PendingView = Seq<(TargetView, Seq<ParcelView>)>;

/// The buffer after `p` arrives: appended to the entry of its target, or in a
/// new entry where the target has none.
pub open spec fn buffered(pending: PendingView, p: ParcelView) -> PendingView {
    let t = p.route_sheet.target;
    if exists|i: int| 0 <= i < pending.len() && (#[trigger] pending[i]).0 == t {
        let i = choose|i: int| 0 <= i < pending.len() && (#[trigger] pending[i]).0 == t;
        pending.update(i, (t, pending[i].1.push(p)))
    } else {
        pending.push((t, seq![p]))
    }
}

/// A buffer whose entries have distinct targets, each parcel of an entry
/// addressed to that entry's target.
pub open spec fn pending_wf(pending: PendingView) -> bool {
    &&& forall|i: int, j: int|
        0 <= i < j < pending.len() ==> (#[trigger] pending[i]).0 != (#[trigger] pending[j]).0
    &&& forall|i: int, k: int|
        0 <= i < pending.len() && 0 <= k < pending[i].1.len() ==> (#[trigger] pending[i].1[k]).route_sheet.target
            == pending[i].0
}

/// The parcels that the buffer holds for `t`: those of its entry, or none.
pub open spec fn parcels_for(pending: PendingView, t: TargetView) -> Seq<ParcelView>
    decreases pending.len(),
{
    if pending.len() == 0 {
        Seq::empty()
    } else if pending.last().0 == t {
        pending.last().1
    } else {
        parcels_for(pending.drop_last(), t)
    }
}

/// The deliveries of parcels addressed to `t`, in order.
pub open spec fn deliveries_to(ds: Seq<DeliveryView>, t: TargetView) -> Seq<DeliveryView>
    decreases ds.len(),
{
    if ds.len() == 0 {
        Seq::empty()
    } else if ds.last().parcel.route_sheet.target == t {
        deliveries_to(ds.drop_last(), t).push(ds.last())
    } else {
        deliveries_to(ds.drop_last(), t)
    }
}

/// The transports that a target resolves to, if any: the one transport of a
/// route, or the subscribers of a consumer type.
pub open spec fn destinations(
    routes: Map<Seq<char>, Transport>,
    consumers: Map<Seq<char>, Seq<Transport>>,
    t: TargetView,
) -> Option<Seq<Transport>> {
    match t {
        TargetView::Route(r) => if routes.contains_key(route_text(r)) {
            Some(seq![routes[route_text(r)]])
        } else {
            None
        },
        TargetView::Consumer(_) => if consumers.contains_key(target_text(t)) {
            Some(consumers[target_text(t)])
        } else {
            None
        },
    }
}

/// Each parcel in order, each to every transport of `dests` in order.
pub open spec fn fan_out(parcels: Seq<ParcelView>, dests: Seq<Transport>) -> Seq<DeliveryView>
    decreases parcels.len(),
{
    if parcels.len() == 0 {
        Seq::empty()
    } else {
        fan_out(parcels.drop_last(), dests) + dests.map_values(
            |d: Transport| DeliveryView { mailbox: d.spec_target(), parcel: parcels.last() },
        )
    }
}

/// Whether a tick flushes this entry: it holds parcels and its target resolves.
pub open spec fn flushes(
    routes: Map<Seq<char>, Transport>,
    consumers: Map<Seq<char>, Seq<Transport>>,
    e: (TargetView, Seq<ParcelView>),
) -> bool {
    e.1.len() > 0 && destinations(routes, consumers, e.0) is Some
}

/// What a tick delivers from one entry.
pub open spec fn entry_deliveries(
    routes: Map<Seq<char>, Transport>,
    consumers: Map<Seq<char>, Seq<Transport>>,
    e: (TargetView, Seq<ParcelView>),
) -> Seq<DeliveryView> {
    if flushes(routes, consumers, e) {
        fan_out(e.1, destinations(routes, consumers, e.0).unwrap())
    } else {
        Seq::empty()
    }
}

/// One entry after a tick: drained where it was delivered, else untouched.
pub open spec fn flushed(
    routes: Map<Seq<char>, Transport>,
    consumers: Map<Seq<char>, Seq<Transport>>,
    e: (TargetView, Seq<ParcelView>),
) -> (TargetView, Seq<ParcelView>) {
    if flushes(routes, consumers, e) {
        (e.0, Seq::empty())
    } else {
        e
    }
}

/// The buffer after a tick.
pub open spec fn flushed_all(
    routes: Map<Seq<char>, Transport>,
    consumers: Map<Seq<char>, Seq<Transport>>,
    pending: PendingView,
) -> PendingView {
    pending.map_values(|e: (TargetView, Seq<ParcelView>)| flushed(routes, consumers, e))
}

/// What a tick delivers, entry by entry in buffer order.
pub open spec fn tick_deliveries(
    routes: Map<Seq<char>, Transport>,
    consumers: Map<Seq<char>, Seq<Transport>>,
    pending: PendingView,
) -> Seq<DeliveryView>
    decreases pending.len(),
{
    if pending.len() == 0 {
        Seq::empty()
    } else {
        tick_deliveries(routes, consumers, pending.drop_last()) + entry_deliveries(
            routes,
            consumers,
            pending.last(),
        )
    }
}

/// The buffer after `n` ticks over an unchanged topology.
pub open spec fn ticked(
    routes: Map<Seq<char>, Transport>,
    consumers: Map<Seq<char>, Seq<Transport>>,
    pending: PendingView,
    n: nat,
) -> PendingView
    decreases n,
{
    if n == 0 {
        pending
    } else {
        flushed_all(routes, consumers, ticked(routes, consumers, pending, (n - 1) as nat))
    }
}

/// Appends the deliveries of each parcel, in order, to each transport of `dests`.
fn fan_out_into(out: &mut Vec<Delivery>, parcels: &Vec<Parcel>, dests: &Vec<Transport>)
    ensures
        deliveries_view(final(out)@) == deliveries_view(old(out)@) + fan_out(
            parcels_view(parcels@),
            dests@,
        ),
{
    let ghost pv = parcels_view(parcels@);
    let mut k: usize = 0;
    while k < parcels.len()
        invariant
            k <= parcels@.len(),
            pv == parcels_view(parcels@),
            deliveries_view(out@) == deliveries_view(old(out)@) + fan_out(
                pv.subrange(0, k as int),
                dests@,
            ),
        decreases parcels@.len() - k,
    {
        let ghost mid = out@;
        let ghost p = parcels@[k as int]@;
        let mut m: usize = 0;
        while m < dests.len()
            invariant
                m <= dests@.len(),
                k < parcels@.len(),
                p == parcels@[k as int]@,
                deliveries_view(out@) == deliveries_view(mid) + dests@.subrange(0, m as int).map_values(
                    |d: Transport| DeliveryView { mailbox: d.spec_target(), parcel: p },
                ),
            decreases dests@.len() - m,
        {
            let ghost prev = out@;
            let d = dests[m].send_parcel(parcels[k].clone());
            out.push(d);
            proof {
                assert(deliveries_view(out@) =~= deliveries_view(prev).push(d@));
                assert(dests@.subrange(0, m + 1).map_values(
                    |d: Transport| DeliveryView { mailbox: d.spec_target(), parcel: p },
                ) =~= dests@.subrange(0, m as int).map_values(
                    |d: Transport| DeliveryView { mailbox: d.spec_target(), parcel: p },
                ).push(DeliveryView { mailbox: dests@[m as int].spec_target(), parcel: p }));
            }
            m = m + 1;
        }
        proof {
            assert(pv.subrange(0, k + 1).drop_last() =~= pv.subrange(0, k as int));
            assert(pv.subrange(0, k + 1).last() == p);
            assert(dests@.subrange(0, m as int) =~= dests@);
        }
        k = k + 1;
    }
    assert(pv.subrange(0, k as int) =~= pv);
}

/// What a node receives: a registration, a parcel, a liveness probe or its
/// periodic tick.
pub enum NodeInput {
    Register(RegisterServiceInNodeSignal),
    Parcel(Parcel),
    Heartbeat(Heartbeat),
    Tick(Tick),
}

/// Router of one node: its route, its topology and the parcels that wait for
/// a destination.
pub struct Node {
    route: Route,
    topology: Topology,
    pending: Vec<(Target, Vec<Parcel>)>,
}

impl Node {
    pub closed spec fn route_view(&self) -> RouteView {
        self.route@
    }

    pub closed spec fn routes(&self) -> Map<Seq<char>, Transport> {
        self.topology.routes()
    }

    pub closed spec fn consumers(&self) -> Map<Seq<char>, Seq<Transport>> {
        self.topology.consumers()
    }

    /// The pending buffer.
    pub closed spec fn pending(&self) -> PendingView {
        self.pending@.map_values(
            |e: (Target, Vec<Parcel>)| (e.0@, parcels_view(e.1@)),
        )
    }

    pub closed spec fn wf(&self) -> bool {
        &&& self.topology.wf()
        &&& forall|i: int, j: int|
            0 <= i < j < self.pending@.len() ==> (#[trigger] self.pending@[i]).0@
                != (#[trigger] self.pending@[j]).0@
        &&& pending_wf(self.pending())
    }

    /// The buffer of a well-formed node has distinct targets, and every
    /// buffered parcel is addressed to the target of its entry.
    pub proof fn lemma_pending_wf(&self)
        requires
            self.wf(),
        ensures
            pending_wf(self.pending()),
    {
    }

    /// A node named `node_name` with an empty topology and an empty buffer.
    pub fn new(node_name: String) -> (r: Node)
        ensures
            r.wf(),
            r.route_view() == (RouteView { node_name: node_name@, ..empty_route() }),
            r.routes() == Map::<Seq<char>, Transport>::empty(),
            r.consumers() == Map::<Seq<char>, Seq<Transport>>::empty(),
            r.pending() == Seq::<(TargetView, Seq<ParcelView>)>::empty(),
    {
        let mut route = Route::new();
        route.set_node_name(node_name);
        let r = Node { route, topology: Topology::new(), pending: Vec::new() };
        assert(r.pending() =~= Seq::<(TargetView, Seq<ParcelView>)>::empty());
        r
    }

    pub fn route(&self) -> (r: &Route)
        ensures
            r@ == self.route_view(),
    {
        &self.route
    }

    /// Registers a service: its route and the route of each of its operations
    /// point at its transport (replacing earlier entries), and the transport
    /// subscribes to each consumed message type (duplicates kept).
    pub fn register_service(&mut self, msg: RegisterServiceInNodeSignal)
        requires
            old(self).wf(),
        ensures
            final(self).wf(),
            final(self).routes() == registered_routes(
                old(self).routes(),
                msg.name@,
                operations_view(msg.operations@),
                msg.transport,
            ),
            final(self).consumers() == with_subscriptions(
                old(self).consumers(),
                strings_view(msg.consume_messages@),
                msg.transport,
            ),
            final(self).pending() == old(self).pending(),
            final(self).route_view() == old(self).route_view(),
    {
        let transport = msg.transport;
        let mut service = Route::new();
        service.set_service_name(msg.name);
        self.topology.add_target_transport(Target::Route(service), transport);
        let ghost base = self.topology.routes();
        let ghost names = operation_names(operations_view(msg.operations@));
        let mut i: usize = 0;
        while i < msg.operations.len()
            invariant
                self.wf(),
                i <= msg.operations@.len(),
                names.len() == msg.operations@.len(),
                forall|j: int| 0 <= j < names.len() ==> names[j] == (#[trigger] msg.operations@[j])@.name,
                self.topology.routes() == with_operations(base, names.subrange(0, i as int), transport),
                self.topology.consumers() == old(self).consumers(),
                self.pending@ == old(self).pending@,
                self.route == old(self).route,
            decreases msg.operations@.len() - i,
        {
            let mut op_route = Route::new();
            op_route.set_operation_name(msg.operations[i].name().clone());
            self.topology.add_target_transport(Target::Route(op_route), transport);
            assert(names.subrange(0, i + 1).drop_last() =~= names.subrange(0, i as int));
            i = i + 1;
        }
        assert(names.subrange(0, i as int) =~= names);
        let ghost types = strings_view(msg.consume_messages@);
        let mut k: usize = 0;
        while k < msg.consume_messages.len()
            invariant
                self.wf(),
                k <= msg.consume_messages@.len(),
                types.len() == msg.consume_messages@.len(),
                forall|j: int| 0 <= j < types.len() ==> types[j] == (#[trigger] msg.consume_messages@[j])@,
                self.topology.consumers() == with_subscriptions(
                    old(self).consumers(),
                    types.subrange(0, k as int),
                    transport,
                ),
                self.topology.routes() == registered_routes(
                    old(self).routes(),
                    msg.name@,
                    operations_view(msg.operations@),
                    transport,
                ),
                self.pending@ == old(self).pending@,
                self.route == old(self).route,
            decreases msg.consume_messages@.len() - k,
        {
            let consumer = Target::Consumer(msg.consume_messages[k].clone());
            self.topology.add_subscriber(consumer.as_string(), transport);
            assert(types.subrange(0, k + 1).drop_last() =~= types.subrange(0, k as int));
            k = k + 1;
        }
        assert(types.subrange(0, k as int) =~= types);
    }

    /// Buffers `parcel` under its target until a tick flushes it.
    pub fn accept_parcel(&mut self, parcel: Parcel)
        requires
            old(self).wf(),
        ensures
            final(self).wf(),
            final(self).pending() == buffered(old(self).pending(), parcel@),
            final(self).routes() == old(self).routes(),
            final(self).consumers() == old(self).consumers(),
            final(self).route_view() == old(self).route_view(),
    {
        let ghost p = parcel@;
        let ghost t = p.route_sheet.target;
        let ghost pend = self.pending();
        let mut i: usize = 0;
        while i < self.pending.len()
            invariant
                self.wf(),
                i <= self.pending@.len(),
                self.pending@ == old(self).pending@,
                self.topology == old(self).topology,
                self.route == old(self).route,
                pend == self.pending(),
                parcel@ == p,
                t == p.route_sheet.target,
                forall|j: int| 0 <= j < i ==> (#[trigger] self.pending@[j]).0@ != t,
            decreases self.pending@.len() - i,
        {
            let pt = parcel.target();
            let same = self.pending[i].0.same_as(pt);
            assert(pend[i as int] == (self.pending@[i as int].0@, parcels_view(
                self.pending@[i as int].1@,
            )));
            if same {
                let target = self.pending[i].0.clone();
                let mut parcels = self.take_parcels(i);
                let ghost before = parcels@;
                parcels.push(parcel);
                proof {
                    assert(parcels_view(parcels@) =~= parcels_view(before).push(p));
                }
                self.pending.set(i, (target, parcels));
                proof {
                    assert(forall|j: int| 0 <= j < pend.len() && pend[j].0 == t ==> j == i);
                    let c = choose|c: int| 0 <= c < pend.len() && (#[trigger] pend[c]).0 == t;
                    assert(c == i);
                    assert(self.pending() =~= pend.update(i as int, (t, pend[i as int].1.push(p))));
                }
                return;
            }
            i = i + 1;
        }
        let target = parcel.target().clone();
        let mut parcels: Vec<Parcel> = Vec::new();
        parcels.push(parcel);
        self.pending.push((target, parcels));
        proof {
            assert(!exists|j: int| 0 <= j < pend.len() && (#[trigger] pend[j]).0 == t);
            assert(parcels_view(self.pending@.last().1@) =~= seq![p]);
            assert(self.pending() =~= buffered(pend, p));
        }
    }

    /// The parcels of entry `i`, copied.
    fn take_parcels(&self, i: usize) -> (r: Vec<Parcel>)
        requires
            i < self.pending@.len(),
        ensures
            parcels_view(r@) == parcels_view(self.pending@[i as int].1@),
    {
        let src = &self.pending[i].1;
        let mut r: Vec<Parcel> = Vec::new();
        let mut k: usize = 0;
        while k < src.len()
            invariant
                k <= src@.len(),
                r@.len() == k,
                forall|j: int| 0 <= j < k ==> (#[trigger] r@[j])@ == src@[j]@,
            decreases src@.len() - k,
        {
            r.push(src[k].clone());
            k = k + 1;
        }
        assert(parcels_view(r@) =~= parcels_view(src@));
        r
    }

    /// The transports that `t` resolves to.
    fn destinations_of(&self, t: &Target) -> (r: Option<Vec<Transport>>)
        requires
            self.wf(),
        ensures
            match destinations(self.routes(), self.consumers(), t@) {
                Some(d) => r matches Some(v) && v@ == d,
                None => r is None,
            },
    {
        match t {
            Target::Route(route) => match self.topology.find_transport_for_route(route) {
                Some(transport) => {
                    let mut v: Vec<Transport> = Vec::new();
                    v.push(transport);
                    assert(v@ =~= seq![transport]);
                    Some(v)
                },
                None => None,
            },
            Target::Consumer(_) => {
                let key = t.as_string();
                match self.topology.find_consumers_for_message(&key) {
                    Some(found) => {
                        let mut v: Vec<Transport> = Vec::new();
                        let mut k: usize = 0;
                        while k < found.len()
                            invariant
                                k <= found@.len(),
                                v@ == found@.subrange(0, k as int),
                            decreases found@.len() - k,
                        {
                            v.push(found[k]);
                            k = k + 1;
                            assert(v@ =~= found@.subrange(0, k as int));
                        }
                        assert(found@.subrange(0, k as int) =~= found@);
                        Some(v)
                    },
                    None => None,
                }
            },
        }
    }

    /// Drains the buffer where it can: every non-empty entry whose target
    /// resolves is delivered, each parcel to each of its transports, and left
    /// empty in place. Entries that do not resolve stay as they are, for the
    /// next tick.
    pub fn tick(&mut self) -> (r: Vec<Delivery>)
        requires
            old(self).wf(),
        ensures
            final(self).wf(),
            final(self).pending() == flushed_all(
                old(self).routes(),
                old(self).consumers(),
                old(self).pending(),
            ),
            deliveries_view(r@) == tick_deliveries(
                old(self).routes(),
                old(self).consumers(),
                old(self).pending(),
            ),
            final(self).routes() == old(self).routes(),
            final(self).consumers() == old(self).consumers(),
            final(self).route_view() == old(self).route_view(),
    {
        let ghost pend = self.pending();
        let ghost routes = self.routes();
        let ghost consumers = self.consumers();
        let mut out: Vec<Delivery> = Vec::new();
        let mut i: usize = 0;
        while i < self.pending.len()
            invariant
                self.wf(),
                self.topology == old(self).topology,
                self.route == old(self).route,
                pend == old(self).pending(),
                routes == old(self).routes(),
                consumers == old(self).consumers(),
                self.pending@.len() == pend.len(),
                i <= pend.len(),
                forall|j: int|
                    0 <= j < pend.len() ==> (#[trigger] self.pending@[j]).0@ == pend[j].0,
                forall|j: int|
                    0 <= j < i ==> (#[trigger] self.pending()[j]) == flushed(
                        routes,
                        consumers,
                        pend[j],
                    ),
                forall|j: int| i <= j < pend.len() ==> (#[trigger] self.pending()[j]) == pend[j],
                deliveries_view(out@) == tick_deliveries(
                    routes,
                    consumers,
                    pend.subrange(0, i as int),
                ),
            decreases pend.len() - i,
        {
            let ghost before = self.pending();
            assert(before[i as int] == pend[i as int]);
            if self.pending[i].1.len() > 0 {
                match self.destinations_of(&self.pending[i].0) {
                    Some(dests) => {
                        fan_out_into(&mut out, &self.pending[i].1, &dests);
                        let target = self.pending[i].0.clone();
                        self.pending.set(i, (target, Vec::new()));
                        proof {
                            assert(parcels_view(self.pending@[i as int].1@) =~= Seq::<
                                ParcelView,
                            >::empty());
                            assert forall|j: int|
                                0 <= j < pend.len() && j != i implies (#[trigger] self.pending()[j])
                                == before[j] by {}
                        }
                    },
                    None => {},
                }
            }
            proof {
                assert(pend.subrange(0, i + 1).drop_last() =~= pend.subrange(0, i as int));
                assert(pend.subrange(0, i + 1).last() == pend[i as int]);
            }
            i = i + 1;
        }
        proof {
            assert(pend.subrange(0, i as int) =~= pend);
            assert(self.pending() =~= flushed_all(routes, consumers, pend));
        }
        out
    }

    /// The node's directory of destinations.
    pub fn topology(&self) -> (r: &Topology)
        requires
            self.wf(),
        ensures
            r.wf(),
            r.routes() == self.routes(),
            r.consumers() == self.consumers(),
    {
        &self.topology
    }

    /// How many parcels wait for `target`.
    pub fn buffered_for(&self, target: &Target) -> (r: usize)
        requires
            self.wf(),
        ensures
            r == parcels_for(self.pending(), target@).len(),
    {
        let ghost pend = self.pending();
        let mut i: usize = 0;
        while i < self.pending.len()
            invariant
                i <= self.pending@.len(),
                pend == self.pending(),
                self.wf(),
                forall|j: int| 0 <= j < i ==> (#[trigger] self.pending@[j]).0@ != target@,
            decreases self.pending@.len() - i,
        {
            assert(pend[i as int] == (self.pending@[i as int].0@, parcels_view(
                self.pending@[i as int].1@,
            )));
            if self.pending[i].0.same_as(target) {
                proof {
                    lemma_parcels_for_entry(pend, target@, i as int);
                }
                return self.pending[i].1.len();
            }
            i = i + 1;
        }
        proof {
            lemma_parcels_for_absent(pend, target@);
        }
        0
    }

    /// Handles one input: a registration updates the topology, a parcel is
    /// buffered, a heartbeat changes nothing, and a tick flushes the buffer.
    /// The result is what to deliver; only a tick delivers anything.
    pub fn handle(&mut self, msg: NodeInput) -> (r: Vec<Delivery>)
        requires
            old(self).wf(),
        ensures
            final(self).wf(),
            final(self).route_view() == old(self).route_view(),
            match msg {
                NodeInput::Register(m) => {
                    &&& final(self).routes() == registered_routes(
                        old(self).routes(),
                        m.name@,
                        operations_view(m.operations@),
                        m.transport,
                    )
                    &&& final(self).consumers() == with_subscriptions(
                        old(self).consumers(),
                        strings_view(m.consume_messages@),
                        m.transport,
                    )
                    &&& final(self).pending() == old(self).pending()
                    &&& r@.len() == 0
                },
                NodeInput::Parcel(p) => {
                    &&& final(self).pending() == buffered(old(self).pending(), p@)
                    &&& final(self).routes() == old(self).routes()
                    &&& final(self).consumers() == old(self).consumers()
                    &&& r@.len() == 0
                },
                NodeInput::Heartbeat(_) => {
                    &&& final(self).pending() == old(self).pending()
                    &&& final(self).routes() == old(self).routes()
                    &&& final(self).consumers() == old(self).consumers()
                    &&& r@.len() == 0
                },
                NodeInput::Tick(_) => {
                    &&& final(self).pending() == flushed_all(
                        old(self).routes(),
                        old(self).consumers(),
                        old(self).pending(),
                    )
                    &&& deliveries_view(r@) == tick_deliveries(
                        old(self).routes(),
                        old(self).consumers(),
                        old(self).pending(),
                    )
                    &&& final(self).routes() == old(self).routes()
                    &&& final(self).consumers() == old(self).consumers()
                },
            },
    {
        match msg {
            NodeInput::Register(m) => {
                self.register_service(m);
                Vec::new()
            },
            NodeInput::Parcel(p) => {
                self.accept_parcel(p);
                Vec::new()
            },
            NodeInput::Heartbeat(h) => {
                self.heartbeat(h);
                Vec::new()
            },
            NodeInput::Tick(_) => self.tick(),
        }
    }

    /// Acknowledges a liveness probe; nothing changes.
    pub fn heartbeat(&self, msg: Heartbeat) {
    }
}

/// Every key that `with_operations` adds, and every key of `base` already at
/// `t`, maps to `t`.
proof fn lemma_with_operations_maps_to(
    base: Map<Seq<char>, Transport>,
    names: Seq<Seq<char>>,
    t: Transport,
)
    ensures
        forall|k: Seq<char>|
            base.contains_key(k) && base[k] == t ==> #[trigger] with_operations(
                base,
                names,
                t,
            ).contains_key(k) && with_operations(base, names, t)[k] == t,
        forall|i: int|
            0 <= i < names.len() ==> with_operations(base, names, t).contains_key(
                operation_key(#[trigger] names[i]),
            ) && with_operations(base, names, t)[operation_key(names[i])] == t,
    decreases names.len(),
{
    if names.len() > 0 {
        lemma_with_operations_maps_to(base, names.drop_last(), t);
        assert forall|i: int| 0 <= i < names.len() - 1 implies names.drop_last()[i] == names[i] by {}
        assert forall|k: Seq<char>| base.contains_key(k) && base[k] == t implies #[trigger] with_operations(
            base,
            names,
            t,
        ).contains_key(k) && with_operations(base, names, t)[k] == t by {
            assert(with_operations(base, names.drop_last(), t).contains_key(k));
        }
    }
}

/// After a service registers, its own route and the route of each of its
/// operations resolve to its transport.
pub proof fn lemma_registered_service_resolves(
    m: Map<Seq<char>, Transport>,
    name: Seq<char>,
    ops: Seq<OperationView>,
    t: Transport,
)
    ensures
        registered_routes(m, name, ops, t).contains_key(service_key(name)),
        registered_routes(m, name, ops, t)[service_key(name)] == t,
        forall|i: int|
            0 <= i < ops.len() ==> registered_routes(m, name, ops, t).contains_key(
                operation_key(#[trigger] ops[i].name),
            ) && registered_routes(m, name, ops, t)[operation_key(ops[i].name)] == t,
{
    let names = operation_names(ops);
    lemma_with_operations_maps_to(m.insert(service_key(name), t), names, t);
    assert forall|i: int| 0 <= i < ops.len() implies names[i] == #[trigger] ops[i].name by {}
}

/// A buffered entry whose target resolves to nothing stays, untouched, across
/// any number of ticks.
pub proof fn lemma_unresolved_entry_stays(
    routes: Map<Seq<char>, Transport>,
    consumers: Map<Seq<char>, Seq<Transport>>,
    pending: PendingView,
    i: int,
    n: nat,
)
    requires
        0 <= i < pending.len(),
        destinations(routes, consumers, pending[i].0) is None,
    ensures
        ticked(routes, consumers, pending, n).len() == pending.len(),
        ticked(routes, consumers, pending, n)[i] == pending[i],
    decreases n,
{
    if n > 0 {
        lemma_unresolved_entry_stays(routes, consumers, pending, i, (n - 1) as nat);
    }
}

/// Fanning parcels out to a single transport delivers each parcel once, in order.
proof fn lemma_fan_out_single(parcels: Seq<ParcelView>, t: Transport)
    ensures
        fan_out(parcels, seq![t]) == parcels.map_values(
            |p: ParcelView| DeliveryView { mailbox: t.spec_target(), parcel: p },
        ),
    decreases parcels.len(),
{
    if parcels.len() > 0 {
        lemma_fan_out_single(parcels.drop_last(), t);
        assert(fan_out(parcels, seq![t]) =~= parcels.map_values(
            |p: ParcelView| DeliveryView { mailbox: t.spec_target(), parcel: p },
        ));
    } else {
        assert(fan_out(parcels, seq![t]) =~= parcels.map_values(
            |p: ParcelView| DeliveryView { mailbox: t.spec_target(), parcel: p },
        ));
    }
}

/// Once the target of a buffered entry resolves to a transport, one tick
/// delivers each of its parcels exactly once, in order, and leaves the entry
/// empty, so that no later tick delivers them again.
pub proof fn lemma_resolved_entry_delivered_once(
    routes: Map<Seq<char>, Transport>,
    consumers: Map<Seq<char>, Seq<Transport>>,
    e: (TargetView, Seq<ParcelView>),
    t: Transport,
)
    requires
        destinations(routes, consumers, e.0) == Some(seq![t]),
    ensures
        entry_deliveries(routes, consumers, e) == e.1.map_values(
            |p: ParcelView| DeliveryView { mailbox: t.spec_target(), parcel: p },
        ),
        flushed(routes, consumers, e).1.len() == 0,
        entry_deliveries(routes, consumers, flushed(routes, consumers, e)).len() == 0,
{
    lemma_fan_out_single(e.1, t);
    if e.1.len() == 0 {
        assert(e.1.map_values(
            |p: ParcelView| DeliveryView { mailbox: t.spec_target(), parcel: p },
        ) =~= Seq::<DeliveryView>::empty());
    }
}

/// A parcel buffered for a service that is not registered waits, untouched,
/// through any number of ticks; once the service registers, the next tick
/// delivers each waiting parcel exactly once, in order, to the service's
/// transport, and empties the entry for good.
pub proof fn lemma_waiting_parcels_delivered_once_after_registration(
    routes: Map<Seq<char>, Transport>,
    consumers: Map<Seq<char>, Seq<Transport>>,
    pending: PendingView,
    i: int,
    n: nat,
    name: Seq<char>,
    ops: Seq<OperationView>,
    types: Seq<Seq<char>>,
    t: Transport,
)
    requires
        0 <= i < pending.len(),
        pending[i].0 == TargetView::Route(RouteView { service_name: name, ..empty_route() }),
        !routes.contains_key(service_key(name)),
    ensures
        ticked(routes, consumers, pending, n)[i] == pending[i],
        entry_deliveries(
            registered_routes(routes, name, ops, t),
            with_subscriptions(consumers, types, t),
            ticked(routes, consumers, pending, n)[i],
        ) == pending[i].1.map_values(
            |p: ParcelView| DeliveryView { mailbox: t.spec_target(), parcel: p },
        ),
        flushed(
            registered_routes(routes, name, ops, t),
            with_subscriptions(consumers, types, t),
            ticked(routes, consumers, pending, n)[i],
        ).1.len() == 0,
{
    lemma_unresolved_entry_stays(routes, consumers, pending, i, n);
    lemma_registered_service_resolves(routes, name, ops, t);
    lemma_resolved_entry_delivered_once(
        registered_routes(routes, name, ops, t),
        with_subscriptions(consumers, types, t),
        pending[i],
        t,
    );
}

/// With distinct targets, the parcels for the target of entry `i` are those of entry `i`.
proof fn lemma_parcels_for_entry(pending: PendingView, t: TargetView, i: int)
    requires
        pending_wf(pending),
        0 <= i < pending.len(),
        pending[i].0 == t,
    ensures
        parcels_for(pending, t) == pending[i].1,
    decreases pending.len(),
{
    if i < pending.len() - 1 {
        assert(pending.last().0 != t);
        lemma_parcels_for_entry(pending.drop_last(), t, i);
    }
}

/// Without an entry for `t`, no parcel waits for `t`.
proof fn lemma_parcels_for_absent(pending: PendingView, t: TargetView)
    requires
        forall|j: int| 0 <= j < pending.len() ==> (#[trigger] pending[j]).0 != t,
    ensures
        parcels_for(pending, t) == Seq::<ParcelView>::empty(),
    decreases pending.len(),
{
    if pending.len() > 0 {
        lemma_parcels_for_absent(pending.drop_last(), t);
    }
}

proof fn lemma_deliveries_to_append(a: Seq<DeliveryView>, b: Seq<DeliveryView>, t: TargetView)
    ensures
        deliveries_to(a + b, t) == deliveries_to(a, t) + deliveries_to(b, t),
    decreases b.len(),
{
    if b.len() == 0 {
        assert(a + b =~= a);
        assert(deliveries_to(a, t) + deliveries_to(b, t) =~= deliveries_to(a, t));
    } else {
        assert((a + b).drop_last() =~= a + b.drop_last());
        assert((a + b).last() == b.last());
        lemma_deliveries_to_append(a, b.drop_last(), t);
        if b.last().parcel.route_sheet.target == t {
            assert(deliveries_to(a + b, t) =~= deliveries_to(a, t) + deliveries_to(b, t));
        }
    }
}

proof fn lemma_deliveries_to_none(ds: Seq<DeliveryView>, t: TargetView)
    requires
        forall|k: int| 0 <= k < ds.len() ==> (#[trigger] ds[k]).parcel.route_sheet.target != t,
    ensures
        deliveries_to(ds, t) == Seq::<DeliveryView>::empty(),
    decreases ds.len(),
{
    if ds.len() > 0 {
        lemma_deliveries_to_none(ds.drop_last(), t);
    }
}

proof fn lemma_deliveries_to_all(ds: Seq<DeliveryView>, t: TargetView)
    requires
        forall|k: int| 0 <= k < ds.len() ==> (#[trigger] ds[k]).parcel.route_sheet.target == t,
    ensures
        deliveries_to(ds, t) == ds,
    decreases ds.len(),
{
    if ds.len() > 0 {
        lemma_deliveries_to_all(ds.drop_last(), t);
        assert(deliveries_to(ds, t) =~= ds);
    } else {
        assert(deliveries_to(ds, t) =~= ds);
    }
}

/// Fanning out parcels addressed to `u` delivers only parcels addressed to `u`.
proof fn lemma_fan_out_targets(ps: Seq<ParcelView>, dests: Seq<Transport>, u: TargetView)
    requires
        forall|j: int| 0 <= j < ps.len() ==> (#[trigger] ps[j]).route_sheet.target == u,
    ensures
        forall|k: int|
            0 <= k < fan_out(ps, dests).len() ==> (#[trigger] fan_out(ps, dests)[k]).parcel.route_sheet.target
                == u,
    decreases ps.len(),
{
    if ps.len() > 0 {
        lemma_fan_out_targets(ps.drop_last(), dests, u);
        let head = fan_out(ps.drop_last(), dests);
        let tail = dests.map_values(
            |d: Transport| DeliveryView { mailbox: d.spec_target(), parcel: ps.last() },
        );
        assert forall|k: int| 0 <= k < fan_out(ps, dests).len() implies (#[trigger] fan_out(
            ps,
            dests,
        )[k]).parcel.route_sheet.target == u by {
            if k < head.len() {
                assert(fan_out(ps, dests)[k] == head[k]);
            } else {
                assert(fan_out(ps, dests)[k] == tail[k - head.len()]);
            }
        }
    }
}

/// A tick delivers no parcel addressed to `t` where no entry for `t` is flushed.
proof fn lemma_tick_deliveries_avoid(
    routes: Map<Seq<char>, Transport>,
    consumers: Map<Seq<char>, Seq<Transport>>,
    pending: PendingView,
    t: TargetView,
)
    requires
        pending_wf(pending),
        forall|i: int|
            0 <= i < pending.len() && (#[trigger] pending[i]).0 == t ==> !flushes(
                routes,
                consumers,
                pending[i],
            ),
    ensures
        deliveries_to(tick_deliveries(routes, consumers, pending), t) == Seq::<DeliveryView>::empty(),
    decreases pending.len(),
{
    if pending.len() > 0 {
        let rest = pending.drop_last();
        let e = pending.last();
        assert(pending_wf(rest)) by {
            assert forall|i: int, k: int|
                0 <= i < rest.len() && 0 <= k < rest[i].1.len() implies (#[trigger] rest[i].1[k]).route_sheet.target
                == rest[i].0 by {
                assert(rest[i] == pending[i]);
                assert(pending[i].1[k].route_sheet.target == pending[i].0);
            }
        }
        lemma_tick_deliveries_avoid(routes, consumers, rest, t);
        let ed = entry_deliveries(routes, consumers, e);
        if flushes(routes, consumers, e) {
            assert(e == pending[pending.len() - 1]);
            assert forall|j: int| 0 <= j < e.1.len() implies (#[trigger] e.1[j]).route_sheet.target
                == e.0 by {
                assert(pending[pending.len() - 1].1[j].route_sheet.target == pending[pending.len() - 1].0);
            }
            lemma_fan_out_targets(e.1, destinations(routes, consumers, e.0).unwrap(), e.0);
        }
        assert forall|k: int| 0 <= k < ed.len() implies (#[trigger] ed[k]).parcel.route_sheet.target
            != t by {}
        lemma_deliveries_to_none(ed, t);
        lemma_deliveries_to_append(tick_deliveries(routes, consumers, rest), ed, t);
    }
}

proof fn lemma_flushed_all_drop_last(
    routes: Map<Seq<char>, Transport>,
    consumers: Map<Seq<char>, Seq<Transport>>,
    pending: PendingView,
)
    requires
        pending.len() > 0,
    ensures
        flushed_all(routes, consumers, pending).drop_last() == flushed_all(
            routes,
            consumers,
            pending.drop_last(),
        ),
        flushed_all(routes, consumers, pending).last() == flushed(routes, consumers, pending.last()),
{
    assert(flushed_all(routes, consumers, pending).drop_last() =~= flushed_all(
        routes,
        consumers,
        pending.drop_last(),
    ));
}

/// A tick leaves the parcels waiting for a target that resolves nowhere as
/// they are, and delivers none of them.
pub proof fn lemma_tick_keeps_unresolved(
    routes: Map<Seq<char>, Transport>,
    consumers: Map<Seq<char>, Seq<Transport>>,
    pending: PendingView,
    t: TargetView,
)
    requires
        pending_wf(pending),
        destinations(routes, consumers, t) is None,
    ensures
        parcels_for(flushed_all(routes, consumers, pending), t) == parcels_for(pending, t),
        deliveries_to(tick_deliveries(routes, consumers, pending), t) == Seq::<DeliveryView>::empty(),
    decreases pending.len(),
{
    lemma_tick_deliveries_avoid(routes, consumers, pending, t);
    if pending.len() > 0 {
        let rest = pending.drop_last();
        assert(pending_wf(rest)) by {
            assert forall|i: int, k: int|
                0 <= i < rest.len() && 0 <= k < rest[i].1.len() implies (#[trigger] rest[i].1[k]).route_sheet.target
                == rest[i].0 by {
                assert(rest[i] == pending[i]);
                assert(pending[i].1[k].route_sheet.target == pending[i].0);
            }
        }
        lemma_tick_keeps_unresolved(routes, consumers, rest, t);
        lemma_flushed_all_drop_last(routes, consumers, pending);
    }
}

/// Once a target resolves to a single transport, a tick delivers every parcel
/// waiting for it exactly once, in order, to that transport, and leaves none
/// waiting.
pub proof fn lemma_tick_delivers_resolved(
    routes: Map<Seq<char>, Transport>,
    consumers: Map<Seq<char>, Seq<Transport>>,
    pending: PendingView,
    t: TargetView,
    x: Transport,
)
    requires
        pending_wf(pending),
        destinations(routes, consumers, t) == Some(seq![x]),
    ensures
        deliveries_to(tick_deliveries(routes, consumers, pending), t) == parcels_for(
            pending,
            t,
        ).map_values(|p: ParcelView| DeliveryView { mailbox: x.spec_target(), parcel: p }),
        parcels_for(flushed_all(routes, consumers, pending), t).len() == 0,
    decreases pending.len(),
{
    if pending.len() == 0 {
        assert(parcels_for(pending, t).map_values(
            |p: ParcelView| DeliveryView { mailbox: x.spec_target(), parcel: p },
        ) =~= Seq::<DeliveryView>::empty());
    } else {
        let rest = pending.drop_last();
        let e = pending.last();
        assert(e == pending[pending.len() - 1]);
        assert(pending_wf(rest)) by {
            assert forall|i: int, k: int|
                0 <= i < rest.len() && 0 <= k < rest[i].1.len() implies (#[trigger] rest[i].1[k]).route_sheet.target
                == rest[i].0 by {
                assert(rest[i] == pending[i]);
                assert(pending[i].1[k].route_sheet.target == pending[i].0);
            }
        }
        assert forall|j: int| 0 <= j < e.1.len() implies (#[trigger] e.1[j]).route_sheet.target
            == e.0 by {
            assert(pending[pending.len() - 1].1[j].route_sheet.target == pending[pending.len()
                - 1].0);
        }
        lemma_flushed_all_drop_last(routes, consumers, pending);
        let ed = entry_deliveries(routes, consumers, e);
        lemma_deliveries_to_append(tick_deliveries(routes, consumers, rest), ed, t);
        if e.0 == t {
            assert forall|i: int| 0 <= i < rest.len() implies (#[trigger] rest[i]).0 != t by {
                assert(rest[i] == pending[i]);
            }
            lemma_tick_deliveries_avoid(routes, consumers, rest, t);
            lemma_fan_out_single(e.1, x);
            if e.1.len() > 0 {
                lemma_fan_out_targets(e.1, seq![x], t);
                lemma_deliveries_to_all(ed, t);
            } else {
                assert(e.1.map_values(
                    |p: ParcelView| DeliveryView { mailbox: x.spec_target(), parcel: p },
                ) =~= Seq::<DeliveryView>::empty());
            }
            assert(Seq::<DeliveryView>::empty() + deliveries_to(ed, t) =~= deliveries_to(ed, t));
        } else {
            lemma_tick_delivers_resolved(routes, consumers, rest, t, x);
            if flushes(routes, consumers, e) {
                lemma_fan_out_targets(e.1, destinations(routes, consumers, e.0).unwrap(), e.0);
            }
            assert forall|k: int| 0 <= k < ed.len() implies (#[trigger] ed[k]).parcel.route_sheet.target
                != t by {}
            lemma_deliveries_to_none(ed, t);
            assert(deliveries_to(tick_deliveries(routes, consumers, rest), t) + Seq::<
                DeliveryView,
            >::empty() =~= deliveries_to(tick_deliveries(routes, consumers, rest), t));
        }
    }
}

} // verus!
