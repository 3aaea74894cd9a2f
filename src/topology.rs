//! The node-local directory from canonical addresses to transports.
use vstd::prelude::*;
use crate::route::{Route, Target, route_text, target_text};
use crate::transport::Transport;

verus! {

/// Why a lookup in the topology failed.
#[derive(Debug, Clone, Copy, PartialEq, Eq, Structural)]
pub enum TopologyError {
    RouteNotFound,
}

/// The subscriber table after `t` subscribes to `key`: appended to the list
/// of `key`, which is created where absent. Duplicates are kept.
pub open spec fn subscribed(
    m: Map<Seq<char>, Seq<Transport>>,
    key: Seq<char>,
    t: Transport,
) -> Map<Seq<char>, Seq<Transport>> {
    if m.contains_key(key) {
        m.insert(key, m[key].push(t))
    } else {
        m.insert(key, seq![t])
    }
}

/// Directory of destinations: one transport per route string, and a list of
/// transports per message-type string.
pub struct Topology {
    route_table: Vec<(String, Transport)>,
    subscribers: Vec<(String, Vec<Transport>)>,
    route_map: Ghost<Map<Seq<char>, Transport>>,
    subscriber_map: Ghost<Map<Seq<char>, Seq<Transport>>>,
}

impl Topology {
    /// The transport of each route string.
    pub closed spec fn routes(&self) -> Map<Seq<char>, Transport> {
        self.route_map@
    }

    /// The subscribers of each message-type string, in order of subscription.
    pub closed spec fn consumers(&self) -> Map<Seq<char>, Seq<Transport>> {
        self.subscriber_map@
    }

    pub closed spec fn wf(&self) -> bool {
        &&& forall|i: int, j: int|
            0 <= i < j < self.route_table@.len() ==> (#[trigger] self.route_table@[i]).0@
                != (#[trigger] self.route_table@[j]).0@
        &&& forall|i: int|
            0 <= i < self.route_table@.len() ==> self.route_map@.contains_key(
                (#[trigger] self.route_table@[i]).0@,
            ) && self.route_map@[self.route_table@[i].0@] == self.route_table@[i].1
        &&& forall|k: Seq<char>|
            #[trigger] self.route_map@.contains_key(k) ==> exists|i: int|
                0 <= i < self.route_table@.len() && (#[trigger] self.route_table@[i]).0@ == k
        &&& forall|i: int, j: int|
            0 <= i < j < self.subscribers@.len() ==> (#[trigger] self.subscribers@[i]).0@
                != (#[trigger] self.subscribers@[j]).0@
        &&& forall|i: int|
            0 <= i < self.subscribers@.len() ==> self.subscriber_map@.contains_key(
                (#[trigger] self.subscribers@[i]).0@,
            ) && self.subscriber_map@[self.subscribers@[i].0@] == self.subscribers@[i].1@
        &&& forall|k: Seq<char>|
            #[trigger] self.subscriber_map@.contains_key(k) ==> exists|i: int|
                0 <= i < self.subscribers@.len() && (#[trigger] self.subscribers@[i]).0@ == k
    }

    pub fn new() -> (r: Topology)
        ensures
            r.wf(),
            r.routes() == Map::<Seq<char>, Transport>::empty(),
            r.consumers() == Map::<Seq<char>, Seq<Transport>>::empty(),
    {
        Topology {
            route_table: Vec::new(),
            subscribers: Vec::new(),
            route_map: Ghost(Map::empty()),
            subscriber_map: Ghost(Map::empty()),
        }
    }

    fn route_index(&self, key: &String) -> (r: Option<usize>)
        requires
            self.wf(),
        ensures
            match r {
                Some(i) => i < self.route_table@.len() && self.route_table@[i as int].0@ == key@,
                None => !self.routes().contains_key(key@),
            },
    {
        let mut i: usize = 0;
        while i < self.route_table.len()
            invariant
                i <= self.route_table@.len(),
                forall|j: int| 0 <= j < i ==> (#[trigger] self.route_table@[j]).0@ != key@,
            decreases self.route_table@.len() - i,
        {
            if self.route_table[i].0 == *key {
                return Some(i);
            }
            i = i + 1;
        }
        None
    }

    fn subscriber_index(&self, key: &String) -> (r: Option<usize>)
        requires
            self.wf(),
        ensures
            match r {
                Some(i) => i < self.subscribers@.len() && self.subscribers@[i as int].0@ == key@,
                None => !self.consumers().contains_key(key@),
            },
    {
        let mut i: usize = 0;
        while i < self.subscribers.len()
            invariant
                i <= self.subscribers@.len(),
                forall|j: int| 0 <= j < i ==> (#[trigger] self.subscribers@[j]).0@ != key@,
            decreases self.subscribers@.len() - i,
        {
            if self.subscribers[i].0 == *key {
                return Some(i);
            }
            i = i + 1;
        }
        None
    }

    /// Points the canonical string of `route` at `transport`; a previous
    /// transport of that string is replaced.
    pub fn add_target_transport(&mut self, route: Target, transport: Transport)
        requires
            old(self).wf(),
        ensures
            final(self).wf(),
            final(self).routes() == old(self).routes().insert(target_text(route@), transport),
            final(self).consumers() == old(self).consumers(),
    {
        let key = route.as_string();
        let ghost k = key@;
        match self.route_index(&key) {
            Some(i) => {
                self.route_table.set(i, (key, transport));
                self.route_map = Ghost(self.route_map@.insert(k, transport));
                assert forall|k2: Seq<char>| #[trigger]
                    self.route_map@.contains_key(k2) implies exists|j: int|
                    0 <= j < self.route_table@.len() && (#[trigger] self.route_table@[j]).0@
                        == k2 by {
                    if k2 != k {
                        let j = choose|j: int|
                            0 <= j < old(self).route_table@.len()
                                && (#[trigger] old(self).route_table@[j]).0@ == k2;
                        assert(self.route_table@[j].0@ == k2);
                    } else {
                        assert(self.route_table@[i as int].0@ == k2);
                    }
                }
            },
            None => {
                self.route_table.push((key, transport));
                self.route_map = Ghost(self.route_map@.insert(k, transport));
                assert forall|k2: Seq<char>| #[trigger]
                    self.route_map@.contains_key(k2) implies exists|j: int|
                    0 <= j < self.route_table@.len() && (#[trigger] self.route_table@[j]).0@
                        == k2 by {
                    if k2 != k {
                        let j = choose|j: int|
                            0 <= j < old(self).route_table@.len()
                                && (#[trigger] old(self).route_table@[j]).0@ == k2;
                        assert(self.route_table@[j].0@ == k2);
                    } else {
                        assert(self.route_table@[old(self).route_table@.len() as int].0@ == k2);
                    }
                }
            },
        }
    }

    /// Appends `transport` to the subscribers of `message_type`.
    pub fn add_subscriber(&mut self, message_type: String, transport: Transport)
        requires
            old(self).wf(),
        ensures
            final(self).wf(),
            final(self).consumers() == subscribed(
                old(self).consumers(),
                message_type@,
                transport,
            ),
            final(self).routes() == old(self).routes(),
    {
        let ghost k = message_type@;
        match self.subscriber_index(&message_type) {
            Some(i) => {
                let mut list = self.subscribers[i].1.clone();
                assert(list@ =~= self.subscribers@[i as int].1@);
                list.push(transport);
                self.subscribers.set(i, (message_type, list));
                self.subscriber_map = Ghost(
                    self.subscriber_map@.insert(k, self.subscriber_map@[k].push(transport)),
                );
                assert forall|k2: Seq<char>| #[trigger]
                    self.subscriber_map@.contains_key(k2) implies exists|j: int|
                    0 <= j < self.subscribers@.len() && (#[trigger] self.subscribers@[j]).0@
                        == k2 by {
                    if k2 != k {
                        let j = choose|j: int|
                            0 <= j < old(self).subscribers@.len()
                                && (#[trigger] old(self).subscribers@[j]).0@ == k2;
                        assert(self.subscribers@[j].0@ == k2);
                    } else {
                        assert(self.subscribers@[i as int].0@ == k2);
                    }
                }
            },
            None => {
                let mut list: Vec<Transport> = Vec::new();
                list.push(transport);
                self.subscribers.push((message_type, list));
                self.subscriber_map = Ghost(self.subscriber_map@.insert(k, seq![transport]));
                assert forall|k2: Seq<char>| #[trigger]
                    self.subscriber_map@.contains_key(k2) implies exists|j: int|
                    0 <= j < self.subscribers@.len() && (#[trigger] self.subscribers@[j]).0@
                        == k2 by {
                    if k2 != k {
                        let j = choose|j: int|
                            0 <= j < old(self).subscribers@.len()
                                && (#[trigger] old(self).subscribers@[j]).0@ == k2;
                        assert(self.subscribers@[j].0@ == k2);
                    } else {
                        assert(self.subscribers@[old(self).subscribers@.len() as int].0@ == k2);
                    }
                }
                assert(self.subscribers@[old(self).subscribers@.len() as int].1@ =~= seq![
                    transport,
                ]);
            },
        }
    }

    /// Whether some transport is registered under the canonical string of `route`.
    pub fn route_exist(&self, route: Route) -> (r: bool)
        requires
            self.wf(),
        ensures
            r == self.routes().contains_key(route_text(route@)),
    {
        let key = route.as_string();
        self.route_index(&key).is_some()
    }

    /// The transport registered under the canonical string of `target`.
    pub fn find_transport_for_route(&self, target: &Route) -> (r: Option<Transport>)
        requires
            self.wf(),
        ensures
            r == (if self.routes().contains_key(route_text(target@)) {
                Some(self.routes()[route_text(target@)])
            } else {
                None
            }),
    {
        let key = target.as_string();
        match self.route_index(&key) {
            Some(i) => Some(self.route_table[i].1),
            None => None,
        }
    }

    /// The subscribers registered under `message_type`; an absent entry means
    /// that there is no destination.
    pub fn find_consumers_for_message(&self, message_type: &String) -> (r: Option<&Vec<Transport>>)
        requires
            self.wf(),
        ensures
            match r {
                Some(v) => self.consumers().contains_key(message_type@) && v@ == self.consumers()[message_type@],
                None => !self.consumers().contains_key(message_type@),
            },
    {
        match self.subscriber_index(message_type) {
            Some(i) => Some(&self.subscribers[i].1),
            None => None,
        }
    }
}

/// Subscribing the same transport twice to one message type lists it twice
/// more: subscriptions are not deduplicated.
pub proof fn lemma_subscribe_twice_keeps_duplicates(
    m: Map<Seq<char>, Seq<Transport>>,
    key: Seq<char>,
    t: Transport,
)
    ensures
        subscribed(subscribed(m, key, t), key, t)[key] == (if m.contains_key(key) {
            m[key]
        } else {
            Seq::empty()
        }) + seq![t, t],
        !m.contains_key(key) ==> subscribed(subscribed(m, key, t), key, t)[key] == seq![t, t],
{
    let once = subscribed(m, key, t);
    let twice = subscribed(once, key, t);
    if m.contains_key(key) {
        assert(twice[key] =~= m[key] + seq![t, t]);
    } else {
        assert(twice[key] =~= seq![t, t]);
        assert(Seq::<Transport>::empty() + seq![t, t] =~= seq![t, t]);
    }
}

} // verus!
