//! Signals with a time to live, the sources that collect them and a receiver.
use vstd::prelude::*;
use vstd::string::*;
use std::time::{Duration, Instant};
use crate::signal::instant_now;

verus! {

/// Relies on `std::time::Instant::elapsed`: the time since `created`. Nothing
/// is promised of its value.
#[verifier::external_body]
fn elapsed(created: &Instant) -> (r: Duration) {
    created.elapsed()
}

/// Relies on `Duration`'s `>`: whether `a` is longer than `b`.
#[verifier::external_body]
fn longer(a: &Duration, b: &Duration) -> (r: bool) {
    *a > *b
}

/// A payload with a time to live, and the trail of routes it went through.
#[derive(Debug)]
pub struct BaseSignal {
    data: Vec<u8>,
    ttl: Duration,
    created: Instant,
    was_in_routes: String,
}

pub struct SignalView {
    pub data: Seq<u8>,
    pub ttl: Duration,
    pub created: Instant,
    pub trail: Seq<char>,
}

impl View for BaseSignal {
    type V = SignalView;

    closed spec fn view(&self) -> SignalView {
        SignalView {
            data: self.data@,
            ttl: self.ttl,
            created: self.created,
            trail: self.was_in_routes@,
        }
    }
}

/// The trail after passing through `route`: the route alone on an empty
/// trail, else appended after a `.`.
pub open spec fn trail_after(trail: Seq<char>, route: Seq<char>) -> Seq<char> {
    if trail.len() == 0 {
        route
    } else {
        trail + seq!['.'] + route
    }
}

impl Clone for BaseSignal {
    fn clone(&self) -> (r: Self)
        ensures
            r@ == self@,
    {
        let data = self.data.clone();
        assert(data@ =~= self.data@);
        BaseSignal {
            data,
            ttl: self.ttl,
            created: self.created,
            was_in_routes: self.was_in_routes.clone(),
        }
    }
}

impl BaseSignal {
    /// A signal created now, with an empty trail.
    pub fn new(data: Vec<u8>, ttl: Duration) -> (r: BaseSignal)
        ensures
            r@.data == data@,
            r@.ttl == ttl,
            r@.trail.len() == 0,
    {
        BaseSignal { data, ttl, created: instant_now(), was_in_routes: String::new() }
    }

    pub fn data(&self) -> (r: &Vec<u8>)
        ensures
            r@ == self@.data,
    {
        &self.data
    }

    /// The routes passed through, separated by `.`.
    pub fn was_in_routes(&self) -> (r: &String)
        ensures
            r@ == self@.trail,
    {
        &self.was_in_routes
    }

    /// Whether the time to live has passed since creation; this reads the clock.
    pub fn is_expired(&self) -> (r: bool) {
        longer(&elapsed(&self.created), &self.ttl)
    }

    /// Records that the signal passed through `route`.
    pub fn was_in_route(&mut self, route: String)
        ensures
            final(self)@ == (SignalView {
                trail: trail_after(old(self)@.trail, route@),
                ..old(self)@
            }),
    {
        if self.was_in_routes.as_str().is_empty() {
            self.was_in_routes = route;
        } else {
            self.was_in_routes.append(".");
            self.was_in_routes.append(route.as_str());
            proof {
                reveal_strlit(".");
                assert(self.was_in_routes@ =~= trail_after(old(self)@.trail, route@));
            }
        }
    }
}

/// The views of a sequence of signals.
pub open spec fn signals_view(s: Seq<BaseSignal>) -> Seq<SignalView> {
    s.map_values(|m: BaseSignal| m@)
}

/// The signals whose flag is not set, in order.
pub open spec fn fresh_of(signals: Seq<SignalView>, expired: Seq<bool>) -> Seq<SignalView>
    decreases signals.len(),
{
    if signals.len() == 0 {
        Seq::empty()
    } else {
        let rest = fresh_of(signals.drop_last(), expired);
        if expired[signals.len() - 1] {
            rest
        } else {
            rest.push(signals.last())
        }
    }
}

/// Copies of the signals whose flag in `expired` is not set, in order.
pub fn keep_fresh(signals: &Vec<BaseSignal>, expired: &Vec<bool>) -> (r: Vec<BaseSignal>)
    requires
        expired@.len() == signals@.len(),
    ensures
        signals_view(r@) == fresh_of(signals_view(signals@), expired@),
{
    let ghost sv = signals_view(signals@);
    let mut r: Vec<BaseSignal> = Vec::new();
    let mut i: usize = 0;
    while i < signals.len()
        invariant
            i <= signals@.len(),
            expired@.len() == signals@.len(),
            sv == signals_view(signals@),
            signals_view(r@) == fresh_of(sv.subrange(0, i as int), expired@),
        decreases signals@.len() - i,
    {
        let ghost prev = r@;
        if !expired[i] {
            r.push(signals[i].clone());
            assert(signals_view(r@) =~= signals_view(prev).push(sv[i as int]));
        }
        assert(sv.subrange(0, i + 1).drop_last() =~= sv.subrange(0, i as int));
        i = i + 1;
    }
    assert(sv.subrange(0, i as int) =~= sv);
    r
}

/// Collects signals for a route and hands out those still alive.
pub struct ActorMessageSource {
    messages: Vec<BaseSignal>,
    route: String,
}

impl ActorMessageSource {
    pub closed spec fn held(&self) -> Seq<SignalView> {
        signals_view(self.messages@)
    }

    pub closed spec fn route_view(&self) -> Seq<char> {
        self.route@
    }

    pub fn new(route: String) -> (r: ActorMessageSource)
        ensures
            r.held() == Seq::<SignalView>::empty(),
            r.route_view() == route@,
    {
        let r = ActorMessageSource { messages: Vec::new(), route };
        assert(r.held() =~= Seq::<SignalView>::empty());
        r
    }

    /// Takes in a signal, stamped with this source's route.
    pub fn handle(&mut self, msg: BaseSignal)
        ensures
            final(self).held() == old(self).held().push(
                SignalView { trail: trail_after(msg@.trail, old(self).route_view()), ..msg@ },
            ),
            final(self).route_view() == old(self).route_view(),
    {
        let ghost m0 = msg@;
        let mut msg = msg;
        msg.was_in_route(self.route.clone());
        self.messages.push(msg);
        assert(self.held() =~= old(self).held().push(
            SignalView { trail: trail_after(m0.trail, old(self).route_view()), ..m0 },
        ));
    }

    /// Hands out, in order, the held signals that have not expired, and
    /// forgets every held signal. Which have expired depends on the clock.
    pub fn get_messages(&mut self) -> (r: Vec<BaseSignal>)
        ensures
            final(self).held() == Seq::<SignalView>::empty(),
            final(self).route_view() == old(self).route_view(),
            exists|expired: Seq<bool>|
                expired.len() == old(self).held().len() && signals_view(r@) == fresh_of(
                    old(self).held(),
                    expired,
                ),
    {
        let mut expired: Vec<bool> = Vec::new();
        let mut i: usize = 0;
        while i < self.messages.len()
            invariant
                i <= self.messages@.len(),
                expired@.len() == i,
                self.messages@ == old(self).messages@,
                self.route == old(self).route,
            decreases self.messages@.len() - i,
        {
            expired.push(self.messages[i].is_expired());
            i = i + 1;
        }
        let fresh = keep_fresh(&self.messages, &expired);
        assert(expired@.len() == old(self).held().len() && signals_view(fresh@) == fresh_of(
            old(self).held(),
            expired@,
        ));
        self.messages.clear();
        assert(self.held() =~= Seq::<SignalView>::empty());
        fresh
    }
}

/// A source that stamps signals with the route `asterisk`.
pub type AsteriskMessageSource = ActorMessageSource;

/// Receives signals and keeps the last one, stamped with the route `rabbitmq`.
pub struct RabbitMessageReceiver {
    last_message: Option<BaseSignal>,
}

impl RabbitMessageReceiver {
    pub closed spec fn last_view(&self) -> Option<SignalView> {
        match self.last_message {
            Some(m) => Some(m@),
            None => None,
        }
    }

    pub fn new() -> (r: RabbitMessageReceiver)
        ensures
            r.last_view() is None,
    {
        RabbitMessageReceiver { last_message: None }
    }

    /// Takes in a signal; it becomes the last one, with `rabbitmq` on its trail.
    pub fn handle(&mut self, msg: BaseSignal)
        ensures
            final(self).last_view() == Some(
                SignalView { trail: trail_after(msg@.trail, "rabbitmq"@), ..msg@ },
            ),
    {
        let mut msg = msg;
        msg.was_in_route(String::from_str("rabbitmq"));
        self.last_message = Some(msg);
    }

    /// A copy of the last signal received.
    pub fn last_message(&self) -> (r: Option<BaseSignal>)
        ensures
            match r {
                Some(m) => self.last_view() == Some(m@),
                None => self.last_view() is None,
            },
    {
        match &self.last_message {
            Some(m) => Some(m.clone()),
            None => None,
        }
    }
}

/// Context handed to an exchange's handler.
pub struct HandlerContext {}

} // verus!
