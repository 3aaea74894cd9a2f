//! Addresses: routes, targets and route sheets, with their canonical strings.
use vstd::prelude::*;
use vstd::string::*;
use crate::operation::Version;

verus! {

/// Hierarchical address: node, service, operation (with version) and instance.
#[derive(Debug)]
pub struct Route {
    pub route: String,
    node_name: String,
    service_name: String,
    operation_name: String,
    operation_version: Option<Version>,
    inner_id: String,
}

/// The value of a route: each field as a sequence of characters.
pub struct RouteView {
    pub route: Seq<char>,
    pub node_name: Seq<char>,
    pub service_name: Seq<char>,
    pub operation_name: Seq<char>,
    pub operation_version: Option<Version>,
    pub inner_id: Seq<char>,
}

impl View for Route {
    type V = RouteView;

    closed spec fn view(&self) -> RouteView {
        RouteView {
            route: self.route@,
            node_name: self.node_name@,
            service_name: self.service_name@,
            operation_name: self.operation_name@,
            operation_version: self.operation_version,
            inner_id: self.inner_id@,
        }
    }
}

/// The route with every field empty.
pub open spec fn empty_route() -> RouteView {
    RouteView {
        route: Seq::empty(),
        node_name: Seq::empty(),
        service_name: Seq::empty(),
        operation_name: Seq::empty(),
        operation_version: None,
        inner_id: Seq::empty(),
    }
}

/// `prefix` followed by `s`, or nothing where `s` is empty.
pub open spec fn segment(prefix: Seq<char>, s: Seq<char>) -> Seq<char> {
    if s.len() == 0 {
        Seq::empty()
    } else {
        prefix + s
    }
}

/// Canonical form of a route: `@node`, `::service`, `/operation` and `:id`,
/// each present only where its field is non-empty, in that order.
pub open spec fn route_text(r: RouteView) -> Seq<char> {
    segment(seq!['@'], r.node_name) + segment(seq![':', ':'], r.service_name) + segment(
        seq!['/'],
        r.operation_name,
    ) + segment(seq![':'], r.inner_id)
}

/// Appends `prefix` and `s` to `out` where `s` is non-empty.
fn push_segment(out: &mut String, prefix: &str, s: &String)
    ensures
        final(out)@ == old(out)@ + segment(prefix@, s@),
{
    if !s.as_str().is_empty() {
        out.append(prefix);
        out.append(s.as_str());
    } else {
        assert(old(out)@ + segment(prefix@, s@) =~= old(out)@);
    }
}

impl Clone for Route {
    fn clone(&self) -> (r: Self)
        ensures
            r@ == self@,
    {
        Route {
            route: self.route.clone(),
            node_name: self.node_name.clone(),
            service_name: self.service_name.clone(),
            operation_name: self.operation_name.clone(),
            operation_version: self.operation_version,
            inner_id: self.inner_id.clone(),
        }
    }
}

impl Route {
    pub fn new() -> (r: Route)
        ensures
            r@ == empty_route(),
    {
        Route {
            route: String::new(),
            node_name: String::new(),
            service_name: String::new(),
            operation_name: String::new(),
            operation_version: None,
            inner_id: String::new(),
        }
    }

    pub fn node_name(&self) -> (r: &String)
        ensures
            r@ == self@.node_name,
    {
        &self.node_name
    }

    pub fn service_name(&self) -> (r: &String)
        ensures
            r@ == self@.service_name,
    {
        &self.service_name
    }

    pub fn operation_name(&self) -> (r: &String)
        ensures
            r@ == self@.operation_name,
    {
        &self.operation_name
    }

    pub fn inner_id(&self) -> (r: &String)
        ensures
            r@ == self@.inner_id,
    {
        &self.inner_id
    }

    pub fn set_node_name(&mut self, node_name: String) -> (r: &mut Self)
        ensures
            r@ == (RouteView { node_name: node_name@, ..old(self)@ }),
            *final(self) == *final(r),
    {
        self.node_name = node_name;
        self
    }

    pub fn set_service_name(&mut self, service_name: String) -> (r: &mut Self)
        ensures
            r@ == (RouteView { service_name: service_name@, ..old(self)@ }),
            *final(self) == *final(r),
    {
        self.service_name = service_name;
        self
    }

    pub fn set_operation_name(&mut self, operation_name: String) -> (r: &mut Self)
        ensures
            r@ == (RouteView { operation_name: operation_name@, ..old(self)@ }),
            *final(self) == *final(r),
    {
        self.operation_name = operation_name;
        self
    }

    pub fn set_inner_id(&mut self, inner_id: String) -> (r: &mut Self)
        ensures
            r@ == (RouteView { inner_id: inner_id@, ..old(self)@ }),
            *final(self) == *final(r),
    {
        self.inner_id = inner_id;
        self
    }

    /// The canonical string of this route, the key of every topology table.
    pub fn as_string(&self) -> (r: String)
        ensures
            r@ == route_text(self@),
    {
        let mut route = String::new();
        push_segment(&mut route, "@", &self.node_name);
        push_segment(&mut route, "::", &self.service_name);
        push_segment(&mut route, "/", &self.operation_name);
        push_segment(&mut route, ":", &self.inner_id);
        proof {
            reveal_strlit("@");
            reveal_strlit("::");
            reveal_strlit("/");
            reveal_strlit(":");
            assert(route@ =~= route_text(self@));
        }
        route
    }
}

/// Destination of a parcel: one route, or every consumer of a message type.
#[derive(Debug)]
pub enum Target {
    Route(Route),
    Consumer(String),
}

pub enum TargetView {
    Route(RouteView),
    Consumer(Seq<char>),
}

impl View for Target {
    type V = TargetView;

    open spec fn view(&self) -> TargetView {
        match self {
            Target::Route(r) => TargetView::Route(r@),
            Target::Consumer(s) => TargetView::Consumer(s@),
        }
    }
}

/// `Consumer(` + `name` + `)`.
pub open spec fn consumer_text(name: Seq<char>) -> Seq<char> {
    seq!['C', 'o', 'n', 's', 'u', 'm', 'e', 'r', '('] + name + seq![')']
}

/// Canonical form of a target. Consumer names are wrapped so that they never
/// coincide with the form of a route.
pub open spec fn target_text(t: TargetView) -> Seq<char> {
    match t {
        TargetView::Route(r) => route_text(r),
        TargetView::Consumer(name) => consumer_text(name),
    }
}

impl Clone for Target {
    fn clone(&self) -> (r: Self)
        ensures
            r@ == self@,
    {
        match self {
            Target::Route(route) => Target::Route(route.clone()),
            Target::Consumer(name) => Target::Consumer(name.clone()),
        }
    }
}

impl Target {
    pub fn as_string(&self) -> (r: String)
        ensures
            r@ == target_text(self@),
    {
        match self {
            Target::Route(route) => route.as_string(),
            Target::Consumer(name) => {
                let mut text = String::from_str("Consumer(");
                text.append(name.as_str());
                text.append(")");
                proof {
                    reveal_strlit("Consumer(");
                    reveal_strlit(")");
                    assert(text@ =~= consumer_text(name@));
                }
                text
            },
        }
    }

    /// Whether two targets are the same address (every field equal).
    pub fn same_as(&self, other: &Target) -> (r: bool)
        ensures
            r == (self@ == other@),
    {
        match (self, other) {
            (Target::Route(a), Target::Route(b)) => a.same_as(b),
            (Target::Consumer(a), Target::Consumer(b)) => *a == *b,
            _ => false,
        }
    }
}

impl Route {
    /// Whether two routes hold equal values in every field.
    pub fn same_as(&self, other: &Route) -> (r: bool)
        ensures
            r == (self@ == other@),
    {
        self.route == other.route && self.node_name == other.node_name && self.service_name
            == other.service_name && self.operation_name == other.operation_name
            && self.operation_version == other.operation_version && self.inner_id
            == other.inner_id
    }
}

/// Whether a parcel with several target routes goes to one of them or to all.
#[derive(Debug, Clone, Copy, PartialEq, Eq, Structural)]
pub enum RouteStrategy {
    OneOf,
    All,
}

/// Envelope of a parcel: where it goes, and the route to answer to.
#[derive(Debug)]
pub struct RouteSheet {
    target: Target,
    from: Route,
}

pub struct RouteSheetView {
    pub target: TargetView,
    pub from: RouteView,
}

impl View for RouteSheet {
    type V = RouteSheetView;

    closed spec fn view(&self) -> RouteSheetView {
        RouteSheetView { target: self.target@, from: self.from@ }
    }
}

impl Clone for RouteSheet {
    fn clone(&self) -> (r: Self)
        ensures
            r@ == self@,
    {
        RouteSheet { target: self.target.clone(), from: self.from.clone() }
    }
}

impl RouteSheet {
    pub fn new(target: Target, from: Route) -> (r: RouteSheet)
        ensures
            r@ == (RouteSheetView { target: target@, from: from@ }),
    {
        RouteSheet { target, from }
    }

    pub fn target(&self) -> (r: &Target)
        ensures
            r@ == self@.target,
    {
        &self.target
    }

    pub fn from(&self) -> (r: &Route)
        ensures
            r@ == self@.from,
    {
        &self.from
    }

    /// The sheet of a reply: it goes to `from` and answers to the target.
    /// A sheet addressed to consumers has no single route to answer to.
    pub fn revert(&self) -> (r: Option<RouteSheet>)
        ensures
            match self@.target {
                TargetView::Route(t) => r matches Some(s) && s@ == (RouteSheetView {
                    target: TargetView::Route(self@.from),
                    from: t,
                }),
                TargetView::Consumer(_) => r is None,
            },
    {
        match &self.target {
            Target::Route(t) => Some(
                RouteSheet { target: Target::Route(self.from.clone()), from: t.clone() },
            ),
            Target::Consumer(_) => None,
        }
    }
}

/// Routes with equal field values have equal canonical strings.
pub proof fn lemma_route_text_deterministic(r1: RouteView, r2: RouteView)
    requires
        r1.node_name == r2.node_name,
        r1.service_name == r2.service_name,
        r1.operation_name == r2.operation_name,
        r1.inner_id == r2.inner_id,
    ensures
        route_text(r1) == route_text(r2),
{
}

/// A route's canonical string is empty or starts with `@`, `:` or `/`.
proof fn lemma_route_text_start(r: RouteView)
    ensures
        route_text(r).len() == 0 || route_text(r)[0] == '@' || route_text(r)[0] == ':'
            || route_text(r)[0] == '/',
{
    let a = segment(seq!['@'], r.node_name);
    let b = segment(seq![':', ':'], r.service_name);
    let c = segment(seq!['/'], r.operation_name);
    let d = segment(seq![':'], r.inner_id);
    assert(route_text(r) == a + b + c + d);
    if a.len() > 0 {
        assert((a + b + c + d)[0] == a[0]);
    } else if b.len() > 0 {
        assert((a + b + c + d) =~= b + c + d);
    } else if c.len() > 0 {
        assert((a + b + c + d) =~= c + d);
    } else {
        assert((a + b + c + d) =~= d);
    }
}

/// A route target and a consumer target never share a canonical string, even
/// where the consumer's name is the route's canonical string.
pub proof fn lemma_target_namespaces_disjoint(r: RouteView, name: Seq<char>)
    ensures
        target_text(TargetView::Route(r)) != target_text(TargetView::Consumer(name)),
{
    lemma_route_text_start(r);
    assert(consumer_text(name)[0] == 'C');
}

} // verus!
