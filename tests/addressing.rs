use anymessage::operation::{Operation, Version};
use anymessage::route::{Route, RouteSheet, Target};

fn full_route() -> Route {
    let mut r = Route::new();
    r.set_node_name("n1".to_string())
        .set_service_name("svc".to_string())
        .set_operation_name("op".to_string())
        .set_inner_id("7".to_string());
    r
}

#[test]
fn route_as_string_orders_segments() {
    assert_eq!(full_route().as_string(), "@n1::svc/op:7");
    assert_eq!(Route::new().as_string(), "");
    let mut only_service = Route::new();
    only_service.set_service_name("svc".to_string());
    assert_eq!(only_service.as_string(), "::svc");
    let mut only_operation = Route::new();
    only_operation.set_operation_name("op".to_string());
    assert_eq!(only_operation.as_string(), "/op");
    let mut node_and_id = Route::new();
    node_and_id.set_node_name("n".to_string()).set_inner_id("1".to_string());
    assert_eq!(node_and_id.as_string(), "@n:1");
}

#[test]
fn route_as_string_is_deterministic() {
    let a = full_route();
    let b = full_route();
    assert_eq!(a.as_string(), b.as_string());
    assert_eq!(a.as_string(), a.clone().as_string());
    assert!(a.same_as(&b));
}

#[test]
fn route_getters_return_set_values() {
    let r = full_route();
    assert_eq!(r.node_name(), "n1");
    assert_eq!(r.service_name(), "svc");
    assert_eq!(r.operation_name(), "op");
    assert_eq!(r.inner_id(), "7");
}

#[test]
fn consumer_and_route_targets_never_collide() {
    let mut r = Route::new();
    r.set_service_name("x".to_string());
    let route_target = Target::Route(r.clone());
    let consumer_target = Target::Consumer(r.as_string());
    assert_eq!(route_target.as_string(), "::x");
    assert_eq!(consumer_target.as_string(), "Consumer(::x)");
    assert_ne!(route_target.as_string(), consumer_target.as_string());
    let empty_consumer = Target::Consumer(String::new());
    assert_eq!(empty_consumer.as_string(), "Consumer()");
    assert_ne!(Target::Route(Route::new()).as_string(), empty_consumer.as_string());
}

#[test]
fn targets_compare_by_value() {
    let a = Target::Consumer("T".to_string());
    let b = Target::Consumer("T".to_string());
    let c = Target::Route(Route::new());
    assert!(a.same_as(&b));
    assert!(!a.same_as(&c));
    assert!(c.same_as(&Target::Route(Route::new())));
}

#[test]
fn route_sheet_revert_swaps_target_and_from() {
    let mut to = Route::new();
    to.set_service_name("dest".to_string());
    let mut from = Route::new();
    from.set_service_name("src".to_string());
    let sheet = RouteSheet::new(Target::Route(to), from);
    assert_eq!(sheet.target().as_string(), "::dest");
    assert_eq!(sheet.from().as_string(), "::src");
    let back = sheet.revert().expect("a route target can be answered");
    assert_eq!(back.target().as_string(), "::src");
    assert_eq!(back.from().as_string(), "::dest");
    let to_consumers = RouteSheet::new(Target::Consumer("T".to_string()), Route::new());
    assert!(to_consumers.revert().is_none());
}

#[test]
fn operations_equal_by_name_and_version_only() {
    let a = Operation::new("Send".to_string(), Version::new(1, 0, 0), "one".to_string());
    let b = Operation::new("Send".to_string(), Version::new(1, 0, 0), "two".to_string());
    let c = Operation::new("Send".to_string(), Version::new(1, 1, 0), "one".to_string());
    let d = Operation::new("Recv".to_string(), Version::new(1, 0, 0), "one".to_string());
    assert!(a == b);
    assert!(a != c);
    assert!(a != d);
    assert_eq!(a.name(), "Send");
    assert_eq!(a.version(), Version::new(1, 0, 0));
}
