use anymessage::exchange::{Exchange, ExchangeType};
use anymessage::message::Parcel;
use anymessage::node::{Node, NodeInput};
use anymessage::operation::{Operation, Version};
use anymessage::plugin::PluginManager;
use anymessage::route::{Route, RouteSheet, Target};
use anymessage::service::{ServiceCore, ServiceRecipients};
use anymessage::signal::{Heartbeat, LinkService, RegisterServiceInNodeSignal, Tick};
use anymessage::topology::Topology;
use anymessage::transport::Transport;

fn parcel_to(target: Target, payload: u8) -> Parcel {
    let message = anymessage::message::BaseMessage::new(vec![payload], None);
    Parcel::new(vec![message], RouteSheet::new(target, Route::new()))
}

fn service_target(name: &str) -> Target {
    let mut r = Route::new();
    r.set_service_name(name.to_string());
    Target::Route(r)
}

fn payload(p: &Parcel) -> u8 {
    p.unpack()[0].data()[0]
}

#[test]
fn topology_last_route_registration_wins() {
    let mut topology = Topology::new();
    let mut route = Route::new();
    route.set_service_name("svc".to_string());
    topology.add_target_transport(Target::Route(route.clone()), Transport::new(1));
    assert!(topology.route_exist(route.clone()));
    topology.add_target_transport(Target::Route(route.clone()), Transport::new(2));
    assert_eq!(topology.find_transport_for_route(&route).unwrap().target(), 2);
    assert!(topology.find_transport_for_route(&Route::new()).is_none());
    assert!(!topology.route_exist(Route::new()));
}

#[test]
fn topology_subscribing_twice_lists_transport_twice() {
    let mut topology = Topology::new();
    let x = Transport::new(9);
    assert!(topology.find_consumers_for_message(&"T".to_string()).is_none());
    topology.add_subscriber("T".to_string(), x);
    topology.add_subscriber("T".to_string(), x);
    let consumers = topology.find_consumers_for_message(&"T".to_string()).unwrap();
    assert_eq!(consumers.len(), 2);
    assert!(consumers.iter().all(|t| *t == x));
    assert!(topology.find_consumers_for_message(&"U".to_string()).is_none());
}

#[test]
fn transport_is_open_and_sends_to_its_mailbox() {
    let t = Transport::new(5);
    assert!(t.is_open());
    let d = t.send_parcel(parcel_to(Target::Consumer("T".to_string()), 3));
    assert_eq!(d.mailbox, 5);
    assert_eq!(payload(&d.parcel), 3);
}

#[test]
fn registered_service_and_operation_resolve() {
    let mut node = Node::new("default".to_string());
    assert_eq!(node.route().as_string(), "@default");
    let t = Transport::new(42);
    let op = Operation::new("SendMessage".to_string(), Version::new(1, 0, 0), String::new());
    node.register_service(RegisterServiceInNodeSignal {
        transport: t,
        name: "telnet".to_string(),
        operations: vec![op],
        consume_messages: vec!["TelnetCommand".to_string()],
    });
    let mut by_service = Route::new();
    by_service.set_service_name("telnet".to_string());
    let mut by_operation = Route::new();
    by_operation.set_operation_name("SendMessage".to_string());
    assert_eq!(node.topology().find_transport_for_route(&by_service), Some(t));
    assert_eq!(node.topology().find_transport_for_route(&by_operation), Some(t));
    let key = Target::Consumer("TelnetCommand".to_string()).as_string();
    assert_eq!(node.topology().find_consumers_for_message(&key).unwrap(), &vec![t]);
}

#[test]
fn unresolved_parcel_waits_until_its_destination_registers() {
    let mut node = Node::new("n".to_string());
    let target = service_target("late");
    node.accept_parcel(parcel_to(service_target("late"), 7));
    for _ in 0..5 {
        assert!(node.tick().is_empty());
        assert_eq!(node.buffered_for(&target), 1);
    }
    node.register_service(RegisterServiceInNodeSignal {
        transport: Transport::new(11),
        name: "late".to_string(),
        operations: vec![],
        consume_messages: vec![],
    });
    let delivered = node.tick();
    assert_eq!(delivered.len(), 1);
    assert_eq!(delivered[0].mailbox, 11);
    assert_eq!(payload(&delivered[0].parcel), 7);
    assert_eq!(node.buffered_for(&target), 0);
    assert!(node.tick().is_empty());
}

#[test]
fn parcels_for_one_target_share_an_entry_in_order() {
    let mut node = Node::new("n".to_string());
    node.accept_parcel(parcel_to(service_target("a"), 1));
    node.accept_parcel(parcel_to(service_target("b"), 2));
    node.accept_parcel(parcel_to(service_target("a"), 3));
    assert_eq!(node.buffered_for(&service_target("a")), 2);
    assert_eq!(node.buffered_for(&service_target("b")), 1);
    assert_eq!(node.buffered_for(&service_target("c")), 0);
    node.register_service(RegisterServiceInNodeSignal {
        transport: Transport::new(1),
        name: "a".to_string(),
        operations: vec![],
        consume_messages: vec![],
    });
    let delivered = node.tick();
    let payloads: Vec<u8> = delivered.iter().map(|d| payload(&d.parcel)).collect();
    assert_eq!(payloads, vec![1, 3]);
    assert_eq!(node.buffered_for(&service_target("b")), 1);
}

#[test]
fn consumer_parcels_go_to_every_subscriber() {
    let mut node = Node::new("n".to_string());
    for (mailbox, name) in [(1u64, "s1"), (2u64, "s2")] {
        node.register_service(RegisterServiceInNodeSignal {
            transport: Transport::new(mailbox),
            name: name.to_string(),
            operations: vec![],
            consume_messages: vec!["Evt".to_string()],
        });
    }
    node.accept_parcel(parcel_to(Target::Consumer("Evt".to_string()), 1));
    node.accept_parcel(parcel_to(Target::Consumer("Evt".to_string()), 2));
    let delivered: Vec<(u64, u8)> =
        node.tick().iter().map(|d| (d.mailbox, payload(&d.parcel))).collect();
    assert_eq!(delivered, vec![(1, 1), (2, 1), (1, 2), (2, 2)]);
    assert_eq!(node.buffered_for(&Target::Consumer("Evt".to_string())), 0);
}

#[test]
fn round_robin_cycles_through_recipients() {
    let mut exchange = Exchange::new(ExchangeType::RoundRobin);
    for m in [10u64, 20, 30] {
        exchange.add_recipient(m);
    }
    let mut order = Vec::new();
    for i in 0..4u8 {
        let out = exchange.handle(parcel_to(Target::Consumer("T".to_string()), i));
        assert_eq!(out.len(), 1);
        order.push(out[0].mailbox);
    }
    assert_eq!(order, vec![10, 20, 30, 10]);
}

#[test]
fn fanout_delivers_the_same_parcel_to_all() {
    let mut exchange = Exchange::new(ExchangeType::Fanout);
    exchange.add_recipient(1);
    exchange.add_recipient(2);
    let out = exchange.handle(parcel_to(Target::Consumer("T".to_string()), 5));
    assert_eq!(out.len(), 2);
    assert_eq!(out[0].mailbox, 1);
    assert_eq!(out[1].mailbox, 2);
    assert_eq!(payload(&out[0].parcel), 5);
    assert_eq!(payload(&out[1].parcel), 5);
    assert_eq!(out[0].parcel.target().as_string(), out[1].parcel.target().as_string());
}

fn key_hash(text: &str) -> u64 {
    text.chars().fold(0u64, |h, c| h.wrapping_mul(31).wrapping_add(c as u64))
}

#[test]
fn empty_exchange_delivers_nothing() {
    let mut empty = Exchange::new(ExchangeType::RoundRobin);
    assert!(empty.handle(parcel_to(Target::Consumer("T".to_string()), 1)).is_empty());
    let mut empty_hash = Exchange::new(ExchangeType::Hash);
    assert!(empty_hash.handle(parcel_to(Target::Consumer("T".to_string()), 1)).is_empty());
}

#[test]
fn hash_exchange_picks_one_recipient_by_target() {
    let mut hash = Exchange::new(ExchangeType::Hash);
    for m in [10u64, 20, 30] {
        hash.add_recipient(m);
    }
    let expected = [10u64, 20, 30][(key_hash("Consumer(Orders)") % 3) as usize];
    for i in 0..3u8 {
        let out = hash.handle(parcel_to(Target::Consumer("Orders".to_string()), i));
        assert_eq!(out.len(), 1);
        assert_eq!(out[0].mailbox, expected);
        assert_eq!(payload(&out[0].parcel), i);
    }
    let other = [10u64, 20, 30][(key_hash("::billing") % 3) as usize];
    let out = hash.handle(parcel_to(service_target("billing"), 9));
    assert_eq!(out.len(), 1);
    assert_eq!(out[0].mailbox, other);
}

#[test]
fn unlinked_service_bounces_parcels_to_node() {
    let mut core = ServiceCore::new("svc".to_string(), 100);
    assert_eq!(core.route().as_string(), "::svc");
    assert_eq!(core.node(), 100);
    assert!(core.next().is_none());
    let bounced = core.handle(parcel_to(service_target("svc"), 4));
    assert_eq!(bounced.mailbox, 100);
    assert_eq!(payload(&bounced.parcel), 4);
    core.handle_link(LinkService { recipients: ServiceRecipients::new(200, 201) });
    let forwarded = core.handle(parcel_to(service_target("svc"), 5));
    assert_eq!(forwarded.mailbox, 201);
    assert_eq!(payload(&forwarded.parcel), 5);
}

#[test]
fn service_registration_carries_its_declarations() {
    let mut core = ServiceCore::new("svc".to_string(), 1);
    core.add_operation(Operation::new("Op".to_string(), Version::new(1, 0, 0), String::new()));
    core.set_consuming_messages_types(vec!["A".to_string(), "B".to_string()]);
    assert_eq!(core.get_operations().len(), 1);
    assert_eq!(core.get_consuming_message_types(), vec!["A".to_string(), "B".to_string()]);
    let signal = core.registration(Transport::new(3));
    assert_eq!(signal.name, "svc");
    assert_eq!(signal.transport, Transport::new(3));
    assert_eq!(signal.operations[0].name(), "Op");
    assert_eq!(signal.consume_messages, vec!["A".to_string(), "B".to_string()]);
}

#[test]
fn unload_is_idempotent_and_keeps_order() {
    let mut manager: PluginManager<&str, u32> = PluginManager::new();
    let nothing = manager.unload();
    assert!(nothing.plugins.is_empty() && nothing.libraries.is_empty());
    assert!(manager.is_empty());
    manager.retain_library(1);
    assert_eq!(manager.last_library(), Some(&1));
    manager.retain_plugin("first");
    manager.retain_library(2);
    manager.retain_plugin("second");
    let released = manager.unload();
    assert_eq!(released.plugins, vec!["first", "second"]);
    assert_eq!(released.libraries, vec![1, 2]);
    assert!(manager.is_empty());
    let again = manager.unload();
    assert!(again.plugins.is_empty() && again.libraries.is_empty());
    assert!(manager.last_library().is_none());
}

#[test]
fn node_handles_each_kind_of_input() {
    let mut node = Node::new("n".to_string());
    assert!(node.handle(NodeInput::Parcel(parcel_to(service_target("svc"), 1))).is_empty());
    assert!(node.handle(NodeInput::Heartbeat(Heartbeat {})).is_empty());
    assert!(node.handle(NodeInput::Tick(Tick::new())).is_empty());
    assert_eq!(node.buffered_for(&service_target("svc")), 1);
    let registration = RegisterServiceInNodeSignal {
        transport: Transport::new(8),
        name: "svc".to_string(),
        operations: vec![],
        consume_messages: vec![],
    };
    assert!(node.handle(NodeInput::Register(registration)).is_empty());
    let delivered = node.handle(NodeInput::Tick(Tick::new()));
    assert_eq!(delivered.len(), 1);
    assert_eq!(delivered[0].mailbox, 8);
    assert_eq!(node.buffered_for(&service_target("svc")), 0);
    assert!(node.handle(NodeInput::Tick(Tick::new())).is_empty());
}
