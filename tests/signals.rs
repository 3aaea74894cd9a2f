use std::time::Duration;

use anymessage::signal::Tick;
use anymessage::source::{keep_fresh, ActorMessageSource, AsteriskMessageSource, BaseSignal, RabbitMessageReceiver};

#[test]
fn signal_trail_joins_routes_with_dots() {
    let mut s = BaseSignal::new("Привет!".to_string().into_bytes(), Duration::from_secs(5));
    assert_eq!(s.was_in_routes(), "");
    s.was_in_route("asterisk".to_string());
    assert_eq!(s.was_in_routes(), "asterisk");
    s.was_in_route("exchange".to_string());
    assert_eq!(s.was_in_routes(), "asterisk.exchange");
    assert_eq!(String::from_utf8(s.data().clone()).unwrap(), "Привет!");
}

#[test]
fn keep_fresh_drops_flagged_signals_in_order() {
    let signals: Vec<BaseSignal> = (0u8..4)
        .map(|i| BaseSignal::new(vec![i], Duration::from_secs(60)))
        .collect();
    let kept = keep_fresh(&signals, &vec![true, false, true, false]);
    let data: Vec<u8> = kept.iter().map(|s| s.data()[0]).collect();
    assert_eq!(data, vec![1, 3]);
    assert!(keep_fresh(&signals, &vec![true; 4]).is_empty());
}

#[test]
fn source_stamps_and_hands_out_live_signals_once() {
    let mut source: AsteriskMessageSource = ActorMessageSource::new("asterisk".to_string());
    source.handle(BaseSignal::new(vec![1], Duration::from_secs(3600)));
    source.handle(BaseSignal::new(vec![2], Duration::from_secs(3600)));
    let out = source.get_messages();
    assert_eq!(out.len(), 2);
    assert_eq!(out[0].data(), &vec![1u8]);
    assert_eq!(out[1].was_in_routes(), "asterisk");
    assert!(source.get_messages().is_empty());
}

#[test]
fn fresh_signal_is_not_expired() {
    let s = BaseSignal::new(vec![], Duration::from_secs(3600));
    assert!(!s.is_expired());
}

#[test]
fn receiver_keeps_the_last_signal() {
    let mut receiver = RabbitMessageReceiver::new();
    assert!(receiver.last_message().is_none());
    let mut s = BaseSignal::new(vec![9], Duration::from_secs(5));
    s.was_in_route("asterisk".to_string());
    receiver.handle(s);
    let last = receiver.last_message().unwrap();
    assert_eq!(last.was_in_routes(), "asterisk.rabbitmq");
    assert_eq!(last.data(), &vec![9u8]);
}

#[test]
fn tick_keeps_its_creation_instant() {
    let before = std::time::Instant::now();
    let tick = Tick::new();
    assert!(*tick.time() >= before);
}
