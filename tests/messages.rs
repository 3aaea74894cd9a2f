use anymessage::config::ConfigBuilder;
use anymessage::message::{BaseMessage, Parcel, Request};
use anymessage::operation::{Operation, Version};
use anymessage::route::{Route, RouteSheet, Target};

#[test]
fn test_message() {
    let body = "Hello!".to_string();
    let route_sheet = RouteSheet::new(Target::Route(Route::new()), Route::new());
    let request = Request::new(body.clone().into_bytes(), route_sheet);
    let guid = request.guid();
    assert!(guid.len() > 0);
    assert_eq!(guid.len(), 22);
    assert_eq!(String::from_utf8(request.body().clone()).unwrap(), body);
}

#[test]
fn request_guids_use_the_url_alphabet() {
    let sheet = RouteSheet::new(Target::Consumer("T".to_string()), Route::new());
    let request = Request::new(vec![1, 2, 3], sheet);
    assert!(request
        .guid()
        .chars()
        .all(|c| c.is_ascii_alphanumeric() || c == '-' || c == '_'));
    assert_eq!(request.route_sheet().target().as_string(), "Consumer(T)");
}

#[test]
fn config_test() {
    let mut builder = ConfigBuilder::from_string(String::new());
    let _config = builder.build();
}

#[test]
fn parcel_clone_keeps_everything() {
    let op = Operation::new("Op".to_string(), Version::new(2, 1, 0), "d".to_string());
    let messages = vec![BaseMessage::new(vec![1, 2], Some(op)), BaseMessage::new(vec![], None)];
    let sheet = RouteSheet::new(Target::Consumer("T".to_string()), Route::new());
    let parcel = Parcel::new(messages, sheet);
    let copy = parcel.clone();
    assert_eq!(copy.unpack().len(), 2);
    assert_eq!(copy.unpack()[0].data(), &vec![1u8, 2]);
    assert_eq!(copy.unpack()[0].operation().unwrap().name(), "Op");
    assert!(copy.unpack()[1].operation().is_none());
    assert_eq!(copy.target().as_string(), "Consumer(T)");
}
