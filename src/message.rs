//! Payloads: messages, the parcels that carry them, and requests.
use vstd::prelude::*;
use crate::operation::{Operation, OperationView};
use crate::route::{RouteSheet, RouteSheetView, Target};

verus! {

/// Raw payload, with the operation that should handle it.
#[derive(Debug)]
pub struct BaseMessage {
    data: Vec<u8>,
    operation: Option<Operation>,
}

pub struct MessageView {
    pub data: Seq<u8>,
    pub operation: Option<OperationView>,
}

pub open spec fn operation_view(o: Option<Operation>) -> Option<OperationView> {
    match o {
        Some(op) => Some(op@),
        None => None,
    }
}

impl View for BaseMessage {
    type V = MessageView;

    closed spec fn view(&self) -> MessageView {
        MessageView { data: self.data@, operation: operation_view(self.operation) }
    }
}

fn copy_bytes(b: &Vec<u8>) -> (r: Vec<u8>)
    ensures
        r@ == b@,
{
    let r = b.clone();
    assert(r@ =~= b@);
    r
}

fn copy_operation(o: &Option<Operation>) -> (r: Option<Operation>)
    ensures
        operation_view(r) == operation_view(*o),
{
    match o {
        Some(op) => Some(op.clone()),
        None => None,
    }
}

impl Clone for BaseMessage {
    fn clone(&self) -> (r: Self)
        ensures
            r@ == self@,
    {
        BaseMessage { data: copy_bytes(&self.data), operation: copy_operation(&self.operation) }
    }
}

impl BaseMessage {
    pub fn new(data: Vec<u8>, operation: Option<Operation>) -> (r: BaseMessage)
        ensures
            r@ == (MessageView { data: data@, operation: operation_view(operation) }),
    {
        BaseMessage { data, operation }
    }

    pub fn operation(&self) -> (r: Option<Operation>)
        ensures
            operation_view(r) == self@.operation,
    {
        copy_operation(&self.operation)
    }

    pub fn data(&self) -> (r: &Vec<u8>)
        ensures
            r@ == self@.data,
    {
        &self.data
    }
}

/// The views of a sequence of messages.
pub open spec fn messages_view(s: Seq<BaseMessage>) -> Seq<MessageView> {
    s.map_values(|m: BaseMessage| m@)
}

/// Unit of transport: zero or more messages under one route sheet. The
/// time to live is carried along, not enforced.
#[derive(Debug)]
pub struct Parcel {
    route_sheet: RouteSheet,
    messages: Vec<BaseMessage>,
    ttl: Option<std::time::Duration>,
}

pub struct ParcelView {
    pub route_sheet: RouteSheetView,
    pub messages: Seq<MessageView>,
    pub ttl: Option<std::time::Duration>,
}

impl View for Parcel {
    type V = ParcelView;

    closed spec fn view(&self) -> ParcelView {
        ParcelView {
            route_sheet: self.route_sheet@,
            messages: messages_view(self.messages@),
            ttl: self.ttl,
        }
    }
}

fn copy_messages(v: &Vec<BaseMessage>) -> (r: Vec<BaseMessage>)
    ensures
        messages_view(r@) == messages_view(v@),
{
    let mut r: Vec<BaseMessage> = Vec::new();
    let mut i: usize = 0;
    while i < v.len()
        invariant
            i <= v.len(),
            r@.len() == i,
            forall|j: int| 0 <= j < i ==> (#[trigger] r@[j])@ == v@[j]@,
        decreases v.len() - i,
    {
        r.push(v[i].clone());
        i = i + 1;
    }
    assert(messages_view(r@) =~= messages_view(v@));
    r
}

impl Clone for Parcel {
    fn clone(&self) -> (r: Self)
        ensures
            r@ == self@,
    {
        Parcel {
            route_sheet: self.route_sheet.clone(),
            messages: copy_messages(&self.messages),
            ttl: self.ttl,
        }
    }
}

impl Parcel {
    pub fn new(messages: Vec<BaseMessage>, route_sheet: RouteSheet) -> (r: Parcel)
        ensures
            r@ == (ParcelView {
                route_sheet: route_sheet@,
                messages: messages_view(messages@),
                ttl: None,
            }),
    {
        Parcel { route_sheet, messages, ttl: None }
    }

    pub fn target(&self) -> (r: &Target)
        ensures
            r@ == self@.route_sheet.target,
    {
        self.route_sheet.target()
    }

    pub fn route_sheet(&self) -> (r: &RouteSheet)
        ensures
            r@ == self@.route_sheet,
    {
        &self.route_sheet
    }

    pub fn unpack(&self) -> (r: &Vec<BaseMessage>)
        ensures
            messages_view(r@) == self@.messages,
    {
        &self.messages
    }
}

/// The characters of a request's identifier.
pub open spec fn is_guid_char(c: char) -> bool {
    ('a' <= c <= 'z') || ('A' <= c <= 'Z') || ('0' <= c <= '9') || c == '-' || c == '_'
}

/// Relies on `nano_id::base64::<22>`: 22 characters, each drawn at random from
/// the letters, digits, `-` and `_`. It panics only where the operating
/// system's random source fails.
#[verifier::external_body]
fn random_guid() -> (r: String)
    ensures
        r@.len() == 22,
        forall|i: int| 0 <= i < r@.len() ==> is_guid_char(#[trigger] r@[i]),
{
    nano_id::base64::<22>()
}

/// A payload that awaits an answer, under a fresh random identifier.
pub struct Request {
    body: Vec<u8>,
    route_sheet: RouteSheet,
    guid: String,
}

impl Request {
    pub fn new(body: Vec<u8>, route_sheet: RouteSheet) -> (r: Request)
        ensures
            r.body_view() == body@,
            r.route_sheet_view() == route_sheet@,
            r.guid_view().len() == 22,
            forall|i: int| 0 <= i < 22 ==> is_guid_char(#[trigger] r.guid_view()[i]),
    {
        Request { body, route_sheet, guid: random_guid() }
    }

    pub closed spec fn body_view(&self) -> Seq<u8> {
        self.body@
    }

    pub closed spec fn route_sheet_view(&self) -> RouteSheetView {
        self.route_sheet@
    }

    pub closed spec fn guid_view(&self) -> Seq<char> {
        self.guid@
    }

    pub fn body(&self) -> (r: &Vec<u8>)
        ensures
            r@ == self.body_view(),
    {
        &self.body
    }

    pub fn guid(&self) -> (r: &String)
        ensures
            r@ == self.guid_view(),
    {
        &self.guid
    }

    pub fn route_sheet(&self) -> (r: &RouteSheet)
        ensures
            r@ == self.route_sheet_view(),
    {
        &self.route_sheet
    }
}

} // verus!
