//! Handles on destination mailboxes.
use vstd::prelude::*;
use crate::message::{Parcel, ParcelView};

verus! {

/// Identity of a mailbox; the hosting runtime keeps the mailbox behind it.
pub type MailboxId = u64;

/// Handle on a destination mailbox, compared by the mailbox's identity.
#[derive(Clone, Copy, Debug, PartialEq, Eq, Structural)]
pub struct Transport {
    target: MailboxId,
    is_open: bool,
}

impl Transport {
    pub closed spec fn spec_target(&self) -> MailboxId {
        self.target
    }

    pub closed spec fn spec_is_open(&self) -> bool {
        self.is_open
    }

    pub fn new(target: MailboxId) -> (r: Transport)
        ensures
            r.spec_target() == target,
            r.spec_is_open(),
    {
        Transport { target, is_open: true }
    }

    pub fn target(&self) -> (r: MailboxId)
        ensures
            r == self.spec_target(),
    {
        self.target
    }

    pub fn is_open(&self) -> (r: bool)
        ensures
            r == self.spec_is_open(),
    {
        self.is_open
    }

    /// Hands `parcel` to this transport's mailbox. Delivery is fire-and-forget:
    /// the result is the delivery for the runtime to perform.
    pub fn send_parcel(&self, parcel: Parcel) -> (r: Delivery)
        ensures
            r@ == (DeliveryView { mailbox: self.spec_target(), parcel: parcel@ }),
    {
        Delivery { mailbox: self.target, parcel }
    }
}

/// A parcel on its way to one mailbox.
#[derive(Debug)]
pub struct Delivery {
    pub mailbox: MailboxId,
    pub parcel: Parcel,
}

pub struct DeliveryView {
    pub mailbox: MailboxId,
    pub parcel: ParcelView,
}

impl View for Delivery {
    type V = DeliveryView;

    open spec fn view(&self) -> DeliveryView {
        DeliveryView { mailbox: self.mailbox, parcel: self.parcel@ }
    }
}

} // verus!
