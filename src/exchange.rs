//! Multi-recipient distribution policies.
use vstd::prelude::*;
use vstd::string::*;
use vstd::arithmetic::div_mod::{lemma_add_mod_noop, lemma_small_mod};
use std::collections::VecDeque;
use crate::message::{Parcel, ParcelView};
use crate::route::target_text;
use crate::node::deliveries_view;
use crate::transport::{Delivery, DeliveryView, MailboxId};

verus! {

/// How an exchange picks the recipients of a parcel.
#[derive(Debug, Clone, Copy, PartialEq, Eq, Structural)]
pub enum ExchangeType {
    /// One recipient per parcel, in turn.
    RoundRobin,
    /// Every recipient, every parcel.
    Fanout,
    /// One recipient per parcel, chosen by a hash of the parcel's target, so
    /// that equal targets reach the same recipient while the list is unchanged.
    Hash,
}

/// Where the round-robin cursor points before a dispatch: back at the start
/// once it has reached the number of recipients.
pub open spec fn round_robin_slot(next: usize, count: nat) -> nat {
    if next >= count {
        0
    } else {
        next as nat
    }
}

/// One step of the key hash: `h * 31 + c`, modulo 2^64.
pub open spec fn hash_step(h: u64, c: char) -> u64 {
    ((h as nat * 31 + c as nat) % 0x1_0000_0000_0000_0000) as u64
}

/// The key hash of a text: `hash_step` over its characters, from 0.
pub open spec fn text_hash(s: Seq<char>) -> u64
    decreases s.len(),
{
    if s.len() == 0 {
        0
    } else {
        hash_step(text_hash(s.drop_last()), s.last())
    }
}

/// The key of a parcel: the hash of its target's canonical string.
pub open spec fn parcel_key(p: ParcelView) -> u64 {
    text_hash(target_text(p.route_sheet.target))
}

/// The recipient that a hash exchange of `count` recipients picks for `p`.
pub open spec fn hash_slot(p: ParcelView, count: nat) -> nat {
    parcel_key(p) as nat % count
}

proof fn lemma_hash_step(h: u64, c: char)
    ensures
        vstd::wrapping::u64_specs::wrapping_add(
            vstd::wrapping::u64_specs::wrapping_mul(h, 31),
            c as u64,
        ) == hash_step(h, c),
{
    let big: int = 0x1_0000_0000_0000_0000;
    let x: int = h as int * 31;
    let m: int = x % big;
    let y: int = c as int;
    assert(0 <= y < 0x110000) by {
        assert(c as u32 <= 0x10FFFF);
    }
    lemma_add_mod_noop(x, y, big);
    lemma_small_mod(y as nat, big as nat);
    assert(0 <= m < big);
    if m + y >= big {
        assert((m + y) % big == m + y - big) by {
            lemma_small_mod((m + y - big) as nat, big as nat);
            vstd::arithmetic::div_mod::lemma_mod_sub_multiples_vanish(m + y, big);
        }
    } else {
        lemma_small_mod((m + y) as nat, big as nat);
    }
}

/// The key hash of `s`.
fn text_key(s: &String) -> (r: u64)
    ensures
        r == text_hash(s@),
{
    let n = s.as_str().unicode_len();
    let mut h: u64 = 0;
    let mut i: usize = 0;
    while i < n
        invariant
            i <= n,
            n == s@.len(),
            h == text_hash(s@.subrange(0, i as int)),
        decreases n - i,
    {
        let c = s.as_str().get_char(i);
        proof {
            lemma_hash_step(h, c);
            assert(s@.subrange(0, i + 1).drop_last() =~= s@.subrange(0, i as int));
        }
        h = h.wrapping_mul(31).wrapping_add(c as u64);
        i = i + 1;
    }
    assert(s@.subrange(0, n as int) =~= s@);
    h
}

/// A hash exchange sends parcels with equal targets to the same recipient, as
/// long as the number of recipients is unchanged.
pub proof fn lemma_equal_keys_same_recipient(p1: ParcelView, p2: ParcelView, count: nat)
    requires
        target_text(p1.route_sheet.target) == target_text(p2.route_sheet.target),
    ensures
        hash_slot(p1, count) == hash_slot(p2, count),
{
}

/// An ordered list of recipient mailboxes with a distribution policy.
pub struct Exchange {
    exchange_type: ExchangeType,
    recipients: VecDeque<MailboxId>,
    next: usize,
    length: usize,
}

impl Exchange {
    pub closed spec fn kind(&self) -> ExchangeType {
        self.exchange_type
    }

    /// The recipients, in order.
    pub closed spec fn recipients_view(&self) -> Seq<MailboxId> {
        self.recipients@
    }

    /// The round-robin cursor.
    pub closed spec fn cursor(&self) -> usize {
        self.next
    }

    pub closed spec fn wf(&self) -> bool {
        self.length == self.recipients@.len()
    }

    /// An exchange of the given policy, with no recipient yet.
    pub fn new(exchange_type: ExchangeType) -> (r: Exchange)
        ensures
            r.wf(),
            r.kind() == exchange_type,
            r.recipients_view() == Seq::<MailboxId>::empty(),
            r.cursor() == 0,
    {
        Exchange { exchange_type, recipients: VecDeque::new(), next: 0, length: 0 }
    }

    /// Appends a recipient at the end of the list.
    pub fn add_recipient(&mut self, recipient: MailboxId)
        requires
            old(self).wf(),
            old(self).recipients_view().len() < usize::MAX,
        ensures
            final(self).wf(),
            final(self).kind() == old(self).kind(),
            final(self).recipients_view() == old(self).recipients_view().push(recipient),
            final(self).cursor() == old(self).cursor(),
    {
        self.recipients.push_back(recipient);
        self.length = self.length + 1;
    }

    /// Hands `msg` on by the policy. Fanout: a copy to every recipient, in
    /// order. Round robin: to the recipient at the cursor (wrapped to the
    /// start once it reached the end), then the cursor moves one on. Hash: to
    /// the recipient at `hash_slot`, or nowhere without recipients.
    pub fn handle(&mut self, msg: Parcel) -> (r: Vec<Delivery>)
        requires
            old(self).wf(),
        ensures
            final(self).wf(),
            final(self).kind() == old(self).kind(),
            final(self).recipients_view() == old(self).recipients_view(),
            match old(self).kind() {
                ExchangeType::Fanout => {
                    &&& deliveries_view(r@) == old(self).recipients_view().map_values(
                        |m: MailboxId| DeliveryView { mailbox: m, parcel: msg@ },
                    )
                    &&& final(self).cursor() == old(self).cursor()
                },
                ExchangeType::RoundRobin => {
                    let slot = round_robin_slot(
                        old(self).cursor(),
                        old(self).recipients_view().len(),
                    );
                    if slot < old(self).recipients_view().len() {
                        &&& deliveries_view(r@) == seq![
                            DeliveryView {
                                mailbox: old(self).recipients_view()[slot as int],
                                parcel: msg@,
                            },
                        ]
                        &&& final(self).cursor() == slot + 1
                    } else {
                        &&& r@.len() == 0
                        &&& final(self).cursor() == 0
                    }
                },
                ExchangeType::Hash => {
                    &&& final(self).cursor() == old(self).cursor()
                    &&& if old(self).recipients_view().len() > 0 {
                        deliveries_view(r@) == seq![
                            DeliveryView {
                                mailbox: old(self).recipients_view()[hash_slot(
                                    msg@,
                                    old(self).recipients_view().len(),
                                ) as int],
                                parcel: msg@,
                            },
                        ]
                    } else {
                        r@.len() == 0
                    }
                },
            },
    {
        let mut out: Vec<Delivery> = Vec::new();
        match self.exchange_type {
            ExchangeType::Fanout => {
                let mut i: usize = 0;
                while i < self.recipients.len()
                    invariant
                        self == old(self),
                        i <= self.recipients@.len(),
                        deliveries_view(out@) == self.recipients@.subrange(0, i as int).map_values(
                            |m: MailboxId| DeliveryView { mailbox: m, parcel: msg@ },
                        ),
                    decreases self.recipients@.len() - i,
                {
                    let ghost prev = out@;
                    out.push(Delivery { mailbox: self.recipients[i], parcel: msg.clone() });
                    proof {
                        assert(deliveries_view(out@) =~= deliveries_view(prev).push(
                            out@.last()@,
                        ));
                        assert(self.recipients@.subrange(0, i + 1).map_values(
                            |m: MailboxId| DeliveryView { mailbox: m, parcel: msg@ },
                        ) =~= self.recipients@.subrange(0, i as int).map_values(
                            |m: MailboxId| DeliveryView { mailbox: m, parcel: msg@ },
                        ).push(DeliveryView { mailbox: self.recipients@[i as int], parcel: msg@ }));
                    }
                    i = i + 1;
                }
                assert(self.recipients@.subrange(0, i as int) =~= self.recipients@);
            },
            ExchangeType::RoundRobin => {
                if self.next >= self.length {
                    self.next = 0;
                }
                if self.next < self.recipients.len() {
                    out.push(Delivery { mailbox: self.recipients[self.next], parcel: msg });
                    self.next = self.next + 1;
                    assert(deliveries_view(out@) =~= seq![
                        DeliveryView {
                            mailbox: old(self).recipients_view()[self.next - 1],
                            parcel: msg@,
                        },
                    ]);
                }
            },
            ExchangeType::Hash => {
                let count = self.recipients.len();
                if count > 0 {
                    let key = text_key(&msg.target().as_string());
                    let slot = (key % (count as u64)) as usize;
                    out.push(Delivery { mailbox: self.recipients[slot], parcel: msg });
                    assert(deliveries_view(out@) =~= seq![
                        DeliveryView {
                            mailbox: old(self).recipients_view()[hash_slot(
                                msg@,
                                old(self).recipients_view().len(),
                            ) as int],
                            parcel: msg@,
                        },
                    ]);
                }
            },
        }
        out
    }
}

} // verus!
