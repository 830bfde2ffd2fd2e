//! The routing state of one connection: which message numbers are waited
//! for, which message kinds are subscribed to, and the cipher in force.

use vstd::prelude::*;
use std::collections::HashSet;

verus! {

broadcast use vstd::std_specs::hash::group_hash_axioms;

/// The cipher applied to frame bodies.
#[derive(Clone, Copy, Debug, PartialEq, Eq, Structural)]
pub enum EncryptionMode {
    /// Bodies travel in the clear.
    Unencrypted,
    /// The vendor's xor cipher.
    BcEncrypt,
    /// AES in CFB mode.
    Aes,
}

/// Where an inbound frame goes.
#[derive(Clone, Copy, Debug, PartialEq, Eq, Structural)]
pub enum Delivery {
    /// To the request that waits for this message number.
    Waiter(u16),
    /// To the subscribers of this message kind.
    Subscriber(u32),
    /// Nowhere: nobody waits for it.
    Dropped,
}

/// A cipher may be installed over plaintext, or confirmed as it is; once a
/// cipher is in force it is never taken off nor exchanged.
pub open spec fn transition_allowed(from: EncryptionMode, to: EncryptionMode) -> bool {
    from == EncryptionMode::Unencrypted || from == to
}

/// The mode in force after a request to switch to `wanted`.
pub open spec fn next_mode(current: EncryptionMode, wanted: EncryptionMode) -> EncryptionMode {
    if transition_allowed(current, wanted) {
        wanted
    } else {
        current
    }
}

/// The mode in force after a series of requests, made in order.
pub open spec fn mode_after(start: EncryptionMode, requests: Seq<EncryptionMode>) -> EncryptionMode
    decreases requests.len(),
{
    if requests.len() == 0 {
        start
    } else {
        next_mode(mode_after(start, requests.drop_last()), requests.last())
    }
}

/// The routing rule: a frame whose number is waited for goes to that waiter;
/// otherwise one whose kind is subscribed to goes to the subscribers;
/// otherwise it is dropped.
pub open spec fn route_of(
    pending: Set<u16>,
    subscribed: Set<u32>,
    message_id: u32,
    message_num: u16,
) -> Delivery {
    if pending.contains(message_num) {
        Delivery::Waiter(message_num)
    } else if subscribed.contains(message_id) {
        Delivery::Subscriber(message_id)
    } else {
        Delivery::Dropped
    }
}

/// The routing tables and cipher state of a connection.
#[derive(Debug)]
pub struct BcConnection {
    waiters: HashSet<u16>,
    subscribers: HashSet<u32>,
    encryption: EncryptionMode,
}

impl BcConnection {
    /// The message numbers with an outstanding waiter.
    pub closed spec fn pending(&self) -> Set<u16> {
        self.waiters@
    }

    /// The message kinds with a subscriber channel.
    pub closed spec fn subscribed(&self) -> Set<u32> {
        self.subscribers@
    }

    /// The cipher in force.
    pub closed spec fn mode(&self) -> EncryptionMode {
        self.encryption
    }

    /// A connection on which nothing is waited for and nothing encrypted.
    pub fn new() -> (conn: BcConnection)
        ensures
            conn.pending() == Set::<u16>::empty(),
            conn.subscribed() == Set::<u32>::empty(),
            conn.mode() == EncryptionMode::Unencrypted,
    {
        BcConnection {
            waiters: HashSet::new(),
            subscribers: HashSet::new(),
            encryption: EncryptionMode::Unencrypted,
        }
    }

    /// The cipher in force.
    pub fn encryption(&self) -> (mode: EncryptionMode)
        ensures
            mode == self.mode(),
    {
        self.encryption
    }

    /// Whether a request waits for this message number.
    pub fn is_waiting(&self, message_num: u16) -> (waiting: bool)
        ensures
            waiting == self.pending().contains(message_num),
    {
        self.waiters.contains(&message_num)
    }

    /// Whether this message kind has subscribers.
    pub fn is_subscribed(&self, message_id: u32) -> (yes: bool)
        ensures
            yes == self.subscribed().contains(message_id),
    {
        self.subscribers.contains(&message_id)
    }

    /// Registers a waiter for the reply to `message_num`. A number that is
    /// already waited for keeps its one waiter, and `false` is returned.
    pub fn expect_reply(&mut self, message_num: u16) -> (registered: bool)
        ensures
            registered == !old(self).pending().contains(message_num),
            final(self).pending() == old(self).pending().insert(message_num),
            final(self).subscribed() == old(self).subscribed(),
            final(self).mode() == old(self).mode(),
    {
        self.waiters.insert(message_num)
    }

    /// Cancels the waiter for `message_num`, so that a late reply is dropped.
    pub fn cancel(&mut self, message_num: u16) -> (was_waiting: bool)
        ensures
            was_waiting == old(self).pending().contains(message_num),
            final(self).pending() == old(self).pending().remove(message_num),
            final(self).subscribed() == old(self).subscribed(),
            final(self).mode() == old(self).mode(),
    {
        self.waiters.remove(&message_num)
    }

    /// Opens the subscriber channel of a message kind; `false` if it was open.
    pub fn subscribe(&mut self, message_id: u32) -> (opened: bool)
        ensures
            opened == !old(self).subscribed().contains(message_id),
            final(self).subscribed() == old(self).subscribed().insert(message_id),
            final(self).pending() == old(self).pending(),
            final(self).mode() == old(self).mode(),
    {
        self.subscribers.insert(message_id)
    }

    /// Closes the subscriber channel of a message kind; `false` if none was open.
    pub fn unsubscribe(&mut self, message_id: u32) -> (closed: bool)
        ensures
            closed == old(self).subscribed().contains(message_id),
            final(self).subscribed() == old(self).subscribed().remove(message_id),
            final(self).pending() == old(self).pending(),
            final(self).mode() == old(self).mode(),
    {
        self.subscribers.remove(&message_id)
    }

    /// Routes one inbound frame by its kind and number, and takes the waiter
    /// that it is delivered to out of the table.
    pub fn route(&mut self, message_id: u32, message_num: u16) -> (delivery: Delivery)
        ensures
            delivery == route_of(
                old(self).pending(),
                old(self).subscribed(),
                message_id,
                message_num,
            ),
            final(self).pending() == old(self).pending().remove(message_num),
            final(self).subscribed() == old(self).subscribed(),
            final(self).mode() == old(self).mode(),
    {
        if self.waiters.remove(&message_num) {
            Delivery::Waiter(message_num)
        } else if self.subscribers.contains(&message_id) {
            Delivery::Subscriber(message_id)
        } else {
            Delivery::Dropped
        }
    }

    /// The transport has failed: every outstanding waiter fails with it, and
    /// none is left. Returns how many there were.
    pub fn fail_waiters(&mut self) -> (failed: usize)
        ensures
            failed == old(self).pending().len(),
            final(self).pending() == Set::<u16>::empty(),
            final(self).subscribed() == old(self).subscribed(),
            final(self).mode() == old(self).mode(),
    {
        let failed: usize = self.waiters.len();
        self.waiters.clear();
        failed
    }

    /// Switches the cipher if that is no downgrade, and says whether it did.
    pub fn install_encryption(&mut self, wanted: EncryptionMode) -> (installed: bool)
        ensures
            installed == transition_allowed(old(self).mode(), wanted),
            final(self).mode() == next_mode(old(self).mode(), wanted),
            final(self).pending() == old(self).pending(),
            final(self).subscribed() == old(self).subscribed(),
    {
        let allowed = match self.encryption {
            EncryptionMode::Unencrypted => true,
            EncryptionMode::BcEncrypt => match wanted {
                EncryptionMode::BcEncrypt => true,
                _ => false,
            },
            EncryptionMode::Aes => match wanted {
                EncryptionMode::Aes => true,
                _ => false,
            },
        };
        if allowed {
            self.encryption = wanted;
        }
        allowed
    }
}

/// A reply is delivered to the request that was sent under its number: once
/// a waiter is registered for `message_num`, a frame with that number goes to
/// that waiter, whatever its kind and whatever else is waited for, and a
/// frame is never handed to a waiter of another number.
pub proof fn lemma_reply_reaches_its_request(
    pending: Set<u16>,
    subscribed: Set<u32>,
    message_id: u32,
    message_num: u16,
)
    ensures
        route_of(pending.insert(message_num), subscribed, message_id, message_num)
            == Delivery::Waiter(message_num),
        forall|other: u16|
            route_of(pending, subscribed, message_id, message_num) == Delivery::Waiter(other)
                ==> other == message_num && pending.contains(other),
{
}

/// A reply that arrives after its request was cancelled reaches no waiter,
/// and the waiters of other numbers stay as they were.
pub proof fn lemma_late_reply_dropped(
    pending: Set<u16>,
    subscribed: Set<u32>,
    message_id: u32,
    message_num: u16,
)
    ensures
        !(route_of(pending.remove(message_num), subscribed, message_id, message_num) is Waiter),
        forall|other: u16|
            other != message_num ==> (pending.remove(message_num).contains(other)
                <==> pending.contains(other)),
{
}

/// Within a session the cipher never goes back: once some series of requests
/// has left a cipher in force, every longer series leaves the same cipher in
/// force. In particular plaintext never returns.
pub proof fn lemma_encryption_monotonic(
    start: EncryptionMode,
    requests: Seq<EncryptionMode>,
    i: int,
    j: int,
)
    requires
        0 <= i <= j <= requests.len(),
    ensures
        mode_after(start, requests.take(i)) != EncryptionMode::Unencrypted ==> mode_after(
            start,
            requests.take(j),
        ) == mode_after(start, requests.take(i)),
    decreases j - i,
{
    if i < j {
        lemma_encryption_monotonic(start, requests, i, j - 1);
        assert(requests.take(j).drop_last() =~= requests.take(j - 1));
    }
}

} // verus!
