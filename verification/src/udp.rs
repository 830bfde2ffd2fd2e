//! Reliable delivery over datagrams, on the receiving side: packets are put
//! back in order by their sequence numbers, and frames too large for one
//! datagram travel in fragments.

use vstd::prelude::*;
use vstd::slice::{slice_subrange, slice_to_vec};
use crate::errors::Error;

verus! {

/// What a receive window holds: the next sequence number to hand upward, and
/// one slot for each sequence number from that one on. Slot `i` holds the
/// payload numbered `next + i` if it has arrived ahead of its turn.
pub struct WindowView {
    pub next: nat,
    pub slots: Seq<Option<Vec<u8>>>,
}

/// The slots of a window once the payload numbered `seq` has arrived: it is
/// placed if it falls inside the window and its slot is free; a stale, a
/// repeated or a too early payload leaves the slots as they are.
pub open spec fn placed(before: WindowView, seq: u32, payload: Vec<u8>) -> Seq<Option<Vec<u8>>> {
    let offset = seq as int - before.next;
    if 0 <= offset < before.slots.len() && before.slots[offset] is None {
        before.slots.update(offset, Some(payload))
    } else {
        before.slots
    }
}

/// How an arrival changes a window and what it hands upward: the longest run
/// of payloads that are now present from the window's start on, in sequence
/// order. The window moves past them.
pub open spec fn accepted(
    before: WindowView,
    seq: u32,
    payload: Vec<u8>,
    after: WindowView,
    delivered: Seq<Vec<u8>>,
) -> bool {
    let filled = placed(before, seq, payload);
    let count = delivered.len() as int;
    &&& after.next == before.next + count
    &&& count <= filled.len()
    &&& forall|i: int| 0 <= i < count ==> #[trigger] filled[i] == Some(delivered[i])
    &&& count < filled.len() ==> filled[count] is None
    &&& after.slots =~= filled.skip(count) + Seq::new(count as nat, |i: int| None::<Vec<u8>>)
}

/// Everything that the window holds is a copy of what was sent under that
/// sequence number. `sent[n]` is the payload that the peer numbered `n`.
pub open spec fn holds_copies_of(window: WindowView, sent: Seq<Seq<u8>>) -> bool {
    forall|i: int|
        0 <= i < window.slots.len() ==> match #[trigger] window.slots[i] {
            Some(payload) => window.next + i < sent.len() && payload@ == sent[window.next + i],
            None => true,
        }
}

/// A window that reorders the payloads of one peer.
#[derive(Debug)]
pub struct ReceiveWindow {
    next_seq: u64,
    slots: Vec<Option<Vec<u8>>>,
}

impl ReceiveWindow {
    /// The window as the contracts speak of it.
    pub closed spec fn view(&self) -> WindowView {
        WindowView { next: self.next_seq as nat, slots: self.slots@ }
    }

    /// The window has room for at least one payload, its first slot is free
    /// (a payload whose turn has come is handed upward at once), and it holds
    /// nothing beyond the last sequence number.
    pub open spec fn wf(&self) -> bool {
        &&& self@.slots.len() > 0
        &&& self@.slots[0] is None
        &&& self@.next <= u32::MAX + 1
        &&& forall|i: int|
            0 <= i < self@.slots.len() && (#[trigger] self@.slots[i]) is Some ==> self@.next + i
                <= u32::MAX
    }

    /// The highest sequence number up to which everything has been handed
    /// upward, to be acknowledged to the peer; `None` before sequence number
    /// zero has arrived.
    pub fn cumulative_ack(&self) -> (ack: Option<u32>)
        requires
            self.wf(),
        ensures
            match ack {
                Some(upto) => upto + 1 == self@.next,
                None => self@.next == 0,
            },
    {
        if self.next_seq == 0 {
            None
        } else {
            Some((self.next_seq - 1) as u32)
        }
    }

    /// An empty window of `capacity` slots that expects `first_seq` next.
    pub fn new(first_seq: u32, capacity: usize) -> (window: ReceiveWindow)
        requires
            capacity > 0,
        ensures
            window.wf(),
            window@.next == first_seq,
            window@.slots =~= Seq::new(capacity as nat, |i: int| None::<Vec<u8>>),
    {
        let mut slots: Vec<Option<Vec<u8>>> = Vec::new();
        let mut i: usize = 0;
        while i < capacity
            invariant
                i <= capacity,
                slots@ =~= Seq::new(i as nat, |i: int| None::<Vec<u8>>),
            decreases capacity - i,
        {
            slots.push(None);
            i += 1;
        }
        ReceiveWindow { next_seq: first_seq as u64, slots }
    }

    /// The sequence number of the payload that is handed upward next.
    pub fn next_expected(&self) -> (next: u64)
        ensures
            next == self@.next,
    {
        self.next_seq
    }

    /// Takes in the payload numbered `seq` and returns what can now be handed
    /// upward: nothing while an earlier payload is missing, and otherwise the
    /// payloads from the next expected one up to the first gap, in order. A
    /// payload that was handed upward before, that is already held, or that
    /// lies beyond the window is dropped.
    pub fn accept(&mut self, seq: u32, payload: Vec<u8>) -> (delivered: Vec<Vec<u8>>)
        requires
            old(self).wf(),
        ensures
            final(self).wf(),
            accepted(old(self)@, seq, payload, final(self)@, delivered@),
    {
        let mut delivered: Vec<Vec<u8>> = Vec::new();
        let wire_seq: u64 = seq as u64;
        let capacity: usize = self.slots.len();
        if wire_seq < self.next_seq || wire_seq - self.next_seq >= capacity as u64 {
            return delivered;
        }
        let offset: usize = (wire_seq - self.next_seq) as usize;
        if self.slots[offset].is_some() {
            return delivered;
        }
        self.slots[offset] = Some(payload);
        let ghost filled = self.slots@;
        let ghost start = self.next_seq;
        assert(filled =~= placed(old(self)@, seq, payload));
        let mut count: usize = 0;
        while self.slots[0].is_some()
            invariant
                capacity == filled.len(),
                capacity > 0,
                self.slots@.len() == capacity,
                count <= capacity,
                count == delivered@.len(),
                self.next_seq == start + count,
                start <= u32::MAX,
                forall|i: int|
                    0 <= i < filled.len() && (#[trigger] filled[i]) is Some ==> start + i
                        <= u32::MAX,
                forall|i: int| 0 <= i < count ==> #[trigger] filled[i] == Some(delivered@[i]),
                self.slots@ =~= filled.skip(count as int) + Seq::new(
                    count as nat,
                    |i: int| None::<Vec<u8>>,
                ),
            decreases capacity - count,
        {
            assert(count < capacity) by {
                if count == capacity {
                    assert(self.slots@[0] is None);
                }
            }
            assert(self.slots@[0] == filled[count as int]);
            let head = self.slots.remove(0);
            self.slots.push(None);
            match head {
                Some(ready) => {
                    delivered.push(ready);
                },
                None => {},
            }
            self.next_seq = self.next_seq + 1;
            count = count + 1;
        }
        assert(count < capacity ==> filled[count as int] is None) by {
            if count < capacity {
                assert(self.slots@[0] == filled[count as int]);
            }
        }
        assert(self.next_seq <= u32::MAX as u64 + 1) by {
            if count > 0 {
                assert(filled[count - 1] == Some(delivered@[count - 1]));
            }
        }
        assert forall|i: int|
            0 <= i < self.slots@.len() && (#[trigger] self.slots@[i]) is Some implies self.next_seq
            + i <= u32::MAX by {
            if i < capacity - count {
                assert(self.slots@[i] == filled[count + i]);
            }
        }
        delivered
    }
}

/// Payloads reach the layer above exactly as they were sent: in sequence
/// order, without a gap and without a repeat, however the channel reordered
/// or repeated them. If all that a window holds are copies of what the peer
/// sent, and a copy of the payload numbered `seq` arrives, then what is handed
/// upward is the stretch of the sent payloads from the old to the new next
/// sequence number, and the window holds copies still. So everything handed
/// upward since sequence number zero is a prefix of what was sent.
pub proof fn lemma_delivery_in_order(
    before: WindowView,
    seq: u32,
    payload: Vec<u8>,
    after: WindowView,
    delivered: Seq<Vec<u8>>,
    sent: Seq<Seq<u8>>,
)
    requires
        holds_copies_of(before, sent),
        seq < sent.len(),
        payload@ == sent[seq as int],
        accepted(before, seq, payload, after, delivered),
    ensures
        before.next <= after.next,
        delivered.len() > 0 ==> after.next <= sent.len(),
        delivered.len() == after.next - before.next,
        forall|i: int|
            0 <= i < delivered.len() ==> (#[trigger] delivered[i])@ == sent[before.next + i],
        holds_copies_of(after, sent),
{
    let filled = placed(before, seq, payload);
    let count = delivered.len() as int;
    assert forall|i: int| 0 <= i < filled.len() implies match #[trigger] filled[i] {
        Some(p) => before.next + i < sent.len() && p@ == sent[before.next + i],
        None => true,
    } by {
        if filled[i] != before.slots[i] {
            assert(i == seq as int - before.next);
        } else {
            assert(before.slots[i] is Some ==> before.next + i < sent.len());
        }
    }
    assert forall|i: int| 0 <= i < count implies (#[trigger] delivered[i])@ == sent[before.next
        + i] by {
        assert(filled[i] == Some(delivered[i]));
    }
    if count > 0 {
        assert(filled[count - 1] == Some(delivered[count - 1]));
    }
    assert forall|i: int| 0 <= i < after.slots.len() implies match #[trigger] after.slots[i] {
        Some(p) => after.next + i < sent.len() && p@ == sent[after.next + i],
        None => true,
    } by {
        if i < filled.len() - count {
            assert(after.slots[i] == filled[count + i]);
        }
    }
}

/// An arrival: a sequence number and the payload that came with it.
pub struct Arrival {
    pub seq: u32,
    pub payload: Vec<u8>,
}

/// A window's history: `views[k]` is the window before arrival `k` and
/// `views[k + 1]` after it, and `outputs[k]` is what that arrival handed upward.
pub open spec fn is_history(
    views: Seq<WindowView>,
    arrivals: Seq<Arrival>,
    outputs: Seq<Seq<Vec<u8>>>,
) -> bool {
    &&& views.len() == arrivals.len() + 1
    &&& outputs.len() == arrivals.len()
    &&& forall|k: int|
        0 <= k < arrivals.len() ==> accepted(
            views[k],
            arrivals[k].seq,
            arrivals[k].payload,
            views[k + 1],
            #[trigger] outputs[k],
        )
}

/// Every arrival is a copy of the payload sent under its sequence number.
pub open spec fn all_genuine(arrivals: Seq<Arrival>, sent: Seq<Seq<u8>>) -> bool {
    forall|k: int|
        0 <= k < arrivals.len() ==> (#[trigger] arrivals[k]).seq < sent.len()
            && arrivals[k].payload@ == sent[arrivals[k].seq as int]
}

/// Everything handed upward by the first `k` arrivals, in order.
pub open spec fn handed_up(outputs: Seq<Seq<Vec<u8>>>, k: int) -> Seq<Seq<u8>>
    decreases k,
{
    if k <= 0 {
        Seq::<Seq<u8>>::empty()
    } else {
        handed_up(outputs, k - 1) + outputs[k - 1].map_values(|p: Vec<u8>| p@)
    }
}

/// Over a lossy channel that reorders and repeats, the payloads handed
/// upward are the payloads sent, in the order sent, with no gap and no
/// repeat: after any number of genuine arrivals, what a window has handed
/// upward is exactly the stretch of the sent payloads from where the window
/// started to where it stands.
pub proof fn lemma_stream_is_what_was_sent(
    views: Seq<WindowView>,
    arrivals: Seq<Arrival>,
    outputs: Seq<Seq<Vec<u8>>>,
    sent: Seq<Seq<u8>>,
    k: int,
)
    requires
        is_history(views, arrivals, outputs),
        all_genuine(arrivals, sent),
        holds_copies_of(views[0], sent),
        views[0].next <= sent.len(),
        0 <= k <= arrivals.len(),
    ensures
        holds_copies_of(views[k], sent),
        views[0].next <= views[k].next <= sent.len(),
        handed_up(outputs, k) == sent.subrange(views[0].next as int, views[k].next as int),
    decreases k,
{
    if k > 0 {
        lemma_stream_is_what_was_sent(views, arrivals, outputs, sent, k - 1);
        let before = views[k - 1];
        let arrival = arrivals[k - 1];
        lemma_delivery_in_order(
            before,
            arrival.seq,
            arrival.payload,
            views[k],
            outputs[k - 1],
            sent,
        );
        let step = outputs[k - 1].map_values(|p: Vec<u8>| p@);
        assert forall|i: int| 0 <= i < step.len() implies step[i] == sent[before.next + i] by {
            assert(outputs[k - 1][i]@ == sent[before.next + i]);
        }
        assert(handed_up(outputs, k) =~= sent.subrange(
            views[0].next as int,
            views[k].next as int,
        ));
    } else {
        assert(handed_up(outputs, 0) =~= sent.subrange(
            views[0].next as int,
            views[0].next as int,
        ));
    }
}

/// The payload whose turn it is gets through at once: when the payload with
/// the next expected sequence number arrives, it is the first to be handed
/// upward. And an arrival that is stale or repeated changes nothing.
pub proof fn lemma_expected_payload_is_delivered(
    before: WindowView,
    seq: u32,
    payload: Vec<u8>,
    after: WindowView,
    delivered: Seq<Vec<u8>>,
)
    requires
        before.slots.len() > 0,
        before.slots[0] is None,
        accepted(before, seq, payload, after, delivered),
    ensures
        seq == before.next ==> delivered.len() > 0 && delivered[0] == payload,
        seq < before.next ==> delivered.len() == 0 && after == before,
        seq != before.next ==> delivered.len() == 0 && after.next == before.next,
{
    let filled = placed(before, seq, payload);
    if seq == before.next {
        assert(filled[0] == Some(payload));
        if delivered.len() > 0 {
            assert(filled[0] == Some(delivered[0]));
        }
    } else {
        assert(filled[0] is None);
        if delivered.len() > 0 {
            assert(filled[0] == Some(delivered[0]));
        }
        assert(after.slots =~= filled);
    }
}

/// The bytes of a series of fragments, one after the other.
pub open spec fn joined(parts: Seq<Vec<u8>>) -> Seq<u8>
    decreases parts.len(),
{
    if parts.len() == 0 {
        Seq::<u8>::empty()
    } else {
        joined(parts.drop_last()) + parts.last()@
    }
}

/// Cuts a frame into fragments that each fit a datagram's payload: every
/// fragment but the last carries `limit` bytes, the last carries what is
/// left, and no fragment is empty.
pub fn fragment(body: &[u8], limit: usize) -> (parts: Vec<Vec<u8>>)
    requires
        limit > 0,
    ensures
        joined(parts@) == body@,
        forall|i: int| 0 <= i < parts@.len() ==> 0 < (#[trigger] parts@[i])@.len() <= limit,
        forall|i: int| 0 <= i < parts@.len() - 1 ==> (#[trigger] parts@[i])@.len() == limit,
{
    let mut parts: Vec<Vec<u8>> = Vec::new();
    let total: usize = body.len();
    let mut start: usize = 0;
    while start < total
        invariant
            limit > 0,
            total == body@.len(),
            start <= total,
            joined(parts@) =~= body@.take(start as int),
            forall|i: int| 0 <= i < parts@.len() ==> 0 < (#[trigger] parts@[i])@.len() <= limit,
            forall|i: int| 0 <= i < parts@.len() - 1 ==> (#[trigger] parts@[i])@.len() == limit,
            start < total ==> forall|i: int|
                0 <= i < parts@.len() ==> (#[trigger] parts@[i])@.len() == limit,
        decreases total - start,
    {
        let end: usize = if total - start <= limit {
            total
        } else {
            start + limit
        };
        let chunk = slice_to_vec(slice_subrange(body, start, end));
        let ghost before = parts@;
        parts.push(chunk);
        proof {
            assert(parts@.drop_last() =~= before);
            assert(body@.take(start as int) + body@.subrange(start as int, end as int)
                =~= body@.take(end as int));
        }
        start = end;
    }
    assert(body@.take(start as int) =~= body@);
    parts
}

/// Puts the fragments of a frame together again, in the order given.
pub fn reassemble(parts: &Vec<Vec<u8>>) -> (body: Vec<u8>)
    ensures
        body@ == joined(parts@),
{
    let mut body: Vec<u8> = Vec::new();
    let mut i: usize = 0;
    while i < parts.len()
        invariant
            i <= parts@.len(),
            body@ =~= joined(parts@.take(i as int)),
        decreases parts@.len() - i,
    {
        let part = &parts[i];
        let ghost so_far = body@;
        let mut j: usize = 0;
        while j < part.len()
            invariant
                j <= part@.len(),
                body@ =~= so_far + part@.take(j as int),
            decreases part@.len() - j,
        {
            body.push(part[j]);
            j += 1;
        }
        proof {
            assert(part@.take(j as int) =~= part@);
            assert(parts@.take(i + 1).drop_last() =~= parts@.take(i as int));
        }
        i += 1;
    }
    assert(parts@.take(i as int) =~= parts@);
    body
}

/// A payload that was sent and not yet acknowledged.
#[derive(Debug, PartialEq, Eq)]
pub struct Outstanding {
    pub seq: u32,
    pub payload: Vec<u8>,
}

/// What a send window holds: the sequence number of the next payload, the
/// payloads in flight from oldest to newest, and how many times in a row the
/// retransmit timer has run out without an acknowledgement.
pub struct SendView {
    pub next: nat,
    pub in_flight: Seq<Outstanding>,
    pub retries: nat,
}

/// The delay before retransmission number `retries`, counted from zero: the
/// initial delay, doubled on every retry, and never more than the cap.
pub open spec fn backoff(initial_ms: u64, cap_ms: u64, retries: nat) -> nat
    decreases retries,
{
    if retries == 0 {
        if initial_ms <= cap_ms {
            initial_ms as nat
        } else {
            cap_ms as nat
        }
    } else {
        let doubled = 2 * backoff(initial_ms, cap_ms, (retries - 1) as nat);
        if doubled <= cap_ms {
            doubled
        } else {
            cap_ms as nat
        }
    }
}

/// The delay before a retransmission: exponential backoff under a cap.
pub fn retransmit_delay(initial_ms: u64, cap_ms: u64, retries: u32) -> (delay_ms: u64)
    ensures
        delay_ms == backoff(initial_ms, cap_ms, retries as nat),
        delay_ms <= cap_ms,
{
    let mut delay: u64 = if initial_ms <= cap_ms {
        initial_ms
    } else {
        cap_ms
    };
    let mut done: u32 = 0;
    while done < retries
        invariant
            done <= retries,
            delay <= cap_ms,
            delay == backoff(initial_ms, cap_ms, done as nat),
        decreases retries - done,
    {
        delay = if delay <= cap_ms / 2 {
            delay * 2
        } else {
            cap_ms
        };
        done += 1;
    }
    delay
}

/// The sending side of the reliable channel: numbers the payloads, keeps
/// them until they are acknowledged and counts the retransmissions.
#[derive(Debug)]
pub struct SendWindow {
    next_seq: u64,
    capacity: usize,
    max_retries: u32,
    retries: u32,
    in_flight: Vec<Outstanding>,
}

impl SendWindow {
    /// The window as the contracts speak of it.
    pub closed spec fn view(&self) -> SendView {
        SendView {
            next: self.next_seq as nat,
            in_flight: self.in_flight@,
            retries: self.retries as nat,
        }
    }

    /// How many payloads may be in flight at once.
    pub closed spec fn limit(&self) -> nat {
        self.capacity as nat
    }

    /// How many times in a row the timer may run out.
    pub closed spec fn retry_limit(&self) -> nat {
        self.max_retries as nat
    }

    /// The payloads in flight are numbered in strictly increasing order, all
    /// below the next number, and there are no more of them than the window
    /// admits.
    pub open spec fn wf(&self) -> bool {
        &&& self@.in_flight.len() <= self.limit()
        &&& self@.next <= u32::MAX + 1
        &&& self@.retries <= self.retry_limit()
        &&& forall|i: int, j: int|
            0 <= i < j < self@.in_flight.len() ==> (#[trigger] self@.in_flight[i]).seq < (
            #[trigger] self@.in_flight[j]).seq
        &&& forall|i: int|
            0 <= i < self@.in_flight.len() ==> (#[trigger] self@.in_flight[i]).seq < self@.next
    }

    /// A window with nothing in flight, whose first payload gets `first_seq`.
    pub fn new(first_seq: u32, capacity: usize, max_retries: u32) -> (window: SendWindow)
        ensures
            window.wf(),
            window@.next == first_seq,
            window@.in_flight == Seq::<Outstanding>::empty(),
            window@.retries == 0,
            window.limit() == capacity,
            window.retry_limit() == max_retries,
    {
        SendWindow {
            next_seq: first_seq as u64,
            capacity,
            max_retries,
            retries: 0,
            in_flight: Vec::new(),
        }
    }

    /// Numbers a payload for sending and keeps it until it is acknowledged.
    /// The numbers handed out increase by one each time. Nothing is handed
    /// out while the window is full or once the numbers are used up.
    pub fn send(&mut self, payload: Vec<u8>) -> (seq: Option<u32>)
        requires
            old(self).wf(),
        ensures
            final(self).wf(),
            final(self).limit() == old(self).limit(),
            final(self).retry_limit() == old(self).retry_limit(),
            final(self)@.retries == old(self)@.retries,
            match seq {
                Some(seq) => seq == old(self)@.next && final(self)@.next == seq + 1
                    && final(self)@.in_flight == old(self)@.in_flight.push(
                    Outstanding { seq, payload },
                ),
                None => final(self)@ == old(self)@,
            },
            seq is Some <==> old(self)@.in_flight.len() < old(self).limit() && old(self)@.next
                <= u32::MAX,
    {
        if self.in_flight.len() >= self.capacity || self.next_seq > u32::MAX as u64 {
            return None;
        }
        let seq: u32 = self.next_seq as u32;
        self.in_flight.push(Outstanding { seq, payload });
        self.next_seq = self.next_seq + 1;
        Some(seq)
    }

    /// Takes a cumulative acknowledgement: every payload numbered `upto` or
    /// lower has arrived and is let go. Returns how many were let go. Progress
    /// starts the count of retries afresh.
    pub fn acknowledge(&mut self, upto: u32) -> (released: usize)
        requires
            old(self).wf(),
        ensures
            final(self).wf(),
            final(self).limit() == old(self).limit(),
            final(self).retry_limit() == old(self).retry_limit(),
            final(self)@.next == old(self)@.next,
            released <= old(self)@.in_flight.len(),
            final(self)@.in_flight == old(self)@.in_flight.skip(released as int),
            forall|i: int| 0 <= i < released ==> (#[trigger] old(self)@.in_flight[i]).seq <= upto,
            forall|i: int|
                released <= i < old(self)@.in_flight.len() ==> (#[trigger] old(
                    self,
                )@.in_flight[i]).seq > upto,
            final(self)@.retries == if released > 0 {
                0
            } else {
                old(self)@.retries
            },
    {
        let ghost before = self.in_flight@;
        let mut released: usize = 0;
        while self.in_flight.len() > 0 && self.in_flight[0].seq <= upto
            invariant
                before == old(self)@.in_flight,
                before.len() <= self.capacity,
                self.next_seq == old(self).next_seq,
                self.capacity == old(self).capacity,
                self.max_retries == old(self).max_retries,
                self.retries == old(self).retries,
                self.retries <= self.max_retries,
                self.next_seq <= u32::MAX as u64 + 1,
                forall|i: int| 0 <= i < before.len() ==> (#[trigger] before[i]).seq < self.next_seq,
                released <= before.len(),
                self.in_flight@ =~= before.skip(released as int),
                forall|i: int| 0 <= i < released ==> (#[trigger] before[i]).seq <= upto,
                forall|i: int, j: int|
                    0 <= i < j < before.len() ==> (#[trigger] before[i]).seq < (
                    #[trigger] before[j]).seq,
            decreases self.in_flight@.len(),
        {
            assert(self.in_flight@[0] == before[released as int]);
            self.in_flight.remove(0);
            released = released + 1;
        }
        if released > 0 {
            self.retries = 0;
        }
        proof {
            if released < before.len() {
                assert(self.in_flight@[0] == before[released as int]);
            }
            assert forall|i: int| 0 <= i < self.in_flight@.len() implies (
            #[trigger] self.in_flight@[i]).seq < self.next_seq by {
                assert(self.in_flight@[i] == before[released + i]);
            }
            assert forall|i: int, j: int| 0 <= i < j < self.in_flight@.len() implies (
            #[trigger] self.in_flight@[i]).seq < (#[trigger] self.in_flight@[j]).seq by {
                assert(self.in_flight@[i] == before[released + i]);
                assert(self.in_flight@[j] == before[released + j]);
            }
        }
        released
    }

    /// The retransmit timer has run out: returns the sequence numbers to send
    /// again, oldest first, which is everything in flight. Once the timer has
    /// run out as often in a row as the window allows with something still in
    /// flight, the connection has failed with a transport error.
    pub fn on_timeout(&mut self) -> (resend: Result<Vec<u32>, Error>)
        requires
            old(self).wf(),
        ensures
            final(self).wf(),
            final(self).limit() == old(self).limit(),
            final(self).retry_limit() == old(self).retry_limit(),
            final(self)@.next == old(self)@.next,
            final(self)@.in_flight == old(self)@.in_flight,
            resend is Err <==> old(self)@.in_flight.len() > 0 && old(self)@.retries == old(
                self,
            ).retry_limit(),
            match resend {
                Ok(seqs) => seqs@.len() == old(self)@.in_flight.len() && (forall|i: int|
                    0 <= i < seqs@.len() ==> seqs@[i] == (#[trigger] old(self)@.in_flight[i]).seq)
                    && final(self)@.retries == if seqs@.len() > 0 {
                    old(self)@.retries + 1
                } else {
                    old(self)@.retries
                },
                Err(e) => e == Error::TransportError && final(self)@.retries == old(
                    self,
                )@.retries,
            },
    {
        let mut seqs: Vec<u32> = Vec::new();
        if self.in_flight.len() == 0 {
            return Ok(seqs);
        }
        if self.retries >= self.max_retries {
            return Err(Error::TransportError);
        }
        self.retries = self.retries + 1;
        let mut i: usize = 0;
        while i < self.in_flight.len()
            invariant
                i <= self.in_flight@.len(),
                seqs@.len() == i,
                forall|k: int| 0 <= k < i ==> seqs@[k] == (#[trigger] self.in_flight@[k]).seq,
            decreases self.in_flight@.len() - i,
        {
            seqs.push(self.in_flight[i].seq);
            i += 1;
        }
        Ok(seqs)
    }

    /// How many payloads are in flight.
    pub fn in_flight(&self) -> (count: usize)
        ensures
            count == self@.in_flight.len(),
    {
        self.in_flight.len()
    }
}

} // verus!
