//! Plain state that the node keeps per connection and per frame queue.
use vstd::prelude::*;

verus! {

/// Length of an endpoint's secret key.
pub const SECRET_KEY_LEN: usize = 32;

/// The fixed secret key a caller supplied, if it has exactly
/// [`SECRET_KEY_LEN`] bytes; otherwise the node generates a fresh key.
pub fn fixed_secret_key(key: Option<Vec<u8>>) -> (r: Option<[u8; 32]>)
    ensures
        r is Some <==> (key matches Some(v) && v@.len() == SECRET_KEY_LEN),
        r matches Some(a) ==> (key matches Some(v) && a@ == v@),
{
    match key {
        Some(v) => {
            if v.len() != SECRET_KEY_LEN {
                return None;
            }
            let mut a: [u8; 32] = [0u8; 32];
            let mut i: usize = 0;
            while i < SECRET_KEY_LEN
                invariant
                    i <= SECRET_KEY_LEN,
                    v@.len() == SECRET_KEY_LEN,
                    a@.len() == SECRET_KEY_LEN,
                    forall|j: int| 0 <= j < i ==> a@[j] == v@[j],
                decreases SECRET_KEY_LEN - i,
            {
                a[i] = v[i];
                i = i + 1;
            }
            assert(a@ =~= v@);
            Some(a)
        },
        None => None,
    }
}

/// Packet totals of the current connection as of the previous loss check.
#[derive(Clone, Copy, Debug)]
pub struct PacketCounters {
    pub lost_packets: u64,
    pub sent_packets: u64,
}

impl PacketCounters {
    /// Counters before any check.
    pub fn new() -> (r: PacketCounters)
        ensures
            r.lost_packets == 0,
            r.sent_packets == 0,
    {
        PacketCounters { lost_packets: 0, sent_packets: 0 }
    }

    /// Records the connection's cumulative totals and returns how many packets
    /// were lost and sent since the previous check, as `(lost, sent)`.
    pub fn since_last_check(&mut self, lost_total: u64, sent_total: u64) -> (r: (u64, u64))
        requires
            lost_total >= old(self).lost_packets,
            sent_total >= old(self).sent_packets,
        ensures
            (r, *final(self)) == spec_since_last_check(*old(self), lost_total, sent_total),
            r.0 == lost_total - old(self).lost_packets,
            r.1 == sent_total - old(self).sent_packets,
            final(self).lost_packets == lost_total,
            final(self).sent_packets == sent_total,
    {
        let lost = lost_total - self.lost_packets;
        self.lost_packets = lost_total;
        let sent = sent_total - self.sent_packets;
        self.sent_packets = sent_total;
        (lost, sent)
    }
}

/// The deltas a loss check returns and the counters it leaves.
pub open spec fn spec_since_last_check(c: PacketCounters, lost_total: u64, sent_total: u64) -> (
    (u64, u64),
    PacketCounters,
) {
    (
        ((lost_total - c.lost_packets) as u64, (sent_total - c.sent_packets) as u64),
        PacketCounters { lost_packets: lost_total, sent_packets: sent_total },
    )
}

/// Two successive loss checks together report what one check spanning both
/// periods would report, and leave the same counters.
pub proof fn lemma_loss_checks_add_up(
    c: PacketCounters,
    lost1: u64,
    sent1: u64,
    lost2: u64,
    sent2: u64,
)
    requires
        c.lost_packets <= lost1 <= lost2,
        c.sent_packets <= sent1 <= sent2,
    ensures
        ({
            let (d1, c1) = spec_since_last_check(c, lost1, sent1);
            let (d2, c2) = spec_since_last_check(c1, lost2, sent2);
            let (d, c3) = spec_since_last_check(c, lost2, sent2);
            d1.0 + d2.0 == d.0 && d1.1 + d2.1 == d.1 && c2 == c3
        }),
{
}

/// What became of an attempt to put a frame into a bounded frame queue.
#[derive(Clone, Copy, Debug, PartialEq, Eq, Structural)]
pub enum TrySendOutcome {
    /// The frame was queued.
    Sent,
    /// The queue was full; the frame was handed back.
    Full,
    /// Nobody reads the queue any more; the frame was handed back.
    Disconnected,
}

/// What to do next with a frame after an attempt to queue it.
#[derive(Clone, Copy, Debug, PartialEq, Eq, Structural)]
pub enum SendDecision {
    /// Nothing more: the frame was queued, or there is nobody to queue it for.
    Done,
    /// Take the oldest frame out of the queue and try again with this one.
    DropOldestAndRetry,
}

/// The latest frame wins: a full queue loses its oldest frame to make room,
/// and a queue nobody reads silently drops the frame.
pub fn after_try_send(outcome: TrySendOutcome) -> (d: SendDecision)
    ensures
        d == spec_after_try_send(outcome),
{
    match outcome {
        TrySendOutcome::Full => SendDecision::DropOldestAndRetry,
        TrySendOutcome::Sent => SendDecision::Done,
        TrySendOutcome::Disconnected => SendDecision::Done,
    }
}

/// The decision after an attempt with the given outcome.
pub open spec fn spec_after_try_send(outcome: TrySendOutcome) -> SendDecision {
    if outcome == TrySendOutcome::Full {
        SendDecision::DropOldestAndRetry
    } else {
        SendDecision::Done
    }
}

/// What an attempt to queue a frame gives on a queue of capacity `cap` that
/// holds `q` and that nothing else touches meanwhile.
pub open spec fn exclusive_queue_outcome<T>(q: Seq<T>, cap: nat) -> TrySendOutcome {
    if q.len() < cap {
        TrySendOutcome::Sent
    } else {
        TrySendOutcome::Full
    }
}

/// The contents of such a queue after `data` is queued under the drop-oldest
/// policy with at most `tries` attempts; dropping a frame removes the oldest.
pub open spec fn queue_after_send<T>(q: Seq<T>, data: T, cap: nat, tries: nat) -> Seq<T>
    decreases tries,
{
    if tries == 0 {
        q
    } else {
        let outcome = exclusive_queue_outcome(q, cap);
        match spec_after_try_send(outcome) {
            SendDecision::Done => if outcome == TrySendOutcome::Sent {
                q.push(data)
            } else {
                q
            },
            SendDecision::DropOldestAndRetry => queue_after_send(
                q.drop_first(),
                data,
                cap,
                (tries - 1) as nat,
            ),
        }
    }
}

/// On a queue that only the sender touches, the drop-oldest policy always
/// queues the new frame last, drops at most the oldest frame, and never lets
/// the queue exceed its capacity; two attempts always suffice.
pub proof fn lemma_drop_oldest_queue<T>(q: Seq<T>, data: T, cap: nat, tries: nat)
    requires
        cap >= 1,
        q.len() <= cap,
        tries >= 2,
    ensures
        queue_after_send(q, data, cap, tries) == (if q.len() < cap {
            q.push(data)
        } else {
            q.drop_first().push(data)
        }),
        queue_after_send(q, data, cap, tries).len() <= cap,
        queue_after_send(q, data, cap, tries).last() == data,
{
    if q.len() >= cap {
        assert(queue_after_send(q, data, cap, tries) == queue_after_send(
            q.drop_first(),
            data,
            cap,
            (tries - 1) as nat,
        ));
        assert(exclusive_queue_outcome(q.drop_first(), cap) == TrySendOutcome::Sent);
    }
}

} // verus!
