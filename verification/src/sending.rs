//! Decisions of the payload senders: how often they send, and which of their
//! payloads goes out next.

use vstd::prelude::*;

verus! {

/// The tick period, in milliseconds, of a sender that sends `frequency`
/// payloads per second.
pub open spec fn spec_tick_period_ms(frequency: u64) -> u64 {
    1000u64 / frequency
}

/// The period of a sender's ticker: a thousand milliseconds divided by the
/// frequency, rounded down. The ticker refuses a period of zero, so the
/// frequency is between one and a thousand.
pub fn tick_period_ms(frequency: u64) -> (period: u64)
    requires
        1 <= frequency <= 1000,
    ensures
        period == spec_tick_period_ms(frequency),
        period >= 1,
        period * frequency <= 1000 < (period + 1) * frequency,
{
    let period = 1000 / frequency;
    assert(period * frequency <= 1000 < (period + 1) * frequency) by (nonlinear_arith)
        requires
            period == 1000u64 / frequency,
            frequency >= 1,
    ;
    period
}

/// The number of datagrams the video client sends, and counts as sent, on
/// each tick.
pub const BURST_SIZE: u64 = 10;

/// The payload index that a cursor at `next` picks among `count` payloads:
/// `next` itself, or the first payload once `next` has run past the end.
pub open spec fn picked_index(next: usize, count: usize) -> usize {
    if next >= count {
        0
    } else {
        next
    }
}

/// The position of a sender among its payloads.
pub struct PayloadCursor {
    next: usize,
}

impl PayloadCursor {
    /// The position the cursor will pick from.
    pub closed spec fn position(&self) -> usize {
        self.next
    }

    /// A cursor at the first payload.
    pub fn new() -> (cursor: PayloadCursor)
        ensures
            cursor.position() == 0,
    {
        PayloadCursor { next: 0 }
    }

    /// The position the cursor will pick from.
    pub fn current(&self) -> (position: usize)
        ensures
            position == self.position(),
    {
        self.next
    }

    /// Picks the payload to send among `count` of them, going back to the
    /// first one after the last; the cursor stays on it until `advance`.
    pub fn pick(&mut self, count: usize) -> (index: usize)
        requires
            count > 0,
        ensures
            index == picked_index(old(self).position(), count),
            index < count,
            final(self).position() == index,
    {
        if self.next >= count {
            self.next = 0;
        }
        self.next
    }

    /// Moves past the payload just sent successfully. A failed send leaves
    /// the cursor where it was, so the same payload is picked again.
    pub fn advance(&mut self)
        requires
            old(self).position() < usize::MAX,
        ensures
            final(self).position() == old(self).position() + 1,
    {
        self.next = self.next + 1;
    }
}

/// Payloads go out in turn: if the cursor picks payload `k % count` for the
/// k-th successful send, then after that send it picks `(k + 1) % count`, so
/// from a new cursor the k-th successful send carries payload `k % count`,
/// however many sends failed in between.
pub proof fn lemma_payloads_in_turn(next: usize, count: usize, k: nat)
    requires
        count > 0,
        picked_index(next, count) == k % (count as nat),
    ensures
        picked_index(picked_index(next, count), count) == k % (count as nat),
        picked_index((picked_index(next, count) + 1) as usize, count) == (k + 1) % (count as nat),
{
    let i = picked_index(next, count) as int;
    let c = count as int;
    assert(0 <= i < c);
    assert(k == (k / (c as nat)) * c + i) by (nonlinear_arith)
        requires
            i == k % (c as nat),
            c > 0,
    ;
    if i + 1 < c {
        assert((k + 1) % (c as nat) == i + 1) by (nonlinear_arith)
            requires
                k == (k / (c as nat)) * c + i,
                0 <= i,
                i + 1 < c,
        ;
    } else {
        assert((k + 1) % (c as nat) == 0) by (nonlinear_arith)
            requires
                k == (k / (c as nat)) * c + i,
                i + 1 == c,
                c > 0,
        ;
    }
}

} // verus!
