//! A sliding window that refuses replayed and stale packets.

use vstd::prelude::*;

verus! {

/// Number of sequence numbers, counted back from the highest one, that the filter remembers.
pub const WINDOW: u64 = 128;

/// What a [`ReplayFilter`] remembers: the highest sequence number it has accepted, and every
/// accepted sequence number less than [`WINDOW`] behind it.
pub struct Window {
    pub started: bool,
    pub highest: u64,
    pub seen: Set<u64>,
}

impl Window {
    /// The memory of a filter that has not accepted anything.
    pub open spec fn empty() -> Window {
        Window { started: false, highest: 0, seen: Set::empty() }
    }

    /// Whether `seq` is still within reach of the window.
    pub open spec fn recalls(self, seq: u64) -> bool {
        self.highest - seq < WINDOW
    }

    /// Whether a packet numbered `seq` is accepted: the first packet always is, a packet ahead of
    /// the window always is, and any other one if it is recent enough and was not seen before.
    pub open spec fn accepts(self, seq: u64) -> bool {
        !self.started || seq > self.highest || (self.recalls(seq) && !self.seen.contains(seq))
    }

    /// The memory after `seq` was accepted.
    pub open spec fn mark(self, seq: u64) -> Window {
        let highest = if !self.started || seq > self.highest { seq } else { self.highest };
        Window {
            started: true,
            highest,
            seen: Set::new(|s: u64| (s == seq || self.seen.contains(s)) && highest - s < WINDOW),
        }
    }

    /// The memory after a packet numbered `seq` was offered.
    pub open spec fn offer(self, seq: u64) -> Window {
        if self.accepts(seq) {
            self.mark(seq)
        } else {
            self
        }
    }
}

/// Whether bit `i` of `bitmap` is set.
spec fn bit(bitmap: u128, i: u64) -> bool {
    bitmap & (1u128 << i) != 0
}

/// A 128-bit sliding window to prevent cryptographic replay attacks.
/// Tracks the highest sequence number seen and maintains a bitmap of the last 128 packets.
#[derive(Debug)]
pub struct ReplayFilter {
    highest_seq: u64,
    bitmap: u128,
    started: bool,
}

impl View for ReplayFilter {
    type V = Window;

    closed spec fn view(&self) -> Window {
        Window {
            started: self.started,
            highest: self.highest_seq,
            seen: Set::new(
                |s: u64|
                    self.started && s <= self.highest_seq && self.highest_seq - s < WINDOW && bit(
                        self.bitmap,
                        (self.highest_seq - s) as u64,
                    ),
            ),
        }
    }
}

impl ReplayFilter {
    pub fn new() -> (filter: Self)
        ensures
            filter@ == Window::empty(),
    {
        let filter = ReplayFilter { highest_seq: 0, bitmap: 0, started: false };
        assert(filter@.seen =~= Set::empty());
        filter
    }

    /// Checks if a sequence number is valid and marks it as seen.
    /// Returns `true` if the packet should be accepted, `false` if it is a replay or too old.
    pub fn check_and_mark(&mut self, seq: u64) -> (accepted: bool)
        ensures
            accepted == old(self)@.accepts(seq),
            final(self)@ == old(self)@.offer(seq),
    {
        if !self.started {
            self.highest_seq = seq;
            self.bitmap = 1;
            self.started = true;
            proof {
                lemma_first_bit();
                assert(self@.seen =~= old(self)@.mark(seq).seen);
            }
            return true;
        }
        if seq > self.highest_seq {
            // New highest sequence number: shift the window
            let diff = seq - self.highest_seq;
            if diff >= WINDOW {
                // We jumped too far ahead; wipe the bitmap
                self.bitmap = 1;
                proof {
                    lemma_first_bit();
                }
            } else {
                // Shift the bitmap left and set the 0th bit for the new sequence
                self.bitmap = (self.bitmap << diff) | 1;
                proof {
                    lemma_shifted_bits(old(self).bitmap, diff);
                }
            }
            self.highest_seq = seq;
            proof {
                assert(self@.seen =~= old(self)@.mark(seq).seen);
            }
            true
        } else {
            // Packet arrived out of order (seq <= highest_seq)
            let delta = self.highest_seq - seq;
            if delta >= WINDOW {
                // Packet is older than our 128-bit window (too old)
                return false;
            }
            // Check if the bit at index `delta` is already set
            let bit_mask: u128 = 1u128 << delta;
            if (self.bitmap & bit_mask) != 0 {
                // We already saw this packet (replay attack)
                return false;
            }
            // Mark the packet as seen
            self.bitmap = self.bitmap | bit_mask;
            proof {
                lemma_added_bit(old(self).bitmap, delta);
                assert(self@.seen =~= old(self)@.mark(seq).seen);
            }
            true
        }
    }
}

proof fn lemma_first_bit()
    ensures
        forall|i: u64| i < 128 ==> (#[trigger] bit(1u128, i) <==> i == 0),
{
    assert forall|i: u64| i < 128 implies (#[trigger] bit(1u128, i) <==> i == 0) by {
        assert(1u128 & (1u128 << i) != 0 <==> i == 0) by (bit_vector)
            requires
                i < 128,
        ;
    }
}

proof fn lemma_shifted_bits(bitmap: u128, diff: u64)
    requires
        0 < diff < 128,
    ensures
        forall|i: u64|
            i < 128 ==> (#[trigger] bit((bitmap << diff) | 1, i) <==> i == 0 || (i >= diff && bit(
                bitmap,
                (i - diff) as u64,
            ))),
{
    assert forall|i: u64| i < 128 implies (#[trigger] bit((bitmap << diff) | 1, i) <==> i == 0 || (i
        >= diff && bit(bitmap, (i - diff) as u64))) by {
        if i >= diff {
            let j = (i - diff) as u64;
            assert(((bitmap << diff) | 1) & (1u128 << i) != 0 <==> bitmap & (1u128 << j) != 0)
                by (bit_vector)
                requires
                    0 < diff < 128,
                    i < 128,
                    i == j + diff,
            ;
        } else {
            assert(((bitmap << diff) | 1) & (1u128 << i) != 0 <==> i == 0) by (bit_vector)
                requires
                    i < diff < 128,
            ;
        }
    }
}

proof fn lemma_added_bit(bitmap: u128, delta: u64)
    requires
        delta < 128,
    ensures
        forall|i: u64|
            i < 128 ==> (#[trigger] bit(bitmap | (1u128 << delta), i) <==> i == delta || bit(
                bitmap,
                i,
            )),
{
    assert forall|i: u64| i < 128 implies (#[trigger] bit(bitmap | (1u128 << delta), i) <==> i
        == delta || bit(bitmap, i)) by {
        assert((bitmap | (1u128 << delta)) & (1u128 << i) != 0 <==> i == delta || bitmap & (1u128
            << i) != 0) by (bit_vector)
            requires
                i < 128,
                delta < 128,
        ;
    }
}

/// The memory of a new filter to which the packets numbered `seqs` were offered in that order.
pub open spec fn history(seqs: Seq<u64>) -> Window
    decreases seqs.len(),
{
    if seqs.len() == 0 {
        Window::empty()
    } else {
        history(seqs.drop_last()).offer(seqs.last())
    }
}

/// Whether a new filter, offered the packets numbered `seqs` in that order, accepts the one at
/// position `i`.
pub open spec fn accepted(seqs: Seq<u64>, i: int) -> bool {
    history(seqs.take(i)).accepts(seqs[i])
}

/// After any packets were offered, the window stands at the highest number offered, and holds
/// exactly the offered numbers that it recalls.
pub proof fn law_window_holds_what_was_offered(seqs: Seq<u64>)
    ensures
        history(seqs).started <==> seqs.len() > 0,
        seqs.len() > 0 ==> seqs.contains(history(seqs).highest),
        forall|s: u64| #[trigger] seqs.contains(s) ==> s <= history(seqs).highest,
        forall|s: u64| #[trigger]
            history(seqs).seen.contains(s) <==> seqs.contains(s) && history(seqs).recalls(s),
    decreases seqs.len(),
{
    if seqs.len() > 0 {
        let earlier = seqs.drop_last();
        let before = history(earlier);
        let after = history(seqs);
        law_window_holds_what_was_offered(earlier);
        assert(seqs == earlier.push(seqs.last()));
        assert forall|s: u64| #[trigger] seqs.contains(s) <==> (earlier.contains(s) || s
            == seqs.last()) by {
            if earlier.contains(s) {
                let k = choose|k: int| 0 <= k < earlier.len() && earlier[k] == s;
                assert(seqs[k] == s);
            }
            if s == seqs.last() {
                assert(seqs[seqs.len() - 1] == s);
            }
        }
        assert(after == before.offer(seqs.last()));
        assert(seqs.contains(seqs.last()));
    } else {
        assert forall|s: u64| !seqs.contains(s) by {}
    }
}

/// A packet is accepted exactly if its number was never offered before and no number offered
/// before is [`WINDOW`] or more ahead of it.
pub proof fn law_accepts_exactly_the_fresh_and_recent(seqs: Seq<u64>, j: int)
    requires
        0 <= j < seqs.len(),
    ensures
        accepted(seqs, j) <==> forall|i: int|
            0 <= i < j ==> seqs[i] != seqs[j] && (#[trigger] seqs[i]) - seqs[j] < WINDOW,
{
    let earlier = seqs.take(j);
    let window = history(earlier);
    law_window_holds_what_was_offered(earlier);
    assert forall|i: int| 0 <= i < j implies earlier.contains(#[trigger] seqs[i]) by {
        assert(earlier[i] == seqs[i]);
    }
    if j > 0 {
        let k = choose|k: int| 0 <= k < earlier.len() && earlier[k] == window.highest;
        assert(seqs[k] == window.highest);
        if window.seen.contains(seqs[j]) {
            let d = choose|d: int| 0 <= d < earlier.len() && earlier[d] == seqs[j];
            assert(seqs[d] == seqs[j]);
        }
    }
}

/// No sequence number is ever accepted twice.
pub proof fn law_no_packet_is_accepted_twice(seqs: Seq<u64>, i: int, j: int)
    requires
        0 <= i < j < seqs.len(),
        seqs[i] == seqs[j],
    ensures
        !accepted(seqs, j),
{
    law_accepts_exactly_the_fresh_and_recent(seqs, j);
}

} // verus!
