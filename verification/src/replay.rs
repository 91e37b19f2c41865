//! The sliding anti-replay window of the transport receive path: a
//! high-water mark and one remembered bit per counter inside the window.
//! No counter is ever accepted twice, and nothing below the window is
//! accepted at all.

use vstd::prelude::*;
use crate::types::REPLAY_WINDOW;

verus! {

/// Receive-side replay protection for one session.  `next` is one above
/// the highest counter accepted so far; `bits[c % REPLAY_WINDOW]` remembers
/// whether counter `c` was accepted, for every `c` inside the window.  The
/// ghost set holds every counter ever accepted.
pub struct ReplayWindow {
    next: u64,
    bits: Vec<bool>,
    accepted: Ghost<Set<u64>>,
}

/// Two distinct counters less than one window width apart never share a
/// bitmap slot.
proof fn lemma_mod_distinct(a: u64, b: u64)
    requires
        a != b,
        a + REPLAY_WINDOW > b && b + REPLAY_WINDOW > a,
    ensures
        a % REPLAY_WINDOW != b % REPLAY_WINDOW,
{
    let w = REPLAY_WINDOW as int;
    let ai = a as int;
    let bi = b as int;
    vstd::arithmetic::div_mod::lemma_fundamental_div_mod(ai, w);
    vstd::arithmetic::div_mod::lemma_fundamental_div_mod(bi, w);
    if ai % w == bi % w {
        let qa = ai / w;
        let qb = bi / w;
        assert(ai - bi == w * (qa - qb));
        if qa > qb {
            assert(ai - bi >= w) by (nonlinear_arith)
                requires ai - bi == w * (qa - qb), qa - qb >= 1, w > 0,
            ;
        } else if qa < qb {
            assert(bi - ai >= w) by (nonlinear_arith)
                requires bi - ai == w * (qb - qa), qb - qa >= 1, w > 0,
            ;
        }
        assert(false);
    }
}

impl ReplayWindow {
    /// The set of counters this window has accepted.
    pub closed spec fn accepted_set(self) -> Set<u64> {
        self.accepted@
    }

    /// One above the highest accepted counter (0 while none was).
    pub closed spec fn high_water(self) -> u64 {
        self.next
    }

    /// The window's bookkeeping is sound: the bitmap mirrors the accepted
    /// set inside the window, and nothing at or above `next` was accepted.
    pub closed spec fn wf(self) -> bool {
        &&& self.bits@.len() == REPLAY_WINDOW
        &&& forall|c: u64| #[trigger] self.accepted@.contains(c) ==> c < self.next
        &&& forall|c: u64| c + REPLAY_WINDOW >= self.next && c < self.next
            ==> self.accepted@.contains(c) == #[trigger] self.bits@[(c % REPLAY_WINDOW) as int]
    }

    /// A fresh window: nothing accepted yet.
    pub fn new() -> (r: ReplayWindow)
        ensures
            r.wf(),
            r.accepted_set() == Set::<u64>::empty(),
            r.high_water() == 0,
    {
        let bits = all_false();
        ReplayWindow { next: 0, bits, accepted: Ghost(Set::empty()) }
    }

    /// Accept `counter` if it is new and not below the window, and remember
    /// it; reject duplicates and everything below the window.  No counter
    /// is accepted twice, and every accepted counter exceeds every
    /// previously accepted one minus the window width.
    pub fn check_and_update(&mut self, counter: u64) -> (r: bool)
        requires
            old(self).wf(),
            counter < 0xFFFF_FFFF_FFFF_0000,
        ensures
            final(self).wf(),
            r == (!old(self).accepted_set().contains(counter)
                && counter + REPLAY_WINDOW >= old(self).high_water()),
            r ==> final(self).accepted_set() == old(self).accepted_set().insert(counter)
                && final(self).high_water() > counter
                && (forall|p: u64| old(self).accepted_set().contains(p)
                    ==> counter + REPLAY_WINDOW > p),
            !r ==> *final(self) == *old(self),
    {
        if counter + REPLAY_WINDOW < self.next {
            return false;
        }
        if counter < self.next {
            // Inside the window: the remembered bit decides.
            let idx = (counter % REPLAY_WINDOW) as usize;
            if self.bits[idx] {
                return false;
            }
            self.bits.set(idx, true);
            proof {
                self.accepted@ = self.accepted@.insert(counter);
                assert forall|c: u64| c + REPLAY_WINDOW >= self.next && c < self.next
                    implies self.accepted@.contains(c)
                        == self.bits@[(c % REPLAY_WINDOW) as int] by {
                    if c != counter {
                        lemma_mod_distinct(c, counter);
                    }
                }
            }
            return true;
        }
        // At or above the window top: rebuild the window around `counter`.
        let lo: u64 = if counter >= REPLAY_WINDOW - 1 { counter - (REPLAY_WINDOW - 1) } else { 0 };
        let mut fresh = all_false();
        let mut c: u64 = lo;
        while c <= counter
            invariant
                old(self).wf(),
                *self == *old(self),
                self.next <= counter,
                counter < 0xFFFF_FFFF_FFFF_0000,
                lo <= c && c <= counter + 1,
                counter < lo + REPLAY_WINDOW,
                fresh@.len() == REPLAY_WINDOW,
                forall|p: u64| lo <= p && p < c
                    ==> #[trigger] fresh@[(p % REPLAY_WINDOW) as int]
                        == (p == counter || self.accepted@.contains(p)),
            decreases counter + 1 - c,
        {
            let v = if c == counter {
                true
            } else if c < self.next {
                self.bits[(c % REPLAY_WINDOW) as usize]
            } else {
                false
            };
            proof {
                if c < self.next {
                    assert(c + REPLAY_WINDOW >= self.next);
                } else if c != counter {
                    assert(!self.accepted@.contains(c));
                }
            }
            fresh.set((c % REPLAY_WINDOW) as usize, v);
            proof {
                assert forall|p: u64| lo <= p && p < c + 1
                    implies #[trigger] fresh@[(p % REPLAY_WINDOW) as int]
                        == (p == counter || self.accepted@.contains(p)) by {
                    if p != c {
                        lemma_mod_distinct(p, c);
                    }
                }
            }
            c = c + 1;
        }
        self.bits = fresh;
        self.next = counter + 1;
        proof {
            self.accepted@ = self.accepted@.insert(counter);
            assert forall|q: u64| q + REPLAY_WINDOW >= self.next && q < self.next
                implies self.accepted@.contains(q)
                    == self.bits@[(q % REPLAY_WINDOW) as int] by {
                assert(lo <= q && q <= counter);
            }
        }
        true
    }
}

/// A window-width vector of false bits.
fn all_false() -> (r: Vec<bool>)
    ensures
        r@.len() == REPLAY_WINDOW,
        forall|j: int| 0 <= j < r@.len() ==> !r@[j],
{
    let mut bits: Vec<bool> = Vec::new();
    let mut i: usize = 0;
    while i < 8192
        invariant
            i <= 8192,
            bits@.len() == i,
            forall|j: int| 0 <= j < i ==> !bits@[j],
        decreases 8192 - i,
    {
        bits.push(false);
        i = i + 1;
    }
    bits
}

} // verus!
