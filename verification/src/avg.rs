//! A sliding window of recent durations and its average, and a duration
//! rendered in the largest sensible units. Durations are microseconds
//! unless a name says otherwise.

use vstd::prelude::*;

use crate::text::dec_digits;

verus! {

/// Sum of a run of durations.
pub open spec fn sum_of(s: Seq<u64>) -> nat
    decreases s.len(),
{
    if s.len() == 0 {
        0
    } else {
        sum_of(s.drop_last()) + s.last() as nat
    }
}

/// A sum of durations is at most the largest duration times the count.
proof fn lemma_sum_bound(s: Seq<u64>)
    ensures
        sum_of(s) <= s.len() * (u64::MAX as nat),
    decreases s.len(),
{
    if s.len() == 0 {
    } else {
        lemma_sum_bound(s.drop_last());
        assert((s.len() - 1) * (u64::MAX as nat) + u64::MAX == s.len() * (u64::MAX as nat))
            by {
            vstd::arithmetic::mul::lemma_mul_is_distributive_sub_other_way(
                u64::MAX as int,
                s.len() as int,
                1,
            );
        }
    }
}

/// The last `size` durations pushed, and their average.
pub struct SlidingAverage {
    pub items: Vec<u64>,
    pub size: usize,
}

impl SlidingAverage {
    /// The window invariant: the window is bounded and never empty by
    /// construction once something was pushed.
    pub open spec fn wf(self) -> bool {
        &&& self.size >= 1
        &&& self.items@.len() <= self.size
    }

    /// An empty window of the given bound.
    pub fn new(size: usize) -> (r: SlidingAverage)
        requires
            size >= 1,
        ensures
            r.wf(),
            r.size == size,
            r.items@.len() == 0,
    {
        SlidingAverage { items: Vec::new(), size }
    }

    /// Push a duration, dropping the oldest one once the window is full,
    /// and return the new average.
    pub fn push(&mut self, item: u64) -> (r: u64)
        requires
            old(self).wf(),
        ensures
            final(self).wf(),
            final(self).size == old(self).size,
            final(self).items@ == (if old(self).items@.len() + 1 > old(self).size {
                old(self).items@.push(item).drop_first()
            } else {
                old(self).items@.push(item)
            }),
            final(self).items@.len() >= 1,
            r == sum_of(final(self).items@) / (final(self).items@.len() as nat),
    {
        self.items.push(item);
        if self.items.len() > self.size {
            let ghost pushed = self.items@;
            let _ = self.items.remove(0);
            proof {
                assert(self.items@ =~= pushed.drop_first());
            }
        }
        self.average()
    }

    /// The average of the durations in the window.
    pub fn average(&self) -> (r: u64)
        requires
            self.items@.len() > 0,
        ensures
            r == sum_of(self.items@) / (self.items@.len() as nat),
    {
        let n = self.items.len();
        let mut acc: u128 = 0;
        let mut i: usize = 0;
        while i < n
            invariant
                0 <= i <= n,
                n == self.items@.len(),
                acc == sum_of(self.items@.take(i as int)),
                acc <= (i as nat) * (u64::MAX as nat),
            decreases n - i,
        {
            proof {
                let t = self.items@.take(i + 1);
                assert(t.drop_last() =~= self.items@.take(i as int));
                assert(t.last() == self.items@[i as int]);
                assert((i as nat) * (u64::MAX as nat) + u64::MAX == (i + 1) * (
                u64::MAX as nat)) by {
                    vstd::arithmetic::mul::lemma_mul_is_distributive_sub_other_way(
                        u64::MAX as int,
                        i + 1,
                        1,
                    );
                }
                assert((i + 1) * (u64::MAX as nat) <= (u64::MAX as nat) * (
                u64::MAX as nat)) by {
                    vstd::arithmetic::mul::lemma_mul_inequality(
                        i + 1,
                        u64::MAX as int,
                        u64::MAX as int,
                    );
                    vstd::arithmetic::mul::lemma_mul_is_commutative(
                        i + 1,
                        u64::MAX as int,
                    );
                }
            }
            acc = acc + (self.items[i] as u128);
            i = i + 1;
        }
        proof {
            assert(self.items@.take(n as int) =~= self.items@);
            lemma_sum_bound(self.items@);
            assert(sum_of(self.items@) / (n as nat) <= (n as nat) * (u64::MAX as nat) / (
            n as nat)) by {
                vstd::arithmetic::div_mod::lemma_div_is_ordered(
                    sum_of(self.items@) as int,
                    (n as nat) * (u64::MAX as nat) as int,
                    n as int,
                );
            }
            assert((n as nat) * (u64::MAX as nat) / (n as nat) == u64::MAX as nat) by {
                vstd::arithmetic::div_mod::lemma_div_by_multiple(u64::MAX as int, n as int);
                vstd::arithmetic::mul::lemma_mul_is_commutative(n as int, u64::MAX as int);
            }
        }
        let avg: u128 = acc / (n as u128);
        avg as u64
    }
}

/// A duration in whole seconds, rendered for people: the largest fitting
/// unit leads, and each smaller unit down to seconds follows.
#[derive(Clone, Copy, Debug, PartialEq, Eq, Structural)]
pub struct DisplayDuration(pub u64);

/// The rendering of a second count: seconds alone under a minute, minutes
/// and seconds under an hour, hours down to seconds under a day, and days
/// down to seconds beyond that.
pub open spec fn display_duration_repr(secs: nat) -> Seq<char> {
    if secs < 60 {
        dec_digits(secs) + "s"@
    } else if secs < 3600 {
        dec_digits(secs / 60) + "m "@ + dec_digits(secs % 60) + "s"@
    } else if secs < 86400 {
        dec_digits(secs / 3600) + "h "@ + dec_digits((secs / 60) % 60) + "m "@ + dec_digits(
            secs % 60,
        ) + "s"@
    } else {
        dec_digits(secs / 86400) + "d "@ + dec_digits((secs / 3600) % 24) + "h "@
            + dec_digits((secs / 60) % 60) + "m "@ + dec_digits(secs % 60) + "s"@
    }
}

impl DisplayDuration {
    /// Render the duration, as `display_duration_repr` lays it out.
    pub fn render(&self) -> (r: String)
        ensures
            r@ == display_duration_repr(self.0 as nat),
    {
        let secs = self.0;
        if secs < 60 {
            let mut out = crate::text::render_u64(secs);
            out.append("s");
            proof {
                assert(out@ =~= display_duration_repr(secs as nat));
            }
            out
        } else if secs < 3600 {
            let mut out = crate::text::render_u64(secs / 60);
            out.append("m ");
            let tail = crate::text::render_u64(secs % 60);
            out.append(tail.as_str());
            out.append("s");
            proof {
                assert(out@ =~= display_duration_repr(secs as nat));
            }
            out
        } else if secs < 86400 {
            let mut out = crate::text::render_u64(secs / 3600);
            out.append("h ");
            let mins = crate::text::render_u64((secs / 60) % 60);
            out.append(mins.as_str());
            out.append("m ");
            let tail = crate::text::render_u64(secs % 60);
            out.append(tail.as_str());
            out.append("s");
            proof {
                assert(out@ =~= display_duration_repr(secs as nat));
            }
            out
        } else {
            let mut out = crate::text::render_u64(secs / 86400);
            out.append("d ");
            let hours = crate::text::render_u64((secs / 3600) % 24);
            out.append(hours.as_str());
            out.append("h ");
            let mins = crate::text::render_u64((secs / 60) % 60);
            out.append(mins.as_str());
            out.append("m ");
            let tail = crate::text::render_u64(secs % 60);
            out.append(tail.as_str());
            out.append("s");
            proof {
                assert(out@ =~= display_duration_repr(secs as nat));
            }
            out
        }
    }
}

} // verus!
