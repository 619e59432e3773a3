//! Media-time intervals and the analysis of a video: which spans of its
//! timeline are audible, and for how long it plays once the silent spans
//! are cut out. All times are microseconds of media time.

use vstd::prelude::*;

verus! {

/// A half-open span `[start_us, end_us)` of media time.
#[derive(Clone, Copy, Debug, PartialEq, Eq, Structural)]
pub struct Interval {
    pub start_us: u64,
    pub end_us: u64,
}

/// Intervals are ordered (each ends no later than the next begins), lie
/// within `[0, duration]`, and none runs backwards. Zero-length intervals
/// are allowed here; see `nonzero_intervals`.
pub open spec fn intervals_ordered(s: Seq<Interval>, duration: nat) -> bool {
    &&& forall|i: int| 0 <= i < s.len() ==> #[trigger] s[i].start_us <= s[i].end_us
    &&& forall|i: int| 0 <= i < s.len() ==> #[trigger] s[i].end_us <= duration
    &&& forall|i: int| 0 <= i < s.len() - 1 ==> #[trigger] s[i].end_us <= s[i + 1].start_us
}

/// Every interval has a positive length.
pub open spec fn nonzero_intervals(s: Seq<Interval>) -> bool {
    forall|i: int| 0 <= i < s.len() ==> #[trigger] s[i].start_us < s[i].end_us
}

/// The instant `t` lies in one of the intervals.
pub open spec fn in_intervals(s: Seq<Interval>, t: int) -> bool {
    exists|i: int| 0 <= i < s.len() && #[trigger] s[i].start_us <= t < s[i].end_us
}

/// Sum of the interval lengths.
pub open spec fn total_len(s: Seq<Interval>) -> nat
    decreases s.len(),
{
    if s.len() == 0 {
        0
    } else {
        (total_len(s.drop_last()) + s.last().end_us - s.last().start_us) as nat
    }
}

/// The result of analysing one video: its audible spans, in ascending
/// order, and the total duration of the media.
///
/// Every value built by this library satisfies `wf`: the audible spans are
/// strictly ascending, non-overlapping, free of zero-length spans, and
/// contained in `[0, duration_us]`.
#[derive(Clone, Debug)]
pub struct VideoAnalysis {
    pub audible: Vec<Interval>,
    pub duration_us: u64,
}

impl VideoAnalysis {
    /// Well-formedness of an analysis.
    pub open spec fn wf(self) -> bool {
        &&& intervals_ordered(self.audible@, self.duration_us as nat)
        &&& nonzero_intervals(self.audible@)
    }
}

/// In an ordered run of intervals, an earlier end never exceeds a later
/// start.
pub proof fn lemma_ordered_chain(s: Seq<Interval>, duration: nat, i: int, j: int)
    requires
        intervals_ordered(s, duration),
        0 <= i < j < s.len(),
    ensures
        s[i].end_us <= s[j].start_us,
    decreases j - i,
{
    if i + 1 == j {
    } else {
        lemma_ordered_chain(s, duration, i + 1, j);
    }
}

/// The lengths of ordered intervals that all begin at or after `lo` sum to
/// no more than the space between `lo` and the duration.
pub proof fn lemma_total_len_bound(s: Seq<Interval>, duration: nat, lo: nat)
    requires
        intervals_ordered(s, duration),
        forall|i: int| 0 <= i < s.len() ==> lo <= #[trigger] s[i].start_us,
        lo <= duration,
    ensures
        total_len(s) <= duration - lo,
    decreases s.len(),
{
    if s.len() == 0 {
    } else {
        let head = s.drop_last();
        let last = s.last();
        assert(intervals_ordered(head, last.start_us as nat)) by {
            assert(forall|i: int|
                0 <= i < head.len() ==> #[trigger] head[i].start_us <= head[i].end_us);
            assert forall|i: int| 0 <= i < head.len() implies #[trigger] head[i].end_us
                <= last.start_us as nat by {
                if i == s.len() - 2 {
                } else {
                    lemma_ordered_chain(s, duration, i, s.len() - 1);
                }
            }
            assert(forall|i: int|
                0 <= i < head.len() - 1 ==> #[trigger] head[i].end_us <= head[i + 1].start_us);
        }
        lemma_total_len_bound(head, last.start_us as nat, lo);
    }
}

/// The audible playtime never exceeds the media duration.
pub proof fn lemma_total_len_le_duration(s: Seq<Interval>, duration: nat)
    requires
        intervals_ordered(s, duration),
    ensures
        total_len(s) <= duration,
{
    lemma_total_len_bound(s, duration, 0);
}

/// Sum the lengths of the audible intervals of an analysis: the expected
/// playtime of the encoded output.
pub fn post_encode_playtime_us(analysis: &VideoAnalysis) -> (r: u64)
    requires
        analysis.wf(),
    ensures
        r == total_len(analysis.audible@),
        r <= analysis.duration_us,
{
    let n = analysis.audible.len();
    let mut acc: u64 = 0;
    let mut i: usize = 0;
    while i < n
        invariant
            0 <= i <= n,
            n == analysis.audible@.len(),
            analysis.wf(),
            acc == total_len(analysis.audible@.take(i as int)),
            acc <= analysis.duration_us,
        decreases n - i,
    {
        let iv = analysis.audible[i];
        proof {
            let t = analysis.audible@.take(i + 1);
            assert(t.drop_last() =~= analysis.audible@.take(i as int));
            assert(t.last() == analysis.audible@[i as int]);
            assert(intervals_ordered(t, analysis.duration_us as nat)) by {
                assert(forall|m: int|
                    0 <= m < t.len() ==> #[trigger] t[m].start_us <= t[m].end_us);
                assert(forall|m: int|
                    0 <= m < t.len() ==> #[trigger] t[m].end_us <= analysis.duration_us);
                assert(forall|m: int|
                    0 <= m < t.len() - 1 ==> #[trigger] t[m].end_us <= t[m + 1].start_us);
            }
            lemma_total_len_le_duration(t, analysis.duration_us as nat);
        }
        acc = acc + (iv.end_us - iv.start_us);
        i = i + 1;
    }
    proof {
        assert(analysis.audible@.take(n as int) =~= analysis.audible@);
        lemma_total_len_le_duration(analysis.audible@, analysis.duration_us as nat);
    }
    acc
}

/// The audible intervals: the complement of the silent intervals over
/// `[0, duration]`, with zero-length spans dropped.
///
/// The result is well formed — ordered, non-overlapping, zero-length free,
/// inside `[0, duration]` — and covers exactly the instants that no silent
/// interval covers.
pub fn audible_from_silence(silence: &Vec<Interval>, duration_us: u64) -> (r: Vec<Interval>)
    requires
        intervals_ordered(silence@, duration_us as nat),
    ensures
        intervals_ordered(r@, duration_us as nat),
        nonzero_intervals(r@),
        forall|t: int|
            0 <= t < duration_us ==> (#[trigger] in_intervals(r@, t) <==> !in_intervals(
                silence@,
                t,
            )),
{
    let n = silence.len();
    let mut audible: Vec<Interval> = Vec::new();
    let mut prev: u64 = 0;
    let mut i: usize = 0;
    while i < n
        invariant
            0 <= i <= n,
            n == silence@.len(),
            intervals_ordered(silence@, duration_us as nat),
            prev <= duration_us,
            intervals_ordered(audible@, duration_us as nat),
            nonzero_intervals(audible@),
            forall|m: int| 0 <= m < audible@.len() ==> #[trigger] audible@[m].end_us <= prev,
            forall|j: int| 0 <= j < i ==> #[trigger] silence@[j].end_us <= prev,
            forall|j: int| i <= j < n ==> prev <= #[trigger] silence@[j].start_us,
            forall|t: int|
                0 <= t < prev ==> (#[trigger] in_intervals(audible@, t) <==> !in_intervals(
                    silence@,
                    t,
                )),
        decreases n - i,
    {
        let iv = silence[i];
        let ghost old_audible = audible@;
        let ghost old_prev = prev;
        if prev < iv.start_us {
            audible.push(Interval { start_us: prev, end_us: iv.start_us });
            proof {
                assert(audible@ =~= old_audible.push(
                    Interval { start_us: old_prev, end_us: iv.start_us },
                ));
            }
        }
        prev = iv.end_us;
        i = i + 1;
        proof {
            assert forall|j: int| i <= j < n implies prev <= #[trigger] silence@[j].start_us by {
                if j > i - 1 {
                    lemma_ordered_chain(silence@, duration_us as nat, i - 1, j);
                }
            }
            assert forall|t: int|
                0 <= t < prev implies (#[trigger] in_intervals(audible@, t)
                <==> !in_intervals(silence@, t)) by {
                if t < old_prev {
                    // The old invariant settles this range; pushing one more
                    // interval starting at old_prev does not cover it.
                    if in_intervals(audible@, t) {
                        let w = choose|w: int|
                            0 <= w < audible@.len() && #[trigger] audible@[w].start_us <= t
                                < audible@[w].end_us;
                        if w < old_audible.len() {
                            assert(in_intervals(old_audible, t));
                        }
                    }
                    if in_intervals(old_audible, t) {
                        let w = choose|w: int|
                            0 <= w < old_audible.len() && #[trigger] old_audible[w].start_us
                                <= t < old_audible[w].end_us;
                        assert(audible@[w].start_us <= t < audible@[w].end_us);
                    }
                } else if t < iv.start_us {
                    // Newly covered by the pushed interval; no silent
                    // interval reaches it.
                    assert(audible@[audible@.len() - 1].start_us <= t < audible@[audible@.len()
                        - 1].end_us);
                    assert(in_intervals(audible@, t));
                    if in_intervals(silence@, t) {
                        let w = choose|w: int|
                            0 <= w < silence@.len() && #[trigger] silence@[w].start_us <= t
                                < silence@[w].end_us;
                        if w <= i - 1 {
                            assert(silence@[w].end_us <= old_prev);
                        } else {
                            lemma_ordered_chain(silence@, duration_us as nat, i - 1, w);
                        }
                    }
                } else {
                    // Inside the silent interval handled this iteration.
                    assert(silence@[i - 1].start_us <= t < silence@[i - 1].end_us);
                    assert(in_intervals(silence@, t));
                    if in_intervals(audible@, t) {
                        let w = choose|w: int|
                            0 <= w < audible@.len() && #[trigger] audible@[w].start_us <= t
                                < audible@[w].end_us;
                        assert(audible@[w].end_us <= iv.start_us);
                    }
                }
            }
        }
    }
    let ghost before_tail = audible@;
    let ghost prev_before = prev;
    if prev < duration_us {
        audible.push(Interval { start_us: prev, end_us: duration_us });
        proof {
            assert(audible@ =~= before_tail.push(
                Interval { start_us: prev_before, end_us: duration_us },
            ));
        }
    }
    proof {
        assert forall|t: int|
            0 <= t < duration_us implies (#[trigger] in_intervals(audible@, t)
            <==> !in_intervals(silence@, t)) by {
            if t < prev_before {
                if in_intervals(audible@, t) {
                    let w = choose|w: int|
                        0 <= w < audible@.len() && #[trigger] audible@[w].start_us <= t
                            < audible@[w].end_us;
                    if w < before_tail.len() {
                        assert(in_intervals(before_tail, t));
                    }
                }
                if in_intervals(before_tail, t) {
                    let w = choose|w: int|
                        0 <= w < before_tail.len() && #[trigger] before_tail[w].start_us <= t
                            < before_tail[w].end_us;
                    assert(audible@[w].start_us <= t < audible@[w].end_us);
                }
            } else {
                // Past every silent interval: the tail span covers it.
                assert(prev_before < duration_us);
                assert(audible@[audible@.len() - 1].start_us <= t < audible@[audible@.len()
                    - 1].end_us);
                assert(in_intervals(audible@, t));
                if in_intervals(silence@, t) {
                    let w = choose|w: int|
                        0 <= w < silence@.len() && #[trigger] silence@[w].start_us <= t
                            < silence@[w].end_us;
                    assert(silence@[w].end_us <= prev_before);
                }
            }
        }
    }
    audible
}

/// Check that intervals are ordered, non-overlapping and inside
/// `[0, duration]` — the shape this library demands of the silent
/// intervals reported by the encoder before taking their complement.
pub fn intervals_are_ordered(v: &Vec<Interval>, duration_us: u64) -> (r: bool)
    ensures
        r == intervals_ordered(v@, duration_us as nat),
{
    let n = v.len();
    let mut i: usize = 0;
    while i < n
        invariant
            0 <= i <= n,
            n == v@.len(),
            forall|m: int| 0 <= m < i ==> #[trigger] v@[m].start_us <= v@[m].end_us,
            forall|m: int| 0 <= m < i ==> #[trigger] v@[m].end_us <= duration_us,
            forall|m: int| 0 <= m < i - 1 ==> #[trigger] v@[m].end_us <= v@[m + 1].start_us,
        decreases n - i,
    {
        let iv = v[i];
        if iv.start_us > iv.end_us || iv.end_us > duration_us {
            return false;
        }
        if i > 0 {
            let before = v[i - 1];
            if before.end_us > iv.start_us {
                return false;
            }
        }
        i = i + 1;
    }
    true
}

} // verus!
