//! Sliding window of probe outcomes and the score derived from it.

use vstd::prelude::*;
use vstd::relations::{sorted_by, total_ordering};
use vstd::seq_lib::lemma_sorted_unique;
use vstd::arithmetic::div_mod::{
    lemma_div_denominator, lemma_div_is_ordered, lemma_div_multiples_vanish,
    lemma_div_pos_is_pos,
};
use std::collections::VecDeque;

verus! {

/// Largest number of probe outcomes a window keeps.
pub const MAX_LATENCY_QUEUE_SIZE: usize = 37;

/// Seconds between two probes of one server, and between two elections.
pub const DEFAULT_CHECK_INTERVAL_SEC: u64 = 6;

/// Seconds after which a probe is given up.
pub const DEFAULT_CHECK_TIMEOUT_SEC: u64 = 2;

/// The probe timeout in milliseconds; the latency assumed for a window
/// that holds nothing but errors.
pub const MAX_LATENCY_MS: u64 = DEFAULT_CHECK_TIMEOUT_SEC * 1000;

/// Score of a server that has never been probed: the worst of all.
pub const WORST_SCORE: u64 = 2 * 1000;

/// Outcome of one probe.
#[derive(Debug, Copy, Clone, PartialEq, Eq, Structural)]
pub enum Score {
    /// The probe came back after this many milliseconds.
    Latency(u64),
    /// The probe failed.
    Errored,
}

/// The order by which latencies are sorted.
pub open spec fn leq_ms() -> spec_fn(u64, u64) -> bool {
    |a: u64, b: u64| a <= b
}

/// The latencies of a window, in window order.
pub open spec fn latencies(w: Seq<Score>) -> Seq<u64>
    decreases w.len(),
{
    if w.len() == 0 {
        Seq::empty()
    } else {
        match w.last() {
            Score::Latency(l) => latencies(w.drop_last()).push(l),
            Score::Errored => latencies(w.drop_last()),
        }
    }
}

/// The number of errors in a window.
pub open spec fn error_count(w: Seq<Score>) -> nat
    decreases w.len(),
{
    if w.len() == 0 {
        0
    } else {
        match w.last() {
            Score::Latency(_) => error_count(w.drop_last()),
            Score::Errored => error_count(w.drop_last()) + 1,
        }
    }
}

/// The median of a non-empty sorted sequence; for an even length the mean
/// of the two middle elements, rounded down.
pub open spec fn median(sorted: Seq<u64>) -> int {
    let mid = sorted.len() as int / 2;
    if sorted.len() % 2 == 0 {
        (sorted[mid] + sorted[mid - 1]) / 2
    } else {
        sorted[mid] as int
    }
}

/// The latency that stands for a window: the median of its latencies, or
/// the probe timeout where it holds no latency at all.
pub open spec fn mid_latency(w: Seq<Score>) -> int {
    if latencies(w).len() == 0 {
        MAX_LATENCY_MS as int
    } else {
        median(latencies(w).sort_by(leq_ms()))
    }
}

/// `(mid / MAX_LATENCY_MS + errors / len) * 1000`, rounded down: the exact
/// value of that expression over the rationals, with no intermediate
/// rounding.
pub open spec fn blend(mid: int, errors: int, len: int) -> int {
    ((mid * len + MAX_LATENCY_MS * errors) * 1000) / (MAX_LATENCY_MS * len)
}

/// The score of a window. Lower is better.
pub open spec fn window_score(w: Seq<Score>) -> int {
    if w.len() == 0 {
        WORST_SCORE as int
    } else {
        blend(mid_latency(w), error_count(w) as int, w.len() as int)
    }
}

/// The last `n` elements of `s`, or all of `s` where it is shorter.
pub open spec fn keep_last(s: Seq<Score>, n: int) -> Seq<Score> {
    if s.len() > n {
        s.subrange(s.len() - n, s.len() as int)
    } else {
        s
    }
}

/// The window after one more outcome.
pub open spec fn window_push(w: Seq<Score>, lat: Score) -> Seq<Score> {
    keep_last(w.push(lat), MAX_LATENCY_QUEUE_SIZE as int)
}

/// Latencies are totally ordered by `leq_ms`.
pub proof fn lemma_leq_ms_total()
    ensures
        total_ordering(leq_ms()),
{
}

/// What one more outcome adds to the latencies and to the error count.
pub proof fn lemma_push_outcome(w: Seq<Score>, lat: Score)
    ensures
        latencies(w.push(lat)) == match lat {
            Score::Latency(l) => latencies(w).push(l),
            Score::Errored => latencies(w),
        },
        error_count(w.push(lat)) == match lat {
            Score::Latency(_) => error_count(w),
            Score::Errored => error_count(w) + 1,
        },
{
    assert(w.push(lat).drop_last() == w);
}

/// Every outcome is either a latency or an error.
pub proof fn lemma_outcomes_partition(w: Seq<Score>)
    ensures
        latencies(w).len() + error_count(w) == w.len(),
    decreases w.len(),
{
    if w.len() > 0 {
        lemma_outcomes_partition(w.drop_last());
    }
}

/// The blend is the sum of the two weighted parts over twice the length.
pub proof fn lemma_blend_reduced(mid: int, errors: int, len: int)
    requires
        0 <= mid,
        0 <= errors,
        0 < len,
    ensures
        blend(mid, errors, len) == (mid * len + MAX_LATENCY_MS * errors) / (2 * len),
{
    let x = mid * len + MAX_LATENCY_MS * errors;
    assert(0 <= mid * len) by (nonlinear_arith)
        requires
            0 <= mid,
            0 < len,
    ;
    assert(MAX_LATENCY_MS == 2000);
    lemma_div_denominator(x * 1000, 1000, 2 * len);
    lemma_div_multiples_vanish(x, 1000);
}

/// The blend lies between zero and half the latency plus a thousand.
pub proof fn lemma_blend_bounds(mid: int, errors: int, len: int)
    requires
        0 <= mid,
        0 <= errors <= len,
        0 < len,
    ensures
        0 <= blend(mid, errors, len) <= (mid + MAX_LATENCY_MS) / 2,
{
    lemma_blend_reduced(mid, errors, len);
    let x = mid * len + MAX_LATENCY_MS * errors;
    let top = (mid + MAX_LATENCY_MS) * len;
    assert(0 <= mid * len) by (nonlinear_arith)
        requires
            0 <= mid,
            0 < len,
    ;
    assert((mid + 2000) * len == mid * len + 2000 * len) by (nonlinear_arith);
    lemma_div_pos_is_pos(x, 2 * len);
    lemma_div_is_ordered(x, top, 2 * len);
    lemma_div_denominator(top, len, 2);
    lemma_div_multiples_vanish(mid + MAX_LATENCY_MS, len);
}

/// Sorts `v` with the standard library's `sort` on slices. Trusted: the
/// outcome is in ascending order and holds the elements it held before,
/// each as often as before.
#[verifier::external_body]
fn sort_latencies(v: &mut Vec<u64>)
    ensures
        sorted_by(final(v)@, leq_ms()),
        final(v)@.to_multiset() == old(v)@.to_multiset(),
{
    v.sort();
}

/// The probe outcomes of one server, newest last.
#[derive(Debug)]
pub struct ServerLatencyInner {
    latency_queue: VecDeque<Score>,
}

impl View for ServerLatencyInner {
    type V = Seq<Score>;

    closed spec fn view(&self) -> Seq<Score> {
        self.latency_queue@
    }
}

impl ServerLatencyInner {
    /// A window never holds more than `MAX_LATENCY_QUEUE_SIZE` outcomes.
    pub open spec fn wf(&self) -> bool {
        self@.len() <= MAX_LATENCY_QUEUE_SIZE
    }

    /// An empty window.
    pub fn new() -> (r: ServerLatencyInner)
        ensures
            r.wf(),
            r@ == Seq::<Score>::empty(),
    {
        ServerLatencyInner { latency_queue: VecDeque::with_capacity(MAX_LATENCY_QUEUE_SIZE) }
    }

    /// The outcomes that the window holds, oldest first.
    pub fn outcomes(&self) -> (r: Vec<Score>)
        ensures
            r@ == self@,
    {
        let mut r: Vec<Score> = Vec::new();
        let mut i: usize = 0;
        while i < self.latency_queue.len()
            invariant
                i <= self.latency_queue.len(),
                r@ == self.latency_queue@.take(i as int),
            decreases self.latency_queue.len() - i,
        {
            r.push(self.latency_queue[i]);
            assert(self.latency_queue@.take(i + 1) == self.latency_queue@.take(i as int).push(
                self.latency_queue@[i as int],
            ));
            i += 1;
        }
        r
    }

    /// Appends an outcome, drops the oldest one where the window is full,
    /// and returns the score of the window as it then stands.
    pub fn push(&mut self, lat: Score) -> (r: u64)
        requires
            old(self).wf(),
        ensures
            final(self).wf(),
            final(self)@ == window_push(old(self)@, lat),
            r == window_score(final(self)@),
    {
        self.latency_queue.push_back(lat);
        if self.latency_queue.len() > MAX_LATENCY_QUEUE_SIZE {
            self.latency_queue.pop_front();
        }
        self.score()
    }

    /// The score of the window: two thousand while it is empty, else the
    /// median latency and the share of errors, each on a scale of a
    /// thousand, added up.
    pub fn score(&self) -> (r: u64)
        requires
            self.wf(),
        ensures
            r == window_score(self@),
    {
        let len = self.latency_queue.len();
        if len == 0 {
            return WORST_SCORE;
        }
        let ghost w = self@;
        let mut vec_lat: Vec<u64> = Vec::new();
        let mut acc_err: u64 = 0;
        let mut i: usize = 0;
        while i < len
            invariant
                i <= len,
                len == w.len(),
                len <= MAX_LATENCY_QUEUE_SIZE,
                w == self.latency_queue@,
                vec_lat@ == latencies(w.take(i as int)),
                acc_err == error_count(w.take(i as int)),
                acc_err <= i,
            decreases len - i,
        {
            proof {
                assert(w.take(i + 1) == w.take(i as int).push(w[i as int]));
                lemma_push_outcome(w.take(i as int), w[i as int]);
            }
            match self.latency_queue[i] {
                Score::Latency(l) => vec_lat.push(l),
                Score::Errored => acc_err += 1,
            }
            i += 1;
        }
        proof {
            assert(w.take(len as int) == w);
            lemma_outcomes_partition(w);
        }
        let max_lat: u64 = MAX_LATENCY_MS;
        let mid_lat: u64 = if vec_lat.len() == 0 {
            max_lat
        } else {
            sort_latencies(&mut vec_lat);
            proof {
                let unsorted = latencies(w);
                vstd::seq_lib::to_multiset_len(unsorted);
                vstd::seq_lib::to_multiset_len(vec_lat@);
                lemma_leq_ms_total();
                unsorted.lemma_sort_by_ensures(leq_ms());
                lemma_sorted_unique(vec_lat@, unsorted.sort_by(leq_ms()), leq_ms());
            }
            let mid = vec_lat.len() / 2;
            if vec_lat.len() % 2 == 0 {
                ((vec_lat[mid] as u128 + vec_lat[mid - 1] as u128) / 2) as u64
            } else {
                vec_lat[mid]
            }
        };
        proof {
            lemma_blend_bounds(mid_lat as int, acc_err as int, len as int);
            assert(mid_lat as int * len as int <= u64::MAX * 37) by (nonlinear_arith)
                requires
                    0 <= mid_lat <= u64::MAX,
                    0 < len <= 37,
            ;
        }
        let num: u128 = (mid_lat as u128 * len as u128 + max_lat as u128 * acc_err as u128) * 1000;
        let den: u128 = max_lat as u128 * len as u128;
        (num / den) as u64
    }
}

/// The handle through which the prober of one server feeds its window.
#[derive(Debug)]
pub struct ServerLatency {
    inner: ServerLatencyInner,
}

impl View for ServerLatency {
    type V = Seq<Score>;

    closed spec fn view(&self) -> Seq<Score> {
        self.inner@
    }
}

impl ServerLatency {
    /// The window is not longer than a window may be.
    pub open spec fn wf(&self) -> bool {
        self@.len() <= MAX_LATENCY_QUEUE_SIZE
    }

    /// A handle on an empty window.
    pub fn new() -> (r: ServerLatency)
        ensures
            r.wf(),
            r@ == Seq::<Score>::empty(),
    {
        ServerLatency { inner: ServerLatencyInner::new() }
    }

    /// The outcomes that the window holds, oldest first.
    pub fn outcomes(&self) -> (r: Vec<Score>)
        ensures
            r@ == self@,
    {
        self.inner.outcomes()
    }

    /// Records an outcome and returns the score that follows from it.
    pub fn push(&mut self, lat: Score) -> (r: u64)
        requires
            old(self).wf(),
        ensures
            final(self).wf(),
            final(self)@ == window_push(old(self)@, lat),
            r == window_score(final(self)@),
    {
        self.inner.push(lat)
    }
}

/// The window that a run of outcomes leaves, pushed one by one.
pub open spec fn window_after(w: Seq<Score>, outcomes: Seq<Score>) -> Seq<Score>
    decreases outcomes.len(),
{
    if outcomes.len() == 0 {
        w
    } else {
        window_push(window_after(w, outcomes.drop_last()), outcomes.last())
    }
}

/// A window holds the newest outcomes in the order in which they came: after
/// any run of pushes it is the tail of what it held followed by what was
/// pushed, cut to `MAX_LATENCY_QUEUE_SIZE`. Once more outcomes than that were
/// pushed, it holds exactly the last `MAX_LATENCY_QUEUE_SIZE` of them.
pub proof fn lemma_window_cap(w: Seq<Score>, outcomes: Seq<Score>)
    requires
        w.len() <= MAX_LATENCY_QUEUE_SIZE,
    ensures
        window_after(w, outcomes) == keep_last(w + outcomes, MAX_LATENCY_QUEUE_SIZE as int),
        window_after(w, outcomes).len() <= MAX_LATENCY_QUEUE_SIZE,
        outcomes.len() >= MAX_LATENCY_QUEUE_SIZE ==> {
            &&& window_after(w, outcomes).len() == MAX_LATENCY_QUEUE_SIZE
            &&& window_after(w, outcomes) == outcomes.subrange(
                outcomes.len() - MAX_LATENCY_QUEUE_SIZE,
                outcomes.len() as int,
            )
        },
    decreases outcomes.len(),
{
    if outcomes.len() > 0 {
        lemma_window_cap(w, outcomes.drop_last());
        assert(window_after(w, outcomes) == keep_last(
            w + outcomes,
            MAX_LATENCY_QUEUE_SIZE as int,
        ));
    }
}

/// A window of nothing but errors has the worst score, whatever its length.
pub proof fn lemma_score_all_errored(w: Seq<Score>)
    requires
        w.len() > 0,
        forall|i: int| 0 <= i < w.len() ==> w[i] == Score::Errored,
    ensures
        window_score(w) == WORST_SCORE,
{
    lemma_all_errored(w);
    let n = w.len() as int;
    lemma_blend_reduced(MAX_LATENCY_MS as int, n, n);
    lemma_div_multiples_vanish(2000, 2 * n);
}

proof fn lemma_all_errored(w: Seq<Score>)
    requires
        forall|i: int| 0 <= i < w.len() ==> w[i] == Score::Errored,
    ensures
        latencies(w).len() == 0,
        error_count(w) == w.len(),
    decreases w.len(),
{
    if w.len() > 0 {
        lemma_all_errored(w.drop_last());
    }
}

proof fn lemma_all_successful(w: Seq<Score>)
    requires
        forall|i: int| 0 <= i < w.len() ==> w[i] is Latency,
    ensures
        latencies(w).len() == w.len(),
        error_count(w) == 0,
    decreases w.len(),
{
    if w.len() > 0 {
        lemma_all_successful(w.drop_last());
    }
}

/// The score of a window without errors is its median latency on the scale
/// of a thousand, whatever its length.
pub proof fn lemma_score_all_successful(w: Seq<Score>)
    requires
        w.len() > 0,
        forall|i: int| 0 <= i < w.len() ==> w[i] is Latency,
    ensures
        window_score(w) == (median(latencies(w).sort_by(leq_ms())) * 1000) / (MAX_LATENCY_MS as int),
{
    lemma_all_successful(w);
    lemma_mid_latency_bounds(w);
    let n = w.len() as int;
    let mid = mid_latency(w);
    lemma_blend_reduced(mid, 0, n);
    lemma_div_denominator(mid * n, n, 2);
    lemma_div_multiples_vanish(mid, n);
    lemma_div_denominator(mid * 1000, 1000, 2);
    lemma_div_multiples_vanish(mid, 1000);
}

/// The latency that stands for a window is never negative and fits the
/// machine word.
pub proof fn lemma_mid_latency_bounds(w: Seq<Score>)
    ensures
        0 <= mid_latency(w) <= u64::MAX,
{
}

/// A score is never negative, and it is at most the worst score wherever the
/// latency that stands for the window does not exceed the probe timeout.
pub proof fn lemma_score_bounds(w: Seq<Score>)
    requires
        mid_latency(w) <= MAX_LATENCY_MS,
    ensures
        0 <= window_score(w) <= WORST_SCORE,
{
    lemma_score_range(w);
}

/// Whatever a window holds, its score is never negative, never more than
/// half the latency that stands for the window plus a thousand, and fits
/// the machine word.
pub proof fn lemma_score_range(w: Seq<Score>)
    ensures
        0 <= window_score(w) <= (mid_latency(w) + MAX_LATENCY_MS) / 2,
        window_score(w) <= u64::MAX,
{
    lemma_mid_latency_bounds(w);
    if w.len() > 0 {
        lemma_outcomes_partition(w);
        lemma_blend_bounds(mid_latency(w), error_count(w) as int, w.len() as int);
    }
}

/// With the latency and the length held fixed, more errors never give a
/// lower blend.
pub proof fn lemma_blend_monotone_in_errors(mid: int, fewer: int, more: int, len: int)
    requires
        0 <= mid,
        0 <= fewer <= more,
        0 < len,
    ensures
        blend(mid, fewer, len) <= blend(mid, more, len),
{
    lemma_blend_slack(mid, fewer, mid, more, len);
}

/// The blend does not fall where the weighted sum under it does not fall.
proof fn lemma_blend_slack(mid_a: int, errors_a: int, mid_b: int, errors_b: int, len: int)
    requires
        0 <= mid_a,
        0 <= mid_b,
        0 <= errors_a,
        0 <= errors_b,
        0 < len,
        mid_a * len + MAX_LATENCY_MS * errors_a <= mid_b * len + MAX_LATENCY_MS * errors_b,
    ensures
        blend(mid_a, errors_a, len) <= blend(mid_b, errors_b, len),
{
    lemma_blend_reduced(mid_a, errors_a, len);
    lemma_blend_reduced(mid_b, errors_b, len);
    lemma_div_is_ordered(
        mid_a * len + MAX_LATENCY_MS * errors_a,
        mid_b * len + MAX_LATENCY_MS * errors_b,
        2 * len,
    );
}

proof fn lemma_error_replaces_latency(w: Seq<Score>, i: int)
    requires
        0 <= i < w.len(),
        w[i] is Latency,
    ensures
        error_count(w.update(i, Score::Errored)) == error_count(w) + 1,
    decreases w.len(),
{
    let u = w.update(i, Score::Errored);
    if i == w.len() - 1 {
        assert(u.drop_last() == w.drop_last());
    } else {
        lemma_error_replaces_latency(w.drop_last(), i);
        assert(u.drop_last() == w.drop_last().update(i, Score::Errored));
    }
}

/// Where an error takes the place of a latency, the score does not fall,
/// provided the latency that stands for the window falls by no more than
/// the probe timeout divided by the length of the window. That holds in
/// particular where it stays as it was.
pub proof fn lemma_score_monotone_in_errors(w: Seq<Score>, i: int)
    requires
        0 <= i < w.len(),
        w[i] is Latency,
        (mid_latency(w) - mid_latency(w.update(i, Score::Errored))) * w.len()
            <= MAX_LATENCY_MS,
    ensures
        window_score(w) <= window_score(w.update(i, Score::Errored)),
{
    let u = w.update(i, Score::Errored);
    let n = w.len() as int;
    lemma_error_replaces_latency(w, i);
    lemma_mid_latency_bounds(w);
    lemma_mid_latency_bounds(u);
    assert((mid_latency(w) - mid_latency(u)) * n == mid_latency(w) * n - mid_latency(u) * n)
        by (nonlinear_arith);
    lemma_blend_slack(
        mid_latency(w),
        error_count(w) as int,
        mid_latency(u),
        error_count(u) as int,
        n,
    );
}

} // verus!
