//! The window as a sequence of observations: what is stale, what is evicted,
//! and what the average of the rest is.

use vstd::prelude::*;

verus! {

/// One recorded data point, as the contracts see it.
pub struct Observation {
    /// Clock reading at which it was recorded, in nanoseconds.
    pub timestamp: nat,
    /// Magnitude that it adds to the running sum.
    pub value: nat,
}

/// The window after a value is recorded at time `now`: the new observation
/// stands at the back.
pub open spec fn record(s: Seq<Observation>, now: nat, value: nat) -> Seq<Observation> {
    s.push(Observation { timestamp: now, value })
}

/// Age of an observation at time `now`. One stamped later than `now` has age
/// zero, as a monotonic clock reports it.
pub open spec fn age(o: Observation, now: nat) -> nat {
    if now >= o.timestamp {
        (now - o.timestamp) as nat
    } else {
        0
    }
}

/// An observation is stale once its age exceeds the window; at an age equal to
/// the window it still counts.
pub open spec fn is_stale(o: Observation, now: nat, window: nat) -> bool {
    age(o, now) > window
}

/// Sum of the values of all observations in `s`.
pub open spec fn sum_values(s: Seq<Observation>) -> nat
    decreases s.len(),
{
    if s.len() == 0 {
        0
    } else {
        sum_values(s.drop_last()) + s.last().value
    }
}

/// Number of leading observations of `s` that are stale: the index of the
/// first one that is not, or the length of `s` if all are.
pub open spec fn stale_prefix_len(s: Seq<Observation>, now: nat, window: nat) -> nat
    decreases s.len(),
{
    if s.len() == 0 || !is_stale(s[0], now, window) {
        0
    } else {
        1 + stale_prefix_len(s.skip(1), now, window)
    }
}

/// What is left of `s` once its stale prefix is evicted.
pub open spec fn retained(s: Seq<Observation>, now: nat, window: nat) -> Seq<Observation> {
    s.skip(stale_prefix_len(s, now, window) as int)
}

/// The reported rate: the sum of the values over their count, rounded down,
/// and zero for an empty window.
pub open spec fn average(s: Seq<Observation>) -> nat {
    if s.len() == 0 {
        0
    } else {
        sum_values(s) / s.len()
    }
}

/// Timestamps never decrease from the front of `s` to its back.
pub open spec fn time_ordered(s: Seq<Observation>) -> bool {
    forall|i: int, j: int| 0 <= i <= j < s.len() ==> s[i].timestamp <= s[j].timestamp
}

/// The sum splits at the front as it does at the back.
pub proof fn lemma_sum_values_front(s: Seq<Observation>)
    requires
        s.len() > 0,
    ensures
        sum_values(s) == s[0].value + sum_values(s.skip(1)),
    decreases s.len(),
{
    if s.len() == 1 {
        assert(s.drop_last() =~= s.skip(1));
        assert(sum_values(s.drop_last()) == 0);
    } else {
        lemma_sum_values_front(s.drop_last());
        assert(s.drop_last().skip(1) =~= s.skip(1).drop_last());
        assert(s.skip(1).last() == s.last());
        assert(s.drop_last()[0] == s[0]);
    }
}

/// Recording a value adds exactly that value to the sum.
pub proof fn lemma_sum_values_record(s: Seq<Observation>, now: nat, value: nat)
    ensures
        sum_values(record(s, now, value)) == sum_values(s) + value,
{
    assert(record(s, now, value).drop_last() =~= s);
}

/// The stale prefix is a prefix of stale observations that ends where the
/// window does or at an observation that is not stale.
pub proof fn lemma_stale_prefix(s: Seq<Observation>, now: nat, window: nat)
    ensures
        stale_prefix_len(s, now, window) <= s.len(),
        forall|i: int|
            0 <= i < stale_prefix_len(s, now, window) ==> is_stale(#[trigger] s[i], now, window),
        stale_prefix_len(s, now, window) < s.len() ==> !is_stale(
            s[stale_prefix_len(s, now, window) as int],
            now,
            window,
        ),
    decreases s.len(),
{
    if s.len() == 0 || !is_stale(s[0], now, window) {
    } else {
        let rest = s.skip(1);
        lemma_stale_prefix(rest, now, window);
        assert forall|i: int| 0 <= i < stale_prefix_len(s, now, window) implies is_stale(
            #[trigger] s[i],
            now,
            window,
        ) by {
            if i > 0 {
                assert(s[i] == rest[i - 1]);
            }
        }
    }
}

/// The stale prefix is the only one of its kind: `k` leading stale
/// observations, followed by the end of the window or by one that is not
/// stale, are the stale prefix.
pub proof fn lemma_stale_prefix_unique(s: Seq<Observation>, now: nat, window: nat, k: int)
    requires
        0 <= k <= s.len(),
        forall|i: int| 0 <= i < k ==> is_stale(#[trigger] s[i], now, window),
        k < s.len() ==> !is_stale(s[k], now, window),
    ensures
        stale_prefix_len(s, now, window) == k,
{
    lemma_stale_prefix(s, now, window);
    let p = stale_prefix_len(s, now, window) as int;
    if p < k {
        assert(is_stale(s[p], now, window));
    } else if k < p {
        assert(is_stale(s[k], now, window));
    }
}

/// With timestamps in order, eviction parts the window cleanly: an
/// observation is evicted if and only if it is stale, and what is retained is
/// the rest of the window, each observation unchanged and in its old order.
pub proof fn lemma_time_ordered_eviction(s: Seq<Observation>, now: nat, window: nat)
    requires
        time_ordered(s),
    ensures
        forall|i: int|
            0 <= i < s.len() ==> (is_stale(#[trigger] s[i], now, window) <==> i
                < stale_prefix_len(s, now, window)),
        retained(s, now, window).len() == s.len() - stale_prefix_len(s, now, window),
        forall|i: int|
            0 <= i < retained(s, now, window).len() ==> {
                &&& #[trigger] retained(s, now, window)[i] == s[stale_prefix_len(s, now, window) + i]
                &&& !is_stale(retained(s, now, window)[i], now, window)
            },
{
    lemma_stale_prefix(s, now, window);
    let k = stale_prefix_len(s, now, window) as int;
    assert forall|i: int| k <= i < s.len() implies !is_stale(#[trigger] s[i], now, window) by {
        assert(!is_stale(s[k], now, window));
        assert(s[k].timestamp <= s[i].timestamp);
    }
}

/// Eventual decay: once more than the window has passed since the last
/// observation was recorded, everything is evicted and the rate is zero. (At
/// exactly the window's length the observations still count.)
pub proof fn lemma_eventual_decay(s: Seq<Observation>, last: nat, now: nat, window: nat)
    requires
        forall|i: int| 0 <= i < s.len() ==> (#[trigger] s[i]).timestamp <= last,
        now > last + window,
    ensures
        retained(s, now, window) == Seq::<Observation>::empty(),
        average(retained(s, now, window)) == 0,
{
    lemma_stale_prefix_unique(s, now, window, s.len() as int);
    assert(retained(s, now, window) =~= Seq::<Observation>::empty());
}

/// A window in which nothing was recorded stays empty and measures zero.
pub proof fn lemma_empty_window(now: nat, window: nat)
    ensures
        retained(Seq::<Observation>::empty(), now, window) == Seq::<Observation>::empty(),
        average(Seq::<Observation>::empty()) == 0,
{
    assert(retained(Seq::<Observation>::empty(), now, window) =~= Seq::<Observation>::empty());
}

/// An observation at the back that is not stale is never evicted, whatever
/// stands before it.
pub proof fn lemma_fresh_back_is_retained(s: Seq<Observation>, now: nat, window: nat)
    requires
        s.len() > 0,
        !is_stale(s.last(), now, window),
    ensures
        retained(s, now, window).len() > 0,
        retained(s, now, window).last() == s.last(),
{
    lemma_stale_prefix(s, now, window);
    let k = stale_prefix_len(s, now, window) as int;
    if k == s.len() {
        assert(is_stale(s[s.len() - 1], now, window));
    }
}

/// The rate is never negative and never more than the sum of the values.
pub proof fn lemma_average_bounds(s: Seq<Observation>)
    ensures
        0 <= average(s) <= sum_values(s),
{
    if s.len() > 0 {
        let total = sum_values(s) as int;
        let count = s.len() as int;
        assert(0 <= total / count <= total) by (nonlinear_arith)
            requires
                0 <= total,
                1 <= count,
        ;
    }
}

/// The rate is positive exactly when the window is not empty and its values
/// sum to at least their count: the division rounds down, so a single 1 among
/// zeros measures zero.
pub proof fn lemma_average_positive(s: Seq<Observation>)
    ensures
        average(s) > 0 <==> s.len() > 0 && sum_values(s) >= s.len(),
{
    if s.len() > 0 {
        let total = sum_values(s) as int;
        let count = s.len() as int;
        assert(total / count > 0 <==> total >= count) by (nonlinear_arith)
            requires
                0 <= total,
                1 <= count,
        ;
    }
}

/// Where every value is at least `least`, so is the rate of a window that is
/// not empty. With `least` at 1: positive values measure a positive rate.
pub proof fn lemma_average_at_least(s: Seq<Observation>, least: nat)
    requires
        s.len() > 0,
        forall|i: int| 0 <= i < s.len() ==> (#[trigger] s[i]).value >= least,
    ensures
        average(s) >= least,
{
    lemma_sum_values_at_least(s, least);
    let total = sum_values(s) as int;
    let count = s.len() as int;
    assert(total / count >= least) by (nonlinear_arith)
        requires
            total >= least * count,
            1 <= count,
            0 <= least,
    ;
}

proof fn lemma_sum_values_at_least(s: Seq<Observation>, least: nat)
    requires
        forall|i: int| 0 <= i < s.len() ==> (#[trigger] s[i]).value >= least,
    ensures
        sum_values(s) >= least * s.len(),
    decreases s.len(),
{
    if s.len() > 0 {
        let front = s.drop_last();
        assert forall|i: int| 0 <= i < front.len() implies (#[trigger] front[i]).value
            >= least by {
            assert(front[i] == s[i]);
        }
        lemma_sum_values_at_least(front, least);
        assert(least * s.len() == least * front.len() + least) by (nonlinear_arith)
            requires
                s.len() == front.len() + 1,
        ;
    }
}

} // verus!
