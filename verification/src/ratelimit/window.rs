//! What the ring guarantees over a run of checks: within any sixty seconds no
//! more requests are admitted than the budget allows.

use vstd::prelude::*;
use crate::ratelimit::{Bucket, Limiter, admits, bumped, fresh_ring, is_live, live_count, live_part, recorded, slot_of};

verus! {

/// The ring of a topic after the checks of `trace`, one entry for each check:
/// the second at which it was made.
pub open spec fn ring_after(trace: Seq<u64>) -> Seq<Bucket>
    decreases trace.len(),
{
    if trace.len() == 0 {
        fresh_ring()
    } else {
        recorded(ring_after(trace.drop_last()), trace.last())
    }
}

/// Whether check number `i` of `trace` was admitted under a budget of `max`.
pub open spec fn admitted_at(trace: Seq<u64>, max: u32, i: int) -> bool {
    admits(ring_after(trace.take(i)), trace[i], max)
}

/// How many of the first `n` checks of `trace` were made in a second from `lo`
/// to `hi` and admitted.
pub open spec fn admissions(trace: Seq<u64>, max: u32, lo: int, hi: int, n: nat) -> nat
    decreases n,
{
    if n == 0 {
        0
    } else {
        admissions(trace, max, lo, hi, (n - 1) as nat) + if lo <= trace[n - 1] <= hi
            && admitted_at(trace, max, n - 1) {
            1nat
        } else {
            0nat
        }
    }
}

/// The clock never ran backwards between the checks of `trace`.
pub open spec fn nondecreasing(trace: Seq<u64>) -> bool {
    forall|i: int, j: int| 0 <= i <= j < trace.len() ==> trace[i] <= trace[j]
}

/// How many of the first `n` checks were made in a second from `lo` to `hi`.
spec fn attempts(trace: Seq<u64>, lo: int, hi: int, n: nat) -> nat
    decreases n,
{
    if n == 0 {
        0
    } else {
        attempts(trace, lo, hi, (n - 1) as nat) + if lo <= trace[n - 1] <= hi {
            1nat
        } else {
            0nat
        }
    }
}

/// How many of the first `n` checks were made in second `u`.
spec fn hits(trace: Seq<u64>, n: nat, u: int) -> nat {
    attempts(trace, u, u, n)
}

/// The one second of the window that ends at `t` which falls into slot `s`.
spec fn second_of(t: int, s: int) -> int {
    t - ((t - s) % 60)
}

/// The checks of the window that ends at `t`, counted slot by slot, for the
/// first `k` slots.
spec fn slot_hits(trace: Seq<u64>, n: nat, t: int, k: nat) -> nat
    decreases k,
{
    if k == 0 {
        0
    } else {
        slot_hits(trace, n, t, (k - 1) as nat) + hits(trace, n, second_of(t, k - 1))
    }
}

/// What the ring knows of slot `s` after the first `n` checks.
spec fn slot_ok(trace: Seq<u64>, n: nat, s: int, b: Bucket) -> bool {
    if b.count == 0 {
        b.last_ts == 0 && forall|i: int| 0 <= i < n ==> #[trigger] trace[i] as int % 60 != s
    } else {
        &&& n > 0
        &&& b.last_ts <= trace[n - 1]
        &&& b.last_ts as int % 60 == s
        &&& forall|i: int| 0 <= i < n && #[trigger] trace[i] as int % 60 == s ==> trace[i] <= b.last_ts
        &&& hits(trace, n, b.last_ts as int) > 0
        &&& b.count == if hits(trace, n, b.last_ts as int) < u64::MAX {
            hits(trace, n, b.last_ts as int)
        } else {
            u64::MAX as nat
        }
    }
}

spec fn ring_ok(trace: Seq<u64>, n: nat, ring: Seq<Bucket>) -> bool {
    &&& ring.len() == 60
    &&& forall|s: int| 0 <= s < 60 ==> slot_ok(trace, n, s, #[trigger] ring[s])
}

proof fn lemma_ring_after_take(trace: Seq<u64>, n: nat)
    requires
        0 < n <= trace.len(),
    ensures
        ring_after(trace.take(n as int)) == recorded(
            ring_after(trace.take(n - 1)),
            trace[n - 1],
        ),
{
    assert(trace.take(n as int).drop_last() =~= trace.take(n - 1));
}

proof fn lemma_attempts_absent(trace: Seq<u64>, lo: int, hi: int, n: nat)
    requires
        n <= trace.len(),
        forall|i: int| 0 <= i < n ==> !(lo <= #[trigger] trace[i] <= hi),
    ensures
        attempts(trace, lo, hi, n) == 0,
    decreases n,
{
    if n > 0 {
        lemma_attempts_absent(trace, lo, hi, (n - 1) as nat);
    }
}

proof fn lemma_ring_ok(trace: Seq<u64>, n: nat)
    requires
        nondecreasing(trace),
        n <= trace.len(),
    ensures
        ring_ok(trace, n, ring_after(trace.take(n as int))),
    decreases n,
{
    if n == 0 {
        assert(trace.take(0) =~= Seq::<u64>::empty());
    } else {
        let m = (n - 1) as nat;
        lemma_ring_ok(trace, m);
        lemma_ring_after_take(trace, n);
        let before = ring_after(trace.take(m as int));
        let ts = trace[n - 1];
        let after = ring_after(trace.take(n as int));
        let s0 = slot_of(ts);
        assert(after == before.update(s0, bumped(before[s0], ts)));
        assert forall|s: int| 0 <= s < 60 implies slot_ok(trace, n, s, #[trigger] after[s]) by {
            let b = before[s];
            assert(slot_ok(trace, m, s, b));
            if s == s0 {
                if b.count == 0 {
                    assert forall|i: int| 0 <= i < m implies !(ts <= #[trigger] trace[i] <= ts) by {
                        assert(trace[i] as int % 60 != s);
                    }
                    lemma_attempts_absent(trace, ts as int, ts as int, m);
                } else if b.last_ts != ts {
                    assert forall|i: int| 0 <= i < m implies !(ts <= #[trigger] trace[i] <= ts) by {
                        if trace[i] == ts {
                            assert(trace[i] as int % 60 == s);
                        }
                    }
                    lemma_attempts_absent(trace, ts as int, ts as int, m);
                }
            }
        }
    }
}

proof fn lemma_attempts_witness(trace: Seq<u64>, lo: int, hi: int, n: nat) -> (i: int)
    requires
        attempts(trace, lo, hi, n) > 0,
    ensures
        0 <= i < n,
        lo <= trace[i] <= hi,
    decreases n,
{
    if lo <= trace[n - 1] <= hi {
        n - 1
    } else {
        lemma_attempts_witness(trace, lo, hi, (n - 1) as nat)
    }
}

proof fn lemma_second_of(t: int, s: int)
    requires
        0 <= s < 60,
    ensures
        t - 59 <= second_of(t, s) <= t,
        second_of(t, s) % 60 == s,
{
}

proof fn lemma_second_unique(t: int, s: int, x: int)
    requires
        0 <= s < 60,
        t - 59 <= x <= t,
        x % 60 == s,
    ensures
        x == second_of(t, s),
{
}

proof fn lemma_slot_hits_empty(trace: Seq<u64>, t: int, k: nat)
    ensures
        slot_hits(trace, 0, t, k) == 0,
    decreases k,
{
    if k > 0 {
        lemma_slot_hits_empty(trace, t, (k - 1) as nat);
    }
}

proof fn lemma_slot_hits_step(trace: Seq<u64>, n: nat, t: int, k: nat)
    requires
        0 < n <= trace.len(),
        k <= 60,
    ensures
        slot_hits(trace, n, t, k) == slot_hits(trace, (n - 1) as nat, t, k) + if t - 59
            <= trace[n - 1] <= t && (trace[n - 1] as int) % 60 < k {
            1nat
        } else {
            0nat
        },
    decreases k,
{
    if k > 0 {
        lemma_slot_hits_step(trace, n, t, (k - 1) as nat);
        lemma_second_of(t, k - 1);
        let x = trace[n - 1] as int;
        if t - 59 <= x <= t && x % 60 == k - 1 {
            lemma_second_unique(t, k - 1, x);
        }
    }
}

proof fn lemma_attempts_by_slot(trace: Seq<u64>, n: nat, t: int)
    requires
        n <= trace.len(),
    ensures
        attempts(trace, t - 59, t, n) == slot_hits(trace, n, t, 60),
    decreases n,
{
    if n == 0 {
        lemma_slot_hits_empty(trace, t, 60);
    } else {
        lemma_attempts_by_slot(trace, (n - 1) as nat, t);
        lemma_slot_hits_step(trace, n, t, 60);
    }
}

proof fn lemma_live_covers(trace: Seq<u64>, n: nat, ring: Seq<Bucket>, k: nat)
    requires
        nondecreasing(trace),
        0 < n <= trace.len(),
        ring_ok(trace, n, ring),
        k <= 60,
    ensures
        live_count(ring.take(k as int), trace[n - 1]) >= slot_hits(trace, n, trace[n - 1] as int, k)
            || live_count(ring.take(k as int), trace[n - 1]) >= u64::MAX,
    decreases k,
{
    let t = trace[n - 1];
    if k > 0 {
        let s = k - 1;
        lemma_live_covers(trace, n, ring, (k - 1) as nat);
        assert(ring.take(k as int).drop_last() =~= ring.take(k - 1));
        assert(ring.take(k as int).last() == ring[s]);
        let u = second_of(t as int, s);
        lemma_second_of(t as int, s);
        let b = ring[s];
        assert(slot_ok(trace, n, s, b));
        if hits(trace, n, u) > 0 {
            let i = lemma_attempts_witness(trace, u, u, n);
            assert(trace[i] as int % 60 == s);
            assert(b.count != 0);
            assert(trace[i] <= b.last_ts);
            lemma_second_unique(t as int, s, b.last_ts as int);
            assert(b.last_ts as int == u);
            assert(is_live(b, t));
            assert(live_part(b, t) == b.count);
        }
    }
}

/// A check that is admitted leaves no more checks in its window than the
/// budget allows.
proof fn lemma_admitted_window(trace: Seq<u64>, max: u32, n: nat)
    requires
        nondecreasing(trace),
        0 < n <= trace.len(),
        admitted_at(trace, max, n - 1),
    ensures
        attempts(trace, trace[n - 1] - 59, trace[n - 1] as int, n) <= max,
{
    let t = trace[n - 1];
    let ring = ring_after(trace.take(n as int));
    lemma_ring_after_take(trace, n);
    lemma_ring_ok(trace, n);
    lemma_live_covers(trace, n, ring, 60);
    assert(ring.take(60) =~= ring);
    lemma_attempts_by_slot(trace, n, t as int);
}

proof fn lemma_admissions_bounded(trace: Seq<u64>, max: u32, lo: int, hi: int, lo2: int, n: nat)
    requires
        nondecreasing(trace),
        n <= trace.len(),
        lo2 <= lo,
        n > 0 ==> trace[n - 1] <= hi,
    ensures
        admissions(trace, max, lo, hi, n) <= attempts(trace, lo2, hi, n),
    decreases n,
{
    if n > 0 {
        if n > 1 {
            assert(trace[n - 2] <= trace[n - 1]);
        }
        lemma_admissions_bounded(trace, max, lo, hi, lo2, (n - 1) as nat);
    }
}

proof fn lemma_admissions_cut(trace: Seq<u64>, max: u32, lo: int, hi: int, hi2: int, n: nat)
    requires
        n <= trace.len(),
        hi2 <= hi,
        forall|i: int| 0 <= i < n ==> #[trigger] trace[i] <= hi2,
    ensures
        admissions(trace, max, lo, hi, n) == admissions(trace, max, lo, hi2, n),
    decreases n,
{
    if n > 0 {
        lemma_admissions_cut(trace, max, lo, hi, hi2, (n - 1) as nat);
    }
}

/// Of the first `n` checks, those admitted in the sixty seconds that end at
/// `t` are no more than the budget.
proof fn lemma_window_prefix(trace: Seq<u64>, max: u32, t: int, n: nat)
    requires
        nondecreasing(trace),
        n <= trace.len(),
    ensures
        admissions(trace, max, t - 59, t, n) <= max,
    decreases n,
{
    if n > 0 {
        let x = trace[n - 1];
        if t - 59 <= x <= t && admitted_at(trace, max, n - 1) {
            lemma_admitted_window(trace, max, n);
            assert forall|i: int| 0 <= i < n implies #[trigger] trace[i] <= x by {}
            lemma_admissions_cut(trace, max, t - 59, t, x as int, n);
            lemma_admissions_bounded(trace, max, t - 59, x as int, x - 59, n);
        } else {
            lemma_window_prefix(trace, max, t, (n - 1) as nat);
        }
    }
}

/// The budget holds in every window. Let the checks of one topic, from a fresh
/// ring on, be made at the seconds of `trace`, under a rule with a budget of
/// `max` above zero, and let the clock never have run backwards between them.
/// Then for every second `t`, the checks made from `t - 59` to `t` and
/// admitted are at most `max`.
pub proof fn lemma_window_budget(trace: Seq<u64>, max: u32, t: int)
    requires
        max > 0,
        nondecreasing(trace),
    ensures
        admissions(trace, max, t - 59, t, trace.len()) <= max,
{
    lemma_window_prefix(trace, max, t, trace.len());
}

/// The limiter's checks are the checks of a trace. Let the ring of `topic`
/// stand as after the checks of `trace`, and let one more check of the topic
/// reach the ring at second `ts`. Then the ring stands as after the trace
/// with `ts` added, and the answer is whether that last check of the longer
/// trace was admitted under the topic's budget.
pub proof fn lemma_check_continues(
    pre: Limiter,
    post: Limiter,
    topic: Seq<char>,
    ts: u64,
    res: Result<bool, String>,
    trace: Seq<u64>,
)
    requires
        !pre.bypasses(topic),
        pre.ring(topic) == ring_after(trace),
        pre.checked(topic, Ok(ts), &post, res),
    ensures
        post.ring(topic) == ring_after(trace.push(ts)),
        res == Ok::<bool, String>(
            admitted_at(trace.push(ts), pre.limit(topic).unwrap(), trace.len() as int),
        ),
{
    assert(trace.push(ts).drop_last() =~= trace);
    assert(trace.push(ts).take(trace.len() as int) =~= trace);
}

} // verus!
