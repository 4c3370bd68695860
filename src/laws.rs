use vstd::prelude::*;

use crate::registry::{after_ping, deadline_after, due, pending};

verus! {

/// The deadlines after pinging `k` at each instant of `ts`, in order, with no
/// expiry processed in between.
pub open spec fn ping_all(m: Map<Seq<char>, u64>, k: Seq<char>, ts: Seq<u64>, timeout: u64) -> Map<
    Seq<char>,
    u64,
>
    decreases ts.len(),
{
    if ts.len() == 0 {
        m
    } else {
        after_ping(ping_all(m, k, ts.drop_last(), timeout), k, ts.last(), timeout)
    }
}

/// The deadlines after a run in which, for each `i`, the expiries due at
/// `checks[i]` are processed and then `k` is pinged at `ts[i]`.
pub open spec fn watch(
    m: Map<Seq<char>, u64>,
    k: Seq<char>,
    ts: Seq<u64>,
    checks: Seq<u64>,
    timeout: u64,
) -> Map<Seq<char>, u64>
    decreases ts.len(),
{
    if ts.len() == 0 {
        m
    } else {
        after_ping(
            pending(watch(m, k, ts.drop_last(), checks, timeout), checks[ts.len() - 1]),
            k,
            ts.last(),
            timeout,
        )
    }
}

/// Whether some expiry of the run `watch(m, k, ts, checks, timeout)` reported `k`.
pub open spec fn watch_alerted(
    m: Map<Seq<char>, u64>,
    k: Seq<char>,
    ts: Seq<u64>,
    checks: Seq<u64>,
    timeout: u64,
) -> bool
    decreases ts.len(),
{
    if ts.len() == 0 {
        false
    } else {
        watch_alerted(m, k, ts.drop_last(), checks, timeout) || due(
            watch(m, k, ts.drop_last(), checks, timeout),
            checks[ts.len() - 1],
        ).contains(k)
    }
}

/// Pinging a key several times in a row leaves exactly the deadline that a
/// single ping at the last instant would have left.
pub proof fn lemma_repeated_pings(m: Map<Seq<char>, u64>, k: Seq<char>, ts: Seq<u64>, timeout: u64)
    requires
        ts.len() > 0,
    ensures
        ping_all(m, k, ts, timeout) == after_ping(m, k, ts.last(), timeout),
    decreases ts.len(),
{
    if ts.len() > 1 {
        lemma_repeated_pings(m, k, ts.drop_last(), timeout);
        assert(ping_all(m, k, ts, timeout) =~= after_ping(m, k, ts.last(), timeout));
    } else {
        assert(ts.drop_last().len() == 0);
        assert(ping_all(m, k, ts.drop_last(), timeout) == m);
    }
}

/// A ping before a key's deadline cancels that deadline: no expiry before the
/// new deadline reports the key, even one at or after the old deadline.
pub proof fn lemma_ping_cancels_pending(
    m: Map<Seq<char>, u64>,
    k: Seq<char>,
    t: u64,
    now: u64,
    timeout: u64,
)
    requires
        m.contains_key(k),
        t < m[k],
        now < t + timeout,
        t + timeout <= u64::MAX,
    ensures
        !due(after_ping(m, k, t, timeout), now).contains(k),
        pending(after_ping(m, k, t, timeout), now).contains_key(k),
        pending(after_ping(m, k, t, timeout), now)[k] == deadline_after(t, timeout),
{
}

/// Keys are independent: a ping of one key does not change another key's
/// deadline or whether it is due, and whether an expiry reports a key, and
/// what deadline it keeps, depends on that key's deadline alone.
pub proof fn lemma_keys_independent(
    m1: Map<Seq<char>, u64>,
    m2: Map<Seq<char>, u64>,
    k1: Seq<char>,
    k2: Seq<char>,
    t: u64,
    now: u64,
    timeout: u64,
)
    requires
        k1 != k2,
        m1.contains_key(k2) == m2.contains_key(k2),
        m1.contains_key(k2) ==> m1[k2] == m2[k2],
    ensures
        after_ping(m1, k1, t, timeout).contains_key(k2) == m1.contains_key(k2),
        m1.contains_key(k2) ==> after_ping(m1, k1, t, timeout)[k2] == m1[k2],
        due(after_ping(m1, k1, t, timeout), now).contains(k2) == due(m1, now).contains(k2),
        due(m1, now).contains(k2) == due(m2, now).contains(k2),
        pending(m1, now).contains_key(k2) == pending(m2, now).contains_key(k2),
        pending(m1, now).contains_key(k2) ==> pending(m1, now)[k2] == pending(m2, now)[k2],
{
}

/// A key pinged at increasing instants, each less than `timeout` after the
/// one before, is never reported by an expiry processed at any instant up to
/// the ping that follows it, and afterwards it is due only `timeout` after the
/// last ping.
pub proof fn lemma_regular_pings_never_alert(
    m: Map<Seq<char>, u64>,
    k: Seq<char>,
    ts: Seq<u64>,
    checks: Seq<u64>,
    timeout: u64,
)
    requires
        ts.len() > 0,
        checks.len() >= ts.len(),
        forall|i: int| 0 <= i < ts.len() ==> #[trigger] checks[i] <= ts[i],
        m.contains_key(k) ==> m[k] > checks[0],
        forall|i: int| 0 <= i < ts.len() - 1 ==> ts[i] < #[trigger] ts[i + 1] < ts[i] + timeout,
        ts.last() + timeout <= u64::MAX,
    ensures
        !watch_alerted(m, k, ts, checks, timeout),
        watch(m, k, ts, checks, timeout).contains_key(k),
        watch(m, k, ts, checks, timeout)[k] == ts.last() + timeout,
        forall|now: u64|
            now < ts.last() + timeout ==> !#[trigger] due(watch(m, k, ts, checks, timeout), now).contains(
                k,
            ),
    decreases ts.len(),
{
    let n = ts.len() - 1;
    assert(checks[n] <= ts[n]);
    if ts.len() > 1 {
        let prefix = ts.drop_last();
        assert forall|i: int| 0 <= i < prefix.len() - 1 implies prefix[i] < #[trigger] prefix[i + 1]
            < prefix[i] + timeout by {
            assert(ts[i + 1] == prefix[i + 1]);
        }
        assert forall|i: int| 0 <= i < prefix.len() implies #[trigger] checks[i] <= prefix[i] by {
            assert(checks[i] <= ts[i]);
        }
        let p = ts.len() - 2;
        assert(ts[p] < ts[p + 1] < ts[p] + timeout);
        assert(prefix.last() == ts[p]);
        assert(prefix[0] == ts[0]);
        lemma_regular_pings_never_alert(m, k, prefix, checks, timeout);
        let w = watch(m, k, prefix, checks, timeout);
        assert(!due(w, checks[n]).contains(k));
        assert(!watch_alerted(m, k, ts, checks, timeout));
    } else {
        let prefix = ts.drop_last();
        assert(prefix.len() == 0);
        assert(watch(m, k, prefix, checks, timeout) == m);
        assert(!watch_alerted(m, k, prefix, checks, timeout));
        assert(!due(m, checks[0]).contains(k));
    }
}

} // verus!
