use vstd::prelude::*;

use crate::alert::Alert;

verus! {

/// The deadline that a ping at `now` sets, saturating at the largest instant.
pub open spec fn deadline_after(now: u64, timeout: u64) -> u64 {
    if now + timeout <= u64::MAX {
        (now + timeout) as u64
    } else {
        u64::MAX
    }
}

/// The deadlines after a ping of `k` at `now`.
pub open spec fn after_ping(m: Map<Seq<char>, u64>, k: Seq<char>, now: u64, timeout: u64) -> Map<
    Seq<char>,
    u64,
> {
    m.insert(k, deadline_after(now, timeout))
}

/// The keys whose deadline has passed at `now`.
pub open spec fn due(m: Map<Seq<char>, u64>, now: u64) -> Set<Seq<char>> {
    Set::new(|k: Seq<char>| m.contains_key(k) && m[k] <= now)
}

/// The deadlines that are still pending at `now`.
pub open spec fn pending(m: Map<Seq<char>, u64>, now: u64) -> Map<Seq<char>, u64> {
    Map::new(|k: Seq<char>| m.contains_key(k) && m[k] > now, |k: Seq<char>| m[k])
}

/// One of the first `i` entries of `es` has key `k` and is due at `now`.
spec fn due_among(es: Seq<HeartbeatEntry>, i: int, now: u64, k: Seq<char>) -> bool {
    exists|p: int| #![trigger es[p]] 0 <= p < i && es[p].key@ == k && es[p].deadline <= now
}

/// After the first `i` entries of `es` are handled, `kept` holds those still
/// pending at `now`, in order, and `ids` the keys of those that are due.
#[verifier::opaque]
spec fn split_inv(
    es: Seq<HeartbeatEntry>,
    i: int,
    now: u64,
    kept: Seq<HeartbeatEntry>,
    ids: Seq<Seq<char>>,
) -> bool {
    &&& forall|j: int|
        #![trigger kept[j]]
        0 <= j < kept.len() ==> exists|p: int|
            #![trigger es[p]]
            0 <= p < i && es[p] == kept[j] && kept[j].deadline > now
    &&& forall|p: int|
        #![trigger es[p]]
        0 <= p < i && es[p].deadline > now ==> exists|j: int|
            #![trigger kept[j]]
            0 <= j < kept.len() && kept[j] == es[p]
    &&& forall|j1: int, j2: int| 0 <= j1 < j2 < kept.len() ==> kept[j1].key@ != kept[j2].key@
    &&& forall|j: int| 0 <= j < ids.len() ==> #[trigger] due_among(es, i, now, ids[j])
    &&& forall|p: int|
        #![trigger es[p]]
        0 <= p < i && es[p].deadline <= now ==> exists|j: int|
            #![trigger ids[j]]
            0 <= j < ids.len() && ids[j] == es[p].key@
    &&& forall|j1: int, j2: int| 0 <= j1 < j2 < ids.len() ==> ids[j1] != ids[j2]
}

proof fn lemma_split_step(
    es: Seq<HeartbeatEntry>,
    i: int,
    now: u64,
    kept0: Seq<HeartbeatEntry>,
    ids0: Seq<Seq<char>>,
    kept1: Seq<HeartbeatEntry>,
    ids1: Seq<Seq<char>>,
)
    requires
        0 <= i < es.len(),
        forall|a: int, b: int| 0 <= a < b < es.len() ==> es[a].key@ != es[b].key@,
        split_inv(es, i, now, kept0, ids0),
        es[i].deadline > now ==> kept1 == kept0.push(es[i]) && ids1 == ids0,
        es[i].deadline <= now ==> kept1 == kept0 && ids1 == ids0.push(es[i].key@),
    ensures
        split_inv(es, i + 1, now, kept1, ids1),
{
    reveal(split_inv);
    assert forall|j: int|
        #![trigger kept1[j]]
        0 <= j < kept1.len() implies exists|p: int|
            #![trigger es[p]]
            0 <= p < i + 1 && es[p] == kept1[j] && kept1[j].deadline > now by {
        if j < kept0.len() {
            assert(kept1[j] == kept0[j]);
            let p = choose|p: int|
                #![trigger es[p]]
                0 <= p < i && es[p] == kept0[j] && kept0[j].deadline > now;
        } else {
            assert(es[i] == kept1[j]);
        }
    }
    assert forall|p: int|
        #![trigger es[p]]
        0 <= p < i + 1 && es[p].deadline > now implies exists|j: int|
            #![trigger kept1[j]]
            0 <= j < kept1.len() && kept1[j] == es[p] by {
        if p < i {
            let j = choose|j: int|
                #![trigger kept0[j]]
                0 <= j < kept0.len() && kept0[j] == es[p];
            assert(kept1[j] == kept0[j]);
        } else {
            assert(kept1[kept0.len() as int] == es[p]);
        }
    }
    assert forall|j1: int, j2: int| 0 <= j1 < j2 < kept1.len() implies kept1[j1].key@
        != kept1[j2].key@ by {
        if j2 == kept0.len() && es[i].deadline > now {
            assert(kept1[j1] == kept0[j1]);
            let p = choose|p: int|
                #![trigger es[p]]
                0 <= p < i && es[p] == kept0[j1] && kept0[j1].deadline > now;
        } else {
            assert(kept1[j1] == kept0[j1]);
            assert(kept1[j2] == kept0[j2]);
        }
    }
    assert forall|j: int| 0 <= j < ids1.len() implies #[trigger] due_among(
        es,
        i + 1,
        now,
        ids1[j],
    ) by {
        if j < ids0.len() {
            assert(ids1[j] == ids0[j]);
            assert(due_among(es, i, now, ids0[j]));
            let p = choose|p: int|
                #![trigger es[p]]
                0 <= p < i && es[p].key@ == ids0[j] && es[p].deadline <= now;
            assert(0 <= p < i + 1 && es[p].key@ == ids1[j] && es[p].deadline <= now);
        } else {
            assert(es[i].deadline <= now);
            assert(es[i].key@ == ids1[j]);
        }
    }
    assert forall|p: int|
        #![trigger es[p]]
        0 <= p < i + 1 && es[p].deadline <= now implies exists|j: int|
            #![trigger ids1[j]]
            0 <= j < ids1.len() && ids1[j] == es[p].key@ by {
        if p < i {
            let j = choose|j: int|
                #![trigger ids0[j]]
                0 <= j < ids0.len() && ids0[j] == es[p].key@;
            assert(ids1[j] == ids0[j]);
        } else {
            assert(ids1[ids0.len() as int] == es[p].key@);
        }
    }
    assert forall|j1: int, j2: int| 0 <= j1 < j2 < ids1.len() implies ids1[j1] != ids1[j2] by {
        if j2 == ids0.len() && es[i].deadline <= now {
            assert(ids1[j1] == ids0[j1]);
            assert(due_among(es, i, now, ids0[j1]));
            let p = choose|p: int|
                #![trigger es[p]]
                0 <= p < i && es[p].key@ == ids0[j1] && es[p].deadline <= now;
        } else {
            assert(ids1[j1] == ids0[j1]);
            assert(ids1[j2] == ids0[j2]);
        }
    }
    assert(split_inv(es, i + 1, now, kept1, ids1));
}

/// The pending deadline of one key.
pub struct HeartbeatEntry {
    pub key: String,
    pub deadline: u64,
}

/// Tracks one deadline per key on a logical clock: a ping moves the key's
/// deadline to `now + timeout`, and an expiry at `now` removes every key whose
/// deadline is not after `now` and reports it as an alert.
pub struct HeartbeatRegistry {
    timeout: u64,
    entries: Vec<HeartbeatEntry>,
    model: Ghost<Map<Seq<char>, u64>>,
}

proof fn lemma_split_done(
    es: Seq<HeartbeatEntry>,
    m: Map<Seq<char>, u64>,
    now: u64,
    kept: Seq<HeartbeatEntry>,
    ids: Seq<Seq<char>>,
)
    requires
        split_inv(es, es.len() as int, now, kept, ids),
        forall|i: int|
            0 <= i < es.len() ==> #[trigger] m.contains_key(es[i].key@) && m[es[i].key@]
                == es[i].deadline,
        forall|k: Seq<char>|
            #[trigger] m.contains_key(k) ==> exists|i: int| 0 <= i < es.len() && es[i].key@ == k,
    ensures
        forall|i: int, j: int| 0 <= i < j < kept.len() ==> kept[i].key@ != kept[j].key@,
        forall|i: int|
            0 <= i < kept.len() ==> #[trigger] pending(m, now).contains_key(kept[i].key@)
                && pending(m, now)[kept[i].key@] == kept[i].deadline,
        forall|k: Seq<char>|
            #[trigger] pending(m, now).contains_key(k) ==> exists|i: int|
                0 <= i < kept.len() && kept[i].key@ == k,
        ids.to_set() == due(m, now),
        ids.no_duplicates(),
{
    reveal(split_inv);
    assert forall|i: int|
        0 <= i < kept.len() implies #[trigger] pending(m, now).contains_key(kept[i].key@)
        && pending(m, now)[kept[i].key@] == kept[i].deadline by {
        let p = choose|p: int|
            #![trigger es[p]]
            0 <= p < es.len() && es[p] == kept[i] && kept[i].deadline > now;
        assert(m.contains_key(es[p].key@));
    }
    assert forall|k: Seq<char>| #[trigger] pending(m, now).contains_key(k) implies exists|i: int|
        0 <= i < kept.len() && kept[i].key@ == k by {
        let p = choose|p: int| 0 <= p < es.len() && es[p].key@ == k;
        assert(es[p].deadline > now);
        let j = choose|j: int|
            #![trigger kept[j]]
            0 <= j < kept.len() && kept[j] == es[p];
    }
    assert(ids.to_set() =~= due(m, now)) by {
        assert forall|k: Seq<char>| #[trigger] ids.to_set().contains(k) implies due(
            m,
            now,
        ).contains(k) by {
            let j = choose|j: int| 0 <= j < ids.len() && ids[j] == k;
            assert(due_among(es, es.len() as int, now, ids[j]));
            let p = choose|p: int|
                #![trigger es[p]]
                0 <= p < es.len() && es[p].key@ == ids[j] && es[p].deadline <= now;
            assert(m.contains_key(es[p].key@));
        }
        assert forall|k: Seq<char>| #[trigger] due(m, now).contains(k) implies ids.to_set().contains(
            k,
        ) by {
            let p = choose|p: int| 0 <= p < es.len() && es[p].key@ == k;
            let j = choose|j: int|
                #![trigger ids[j]]
                0 <= j < ids.len() && ids[j] == es[p].key@;
        }
    }
    assert(ids.no_duplicates()) by {
        assert forall|a: int, b: int|
            0 <= a < ids.len() && 0 <= b < ids.len() && a != b implies ids[a] != ids[b] by {
            if a < b {
            } else {
            }
        }
    }
}

impl HeartbeatRegistry {
    /// The pending deadline of each key.
    pub closed spec fn deadlines(&self) -> Map<Seq<char>, u64> {
        self.model@
    }

    pub closed spec fn timeout_spec(&self) -> u64 {
        self.timeout
    }

    pub closed spec fn wf(&self) -> bool {
        &&& forall|i: int, j: int|
            0 <= i < j < self.entries@.len() ==> self.entries@[i].key@ != self.entries@[j].key@
        &&& forall|i: int|
            0 <= i < self.entries@.len() ==> #[trigger] self.model@.contains_key(
                self.entries@[i].key@,
            ) && self.model@[self.entries@[i].key@] == self.entries@[i].deadline
        &&& forall|k: Seq<char>|
            #[trigger] self.model@.contains_key(k) ==> exists|i: int|
                0 <= i < self.entries@.len() && self.entries@[i].key@ == k
    }

    /// An empty registry whose pings last `timeout` units of time.
    pub fn new(timeout: u64) -> (r: HeartbeatRegistry)
        ensures
            r.wf(),
            r.timeout_spec() == timeout,
            r.deadlines() == Map::<Seq<char>, u64>::empty(),
    {
        HeartbeatRegistry { timeout, entries: Vec::new(), model: Ghost(Map::empty()) }
    }

    pub fn timeout(&self) -> (r: u64)
        ensures
            r == self.timeout_spec(),
    {
        self.timeout
    }

    /// The number of keys with a pending deadline.
    pub fn len(&self) -> (r: usize)
        requires
            self.wf(),
        ensures
            r == self.deadlines().len(),
    {
        proof {
            self.lemma_dom_is_keys();
        }
        self.entries.len()
    }

    proof fn lemma_dom_is_keys(&self)
        requires
            self.wf(),
        ensures
            self.deadlines().dom() == self.entries@.map_values(|e: HeartbeatEntry| e.key@).to_set(),
            self.deadlines().dom().finite(),
            self.deadlines().len() == self.entries@.len(),
    {
        let keys = self.entries@.map_values(|e: HeartbeatEntry| e.key@);
        assert(self.deadlines().dom() =~= keys.to_set()) by {
            assert forall|k: Seq<char>| #[trigger]
                self.deadlines().dom().contains(k) implies keys.to_set().contains(k) by {
                let i = choose|i: int| 0 <= i < self.entries@.len() && self.entries@[i].key@ == k;
                assert(keys[i] == k);
            }
            assert forall|k: Seq<char>| #[trigger]
                keys.to_set().contains(k) implies self.deadlines().dom().contains(k) by {
                let i = choose|i: int| 0 <= i < keys.len() && keys[i] == k;
                assert(self.model@.contains_key(self.entries@[i].key@));
            }
        }
        assert(keys.no_duplicates()) by {
            assert forall|i: int, j: int|
                0 <= i < keys.len() && 0 <= j < keys.len() && i != j implies keys[i] != keys[j] by {
                if i < j {
                } else {
                }
            }
        }
        keys.unique_seq_to_set();
    }

    /// The pending deadline of `key`, if any.
    pub fn deadline(&self, key: &String) -> (r: Option<u64>)
        requires
            self.wf(),
        ensures
            r == (if self.deadlines().contains_key(key@) {
                Some(self.deadlines()[key@])
            } else {
                None::<u64>
            }),
    {
        let mut i: usize = 0;
        while i < self.entries.len()
            invariant
                self.wf(),
                i <= self.entries@.len(),
                forall|j: int| 0 <= j < i ==> self.entries@[j].key@ != key@,
            decreases self.entries@.len() - i,
        {
            if self.entries[i].key == *key {
                assert(self.model@.contains_key(self.entries@[i as int].key@));
                return Some(self.entries[i].deadline);
            }
            i = i + 1;
        }
        None
    }

    /// Records a ping of `key` at `now`: any pending deadline of the key is
    /// replaced by `now + timeout`, and no other key is touched.
    pub fn record_ping(&mut self, key: String, now: u64)
        requires
            old(self).wf(),
        ensures
            final(self).wf(),
            final(self).timeout_spec() == old(self).timeout_spec(),
            final(self).deadlines() == after_ping(
                old(self).deadlines(),
                key@,
                now,
                old(self).timeout_spec(),
            ),
    {
        let deadline = now.saturating_add(self.timeout);
        let ghost target = after_ping(self.model@, key@, now, self.timeout);
        let mut i: usize = 0;
        while i < self.entries.len()
            invariant
                self.wf(),
                *self == *old(self),
                deadline == deadline_after(now, self.timeout),
                target == after_ping(self.model@, key@, now, self.timeout),
                i <= self.entries@.len(),
                forall|j: int| 0 <= j < i ==> self.entries@[j].key@ != key@,
            decreases self.entries@.len() - i,
        {
            if self.entries[i].key == key {
                let ghost old_entries = self.entries@;
                self.entries.set(i, HeartbeatEntry { key, deadline });
                self.model = Ghost(target);
                assert forall|k: Seq<char>| #[trigger]
                    self.model@.contains_key(k) implies exists|j: int|
                    0 <= j < self.entries@.len() && self.entries@[j].key@ == k by {
                    if k != key@ {
                        assert(old(self).model@.contains_key(k));
                        let j = choose|j: int|
                            0 <= j < old_entries.len() && old_entries[j].key@ == k;
                        assert(self.entries@[j].key@ == k);
                    } else {
                        assert(self.entries@[i as int].key@ == k);
                    }
                }
                return;
            }
            i = i + 1;
        }
        let ghost old_entries = self.entries@;
        self.entries.push(HeartbeatEntry { key, deadline });
        self.model = Ghost(target);
        assert forall|k: Seq<char>| #[trigger]
            self.model@.contains_key(k) implies exists|j: int|
            0 <= j < self.entries@.len() && self.entries@[j].key@ == k by {
            if k != key@ {
                assert(old(self).model@.contains_key(k));
                let j = choose|j: int| 0 <= j < old_entries.len() && old_entries[j].key@ == k;
                assert(self.entries@[j].key@ == k);
            } else {
                assert(self.entries@[old_entries.len() as int].key@ == k);
            }
        }
    }
    /// Processes the expiries due at `now`: every key whose deadline is not
    /// after `now` leaves the registry and yields one alert stamped `now`;
    /// every other key keeps its deadline.
    pub fn expire(&mut self, now: u64) -> (r: Vec<Alert>)
        requires
            old(self).wf(),
        ensures
            final(self).wf(),
            final(self).timeout_spec() == old(self).timeout_spec(),
            final(self).deadlines() == pending(old(self).deadlines(), now),
            r@.map_values(|a: Alert| a.id@).to_set() == due(old(self).deadlines(), now),
            r@.map_values(|a: Alert| a.id@).no_duplicates(),
            forall|i: int| 0 <= i < r@.len() ==> #[trigger] r@[i].fired_at == now,
    {
        let ghost es = self.entries@;
        let ghost m = self.model@;
        let mut kept: Vec<HeartbeatEntry> = Vec::new();
        let mut alerts: Vec<Alert> = Vec::new();
        let mut i: usize = 0;
        proof {
            reveal(split_inv);
            assert(alerts@.map_values(|a: Alert| a.id@) =~= Seq::<Seq<char>>::empty());
        }
        while i < self.entries.len()
            invariant
                *self == *old(self),
                old(self).wf(),
                es == self.entries@,
                m == self.model@,
                i <= es.len(),
                split_inv(es, i as int, now, kept@, alerts@.map_values(|a: Alert| a.id@)),
                forall|j: int| 0 <= j < alerts@.len() ==> #[trigger] alerts@[j].fired_at == now,
            decreases es.len() - i,
        {
            let key = self.entries[i].key.clone();
            let deadline = self.entries[i].deadline;
            let ghost kept0 = kept@;
            let ghost ids0 = alerts@.map_values(|a: Alert| a.id@);
            if deadline > now {
                kept.push(HeartbeatEntry { key, deadline });
                assert(alerts@.map_values(|a: Alert| a.id@) =~= ids0);
            } else {
                alerts.push(Alert { id: key, fired_at: now });
                assert(alerts@.map_values(|a: Alert| a.id@) =~= ids0.push(es[i as int].key@));
            }
            proof {
                lemma_split_step(
                    es,
                    i as int,
                    now,
                    kept0,
                    ids0,
                    kept@,
                    alerts@.map_values(|a: Alert| a.id@),
                );
            }
            i = i + 1;
        }
        proof {
            lemma_split_done(es, m, now, kept@, alerts@.map_values(|a: Alert| a.id@));
        }
        let ghost kept_view = kept@;
        self.entries = kept;
        self.model = Ghost(pending(m, now));
        assert(self.entries@ == kept_view);
        alerts
    }

    /// The earliest pending deadline, if any key is pending.
    pub fn next_deadline(&self) -> (r: Option<u64>)
        requires
            self.wf(),
        ensures
            r.is_none() <==> self.deadlines().dom() == Set::<Seq<char>>::empty(),
            r.is_some() ==> (exists|k: Seq<char>|
                #[trigger] self.deadlines().contains_key(k) && self.deadlines()[k] == r.unwrap()),
            r.is_some() ==> (forall|k: Seq<char>|
                #[trigger] self.deadlines().contains_key(k) ==> r.unwrap() <= self.deadlines()[k]),
    {
        if self.entries.len() == 0 {
            assert(self.deadlines().dom() =~= Set::<Seq<char>>::empty());
            return None;
        }
        let mut best: u64 = self.entries[0].deadline;
        let mut i: usize = 1;
        while i < self.entries.len()
            invariant
                self.wf(),
                1 <= i <= self.entries@.len(),
                exists|p: int| 0 <= p < i && self.entries@[p].deadline == best,
                forall|p: int| 0 <= p < i ==> best <= #[trigger] self.entries@[p].deadline,
            decreases self.entries@.len() - i,
        {
            if self.entries[i].deadline < best {
                best = self.entries[i].deadline;
            }
            i = i + 1;
        }
        proof {
            let p = choose|p: int| 0 <= p < self.entries@.len() && self.entries@[p].deadline == best;
            assert(self.deadlines().contains_key(self.entries@[p].key@));
            assert forall|k: Seq<char>| #[trigger]
                self.deadlines().contains_key(k) implies best <= self.deadlines()[k] by {
                let q = choose|q: int| 0 <= q < self.entries@.len() && self.entries@[q].key@ == k;
            }
        }
        Some(best)
    }

    /// Drops every pending deadline; no alert follows for any of them.
    pub fn shutdown(&mut self)
        requires
            old(self).wf(),
        ensures
            final(self).wf(),
            final(self).timeout_spec() == old(self).timeout_spec(),
            final(self).deadlines() == Map::<Seq<char>, u64>::empty(),
    {
        self.entries = Vec::new();
        self.model = Ghost(Map::empty());
    }
}

} // verus!
