use vstd::prelude::*;

verus! {

/// The positions of `o` that hold `v`, in increasing order.
pub open spec fn indices_with(o: Seq<bool>, v: bool) -> Seq<usize>
    decreases o.len(),
{
    if o.len() == 0 {
        Seq::empty()
    } else if o.last() == v {
        indices_with(o.drop_last(), v).push((o.len() - 1) as usize)
    } else {
        indices_with(o.drop_last(), v)
    }
}

/// What the dispatcher asks for next.
pub enum DispatchAction {
    /// Deliver the alert through the notifier at this position.
    Attempt(usize),
    /// Every notifier has had its one attempt.
    Finished,
}

/// The fan-out of one alert over a fixed list of notifiers. Each notifier gets
/// exactly one attempt, in order, whatever became of the attempts before it;
/// the outcome of each is recorded on its own.
pub struct Dispatch {
    total: usize,
    next: usize,
    delivered: Vec<usize>,
    failed: Vec<usize>,
    outcomes: Ghost<Seq<bool>>,
}

impl Dispatch {
    /// The outcome of each attempt so far, by position: `true` where the
    /// notifier delivered the alert.
    pub closed spec fn outcomes(&self) -> Seq<bool> {
        self.outcomes@
    }

    /// The number of notifiers.
    pub closed spec fn total_spec(&self) -> nat {
        self.total as nat
    }

    pub closed spec fn wf(&self) -> bool {
        &&& self.next == self.outcomes@.len()
        &&& self.next <= self.total
        &&& self.delivered@ == indices_with(self.outcomes@, true)
        &&& self.failed@ == indices_with(self.outcomes@, false)
    }

    /// A fan-out over `total` notifiers, with no attempt made yet.
    pub fn new(total: usize) -> (r: Dispatch)
        ensures
            r.wf(),
            r.total_spec() == total,
            r.outcomes() == Seq::<bool>::empty(),
    {
        Dispatch {
            total,
            next: 0,
            delivered: Vec::new(),
            failed: Vec::new(),
            outcomes: Ghost(Seq::empty()),
        }
    }

    /// The next notifier to attempt, in order, or `Finished` once every one
    /// has had its attempt.
    pub fn next_action(&self) -> (r: DispatchAction)
        requires
            self.wf(),
        ensures
            self.outcomes().len() < self.total_spec() ==> r == DispatchAction::Attempt(
                self.outcomes().len() as usize,
            ),
            self.outcomes().len() >= self.total_spec() ==> r is Finished,
    {
        if self.next < self.total {
            DispatchAction::Attempt(self.next)
        } else {
            DispatchAction::Finished
        }
    }

    /// Records the outcome of the attempt that `next_action` asked for.
    pub fn record(&mut self, succeeded: bool)
        requires
            old(self).wf(),
            old(self).outcomes().len() < old(self).total_spec(),
        ensures
            final(self).wf(),
            final(self).total_spec() == old(self).total_spec(),
            final(self).outcomes() == old(self).outcomes().push(succeeded),
    {
        let ghost o = self.outcomes@.push(succeeded);
        assert(o.drop_last() =~= self.outcomes@);
        if succeeded {
            self.delivered.push(self.next);
        } else {
            self.failed.push(self.next);
        }
        self.next = self.next + 1;
        self.outcomes = Ghost(o);
    }

    /// Every notifier has had its attempt.
    pub fn is_finished(&self) -> (r: bool)
        requires
            self.wf(),
        ensures
            r == (self.outcomes().len() == self.total_spec()),
    {
        self.next == self.total
    }

    /// The positions of the notifiers that delivered the alert.
    pub fn delivered(&self) -> (r: &Vec<usize>)
        requires
            self.wf(),
        ensures
            r@ == indices_with(self.outcomes(), true),
    {
        &self.delivered
    }

    /// The positions of the notifiers that failed to deliver it.
    pub fn failed(&self) -> (r: &Vec<usize>)
        requires
            self.wf(),
        ensures
            r@ == indices_with(self.outcomes(), false),
    {
        &self.failed
    }
}

proof fn lemma_indices_with(o: Seq<bool>, v: bool, i: int)
    requires
        0 <= i < o.len(),
        o.len() <= usize::MAX,
    ensures
        indices_with(o, v).contains(i as usize) <==> o[i] == v,
    decreases o.len(),
{
    let rest = o.drop_last();
    if i < o.len() - 1 {
        lemma_indices_with(rest, v, i);
        lemma_indices_below(rest, v);
        if o.last() == v {
            let s = indices_with(rest, v);
            assert(indices_with(o, v) == s.push((o.len() - 1) as usize));
            if s.contains(i as usize) {
                let k = s.index_of(i as usize);
                assert(indices_with(o, v)[k] == i as usize);
            }
            if indices_with(o, v).contains(i as usize) {
                let k = indices_with(o, v).index_of(i as usize);
                if k < s.len() {
                    assert(s[k] == i as usize);
                }
            }
        }
    } else {
        lemma_indices_below(rest, v);
        if o.last() == v {
            assert(indices_with(o, v).last() == i as usize);
        } else {
            assert(!(indices_with(rest, v).contains(i as usize)));
        }
    }
}

proof fn lemma_indices_below(o: Seq<bool>, v: bool)
    requires
        o.len() <= usize::MAX,
    ensures
        forall|k: int|
            0 <= k < indices_with(o, v).len() ==> #[trigger] indices_with(o, v)[k] < o.len(),
    decreases o.len(),
{
    if o.len() > 0 {
        lemma_indices_below(o.drop_last(), v);
        let s = indices_with(o.drop_last(), v);
        if o.last() == v {
            assert forall|k: int| 0 <= k < indices_with(o, v).len() implies #[trigger] indices_with(
                o,
                v,
            )[k] < o.len() by {
                if k < s.len() {
                    assert(indices_with(o, v)[k] == s[k]);
                }
            }
        }
    }
}

/// Failures are isolated: over any fan-out of one alert, a notifier appears
/// among those that delivered it exactly when its own attempt succeeded, and
/// among those that failed exactly when its own attempt failed, whatever the
/// outcomes of the others and wherever it stands in the list.
pub proof fn lemma_notifier_isolation(o1: Seq<bool>, o2: Seq<bool>, i: int)
    requires
        o1.len() == o2.len(),
        o1.len() <= usize::MAX,
        0 <= i < o1.len(),
        o1[i] == o2[i],
    ensures
        indices_with(o1, true).contains(i as usize) <==> o1[i],
        indices_with(o1, false).contains(i as usize) <==> !o1[i],
        indices_with(o1, true).contains(i as usize) == indices_with(o2, true).contains(i as usize),
{
    lemma_indices_with(o1, true, i);
    lemma_indices_with(o1, false, i);
    lemma_indices_with(o2, true, i);
}

} // verus!
