use vstd::prelude::*;

use std::collections::VecDeque;

verus! {

/// A unit of work for a crawl worker.
#[derive(Debug, Clone, PartialEq, Eq)]
pub enum Command {
    /// Fetch and process this URL.
    Fetch(String),
    /// Leave the worker loop.
    Stop,
}

/// The outcome of taking work from the frontier.
#[derive(Debug, Clone, PartialEq, Eq)]
pub enum Steal<T> {
    Empty,
    Success(T),
}

/// A two-tier work queue: the priority tier is always drained first.
#[derive(Debug)]
pub struct PriorityInjector<T> {
    priority_q: VecDeque<T>,
    q: VecDeque<T>,
}

/// The tiers after a sequence of (item, is-priority) pushes, in order.
pub open spec fn after_pushes<T>(tiers: (Seq<T>, Seq<T>), pushes: Seq<(T, bool)>) -> (
    Seq<T>,
    Seq<T>,
)
    decreases pushes.len(),
{
    if pushes.len() == 0 {
        tiers
    } else {
        let (p, n) = after_pushes(tiers, pushes.drop_last());
        if pushes.last().1 {
            (p.push(pushes.last().0), n)
        } else {
            (p, n.push(pushes.last().0))
        }
    }
}

/// The items of `pushes` with the given tag, in order.
pub open spec fn tagged<T>(pushes: Seq<(T, bool)>, tag: bool) -> Seq<T>
    decreases pushes.len(),
{
    if pushes.len() == 0 {
        Seq::empty()
    } else if pushes.last().1 == tag {
        tagged(pushes.drop_last(), tag).push(pushes.last().0)
    } else {
        tagged(pushes.drop_last(), tag)
    }
}

impl<T> View for PriorityInjector<T> {
    /// The priority tier and the normal tier, oldest first.
    type V = (Seq<T>, Seq<T>);

    closed spec fn view(&self) -> (Seq<T>, Seq<T>) {
        (self.priority_q@, self.q@)
    }
}

impl<T> PriorityInjector<T> {
    pub fn new() -> (r: Self)
        ensures
            r@.0.len() == 0,
            r@.1.len() == 0,
    {
        PriorityInjector { priority_q: VecDeque::new(), q: VecDeque::new() }
    }

    /// Appends `value` to the tier that `priority` names.
    pub fn push(&mut self, value: T, priority: bool)
        ensures
            final(self)@ == (if priority {
                (old(self)@.0.push(value), old(self)@.1)
            } else {
                (old(self)@.0, old(self)@.1.push(value))
            }),
    {
        match priority {
            true => self.priority_q.push_back(value),
            false => self.q.push_back(value),
        }
    }

    /// Takes the oldest priority item; the oldest normal item only when no
    /// priority item is queued.
    pub fn steal(&mut self) -> (r: Steal<T>)
        ensures
            old(self)@.0.len() > 0 ==> r == Steal::Success(old(self)@.0[0]) && final(self)@ == (
            old(self)@.0.drop_first(), old(self)@.1),
            old(self)@.0.len() == 0 && old(self)@.1.len() > 0 ==> r == Steal::Success(
                old(self)@.1[0],
            ) && final(self)@ == (old(self)@.0, old(self)@.1.drop_first()),
            old(self)@.0.len() == 0 && old(self)@.1.len() == 0 ==> r == Steal::<T>::Empty
                && final(self)@ == old(self)@,
    {
        if self.priority_q.len() == 0 {
            match self.q.pop_front() {
                Some(v) => Steal::Success(v),
                None => Steal::Empty,
            }
        } else {
            match self.priority_q.pop_front() {
                Some(v) => Steal::Success(v),
                None => Steal::Empty,
            }
        }
    }
}

/// What a worker does after polling the frontier.
#[derive(Debug, Clone, PartialEq, Eq)]
pub enum WorkerStep {
    /// Fetch and process this URL, then poll again.
    Fetch(String),
    /// Leave the worker loop.
    Stop,
    /// Nothing was queued: poll again.
    Idle,
}

/// The worker's decision on what a poll of the frontier returned.
pub fn worker_step(polled: Steal<Command>) -> (r: WorkerStep)
    ensures
        polled matches Steal::Success(Command::Fetch(u)) ==> r == WorkerStep::Fetch(u),
        polled matches Steal::Success(Command::Stop) ==> r == WorkerStep::Stop,
        polled is Empty ==> r == WorkerStep::Idle,
{
    match polled {
        Steal::Success(Command::Fetch(u)) => WorkerStep::Fetch(u),
        Steal::Success(Command::Stop) => WorkerStep::Stop,
        Steal::Empty => WorkerStep::Idle,
    }
}

/// Whatever the interleaving of pushes, each tier receives exactly the items
/// pushed with its tag, in push order, behind what it held; so as long as
/// any priority item is queued, `steal` hands out a priority item and never
/// a normal one.
pub proof fn lemma_tiers_keep_push_order<T>(tiers: (Seq<T>, Seq<T>), pushes: Seq<(T, bool)>)
    ensures
        after_pushes(tiers, pushes).0 == tiers.0 + tagged(pushes, true),
        after_pushes(tiers, pushes).1 == tiers.1 + tagged(pushes, false),
        after_pushes(tiers, pushes).0.len() > 0 ==> after_pushes(tiers, pushes).0[0] == (
        if tiers.0.len() > 0 {
            tiers.0[0]
        } else {
            tagged(pushes, true)[0]
        }),
    decreases pushes.len(),
{
    if pushes.len() > 0 {
        lemma_tiers_keep_push_order(tiers, pushes.drop_last());
        let x = pushes.last().0;
        assert(tiers.0 + tagged(pushes.drop_last(), true).push(x) =~= (tiers.0 + tagged(
            pushes.drop_last(),
            true,
        )).push(x));
        assert(tiers.1 + tagged(pushes.drop_last(), false).push(x) =~= (tiers.1 + tagged(
            pushes.drop_last(),
            false,
        )).push(x));
    }
    let t = tagged(pushes, true);
    assert((tiers.0 + t).len() > 0 ==> (tiers.0 + t)[0] == (if tiers.0.len() > 0 {
        tiers.0[0]
    } else {
        t[0]
    }));
}

} // verus!
