//! Shutdown as it goes: the clock over its budget, and the log of its steps.

use crate::live_gate::{signalled_once, waited_once, RuntimeKiller};
use vstd::prelude::*;

verus! {

/// What a clock was asked, and what it said.
#[derive(Debug, Clone, Copy, PartialEq, Eq, Structural)]
pub enum ClockStep {
    /// To start a budget of this many milliseconds.
    Started(u64),
    /// How many milliseconds are left: this many.
    Left(u64),
}

/// A clock over the budget that shutdown has for waiting.
pub trait ShutdownClock: Sized {
    /// What the clock has been asked so far, in order: an account that it keeps in what it
    /// holds. It is part of the contract alone, and of a clock that does not say how it keeps
    /// the account nothing is known but what the methods promise.
    open spec fn told(&self) -> Seq<ClockStep> {
        arbitrary::<spec_fn(Self) -> Seq<ClockStep>>()(*self)
    }

    /// Starts a budget of this many milliseconds.
    fn start(&mut self, budget_millis: u64)
        ensures
            final(self).told() == old(self).told().push(ClockStep::Started(budget_millis)),
    ;

    /// The milliseconds that are left of the budget.
    fn remaining_millis(&mut self) -> (left: u64)
        ensures
            final(self).told() == old(self).told().push(ClockStep::Left(left)),
    ;
}

/// A step of shutdown.
#[derive(Debug, Clone, Copy, PartialEq, Eq, Structural)]
pub enum ShutdownStep {
    /// The owner at this place of the list was told to end its process tree.
    Signalled(usize),
    /// A budget of this many milliseconds was started.
    Started(u64),
    /// This many milliseconds were left of the budget.
    Left(u64),
    /// The owner at this place was waited for, for this many milliseconds at most.
    Waited(usize, u64),
}

/// The steps of a shutdown, in the order in which they were taken. A step is recorded where
/// it is taken, and nowhere else.
#[derive(Debug)]
pub struct ShutdownLog {
    steps: Vec<ShutdownStep>,
}

impl View for ShutdownLog {
    type V = Seq<ShutdownStep>;

    closed spec fn view(&self) -> Seq<ShutdownStep> {
        self.steps@
    }
}

impl ShutdownLog {
    /// A log without steps.
    pub fn new() -> (log: ShutdownLog)
        ensures
            log@ == Seq::<ShutdownStep>::empty(),
    {
        ShutdownLog { steps: Vec::new() }
    }

    /// The steps, in order.
    pub fn steps(&self) -> (steps: &Vec<ShutdownStep>)
        ensures
            steps@ == self@,
    {
        &self.steps
    }

    /// Tells the owner at a place to end its process tree.
    pub fn signal<K: RuntimeKiller>(&mut self, place: usize, owner: &mut K) -> (outcome: Result<
        (),
        String,
    >)
        ensures
            final(self)@ == old(self)@.push(ShutdownStep::Signalled(place)),
            signalled_once(*old(owner), *final(owner), outcome),
    {
        self.steps.push(ShutdownStep::Signalled(place));
        owner.signal_shutdown()
    }

    /// Starts a budget.
    pub fn start<C: ShutdownClock>(&mut self, clock: &mut C, budget_millis: u64)
        ensures
            final(self)@ == old(self)@.push(ShutdownStep::Started(budget_millis)),
            final(clock).told() == old(clock).told().push(ClockStep::Started(budget_millis)),
    {
        self.steps.push(ShutdownStep::Started(budget_millis));
        clock.start(budget_millis);
    }

    /// Reads what is left of the budget.
    pub fn read<C: ShutdownClock>(&mut self, clock: &mut C) -> (left: u64)
        ensures
            final(self)@ == old(self)@.push(ShutdownStep::Left(left)),
            final(clock).told() == old(clock).told().push(ClockStep::Left(left)),
    {
        let left = clock.remaining_millis();
        self.steps.push(ShutdownStep::Left(left));
        left
    }

    /// Waits for the process tree of the owner at a place.
    pub fn wait<K: RuntimeKiller>(&mut self, place: usize, owner: &mut K, timeout_millis: u64) -> (
    outcome: Result<(), String>)
        ensures
            final(self)@ == old(self)@.push(ShutdownStep::Waited(place, timeout_millis)),
            waited_once(*old(owner), *final(owner), timeout_millis, outcome),
    {
        self.steps.push(ShutdownStep::Waited(place, timeout_millis));
        owner.wait_for_shutdown_quiescence(timeout_millis)
    }
}

/// The least of a bound and the readings of a clock.
pub open spec fn least(lefts: Seq<u64>, bound: u64) -> u64
    decreases lefts.len(),
{
    if lefts.len() == 0 {
        bound
    } else if lefts.last() < least(lefts.drop_last(), bound) {
        lefts.last()
    } else {
        least(lefts.drop_last(), bound)
    }
}

/// How long the owners are waited for that share one budget: each for what was left of it
/// when its turn came, and none longer than the one before it.
pub open spec fn shared_timeouts(lefts: Seq<u64>, budget: u64) -> Seq<u64> {
    Seq::new(lefts.len(), |i: int| least(lefts.take(i + 1), budget))
}

/// What a clock is asked over one budget: to start it, and then once for each owner what is
/// left.
pub open spec fn clock_course(lefts: Seq<u64>, budget: u64) -> Seq<ClockStep> {
    seq![ClockStep::Started(budget)] + Seq::new(lefts.len(), |i: int| ClockStep::Left(lefts[i]))
}

/// The first steps of a shutdown: the owners are signalled, in order.
pub open spec fn signal_steps(count: nat) -> Seq<ShutdownStep> {
    Seq::new(count, |i: int| ShutdownStep::Signalled(i as usize))
}

/// The steps in which owners are waited for: for each in turn, the clock is read just before.
pub open spec fn turns(lefts: Seq<u64>, budget: u64) -> Seq<ShutdownStep>
    decreases lefts.len(),
{
    if lefts.len() == 0 {
        seq![]
    } else {
        turns(lefts.drop_last(), budget).push(ShutdownStep::Left(lefts.last())).push(
            ShutdownStep::Waited((lefts.len() - 1) as usize, least(lefts, budget)),
        )
    }
}

/// The last steps of a shutdown: a budget is started, and the owners are waited for, in
/// order.
pub open spec fn wait_steps(lefts: Seq<u64>, budget: u64) -> Seq<ShutdownStep> {
    seq![ShutdownStep::Started(budget)] + turns(lefts, budget)
}

/// Owners that share a budget are waited for no longer than the budget, than what is left
/// of it, and than the owner before them.
pub proof fn waits_share_the_budget(lefts: Seq<u64>, budget: u64, at: int)
    requires
        0 <= at < lefts.len(),
    ensures
        shared_timeouts(lefts, budget)[at] <= budget,
        shared_timeouts(lefts, budget)[at] <= lefts[at],
        at > 0 ==> shared_timeouts(lefts, budget)[at] <= shared_timeouts(lefts, budget)[at - 1],
{
    let upto = lefts.take(at + 1);
    assert(upto.drop_last() =~= lefts.take(at));
    assert(upto.last() == lefts[at]);
    least_is_bounded(upto, budget);
}

proof fn least_is_bounded(lefts: Seq<u64>, bound: u64)
    ensures
        least(lefts, bound) <= bound,
    decreases lefts.len(),
{
    if lefts.len() > 0 {
        least_is_bounded(lefts.drop_last(), bound);
    }
}

proof fn least_is_least(lefts: Seq<u64>, bound: u64, i: int)
    ensures
        least(lefts, bound) <= bound,
        0 <= i < lefts.len() ==> least(lefts, bound) <= lefts[i],
        least(lefts, bound) == bound || lefts.contains(least(lefts, bound)),
    decreases lefts.len(),
{
    if lefts.len() > 0 {
        let rest = lefts.drop_last();
        least_is_least(rest, bound, i);
        if 0 <= i < rest.len() {
            assert(rest[i] == lefts[i]);
        }
        if lefts.last() < least(rest, bound) {
            assert(lefts[lefts.len() - 1] == lefts.last());
        } else if least(rest, bound) != bound {
            let k = choose|k: int| 0 <= k < rest.len() && rest[k] == least(rest, bound);
            assert(lefts[k] == least(rest, bound));
        }
    }
}

/// An owner is waited for exactly as long as the least of the budget and of what was left of
/// it at its turn and before: no less than that, and no more.
pub proof fn waits_are_as_long_as_what_is_left(lefts: Seq<u64>, budget: u64, at: int, i: int)
    requires
        0 <= i <= at < lefts.len(),
    ensures
        shared_timeouts(lefts, budget).len() == lefts.len(),
        shared_timeouts(lefts, budget)[at] <= budget,
        shared_timeouts(lefts, budget)[at] <= lefts[i],
        shared_timeouts(lefts, budget)[at] == budget || exists|k: int|
            0 <= k <= at && #[trigger] lefts[k] == shared_timeouts(lefts, budget)[at],
{
    let upto = lefts.take(at + 1);
    least_is_least(upto, budget, i);
    assert(upto[i] == lefts[i]);
    let time = shared_timeouts(lefts, budget)[at];
    if time != budget {
        let k = choose|k: int| 0 <= k < upto.len() && upto[k] == time;
        assert(lefts[k] == time);
    }
}

/// A clock is started once with the budget, and then read once for each owner.
pub proof fn clocks_are_read_once_for_each(lefts: Seq<u64>, budget: u64, i: int)
    requires
        0 <= i < lefts.len(),
    ensures
        clock_course(lefts, budget).len() == lefts.len() + 1,
        clock_course(lefts, budget)[0] == ClockStep::Started(budget),
        clock_course(lefts, budget)[i + 1] == ClockStep::Left(lefts[i]),
{
}

proof fn turns_alternate(lefts: Seq<u64>, budget: u64, i: int)
    requires
        0 <= i < lefts.len() <= usize::MAX,
    ensures
        turns(lefts, budget).len() == 2 * lefts.len(),
        turns(lefts, budget)[2 * i] == ShutdownStep::Left(lefts[i]),
        turns(lefts, budget)[2 * i + 1] == ShutdownStep::Waited(
            i as usize,
            least(lefts.take(i + 1), budget),
        ),
    decreases lefts.len(),
{
    let rest = lefts.drop_last();
    turns_len(rest, budget);
    if i < rest.len() {
        turns_alternate(rest, budget, i);
        assert(rest.take(i + 1) =~= lefts.take(i + 1));
        assert(turns(lefts, budget)[2 * i] == turns(rest, budget)[2 * i]);
        assert(turns(lefts, budget)[2 * i + 1] == turns(rest, budget)[2 * i + 1]);
    } else {
        assert(lefts.take(i + 1) =~= lefts);
    }
}

proof fn turns_len(lefts: Seq<u64>, budget: u64)
    ensures
        turns(lefts, budget).len() == 2 * lefts.len(),
    decreases lefts.len(),
{
    if lefts.len() > 0 {
        turns_len(lefts.drop_last(), budget);
    }
}

/// The steps of a shutdown: all owners are signalled in their order, then the budget is
/// started, and then each owner in its order is waited for, right after the clock was read
/// for it.
pub proof fn shutdowns_signal_before_they_wait(lefts: Seq<u64>, budget: u64, i: int)
    requires
        0 <= i < lefts.len() <= usize::MAX,
    ensures
        signal_steps(lefts.len()).len() == lefts.len(),
        signal_steps(lefts.len())[i] == ShutdownStep::Signalled(i as usize),
        wait_steps(lefts, budget).len() == 1 + 2 * lefts.len(),
        wait_steps(lefts, budget)[0] == ShutdownStep::Started(budget),
        wait_steps(lefts, budget)[1 + 2 * i] == ShutdownStep::Left(lefts[i]),
        wait_steps(lefts, budget)[2 + 2 * i] == ShutdownStep::Waited(
            i as usize,
            shared_timeouts(lefts, budget)[i],
        ),
{
    turns_alternate(lefts, budget, i);
}

} // verus!
