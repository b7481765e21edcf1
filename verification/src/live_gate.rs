//! The launch gate that a session launch passes between its admission and its registration.

use crate::numbers::{decimal, decimal_text};
use crate::text::{join_texts, join_with, joined, views};
use vstd::prelude::*;
use vstd::string::*;

verus! {

/// What the owner of a process tree was asked, and what it answered.
#[derive(Debug)]
pub enum Asked {
    /// To terminate the tree.
    Kill(Result<(), String>),
    /// To begin to terminate the tree.
    Signal(Result<(), String>),
    /// To wait for the tree to be gone, for this many milliseconds.
    Wait(u64, Result<(), String>),
}

/// The owner of a session's process tree.
pub trait RuntimeKiller: Sized {
    /// What the owner has been asked so far, in order: an account that it keeps in what it
    /// holds, such as an [`Account`]. It is part of the contract alone, and of an owner that
    /// does not say how it keeps the account nothing is known but what the methods promise.
    open spec fn asked(&self) -> Seq<Asked> {
        arbitrary::<spec_fn(Self) -> Seq<Asked>>()(*self)
    }

    /// Terminates the process tree.
    fn kill(&mut self) -> (outcome: Result<(), String>)
        ensures
            final(self).asked() == old(self).asked().push(Asked::Kill(outcome)),
    ;

    /// Begins to terminate the process tree at shutdown, without waiting for it. An owner
    /// without a way of its own to do so kills the tree.
    fn signal_shutdown(&mut self) -> (outcome: Result<(), String>)
        ensures
            final(self).asked() == old(self).asked().push(Asked::Signal(outcome)),
    ;

    /// Waits for the process tree to be gone after [`RuntimeKiller::signal_shutdown`]. An
    /// owner with nothing to wait for answers as [`Account::nothing_to_wait_for`] does.
    fn wait_for_shutdown_quiescence(&mut self, timeout_millis: u64) -> (outcome: Result<
        (),
        String,
    >)
        ensures
            final(self).asked() == old(self).asked().push(Asked::Wait(timeout_millis, outcome)),
    ;
}

/// What an owner was asked, as it keeps it.
#[derive(Debug)]
pub struct Account {
    entries: Vec<Asked>,
}

impl View for Account {
    type V = Seq<Asked>;

    closed spec fn view(&self) -> Seq<Asked> {
        self.entries@
    }
}

fn copied(outcome: &Result<(), String>) -> (copy: Result<(), String>)
    ensures
        copy == *outcome,
{
    match outcome {
        Ok(()) => {
            assert(outcome->Ok_0 == ());
            Ok(())
        },
        Err(text) => Err(text.clone()),
    }
}

impl Clone for Account {
    fn clone(&self) -> (copy: Account)
        ensures
            copy@ == self@,
    {
        let mut entries: Vec<Asked> = Vec::new();
        let mut i: usize = 0;
        while i < self.entries.len()
            invariant
                i <= self.entries@.len(),
                entries@ == self.entries@.take(i as int),
            decreases self.entries@.len() - i,
        {
            let entry = match &self.entries[i] {
                Asked::Kill(outcome) => Asked::Kill(copied(outcome)),
                Asked::Signal(outcome) => Asked::Signal(copied(outcome)),
                Asked::Wait(millis, outcome) => Asked::Wait(*millis, copied(outcome)),
            };
            entries.push(entry);
            assert(entries@ =~= self.entries@.take(i as int + 1));
            i += 1;
        }
        assert(entries@ =~= self.entries@);
        Account { entries }
    }
}

impl Account {
    /// The account of an owner that was asked nothing yet.
    pub fn new() -> (account: Account)
        ensures
            account@ == Seq::<Asked>::empty(),
    {
        Account { entries: Vec::new() }
    }

    /// What the owner was asked, in order.
    pub fn entries(&self) -> (entries: &Vec<Asked>)
        ensures
            entries@ == self@,
    {
        &self.entries
    }

    /// Takes down that the owner was asked to terminate its tree, and what came of it.
    pub fn killed(&mut self, outcome: Result<(), String>) -> (told: Result<(), String>)
        ensures
            told == outcome,
            final(self)@ == old(self)@.push(Asked::Kill(outcome)),
    {
        self.entries.push(Asked::Kill(copied(&outcome)));
        outcome
    }

    /// Takes down that the owner was asked to begin to terminate its tree, and what came of
    /// it: of its own way to do so or, where it has none, of a kill.
    pub fn signalled(&mut self, outcome: Result<(), String>) -> (told: Result<(), String>)
        ensures
            told == outcome,
            final(self)@ == old(self)@.push(Asked::Signal(outcome)),
    {
        self.entries.push(Asked::Signal(copied(&outcome)));
        outcome
    }

    /// Takes down that the owner was asked to wait for its tree, and what came of it.
    pub fn waited(&mut self, timeout_millis: u64, outcome: Result<(), String>) -> (told: Result<
        (),
        String,
    >)
        ensures
            told == outcome,
            final(self)@ == old(self)@.push(Asked::Wait(timeout_millis, outcome)),
    {
        self.entries.push(Asked::Wait(timeout_millis, copied(&outcome)));
        outcome
    }

    /// The answer of an owner that was asked to wait and has nothing to wait for.
    pub fn nothing_to_wait_for(&mut self, timeout_millis: u64) -> (told: Result<(), String>)
        ensures
            told == Ok::<(), String>(()),
            final(self)@ == old(self)@.push(Asked::Wait(timeout_millis, Ok(()))),
    {
        self.waited(timeout_millis, Ok(()))
    }
}

/// Whether between two moments an owner was asked once, to terminate its tree, and answered
/// so.
pub open spec fn killed_once<K: RuntimeKiller>(
    before: K,
    after: K,
    outcome: Result<(), String>,
) -> bool {
    after.asked() == before.asked().push(Asked::Kill(outcome))
}

/// Whether between two moments an owner was asked once, to begin to terminate its tree, and
/// answered so.
pub open spec fn signalled_once<K: RuntimeKiller>(
    before: K,
    after: K,
    outcome: Result<(), String>,
) -> bool {
    after.asked() == before.asked().push(Asked::Signal(outcome))
}

/// Whether between two moments an owner was asked once, to wait for its tree, and answered
/// so.
pub open spec fn waited_once<K: RuntimeKiller>(
    before: K,
    after: K,
    timeout_millis: u64,
    outcome: Result<(), String>,
) -> bool {
    after.asked() == before.asked().push(Asked::Wait(timeout_millis, outcome))
}

/// A refusal to take over the owner of a process tree: what is told, and the owner, which
/// comes back.
#[derive(Debug)]
pub struct Refusal<K> {
    pub text: String,
    pub owner: K,
}

/// The texts of the failures among outcomes, in order.
pub open spec fn failed(outcomes: Seq<Result<(), String>>) -> Seq<Seq<char>>
    decreases outcomes.len(),
{
    if outcomes.len() == 0 {
        seq![]
    } else {
        match outcomes.last() {
            Ok(_) => failed(outcomes.drop_last()),
            Err(text) => failed(outcomes.drop_last()).push(text@),
        }
    }
}

/// The failures among outcomes and one more.
pub proof fn failed_and_one_more(outcomes: Seq<Result<(), String>>, outcome: Result<(), String>)
    ensures
        failed(outcomes.push(outcome)) == match outcome {
            Ok(_) => failed(outcomes),
            Err(text) => failed(outcomes).push(text@),
        },
{
    assert(outcomes.push(outcome).drop_last() =~= outcomes);
}

/// How long shutdown waits for launches that are under way.
pub const ADMISSION_DRAIN_MILLIS: u64 = 500;

/// What a launch that comes during shutdown is told.
pub const LAUNCH_REFUSED: &'static str =
    "daemon is shutting down; refusing to launch a new live session";

/// What a launch whose process is spawned during shutdown is told.
pub const SPAWN_REFUSED: &'static str =
    "daemon is shutting down; refusing to spawn a new live session";

/// One launch between its admission and its registration.
pub struct LaunchSlot<K> {
    pub id: u64,
    pub killer: Option<K>,
}

/// The launch gate that counts the launches under way, and closes at shutdown.
pub struct LiveLaunchGate<K> {
    closed: bool,
    next_id: u64,
    in_flight: Vec<LaunchSlot<K>>,
}

/// A launch's place in the launch gate.
#[derive(Debug)]
pub struct LiveLaunchAdmission {
    id: u64,
    active: bool,
    published: bool,
}

impl LiveLaunchAdmission {
    /// The number of the launch.
    pub closed spec fn number(&self) -> u64 {
        self.id
    }

    /// Whether the launch has not been released yet.
    pub closed spec fn is_active(&self) -> bool {
        self.active
    }

    /// Whether the launch has published the owner of its process tree.
    pub closed spec fn is_published(&self) -> bool {
        self.published
    }
}

/// Whether no two launches have one number.
pub open spec fn numbers_differ<K>(slots: Seq<LaunchSlot<K>>) -> bool {
    forall|i: int, j: int|
        0 <= i < slots.len() && 0 <= j < slots.len() && i != j ==> (#[trigger] slots[i]).id != (
        #[trigger] slots[j]).id
}

/// The launches under way, each with the published owner of its process tree.
pub open spec fn slot_map<K>(slots: Seq<LaunchSlot<K>>) -> Map<u64, Option<K>>
    decreases slots.len(),
{
    if slots.len() == 0 {
        Map::empty()
    } else {
        slot_map(slots.drop_last()).insert(slots.last().id, slots.last().killer)
    }
}

/// Whether the published owners of the launches under way have all been signalled, each
/// once, in some order, and answered so. What the launches are stays.
pub open spec fn all_signalled<K: RuntimeKiller>(
    before: Map<u64, Option<K>>,
    after: Map<u64, Option<K>>,
    order: Seq<u64>,
    outcomes: Seq<Result<(), String>>,
) -> bool {
    &&& after.dom() == before.dom()
    &&& order.no_duplicates()
    &&& order.len() == outcomes.len()
    &&& forall|id: u64| #[trigger]
        order.contains(id) <==> before.dom().contains(id) && before[id] is Some
    &&& forall|i: int|
        0 <= i < order.len() ==> after[#[trigger] order[i]] is Some && signalled_once(
            before[order[i]]->0,
            after[order[i]]->0,
            outcomes[i],
        )
    &&& forall|id: u64|
        before.dom().contains(id) && before[id] is None ==> (#[trigger] after[id]) is None
}

proof fn slot_map_at<K>(slots: Seq<LaunchSlot<K>>, i: int)
    requires
        numbers_differ(slots),
        0 <= i < slots.len(),
    ensures
        slot_map(slots).dom().contains(slots[i].id),
        slot_map(slots)[slots[i].id] == slots[i].killer,
    decreases slots.len(),
{
    if i < slots.len() - 1 {
        assert(slots.drop_last()[i] == slots[i]);
        assert(slots.last().id != slots[i].id);
        slot_map_at(slots.drop_last(), i);
    }
}

proof fn slot_map_absent<K>(slots: Seq<LaunchSlot<K>>, id: u64)
    requires
        forall|i: int| 0 <= i < slots.len() ==> (#[trigger] slots[i]).id != id,
    ensures
        !slot_map(slots).dom().contains(id),
    decreases slots.len(),
{
    if slots.len() > 0 {
        assert forall|i: int| 0 <= i < slots.drop_last().len() implies (
        #[trigger] slots.drop_last()[i]).id != id by {
            assert(slots.drop_last()[i] == slots[i]);
        }
        slot_map_absent(slots.drop_last(), id);
    }
}

proof fn slot_map_has<K>(slots: Seq<LaunchSlot<K>>, id: u64)
    requires
        slot_map(slots).dom().contains(id),
    ensures
        exists|i: int| 0 <= i < slots.len() && (#[trigger] slots[i]).id == id,
    decreases slots.len(),
{
    if slots.last().id == id {
        assert(slots[slots.len() - 1].id == id);
    } else {
        slot_map_has(slots.drop_last(), id);
        let i = choose|i: int|
            0 <= i < slots.drop_last().len() && (#[trigger] slots.drop_last()[i]).id == id;
        assert(slots[i].id == id);
    }
}

/// Two lists of launches with the same numbers make maps with the same domain.
proof fn slot_map_domain<K>(a: Seq<LaunchSlot<K>>, b: Seq<LaunchSlot<K>>)
    requires
        a.len() == b.len(),
        forall|i: int| 0 <= i < a.len() ==> (#[trigger] a[i]).id == b[i].id,
    ensures
        slot_map(a).dom() == slot_map(b).dom(),
    decreases a.len(),
{
    if a.len() > 0 {
        let a1 = a.drop_last();
        let b1 = b.drop_last();
        assert forall|i: int| 0 <= i < a1.len() implies (#[trigger] a1[i]).id == b1[i].id by {
            assert(a1[i] == a[i] && b1[i] == b[i]);
        }
        slot_map_domain(a1, b1);
        assert(a[a.len() - 1].id == b[a.len() - 1].id);
        assert(slot_map(a).dom() =~= slot_map(b).dom());
    }
}

/// A new owner for one launch changes the map in its place alone.
proof fn slot_map_updated<K>(a: Seq<LaunchSlot<K>>, b: Seq<LaunchSlot<K>>, at: int)
    requires
        numbers_differ(a),
        a.len() == b.len(),
        0 <= at < a.len(),
        forall|i: int| 0 <= i < a.len() ==> (#[trigger] a[i]).id == b[i].id,
        forall|i: int| 0 <= i < a.len() && i != at ==> #[trigger] a[i] == b[i],
    ensures
        numbers_differ(b),
        slot_map(b) == slot_map(a).insert(a[at].id, b[at].killer),
{
    assert forall|i: int, j: int| 0 <= i < b.len() && 0 <= j < b.len() && i != j implies (
    #[trigger] b[i]).id != (#[trigger] b[j]).id by {
        assert(a[i].id != a[j].id);
    }
    slot_map_domain(a, b);
    slot_map_at(a, at);
    assert(slot_map(b).dom() =~= slot_map(a).insert(a[at].id, b[at].killer).dom());
    assert forall|id: u64| #[trigger] slot_map(b).dom().contains(id) implies slot_map(b)[id]
        == slot_map(a).insert(a[at].id, b[at].killer)[id] by {
        slot_map_has(b, id);
        let i = choose|i: int| 0 <= i < b.len() && (#[trigger] b[i]).id == id;
        slot_map_at(b, i);
        assert(a[i].id == id);
        slot_map_at(a, i);
        if i != at {
            assert(a[i].id != a[at].id);
        }
    }
    assert(slot_map(b) =~= slot_map(a).insert(a[at].id, b[at].killer));
}

proof fn slot_map_removed<K>(slots: Seq<LaunchSlot<K>>, at: int)
    requires
        numbers_differ(slots),
        0 <= at < slots.len(),
    ensures
        numbers_differ(slots.remove(at)),
        slot_map(slots.remove(at)) == slot_map(slots).remove(slots[at].id),
{
    let rest = slots.remove(at);
    assert forall|i: int, j: int|
        0 <= i < rest.len() && 0 <= j < rest.len() && i != j implies (#[trigger] rest[i]).id != (
    #[trigger] rest[j]).id by {
        let a = if i < at {
            i
        } else {
            i + 1
        };
        let b = if j < at {
            j
        } else {
            j + 1
        };
        assert(rest[i] == slots[a] && rest[j] == slots[b]);
    }
    assert forall|id: u64|
        #![auto]
        slot_map(rest).dom().contains(id) <==> slot_map(slots).remove(slots[at].id).dom().contains(
            id,
        ) by {
        if slot_map(rest).dom().contains(id) {
            slot_map_has(rest, id);
            let i = choose|i: int| 0 <= i < rest.len() && (#[trigger] rest[i]).id == id;
            let a = if i < at {
                i
            } else {
                i + 1
            };
            assert(rest[i] == slots[a]);
            slot_map_at(slots, a);
            assert(slots[a].id != slots[at].id);
        }
        if slot_map(slots).dom().contains(id) && id != slots[at].id {
            slot_map_has(slots, id);
            let i = choose|i: int| 0 <= i < slots.len() && (#[trigger] slots[i]).id == id;
            let a = if i < at {
                i
            } else {
                i - 1
            };
            assert(rest[a] == slots[i]);
            slot_map_at(rest, a);
        }
    }
    assert forall|id: u64| #[trigger] slot_map(rest).dom().contains(id) implies slot_map(rest)[id]
        == slot_map(slots)[id] by {
        slot_map_has(rest, id);
        let i = choose|i: int| 0 <= i < rest.len() && (#[trigger] rest[i]).id == id;
        let a = if i < at {
            i
        } else {
            i + 1
        };
        assert(rest[i] == slots[a]);
        slot_map_at(slots, a);
        slot_map_at(rest, i);
    }
    assert(slot_map(rest) =~= slot_map(slots).remove(slots[at].id));
}

/// The text of a report on process trees that would not terminate.
pub open spec fn failure_report(what: Seq<char>, failures: Seq<Seq<char>>) -> Seq<char> {
    "failed to terminate "@ + decimal(failures.len()) + what + join_with(failures, "; "@)
}

/// Nothing where nothing failed, and else a report on what did.
fn report(what: &str, failures: &Vec<String>) -> (outcome: Result<(), String>)
    ensures
        match outcome {
            Ok(()) => failures@.len() == 0,
            Err(text) => failures@.len() > 0 && text@ == failure_report(what@, views(failures@)),
        },
{
    if failures.len() == 0 {
        return Ok(());
    }
    let mut text: String = "failed to terminate ".to_owned();
    text.append(decimal_text(failures.len() as u64).as_str());
    text.append(what);
    text.append(join_texts(failures.as_slice(), "; ").as_str());
    assert(views(failures@).len() == failures@.len());
    Err(text)
}

/// What closing the launch gate reports of the process trees that it signalled.
pub fn provisional_report(failures: &Vec<String>) -> (outcome: Result<(), String>)
    ensures
        match outcome {
            Ok(()) => failures@.len() == 0,
            Err(text) => failures@.len() > 0 && text@ == failure_report(
                " provisional launch process tree(s): "@,
                views(failures@),
            ),
        },
{
    report(" provisional launch process tree(s): ", failures)
}

/// What shutdown reports of the sessions that it terminated.
pub fn session_report(failures: &Vec<String>) -> (outcome: Result<(), String>)
    ensures
        match outcome {
            Ok(()) => failures@.len() == 0,
            Err(text) => failures@.len() > 0 && text@ == failure_report(
                " live session process tree(s): "@,
                views(failures@),
            ),
        },
{
    report(" live session process tree(s): ", failures)
}

/// What a launch is told whose process was spawned too late, given what signalling the
/// process came to.
pub open spec fn late_spawn_text(signalled: Result<(), String>) -> Seq<char> {
    match signalled {
        Ok(()) => SPAWN_REFUSED@,
        Err(error) => "daemon is shutting down; rejected spawned session cleanup failed: "@
            + error@,
    }
}

/// Whether the owner of a process tree was rightly not published: an owner that comes too
/// late is told once to end its tree, another is left alone.
pub open spec fn unpublished<K: RuntimeKiller>(
    killer: K,
    refusal: Refusal<K>,
    published: bool,
    in_time: bool,
) -> bool {
    if published {
        refusal.owner == killer && refusal.text@ == "live launch killer was published twice"@
    } else if in_time {
        refusal.owner == killer && refusal.text@
            == "live launch admission disappeared before spawn ownership"@
    } else {
        exists|signalled: Result<(), String>| #[trigger]
            signalled_once(killer, refusal.owner, signalled) && refusal.text@ == late_spawn_text(
                signalled,
            )
    }
}

/// What a launch is told whose process was spawned too late.
pub fn late_spawn_message(signalled: &Result<(), String>) -> (text: String)
    ensures
        text@ == late_spawn_text(*signalled),
{
    match signalled {
        Ok(()) => SPAWN_REFUSED.to_owned(),
        Err(error) => joined(
            "daemon is shutting down; rejected spawned session cleanup failed: ",
            error.as_str(),
        ),
    }
}

/// What a launch is told whose spawn failed, given what signalling the published owner of
/// its process tree came to, if there was one.
pub open spec fn failed_spawn_text(
    error: Seq<char>,
    signalled: Option<Result<(), String>>,
) -> Seq<char> {
    match signalled {
        Some(Err(cleanup)) => error + "; failed to terminate rejected spawned session: "@
            + cleanup@,
        _ => error,
    }
}

/// What a launch is told whose spawn failed.
pub fn failed_spawn_message(error: &str, signalled: &Option<Result<(), String>>) -> (text: String)
    ensures
        text@ == failed_spawn_text(error@, *signalled),
{
    match signalled {
        Some(Err(cleanup)) => joined(
            joined(error, "; failed to terminate rejected spawned session: ").as_str(),
            cleanup.as_str(),
        ),
        _ => error.to_owned(),
    }
}

/// Whether shutdown waits on for the launches under way.
#[derive(Debug, Clone, Copy, PartialEq, Eq, Structural)]
pub enum LaunchDrain {
    /// None is left, or no time.
    Done,
    /// Wait, for at most this many milliseconds, until one of them is done.
    Wait(u64),
}

/// Whether shutdown waits on for launches, while this much of its budget is left.
pub open spec fn drain_of<K>(launches: Map<u64, Option<K>>, remaining_millis: u64) -> LaunchDrain {
    if launches == Map::<u64, Option<K>>::empty() || remaining_millis == 0 {
        LaunchDrain::Done
    } else {
        LaunchDrain::Wait(remaining_millis)
    }
}

/// The number of the launch after another; numbers begin anew behind the last.
pub open spec fn number_after(number: u64) -> u64 {
    if number == u64::MAX {
        0
    } else {
        (number + 1) as u64
    }
}

impl<K: RuntimeKiller> LiveLaunchGate<K> {
    /// Whether shutdown has closed the launch gate.
    pub closed spec fn is_closed(&self) -> bool {
        self.closed
    }

    /// The number that the next launch is given.
    pub closed spec fn next(&self) -> u64 {
        self.next_id
    }

    /// The launches under way, each with the published owner of its process tree.
    pub closed spec fn launches(&self) -> Map<u64, Option<K>> {
        slot_map(self.in_flight@)
    }

    /// Whether each launch under way has a number of its own.
    pub closed spec fn well_formed(&self) -> bool {
        numbers_differ(self.in_flight@)
    }

    /// An open gate without launches.
    pub fn new() -> (gate: LiveLaunchGate<K>)
        ensures
            gate.well_formed(),
            !gate.is_closed(),
            gate.next() == 0,
            gate.launches() == Map::<u64, Option<K>>::empty(),
    {
        LiveLaunchGate { closed: false, next_id: 0, in_flight: Vec::new() }
    }

    fn position(&self, id: u64) -> (place: Option<usize>)
        ensures
            match place {
                Some(at) => at < self.in_flight@.len() && self.in_flight@[at as int].id == id,
                None => forall|i: int|
                    0 <= i < self.in_flight@.len() ==> (#[trigger] self.in_flight@[i]).id != id,
            },
    {
        let mut i: usize = 0;
        while i < self.in_flight.len()
            invariant
                i <= self.in_flight@.len(),
                forall|k: int| 0 <= k < i ==> (#[trigger] self.in_flight@[k]).id != id,
            decreases self.in_flight@.len() - i,
        {
            if self.in_flight[i].id == id {
                return Some(i);
            }
            i += 1;
        }
        None
    }

    /// Admits a launch, unless the launch gate is closed. The numbers of the launches go up by one
    /// each and start over behind the greatest.
    pub fn begin(&mut self) -> (admission: Result<LiveLaunchAdmission, String>)
        requires
            old(self).well_formed(),
        ensures
            final(self).well_formed(),
            final(self).is_closed() == old(self).is_closed(),
            match admission {
                Ok(a) => {
                    &&& !old(self).is_closed()
                    &&& a.number() == old(self).next()
                    &&& a.is_active()
                    &&& !a.is_published()
                    &&& final(self).next() == number_after(old(self).next())
                    &&& final(self).launches() == old(self).launches().insert(a.number(), None)
                },
                Err(text) => {
                    &&& old(self).is_closed()
                    &&& text@ == LAUNCH_REFUSED@
                    &&& final(self).next() == old(self).next()
                    &&& final(self).launches() == old(self).launches()
                },
            },
    {
        if self.closed {
            return Err(LAUNCH_REFUSED.to_owned());
        }
        let id = self.next_id;
        self.next_id = if id == u64::MAX {
            0
        } else {
            id + 1
        };
        let ghost before = self.in_flight@;
        match self.position(id) {
            Some(at) => {
                proof {
                    slot_map_removed(before, at as int);
                }
                self.in_flight.remove(at);
            },
            None => {
                proof {
                    slot_map_absent(before, id);
                    assert(slot_map(before).remove(id) =~= slot_map(before));
                }
            },
        }
        let ghost rest = self.in_flight@;
        self.in_flight.push(LaunchSlot { id, killer: None });
        proof {
            assert(self.in_flight@.drop_last() =~= rest);
            assert(slot_map(rest) == slot_map(before).remove(id));
            assert forall|i: int| 0 <= i < rest.len() implies (#[trigger] rest[i]).id != id by {
                slot_map_at(rest, i);
            }
            assert(slot_map(self.in_flight@) =~= slot_map(before).insert(id, None));
        }
        Ok(LiveLaunchAdmission { id, active: true, published: false })
    }

    /// Publishes the owner of the process tree that a launch spawned. Where the launch gate has
    /// closed meanwhile, the owner is signalled and the launch is refused.
    pub fn publish(&mut self, admission: &mut LiveLaunchAdmission, killer: K) -> (outcome: Result<
        (),
        Refusal<K>,
    >)
        requires
            old(self).well_formed(),
        ensures
            final(self).well_formed(),
            final(self).is_closed() == old(self).is_closed(),
            final(self).next() == old(self).next(),
            final(admission).number() == old(admission).number(),
            final(admission).is_active() == old(admission).is_active(),
            final(admission).is_published() == (old(admission).is_published() || outcome is Ok),
            outcome is Ok <==> !old(admission).is_published() && old(admission).is_active() && !old(
                self,
            ).is_closed() && old(self).launches().dom().contains(old(admission).number()),
            outcome is Ok ==> final(self).launches() == old(self).launches().insert(
                old(admission).number(),
                Some(killer),
            ),
            outcome matches Err(refusal) ==> {
                &&& final(self).launches() == old(self).launches()
                &&& unpublished(
                    killer,
                    refusal,
                    old(admission).is_published(),
                    old(admission).is_active() && !old(self).is_closed(),
                )
            },
    {
        if admission.published {
            return Err(
                Refusal {
                    text: "live launch killer was published twice".to_owned(),
                    owner: killer,
                },
            );
        }
        if !(admission.active && !self.closed) {
            let mut owner = killer;
            let signalled = owner.signal_shutdown();
            let refusal = Refusal { text: late_spawn_message(&signalled), owner };
            assert(signalled_once(killer, refusal.owner, signalled));
            return Err(refusal);
        }
        let ghost before = self.in_flight@;
        match self.position(admission.id) {
            None => {
                proof {
                    slot_map_absent(before, admission.id);
                }
                Err(
                    Refusal {
                        text: "live launch admission disappeared before spawn ownership".to_owned(),
                        owner: killer,
                    },
                )
            },
            Some(at) => {
                proof {
                    slot_map_at(before, at as int);
                    slot_map_removed(before, at as int);
                }
                self.in_flight.remove(at);
                let ghost rest = self.in_flight@;
                self.in_flight.push(LaunchSlot { id: admission.id, killer: Some(killer) });
                proof {
                    assert(self.in_flight@.drop_last() =~= rest);
                    assert forall|i: int| 0 <= i < rest.len() implies (#[trigger] rest[i]).id
                        != admission.id by {
                        slot_map_at(rest, i);
                    }
                    assert(slot_map(self.in_flight@) =~= slot_map(before).insert(
                        admission.id,
                        Some(killer),
                    ));
                }
                admission.published = true;
                Ok(())
            },
        }
    }

    /// What a launch is told whose spawn failed: the published owner of its process tree,
    /// where the launch gate holds one, is signalled.
    pub fn spawn_failed(&mut self, admission: &LiveLaunchAdmission, error: &str) -> (text: String)
        requires
            old(self).well_formed(),
        ensures
            final(self).well_formed(),
            final(self).is_closed() == old(self).is_closed(),
            final(self).next() == old(self).next(),
            ({
                let launches = old(self).launches();
                let number = admission.number();
                if admission.is_published() && launches.dom().contains(number)
                    && launches[number] is Some {
                    exists|after: K, signalled: Result<(), String>| #[trigger]
                        signalled_once(launches[number]->0, after, signalled)
                            && final(self).launches() == launches.insert(number, Some(after))
                            && text@ == failed_spawn_text(error@, Some(signalled))
                } else {
                    final(self).launches() == launches && text@ == error@
                }
            }),
    {
        let mut signalled: Option<Result<(), String>> = None;
        if admission.published {
            let ghost before = self.in_flight@;
            match self.position(admission.id) {
                None => {
                    proof {
                        slot_map_absent(before, admission.id);
                    }
                },
                Some(at) => {
                    proof {
                        slot_map_at(before, at as int);
                    }
                    if let Some(killer) = &mut self.in_flight[at].killer {
                        signalled = Some(killer.signal_shutdown());
                    }
                    proof {
                        slot_map_updated(before, self.in_flight@, at as int);
                        let launches = slot_map(before);
                        if launches[admission.id] is Some {
                            let after = self.in_flight@[at as int].killer->0;
                            assert(signalled_once(
                                launches[admission.id]->0,
                                after,
                                signalled->0,
                            ));
                        } else {
                            assert(launches.insert(admission.id, None) =~= launches);
                        }
                    }
                },
            }
        }
        failed_spawn_message(error, &signalled)
    }

    /// What a launch is told whose spawn returned: it must have published an owner.
    pub fn spawn_finished(&self, admission: &LiveLaunchAdmission) -> (outcome: Result<(), String>)
        ensures
            match outcome {
                Ok(()) => admission.is_published(),
                Err(text) => !admission.is_published() && text@
                    == "spawn returned without publishing exact ownership"@,
            },
    {
        if admission.published {
            Ok(())
        } else {
            Err("spawn returned without publishing exact ownership".to_owned())
        }
    }

    /// Releases a launch's place. Tells whether the launch gate is now without launches, so that
    /// those who wait for that are to be woken.
    pub fn finish(&mut self, admission: &mut LiveLaunchAdmission) -> (drained: bool)
        requires
            old(self).well_formed(),
        ensures
            final(self).well_formed(),
            final(self).is_closed() == old(self).is_closed(),
            final(self).next() == old(self).next(),
            !final(admission).is_active(),
            final(admission).number() == old(admission).number(),
            final(admission).is_published() == old(admission).is_published(),
            old(admission).is_active() ==> final(self).launches() == old(self).launches().remove(
                old(admission).number(),
            ),
            !old(admission).is_active() ==> final(self).launches() == old(self).launches(),
            drained == (old(admission).is_active() && final(self).launches() == Map::<
                u64,
                Option<K>,
            >::empty()),
    {
        if !admission.active {
            return false;
        }
        let ghost before = self.in_flight@;
        match self.position(admission.id) {
            Some(at) => {
                proof {
                    slot_map_removed(before, at as int);
                }
                self.in_flight.remove(at);
            },
            None => {
                proof {
                    slot_map_absent(before, admission.id);
                    assert(slot_map(before).remove(admission.id) =~= slot_map(before));
                }
            },
        }
        admission.active = false;
        self.is_drained()
    }

    /// Whether a closed launch gate waits on for the launches under way, while this much of
    /// the budget is left.
    pub fn close_and_wait(&self, remaining_millis: u64) -> (drain: LaunchDrain)
        requires
            self.well_formed(),
        ensures
            drain == drain_of(self.launches(), remaining_millis),
    {
        if self.is_drained() || remaining_millis == 0 {
            LaunchDrain::Done
        } else {
            LaunchDrain::Wait(remaining_millis)
        }
    }

    /// Whether no launch is under way.
    pub fn is_drained(&self) -> (drained: bool)
        requires
            self.well_formed(),
        ensures
            drained == (self.launches() == Map::<u64, Option<K>>::empty()),
    {
        proof {
            if self.in_flight@.len() > 0 {
                slot_map_at(self.in_flight@, 0);
            }
        }
        self.in_flight.len() == 0
    }

    /// Closes the launch gate and signals the owner of each process tree that has been
    /// published. Gives the failures.
    pub fn close(&mut self) -> (failures: Vec<String>)
        requires
            old(self).well_formed(),
        ensures
            final(self).well_formed(),
            final(self).is_closed(),
            final(self).next() == old(self).next(),
            exists|order: Seq<u64>, outcomes: Seq<Result<(), String>>| #[trigger]
                all_signalled(old(self).launches(), final(self).launches(), order, outcomes)
                    && views(failures@) == failed(outcomes),
    {
        self.closed = true;
        let mut failures: Vec<String> = Vec::new();
        let ghost before = self.in_flight@;
        let ghost mut places: Seq<int> = seq![];
        let ghost mut outcomes: Seq<Result<(), String>> = seq![];
        let mut i: usize = 0;
        assert(views(failures@) =~= failed(outcomes));
        while i < self.in_flight.len()
            invariant
                i <= self.in_flight@.len(),
                self.closed,
                self.next_id == old(self).next_id,
                numbers_differ(before),
                before == old(self).in_flight@,
                self.in_flight@.len() == before.len(),
                forall|k: int|
                    0 <= k < before.len() ==> (#[trigger] self.in_flight@[k]).id == before[k].id,
                forall|k: int|
                    i <= k < before.len() ==> #[trigger] self.in_flight@[k] == before[k],
                forall|k: int|
                    0 <= k < before.len() && before[k].killer is None ==> (
                    #[trigger] self.in_flight@[k]).killer is None,
                places.len() == outcomes.len(),
                forall|j: int|
                    0 <= j < places.len() ==> 0 <= #[trigger] places[j] < i
                        && before[places[j]].killer is Some
                        && self.in_flight@[places[j]].killer is Some && signalled_once(
                        before[places[j]].killer->0,
                        self.in_flight@[places[j]].killer->0,
                        outcomes[j],
                    ),
                forall|a: int, b: int|
                    0 <= a < b < places.len() ==> #[trigger] places[a] < #[trigger] places[b],
                forall|k: int|
                    0 <= k < i && (#[trigger] before[k]).killer is Some ==> places.contains(k),
                views(failures@) == failed(outcomes),
            decreases self.in_flight@.len() - i,
        {
            let ghost earlier = self.in_flight@;
            let ghost earlier_places = places;
            if let Some(killer) = &mut self.in_flight[i].killer {
                let outcome = killer.signal_shutdown();
                proof {
                    failed_and_one_more(outcomes, outcome);
                    places = places.push(i as int);
                    outcomes = outcomes.push(outcome);
                }
                if let Err(error) = outcome {
                    let ghost texts = views(failures@);
                    failures.push(error);
                    assert(views(failures@) =~= texts.push(error@));
                }
            }
            proof {
                assert forall|k: int| 0 <= k <= i && (#[trigger] before[k]).killer is Some implies
                    places.contains(k) by {
                    if k < i {
                        assert(earlier_places.contains(k));
                        let j = choose|j: int|
                            0 <= j < earlier_places.len() && earlier_places[j] == k;
                        assert(places[j] == k);
                    } else {
                        assert(places[places.len() - 1] == k);
                    }
                }
            }
            i += 1;
        }
        proof {
            let after = self.in_flight@;
            slot_map_domain(before, after);
            let order = Seq::new(places.len(), |j: int| before[places[j]].id);
            assert forall|a: int, b: int| 0 <= a < b < order.len() implies order[a]
                != order[b] by {
                assert(places[a] < places[b]);
                assert(before[places[a]].id != before[places[b]].id);
            }
            assert forall|id: u64| #[trigger] order.contains(id) <==> slot_map(
                before,
            ).dom().contains(id) && slot_map(before)[id] is Some by {
                if order.contains(id) {
                    let j = choose|j: int| 0 <= j < order.len() && order[j] == id;
                    slot_map_at(before, places[j]);
                }
                if slot_map(before).dom().contains(id) && slot_map(before)[id] is Some {
                    slot_map_has(before, id);
                    let k = choose|k: int|
                        0 <= k < before.len() && (#[trigger] before[k]).id == id;
                    slot_map_at(before, k);
                    assert(places.contains(k));
                    let j = choose|j: int| 0 <= j < places.len() && places[j] == k;
                    assert(order[j] == id);
                }
            }
            assert forall|i: int, j: int|
                0 <= i < after.len() && 0 <= j < after.len() && i != j implies (
            #[trigger] after[i]).id != (#[trigger] after[j]).id by {
                assert(before[i].id != before[j].id);
            }
            assert forall|i: int| 0 <= i < order.len() implies slot_map(
                after,
            )[#[trigger] order[i]] is Some && signalled_once(
                slot_map(before)[order[i]]->0,
                slot_map(after)[order[i]]->0,
                outcomes[i],
            ) by {
                let k = places[i];
                slot_map_at(before, k);
                slot_map_at(after, k);
                assert(after[k].id == before[k].id);
            }
            assert forall|id: u64|
                slot_map(before).dom().contains(id) && slot_map(before)[id] is None implies (
            #[trigger] slot_map(after)[id]) is None by {
                slot_map_has(before, id);
                let k = choose|k: int| 0 <= k < before.len() && (#[trigger] before[k]).id == id;
                slot_map_at(before, k);
                slot_map_at(after, k);
                assert(after[k].id == before[k].id);
            }
            assert(all_signalled(old(self).launches(), self.launches(), order, outcomes));
        }
        failures
    }
}

/// An owner that was asked once has one entry more in its account, of that kind and with that
/// answer, behind all that it was asked before.
pub proof fn asking_once_adds_one_entry<K: RuntimeKiller>(
    before: K,
    after: K,
    timeout_millis: u64,
    outcome: Result<(), String>,
)
    ensures
        killed_once(before, after, outcome) ==> after.asked().len() == before.asked().len() + 1
            && after.asked().last() == Asked::Kill(outcome) && before.asked().is_prefix_of(
            after.asked(),
        ),
        signalled_once(before, after, outcome) ==> after.asked().len() == before.asked().len() + 1
            && after.asked().last() == Asked::Signal(outcome) && before.asked().is_prefix_of(
            after.asked(),
        ),
        waited_once(before, after, timeout_millis, outcome) ==> after.asked().len()
            == before.asked().len() + 1 && after.asked().last() == Asked::Wait(
            timeout_millis,
            outcome,
        ) && before.asked().is_prefix_of(after.asked()),
{
    let n = before.asked().len() as int;
    if killed_once(before, after, outcome) || signalled_once(before, after, outcome) || waited_once(
        before,
        after,
        timeout_millis,
        outcome,
    ) {
        assert(before.asked() =~= after.asked().subrange(0, n));
    }
}

/// The failures among outcomes are the texts of those that failed, each once and in order.
pub proof fn failures_keep_their_order(
    a: Seq<Result<(), String>>,
    outcome: Result<(), String>,
    b: Seq<Result<(), String>>,
)
    ensures
        failed(Seq::empty()).len() == 0,
        outcome is Ok ==> failed(a.push(outcome) + b) == failed(a) + failed(b),
        outcome matches Err(text) ==> failed(a.push(outcome) + b) == failed(a).push(text@)
            + failed(b),
    decreases b.len(),
{
    let all = a.push(outcome) + b;
    failed_and_one_more(a, outcome);
    if b.len() == 0 {
        assert(all =~= a.push(outcome));
        assert(failed(a.push(outcome)) + failed(b) =~= failed(a.push(outcome)));
    } else {
        assert(all.drop_last() =~= a.push(outcome) + b.drop_last());
        assert(all.last() == b.last());
        failures_keep_their_order(a, outcome, b.drop_last());
        let front = failed(a.push(outcome));
        assert(failed(all.drop_last()) =~= front + failed(b.drop_last()));
        assert(failed(all) =~= front + failed(b));
    }
}

/// Closing the launch gate asks every owner that was published for its end once, whatever the
/// others answer, and invents none; the launches under way stay what they are.
pub proof fn every_published_owner_is_signalled<K: RuntimeKiller>(
    before: Map<u64, Option<K>>,
    after: Map<u64, Option<K>>,
    order: Seq<u64>,
    outcomes: Seq<Result<(), String>>,
    id: u64,
)
    requires
        all_signalled(before, after, order, outcomes),
        before.dom().contains(id),
    ensures
        after.dom() == before.dom(),
        before[id] is None ==> after[id] is None,
        before[id] is Some ==> after[id] is Some && exists|i: int|
            0 <= i < outcomes.len() && (after[id]->0).asked() == (before[id]->0).asked().push(
                Asked::Signal(#[trigger] outcomes[i]),
            ),
        outcomes.len() == order.len(),
        order.no_duplicates(),
        forall|i: int|
            0 <= i < order.len() ==> before.dom().contains(#[trigger] order[i]) && before[order[i]]
                is Some,
{
    assert forall|i: int| 0 <= i < order.len() implies before.dom().contains(#[trigger] order[i])
        && before[order[i]] is Some by {
        assert(order.contains(order[i]));
    }
    if before[id] is Some {
        assert(order.contains(id));
        let i = choose|i: int| 0 <= i < order.len() && order[i] == id;
        assert(signalled_once(before[order[i]]->0, after[order[i]]->0, outcomes[i]));
        assert((after[id]->0).asked() == (before[id]->0).asked().push(Asked::Signal(outcomes[i])));
    }
}

/// Each launch under way is found by its own number, with the owner that it published.
pub proof fn launches_are_found_by_number<K>(slots: Seq<LaunchSlot<K>>, i: int, id: u64)
    requires
        numbers_differ(slots),
    ensures
        0 <= i < slots.len() ==> slot_map(slots).dom().contains(slots[i].id) && slot_map(
            slots,
        )[slots[i].id] == slots[i].killer,
        slot_map(slots).dom().contains(id) ==> exists|k: int|
            0 <= k < slots.len() && (#[trigger] slots[k]).id == id,
        forall|k: int, l: int|
            0 <= k < l < slots.len() ==> (#[trigger] slots[k]).id != (#[trigger] slots[l]).id,
{
    if 0 <= i < slots.len() {
        slot_map_at(slots, i);
    }
    if slot_map(slots).dom().contains(id) {
        slot_map_has(slots, id);
    }
}

/// A report says how many process trees would not end, which they were, and what each said.
pub proof fn reports_count_failures(what: Seq<char>, failures: Seq<Seq<char>>)
    ensures
        failure_report(what, failures) == "failed to terminate "@ + decimal(failures.len()) + what
            + join_with(failures, "; "@),
        ADMISSION_DRAIN_MILLIS == 500,
        LAUNCH_REFUSED@ == "daemon is shutting down; refusing to launch a new live session"@,
        SPAWN_REFUSED@ == "daemon is shutting down; refusing to spawn a new live session"@,
{
}

/// A launch whose process comes too late is told so, and what went wrong in ending it; one
/// whose spawn failed is told of that, and of the ending only where that failed too.
pub proof fn late_launches_are_told(error: Seq<char>, signalled: Result<(), String>)
    ensures
        signalled is Ok ==> late_spawn_text(signalled)
            == "daemon is shutting down; refusing to spawn a new live session"@,
        signalled matches Err(text) ==> late_spawn_text(signalled)
            == "daemon is shutting down; rejected spawned session cleanup failed: "@ + text@,
        failed_spawn_text(error, None) == error,
        signalled is Ok ==> failed_spawn_text(error, Some(signalled)) == error,
        signalled matches Err(text) ==> failed_spawn_text(error, Some(signalled)) == error
            + "; failed to terminate rejected spawned session: "@ + text@,
{
}

/// An owner that is not taken over comes back: untouched where it was published before or its
/// launch is gone, and signalled once where shutdown came first.
pub proof fn refused_owners_come_back<K: RuntimeKiller>(
    killer: K,
    refusal: Refusal<K>,
    published: bool,
    in_time: bool,
)
    requires
        unpublished(killer, refusal, published, in_time),
    ensures
        published ==> refusal.owner == killer && refusal.text@
            == "live launch killer was published twice"@,
        !published && in_time ==> refusal.owner == killer && refusal.text@
            == "live launch admission disappeared before spawn ownership"@,
        !published && !in_time ==> {
            let asked = refusal.owner.asked();
            &&& asked.len() == killer.asked().len() + 1
            &&& asked.drop_last() == killer.asked()
            &&& asked.last() is Signal
            &&& refusal.text@ == late_spawn_text(asked.last()->Signal_0)
        },
{
    if !published && !in_time {
        let outcome = choose|signalled: Result<(), String>| #[trigger]
            signalled_once(killer, refusal.owner, signalled) && refusal.text@ == late_spawn_text(
                signalled,
            );
        assert(refusal.owner.asked() == killer.asked().push(Asked::Signal(outcome)));
        assert(refusal.owner.asked().drop_last() =~= killer.asked());
    }
}

/// Shutdown waits on for launches if and only if there are any and there is time left, and
/// then for all of it.
pub proof fn shutdown_waits_for_launches<K>(launches: Map<u64, Option<K>>, remaining_millis: u64)
    ensures
        launches.dom() =~= Set::empty() || remaining_millis == 0 ==> drain_of(
            launches,
            remaining_millis,
        ) == LaunchDrain::Done,
        !(launches.dom() =~= Set::empty()) && remaining_millis > 0 ==> drain_of(
            launches,
            remaining_millis,
        ) == LaunchDrain::Wait(remaining_millis),
{
    if launches.dom() =~= Set::empty() {
        assert(launches =~= Map::<u64, Option<K>>::empty());
    }
}

/// Launches are numbered one after another, and begin anew behind the last number.
pub proof fn numbers_follow_each_other(number: u64)
    ensures
        number < 0xffff_ffff_ffff_ffff ==> number_after(number) == number + 1,
        number == 0xffff_ffff_ffff_ffff ==> number_after(number) == 0,
{
}

/// A launch is let in if and only if the launch gate is open, under the next number and
/// without an owner yet; no other launch is touched.
pub proof fn open_gates_let_launches_in<K: RuntimeKiller>(
    gate: &mut LiveLaunchGate<K>,
    admission: Result<LiveLaunchAdmission, String>,
)
    requires
        call_ensures(LiveLaunchGate::<K>::begin, (gate,), admission),
    ensures
        admission is Ok <==> !old(gate).is_closed(),
        admission matches Ok(place) ==> {
            &&& place.number() == old(gate).next()
            &&& place.is_active() && !place.is_published()
            &&& final(gate).launches().dom().contains(place.number())
            &&& final(gate).launches()[place.number()] is None
            &&& final(gate).launches().remove(place.number()) =~= old(gate).launches().remove(
                place.number(),
            )
            &&& final(gate).next() == number_after(old(gate).next())
        },
        admission matches Err(text) ==> text@
            == "daemon is shutting down; refusing to launch a new live session"@
            && final(gate).launches() == old(gate).launches(),
        final(gate).is_closed() == old(gate).is_closed(),
{
}

/// The owner of a launch's process tree is taken over if and only if the launch has its place,
/// has published none and the launch gate is open.
pub proof fn owners_are_published_once<K: RuntimeKiller>(
    gate: &mut LiveLaunchGate<K>,
    admission: &mut LiveLaunchAdmission,
    killer: K,
    outcome: Result<(), Refusal<K>>,
)
    requires
        call_ensures(LiveLaunchGate::<K>::publish, (gate, admission, killer), outcome),
    ensures
        outcome is Ok <==> !old(admission).is_published() && old(admission).is_active() && !old(
            gate,
        ).is_closed() && old(gate).launches().dom().contains(old(admission).number()),
        outcome is Ok ==> final(admission).is_published() && final(gate).launches()[old(admission).number()] == Some(killer),
        outcome is Err ==> final(gate).launches() == old(gate).launches()
            && final(admission).is_published() == old(admission).is_published(),
        final(admission).number() == old(admission).number(),
{
}

/// A launch that gives its place up is gone from the launch gate, and no other is; whoever
/// waits is woken when the last one leaves.
pub proof fn launches_give_their_place_up<K: RuntimeKiller>(
    gate: &mut LiveLaunchGate<K>,
    admission: &mut LiveLaunchAdmission,
    drained: bool,
    other: u64,
)
    requires
        call_ensures(LiveLaunchGate::<K>::finish, (gate, admission), drained),
    ensures
        !final(admission).is_active(),
        old(admission).is_active() ==> !final(gate).launches().dom().contains(
            old(admission).number(),
        ),
        other != old(admission).number() ==> (final(gate).launches().dom().contains(other)
            <==> old(gate).launches().dom().contains(other)),
        !old(admission).is_active() ==> final(gate).launches() == old(gate).launches() && !drained,
        drained ==> !final(gate).launches().dom().contains(other),
        final(gate).is_closed() == old(gate).is_closed(),
{
}

/// Closing the launch gate keeps it closed, and tells of each owner that would not be
/// signalled.
pub proof fn closed_gates_signal_their_launches<K: RuntimeKiller>(
    gate: &mut LiveLaunchGate<K>,
    failures: Vec<String>,
    id: u64,
)
    requires
        call_ensures(LiveLaunchGate::<K>::close, (gate,), failures),
    ensures
        final(gate).is_closed(),
        final(gate).launches().dom() == old(gate).launches().dom(),
        old(gate).launches().dom().contains(id) && old(gate).launches()[id] is Some ==> {
            let was = (old(gate).launches()[id]->0).asked();
            let is = (final(gate).launches()[id]->0).asked();
            &&& final(gate).launches()[id] is Some
            &&& is.len() == was.len() + 1
            &&& is.drop_last() == was
            &&& is.last() is Signal
        },
{
    let (order, outcomes) = choose|order: Seq<u64>, outcomes: Seq<Result<(), String>>| #[trigger]
        all_signalled(old(gate).launches(), final(gate).launches(), order, outcomes) && views(
            failures@,
        ) == failed(outcomes);
    if old(gate).launches().dom().contains(id) && old(gate).launches()[id] is Some {
        every_published_owner_is_signalled(
            old(gate).launches(),
            final(gate).launches(),
            order,
            outcomes,
            id,
        );
        let was = (old(gate).launches()[id]->0).asked();
        let is = (final(gate).launches()[id]->0).asked();
        assert(is.drop_last() =~= was);
    }
}

/// A spawn that returned must have published its owner.
pub proof fn spawns_publish_their_owner<K: RuntimeKiller>(
    gate: &LiveLaunchGate<K>,
    admission: &LiveLaunchAdmission,
    outcome: Result<(), String>,
)
    requires
        call_ensures(LiveLaunchGate::<K>::spawn_finished, (gate, admission), outcome),
    ensures
        outcome is Ok <==> admission.is_published(),
        outcome matches Err(text) ==> text@ == "spawn returned without publishing exact ownership"@,
{
}

/// Reports of failures name what would not end: launches under way, or live sessions; without
/// a failure there is none.
pub proof fn reports_name_what_failed(
    failures: &Vec<String>,
    launches: Result<(), String>,
    sessions: Result<(), String>,
)
    requires
        call_ensures(provisional_report, (failures,), launches),
        call_ensures(session_report, (failures,), sessions),
    ensures
        launches is Ok <==> failures@.len() == 0,
        sessions is Ok <==> failures@.len() == 0,
        launches matches Err(text) ==> text@ == failure_report(
            " provisional launch process tree(s): "@,
            views(failures@),
        ),
        sessions matches Err(text) ==> text@ == failure_report(
            " live session process tree(s): "@,
            views(failures@),
        ),
{
}

} // verus!
