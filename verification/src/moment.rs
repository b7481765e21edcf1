//! Points in time, and how long ago they were.

use crate::numbers::{decimal, decimal_text};
use crate::text::joined;
use vstd::prelude::*;
use vstd::string::*;

verus! {

/// A point in time: whole seconds since the epoch and the nanoseconds after them.
#[derive(Debug, Clone, Copy, PartialEq, Eq, Structural)]
pub struct Moment {
    pub seconds: i64,
    pub nanos: u32,
}

impl Moment {
    /// Whether the nanoseconds stay below a second.
    pub open spec fn valid(self) -> bool {
        self.nanos < 1_000_000_000
    }

    /// The nanoseconds since the epoch.
    pub open spec fn instant(self) -> int {
        self.seconds * 1_000_000_000 + self.nanos
    }

    /// Whether this point in time comes after another.
    pub fn after(&self, other: &Moment) -> (later: bool)
        requires
            self.valid(),
            other.valid(),
        ensures
            later == (self.instant() > other.instant()),
    {
        self.seconds > other.seconds || (self.seconds == other.seconds && self.nanos
            > other.nanos)
    }
}

/// The latest of some points in time.
pub fn latest_mtime(times: &Vec<Moment>) -> (latest: Option<Moment>)
    requires
        forall|i: int| 0 <= i < times@.len() ==> (#[trigger] times@[i]).valid(),
    ensures
        match latest {
            Some(moment) => times@.contains(moment) && forall|i: int|
                0 <= i < times@.len() ==> (#[trigger] times@[i]).instant() <= moment.instant(),
            None => times@.len() == 0,
        },
{
    if times.len() == 0 {
        return None;
    }
    let mut best: Moment = times[0];
    let mut i: usize = 1;
    while i < times.len()
        invariant
            1 <= i <= times@.len(),
            forall|k: int| 0 <= k < times@.len() ==> (#[trigger] times@[k]).valid(),
            times@.contains(best),
            forall|k: int| 0 <= k < i ==> (#[trigger] times@[k]).instant() <= best.instant(),
        decreases times@.len() - i,
    {
        assert(times@.contains(times@[i as int]));
        if times[i].after(&best) {
            best = times[i];
        }
        i += 1;
    }
    Some(best)
}

/// The whole seconds from one point in time to another, where it is not the earlier one.
pub open spec fn seconds_between(then: Moment, now: Moment) -> Option<u64> {
    if then.instant() > now.instant() {
        None
    } else {
        Some(((now.instant() - then.instant()) / 1_000_000_000) as u64)
    }
}

/// The whole seconds from one point in time to another, where it is not the earlier one.
pub fn elapsed_since(then: Moment, now: Moment) -> (elapsed: Option<u64>)
    requires
        then.valid(),
        now.valid(),
    ensures
        elapsed == seconds_between(then, now),
        elapsed matches Some(seconds) ==> seconds == (now.instant() - then.instant())
            / 1_000_000_000,
{
    if then.after(&now) {
        return None;
    }
    let mut seconds: i128 = now.seconds as i128 - then.seconds as i128;
    if now.nanos < then.nanos {
        seconds = seconds - 1;
        assert((now.instant() - then.instant()) / 1_000_000_000 == seconds) by (nonlinear_arith)
            requires
                now.instant() - then.instant() == (seconds + 1) * 1_000_000_000 + now.nanos
                    - then.nanos,
                now.nanos < then.nanos,
                then.nanos < 1_000_000_000,
        ;
    } else {
        assert((now.instant() - then.instant()) / 1_000_000_000 == seconds) by (nonlinear_arith)
            requires
                now.instant() - then.instant() == seconds * 1_000_000_000 + now.nanos
                    - then.nanos,
                now.nanos >= then.nanos,
                now.nanos < 1_000_000_000,
        ;
    }
    Some(seconds as u64)
}

/// How long ago something was, in words; `None` for a time to come.
pub open spec fn ago(elapsed: Option<u64>) -> Seq<char> {
    match elapsed {
        None => "future"@,
        Some(seconds) => {
            let minutes = seconds as nat / 60;
            let hours = minutes / 60;
            let days = hours / 24;
            if seconds < 60 {
                "now"@
            } else if minutes < 60 {
                decimal(minutes) + "m ago"@
            } else if hours < 24 {
                decimal(hours) + "h ago"@
            } else if days < 30 {
                decimal(days) + "d ago"@
            } else {
                decimal(days / 30) + "mo ago"@
            }
        },
    }
}

/// How long ago a point in time was, in words.
pub fn relative_time(then: Moment, now: Moment) -> (text: String)
    requires
        then.valid(),
        now.valid(),
    ensures
        text@ == ago(seconds_between(then, now)),
{
    match elapsed_since(then, now) {
        None => "future".to_owned(),
        Some(seconds) => {
            if seconds < 60 {
                return "now".to_owned();
            }
            let minutes: u64 = seconds / 60;
            if minutes < 60 {
                return joined(decimal_text(minutes).as_str(), "m ago");
            }
            let hours: u64 = minutes / 60;
            if hours < 24 {
                return joined(decimal_text(hours).as_str(), "h ago");
            }
            let days: u64 = hours / 24;
            if days < 30 {
                return joined(decimal_text(days).as_str(), "d ago");
            }
            joined(decimal_text(days / 30).as_str(), "mo ago")
        },
    }
}

/// How fresh a familiar's memories are: how long ago the latest of them was changed, in
/// words, or a dash where there are none.
pub fn memory_freshness(times: &Vec<Moment>, now: Moment) -> (text: String)
    requires
        now.valid(),
        forall|i: int| 0 <= i < times@.len() ==> (#[trigger] times@[i]).valid(),
    ensures
        times@.len() == 0 ==> text@ == "\u{2014}"@,
        times@.len() > 0 ==> exists|moment: Moment| #[trigger]
            times@.contains(moment) && (forall|i: int|
                0 <= i < times@.len() ==> (#[trigger] times@[i]).instant() <= moment.instant())
                && text@ == ago(seconds_between(moment, now)),
{
    match latest_mtime(times) {
        Some(moment) => relative_time(moment, now),
        None => "\u{2014}".to_owned(),
    }
}

/// An age is told in the largest unit of which a whole one has passed, and in how many of
/// them: minutes below an hour, hours below a day, days below thirty, and then spans of
/// thirty days. Below a minute it is now, and a time to come is the future.
pub proof fn ages_are_told_in_whole_units(then: Moment, now: Moment, n: nat)
    requires
        then.valid(),
        now.valid(),
    ensures
        ({
            let text = ago(seconds_between(then, now));
            let age = (now.seconds - then.seconds) * 1_000_000_000 + now.nanos - then.nanos;
            let second: int = 1_000_000_000;
            &&& age < 0 ==> text == "future"@
            &&& 0 <= age < 60 * second ==> text == "now"@
            &&& 1 <= n < 60 && n * 60 * second <= age < (n + 1) * 60 * second ==> text
                == decimal(n) + "m ago"@
            &&& 1 <= n < 24 && n * 3_600 * second <= age < (n + 1) * 3_600 * second ==> text
                == decimal(n) + "h ago"@
            &&& 1 <= n < 30 && n * 86_400 * second <= age < (n + 1) * 86_400 * second ==> text
                == decimal(n) + "d ago"@
            &&& 1 <= n && n * 2_592_000 * second <= age < (n + 1) * 2_592_000 * second ==> text
                == decimal(n) + "mo ago"@
        }),
{
    let age = (now.seconds - then.seconds) * 1_000_000_000 + now.nanos - then.nanos;
    assert(now.instant() - then.instant() == age);
    if age >= 0 {
        let seconds = age / 1_000_000_000;
        assert(seconds_between(then, now) == Some(seconds as u64));
        assert(0 <= seconds <= u64::MAX);
        assert(seconds as u64 == seconds);
        assert((seconds / 60) / 60 == seconds / 3_600);
        assert(((seconds / 60) / 60) / 24 == seconds / 86_400);
        assert((((seconds / 60) / 60) / 24) / 30 == seconds / 2_592_000);
    }
}


/// The age of a point in time is told from the time that passed since, whatever its
/// nanoseconds.
pub proof fn relative_times_count_days(then: Moment, now: Moment, text: String, n: nat)
    requires
        then.valid(),
        now.valid(),
        call_ensures(relative_time, (then, now), text),
    ensures
        ({
            let age = (now.seconds - then.seconds) * 1_000_000_000 + now.nanos - then.nanos;
            let day: int = 86_400_000_000_000;
            &&& age < 0 ==> text@ == "future"@
            &&& 0 <= age < 60_000_000_000 ==> text@ == "now"@
            &&& 1 <= n < 30 && n * day <= age < (n + 1) * day ==> text@ == decimal(n) + "d ago"@
        }),
{
    ages_are_told_in_whole_units(then, now, n);
}

/// How fresh a familiar's memories are is told by the latest of them: no memory is fresher
/// than what is told.
pub proof fn the_latest_memory_is_told(
    times: &Vec<Moment>,
    now: Moment,
    text: String,
    latest: Option<Moment>,
    i: int,
)
    requires
        forall|k: int| 0 <= k < times@.len() ==> (#[trigger] times@[k]).valid(),
        call_ensures(memory_freshness, (times, now), text),
        call_ensures(latest_mtime, (times,), latest),
    ensures
        times@.len() == 0 ==> text@ == "\u{2014}"@ && latest is None,
        0 <= i < times@.len() ==> (latest matches Some(moment) && times@.contains(moment)
            && times@[i].seconds * 1_000_000_000 + times@[i].nanos <= moment.seconds
            * 1_000_000_000 + moment.nanos && text@ == ago(seconds_between(moment, now))),
{
    if times@.len() > 0 {
        let moment = latest->0;
        let shown = choose|shown: Moment| #[trigger]
            times@.contains(shown) && (forall|k: int|
                0 <= k < times@.len() ==> (#[trigger] times@[k]).instant() <= shown.instant())
                && text@ == ago(seconds_between(shown, now));
        let a = choose|a: int| 0 <= a < times@.len() && times@[a] == moment;
        let b = choose|b: int| 0 <= b < times@.len() && times@[b] == shown;
        assert(times@[a].instant() <= shown.instant());
        assert(times@[b].instant() <= moment.instant());
        assert(shown.instant() == moment.instant());
        if 0 <= i < times@.len() {
            assert(times@[i].instant() <= moment.instant());
        }
    }
}

} // verus!
