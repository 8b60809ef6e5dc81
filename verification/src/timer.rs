use vstd::prelude::*;
use vstd::string::StringExecFns;
use crate::clock::now_secs;

verus! {

// ---------------------------------------------------------------------------
// Clock arithmetic shared by timers and sub-timers
// ---------------------------------------------------------------------------

/// Seconds from `since` to `now`, or 0 when the clock reads earlier than
/// `since` (the saturating difference).
pub open spec fn seconds_since(now: u64, since: u64) -> nat {
    if now >= since { (now - since) as nat } else { 0 }
}

/// What a clock with `total` banked seconds reads at `now`: the banked
/// seconds, plus the current run when it is running.
pub open spec fn reading_at(total: u64, running_since: Option<u64>, now: u64) -> int {
    match running_since {
        Some(since) => total + seconds_since(now, since),
        None => total as int,
    }
}

/// A reading that fits in a `u64`, or `u64::MAX` for one that does not.
pub open spec fn clamp_u64(x: int) -> u64 {
    if x > u64::MAX { u64::MAX } else { x as u64 }
}

/// The reading at `now` as a `u64`, or `None` when it does not fit.
fn checked_reading(total: u64, running_since: Option<u64>, now: u64) -> (r: Option<u64>)
    ensures
        reading_at(total, running_since, now) <= u64::MAX ==> r == Some(reading_at(total, running_since, now) as u64),
        reading_at(total, running_since, now) > u64::MAX ==> r is None,
{
    match running_since {
        Some(since) => total.checked_add(now.saturating_sub(since)),
        None => Some(total),
    }
}

// ---------------------------------------------------------------------------
// Sub-timers
// ---------------------------------------------------------------------------

/// What a sub-timer is: its name, the seconds banked by finished runs, and
/// the start of the current run, if it is running.
pub struct SubTimerModel {
    pub name: Seq<char>,
    pub total_seconds: u64,
    pub running_since: Option<u64>,
}

impl SubTimerModel {
    /// The time shown for the sub-timer at `now`.
    pub open spec fn elapsed_at(self, now: u64) -> int {
        reading_at(self.total_seconds, self.running_since, now)
    }

    /// The reading at `now` fits in a `u64` (always so for a stopped one).
    pub open spec fn fits_at(self, now: u64) -> bool {
        self.elapsed_at(now) <= u64::MAX
    }

    /// Starting a stopped sub-timer at `now`, or stopping a running one at
    /// `now` and banking the run.
    pub open spec fn toggled_at(self, now: u64) -> SubTimerModel {
        match self.running_since {
            Some(since) => SubTimerModel {
                name: self.name,
                total_seconds: self.elapsed_at(now) as u64,
                running_since: None,
            },
            None => SubTimerModel {
                name: self.name,
                total_seconds: self.total_seconds,
                running_since: Some(now),
            },
        }
    }
}

impl SubTimerModel {
    /// Toggling by a clock that reads `now`: a run that would bank past
    /// `u64::MAX` leaves the sub-timer as it was.
    pub open spec fn toggled_by_clock(self, now: u64) -> SubTimerModel {
        if self.fits_at(now) { self.toggled_at(now) } else { self }
    }
}

/// A child timer; sub-timers have no children of their own.
pub struct SubTimer {
    pub name: String,
    pub total_seconds: u64,
    pub running_since: Option<u64>,
}

impl View for SubTimer {
    type V = SubTimerModel;

    open spec fn view(&self) -> SubTimerModel {
        SubTimerModel {
            name: self.name@,
            total_seconds: self.total_seconds,
            running_since: self.running_since,
        }
    }
}

impl SubTimer {
    /// A stopped sub-timer with nothing banked.
    pub fn new(name: String) -> (t: SubTimer)
        ensures
            t@ == (SubTimerModel { name: name@, total_seconds: 0, running_since: None }),
    {
        SubTimer { name, total_seconds: 0, running_since: None }
    }

    /// The time shown at `now`.
    pub fn elapsed_at(&self, now: u64) -> (r: u64)
        requires
            self@.fits_at(now),
        ensures
            r == self@.elapsed_at(now),
    {
        checked_reading(self.total_seconds, self.running_since, now).unwrap()
    }

    /// The time shown now, by the system clock; a reading beyond `u64::MAX`
    /// shows as `u64::MAX`.
    pub fn elapsed(&self) -> (r: u64)
        ensures
            exists|now: u64| r == clamp_u64(#[trigger] self@.elapsed_at(now)),
            self.running_since is None ==> r == self.total_seconds,
            r >= self.total_seconds,
    {
        let now = now_secs();
        let r = match checked_reading(self.total_seconds, self.running_since, now) {
            Some(r) => r,
            None => u64::MAX,
        };
        assert(r == clamp_u64(self@.elapsed_at(now)));
        r
    }

    pub fn is_running(&self) -> (r: bool)
        ensures
            r == self.running_since is Some,
    {
        self.running_since.is_some()
    }

    /// Whether toggling at `now` banks a run that fits in a `u64`.
    pub fn fits_at(&self, now: u64) -> (r: bool)
        ensures
            r == self@.fits_at(now),
    {
        checked_reading(self.total_seconds, self.running_since, now).is_some()
    }

    /// Starts or stops the sub-timer at `now`.
    pub fn toggle_at(&mut self, now: u64)
        requires
            old(self)@.fits_at(now),
        ensures
            final(self)@ == old(self)@.toggled_at(now),
    {
        match self.running_since {
            Some(since) => {
                self.total_seconds = self.total_seconds + now.saturating_sub(since);
                self.running_since = None;
            },
            None => {
                self.running_since = Some(now);
            },
        }
    }

    /// Starts or stops the sub-timer by the system clock; a run that would
    /// bank past `u64::MAX` leaves the sub-timer as it was.
    pub fn toggle(&mut self)
        ensures
            exists|now: u64| final(self)@ == #[trigger] old(self)@.toggled_by_clock(now),
            old(self).running_since is None ==> final(self).running_since is Some
                && final(self).total_seconds == old(self).total_seconds,
    {
        let now = now_secs();
        if self.fits_at(now) {
            self.toggle_at(now);
        }
        assert(final(self)@ == old(self)@.toggled_by_clock(now));
    }
}

// ---------------------------------------------------------------------------
// Top-level timers
// ---------------------------------------------------------------------------

/// Sum of the readings of `children` at `now`.
pub open spec fn children_elapsed_at(children: Seq<SubTimerModel>, now: u64) -> int
    decreases children.len(),
{
    if children.len() == 0 {
        0
    } else {
        children_elapsed_at(children.drop_last(), now) + children.last().elapsed_at(now)
    }
}

/// What a top-level timer is: its own clock and its sub-timers.
pub struct TimerModel {
    pub name: Seq<char>,
    pub total_seconds: u64,
    pub running_since: Option<u64>,
    pub children: Seq<SubTimerModel>,
}

impl TimerModel {
    /// The reading of the timer's own clock at `now`.
    pub open spec fn own_elapsed_at(self, now: u64) -> int {
        reading_at(self.total_seconds, self.running_since, now)
    }

    /// The timer's displayed time: its own reading plus every child's.
    pub open spec fn total_elapsed_at(self, now: u64) -> int {
        self.own_elapsed_at(now) + children_elapsed_at(self.children, now)
    }

    pub open spec fn own_fits_at(self, now: u64) -> bool {
        self.own_elapsed_at(now) <= u64::MAX
    }

    /// The timer's own clock or some child is running.
    pub open spec fn any_running(self) -> bool {
        self.running_since is Some || exists|i: int|
            0 <= i < self.children.len() && (#[trigger] self.children[i]).running_since is Some
    }

    /// Starting or stopping the timer's own clock at `now`; the children
    /// stay as they are.
    pub open spec fn toggled_own_at(self, now: u64) -> TimerModel {
        match self.running_since {
            Some(since) => TimerModel {
                total_seconds: self.own_elapsed_at(now) as u64,
                running_since: None,
                ..self
            },
            None => TimerModel { running_since: Some(now), ..self },
        }
    }

    /// Toggling the own clock by a clock that reads `now`: a run that would
    /// bank past `u64::MAX` leaves the timer as it was.
    pub open spec fn toggled_own_by_clock(self, now: u64) -> TimerModel {
        if self.own_fits_at(now) { self.toggled_own_at(now) } else { self }
    }
}

/// A top-level timer with its own clock and any number of sub-timers.
pub struct Timer {
    pub name: String,
    pub total_seconds: u64,
    pub running_since: Option<u64>,
    pub children: Vec<SubTimer>,
}

impl View for Timer {
    type V = TimerModel;

    open spec fn view(&self) -> TimerModel {
        TimerModel {
            name: self.name@,
            total_seconds: self.total_seconds,
            running_since: self.running_since,
            children: self.children@.map_values(|c: SubTimer| c@),
        }
    }
}

/// Readings are never negative, so neither is their sum.
proof fn lemma_children_nonneg(children: Seq<SubTimerModel>, now: u64)
    ensures
        children_elapsed_at(children, now) >= 0,
    decreases children.len(),
{
    if children.len() > 0 {
        lemma_children_nonneg(children.drop_last(), now);
    }
}

/// The readings of the first `i` children never exceed those of all of them.
proof fn lemma_children_prefix_le(children: Seq<SubTimerModel>, i: int, now: u64)
    requires
        0 <= i <= children.len(),
    ensures
        children_elapsed_at(children.take(i), now) <= children_elapsed_at(children, now),
    decreases children.len(),
{
    if i == children.len() {
        assert(children.take(i) =~= children);
    } else {
        assert(children.drop_last().take(i) =~= children.take(i));
        lemma_children_prefix_le(children.drop_last(), i, now);
    }
}

impl Timer {
    /// A stopped timer with nothing banked and no sub-timers.
    pub fn new(name: String) -> (t: Timer)
        ensures
            t@ == (TimerModel {
                name: name@,
                total_seconds: 0,
                running_since: None,
                children: Seq::empty(),
            }),
    {
        let t = Timer { name, total_seconds: 0, running_since: None, children: Vec::new() };
        assert(t@.children =~= Seq::empty());
        t
    }

    /// The reading of the timer's own clock at `now`.
    pub fn own_elapsed_at(&self, now: u64) -> (r: u64)
        requires
            self@.own_fits_at(now),
        ensures
            r == self@.own_elapsed_at(now),
    {
        checked_reading(self.total_seconds, self.running_since, now).unwrap()
    }

    /// The reading of the timer's own clock now, by the system clock; a
    /// reading beyond `u64::MAX` shows as `u64::MAX`.
    pub fn own_elapsed(&self) -> (r: u64)
        ensures
            exists|now: u64| r == clamp_u64(#[trigger] self@.own_elapsed_at(now)),
            self.running_since is None ==> r == self.total_seconds,
            r >= self.total_seconds,
    {
        let now = now_secs();
        let r = match checked_reading(self.total_seconds, self.running_since, now) {
            Some(r) => r,
            None => u64::MAX,
        };
        assert(r == clamp_u64(self@.own_elapsed_at(now)));
        r
    }

    /// The displayed time at `now`, or `None` when it does not fit in a `u64`.
    fn checked_total_at(&self, now: u64) -> (r: Option<u64>)
        ensures
            self@.total_elapsed_at(now) <= u64::MAX ==> r == Some(self@.total_elapsed_at(now) as u64),
            self@.total_elapsed_at(now) > u64::MAX ==> r is None,
    {
        let ghost cs = self@.children;
        let own = match checked_reading(self.total_seconds, self.running_since, now) {
            Some(v) => v,
            None => {
                proof {
                    lemma_children_prefix_le(cs, 0, now);
                    assert(cs.take(0) =~= Seq::<SubTimerModel>::empty());
                }
                return None;
            },
        };
        let mut acc: u64 = own;
        let mut i: usize = 0;
        while i < self.children.len()
            invariant
                cs == self@.children,
                cs.len() == self.children.len(),
                0 <= i <= self.children.len(),
                own == self@.own_elapsed_at(now),
                acc == own + children_elapsed_at(cs.take(i as int), now),
            decreases self.children.len() - i,
        {
            assert(cs.take(i + 1).drop_last() =~= cs.take(i as int));
            assert(self.children[i as int]@ == cs[i as int]);
            match checked_reading(self.children[i].total_seconds, self.children[i].running_since, now) {
                Some(e) => {
                    match acc.checked_add(e) {
                        Some(next) => {
                            acc = next;
                        },
                        None => {
                            proof { lemma_children_prefix_le(cs, i + 1, now); }
                            return None;
                        },
                    }
                },
                None => {
                    proof { lemma_children_prefix_le(cs, i + 1, now); }
                    return None;
                },
            }
            i = i + 1;
        }
        assert(cs.take(i as int) =~= cs);
        Some(acc)
    }

    /// The displayed time at `now`: the timer's own reading plus the sum
    /// of its children's readings.
    pub fn total_elapsed_at(&self, now: u64) -> (r: u64)
        requires
            self@.total_elapsed_at(now) <= u64::MAX,
        ensures
            r == self@.total_elapsed_at(now),
    {
        proof { lemma_children_nonneg(self@.children, now); }
        self.checked_total_at(now).unwrap()
    }

    /// The displayed time now, by the system clock; a total beyond
    /// `u64::MAX` shows as `u64::MAX`.
    pub fn total_elapsed(&self) -> (r: u64)
        ensures
            exists|now: u64| r == clamp_u64(#[trigger] self@.total_elapsed_at(now)),
    {
        let now = now_secs();
        proof { lemma_children_nonneg(self@.children, now); }
        let r = match self.checked_total_at(now) {
            Some(r) => r,
            None => u64::MAX,
        };
        assert(r == clamp_u64(self@.total_elapsed_at(now)));
        r
    }

    /// Whether the timer's own clock or any of its children is running.
    pub fn any_running(&self) -> (r: bool)
        ensures
            r == self@.any_running(),
    {
        if self.running_since.is_some() {
            return true;
        }
        let mut i: usize = 0;
        while i < self.children.len()
            invariant
                0 <= i <= self.children.len(),
                self.running_since is None,
                forall|j: int| 0 <= j < i ==> (#[trigger] self@.children[j]).running_since is None,
            decreases self.children.len() - i,
        {
            assert(self.children[i as int]@ == self@.children[i as int]);
            if self.children[i].is_running() {
                return true;
            }
            i = i + 1;
        }
        false
    }

    /// Whether toggling the timer's own clock at `now` banks a run that fits
    /// in a `u64`.
    pub fn own_fits_at(&self, now: u64) -> (r: bool)
        ensures
            r == self@.own_fits_at(now),
    {
        checked_reading(self.total_seconds, self.running_since, now).is_some()
    }

    /// Starts or stops the timer's own clock at `now`.
    pub fn toggle_own_at(&mut self, now: u64)
        requires
            old(self)@.own_fits_at(now),
        ensures
            final(self)@ == old(self)@.toggled_own_at(now),
    {
        match self.running_since {
            Some(since) => {
                self.total_seconds = self.total_seconds + now.saturating_sub(since);
                self.running_since = None;
            },
            None => {
                self.running_since = Some(now);
            },
        }
    }

    /// Starts or stops the timer's own clock by the system clock; a run
    /// that would bank past `u64::MAX` leaves the timer as it was.
    pub fn toggle_own(&mut self)
        ensures
            exists|now: u64| final(self)@ == #[trigger] old(self)@.toggled_own_by_clock(now),
            old(self).running_since is None ==> final(self).running_since is Some
                && final(self).total_seconds == old(self).total_seconds,
    {
        let now = now_secs();
        if self.own_fits_at(now) {
            self.toggle_own_at(now);
        }
        assert(final(self)@ == old(self)@.toggled_own_by_clock(now));
    }
}

// ---------------------------------------------------------------------------
// Laws of the clocks
// ---------------------------------------------------------------------------

/// Starting or stopping a sub-timer does not change what it shows at the
/// instant of the toggle.
pub proof fn lemma_toggle_keeps_reading(t: SubTimerModel, now: u64)
    requires
        t.fits_at(now),
    ensures
        t.toggled_at(now).elapsed_at(now) == t.elapsed_at(now),
{
}

/// Starting or stopping a timer's own clock does not change its own reading
/// nor its displayed total at the instant of the toggle.
pub proof fn lemma_toggle_own_keeps_total(t: TimerModel, now: u64)
    requires
        t.own_fits_at(now),
    ensures
        t.toggled_own_at(now).own_elapsed_at(now) == t.own_elapsed_at(now),
        t.toggled_own_at(now).total_elapsed_at(now) == t.total_elapsed_at(now),
{
}

/// A run from `start` to `stop` of a stopped sub-timer banks exactly
/// `stop - start` seconds and leaves it stopped.
pub proof fn lemma_start_stop_banks_run(t: SubTimerModel, start: u64, stop: u64)
    requires
        t.running_since is None,
        start <= stop,
        t.total_seconds + (stop - start) <= u64::MAX,
    ensures
        t.fits_at(start),
        t.toggled_at(start).fits_at(stop),
        t.toggled_at(start).toggled_at(stop) == (SubTimerModel {
            total_seconds: (t.total_seconds + (stop - start)) as u64,
            ..t
        }),
{
}

/// A timer's own run from `start` to `stop` banks exactly `stop - start`
/// seconds and leaves its own clock stopped.
pub proof fn lemma_start_stop_own_banks_run(t: TimerModel, start: u64, stop: u64)
    requires
        t.running_since is None,
        start <= stop,
        t.total_seconds + (stop - start) <= u64::MAX,
    ensures
        t.own_fits_at(start),
        t.toggled_own_at(start).own_fits_at(stop),
        t.toggled_own_at(start).toggled_own_at(stop) == (TimerModel {
            total_seconds: (t.total_seconds + (stop - start)) as u64,
            ..t
        }),
{
}

/// A sub-timer never shows less later than earlier.
pub proof fn lemma_reading_monotone(t: SubTimerModel, n1: u64, n2: u64)
    requires
        n1 <= n2,
    ensures
        t.elapsed_at(n1) <= t.elapsed_at(n2),
{
}

proof fn lemma_children_monotone(children: Seq<SubTimerModel>, n1: u64, n2: u64)
    requires
        n1 <= n2,
    ensures
        children_elapsed_at(children, n1) <= children_elapsed_at(children, n2),
    decreases children.len(),
{
    if children.len() > 0 {
        lemma_children_monotone(children.drop_last(), n1, n2);
    }
}

/// A timer's displayed total never goes down as the clock moves on.
pub proof fn lemma_total_monotone(t: TimerModel, n1: u64, n2: u64)
    requires
        n1 <= n2,
    ensures
        t.total_elapsed_at(n1) <= t.total_elapsed_at(n2),
{
    lemma_children_monotone(t.children, n1, n2);
}

proof fn lemma_children_stopped(children: Seq<SubTimerModel>, n1: u64, n2: u64)
    requires
        forall|i: int| 0 <= i < children.len() ==> (#[trigger] children[i]).running_since is None,
    ensures
        children_elapsed_at(children, n1) == children_elapsed_at(children, n2),
    decreases children.len(),
{
    if children.len() > 0 {
        let rest = children.drop_last();
        assert forall|i: int| 0 <= i < rest.len() implies (#[trigger] rest[i]).running_since is None by {
            assert(rest[i] == children[i]);
        }
        lemma_children_stopped(rest, n1, n2);
        assert(children.last() == children[children.len() - 1]);
    }
}

/// A timer with nothing running shows the same total whatever the clock
/// reads: time only accrues on running clocks.
pub proof fn lemma_stopped_total_constant(t: TimerModel, n1: u64, n2: u64)
    requires
        !t.any_running(),
    ensures
        t.total_elapsed_at(n1) == t.total_elapsed_at(n2),
{
    lemma_children_stopped(t.children, n1, n2);
}

proof fn lemma_children_growth(children: Seq<SubTimerModel>, j: int, since: u64, n1: u64, n2: u64)
    requires
        0 <= j < children.len(),
        children[j].running_since == Some(since),
        since <= n1 <= n2,
    ensures
        children_elapsed_at(children, n2) >= children_elapsed_at(children, n1) + (n2 - n1),
    decreases children.len(),
{
    let rest = children.drop_last();
    if j == children.len() - 1 {
        lemma_children_monotone(rest, n1, n2);
    } else {
        assert(rest[j] == children[j]);
        lemma_children_growth(rest, j, since, n1, n2);
    }
}

/// While a sub-timer runs, its parent's displayed total grows at least as
/// fast as the clock.
pub proof fn lemma_running_child_raises_total(t: TimerModel, j: int, since: u64, n1: u64, n2: u64)
    requires
        0 <= j < t.children.len(),
        t.children[j].running_since == Some(since),
        since <= n1 <= n2,
    ensures
        t.total_elapsed_at(n2) >= t.total_elapsed_at(n1) + (n2 - n1),
{
    lemma_children_growth(t.children, j, since, n1, n2);
}

/// Replacing one child changes the sum of the children's readings by the
/// difference between the two readings.
pub proof fn lemma_children_update(children: Seq<SubTimerModel>, j: int, c: SubTimerModel, now: u64)
    requires
        0 <= j < children.len(),
    ensures
        children_elapsed_at(children.update(j, c), now) == children_elapsed_at(children, now)
            - children[j].elapsed_at(now) + c.elapsed_at(now),
    decreases children.len(),
{
    let updated = children.update(j, c);
    if j == children.len() - 1 {
        assert(updated.drop_last() =~= children.drop_last());
    } else {
        assert(updated.drop_last() =~= children.drop_last().update(j, c));
        lemma_children_update(children.drop_last(), j, c, now);
    }
}

/// While a sub-timer runs, what it shows grows second for second with the
/// clock, from its banked seconds at the start of the run; a stopped one
/// shows its banked seconds whatever the clock reads.
pub proof fn lemma_live_reading(t: SubTimerModel, n1: u64, n2: u64)
    ensures
        t.running_since is None ==> t.elapsed_at(n1) == t.total_seconds,
        t.running_since matches Some(s) ==> t.elapsed_at(s) == t.total_seconds,
        t.running_since matches Some(s) && s <= n1 && n1 <= n2 ==> t.elapsed_at(n2) - t.elapsed_at(n1) == n2 - n1,
        t.running_since matches Some(s) && n1 <= s ==> t.elapsed_at(n1) == t.total_seconds,
{
}

/// The same for a timer's own clock.
pub proof fn lemma_live_own_reading(t: TimerModel, n1: u64, n2: u64)
    ensures
        t.running_since is None ==> t.own_elapsed_at(n1) == t.total_seconds,
        t.running_since matches Some(s) ==> t.own_elapsed_at(s) == t.total_seconds,
        t.running_since matches Some(s) && s <= n1 && n1 <= n2 ==> t.own_elapsed_at(n2) - t.own_elapsed_at(n1) == n2 - n1,
        t.running_since matches Some(s) && n1 <= s ==> t.own_elapsed_at(n1) == t.total_seconds,
{
}

/// Stopping a sub-timer whose run started at `s` banks the `n - s` seconds
/// of that run; from then on it shows the same whatever the clock reads.
pub proof fn lemma_stop_banks_run(t: SubTimerModel, s: u64, n: u64, later: u64)
    requires
        t.running_since == Some(s),
        s <= n,
        t.fits_at(n),
    ensures
        t.toggled_at(n).running_since is None,
        t.toggled_at(n).total_seconds == t.total_seconds + (n - s),
        t.toggled_at(n).name == t.name,
        t.toggled_at(n).elapsed_at(later) == t.total_seconds + (n - s),
{
}

/// Stopping a timer's own clock whose run started at `s` banks `n - s`
/// seconds and leaves its children as they were.
pub proof fn lemma_stop_own_banks_run(t: TimerModel, s: u64, n: u64)
    requires
        t.running_since == Some(s),
        s <= n,
        t.own_fits_at(n),
    ensures
        t.toggled_own_at(n).running_since is None,
        t.toggled_own_at(n).total_seconds == t.total_seconds + (n - s),
        t.toggled_own_at(n).name == t.name,
        t.toggled_own_at(n).children == t.children,
{
}

/// Starting a stopped clock at `n` records `n` as the start and banks
/// nothing.
pub proof fn lemma_start_records_now(t: SubTimerModel, u: TimerModel, n: u64)
    requires
        t.running_since is None,
        u.running_since is None,
    ensures
        t.toggled_at(n).running_since == Some(n),
        t.toggled_at(n).total_seconds == t.total_seconds,
        u.toggled_own_at(n).running_since == Some(n),
        u.toggled_own_at(n).total_seconds == u.total_seconds,
        u.toggled_own_at(n).children == u.children,
{
}

proof fn lemma_children_at_least_each(children: Seq<SubTimerModel>, j: int, now: u64)
    requires
        0 <= j < children.len(),
    ensures
        children_elapsed_at(children, now) >= children[j].elapsed_at(now),
    decreases children.len(),
{
    lemma_children_nonneg(children.drop_last(), now);
    if j < children.len() - 1 {
        assert(children.drop_last()[j] == children[j]);
        lemma_children_at_least_each(children.drop_last(), j, now);
    }
}

/// Children's readings add up: the sum over a list with one more child is
/// the old sum plus that child's reading.
pub proof fn lemma_children_push(children: Seq<SubTimerModel>, c: SubTimerModel, now: u64)
    ensures
        children_elapsed_at(children.push(c), now) == children_elapsed_at(children, now) + c.elapsed_at(now),
        children_elapsed_at(Seq::<SubTimerModel>::empty(), now) == 0,
{
    assert(children.push(c).drop_last() =~= children);
}

/// A timer's displayed total is at least its own reading plus the reading
/// of any one child; with no children it is its own reading; while its own
/// clock runs, the total grows at least second for second.
pub proof fn lemma_total_live(t: TimerModel, j: int, n1: u64, n2: u64)
    ensures
        t.total_elapsed_at(n1) >= t.own_elapsed_at(n1),
        0 <= j < t.children.len() ==> t.total_elapsed_at(n1) >= t.own_elapsed_at(n1) + t.children[j].elapsed_at(n1),
        t.children.len() == 0 ==> t.total_elapsed_at(n1) == t.own_elapsed_at(n1),
        t.running_since matches Some(s) && s <= n1 && n1 <= n2 ==> t.total_elapsed_at(n2) >= t.total_elapsed_at(n1) + (n2 - n1),
{
    lemma_children_nonneg(t.children, n1);
    if 0 <= j < t.children.len() {
        lemma_children_at_least_each(t.children, j, n1);
    }
    if n1 <= n2 {
        lemma_children_monotone(t.children, n1, n2);
    }
}

} // verus!
