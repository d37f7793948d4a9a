//! Polling deadlines. Times are monotonic elapsed nanoseconds supplied by the
//! caller (tests use a fake clock). Missed deadlines run once and schedule
//! from now, with no catch-up bursts.
use vstd::prelude::*;

verus! {

/// Interval between snapshot publications: 2.1 s.
pub const PUBLISH: u128 = 2_100_000_000;

/// Interval between window discoveries: 10.5 s.
pub const DISCOVER: u128 = 10_500_000_000;

/// Interval between update probes: one minute.
pub const UPDATE_INTERVAL: u128 = 60_000_000_000;

/// The longest span a `std::time::Duration` holds, in nanoseconds.
pub const MAX_NANOS: u128 = 18_446_744_073_709_551_615_999_999_999;

/// The deadlines of a `RefreshSchedule`, in nanoseconds.
pub struct RefreshDeadlines {
    pub publish: nat,
    pub discover: nat,
}

impl RefreshDeadlines {
    /// Which of (publication, discovery) a call at `now` runs.
    pub open spec fn fires(self, now: nat, pointer_down: bool) -> (bool, bool) {
        (now >= self.publish, now >= self.discover && !pointer_down)
    }

    /// The deadlines after a call at `now`: each one that fired moves one
    /// interval past `now`; the other is kept.
    pub open spec fn after(self, now: nat, pointer_down: bool) -> RefreshDeadlines {
        let (publish, discover) = self.fires(now, pointer_down);
        RefreshDeadlines {
            publish: if publish {
                (now + PUBLISH) as nat
            } else {
                self.publish
            },
            discover: if discover {
                (now + DISCOVER) as nat
            } else {
                self.discover
            },
        }
    }
}

/// Two successive calls that both publish are at least `PUBLISH` apart, and
/// two that both discover are at least `DISCOVER` apart, however late the
/// first one ran: a missed deadline runs once, never in a burst.
/// Publication runs exactly once its deadline is reached; discovery runs
/// exactly once its deadline is reached and never while the pointer is down.
/// A call that does not run one keeps its deadline; one that does moves it
/// one interval past the call.
pub proof fn lemma_refresh_fires_at_deadlines(s: RefreshDeadlines, now: nat, pointer_down: bool)
    ensures
        s.fires(now, pointer_down).0 <==> now >= s.publish,
        pointer_down ==> !s.fires(now, pointer_down).1,
        !pointer_down ==> (s.fires(now, pointer_down).1 <==> now >= s.discover),
        now < s.publish ==> s.after(now, pointer_down).publish == s.publish,
        now >= s.publish ==> s.after(now, pointer_down).publish == now + PUBLISH,
        !(now >= s.discover && !pointer_down) ==> s.after(now, pointer_down).discover == s.discover,
        now >= s.discover && !pointer_down ==> s.after(now, pointer_down).discover == now + DISCOVER,
{
}

pub proof fn lemma_refresh_no_bursts(
    s: RefreshDeadlines,
    t1: nat,
    p1: bool,
    t2: nat,
    p2: bool,
)
    ensures
        s.fires(t1, p1).0 && s.after(t1, p1).fires(t2, p2).0 ==> t2 >= t1 + PUBLISH,
        s.fires(t1, p1).1 && s.after(t1, p1).fires(t2, p2).1 ==> t2 >= t1 + DISCOVER,
{
}

/// The deadlines after a sequence of calls, each a time and whether the
/// pointer was down, made in order starting from `s`.
pub open spec fn run_calls(s: RefreshDeadlines, calls: Seq<(nat, bool)>) -> RefreshDeadlines
    decreases calls.len(),
{
    if calls.len() == 0 {
        s
    } else {
        run_calls(s, calls.drop_last()).after(calls.last().0, calls.last().1)
    }
}

proof fn lemma_publish_deadline_holds(s: RefreshDeadlines, calls: Seq<(nat, bool)>)
    requires
        forall|k: int| 0 <= k < calls.len() ==> (#[trigger] calls[k]).0 < s.publish,
    ensures
        run_calls(s, calls).publish == s.publish,
        forall|k: int|
            0 <= k < calls.len() ==> !run_calls(s, calls.take(k)).fires(
                (#[trigger] calls[k]).0,
                calls[k].1,
            ).0,
    decreases calls.len(),
{
    if calls.len() > 0 {
        let front = calls.drop_last();
        assert forall|k: int| 0 <= k < front.len() implies (#[trigger] front[k]).0 < s.publish by {
            assert(front[k] == calls[k]);
        }
        lemma_publish_deadline_holds(s, front);
        assert forall|k: int| 0 <= k < calls.len() implies !run_calls(s, calls.take(k)).fires(
            (#[trigger] calls[k]).0,
            calls[k].1,
        ).0 by {
            if k < front.len() {
                assert(calls.take(k) =~= front.take(k));
                assert(front[k] == calls[k]);
            } else {
                assert(calls.take(k) =~= front);
            }
        }
    }
}

proof fn lemma_discover_deadline_holds(s: RefreshDeadlines, calls: Seq<(nat, bool)>)
    requires
        forall|k: int| 0 <= k < calls.len() ==> (#[trigger] calls[k]).0 < s.discover,
    ensures
        run_calls(s, calls).discover == s.discover,
        forall|k: int|
            0 <= k < calls.len() ==> !run_calls(s, calls.take(k)).fires(
                (#[trigger] calls[k]).0,
                calls[k].1,
            ).1,
    decreases calls.len(),
{
    if calls.len() > 0 {
        let front = calls.drop_last();
        assert forall|k: int| 0 <= k < front.len() implies (#[trigger] front[k]).0 < s.discover by {
            assert(front[k] == calls[k]);
        }
        lemma_discover_deadline_holds(s, front);
        assert forall|k: int| 0 <= k < calls.len() implies !run_calls(s, calls.take(k)).fires(
            (#[trigger] calls[k]).0,
            calls[k].1,
        ).1 by {
            if k < front.len() {
                assert(calls.take(k) =~= front.take(k));
                assert(front[k] == calls[k]);
            } else {
                assert(calls.take(k) =~= front);
            }
        }
    }
}

/// No catch-up burst: after a call at `t` that publishes, however many
/// intervals late it ran, no later call before `t + PUBLISH` publishes, in
/// any number of calls; likewise for discovery and `t + DISCOVER`.
pub proof fn lemma_refresh_no_catch_up(
    s: RefreshDeadlines,
    t: nat,
    p: bool,
    calls: Seq<(nat, bool)>,
)
    ensures
        s.fires(t, p).0 && (forall|k: int| 0 <= k < calls.len() ==> (#[trigger] calls[k]).0 < t
            + PUBLISH) ==> forall|k: int|
            0 <= k < calls.len() ==> !run_calls(s.after(t, p), calls.take(k)).fires(
                (#[trigger] calls[k]).0,
                calls[k].1,
            ).0,
        s.fires(t, p).1 && (forall|k: int| 0 <= k < calls.len() ==> (#[trigger] calls[k]).0 < t
            + DISCOVER) ==> forall|k: int|
            0 <= k < calls.len() ==> !run_calls(s.after(t, p), calls.take(k)).fires(
                (#[trigger] calls[k]).0,
                calls[k].1,
            ).1,
{
    let next = s.after(t, p);
    if s.fires(t, p).0 && (forall|k: int| 0 <= k < calls.len() ==> (#[trigger] calls[k]).0 < t
        + PUBLISH) {
        lemma_publish_deadline_holds(next, calls);
    }
    if s.fires(t, p).1 && (forall|k: int| 0 <= k < calls.len() ==> (#[trigger] calls[k]).0 < t
        + DISCOVER) {
        lemma_discover_deadline_holds(next, calls);
    }
}

/// Next publication and discovery deadlines.
pub struct RefreshSchedule {
    publish: u128,
    discover: u128,
}

impl View for RefreshSchedule {
    type V = RefreshDeadlines;

    closed spec fn view(&self) -> RefreshDeadlines {
        RefreshDeadlines { publish: self.publish as nat, discover: self.discover as nat }
    }
}

impl RefreshSchedule {
    /// Whether a call at `now` can advance the deadlines it reaches without
    /// leaving the range of a `Duration`.
    pub open spec fn due_in_range(&self, now: nat, pointer_down: bool) -> bool {
        &&& now <= MAX_NANOS
        &&& now >= self@.publish ==> now + PUBLISH <= MAX_NANOS
        &&& now >= self@.discover && !pointer_down ==> now + DISCOVER <= MAX_NANOS
    }

    /// Tests `due_in_range`: `due` may be called exactly when this holds
    /// (beyond it, adding the interval to a `Duration` overflows).
    pub fn in_range(&self, now: u128, pointer_down: bool) -> (ok: bool)
        ensures
            ok == self.due_in_range(now as nat, pointer_down),
    {
        now <= MAX_NANOS && (now < self.publish || now <= MAX_NANOS - PUBLISH) && (now
            < self.discover || pointer_down || now <= MAX_NANOS - DISCOVER)
    }

    /// Publication is due once its deadline is reached; discovery likewise,
    /// but never while the pointer is down. Each firing schedules its next
    /// deadline one interval after `now`; the other deadline is kept.
    pub fn due(&mut self, now: u128, pointer_down: bool) -> (fired: (bool, bool))
        requires
            old(self).due_in_range(now as nat, pointer_down),
        ensures
            fired == old(self)@.fires(now as nat, pointer_down),
            final(self)@ == old(self)@.after(now as nat, pointer_down),
    {
        let publish = now >= self.publish;
        let discover = now >= self.discover && !pointer_down;
        if publish {
            self.publish = now + PUBLISH;
        }
        if discover {
            self.discover = now + DISCOVER;
        }
        (publish, discover)
    }
}

impl Default for RefreshSchedule {
    /// Both deadlines start at zero: the first call publishes and discovers.
    fn default() -> (s: Self)
        ensures
            s@ == (RefreshDeadlines { publish: 0, discover: 0 }),
    {
        RefreshSchedule { publish: 0, discover: 0 }
    }
}

/// Probe immediately, then once per minute; busy sessions do not consume a deadline.
pub struct UpdateSchedule {
    next: u128,
}

impl View for UpdateSchedule {
    type V = nat;

    /// The deadline of the next probe, in nanoseconds.
    closed spec fn view(&self) -> nat {
        self.next as nat
    }
}

/// Whether a probe call at `now` runs, given the deadline `next`.
pub open spec fn update_fires(next: nat, now: nat, enabled: bool, available: bool) -> bool {
    enabled && available && now >= next
}

/// The deadline after a probe call at `now`.
pub open spec fn update_after(next: nat, now: nat, enabled: bool, available: bool) -> nat {
    if update_fires(next, now, enabled, available) {
        (now + UPDATE_INTERVAL) as nat
    } else {
        next
    }
}

/// Two successive probes are at least a minute apart, and calls while checks
/// are disabled or the updater is busy leave the deadline untouched.
/// A probe never runs while checks are disabled or the updater is
/// unavailable; with both, it runs exactly once the deadline is reached.
pub proof fn lemma_update_fires_when_allowed(next: nat, now: nat, enabled: bool, available: bool)
    ensures
        !enabled ==> !update_fires(next, now, enabled, available),
        !available ==> !update_fires(next, now, enabled, available),
        enabled && available ==> (update_fires(next, now, enabled, available) <==> now >= next),
        update_fires(next, now, enabled, available) ==> update_after(next, now, enabled, available)
            == now + UPDATE_INTERVAL,
{
}

pub proof fn lemma_update_once_per_minute(
    next: nat,
    t1: nat,
    e1: bool,
    a1: bool,
    t2: nat,
    e2: bool,
    a2: bool,
)
    ensures
        update_fires(next, t1, e1, a1) && update_fires(update_after(next, t1, e1, a1), t2, e2, a2)
            ==> t2 >= t1 + UPDATE_INTERVAL,
        !(e1 && a1) ==> update_after(next, t1, e1, a1) == next,
{
}

impl UpdateSchedule {
    /// Whether `due` may be called: `now` is a `Duration` and a probe it
    /// triggers does not push the deadline past the largest `Duration`.
    pub fn in_range(&self, now: u128, enabled: bool, available: bool) -> (ok: bool)
        ensures
            ok == (now <= MAX_NANOS && (update_fires(self@, now as nat, enabled, available) ==> now
                + UPDATE_INTERVAL <= MAX_NANOS)),
    {
        now <= MAX_NANOS && (!(enabled && available && now >= self.next) || now <= MAX_NANOS
            - UPDATE_INTERVAL)
    }

    /// A probe is due when checks are enabled, the updater is available, and
    /// the deadline is reached; it then moves the deadline a minute past `now`.
    /// A call that does not probe leaves the deadline alone.
    pub fn due(&mut self, now: u128, enabled: bool, available: bool) -> (probe: bool)
        requires
            now <= MAX_NANOS,
            update_fires(old(self)@, now as nat, enabled, available) ==> now + UPDATE_INTERVAL
                <= MAX_NANOS,
        ensures
            probe == update_fires(old(self)@, now as nat, enabled, available),
            final(self)@ == update_after(old(self)@, now as nat, enabled, available),
    {
        if !enabled || !available || now < self.next {
            return false;
        }
        self.next = now + UPDATE_INTERVAL;
        true
    }

    /// Makes the next probe due immediately.
    pub fn reset(&mut self)
        ensures
            final(self)@ == 0,
    {
        self.next = 0;
    }
}

impl Default for UpdateSchedule {
    /// The first probe is due immediately.
    fn default() -> (s: Self)
        ensures
            s@ == 0,
    {
        UpdateSchedule { next: 0 }
    }
}

} // verus!
