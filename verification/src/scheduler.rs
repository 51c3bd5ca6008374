use vstd::prelude::*;
use crate::descriptor::BackgroundDescriptor;
use crate::json::{as_bool, as_u64, get, json_as_bool, json_as_u64, json_get, JsonValue};
use crate::text::{concat3, owned, str_eq};
use std::time::{Duration, Instant};

verus! {

#[verifier::external_type_specification]
#[verifier::external_body]
pub struct ExInstant(std::time::Instant);

/// `Instant::now`: a reading of the monotonic clock.
#[verifier::external_body]
fn instant_now() -> Instant {
    Instant::now()
}

/// `Instant::elapsed`: the time since `origin` (depends on the clock).
#[verifier::external_body]
fn instant_elapsed(origin: &Instant) -> Duration {
    origin.elapsed()
}

/// The nanoseconds of a duration (`Duration::as_nanos`).
pub uninterp spec fn duration_as_nanos(d: Duration) -> u128;

/// `Duration::as_nanos`: the duration's nanoseconds, named.
#[verifier::external_body]
fn duration_nanos(d: &Duration) -> (r: u128)
    ensures
        r == duration_as_nanos(*d),
{
    d.as_nanos()
}

/// `Duration::from_millis`: a duration of `ms` milliseconds, that is of
/// `ms` million nanoseconds.
#[verifier::external_body]
pub(crate) fn duration_from_millis(ms: u64) -> (d: Duration)
    ensures
        duration_as_nanos(d) == ms as u128 * 1_000_000,
{
    Duration::from_millis(ms)
}

/// A duration in nanoseconds, at most `u64::MAX` (about 584 years).
pub open spec fn clamped_nanos(d: Duration) -> u64 {
    if duration_as_nanos(d) > u64::MAX as u128 {
        u64::MAX
    } else {
        duration_as_nanos(d) as u64
    }
}

fn nanos_u64(d: &Duration) -> (r: u64)
    ensures
        r == clamped_nanos(*d),
{
    let ns = duration_nanos(d);
    if ns > u64::MAX as u128 {
        u64::MAX
    } else {
        ns as u64
    }
}

/// Nanoseconds in a second.
pub const NANOS_PER_SECOND: u64 = 1_000_000_000;

/// How often the daemon looks for background work at most, in nanoseconds.
pub const BACKGROUND_SCAN_INTERVAL_NS: u64 = 1_000_000_000;

/// Longest background interval a setting may ask for, in seconds.
pub const MAX_BACKGROUND_INTERVAL_SECONDS: u64 = 86400;

/// A background action that is due.
#[derive(Debug, Clone, PartialEq, Eq)]
pub struct ScheduledAction {
    pub extension_id: String,
    pub action_id: String,
}

/// What an extension's manifest and settings say of its background action.
#[derive(Debug)]
pub struct BackgroundPlan {
    pub extension_id: String,
    pub action_id: String,
    pub enabled: bool,
    pub interval_seconds: u64,
}

/// Whether the background action runs: the setting named by the manifest
/// when it is a boolean, else the manifest's default.
pub open spec fn background_enabled(bg: BackgroundDescriptor, config: JsonValue) -> bool {
    match bg.enabled_config {
        Some(key) => match as_bool(get(config, key@)) {
            Some(b) => b,
            None => bg.enabled_by_default,
        },
        None => bg.enabled_by_default,
    }
}

/// The interval of the background action: the setting named by the
/// manifest when it is a whole number of seconds from 1 to a day, else the
/// manifest's default.
pub open spec fn background_interval(bg: BackgroundDescriptor, config: JsonValue) -> nat {
    match bg.interval_seconds_config {
        Some(key) => match as_u64(get(config, key@)) {
            Some(n) => if 1 <= n <= MAX_BACKGROUND_INTERVAL_SECONDS {
                n as nat
            } else {
                bg.default_interval_seconds as nat
            },
            None => bg.default_interval_seconds as nat,
        },
        None => bg.default_interval_seconds as nat,
    }
}

/// The user's settings decide over the manifest: when the setting named
/// for the switch holds a boolean, the plan is enabled exactly when it is
/// true, whatever the manifest's default; when the setting named for the
/// interval holds a whole number of seconds from 1 to a day, that is the
/// interval, whatever the manifest's default. Only without such a setting
/// does the default count.
pub proof fn law_settings_override_the_manifest_defaults(
    bg: BackgroundDescriptor,
    config: JsonValue,
    setting: bool,
    seconds: u64,
    other_default_enabled: bool,
    other_default_interval: u64,
)
    ensures
        bg.enabled_config matches Some(key) && get(config, key@) == Some(JsonValue::Bool(setting)) ==> background_enabled(
            bg,
            config,
        ) == setting && background_enabled(
            BackgroundDescriptor { enabled_by_default: other_default_enabled, ..bg },
            config,
        ) == setting,
        !(bg.enabled_config matches Some(key) && get(config, key@) matches Some(JsonValue::Bool(_)))
            ==> background_enabled(bg, config) == bg.enabled_by_default,
        bg.interval_seconds_config matches Some(key) && as_u64(get(config, key@)) == Some(seconds as int) && 1
            <= seconds <= MAX_BACKGROUND_INTERVAL_SECONDS ==> background_interval(bg, config) == seconds
            && background_interval(
            BackgroundDescriptor { default_interval_seconds: other_default_interval, ..bg },
            config,
        ) == seconds,
        1 <= background_interval(bg, config) <= MAX_BACKGROUND_INTERVAL_SECONDS || background_interval(bg, config)
            == bg.default_interval_seconds,
{
}

pub fn plan_background(extension_id: &str, bg: &BackgroundDescriptor, config: &JsonValue) -> (p: BackgroundPlan)
    ensures
        p.extension_id@ == extension_id@,
        p.action_id@ == bg.action@,
        p.enabled == background_enabled(*bg, *config),
        p.interval_seconds == background_interval(*bg, *config),
{
    let enabled = match &bg.enabled_config {
        Some(key) => match json_as_bool(json_get(config, key.as_str())) {
            Some(b) => b,
            None => bg.enabled_by_default,
        },
        None => bg.enabled_by_default,
    };
    let interval_seconds = match &bg.interval_seconds_config {
        Some(key) => match json_as_u64(json_get(config, key.as_str())) {
            Some(n) => if 1 <= n && n <= MAX_BACKGROUND_INTERVAL_SECONDS {
                n
            } else {
                bg.default_interval_seconds
            },
            None => bg.default_interval_seconds,
        },
        None => bg.default_interval_seconds,
    };
    BackgroundPlan {
        extension_id: owned(extension_id),
        action_id: owned(bg.action.as_str()),
        enabled,
        interval_seconds,
    }
}

/// The key under which a background action's last run is kept.
pub open spec fn schedule_key(extension_id: Seq<char>, action_id: Seq<char>) -> Seq<char> {
    extension_id + ":"@ + action_id
}

/// The time of the last run recorded under `key`.
pub open spec fn last_run(runs: Seq<(Seq<char>, u64)>, key: Seq<char>) -> Option<u64>
    decreases runs.len(),
{
    if runs.len() == 0 {
        None
    } else if runs.last().0 == key {
        Some(runs.last().1)
    } else {
        last_run(runs.drop_last(), key)
    }
}

/// Time from `then` to `now` in nanoseconds, zero when `now` is earlier.
pub open spec fn since(now: u64, then: u64) -> int {
    if now >= then {
        now - then
    } else {
        0
    }
}

/// Whether the action under `key` is due at `now`: it never ran, or its
/// interval has passed since it last did.
pub open spec fn is_due(runs: Seq<(Seq<char>, u64)>, key: Seq<char>, now: u64, interval_seconds: nat) -> bool {
    match last_run(runs, key) {
        None => true,
        Some(t) => since(now, t) >= interval_seconds * NANOS_PER_SECOND,
    }
}

/// The actions of `plans` that are enabled and due, in order.
pub open spec fn due_actions(plans: Seq<BackgroundPlan>, runs: Seq<(Seq<char>, u64)>, now: u64) -> Seq<
    (Seq<char>, Seq<char>),
>
    decreases plans.len(),
{
    if plans.len() == 0 {
        Seq::empty()
    } else {
        let p = plans.last();
        due_actions(plans.drop_last(), runs, now) + if p.enabled && is_due(
            runs,
            schedule_key(p.extension_id@, p.action_id@),
            now,
            p.interval_seconds as nat,
        ) {
            seq![(p.extension_id@, p.action_id@)]
        } else {
            Seq::empty()
        }
    }
}

pub open spec fn actions_view(v: Seq<ScheduledAction>) -> Seq<(Seq<char>, Seq<char>)> {
    v.map_values(|a: ScheduledAction| (a.extension_id@, a.action_id@))
}

/// When the daemon reloads its extensions and runs background actions.
/// Times are nanoseconds on the scheduler's own clock.
#[derive(Debug)]
pub struct DaemonScheduler {
    origin: Instant,
    reload_interval_ns: u64,
    last_reload_ns: u64,
    last_background_scan_ns: Option<u64>,
    last_bones_background: Vec<(String, u64)>,
}

impl DaemonScheduler {
    pub closed spec fn reload_interval(&self) -> u64 {
        self.reload_interval_ns
    }

    pub closed spec fn last_reload(&self) -> u64 {
        self.last_reload_ns
    }

    pub closed spec fn last_scan(&self) -> Option<u64> {
        self.last_background_scan_ns
    }

    pub closed spec fn runs(&self) -> Seq<(Seq<char>, u64)> {
        self.last_bones_background@.map_values(|p: (String, u64)| (p.0@, p.1))
    }

    /// A scheduler started now, with nothing run yet.
    pub fn new(reload_interval: Duration) -> (s: Self)
        ensures
            s.reload_interval() == clamped_nanos(reload_interval),
            s.last_reload() == 0,
            s.last_scan() is None,
            s.runs().len() == 0,
    {
        let interval = nanos_u64(&reload_interval);
        DaemonScheduler {
            origin: instant_now(),
            reload_interval_ns: interval,
            last_reload_ns: 0,
            last_background_scan_ns: None,
            last_bones_background: Vec::new(),
        }
    }

    /// The scheduler's clock: nanoseconds since it was made. Differences of
    /// two readings are the exact time between them.
    pub fn now_ns(&self) -> u64 {
        let elapsed = instant_elapsed(&self.origin);
        nanos_u64(&elapsed)
    }

    /// Whether the extensions are due for a reload at `now`.
    pub fn reload_due_at(&self, now: u64) -> (r: bool)
        ensures
            r == (since(now, self.last_reload()) >= self.reload_interval()),
    {
        let elapsed = if now >= self.last_reload_ns { now - self.last_reload_ns } else { 0 };
        elapsed >= self.reload_interval_ns
    }

    /// Whether the extensions are due for a reload at `now`.
    pub open spec fn due_for_reload(&self, now: u64) -> bool {
        since(now, self.last_reload()) >= self.reload_interval()
    }

    /// Whether the extensions are due for a reload now: the answer of
    /// `reload_due_at` for a reading of the scheduler's clock.
    pub fn reload_due(&self) -> (r: bool)
        ensures
            exists|now: u64| r == #[trigger] self.due_for_reload(now),
    {
        let now = self.now_ns();
        let r = self.reload_due_at(now);
        assert(r == self.due_for_reload(now));
        r
    }

    pub fn mark_reload_at(&mut self, now: u64)
        ensures
            final(self).last_reload() == now,
            final(self).reload_interval() == old(self).reload_interval(),
            final(self).last_scan() == old(self).last_scan(),
            final(self).runs() == old(self).runs(),
    {
        self.last_reload_ns = now;
    }

    /// Records a reload at a reading of the scheduler's clock; nothing else
    /// changes.
    pub fn mark_reload(&mut self)
        ensures
            final(self).reload_interval() == old(self).reload_interval(),
            final(self).last_scan() == old(self).last_scan(),
            final(self).runs() == old(self).runs(),
    {
        let now = self.now_ns();
        self.mark_reload_at(now);
    }

    fn last_run_of(&self, key: &str) -> (r: Option<u64>)
        ensures
            r == last_run(self.runs(), key@),
    {
        let mut k: usize = self.last_bones_background.len();
        assert(self.last_bones_background@.take(k as int) =~= self.last_bones_background@);
        while k > 0
            invariant
                k <= self.last_bones_background@.len(),
                last_run(self.runs(), key@) == last_run(
                    self.last_bones_background@.take(k as int).map_values(|p: (String, u64)| (p.0@, p.1)),
                    key@,
                ),
            decreases k,
        {
            let ghost pre = self.last_bones_background@.take(k as int).map_values(|p: (String, u64)| (p.0@, p.1));
            assert(pre.last() == (self.last_bones_background@[k - 1].0@, self.last_bones_background@[k - 1].1));
            if str_eq(self.last_bones_background[k - 1].0.as_str(), key) {
                return Some(self.last_bones_background[k - 1].1);
            }
            assert(pre.drop_last() =~= self.last_bones_background@.take(k - 1).map_values(
                |p: (String, u64)| (p.0@, p.1),
            ));
            k = k - 1;
        }
        None
    }

    /// What a look for background work at `now` does: it changes neither the
    /// reload timing nor the recorded runs; when the last look was less than
    /// a second ago it finds nothing, else it finds the enabled plans whose
    /// interval has passed and remembers `now` as the last look.
    pub open spec fn background_scan(
        before: DaemonScheduler,
        after: DaemonScheduler,
        due: Seq<ScheduledAction>,
        plans: Seq<BackgroundPlan>,
        now: u64,
    ) -> bool {
        &&& after.reload_interval() == before.reload_interval()
        &&& after.last_reload() == before.last_reload()
        &&& after.runs() == before.runs()
        &&& (before.last_scan() matches Some(t) && since(now, t) < BACKGROUND_SCAN_INTERVAL_NS) ==> (due.len() == 0
            && after.last_scan() == before.last_scan())
        &&& !(before.last_scan() matches Some(t) && since(now, t) < BACKGROUND_SCAN_INTERVAL_NS) ==> (actions_view(due)
            == due_actions(plans, before.runs(), now) && after.last_scan() == Some(now))
    }

    /// The background actions due at `now`: none when the last look was
    /// less than a second ago; otherwise the enabled plans whose interval
    /// has passed, in order.
    pub fn due_bones_background_at(&mut self, now: u64, plans: &Vec<BackgroundPlan>) -> (due: Vec<ScheduledAction>)
        ensures
            Self::background_scan(*old(self), *final(self), due@, plans@, now),
    {
        if let Some(t) = self.last_background_scan_ns {
            let elapsed = if now >= t { now - t } else { 0 };
            if elapsed < BACKGROUND_SCAN_INTERVAL_NS {
                return Vec::new();
            }
        }
        self.last_background_scan_ns = Some(now);
        let mut due: Vec<ScheduledAction> = Vec::new();
        let mut i: usize = 0;
        while i < plans.len()
            invariant
                i <= plans@.len(),
                actions_view(due@) == due_actions(plans@.take(i as int), self.runs(), now),
            decreases plans.len() - i,
        {
            assert(plans@.take(i + 1).drop_last() =~= plans@.take(i as int));
            assert(plans@.take(i + 1).last() == plans@[i as int]);
            let p = &plans[i];
            if p.enabled {
                let key = concat3(p.extension_id.as_str(), ":", p.action_id.as_str());
                let is_due_now = match self.last_run_of(key.as_str()) {
                    None => true,
                    Some(last) => {
                        let elapsed = if now >= last { now - last } else { 0 };
                        (elapsed as u128) >= (p.interval_seconds as u128) * (NANOS_PER_SECOND as u128)
                    },
                };
                if is_due_now {
                    due.push(ScheduledAction {
                        extension_id: owned(p.extension_id.as_str()),
                        action_id: owned(p.action_id.as_str()),
                    });
                }
            }
            i = i + 1;
            assert(actions_view(due@) =~= due_actions(plans@.take(i as int), self.runs(), now));
        }
        assert(plans@.take(i as int) =~= plans@);
        due
    }

    /// The background actions due now: `due_bones_background_at` at a reading
    /// of the scheduler's clock.
    pub fn due_bones_background(&mut self, plans: &Vec<BackgroundPlan>) -> (due: Vec<ScheduledAction>)
        ensures
            exists|now: u64| #[trigger] Self::background_scan(*old(self), *final(self), due@, plans@, now),
    {
        let now = self.now_ns();
        self.due_bones_background_at(now, plans)
    }

    /// `action` ran at `now`: its last run is `now`, every other last run and
    /// the rest of the timing stay.
    pub open spec fn ran_at(before: DaemonScheduler, after: DaemonScheduler, action: ScheduledAction, now: u64) -> bool {
        &&& after.reload_interval() == before.reload_interval()
        &&& after.last_reload() == before.last_reload()
        &&& after.last_scan() == before.last_scan()
        &&& forall|k: Seq<char>| #[trigger] last_run(after.runs(), k) == if k == schedule_key(
            action.extension_id@,
            action.action_id@,
        ) {
            Some(now)
        } else {
            last_run(before.runs(), k)
        }
    }

    /// Records that `action` ran at `now`.
    pub fn mark_bones_background_run_at(&mut self, action: &ScheduledAction, now: u64)
        ensures
            Self::ran_at(*old(self), *final(self), *action, now),
    {
        let key = concat3(action.extension_id.as_str(), ":", action.action_id.as_str());
        let ghost before = self.runs();
        self.last_bones_background.push((key, now));
        assert(self.runs() =~= before.push((schedule_key(action.extension_id@, action.action_id@), now)));
        assert forall|k: Seq<char>| #[trigger] last_run(self.runs(), k) == if k == schedule_key(
            action.extension_id@,
            action.action_id@,
        ) {
            Some(now)
        } else {
            last_run(before, k)
        } by {
            assert(self.runs().drop_last() =~= before);
        }
    }

    /// Records that `action` ran at a reading of the scheduler's clock.
    pub fn mark_bones_background_run(&mut self, action: &ScheduledAction)
        ensures
            exists|now: u64| #[trigger] Self::ran_at(*old(self), *final(self), *action, now),
    {
        let now = self.now_ns();
        self.mark_bones_background_run_at(action, now);
    }
}

/// A look for background work finds an action exactly when one of the
/// plans for it is enabled and due.
pub proof fn lemma_due_actions_contains(
    plans: Seq<BackgroundPlan>,
    runs: Seq<(Seq<char>, u64)>,
    now: u64,
    e: Seq<char>,
    a: Seq<char>,
)
    ensures
        due_actions(plans, runs, now).contains((e, a)) <==> exists|j: int|
            0 <= j < plans.len() && #[trigger] plans[j].extension_id@ == e && plans[j].action_id@ == a
                && plans[j].enabled && is_due(runs, schedule_key(e, a), now, plans[j].interval_seconds as nat),
    decreases plans.len(),
{
    if plans.len() > 0 {
        let rest = plans.drop_last();
        let p = plans.last();
        lemma_due_actions_contains(rest, runs, now, e, a);
        let d = due_actions(rest, runs, now);
        let tail = if p.enabled && is_due(runs, schedule_key(p.extension_id@, p.action_id@), now, p.interval_seconds as nat) {
            seq![(p.extension_id@, p.action_id@)]
        } else {
            Seq::empty()
        };
        assert(due_actions(plans, runs, now) == d + tail);
        if due_actions(plans, runs, now).contains((e, a)) {
            let k = choose|k: int| 0 <= k < (d + tail).len() && (d + tail)[k] == (e, a);
            if k < d.len() {
                assert(d[k] == (e, a));
                assert(d.contains((e, a)));
                let j = choose|j: int|
                    0 <= j < rest.len() && #[trigger] rest[j].extension_id@ == e && rest[j].action_id@ == a
                        && rest[j].enabled && is_due(runs, schedule_key(e, a), now, rest[j].interval_seconds as nat);
                assert(plans[j] == rest[j]);
                assert(plans[j].extension_id@ == e);
            } else {
                assert(tail.len() == 1);
                assert(plans[plans.len() - 1] == p);
                assert(plans[plans.len() - 1].extension_id@ == e);
            }
        }
        if exists|j: int|
            0 <= j < plans.len() && #[trigger] plans[j].extension_id@ == e && plans[j].action_id@ == a
                && plans[j].enabled && is_due(runs, schedule_key(e, a), now, plans[j].interval_seconds as nat) {
            let j = choose|j: int|
                0 <= j < plans.len() && #[trigger] plans[j].extension_id@ == e && plans[j].action_id@ == a
                    && plans[j].enabled && is_due(runs, schedule_key(e, a), now, plans[j].interval_seconds as nat);
            if j < rest.len() {
                assert(rest[j] == plans[j]);
                assert(rest[j].extension_id@ == e);
                assert(d.contains((e, a)));
                let k = choose|k: int| 0 <= k < d.len() && d[k] == (e, a);
                assert((d + tail)[k] == (e, a));
            } else {
                assert(plans[j] == p);
                assert((d + tail)[d.len() as int] == (e, a));
            }
        }
    }
}

/// Between looks for background work, an action that was run at `t` is
/// found again exactly once its interval has passed since `t`: a look at
/// `u` finds it when `u - t` is at least its interval and not before.
/// Here every plan for the action is enabled with the same interval.
/// Whether any other action is due is what it was before the run.
pub proof fn law_marked_action_is_due_again_after_its_interval(
    before: DaemonScheduler,
    after: DaemonScheduler,
    action: ScheduledAction,
    t: u64,
    plans: Seq<BackgroundPlan>,
    interval_seconds: u64,
    u: u64,
)
    requires
        DaemonScheduler::ran_at(before, after, action, t),
        u >= t,
        exists|j: int|
            0 <= j < plans.len() && #[trigger] plans[j].extension_id@ == action.extension_id@ && plans[j].action_id@
                == action.action_id@,
        forall|j: int|
            0 <= j < plans.len() && #[trigger] plans[j].extension_id@ == action.extension_id@ && plans[j].action_id@
                == action.action_id@ ==> plans[j].enabled && plans[j].interval_seconds == interval_seconds,
    ensures
        due_actions(plans, after.runs(), u).contains((action.extension_id@, action.action_id@)) <==> u - t
            >= interval_seconds * NANOS_PER_SECOND,
        forall|k: Seq<char>, iv: nat|
            k != schedule_key(action.extension_id@, action.action_id@) ==> #[trigger] is_due(after.runs(), k, u, iv)
                == is_due(before.runs(), k, u, iv),
{
    let key = schedule_key(action.extension_id@, action.action_id@);
    assert(last_run(after.runs(), key) == Some(t));
    lemma_due_actions_contains(plans, after.runs(), u, action.extension_id@, action.action_id@);
}

/// Over the scheduler's own calls: once `action` has been marked as run at
/// `t`, a later look for background work at `u` that is not held back by
/// the one-second spacing finds it exactly when its interval has passed
/// since `t`. Here every plan for the action is enabled with the same
/// interval.
pub proof fn law_a_look_finds_a_run_action_after_its_interval(
    before_mark: DaemonScheduler,
    after_mark: DaemonScheduler,
    action: ScheduledAction,
    t: u64,
    after_look: DaemonScheduler,
    found: Seq<ScheduledAction>,
    plans: Seq<BackgroundPlan>,
    interval_seconds: u64,
    u: u64,
)
    requires
        DaemonScheduler::ran_at(before_mark, after_mark, action, t),
        DaemonScheduler::background_scan(after_mark, after_look, found, plans, u),
        after_mark.last_scan() matches Some(l) ==> since(u, l) >= BACKGROUND_SCAN_INTERVAL_NS,
        u >= t,
        exists|j: int|
            0 <= j < plans.len() && #[trigger] plans[j].extension_id@ == action.extension_id@ && plans[j].action_id@
                == action.action_id@,
        forall|j: int|
            0 <= j < plans.len() && #[trigger] plans[j].extension_id@ == action.extension_id@ && plans[j].action_id@
                == action.action_id@ ==> plans[j].enabled && plans[j].interval_seconds == interval_seconds,
    ensures
        actions_view(found).contains((action.extension_id@, action.action_id@)) <==> u - t >= interval_seconds
            * NANOS_PER_SECOND,
        after_look.last_scan() == Some(u),
{
    assert(actions_view(found) == due_actions(plans, after_mark.runs(), u));
    law_marked_action_is_due_again_after_its_interval(before_mark, after_mark, action, t, plans, interval_seconds, u);
}

/// Once an action has run at `t`, it is not due again before its interval
/// has passed, and it is due from then on.
pub proof fn law_ran_action_waits_its_interval(
    runs: Seq<(Seq<char>, u64)>,
    key: Seq<char>,
    t: u64,
    now: u64,
    interval_seconds: nat,
)
    requires
        last_run(runs, key) == Some(t),
        now >= t,
    ensures
        is_due(runs, key, now, interval_seconds) <==> now - t >= interval_seconds * NANOS_PER_SECOND,
{
}

} // verus!
