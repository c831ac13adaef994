//! The scheduler: what a switch's state and the clock decide, the state
//! changes of a firing, and the plan of one sweep over the store.

use crate::db::{
    self, actions_of, stages_of, views, warning_sent, with_refire, with_trigger, Store,
    StoreError, StoreView,
};
use crate::models::{
    Action, ActionView, ExecutionType, Switch, SwitchStatus, SwitchView, WarningExecution,
    WarningExecutionView, WarningStage, WarningStageView,
};
use crate::text::str_eq;
use vstd::prelude::*;

pub mod actions;
pub mod executor;
pub mod machine;
pub mod runs;
pub mod theorems;

verus! {

impl SwitchView {
    /// Seconds since the last check-in.
    pub open spec fn age(self, now: int) -> int {
        now - self.last_checkin
    }

    /// The instant at which the switch expires.
    pub open spec fn deadline(self) -> int {
        self.last_checkin + self.timeout_seconds
    }

    /// The deadline has been reached: the age is at least the timeout.
    pub open spec fn expired(self, now: int) -> bool {
        self.age(now) >= self.timeout_seconds
    }

    /// The age from which the stage `stage_seconds` before the deadline warns.
    pub open spec fn warning_threshold(self, stage_seconds: int) -> int {
        self.timeout_seconds - stage_seconds
    }

    /// The threshold of the stage has been reached.
    pub open spec fn warning_due(self, stage_seconds: int, now: int) -> bool {
        self.age(now) >= self.warning_threshold(stage_seconds)
    }

    /// The cap on fires leaves room for one more: there is no cap, or fewer
    /// fires than the cap have happened.
    pub open spec fn under_cap(self) -> bool {
        self.trigger_count_max == 0 || self.trigger_count_executed < self.trigger_count_max
    }

    /// A triggered switch fires again: the cap leaves room, and at least the
    /// interval has passed since the last fire.
    pub open spec fn refire_due(self, now: int) -> bool {
        &&& self.under_cap()
        &&& self.last_trigger matches Some(last)
        &&& now - last >= self.trigger_interval_seconds
    }

    /// The switch after a check-in at `now`.
    pub open spec fn checked_in(self, now: int) -> SwitchView {
        SwitchView { last_checkin: now, ..self }
    }

    /// The switch after its final actions fired for the first time at `now`.
    pub open spec fn triggered(self, now: int) -> SwitchView {
        SwitchView {
            status: SwitchStatus::Triggered,
            last_trigger: Some(now),
            trigger_count_executed: 1,
            ..self
        }
    }

    /// The switch after its final actions fired again at `now`.
    pub open spec fn refired(self, now: int) -> SwitchView {
        SwitchView {
            last_trigger: Some(now),
            trigger_count_executed: self.trigger_count_executed + 1,
            ..self
        }
    }

    /// What creation validates: a cap that is not negative and an interval
    /// of at least a second.
    pub open spec fn valid_trigger_settings(self) -> bool {
        self.trigger_count_max >= 0 && self.trigger_interval_seconds >= 1
    }

    /// Fires never exceed a cap that is set.
    pub open spec fn within_cap(self) -> bool {
        self.trigger_count_max > 0 ==> self.trigger_count_executed <= self.trigger_count_max
    }

    /// The switch after the first fire at `times[0]` and a re-fire at each
    /// later instant of `times`.
    pub open spec fn after_fires(self, times: Seq<int>) -> SwitchView
        recommends
            times.len() >= 1,
        decreases times.len(),
    {
        if times.len() <= 1 {
            self.triggered(times[0])
        } else {
            self.after_fires(times.drop_last()).refired(times.last())
        }
    }
}

impl Switch {
    /// Whether the deadline has been reached at `now`.
    pub fn is_expired(&self, now: i64) -> (r: bool)
        ensures
            r == self@.expired(now as int),
    {
        now as i128 - self.last_checkin as i128 >= self.timeout_seconds as i128
    }

    /// Whether the stage `stage_seconds` before the deadline has reached its
    /// threshold at `now`.
    pub fn warning_is_due(&self, stage_seconds: i64, now: i64) -> (r: bool)
        ensures
            r == self@.warning_due(stage_seconds as int, now as int),
    {
        now as i128 - self.last_checkin as i128 >= self.timeout_seconds as i128
            - stage_seconds as i128
    }

    /// Whether the cap on fires leaves room for one more.
    pub fn may_fire_again(&self) -> (r: bool)
        ensures
            r == self@.under_cap(),
    {
        self.trigger_count_max == 0 || self.trigger_count_executed < self.trigger_count_max
    }

    /// Whether a triggered switch fires again at `now`.
    pub fn should_refire(&self, now: i64) -> (r: bool)
        ensures
            r == self@.refire_due(now as int),
    {
        if !self.may_fire_again() {
            return false;
        }
        match self.last_trigger {
            Some(last) => now as i128 - last as i128 >= self.trigger_interval_seconds as i128,
            None => false,
        }
    }

    /// Records a check-in at `now`: the deadline moves, nothing else does.
    pub fn check_in(&mut self, now: i64)
        ensures
            final(self)@ == old(self)@.checked_in(now as int),
    {
        self.last_checkin = now;
    }

    /// Moves the switch to `Triggered` after its first fire at `now`.
    pub fn trigger(&mut self, now: i64)
        ensures
            final(self)@ == old(self)@.triggered(now as int),
    {
        self.status = SwitchStatus::Triggered;
        self.last_trigger = Some(now);
        self.trigger_count_executed = 1;
    }

    /// Counts one more fire at `now`.
    pub fn refire(&mut self, now: i64)
        requires
            old(self).trigger_count_executed < i64::MAX,
        ensures
            final(self)@ == old(self)@.refired(now as int),
    {
        self.last_trigger = Some(now);
        self.trigger_count_executed = self.trigger_count_executed + 1;
    }
}

/// Expiry is inclusive: a switch whose age equals its timeout has expired,
/// and one a second younger has not.
pub proof fn lemma_expiry_boundary(s: SwitchView, now: int)
    ensures
        s.age(now) == s.timeout_seconds ==> s.expired(now),
        s.age(now) == s.timeout_seconds - 1 ==> !s.expired(now),
        s.expired(now) <==> now >= s.deadline(),
{
}

/// A warning is inclusive: a stage whose threshold equals the age is due,
/// and a second earlier it is not.
pub proof fn lemma_warning_boundary(s: SwitchView, stage_seconds: int, now: int)
    ensures
        s.age(now) == s.warning_threshold(stage_seconds) ==> s.warning_due(stage_seconds, now),
        s.age(now) == s.warning_threshold(stage_seconds) - 1 ==> !s.warning_due(
            stage_seconds,
            now,
        ),
        s.warning_due(stage_seconds, now) <==> now >= s.deadline() - stage_seconds,
{
}

/// For a stage that lies inside the timeout, expiry implies that the
/// warning is due: a stage never becomes due after the deadline.
pub proof fn lemma_expired_implies_warning_due(s: SwitchView, stage_seconds: int, now: int)
    requires
        0 < stage_seconds,
        s.expired(now),
    ensures
        s.warning_due(stage_seconds, now),
{
}

/// A re-fire is inclusive in the interval: with room under the cap, it is
/// due exactly from `last_trigger + trigger_interval_seconds` on.
pub proof fn lemma_refire_boundary(s: SwitchView, last: int, now: int)
    requires
        s.under_cap(),
        s.last_trigger == Some(last),
    ensures
        now - last == s.trigger_interval_seconds ==> s.refire_due(now),
        now - last == s.trigger_interval_seconds - 1 ==> !s.refire_due(now),
        s.refire_due(now) <==> now >= last + s.trigger_interval_seconds,
{
}

/// After `n` fires in all, the first one included, the count is `n`, and
/// another fire is permitted exactly when there is no cap or `n` is below
/// it. So a cap of `N > 0` permits exactly `N` fires, and a cap of 0 any
/// number.
pub proof fn lemma_fire_cap(s: SwitchView, times: Seq<int>)
    requires
        times.len() >= 1,
    ensures
        s.after_fires(times).trigger_count_executed == times.len(),
        s.after_fires(times).trigger_count_max == s.trigger_count_max,
        s.after_fires(times).status == SwitchStatus::Triggered,
        s.after_fires(times).last_trigger == Some(times.last()),
        s.after_fires(times).under_cap() <==> (s.trigger_count_max == 0 || times.len()
            < s.trigger_count_max),
    decreases times.len(),
{
    if times.len() > 1 {
        lemma_fire_cap(s, times.drop_last());
    }
}

/// Fires stay within a cap of at least one: the first fire does, and so
/// does every re-fire that the cap permitted.
pub proof fn lemma_fires_stay_within_cap(s: SwitchView, now: int)
    requires
        s.trigger_count_max >= 0,
    ensures
        s.triggered(now).within_cap(),
        s.within_cap() && s.under_cap() ==> s.refired(now).within_cap(),
        s.within_cap() ==> s.checked_in(now).within_cap(),
{
}

/// A switch that expires at `now` does not fire again at the same instant,
/// and neither does one that has just fired again: the interval is at
/// least a second.
pub proof fn lemma_no_second_fire_in_the_same_instant(s: SwitchView, now: int)
    requires
        s.trigger_interval_seconds >= 1,
    ensures
        !s.triggered(now).refire_due(now),
        !s.refired(now).refire_due(now),
{
}

/// Two check-ins at instants that lie `delta` or more apart leave
/// `last_checkin` values that lie as far apart: each check-in records its
/// own instant, whatever was recorded before.
pub proof fn lemma_checkins_follow_the_clock(s: SwitchView, first: int, second: int, delta: int)
    requires
        second - first >= delta,
    ensures
        s.checked_in(first).last_checkin == first,
        s.checked_in(first).checked_in(second).last_checkin == second,
        s.checked_in(first).checked_in(second).last_checkin - s.checked_in(first).last_checkin
            >= delta,
{
}

/// A check-in at `now` starts a new span: a switch with a positive timeout
/// is not expired at the instant of its check-in, and expires exactly
/// `timeout_seconds` later.
pub proof fn lemma_checkin_resets_deadline(s: SwitchView, now: int)
    requires
        s.timeout_seconds > 0,
    ensures
        !s.checked_in(now).expired(now),
        s.checked_in(now).deadline() == now + s.timeout_seconds,
        s.checked_in(now).expired(now + s.timeout_seconds),
{
}

/// What a firing is for.
#[derive(Clone, Copy, Debug, PartialEq, Eq, Structural)]
pub enum FiringKind {
    /// The deadline has passed: the final actions run for the first time.
    Expiry,
    /// The stage `stage_seconds` before the deadline has been reached: the
    /// warning actions run.
    Warning { stage_seconds: i64 },
    /// The final actions run again.
    Refire,
}

/// What a firing is for, as a mathematical value.
pub enum FiringKindView {
    Expiry,
    Warning { stage_seconds: int },
    Refire,
}

impl View for FiringKind {
    type V = FiringKindView;

    open spec fn view(&self) -> FiringKindView {
        match self {
            FiringKind::Expiry => FiringKindView::Expiry,
            FiringKind::Warning { stage_seconds } => FiringKindView::Warning {
                stage_seconds: *stage_seconds as int,
            },
            FiringKind::Refire => FiringKindView::Refire,
        }
    }
}

/// One decision of a sweep: the actions to run for a switch, in order, and
/// what to record once they have run.
#[derive(Debug)]
pub struct Firing {
    pub switch_id: String,
    pub kind: FiringKind,
    pub actions: Vec<Action>,
}

/// A firing as a mathematical value.
pub struct FiringView {
    pub switch_id: Seq<char>,
    pub kind: FiringKindView,
    pub actions: Seq<ActionView>,
}

impl View for Firing {
    type V = FiringView;

    open spec fn view(&self) -> FiringView {
        FiringView { switch_id: self.switch_id@, kind: self.kind@, actions: views(self.actions@) }
    }
}

impl FiringKindView {
    /// Warning actions run as warnings, final actions as finals.
    pub open spec fn execution_type(self) -> ExecutionType {
        match self {
            FiringKindView::Warning { .. } => ExecutionType::Warning,
            _ => ExecutionType::Final,
        }
    }
}

impl Firing {
    /// The type under which the actions of the firing are audited.
    pub fn execution_type(&self) -> (r: ExecutionType)
        ensures
            r == self@.kind.execution_type(),
    {
        match self.kind {
            FiringKind::Warning { .. } => ExecutionType::Warning,
            _ => ExecutionType::Final,
        }
    }
}

/// The leads of a list of stages, in order.
pub open spec fn leads(stages: Seq<WarningStageView>) -> Seq<int> {
    stages.map_values(|s: WarningStageView| s.seconds_before_deadline)
}

/// The leads whose warning is to be sent at `now`, in the order of `leads`:
/// each lead that is due and has no marker, once.
pub open spec fn pending_leads(
    s: SwitchView,
    leads: Seq<int>,
    markers: Seq<WarningExecutionView>,
    now: int,
) -> Seq<int>
    decreases leads.len(),
{
    if leads.len() == 0 {
        Seq::empty()
    } else {
        let earlier = leads.drop_last();
        let lead = leads.last();
        let head = pending_leads(s, earlier, markers, now);
        if s.warning_due(lead, now) && !warning_sent(markers, s.id, lead) && !earlier.contains(
            lead,
        ) {
            head.push(lead)
        } else {
            head
        }
    }
}

/// The firings of a switch in the active sweep, given its stage leads, the
/// markers on record and its two lists of actions: none unless it is
/// active; its expiry if the deadline has been reached, which takes
/// precedence over every warning; otherwise one warning for each pending
/// lead.
pub open spec fn planned(
    s: SwitchView,
    stage_leads: Seq<int>,
    markers: Seq<WarningExecutionView>,
    warning_actions: Seq<ActionView>,
    final_actions: Seq<ActionView>,
    now: int,
) -> Seq<FiringView> {
    if s.status != SwitchStatus::Active {
        Seq::empty()
    } else if s.expired(now) {
        seq![FiringView { switch_id: s.id, kind: FiringKindView::Expiry, actions: final_actions }]
    } else {
        pending_leads(s, stage_leads, markers, now).map_values(
            |lead: int|
                FiringView {
                    switch_id: s.id,
                    kind: FiringKindView::Warning { stage_seconds: lead },
                    actions: warning_actions,
                },
        )
    }
}

/// The firing of a switch in the triggered sweep, given its final actions:
/// its final actions again if it is triggered and a re-fire is due.
pub open spec fn replanned(s: SwitchView, final_actions: Seq<ActionView>, now: int) -> Seq<
    FiringView,
> {
    if s.status == SwitchStatus::Triggered && s.refire_due(now) {
        seq![FiringView { switch_id: s.id, kind: FiringKindView::Refire, actions: final_actions }]
    } else {
        Seq::empty()
    }
}

/// The firings of one switch of the store in the active sweep.
pub open spec fn plan_switch(v: StoreView, s: SwitchView, now: int) -> Seq<FiringView> {
    planned(
        s,
        leads(stages_of(v.stages, s.id)),
        v.markers,
        actions_of(v.actions, s.id, true),
        actions_of(v.actions, s.id, false),
        now,
    )
}

/// The firing of one switch of the store in the triggered sweep.
pub open spec fn plan_refire(v: StoreView, s: SwitchView, now: int) -> Seq<FiringView> {
    replanned(s, actions_of(v.actions, s.id, false), now)
}

/// The firings of the first `n` switches in the active sweep.
pub open spec fn plan_active_upto(v: StoreView, n: int, now: int) -> Seq<FiringView>
    decreases n,
{
    if n <= 0 {
        Seq::empty()
    } else {
        plan_active_upto(v, n - 1, now) + plan_switch(v, v.switches[n - 1], now)
    }
}

/// The active sweep at `now`: the firings of every switch, in table order.
pub open spec fn plan_active(v: StoreView, now: int) -> Seq<FiringView> {
    plan_active_upto(v, v.switches.len() as int, now)
}

/// The firings of the first `n` switches in the triggered sweep.
pub open spec fn plan_triggered_upto(v: StoreView, n: int, now: int) -> Seq<FiringView>
    decreases n,
{
    if n <= 0 {
        Seq::empty()
    } else {
        plan_triggered_upto(v, n - 1, now) + plan_refire(v, v.switches[n - 1], now)
    }
}

/// The triggered sweep at `now`: the re-fires of every switch, in table
/// order.
pub open spec fn plan_triggered(v: StoreView, now: int) -> Seq<FiringView> {
    plan_triggered_upto(v, v.switches.len() as int, now)
}

/// The store after a firing has been recorded at `now`: an expiry triggers
/// the switch, a warning leaves its marker, a re-fire is counted.
pub open spec fn committed(v: StoreView, f: FiringView, now: int) -> StoreView {
    match f.kind {
        FiringKindView::Expiry => StoreView {
            switches: with_trigger(v.switches, f.switch_id, now),
            ..v
        },
        FiringKindView::Warning { stage_seconds } => v.with_marker(
            f.switch_id,
            stage_seconds,
            now,
        ),
        FiringKindView::Refire => StoreView {
            switches: with_refire(v.switches, f.switch_id, now),
            ..v
        },
    }
}

/// The store after every firing of `plan` has been recorded at `now`, in
/// order.
pub open spec fn committed_all(v: StoreView, plan: Seq<FiringView>, now: int) -> StoreView
    decreases plan.len(),
{
    if plan.len() == 0 {
        v
    } else {
        committed(committed_all(v, plan.drop_last(), now), plan.last(), now)
    }
}

/// Whether a marker among `markers` says that the warning of the stage
/// `stage_seconds` has been sent for the switch `id`.
pub fn marker_exists(markers: &Vec<WarningExecution>, id: &str, stage_seconds: i64) -> (r: bool)
    ensures
        r == warning_sent(views(markers@), id@, stage_seconds as int),
{
    let mut i: usize = 0;
    while i < markers.len()
        invariant
            i <= markers@.len(),
            forall|k: int|
                0 <= k < i ==> !((#[trigger] views(markers@)[k]).switch_id == id@ && views(
                    markers@,
                )[k].stage_seconds == stage_seconds as int),
        decreases markers.len() - i,
    {
        if markers[i].stage_seconds == stage_seconds && str_eq(markers[i].switch_id.as_str(), id) {
            proof {
                assert(views(markers@)[i as int].switch_id == id@);
            }
            return true;
        }
        i = i + 1;
    }
    false
}

/// The leads of `stages` whose warning is to be sent for `switch` at `now`,
/// given the markers on record.
pub fn pending_warning_stages(
    switch: &Switch,
    stages: &Vec<WarningStage>,
    markers: &Vec<WarningExecution>,
    now: i64,
) -> (r: Vec<i64>)
    ensures
        r@.map_values(|lead: i64| lead as int) == pending_leads(
            switch@,
            leads(views(stages@)),
            views(markers@),
            now as int,
        ),
{
    let ghost all = leads(views(stages@));
    let mut out: Vec<i64> = Vec::new();
    let mut i: usize = 0;
    proof {
        assert(all.take(0) =~= Seq::empty());
        assert(out@.map_values(|lead: i64| lead as int) =~= Seq::empty());
    }
    while i < stages.len()
        invariant
            i <= stages@.len(),
            all == leads(views(stages@)),
            out@.map_values(|lead: i64| lead as int) == pending_leads(
                switch@,
                all.take(i as int),
                views(markers@),
                now as int,
            ),
        decreases stages.len() - i,
    {
        let lead = stages[i].seconds_before_deadline;
        let mut seen = false;
        let mut j: usize = 0;
        while j < i
            invariant
                j <= i <= stages@.len(),
                all == leads(views(stages@)),
                lead == stages@[i as int].seconds_before_deadline,
                seen == all.take(j as int).contains(lead as int),
            decreases i - j,
        {
            proof {
                let prev = all.take(j as int);
                let next = all.take(j + 1);
                let target = lead as int;
                assert(next =~= prev.push(all[j as int]));
                if prev.contains(target) {
                    let w = choose|w: int| 0 <= w < prev.len() && prev[w] == target;
                    assert(next[w] == target);
                }
                if next.contains(target) && !prev.contains(target) {
                    let w = choose|w: int| 0 <= w < next.len() && next[w] == target;
                    if w < j {
                        assert(prev[w] == target);
                    }
                }
                if all[j as int] == target {
                    assert(next[j as int] == target);
                }
            }
            if stages[j].seconds_before_deadline == lead {
                seen = true;
            }
            j = j + 1;
        }
        proof {
            assert(all.take(i + 1).drop_last() =~= all.take(i as int));
            assert(all.take(i + 1).last() == lead as int);
        }
        if !seen && switch.warning_is_due(lead, now) && !marker_exists(
            markers,
            switch.id.as_str(),
            lead,
        ) {
            proof {
                assert(out@.push(lead).map_values(|lead: i64| lead as int) =~= out@.map_values(
                    |lead: i64| lead as int,
                ).push(lead as int));
            }
            out.push(lead);
        }
        i = i + 1;
    }
    proof {
        assert(all.take(stages@.len() as int) =~= all);
    }
    out
}

/// Copies a list of actions.
pub fn clone_actions(actions: &Vec<Action>) -> (r: Vec<Action>)
    ensures
        views(r@) == views(actions@),
{
    let mut out: Vec<Action> = Vec::new();
    let mut i: usize = 0;
    while i < actions.len()
        invariant
            i <= actions@.len(),
            out@.len() == i,
            forall|k: int| 0 <= k < i ==> (#[trigger] out@[k])@ == actions@[k]@,
        decreases actions.len() - i,
    {
        out.push(actions[i].clone());
        i = i + 1;
    }
    proof {
        assert(views(out@) =~= views(actions@));
    }
    out
}

/// Plans the firings of `switch` in the active sweep at `now`, given its
/// stages, the markers on record, and its warning and its final actions.
pub fn plan_firings(
    switch: &Switch,
    stages: &Vec<WarningStage>,
    markers: &Vec<WarningExecution>,
    warning_actions: &Vec<Action>,
    final_actions: &Vec<Action>,
    now: i64,
) -> (r: Vec<Firing>)
    ensures
        views(r@) == planned(
            switch@,
            leads(views(stages@)),
            views(markers@),
            views(warning_actions@),
            views(final_actions@),
            now as int,
        ),
{
    let ghost wanted = planned(
        switch@,
        leads(views(stages@)),
        views(markers@),
        views(warning_actions@),
        views(final_actions@),
        now as int,
    );
    let mut out: Vec<Firing> = Vec::new();
    if switch.status != SwitchStatus::Active {
        proof {
            assert(views(out@) =~= wanted);
        }
        return out;
    }
    if switch.is_expired(now) {
        out.push(
            Firing {
                switch_id: switch.id.clone(),
                kind: FiringKind::Expiry,
                actions: clone_actions(final_actions),
            },
        );
        proof {
            assert(views(out@) =~= wanted);
        }
        return out;
    }
    let pending = pending_warning_stages(switch, stages, markers, now);
    let mut i: usize = 0;
    while i < pending.len()
        invariant
            i <= pending@.len(),
            out@.len() == i,
            switch.status == SwitchStatus::Active,
            !switch@.expired(now as int),
            wanted == planned(
                switch@,
                leads(views(stages@)),
                views(markers@),
                views(warning_actions@),
                views(final_actions@),
                now as int,
            ),
            wanted.len() == pending@.len(),
            pending@.map_values(|lead: i64| lead as int) == pending_leads(
                switch@,
                leads(views(stages@)),
                views(markers@),
                now as int,
            ),
            forall|k: int| 0 <= k < i ==> (#[trigger] out@[k])@ == wanted[k],
        decreases pending.len() - i,
    {
        let lead = pending[i];
        proof {
            assert(pending@.map_values(|lead: i64| lead as int)[i as int] == lead as int);
        }
        out.push(
            Firing {
                switch_id: switch.id.clone(),
                kind: FiringKind::Warning { stage_seconds: lead },
                actions: clone_actions(warning_actions),
            },
        );
        i = i + 1;
    }
    proof {
        assert(views(out@) =~= wanted);
    }
    out
}

/// Plans the firing of `switch` in the triggered sweep at `now`, given its
/// final actions.
pub fn plan_refiring(switch: &Switch, final_actions: &Vec<Action>, now: i64) -> (r: Vec<Firing>)
    ensures
        views(r@) == replanned(switch@, views(final_actions@), now as int),
{
    let mut out: Vec<Firing> = Vec::new();
    if switch.status == SwitchStatus::Triggered && switch.should_refire(now) {
        out.push(
            Firing {
                switch_id: switch.id.clone(),
                kind: FiringKind::Refire,
                actions: clone_actions(final_actions),
            },
        );
    }
    proof {
        assert(views(out@) =~= replanned(switch@, views(final_actions@), now as int));
    }
    out
}

/// Plans the firings of `switch` in the active sweep at `now` from what
/// the store holds for it.
pub fn plan_for_switch(store: &Store, switch: &Switch, now: i64) -> (r: Vec<Firing>)
    ensures
        views(r@) == plan_switch(store@, switch@, now as int),
{
    let stages = db::get_warning_stages_for_switch(store, switch.id.as_str());
    let markers = db::list_warning_executions(store);
    let warning_actions = db::get_actions_for_switch(store, switch.id.as_str(), true);
    let final_actions = db::get_actions_for_switch(store, switch.id.as_str(), false);
    plan_firings(switch, &stages, &markers, &warning_actions, &final_actions, now)
}

/// Plans the active sweep at `now`: for every active switch, its expiry or
/// its pending warnings.
pub fn plan_active_sweep(store: &Store, now: i64) -> (r: Vec<Firing>)
    ensures
        views(r@) == plan_active(store@, now as int),
{
    let switches = db::list_switches(store);
    let mut out: Vec<Firing> = Vec::new();
    let mut i: usize = 0;
    proof {
        assert(views(out@) =~= plan_active_upto(store@, 0, now as int));
    }
    while i < switches.len()
        invariant
            i <= switches@.len(),
            views(switches@) == store@.switches,
            views(out@) == plan_active_upto(store@, i as int, now as int),
        decreases switches.len() - i,
    {
        let mut firings = plan_for_switch(store, &switches[i], now);
        proof {
            assert(views(switches@)[i as int] == switches@[i as int]@);
            assert(views(out@ + firings@) =~= views(out@) + views(firings@));
        }
        out.append(&mut firings);
        i = i + 1;
    }
    out
}

/// Plans the triggered sweep at `now`: for every triggered switch whose
/// re-fire is due, its final actions.
pub fn plan_triggered_sweep(store: &Store, now: i64) -> (r: Vec<Firing>)
    ensures
        views(r@) == plan_triggered(store@, now as int),
{
    let switches = db::list_switches(store);
    let mut out: Vec<Firing> = Vec::new();
    let mut i: usize = 0;
    proof {
        assert(views(out@) =~= plan_triggered_upto(store@, 0, now as int));
    }
    while i < switches.len()
        invariant
            i <= switches@.len(),
            views(switches@) == store@.switches,
            views(out@) == plan_triggered_upto(store@, i as int, now as int),
        decreases switches.len() - i,
    {
        let switch = &switches[i];
        let final_actions = db::get_actions_for_switch(store, switch.id.as_str(), false);
        let mut firings = plan_refiring(switch, &final_actions, now);
        proof {
            assert(views(switches@)[i as int] == switch@);
            assert(views(out@ + firings@) =~= views(out@) + views(firings@));
        }
        out.append(&mut firings);
        i = i + 1;
    }
    out
}

/// Why the store cannot record `f`, if it cannot: a warning needs its
/// switch and a marker identifier, a re-fire a count that can grow.
pub open spec fn commit_refusal(v: StoreView, f: FiringView) -> Option<StoreError> {
    match f.kind {
        FiringKindView::Expiry => None,
        FiringKindView::Warning { .. } => v.row_refusal(f.switch_id, v.next_marker_id),
        FiringKindView::Refire => if v.can_count_fire(f.switch_id) {
            None
        } else {
            Some(StoreError::Exhausted)
        },
    }
}

/// Whether the store can record `f`.
pub open spec fn can_commit(v: StoreView, f: FiringView) -> bool {
    commit_refusal(v, f) is None
}

/// Records that `firing` has run at `now`. Where the store cannot record
/// it, nothing changes.
pub fn commit(store: &mut Store, firing: &Firing, now: i64) -> (r: Result<(), StoreError>)
    ensures
        match r {
            Ok(_) => can_commit(old(store)@, firing@) && final(store)@ == committed(
                old(store)@,
                firing@,
                now as int,
            ),
            Err(e) => commit_refusal(old(store)@, firing@) == Some(e)
                && final(store)@ == old(store)@,
        },
{
    match firing.kind {
        FiringKind::Expiry => {
            db::mark_switch_triggered(store, firing.switch_id.as_str(), now);
            Ok(())
        },
        FiringKind::Warning { stage_seconds } => db::record_warning_execution(
            store,
            firing.switch_id.as_str(),
            stage_seconds,
            now,
        ),
        FiringKind::Refire => db::update_trigger_execution(store, firing.switch_id.as_str(), now),
    }
}

} // verus!
