//! What holds of whole sweeps: a sweep never marks a warning twice, and a
//! sweep repeated at the same instant finds nothing left to do.

use crate::db::{actions_of, stages_of, warning_sent, StoreView};
use crate::models::{SwitchStatus, SwitchView, WarningExecutionView};
use crate::watchdog::machine::{reacted, CommandView, EventView, WatchdogView};
use crate::watchdog::{
    committed_all, leads, pending_leads, plan_active, plan_active_upto, plan_refire, plan_switch,
    plan_triggered, plan_triggered_upto, FiringKindView, FiringView,
};
use vstd::prelude::*;

verus! {

/// No two markers speak of the same stage of the same switch.
pub open spec fn markers_unique(markers: Seq<WarningExecutionView>) -> bool {
    forall|i: int, j: int|
        0 <= i < j < markers.len() ==> !(markers[i].switch_id == markers[j].switch_id
            && markers[i].stage_seconds == markers[j].stage_seconds)
}

/// The plan holds a warning of the stage `lead` for the switch `id`.
pub open spec fn plans_warning(plan: Seq<FiringView>, id: Seq<char>, lead: int) -> bool {
    exists|a: int|
        0 <= a < plan.len() && (#[trigger] plan[a]).switch_id == id && plan[a].kind
            == (FiringKindView::Warning { stage_seconds: lead })
}

/// The plan holds the expiry of the switch `id`.
pub open spec fn plans_expiry(plan: Seq<FiringView>, id: Seq<char>) -> bool {
    exists|a: int|
        0 <= a < plan.len() && (#[trigger] plan[a]).switch_id == id && plan[a].kind
            == FiringKindView::Expiry
}

/// The plan holds the re-fire of the switch `id`.
pub open spec fn plans_refire(plan: Seq<FiringView>, id: Seq<char>) -> bool {
    exists|a: int|
        0 <= a < plan.len() && (#[trigger] plan[a]).switch_id == id && plan[a].kind
            == FiringKindView::Refire
}

/// A pending lead is one of the leads, is due, and has no marker.
pub proof fn lemma_pending_sound(
    s: SwitchView,
    all: Seq<int>,
    markers: Seq<WarningExecutionView>,
    now: int,
    lead: int,
)
    requires
        pending_leads(s, all, markers, now).contains(lead),
    ensures
        all.contains(lead),
        s.warning_due(lead, now),
        !warning_sent(markers, s.id, lead),
    decreases all.len(),
{
    if all.len() > 0 {
        let earlier = all.drop_last();
        let head = pending_leads(s, earlier, markers, now);
        let pending = pending_leads(s, all, markers, now);
        let k = choose|k: int| 0 <= k < pending.len() && pending[k] == lead;
        if k < head.len() {
            assert(head[k] == lead);
            lemma_pending_sound(s, earlier, markers, now, lead);
            let w = choose|w: int| 0 <= w < earlier.len() && earlier[w] == lead;
            assert(all[w] == lead);
        } else {
            assert(lead == all.last());
            assert(all[all.len() - 1] == lead);
        }
    }
}

/// No lead is pending twice.
pub proof fn lemma_pending_distinct(
    s: SwitchView,
    all: Seq<int>,
    markers: Seq<WarningExecutionView>,
    now: int,
    a: int,
    b: int,
)
    requires
        0 <= a < b < pending_leads(s, all, markers, now).len(),
    ensures
        pending_leads(s, all, markers, now)[a] != pending_leads(s, all, markers, now)[b],
    decreases all.len(),
{
    if all.len() > 0 {
        let earlier = all.drop_last();
        let head = pending_leads(s, earlier, markers, now);
        if b < head.len() {
            lemma_pending_distinct(s, earlier, markers, now, a, b);
        } else {
            assert(head[a] == pending_leads(s, all, markers, now)[a]);
            assert(head.contains(head[a]));
            lemma_pending_sound(s, earlier, markers, now, head[a]);
        }
    }
}

/// Every lead that is due and has no marker is pending.
pub proof fn lemma_pending_complete(
    s: SwitchView,
    all: Seq<int>,
    markers: Seq<WarningExecutionView>,
    now: int,
    lead: int,
)
    requires
        all.contains(lead),
        s.warning_due(lead, now),
        !warning_sent(markers, s.id, lead),
    ensures
        pending_leads(s, all, markers, now).contains(lead),
    decreases all.len(),
{
    let earlier = all.drop_last();
    let head = pending_leads(s, earlier, markers, now);
    let pending = pending_leads(s, all, markers, now);
    if earlier.contains(lead) {
        lemma_pending_complete(s, earlier, markers, now, lead);
        let k = choose|k: int| 0 <= k < head.len() && head[k] == lead;
        assert(pending[k] == lead);
    } else {
        let w = choose|w: int| 0 <= w < all.len() && all[w] == lead;
        if w < all.len() - 1 {
            assert(earlier[w] == lead);
        }
        assert(all.last() == lead);
        assert(pending[pending.len() - 1] == lead);
    }
}

/// Where every lead that is due has a marker, none is pending.
pub proof fn lemma_pending_empty(
    s: SwitchView,
    all: Seq<int>,
    markers: Seq<WarningExecutionView>,
    now: int,
)
    requires
        forall|lead: int|
            #[trigger] all.contains(lead) && s.warning_due(lead, now) ==> warning_sent(
                markers,
                s.id,
                lead,
            ),
    ensures
        pending_leads(s, all, markers, now).len() == 0,
    decreases all.len(),
{
    if all.len() > 0 {
        let earlier = all.drop_last();
        assert forall|lead: int| #[trigger]
            earlier.contains(lead) && s.warning_due(lead, now) implies warning_sent(
            markers,
            s.id,
            lead,
        ) by {
            let w = choose|w: int| 0 <= w < earlier.len() && earlier[w] == lead;
            assert(all[w] == lead);
            assert(all.contains(lead));
        }
        lemma_pending_empty(s, earlier, markers, now);
        assert(all[all.len() - 1] == all.last());
        assert(all.contains(all.last()));
    }
}

/// A firing planned for a switch names that switch, which is active; an
/// expiry is planned only past the deadline, a warning only before it, for
/// a lead that is due and has no marker; the active sweep plans no re-fire.
pub proof fn lemma_plan_switch_sound(v: StoreView, s: SwitchView, now: int, f: FiringView)
    requires
        plan_switch(v, s, now).contains(f),
    ensures
        f.switch_id == s.id,
        s.status == SwitchStatus::Active,
        f.kind !is Refire,
        f.kind is Expiry ==> s.expired(now),
        f.kind matches FiringKindView::Warning { stage_seconds } ==> !s.expired(now)
            && s.warning_due(stage_seconds, now) && !warning_sent(v.markers, s.id, stage_seconds)
            && leads(stages_of(v.stages, s.id)).contains(stage_seconds),
{
    let plan = plan_switch(v, s, now);
    let k = choose|k: int| 0 <= k < plan.len() && plan[k] == f;
    if s.status == SwitchStatus::Active && !s.expired(now) {
        let all = leads(stages_of(v.stages, s.id));
        let pending = pending_leads(s, all, v.markers, now);
        assert(pending.contains(pending[k]));
        lemma_pending_sound(s, all, v.markers, now, pending[k]);
    }
}

/// A firing runs the actions of its own switch and of its own kind:
/// warning actions for a warning, final actions for an expiry and for a
/// re-fire.
pub proof fn theorem_firings_run_their_own_actions(
    v: StoreView,
    s: SwitchView,
    now: int,
    f: FiringView,
    k: int,
)
    requires
        plan_switch(v, s, now).contains(f) || plan_refire(v, s, now).contains(f),
        0 <= k < f.actions.len(),
    ensures
        f.actions == actions_of(v.actions, s.id, f.kind is Warning),
        f.actions[k].switch_id == f.switch_id,
        f.actions[k].is_warning == (f.kind is Warning),
        v.actions.contains(f.actions[k]),
{
    if plan_switch(v, s, now).contains(f) {
        let plan = plan_switch(v, s, now);
        let at = choose|at: int| 0 <= at < plan.len() && plan[at] == f;
        assert(plan[at] == f);
    } else {
        let plan = plan_refire(v, s, now);
        let at = choose|at: int| 0 <= at < plan.len() && plan[at] == f;
        assert(plan[at] == f);
    }
    let wanted = f.kind is Warning;
    let pred = |a: crate::models::ActionView| a.switch_id == s.id && a.is_warning == wanted;
    let origin = crate::db::lemma_filter_embeds(v.actions, pred);
    assert(f.actions[k] == v.actions[origin[k]]);
}

/// The switches of the store after a plan has been recorded: the tables
/// that a firing does not write stay as they are.
pub proof fn lemma_commit_frame(v: StoreView, plan: Seq<FiringView>, now: int)
    ensures
        committed_all(v, plan, now).stages == v.stages,
        committed_all(v, plan, now).actions == v.actions,
        committed_all(v, plan, now).executions == v.executions,
        committed_all(v, plan, now).switches.len() == v.switches.len(),
        committed_all(v, plan, now).markers.len() >= v.markers.len(),
        forall|i: int|
            0 <= i < v.switches.len() ==> (#[trigger] committed_all(v, plan, now).switches[i]).id
                == v.switches[i].id,
    decreases plan.len(),
{
    if plan.len() > 0 {
        lemma_commit_frame(v, plan.drop_last(), now);
    }
}

/// A switch after a plan without re-fires has been recorded: triggered if
/// the plan holds its expiry, unchanged otherwise.
pub proof fn lemma_commit_switch(v: StoreView, plan: Seq<FiringView>, now: int, i: int)
    requires
        0 <= i < v.switches.len(),
        forall|a: int| 0 <= a < plan.len() ==> (#[trigger] plan[a]).kind !is Refire,
    ensures
        committed_all(v, plan, now).switches.len() == v.switches.len(),
        committed_all(v, plan, now).switches[i] == if plans_expiry(plan, v.switches[i].id) {
            v.switches[i].triggered(now)
        } else {
            v.switches[i]
        },
    decreases plan.len(),
{
    lemma_commit_frame(v, plan, now);
    if plan.len() > 0 {
        let earlier = plan.drop_last();
        let f = plan.last();
        assert forall|a: int| 0 <= a < earlier.len() implies (#[trigger] earlier[a]).kind
            !is Refire by {
            assert(earlier[a] == plan[a]);
        }
        lemma_commit_switch(v, earlier, now, i);
        lemma_commit_frame(v, earlier, now);
        let id = v.switches[i].id;
        assert(plan[plan.len() - 1] == f);
        if plans_expiry(earlier, id) {
            let a = choose|a: int|
                0 <= a < earlier.len() && (#[trigger] earlier[a]).switch_id == id
                    && earlier[a].kind == FiringKindView::Expiry;
            assert(plan[a] == earlier[a]);
            assert(plans_expiry(plan, id));
        }
        if plans_expiry(plan, id) && !plans_expiry(earlier, id) {
            let a = choose|a: int|
                0 <= a < plan.len() && (#[trigger] plan[a]).switch_id == id && plan[a].kind
                    == FiringKindView::Expiry;
            if a < earlier.len() {
                assert(earlier[a] == plan[a]);
            }
            assert(f.switch_id == id && f.kind == FiringKindView::Expiry);
        }
        if f.switch_id == id && f.kind == FiringKindView::Expiry {
            assert(plans_expiry(plan, id));
        }
    }
}

/// The markers after a plan has been recorded speak of a stage of a switch
/// exactly when the markers before did, or the plan holds its warning.
proof fn lemma_commit_markers(
    v: StoreView,
    plan: Seq<FiringView>,
    now: int,
    id: Seq<char>,
    lead: int,
)
    ensures
        warning_sent(committed_all(v, plan, now).markers, id, lead) <==> warning_sent(
            v.markers,
            id,
            lead,
        ) || plans_warning(plan, id, lead),
    decreases plan.len(),
{
    if plan.len() > 0 {
        let earlier = plan.drop_last();
        let f = plan.last();
        let mid = committed_all(v, earlier, now);
        let after = committed_all(v, plan, now);
        lemma_commit_markers(v, earlier, now, id, lead);
        assert(plan[plan.len() - 1] == f);
        let hit = f.switch_id == id && f.kind == (FiringKindView::Warning { stage_seconds: lead });
        // The plan holds the warning exactly when the earlier part does or the last firing is it.
        if plans_warning(earlier, id, lead) {
            let a = choose|a: int|
                0 <= a < earlier.len() && (#[trigger] earlier[a]).switch_id == id
                    && earlier[a].kind == (FiringKindView::Warning { stage_seconds: lead });
            assert(plan[a] == earlier[a]);
        }
        if plans_warning(plan, id, lead) && !hit {
            let a = choose|a: int|
                0 <= a < plan.len() && (#[trigger] plan[a]).switch_id == id && plan[a].kind
                    == (FiringKindView::Warning { stage_seconds: lead });
            assert(earlier[a] == plan[a]);
        }
        // The markers speak of the stage exactly when those before did or the last firing added it.
        if warning_sent(mid.markers, id, lead) {
            let w = choose|w: int|
                0 <= w < mid.markers.len() && (#[trigger] mid.markers[w]).switch_id == id
                    && mid.markers[w].stage_seconds == lead;
            assert(after.markers[w] == mid.markers[w]);
        }
        if hit {
            assert(after.markers[after.markers.len() - 1].switch_id == id);
        }
        if warning_sent(after.markers, id, lead) && !warning_sent(mid.markers, id, lead) {
            let w = choose|w: int|
                0 <= w < after.markers.len() && (#[trigger] after.markers[w]).switch_id == id
                    && after.markers[w].stage_seconds == lead;
            if w < mid.markers.len() {
                assert(mid.markers[w] == after.markers[w]);
            }
        }
    }
}

/// A plan is fresh against the markers on record when none of its warnings
/// has a marker yet and no two of its firings are the same warning.
pub open spec fn plan_fresh(markers: Seq<WarningExecutionView>, plan: Seq<FiringView>) -> bool {
    &&& forall|a: int|
        0 <= a < plan.len() ==> ((#[trigger] plan[a]).kind matches FiringKindView::Warning {
            stage_seconds,
        } ==> !warning_sent(markers, plan[a].switch_id, stage_seconds))
    &&& forall|a: int, b: int|
        0 <= a < b < plan.len() && plan[a].kind is Warning ==> !(plan[a].switch_id
            == plan[b].switch_id && plan[a].kind == plan[b].kind)
}

/// Recording a fresh plan keeps the markers unique.
pub proof fn lemma_fresh_plan_keeps_markers_unique(v: StoreView, plan: Seq<FiringView>, now: int)
    requires
        markers_unique(v.markers),
        plan_fresh(v.markers, plan),
    ensures
        markers_unique(committed_all(v, plan, now).markers),
    decreases plan.len(),
{
    if plan.len() > 0 {
        let earlier = plan.drop_last();
        let f = plan.last();
        let mid = committed_all(v, earlier, now);
        let after = committed_all(v, plan, now);
        assert forall|a: int| 0 <= a < earlier.len() implies (
        (#[trigger] earlier[a]).kind matches FiringKindView::Warning { stage_seconds }
            ==> !warning_sent(v.markers, earlier[a].switch_id, stage_seconds)) by {
            assert(earlier[a] == plan[a]);
        }
        assert forall|a: int, b: int|
            0 <= a < b < earlier.len() && earlier[a].kind is Warning implies !(
            earlier[a].switch_id == earlier[b].switch_id && earlier[a].kind == earlier[b].kind) by {
            assert(earlier[a] == plan[a]);
            assert(earlier[b] == plan[b]);
        }
        lemma_fresh_plan_keeps_markers_unique(v, earlier, now);
        assert(plan[plan.len() - 1] == f);
        match f.kind {
            FiringKindView::Warning { stage_seconds } => {
                lemma_commit_markers(v, earlier, now, f.switch_id, stage_seconds);
                if plans_warning(earlier, f.switch_id, stage_seconds) {
                    let a = choose|a: int|
                        0 <= a < earlier.len() && (#[trigger] earlier[a]).switch_id == f.switch_id
                            && earlier[a].kind == (FiringKindView::Warning { stage_seconds });
                    assert(plan[a] == earlier[a]);
                    assert(false);
                }
                assert(!warning_sent(mid.markers, f.switch_id, stage_seconds));
                assert forall|i: int, j: int| 0 <= i < j < after.markers.len() implies !(
                after.markers[i].switch_id == after.markers[j].switch_id
                    && after.markers[i].stage_seconds == after.markers[j].stage_seconds) by {
                    assert(after.markers[i] == mid.markers[i]);
                    if j < mid.markers.len() {
                        assert(after.markers[j] == mid.markers[j]);
                    }
                }
            },
            _ => {},
        }
    }
}

/// Every firing of the active sweep over the first `n` switches was planned
/// for one of them: the result is the place of such a switch.
proof fn lemma_plan_sourced(v: StoreView, n: int, now: int, a: int) -> (i: int)
    requires
        0 <= n <= v.switches.len(),
        0 <= a < plan_active_upto(v, n, now).len(),
    ensures
        0 <= i < n,
        plan_switch(v, v.switches[i], now).contains(plan_active_upto(v, n, now)[a]),
    decreases n,
{
    let head = plan_active_upto(v, n - 1, now);
    let block = plan_switch(v, v.switches[n - 1], now);
    if a < head.len() {
        lemma_plan_sourced(v, n - 1, now, a)
    } else {
        assert(block[a - head.len()] == plan_active_upto(v, n, now)[a]);
        n - 1
    }
}

/// Every firing planned for one of the first `n` switches is part of the
/// active sweep over them.
proof fn lemma_plan_covers(v: StoreView, n: int, now: int, i: int, f: FiringView)
    requires
        0 <= i < n <= v.switches.len(),
        plan_switch(v, v.switches[i], now).contains(f),
    ensures
        plan_active_upto(v, n, now).contains(f),
    decreases n,
{
    let head = plan_active_upto(v, n - 1, now);
    let block = plan_switch(v, v.switches[n - 1], now);
    let plan = plan_active_upto(v, n, now);
    if i < n - 1 {
        lemma_plan_covers(v, n - 1, now, i, f);
        let k = choose|k: int| 0 <= k < head.len() && head[k] == f;
        assert(plan[k] == f);
    } else {
        let k = choose|k: int| 0 <= k < block.len() && block[k] == f;
        assert(plan[head.len() + k] == f);
    }
}

/// The active sweep plans no re-fire, no warning that has a marker, and no
/// warning twice.
pub proof fn lemma_plan_active_fresh(v: StoreView, n: int, now: int)
    requires
        v.switch_ids_unique(),
        0 <= n <= v.switches.len(),
    ensures
        plan_fresh(v.markers, plan_active_upto(v, n, now)),
        forall|a: int|
            0 <= a < plan_active_upto(v, n, now).len() ==> (#[trigger] plan_active_upto(
                v,
                n,
                now,
            )[a]).kind !is Refire,
    decreases n,
{
    let plan = plan_active_upto(v, n, now);
    assert forall|a: int| 0 <= a < plan.len() implies (#[trigger] plan[a]).kind !is Refire && (
    plan[a].kind matches FiringKindView::Warning { stage_seconds } ==> !warning_sent(
        v.markers,
        plan[a].switch_id,
        stage_seconds,
    )) by {
        let i = lemma_plan_sourced(v, n, now, a);
        lemma_plan_switch_sound(v, v.switches[i], now, plan[a]);
    }
    if n > 0 {
        lemma_plan_active_fresh(v, n - 1, now);
        let head = plan_active_upto(v, n - 1, now);
        let s = v.switches[n - 1];
        let block = plan_switch(v, s, now);
        assert forall|a: int, b: int|
            0 <= a < b < plan.len() && plan[a].kind is Warning implies !(plan[a].switch_id
            == plan[b].switch_id && plan[a].kind == plan[b].kind) by {
            if b < head.len() {
                assert(plan[a] == head[a]);
                assert(plan[b] == head[b]);
            } else if a >= head.len() {
                let x = a - head.len();
                let y = b - head.len();
                assert(plan[a] == block[x]);
                assert(plan[b] == block[y]);
                if s.status == SwitchStatus::Active && !s.expired(now) {
                    lemma_pending_distinct(
                        s,
                        leads(stages_of(v.stages, s.id)),
                        v.markers,
                        now,
                        x,
                        y,
                    );
                }
            } else {
                let i = lemma_plan_sourced(v, n - 1, now, a);
                assert(plan[a] == head[a]);
                lemma_plan_switch_sound(v, v.switches[i], now, plan[a]);
                assert(plan[b] == block[b - head.len()]);
                assert(block.contains(plan[b]));
                lemma_plan_switch_sound(v, s, now, plan[b]);
            }
        }
    }
}

/// Across any active sweep, at most one marker exists for a stage of a
/// switch: where the markers were unique before the sweep has recorded its
/// firings, they are unique after. Check-ins write no marker, so this holds
/// over the whole span from a check-in to the deadline, sweep after sweep.
pub proof fn theorem_active_sweep_marks_once(v: StoreView, now: int)
    requires
        v.wf(),
        markers_unique(v.markers),
    ensures
        markers_unique(committed_all(v, plan_active(v, now), now).markers),
{
    lemma_plan_active_fresh(v, v.switches.len() as int, now);
    lemma_fresh_plan_keeps_markers_unique(v, plan_active(v, now), now);
}

/// After the active sweep at `now` has recorded its firings, the active
/// sweep over the first `n` switches at `now` plans nothing.
proof fn lemma_settled_upto(v: StoreView, now: int, n: int)
    requires
        v.wf(),
        0 <= n <= v.switches.len(),
    ensures
        plan_active_upto(committed_all(v, plan_active(v, now), now), n, now).len() == 0,
    decreases n,
{
    if n > 0 {
        lemma_settled_upto(v, now, n - 1);
        let len = v.switches.len() as int;
        let plan = plan_active(v, now);
        let w = committed_all(v, plan, now);
        let i = n - 1;
        let s = v.switches[i];
        lemma_plan_active_fresh(v, len, now);
        lemma_commit_frame(v, plan, now);
        lemma_commit_switch(v, plan, now, i);
        if s.status == SwitchStatus::Active && s.expired(now) {
            let f = plan_switch(v, s, now)[0];
            assert(plan_switch(v, s, now).contains(f));
            lemma_plan_covers(v, len, now, i, f);
            let k = choose|k: int| 0 <= k < plan.len() && plan[k] == f;
            assert(plan[k].switch_id == s.id);
            assert(plans_expiry(plan, s.id));
        } else if s.status == SwitchStatus::Active {
            if plans_expiry(plan, s.id) {
                let a = choose|a: int|
                    0 <= a < plan.len() && (#[trigger] plan[a]).switch_id == s.id && plan[a].kind
                        == FiringKindView::Expiry;
                let j = lemma_plan_sourced(v, len, now, a);
                lemma_plan_switch_sound(v, v.switches[j], now, plan[a]);
                assert(false);
            }
            let all = leads(stages_of(v.stages, s.id));
            assert forall|lead: int| #[trigger]
                all.contains(lead) && s.warning_due(lead, now) implies warning_sent(
                w.markers,
                s.id,
                lead,
            ) by {
                lemma_commit_markers(v, plan, now, s.id, lead);
                if !warning_sent(v.markers, s.id, lead) {
                    lemma_pending_complete(s, all, v.markers, now, lead);
                    let pending = pending_leads(s, all, v.markers, now);
                    let k = choose|k: int| 0 <= k < pending.len() && pending[k] == lead;
                    let f = plan_switch(v, s, now)[k];
                    assert(plan_switch(v, s, now).contains(f));
                    lemma_plan_covers(v, len, now, i, f);
                    let a = choose|a: int| 0 <= a < plan.len() && plan[a] == f;
                    assert(plan[a].switch_id == s.id);
                    assert(plans_warning(plan, s.id, lead));
                }
            }
            lemma_pending_empty(s, all, w.markers, now);
        }
    }
}

/// The active sweep run twice in succession, without the clock or the
/// store moving in between, does nothing the second time: once the first
/// sweep has recorded its firings, the sweep at the same instant plans no
/// firing, so it starts no action and writes no marker.
pub proof fn theorem_active_sweep_settles(v: StoreView, now: int)
    requires
        v.wf(),
    ensures
        plan_active(committed_all(v, plan_active(v, now), now), now) == Seq::<FiringView>::empty(),
        committed_all(
            committed_all(v, plan_active(v, now), now),
            plan_active(committed_all(v, plan_active(v, now), now), now),
            now,
        ) == committed_all(v, plan_active(v, now), now),
{
    let w = committed_all(v, plan_active(v, now), now);
    lemma_commit_frame(v, plan_active(v, now), now);
    lemma_settled_upto(v, now, v.switches.len() as int);
    assert(plan_active(w, now) =~= Seq::<FiringView>::empty());
}

/// A switch after the triggered sweep over the first `n` switches has
/// recorded its firings: counted once more if it is among them and its
/// re-fire was due, unchanged otherwise.
pub proof fn lemma_refire_commit(v: StoreView, now: int, n: int, i: int)
    requires
        v.switch_ids_unique(),
        0 <= n <= v.switches.len(),
        0 <= i < v.switches.len(),
    ensures
        committed_all(v, plan_triggered_upto(v, n, now), now).switches.len() == v.switches.len(),
        committed_all(v, plan_triggered_upto(v, n, now), now).markers == v.markers,
        committed_all(v, plan_triggered_upto(v, n, now), now).next_marker_id == v.next_marker_id,
        committed_all(v, plan_triggered_upto(v, n, now), now).switches[i] == if i < n
            && v.switches[i].status == SwitchStatus::Triggered && v.switches[i].refire_due(now) {
            v.switches[i].refired(now)
        } else {
            v.switches[i]
        },
    decreases n,
{
    if n > 0 {
        lemma_refire_commit(v, now, n - 1, i);
        lemma_refire_commit(v, now, n - 1, n - 1);
        let head = plan_triggered_upto(v, n - 1, now);
        let s = v.switches[n - 1];
        let block = plan_refire(v, s, now);
        let plan = plan_triggered_upto(v, n, now);
        if block.len() == 0 {
            assert(plan =~= head);
        } else {
            assert(plan.drop_last() =~= head);
            assert(plan.last() == block[0]);
            lemma_commit_frame(v, head, now);
        }
    }
}

/// The triggered sweep run twice in succession, without the clock or the
/// store moving in between, does nothing the second time: a switch that
/// has just fired again waits for its interval, which is at least a second.
pub proof fn theorem_triggered_sweep_settles(v: StoreView, now: int)
    requires
        v.wf(),
        forall|i: int|
            0 <= i < v.switches.len() ==> (#[trigger] v.switches[i]).trigger_interval_seconds >= 1,
    ensures
        plan_triggered(committed_all(v, plan_triggered(v, now), now), now) == Seq::<
            FiringView,
        >::empty(),
{
    lemma_triggered_sweep_settles(v, now);
}

proof fn lemma_triggered_sweep_settles(v: StoreView, now: int)
    requires
        v.switch_ids_unique(),
        forall|i: int|
            0 <= i < v.switches.len() ==> (#[trigger] v.switches[i]).trigger_interval_seconds >= 1,
    ensures
        plan_triggered(committed_all(v, plan_triggered(v, now), now), now) == Seq::<
            FiringView,
        >::empty(),
{
    let len = v.switches.len() as int;
    let w = committed_all(v, plan_triggered(v, now), now);
    lemma_commit_frame(v, plan_triggered(v, now), now);
    lemma_no_refire_upto(v, w, now, len);
    assert(plan_triggered(w, now) =~= Seq::<FiringView>::empty());
}

/// Where no switch of `w` among the first `n` is triggered with a re-fire
/// due, the triggered sweep over them plans nothing.
proof fn lemma_quiet_upto(w: StoreView, now: int, n: int)
    requires
        0 <= n <= w.switches.len(),
        forall|i: int|
            0 <= i < n ==> !((#[trigger] w.switches[i]).status == SwitchStatus::Triggered
                && w.switches[i].refire_due(now)),
    ensures
        plan_triggered_upto(w, n, now).len() == 0,
    decreases n,
{
    if n > 0 {
        lemma_quiet_upto(w, now, n - 1);
        assert(!(w.switches[n - 1].status == SwitchStatus::Triggered && w.switches[n
            - 1].refire_due(now)));
    }
}

proof fn lemma_no_refire_upto(v: StoreView, w: StoreView, now: int, n: int)
    requires
        v.switch_ids_unique(),
        w == committed_all(v, plan_triggered(v, now), now),
        0 <= n <= v.switches.len(),
        forall|i: int|
            0 <= i < v.switches.len() ==> (#[trigger] v.switches[i]).trigger_interval_seconds >= 1,
    ensures
        plan_triggered_upto(w, n, now).len() == 0,
{
    let len = v.switches.len() as int;
    lemma_commit_frame(v, plan_triggered(v, now), now);
    assert forall|i: int| 0 <= i < n implies !((#[trigger] w.switches[i]).status
        == SwitchStatus::Triggered && w.switches[i].refire_due(now)) by {
        lemma_refire_commit(v, now, len, i);
        assert(v.switches[i].trigger_interval_seconds >= 1);
    }
    lemma_quiet_upto(w, now, n);
}

/// A switch that expires in the active sweep at `now` is not fired again by
/// the triggered sweep that follows at the same instant; nor is any switch
/// that was active before the sweep.
pub proof fn theorem_no_refire_in_the_tick_of_expiry(v: StoreView, now: int, i: int)
    requires
        v.wf(),
        0 <= i < v.switches.len(),
        v.switches[i].status == SwitchStatus::Active,
        v.switches[i].trigger_interval_seconds >= 1,
    ensures
        !plans_refire(
            plan_triggered(committed_all(v, plan_active(v, now), now), now),
            v.switches[i].id,
        ),
{
    let len = v.switches.len() as int;
    let plan = plan_active(v, now);
    let w = committed_all(v, plan, now);
    let later = plan_triggered(w, now);
    lemma_plan_active_fresh(v, len, now);
    lemma_commit_frame(v, plan, now);
    lemma_commit_switch(v, plan, now, i);
    if plans_refire(later, v.switches[i].id) {
        let a = choose|a: int|
            0 <= a < later.len() && (#[trigger] later[a]).switch_id == v.switches[i].id
                && later[a].kind == FiringKindView::Refire;
        let j = lemma_refire_sourced(w, len, now, a);
        assert(w.switches[j].id == v.switches[j].id);
        assert(j == i);
        assert(false);
    }
}

/// Every firing of the triggered sweep over the first `n` switches is the
/// re-fire of one of them: the result is the place of such a switch.
proof fn lemma_refire_sourced(w: StoreView, n: int, now: int, a: int) -> (j: int)
    requires
        0 <= n <= w.switches.len(),
        0 <= a < plan_triggered_upto(w, n, now).len(),
    ensures
        0 <= j < n,
        w.switches[j].status == SwitchStatus::Triggered,
        w.switches[j].refire_due(now),
        plan_triggered_upto(w, n, now)[a].switch_id == w.switches[j].id,
    decreases n,
{
    let head = plan_triggered_upto(w, n - 1, now);
    if a < head.len() {
        lemma_refire_sourced(w, n - 1, now, a)
    } else {
        n - 1
    }
}

/// After the active sweep at `now` has recorded its firings, every stage
/// of an active switch whose threshold has been reached has its marker,
/// and no active switch is past its deadline.
pub proof fn theorem_active_sweep_leaves_nothing_due(v: StoreView, now: int, i: int, lead: int)
    requires
        v.wf(),
        0 <= i < v.switches.len(),
    ensures
        ({
            let w = committed_all(v, plan_active(v, now), now);
            let s = w.switches[i];
            &&& w.switches.len() == v.switches.len()
            &&& s.id == v.switches[i].id
            &&& s.status == SwitchStatus::Active ==> !s.expired(now)
            &&& s.status == SwitchStatus::Active && leads(stages_of(w.stages, s.id)).contains(lead)
                && s.warning_due(lead, now) ==> warning_sent(w.markers, s.id, lead)
        }),
{
    let len = v.switches.len() as int;
    let plan = plan_active(v, now);
    let w = committed_all(v, plan, now);
    let s = v.switches[i];
    lemma_plan_active_fresh(v, len, now);
    lemma_commit_frame(v, plan, now);
    lemma_commit_switch(v, plan, now, i);
    lemma_commit_markers(v, plan, now, s.id, lead);
    if s.status == SwitchStatus::Active && s.expired(now) {
        let f = plan_switch(v, s, now)[0];
        assert(plan_switch(v, s, now).contains(f));
        lemma_plan_covers(v, len, now, i, f);
        let k = choose|k: int| 0 <= k < plan.len() && plan[k] == f;
        assert(plan[k].switch_id == s.id);
        assert(plans_expiry(plan, s.id));
    } else if s.status == SwitchStatus::Active {
        let all = leads(stages_of(v.stages, s.id));
        if all.contains(lead) && s.warning_due(lead, now) && !warning_sent(v.markers, s.id, lead) {
            lemma_pending_complete(s, all, v.markers, now, lead);
            let pending = pending_leads(s, all, v.markers, now);
            let k = choose|k: int| 0 <= k < pending.len() && pending[k] == lead;
            let f = plan_switch(v, s, now)[k];
            assert(plan_switch(v, s, now).contains(f));
            lemma_plan_covers(v, len, now, i, f);
            let a = choose|a: int| 0 <= a < plan.len() && plan[a] == f;
            assert(plan[a].switch_id == s.id);
            assert(plans_warning(plan, s.id, lead));
        }
    }
}

/// The sweeps keep the fires of every switch within its cap: where no cap
/// is negative and no switch has fired more often than its cap allows
/// before a tick, none has after the active sweep and the triggered sweep
/// that follows it have recorded their firings.
pub proof fn theorem_sweeps_keep_fires_within_cap(v: StoreView, now: int, i: int)
    requires
        v.wf(),
        0 <= i < v.switches.len(),
        v.switches[i].trigger_count_max >= 0,
        v.switches[i].within_cap(),
    ensures
        ({
            let swept = committed_all(v, plan_active(v, now), now);
            let done = committed_all(swept, plan_triggered(swept, now), now);
            &&& swept.switches.len() == v.switches.len()
            &&& done.switches.len() == v.switches.len()
            &&& swept.switches[i].within_cap()
            &&& done.switches[i].within_cap()
            &&& done.switches[i].trigger_count_max == v.switches[i].trigger_count_max
        }),
{
    let len = v.switches.len() as int;
    let plan = plan_active(v, now);
    let swept = committed_all(v, plan, now);
    lemma_plan_active_fresh(v, len, now);
    lemma_commit_frame(v, plan, now);
    lemma_commit_switch(v, plan, now, i);
    lemma_commit_keeps_ids(v, plan, now);
    lemma_refire_commit(swept, now, len, i);
}

/// Recording a plan without re-fires leaves the identifiers of the
/// switches as they are, and so distinct.
pub proof fn lemma_commit_keeps_ids(v: StoreView, plan: Seq<FiringView>, now: int)
    requires
        v.wf(),
        forall|a: int| 0 <= a < plan.len() ==> (#[trigger] plan[a]).kind !is Refire,
    ensures
        committed_all(v, plan, now).switch_ids_unique(),
        committed_all(v, plan, now).switches.len() == v.switches.len(),
        forall|k: int|
            0 <= k < v.switches.len() ==> (#[trigger] committed_all(v, plan, now).switches[k]).id
                == v.switches[k].id,
{
    lemma_commit_frame(v, plan, now);
    let w = committed_all(v, plan, now);
    assert forall|a: int, b: int| 0 <= a < b < w.switches.len() implies w.switches[a].id
        != w.switches[b].id by {
        assert(w.switches[a].id == v.switches[a].id);
        assert(w.switches[b].id == v.switches[b].id);
    }
}

/// The store after both sweeps of the tick at `now` have recorded their
/// firings: the active sweep first, then the triggered sweep as planned on
/// what the first one left.
pub open spec fn after_tick(v: StoreView, now: int) -> StoreView {
    let swept = committed_all(v, plan_active(v, now), now);
    committed_all(swept, plan_triggered(swept, now), now)
}

/// Re-fires leave the plan of the active sweep over the first `n` switches
/// as it is: they touch only switches that are triggered.
proof fn lemma_refires_leave_active_plan(v: StoreView, now: int, at: int, n: int)
    requires
        v.switch_ids_unique(),
        0 <= n <= v.switches.len(),
    ensures
        plan_active_upto(committed_all(v, plan_triggered(v, now), now), n, at) == plan_active_upto(
            v,
            n,
            at,
        ),
    decreases n,
{
    if n > 0 {
        let len = v.switches.len() as int;
        let w = committed_all(v, plan_triggered(v, now), now);
        lemma_refires_leave_active_plan(v, now, at, n - 1);
        lemma_refire_commit(v, now, len, n - 1);
        lemma_commit_frame(v, plan_triggered(v, now), now);
        assert(plan_switch(w, w.switches[n - 1], at) =~= plan_switch(v, v.switches[n - 1], at));
    }
}

/// A tick on a store on which neither sweep plans anything changes nothing
/// and ends in the sleep before the next tick.
pub proof fn theorem_quiet_tick(v: StoreView, now: int)
    requires
        plan_active(v, now).len() == 0,
        plan_triggered(v, now).len() == 0,
    ensures
        reacted(v, WatchdogView::idle(), EventView::Tick { now }) == (
            v,
            WatchdogView::idle(),
            CommandView::Sleep { seconds: 10 },
        ),
{
    reveal_with_fuel(crate::watchdog::machine::advanced, 3);
}

/// A tick run twice in succession, without the clock or the store moving
/// in between, does nothing the second time: once both sweeps of the tick
/// at `now` have recorded their firings, the machine, told of a tick at
/// the same instant, hands out no action, leaves the store as it is, and
/// sleeps.
pub proof fn theorem_tick_settles(v: StoreView, now: int)
    requires
        v.wf(),
        forall|i: int|
            0 <= i < v.switches.len() ==> (#[trigger] v.switches[i]).trigger_interval_seconds >= 1,
    ensures
        plan_active(after_tick(v, now), now) == Seq::<FiringView>::empty(),
        plan_triggered(after_tick(v, now), now) == Seq::<FiringView>::empty(),
        reacted(after_tick(v, now), WatchdogView::idle(), EventView::Tick { now }) == (
            after_tick(v, now),
            WatchdogView::idle(),
            CommandView::Sleep { seconds: 10 },
        ),
{
    let plan = plan_active(v, now);
    let swept = committed_all(v, plan, now);
    let done = after_tick(v, now);
    lemma_plan_active_fresh(v, v.switches.len() as int, now);
    lemma_commit_keeps_ids(v, plan, now);
    lemma_commit_frame(v, plan, now);
    lemma_commit_frame(swept, plan_triggered(swept, now), now);
    assert forall|i: int| 0 <= i < swept.switches.len() implies (#[trigger] swept.switches[i])
        .trigger_interval_seconds >= 1 by {
        lemma_commit_switch(v, plan, now, i);
        assert(v.switches[i].trigger_interval_seconds >= 1);
    }
    lemma_triggered_sweep_settles(swept, now);
    theorem_active_sweep_settles(v, now);
    lemma_refires_leave_active_plan(swept, now, now, swept.switches.len() as int);
    theorem_quiet_tick(done, now);
}

/// Every firing of the active sweep names a switch that the store holds.
pub proof fn lemma_plan_names_switches(v: StoreView, now: int)
    ensures
        forall|a: int|
            0 <= a < plan_active(v, now).len() ==> v.has_switch(
                (#[trigger] plan_active(v, now)[a]).switch_id,
            ),
{
    let plan = plan_active(v, now);
    assert forall|a: int| 0 <= a < plan.len() implies v.has_switch(
        (#[trigger] plan[a]).switch_id,
    ) by {
        let i = lemma_plan_sourced(v, v.switches.len() as int, now, a);
        lemma_plan_switch_sound(v, v.switches[i], now, plan[a]);
        assert(v.switches[i].id == plan[a].switch_id);
    }
}

/// Every firing of the triggered sweep names a switch that the store
/// holds.
pub proof fn lemma_refires_name_switches(v: StoreView, now: int)
    ensures
        forall|a: int|
            0 <= a < plan_triggered(v, now).len() ==> v.has_switch(
                (#[trigger] plan_triggered(v, now)[a]).switch_id,
            ),
{
    let plan = plan_triggered(v, now);
    assert forall|a: int| 0 <= a < plan.len() implies v.has_switch(
        (#[trigger] plan[a]).switch_id,
    ) by {
        let j = lemma_refire_sourced(v, v.switches.len() as int, now, a);
        assert(v.switches[j].id == plan[a].switch_id);
    }
}

} // verus!
