//! What a whole tick of the machine amounts to: whatever the actions
//! answer, the switches and the markers end up as the two sweeps plan them.

use crate::db::StoreView;
use crate::models::ExecutionStatus;
use crate::watchdog::executor::RunnerView;
use crate::watchdog::machine::{
    advanced, reacted, recorded, CommandView, EventView, Phase, WatchdogView,
};
use crate::watchdog::theorems::{
    after_tick, lemma_commit_frame, lemma_commit_keeps_ids, lemma_commit_switch,
    lemma_plan_active_fresh, lemma_plan_names_switches, lemma_refire_commit,
    lemma_refires_name_switches, markers_unique, theorem_active_sweep_marks_once,
    theorem_quiet_tick, theorem_tick_settles,
};
use crate::watchdog::{
    can_commit, committed_all, plan_active, plan_active_upto, plan_refire, plan_switch,
    plan_triggered, plan_triggered_upto, FiringView,
};
use vstd::prelude::*;

verus! {

/// Two stores agree on everything that the sweeps read and write: they may
/// differ in their audit records only.
pub open spec fn same_but_audit(a: StoreView, b: StoreView) -> bool {
    &&& a.switches == b.switches
    &&& a.stages == b.stages
    &&& a.actions == b.actions
    &&& a.markers == b.markers
    &&& a.next_stage_id == b.next_stage_id
    &&& a.next_action_id == b.next_action_id
    &&& a.next_marker_id == b.next_marker_id
}

/// The store after every firing of `plan` has been recorded at `tick`
/// where the store could record it, in order.
pub open spec fn recorded_all(v: StoreView, plan: Seq<FiringView>, tick: int) -> StoreView
    decreases plan.len(),
{
    if plan.len() == 0 {
        v
    } else {
        recorded_all(recorded(v, plan[0], tick), plan.drop_first(), tick)
    }
}

/// What is left of the tick from the state `w`, the actions aside: the
/// firings from the one in progress on are recorded, and after the active
/// sweep the triggered sweep is planned and recorded too.
pub open spec fn rest_of_tick(v: StoreView, w: WatchdogView) -> StoreView {
    match w.phase {
        Phase::Idle => v,
        Phase::Triggered => recorded_all(v, w.plan.skip(w.index), w.tick),
        Phase::Active => {
            let swept = recorded_all(v, w.plan.skip(w.index), w.tick);
            recorded_all(swept, plan_triggered(swept, w.tick), w.tick)
        },
    }
}

/// What the machine has done once `feed` has answered the actions it asked
/// for, one answer for each, in order: each answer is an outcome and what
/// the clock showed when it came.
pub open spec fn fed(
    v: StoreView,
    w: WatchdogView,
    command: CommandView,
    feed: Seq<(Result<(int, Seq<char>, Seq<char>), Seq<char>>, int)>,
) -> (StoreView, WatchdogView, CommandView)
    decreases feed.len(),
{
    if command is Run && feed.len() > 0 {
        let (v2, w2, next) = reacted(
            v,
            w,
            EventView::Finished { outcome: feed[0].0, now: feed[0].1 },
        );
        fed(v2, w2, next, feed.drop_first())
    } else {
        (v, w, command)
    }
}

proof fn lemma_plans_agree(a: StoreView, b: StoreView, now: int, n: int)
    requires
        same_but_audit(a, b),
    ensures
        plan_active_upto(a, n, now) == plan_active_upto(b, n, now),
        plan_triggered_upto(a, n, now) == plan_triggered_upto(b, n, now),
    decreases n,
{
    if n > 0 {
        lemma_plans_agree(a, b, now, n - 1);
        assert(plan_switch(a, a.switches[n - 1], now) == plan_switch(b, b.switches[n - 1], now));
        assert(plan_refire(a, a.switches[n - 1], now) == plan_refire(b, b.switches[n - 1], now));
    }
}

proof fn lemma_recorded_agree(a: StoreView, b: StoreView, plan: Seq<FiringView>, tick: int)
    requires
        same_but_audit(a, b),
    ensures
        same_but_audit(recorded_all(a, plan, tick), recorded_all(b, plan, tick)),
    decreases plan.len(),
{
    if plan.len() > 0 {
        lemma_recorded_agree(
            recorded(a, plan[0], tick),
            recorded(b, plan[0], tick),
            plan.drop_first(),
            tick,
        );
    }
}

proof fn lemma_rest_agree(a: StoreView, b: StoreView, w: WatchdogView)
    requires
        same_but_audit(a, b),
    ensures
        same_but_audit(rest_of_tick(a, w), rest_of_tick(b, w)),
{
    let rest = w.plan.skip(w.index);
    lemma_recorded_agree(a, b, rest, w.tick);
    if w.phase == Phase::Active {
        let x = recorded_all(a, rest, w.tick);
        let y = recorded_all(b, rest, w.tick);
        lemma_plans_agree(x, y, w.tick, x.switches.len() as int);
        lemma_recorded_agree(x, y, plan_triggered(x, w.tick), w.tick);
    }
}

/// Going on with the tick changes nothing about how it ends, the audit
/// records aside.
proof fn lemma_advance_keeps_rest(v: StoreView, w: WatchdogView, at: int)
    requires
        w.wf(),
    ensures
        same_but_audit(
            rest_of_tick(advanced(v, w, at).0, advanced(v, w, at).1),
            rest_of_tick(v, w),
        ),
    decreases w.sweeps_left(), w.plan.len() - w.index, w.steps_left(),
{
    if w.phase == Phase::Idle {
    } else if w.index >= w.plan.len() {
        assert(w.plan.skip(w.index) =~= Seq::empty());
        if w.phase == Phase::Active {
            let next = WatchdogView {
                phase: Phase::Triggered,
                plan: plan_triggered(v, w.tick),
                index: 0,
                runner: None,
                ..w
            };
            lemma_advance_keeps_rest(v, next, at);
            assert(next.plan.skip(0) =~= next.plan);
        }
    } else {
        let f = w.plan[w.index];
        let rest = w.plan.skip(w.index);
        assert(rest[0] == f);
        assert(rest.drop_first() =~= w.plan.skip(w.index + 1));
        match w.runner {
            None => {
                let next = WatchdogView {
                    runner: Some(
                        RunnerView::fresh(f.switch_id, f.actions, f.kind.execution_type()),
                    ),
                    ..w
                };
                lemma_advance_keeps_rest(v, next, at);
            },
            Some(r) => {
                let (v2, r2, step) = r.started(v, at);
                assert(same_but_audit(v2, v));
                let kept = WatchdogView { runner: Some(r2), ..w };
                lemma_rest_agree(v2, v, kept);
                if step is Done {
                    let next = WatchdogView { index: w.index + 1, runner: None, ..w };
                    lemma_advance_keeps_rest(recorded(v, f, w.tick), next, at);
                } else if step is Rejected || step is Unrecorded {
                    lemma_advance_keeps_rest(v2, kept, at);
                }
            },
        }
    }
}

/// The machine keeps its state in order.
proof fn lemma_advance_keeps_order(v: StoreView, w: WatchdogView, at: int)
    requires
        w.wf(),
    ensures
        advanced(v, w, at).1.wf(),
        (w.runner is Some ==> w.index < w.plan.len()) ==> (advanced(v, w, at).1.runner is Some
            ==> advanced(v, w, at).1.index < advanced(v, w, at).1.plan.len()),
        advanced(v, w, at).2 is Sleep ==> advanced(v, w, at).1 == WatchdogView::idle(),
        advanced(v, w, at).2 is Run ==> advanced(v, w, at).1.phase != Phase::Idle && (advanced(
            v,
            w,
            at,
        ).1.runner matches Some(r) && r.open is Some),
    decreases w.sweeps_left(), w.plan.len() - w.index, w.steps_left(),
{
    if w.phase == Phase::Idle {
    } else if w.index >= w.plan.len() {
        if w.phase == Phase::Active {
            let next = WatchdogView {
                phase: Phase::Triggered,
                plan: plan_triggered(v, w.tick),
                index: 0,
                runner: None,
                ..w
            };
            lemma_advance_keeps_order(v, next, at);
        }
    } else {
        let f = w.plan[w.index];
        match w.runner {
            None => {
                let next = WatchdogView {
                    runner: Some(
                        RunnerView::fresh(f.switch_id, f.actions, f.kind.execution_type()),
                    ),
                    ..w
                };
                lemma_advance_keeps_order(v, next, at);
            },
            Some(r) => {
                let (v2, r2, step) = r.started(v, at);
                let kept = WatchdogView { runner: Some(r2), ..w };
                if step is Done {
                    let next = WatchdogView { index: w.index + 1, runner: None, ..w };
                    lemma_advance_keeps_order(recorded(v, f, w.tick), next, at);
                } else if step is Rejected || step is Unrecorded {
                    lemma_advance_keeps_order(v2, kept, at);
                }
            },
        }
    }
}

/// Answers change nothing about how the tick ends, the audit records
/// aside; and once the machine sleeps, the tick has ended that way.
proof fn lemma_feed_keeps_rest(
    v: StoreView,
    w: WatchdogView,
    command: CommandView,
    feed: Seq<(Result<(int, Seq<char>, Seq<char>), Seq<char>>, int)>,
)
    requires
        w.wf(),
        command is Sleep ==> w == WatchdogView::idle(),
        command is Run ==> w.phase != Phase::Idle && (w.runner matches Some(r) && r.open is Some),
    ensures
        fed(v, w, command, feed).2 is Sleep ==> same_but_audit(
            fed(v, w, command, feed).0,
            rest_of_tick(v, w),
        ) && fed(v, w, command, feed).1 == WatchdogView::idle(),
    decreases feed.len(),
{
    if command is Run && feed.len() > 0 {
        let event = EventView::Finished { outcome: feed[0].0, now: feed[0].1 };
        let r = w.runner->0;
        let (v1, r1) = r.finished(v, feed[0].0, feed[0].1);
        let w1 = WatchdogView { runner: Some(r1), ..w };
        assert(same_but_audit(v1, v));
        lemma_rest_agree(v1, v, w1);
        lemma_advance_keeps_rest(v1, w1, feed[0].1);
        lemma_advance_keeps_order(v1, w1, feed[0].1);
        let (v2, w2, next) = reacted(v, w, event);
        lemma_feed_keeps_rest(v2, w2, next, feed.drop_first());
    }
}

/// Whatever the actions answer, and whenever: once the machine, told of a
/// tick at `now`, has been answered through to its sleep, the switches and
/// the markers are what the two sweeps leave where every firing is
/// recorded that the store can record. A failing action stops nothing.
pub proof fn theorem_tick_records_its_sweeps(
    v: StoreView,
    now: int,
    feed: Seq<(Result<(int, Seq<char>, Seq<char>), Seq<char>>, int)>,
)
    ensures
        ({
            let begun = reacted(v, WatchdogView::idle(), EventView::Tick { now });
            let ended = fed(begun.0, begun.1, begun.2, feed);
            let swept = recorded_all(v, plan_active(v, now), now);
            ended.2 is Sleep ==> ended.1 == WatchdogView::idle() && same_but_audit(
                ended.0,
                recorded_all(swept, plan_triggered(swept, now), now),
            )
        }),
{
    let start = WatchdogView::at_tick(v, now);
    lemma_advance_keeps_rest(v, start, now);
    lemma_advance_keeps_order(v, start, now);
    let begun = reacted(v, WatchdogView::idle(), EventView::Tick { now });
    assert(begun == advanced(v, start, now));
    assert(start.plan.skip(0) =~= start.plan);
    if begun.2 is AwaitResult {
        lemma_never_awaits(v, start, now);
    }
    lemma_feed_keeps_rest(begun.0, begun.1, begun.2, feed);
}

/// A machine that goes on while no action is out does not ask to await one.
proof fn lemma_never_awaits(v: StoreView, w: WatchdogView, at: int)
    requires
        w.wf(),
        w.runner matches Some(r) ==> r.open is None,
    ensures
        advanced(v, w, at).2 !is AwaitResult,
    decreases w.sweeps_left(), w.plan.len() - w.index, w.steps_left(),
{
    if w.phase == Phase::Idle {
    } else if w.index >= w.plan.len() {
        if w.phase == Phase::Active {
            let next = WatchdogView {
                phase: Phase::Triggered,
                plan: plan_triggered(v, w.tick),
                index: 0,
                runner: None,
                ..w
            };
            lemma_never_awaits(v, next, at);
        }
    } else {
        let f = w.plan[w.index];
        match w.runner {
            None => {
                let next = WatchdogView {
                    runner: Some(
                        RunnerView::fresh(f.switch_id, f.actions, f.kind.execution_type()),
                    ),
                    ..w
                };
                lemma_never_awaits(v, next, at);
            },
            Some(r) => {
                let (v2, r2, step) = r.started(v, at);
                let kept = WatchdogView { runner: Some(r2), ..w };
                if step is Done {
                    let next = WatchdogView { index: w.index + 1, runner: None, ..w };
                    lemma_never_awaits(recorded(v, f, w.tick), next, at);
                } else if step is Rejected || step is Unrecorded {
                    lemma_never_awaits(v2, kept, at);
                }
            },
        }
    }
}

/// Recording one more firing at the end of a plan is recording it on what
/// the plan has left.
proof fn lemma_recorded_push(v: StoreView, plan: Seq<FiringView>, f: FiringView, tick: int)
    ensures
        recorded_all(v, plan.push(f), tick) == recorded(recorded_all(v, plan, tick), f, tick),
    decreases plan.len(),
{
    let longer = plan.push(f);
    if plan.len() == 0 {
        assert(longer.drop_first() =~= Seq::empty());
        assert(recorded_all(recorded(v, f, tick), longer.drop_first(), tick) == recorded(
            v,
            f,
            tick,
        ));
    } else {
        assert(longer.drop_first() =~= plan.drop_first().push(f));
        lemma_recorded_push(recorded(v, plan[0], tick), plan.drop_first(), f, tick);
    }
}

/// Where the marker identifiers last for a plan without re-fires whose
/// firings name switches of the store, every firing of it is recorded.
proof fn lemma_sweep_is_recorded(v: StoreView, plan: Seq<FiringView>, tick: int)
    requires
        v.next_marker_id + plan.len() <= i64::MAX,
        forall|a: int| 0 <= a < plan.len() ==> (#[trigger] plan[a]).kind !is Refire,
        forall|a: int| 0 <= a < plan.len() ==> v.has_switch((#[trigger] plan[a]).switch_id),
    ensures
        recorded_all(v, plan, tick) == committed_all(v, plan, tick),
        committed_all(v, plan, tick).next_marker_id <= v.next_marker_id + plan.len(),
    decreases plan.len(),
{
    if plan.len() > 0 {
        let earlier = plan.drop_last();
        assert forall|a: int| 0 <= a < earlier.len() implies (#[trigger] earlier[a]).kind
            !is Refire by {
            assert(earlier[a] == plan[a]);
        }
        assert forall|a: int| 0 <= a < earlier.len() implies v.has_switch(
            (#[trigger] earlier[a]).switch_id,
        ) by {
            assert(earlier[a] == plan[a]);
        }
        lemma_sweep_is_recorded(v, earlier, tick);
        assert(plan =~= earlier.push(plan.last()));
        lemma_recorded_push(v, earlier, plan.last(), tick);
        assert(plan[plan.len() - 1].kind !is Refire);
        let mid = committed_all(v, earlier, tick);
        let named = plan[plan.len() - 1].switch_id;
        lemma_commit_frame(v, earlier, tick);
        assert(v.has_switch(named));
        let k = choose|k: int| 0 <= k < v.switches.len() && (#[trigger] v.switches[k]).id == named;
        assert(mid.switches[k].id == named);
    }
}

/// Where the count of no switch is at its end, every re-fire of the
/// triggered sweep over the first `n` switches is recorded.
proof fn lemma_refires_are_recorded(v: StoreView, now: int, n: int)
    requires
        v.switch_ids_unique(),
        0 <= n <= v.switches.len(),
        forall|i: int|
            0 <= i < v.switches.len() ==> (#[trigger] v.switches[i]).trigger_count_executed
                < i64::MAX,
    ensures
        recorded_all(v, plan_triggered_upto(v, n, now), now) == committed_all(
            v,
            plan_triggered_upto(v, n, now),
            now,
        ),
    decreases n,
{
    if n > 0 {
        lemma_refires_are_recorded(v, now, n - 1);
        let head = plan_triggered_upto(v, n - 1, now);
        let s = v.switches[n - 1];
        let block = plan_refire(v, s, now);
        let plan = plan_triggered_upto(v, n, now);
        if block.len() == 0 {
            assert(plan =~= head);
        } else {
            let f = block[0];
            assert(plan =~= head.push(f));
            assert(plan.drop_last() =~= head);
            lemma_recorded_push(v, head, f, now);
            let mid = committed_all(v, head, now);
            lemma_commit_frame(v, head, now);
            assert forall|i: int|
                0 <= i < mid.switches.len() && mid.switches[i].id
                    == f.switch_id implies mid.switches[i].trigger_count_executed < i64::MAX by {
                assert(mid.switches[i].id == v.switches[i].id);
                assert(i == n - 1);
                lemma_refire_commit(v, now, n - 1, n - 1);
                assert(v.switches[n - 1].trigger_count_executed < i64::MAX);
            }
            assert(can_commit(mid, f));
        }
    }
}

/// Whatever the actions answer, and whenever: where the store has room
/// for the markers of the tick and no count is near its end, the machine,
/// told of a tick at `now` and answered through to its sleep, leaves the
/// switches and the markers exactly as the active sweep and then the
/// triggered sweep plan them.
pub proof fn theorem_tick_ends_as_planned(
    v: StoreView,
    now: int,
    feed: Seq<(Result<(int, Seq<char>, Seq<char>), Seq<char>>, int)>,
)
    requires
        v.wf(),
        v.next_marker_id + plan_active(v, now).len() <= i64::MAX,
        forall|i: int|
            0 <= i < v.switches.len() ==> (#[trigger] v.switches[i]).trigger_count_executed
                < i64::MAX,
    ensures
        ({
            let begun = reacted(v, WatchdogView::idle(), EventView::Tick { now });
            let ended = fed(begun.0, begun.1, begun.2, feed);
            ended.2 is Sleep ==> ended.1 == WatchdogView::idle() && same_but_audit(
                ended.0,
                after_tick(v, now),
            )
        }),
{
    let plan = plan_active(v, now);
    let swept = committed_all(v, plan, now);
    theorem_tick_records_its_sweeps(v, now, feed);
    lemma_plan_active_fresh(v, v.switches.len() as int, now);
    lemma_plan_names_switches(v, now);
    lemma_sweep_is_recorded(v, plan, now);
    lemma_commit_keeps_ids(v, plan, now);
    lemma_commit_frame(v, plan, now);
    assert forall|i: int| 0 <= i < swept.switches.len() implies (#[trigger] swept.switches[i])
        .trigger_count_executed < i64::MAX by {
        lemma_commit_switch(v, plan, now, i);
        assert(v.switches[i].trigger_count_executed < i64::MAX);
    }
    lemma_refires_are_recorded(swept, now, swept.switches.len() as int);
}

/// The audit record of the action that is out, if one is.
pub open spec fn out(w: WatchdogView) -> Option<int> {
    match w.runner {
        Some(r) => r.open,
        None => None,
    }
}

/// No audit record is running but that of the action `open`.
pub open spec fn only_running(v: StoreView, open: Option<int>) -> bool {
    forall|i: int|
        0 <= i < v.executions.len() && (#[trigger] v.executions[i]).status
            == ExecutionStatus::Running ==> open == Some(v.executions[i].id)
}

/// Going on with the tick leaves no audit record running but that of the
/// action that is handed out.
proof fn lemma_advance_closes_records(v: StoreView, w: WatchdogView, at: int)
    requires
        w.wf(),
        out(w) is None,
        only_running(v, None),
    ensures
        only_running(advanced(v, w, at).0, out(advanced(v, w, at).1)),
    decreases w.sweeps_left(), w.plan.len() - w.index, w.steps_left(),
{
    if w.phase == Phase::Idle {
    } else if w.index >= w.plan.len() {
        if w.phase == Phase::Active {
            let next = WatchdogView {
                phase: Phase::Triggered,
                plan: plan_triggered(v, w.tick),
                index: 0,
                runner: None,
                ..w
            };
            lemma_advance_closes_records(v, next, at);
        }
    } else {
        let f = w.plan[w.index];
        match w.runner {
            None => {
                let next = WatchdogView {
                    runner: Some(
                        RunnerView::fresh(f.switch_id, f.actions, f.kind.execution_type()),
                    ),
                    ..w
                };
                lemma_advance_closes_records(v, next, at);
            },
            Some(r) => {
                let (v2, r2, step) = r.started(v, at);
                let kept = WatchdogView { runner: Some(r2), ..w };
                assert(only_running(v2, r2.open)) by {
                    assert forall|i: int|
                        0 <= i < v2.executions.len() && (#[trigger] v2.executions[i]).status
                            == ExecutionStatus::Running implies r2.open == Some(
                        v2.executions[i].id,
                    ) by {
                        lemma_started_record(r, v, at, i);
                    }
                }
                if step is Done {
                    let next = WatchdogView { index: w.index + 1, runner: None, ..w };
                    lemma_advance_closes_records(recorded(v, f, w.tick), next, at);
                } else if step is Rejected || step is Unrecorded {
                    lemma_advance_closes_records(v2, kept, at);
                }
            },
        }
    }
}

/// After the runner has moved on, a record that is running is the record
/// that it has just opened, or was running before.
proof fn lemma_started_record(r: RunnerView, v: StoreView, at: int, i: int)
    requires
        0 <= i < r.started(v, at).0.executions.len(),
        r.started(v, at).0.executions[i].status == ExecutionStatus::Running,
    ensures
        r.started(v, at).1.open == Some(r.started(v, at).0.executions[i].id) || exists|k: int|
            0 <= k < v.executions.len() && (#[trigger] v.executions[k]).status
                == ExecutionStatus::Running && v.executions[k].id
                == r.started(v, at).0.executions[i].id,
{
    let (v2, r2, step) = r.started(v, at);
    if step is Dispatch || step is Rejected {
        let action = r.actions[r.position];
        let opened = v.with_start(r.switch_id, action.id, r.execution_type, at);
        let p = crate::db::slot(v.execution_keys(), at, true);
        crate::db::lemma_slot_bounds(v.execution_keys(), at, true);
        if i < p {
            assert(opened.executions[i] == v.executions[i]);
        } else if i > p {
            assert(opened.executions[i] == v.executions[i - 1]);
        }
    } else {
        assert(v2.executions[i] == v.executions[i]);
    }
}

/// A tick leaves no audit record running: where none was running when the
/// machine was told of the tick, none is once it sleeps, whatever the
/// actions answered.
pub proof fn theorem_tick_leaves_nothing_running(
    v: StoreView,
    now: int,
    feed: Seq<(Result<(int, Seq<char>, Seq<char>), Seq<char>>, int)>,
)
    requires
        only_running(v, None),
    ensures
        ({
            let begun = reacted(v, WatchdogView::idle(), EventView::Tick { now });
            let ended = fed(begun.0, begun.1, begun.2, feed);
            ended.2 is Sleep ==> only_running(ended.0, None)
        }),
{
    let start = WatchdogView::at_tick(v, now);
    lemma_advance_closes_records(v, start, now);
    lemma_advance_keeps_order(v, start, now);
    let begun = reacted(v, WatchdogView::idle(), EventView::Tick { now });
    if begun.2 is AwaitResult {
        lemma_never_awaits(v, start, now);
    }
    lemma_feed_closes_records(begun.0, begun.1, begun.2, feed);
}

proof fn lemma_feed_closes_records(
    v: StoreView,
    w: WatchdogView,
    command: CommandView,
    feed: Seq<(Result<(int, Seq<char>, Seq<char>), Seq<char>>, int)>,
)
    requires
        w.wf(),
        only_running(v, out(w)),
        command is Sleep ==> w == WatchdogView::idle(),
        command is Run ==> w.phase != Phase::Idle && (w.runner matches Some(r) && r.open is Some),
    ensures
        fed(v, w, command, feed).2 is Sleep ==> only_running(fed(v, w, command, feed).0, None),
    decreases feed.len(),
{
    if command is Run && feed.len() > 0 {
        let event = EventView::Finished { outcome: feed[0].0, now: feed[0].1 };
        let r = w.runner->0;
        let (v1, r1) = r.finished(v, feed[0].0, feed[0].1);
        let w1 = WatchdogView { runner: Some(r1), ..w };
        assert(out(w1) is None);
        assert(only_running(v1, None)) by {
            assert forall|i: int|
                0 <= i < v1.executions.len() implies (#[trigger] v1.executions[i]).status
                != ExecutionStatus::Running by {
                assert(v.executions[i].status == ExecutionStatus::Running ==> r.open == Some(
                    v.executions[i].id,
                ));
            }
        }
        lemma_advance_closes_records(v1, w1, feed[0].1);
        lemma_advance_keeps_order(v1, w1, feed[0].1);
        let (v2, w2, next) = reacted(v, w, event);
        lemma_feed_closes_records(v2, w2, next, feed.drop_first());
    }
}

/// Once the machine has been told that the process has started, no audit
/// record is running: what a crash left open is closed as failed, with the
/// instant of the start as its end, before the first tick.
pub proof fn theorem_start_leaves_nothing_running(v: StoreView, w: WatchdogView, now: int)
    ensures
        reacted(v, w, EventView::Started { now }).0 == v.reaped(now),
        reacted(v, w, EventView::Started { now }).1 == WatchdogView::idle(),
        reacted(v, w, EventView::Started { now }).2 == (CommandView::Sleep { seconds: 0 }),
        only_running(reacted(v, w, EventView::Started { now }).0, None),
{
}

/// Across a whole tick, at most one marker exists for a stage of a switch:
/// where the markers were unique when the machine was told of the tick,
/// they are unique once it sleeps, whatever the actions answered.
pub proof fn theorem_tick_marks_once(
    v: StoreView,
    now: int,
    feed: Seq<(Result<(int, Seq<char>, Seq<char>), Seq<char>>, int)>,
)
    requires
        v.wf(),
        markers_unique(v.markers),
        v.next_marker_id + plan_active(v, now).len() <= i64::MAX,
        forall|i: int|
            0 <= i < v.switches.len() ==> (#[trigger] v.switches[i]).trigger_count_executed
                < i64::MAX,
    ensures
        ({
            let begun = reacted(v, WatchdogView::idle(), EventView::Tick { now });
            let ended = fed(begun.0, begun.1, begun.2, feed);
            ended.2 is Sleep ==> markers_unique(ended.0.markers)
        }),
{
    let plan = plan_active(v, now);
    let swept = committed_all(v, plan, now);
    theorem_tick_ends_as_planned(v, now, feed);
    theorem_active_sweep_marks_once(v, now);
    lemma_plan_active_fresh(v, v.switches.len() as int, now);
    lemma_commit_keeps_ids(v, plan, now);
    if swept.switches.len() > 0 {
        lemma_refire_commit(swept, now, swept.switches.len() as int, 0);
    } else {
        assert(plan_triggered(swept, now) =~= Seq::empty());
    }
}

/// A tick run twice in succession, without the clock or the store moving
/// in between, does nothing the second time: once the machine has been
/// answered through to its sleep and is told of a tick at the same
/// instant, it hands out no action, writes no marker and no audit record,
/// and sleeps.
pub proof fn theorem_second_tick_does_nothing(
    v: StoreView,
    now: int,
    feed: Seq<(Result<(int, Seq<char>, Seq<char>), Seq<char>>, int)>,
)
    requires
        v.wf(),
        v.next_marker_id + plan_active(v, now).len() <= i64::MAX,
        forall|i: int|
            0 <= i < v.switches.len() ==> (#[trigger] v.switches[i]).trigger_count_executed
                < i64::MAX && v.switches[i].trigger_interval_seconds >= 1,
    ensures
        ({
            let begun = reacted(v, WatchdogView::idle(), EventView::Tick { now });
            let ended = fed(begun.0, begun.1, begun.2, feed);
            ended.2 is Sleep ==> reacted(ended.0, ended.1, EventView::Tick { now }) == (
                ended.0,
                WatchdogView::idle(),
                CommandView::Sleep { seconds: 10 },
            )
        }),
{
    let begun = reacted(v, WatchdogView::idle(), EventView::Tick { now });
    let ended = fed(begun.0, begun.1, begun.2, feed);
    theorem_tick_ends_as_planned(v, now, feed);
    theorem_tick_settles(v, now);
    if ended.2 is Sleep {
        let done = after_tick(v, now);
        lemma_plans_agree(ended.0, done, now, done.switches.len() as int);
        theorem_quiet_tick(ended.0, now);
    }
}

/// How many actions the firings of a plan hold in all.
pub open spec fn actions_in(plan: Seq<FiringView>) -> nat
    decreases plan.len(),
{
    if plan.len() == 0 {
        0
    } else {
        plan[0].actions.len() + actions_in(plan.drop_first())
    }
}

/// How many actions of the tick have not been given their audit record
/// yet: those of the firing in progress that have not begun, those of the
/// firings behind it, and, during the active sweep, those of the triggered
/// sweep that is still to be planned.
pub open spec fn audits_left(v: StoreView, w: WatchdogView) -> int {
    let here = match w.runner {
        Some(r) => r.actions.len() - r.position,
        None => if w.index < w.plan.len() {
            w.plan[w.index].actions.len() as int
        } else {
            0
        },
    };
    let behind = if w.index < w.plan.len() {
        actions_in(w.plan.skip(w.index + 1)) as int
    } else {
        0
    };
    let swept = recorded_all(v, w.plan.skip(w.index), w.tick);
    match w.phase {
        Phase::Idle => 0,
        Phase::Triggered => here + behind,
        Phase::Active => here + behind + actions_in(plan_triggered(swept, w.tick)),
    }
}

proof fn lemma_triggered_plans_agree(a: StoreView, b: StoreView, now: int)
    requires
        same_but_audit(a, b),
    ensures
        plan_triggered(a, now) == plan_triggered(b, now),
{
    lemma_plans_agree(a, b, now, a.switches.len() as int);
}

/// Every firing of the plan, and the runner, name a switch that the store
/// holds.
spec fn names_held(v: StoreView, w: WatchdogView) -> bool {
    &&& forall|k: int| 0 <= k < w.plan.len() ==> v.has_switch((#[trigger] w.plan[k]).switch_id)
    &&& w.runner matches Some(r) ==> v.has_switch(r.switch_id)
}

/// Recording a firing takes no switch away.
proof fn lemma_recorded_keeps_switches(v: StoreView, f: FiringView, tick: int)
    ensures
        forall|x: Seq<char>| #[trigger] v.has_switch(x) ==> recorded(v, f, tick).has_switch(x),
{
    let after = recorded(v, f, tick);
    assert forall|x: Seq<char>| #[trigger] v.has_switch(x) implies after.has_switch(x) by {
        let k = choose|k: int| 0 <= k < v.switches.len() && (#[trigger] v.switches[k]).id == x;
        assert(after.switches[k].id == x);
    }
}

/// From `(v, w)` to `(v2, w2)` every action that began got one audit
/// record, the identifiers still last for the rest, and the switches that
/// the plan names are still there.
spec fn audited(v: StoreView, w: WatchdogView, v2: StoreView, w2: WatchdogView) -> bool {
    &&& v2.executions.len() + audits_left(v2, w2) == v.executions.len() + audits_left(v, w)
    &&& v2.next_execution_id + audits_left(v2, w2) <= i64::MAX
    &&& names_held(v2, w2)
}

/// Going on with the tick gives every action that it comes by its audit
/// record, as long as the identifiers last.
proof fn lemma_advance_audits(v: StoreView, w: WatchdogView, at: int)
    requires
        w.wf(),
        out(w) is None,
        w.runner is Some ==> w.index < w.plan.len(),
        names_held(v, w),
        v.next_execution_id + audits_left(v, w) <= i64::MAX,
    ensures
        audited(v, w, advanced(v, w, at).0, advanced(v, w, at).1),
    decreases w.sweeps_left(), w.plan.len() - w.index, w.steps_left(),
{
    if w.phase == Phase::Idle {
    } else if w.index >= w.plan.len() {
        assert(w.plan.skip(w.index) =~= Seq::empty());
        if w.phase == Phase::Active {
            let next = WatchdogView {
                phase: Phase::Triggered,
                plan: plan_triggered(v, w.tick),
                index: 0,
                runner: None,
                ..w
            };
            if next.plan.len() > 0 {
                assert(next.plan.skip(1) =~= next.plan.drop_first());
            }
            assert(next.plan.skip(0) =~= next.plan);
            lemma_refires_name_switches(v, w.tick);
            lemma_advance_audits(v, next, at);
        }
    } else {
        let f = w.plan[w.index];
        let rest = w.plan.skip(w.index);
        assert(rest[0] == f);
        assert(rest.drop_first() =~= w.plan.skip(w.index + 1));
        match w.runner {
            None => {
                let next = WatchdogView {
                    runner: Some(
                        RunnerView::fresh(f.switch_id, f.actions, f.kind.execution_type()),
                    ),
                    ..w
                };
                assert(v.has_switch(w.plan[w.index].switch_id));
                lemma_advance_audits(v, next, at);
            },
            Some(r) => {
                let (v2, r2, step) = r.started(v, at);
                let kept = WatchdogView { runner: Some(r2), ..w };
                assert(same_but_audit(v2, v));
                lemma_recorded_agree(v2, v, rest, w.tick);
                lemma_triggered_plans_agree(
                    recorded_all(v2, rest, w.tick),
                    recorded_all(v, rest, w.tick),
                    w.tick,
                );
                crate::db::lemma_slot_bounds(v.execution_keys(), at, true);
                if step is Done {
                    let next = WatchdogView { index: w.index + 1, runner: None, ..w };
                    let later = w.plan.skip(w.index + 1);
                    if w.index + 1 < w.plan.len() {
                        assert(later[0] == w.plan[w.index + 1]);
                        assert(later.drop_first() =~= w.plan.skip(w.index + 2));
                    } else {
                        assert(later =~= Seq::empty());
                    }
                    lemma_recorded_keeps_switches(v, f, w.tick);
                    lemma_advance_audits(recorded(v, f, w.tick), next, at);
                } else if step is Rejected || step is Unrecorded {
                    lemma_advance_audits(v2, kept, at);
                }
            },
        }
    }
}

proof fn lemma_feed_audits(
    v: StoreView,
    w: WatchdogView,
    command: CommandView,
    feed: Seq<(Result<(int, Seq<char>, Seq<char>), Seq<char>>, int)>,
)
    requires
        w.wf(),
        w.runner is Some ==> w.index < w.plan.len(),
        names_held(v, w),
        v.next_execution_id + audits_left(v, w) <= i64::MAX,
        command is Sleep ==> w == WatchdogView::idle(),
        command is Run ==> w.phase != Phase::Idle && (w.runner matches Some(r) && r.open is Some),
    ensures
        fed(v, w, command, feed).2 is Sleep ==> fed(v, w, command, feed).0.executions.len()
            == v.executions.len() + audits_left(v, w),
    decreases feed.len(),
{
    if command is Run && feed.len() > 0 {
        let event = EventView::Finished { outcome: feed[0].0, now: feed[0].1 };
        let r = w.runner->0;
        let (v1, r1) = r.finished(v, feed[0].0, feed[0].1);
        let w1 = WatchdogView { runner: Some(r1), ..w };
        assert(same_but_audit(v1, v));
        let rest = w.plan.skip(w.index);
        lemma_recorded_agree(v1, v, rest, w.tick);
        lemma_triggered_plans_agree(
            recorded_all(v1, rest, w.tick),
            recorded_all(v, rest, w.tick),
            w.tick,
        );
        assert(audits_left(v1, w1) == audits_left(v, w));
        assert(names_held(v1, w1));
        lemma_advance_audits(v1, w1, feed[0].1);
        lemma_advance_keeps_order(v1, w1, feed[0].1);
        let (v2, w2, next) = reacted(v, w, event);
        lemma_feed_audits(v2, w2, next, feed.drop_first());
    }
}

/// Every action of a tick gets its audit record, whatever the actions
/// before it answered: where the identifiers last, the machine, told of a
/// tick at `now` and answered through to its sleep, has opened one audit
/// record for each action of each firing of the active sweep and of the
/// triggered sweep that follows it, and no other.
pub proof fn theorem_tick_audits_every_action(
    v: StoreView,
    now: int,
    feed: Seq<(Result<(int, Seq<char>, Seq<char>), Seq<char>>, int)>,
)
    requires
        v.next_execution_id + actions_in(plan_active(v, now)) + actions_in(
            plan_triggered(recorded_all(v, plan_active(v, now), now), now),
        ) <= i64::MAX,
    ensures
        ({
            let begun = reacted(v, WatchdogView::idle(), EventView::Tick { now });
            let ended = fed(begun.0, begun.1, begun.2, feed);
            let swept = recorded_all(v, plan_active(v, now), now);
            ended.2 is Sleep ==> ended.0.executions.len() == v.executions.len() + actions_in(
                plan_active(v, now),
            ) + actions_in(plan_triggered(swept, now))
        }),
{
    let start = WatchdogView::at_tick(v, now);
    assert(start.plan.skip(0) =~= start.plan);
    if start.plan.len() > 0 {
        assert(start.plan.skip(1) =~= start.plan.drop_first());
    }
    lemma_plan_names_switches(v, now);
    lemma_advance_audits(v, start, now);
    lemma_advance_keeps_order(v, start, now);
    let begun = reacted(v, WatchdogView::idle(), EventView::Tick { now });
    if begun.2 is AwaitResult {
        lemma_never_awaits(v, start, now);
    }
    lemma_feed_audits(begun.0, begun.1, begun.2, feed);
}

} // verus!
