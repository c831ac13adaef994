use sentinel::db::{self, Store};
use sentinel::models::{
    Action, ActionKind, ExecutionStatus, ExecutionType, Switch, SwitchStatus, WarningExecution,
    WarningStage,
};
use sentinel::watchdog::executor::ActionResult;
use sentinel::watchdog::machine::{run_watchdog, Command, Event, Phase, Watchdog};
use sentinel::watchdog::{
    commit, pending_warning_stages, plan_active_sweep, plan_firings, plan_for_switch,
    plan_refiring, plan_triggered_sweep, Firing, FiringKind,
};

fn switch(id: &str, timeout: i64, last_checkin: i64) -> Switch {
    Switch {
        id: id.to_string(),
        name: format!("switch {}", id),
        description: None,
        api_token: "token".to_string(),
        timeout_seconds: timeout,
        last_checkin,
        last_trigger: None,
        status: SwitchStatus::Active,
        created_at: last_checkin,
        trigger_count_max: 1,
        trigger_interval_seconds: 60,
        trigger_count_executed: 0,
    }
}

fn stage(id: &str, lead: i64) -> WarningStage {
    WarningStage { id: 0, switch_id: id.to_string(), seconds_before_deadline: lead }
}

fn action(id: &str, kind: &str, order: i64, is_warning: bool) -> Action {
    Action {
        id: 0,
        switch_id: id.to_string(),
        action_order: order,
        action_type: kind.to_string(),
        is_warning,
        config: "{}".to_string(),
    }
}

fn ok() -> ActionResult {
    Ok((0, "done".to_string(), String::new()))
}

/// Runs one tick at `now`, answering every action with `outcome`, and says
/// how many actions were handed out.
fn tick(store: &mut Store, dog: &mut Watchdog, now: i64, outcome: fn() -> ActionResult) -> usize {
    let mut handed = 0;
    let mut command = run_watchdog(store, dog, Event::Tick { now });
    loop {
        match command {
            Command::Run { .. } => {
                handed += 1;
                command = run_watchdog(store, dog, Event::Finished { outcome: outcome(), now });
            }
            Command::Sleep { seconds } => {
                assert_eq!(seconds, 10);
                return handed;
            }
            Command::AwaitResult => panic!("the machine waits for a result nobody owes"),
        }
    }
}

#[test]
fn expiry_is_inclusive() {
    let s = switch("s", 60, 100);
    assert!(!s.is_expired(159));
    assert!(s.is_expired(160));
    assert!(s.is_expired(161));
    assert!(!s.is_expired(100));
}

#[test]
fn warning_threshold_is_inclusive() {
    let s = switch("s", 60, 0);
    assert!(!s.warning_is_due(20, 39));
    assert!(s.warning_is_due(20, 40));
    assert!(s.warning_is_due(20, 41));
}

#[test]
fn decisions_do_not_overflow() {
    let mut s = switch("s", i64::MAX, i64::MIN);
    assert!(s.is_expired(i64::MAX));
    assert!(!s.is_expired(-2));
    assert!(s.warning_is_due(i64::MIN, i64::MAX));
    s.status = SwitchStatus::Triggered;
    s.last_trigger = Some(i64::MIN);
    s.trigger_count_max = 0;
    s.trigger_interval_seconds = i64::MAX;
    assert!(s.should_refire(i64::MAX));
}

#[test]
fn refire_interval_is_inclusive() {
    let mut s = switch("s", 10, 0);
    s.trigger(15);
    s.trigger_count_max = 3;
    s.trigger_interval_seconds = 20;
    assert_eq!(s.status, SwitchStatus::Triggered);
    assert_eq!(s.last_trigger, Some(15));
    assert_eq!(s.trigger_count_executed, 1);
    assert!(!s.should_refire(34));
    assert!(s.should_refire(35));
    assert!(s.should_refire(36));
}

#[test]
fn refire_needs_a_last_trigger() {
    let mut s = switch("s", 10, 0);
    s.status = SwitchStatus::Triggered;
    s.trigger_count_max = 0;
    assert!(s.may_fire_again());
    assert!(!s.should_refire(1_000_000));
}

#[test]
fn cap_of_zero_never_stops_and_cap_of_n_stops_at_n() {
    let mut unbounded = switch("u", 10, 0);
    unbounded.trigger_count_max = 0;
    unbounded.trigger(10);
    for fire in 0..50 {
        assert!(unbounded.may_fire_again());
        unbounded.refire(11 + fire);
    }
    assert_eq!(unbounded.trigger_count_executed, 51);
    assert!(unbounded.may_fire_again());

    let mut capped = switch("c", 10, 0);
    capped.trigger_count_max = 3;
    capped.trigger(10);
    assert!(capped.may_fire_again());
    capped.refire(20);
    assert!(capped.may_fire_again());
    capped.refire(30);
    assert_eq!(capped.trigger_count_executed, 3);
    assert!(!capped.may_fire_again());
    assert!(!capped.should_refire(1_000));
}

#[test]
fn check_in_moves_only_the_deadline() {
    let mut s = switch("s", 60, 0);
    s.check_in(30);
    assert_eq!(s.last_checkin, 30);
    assert_eq!(s.status, SwitchStatus::Active);
    assert_eq!(s.trigger_count_executed, 0);
    assert!(!s.is_expired(89));
    assert!(s.is_expired(90));
}

#[test]
fn pending_stages_are_due_unsent_and_listed_once() {
    let s = switch("s", 100, 0);
    let stages =
        vec![stage("s", 10), stage("s", 30), stage("s", 30), stage("s", 50), stage("s", 70)];
    let none: Vec<WarningExecution> = Vec::new();
    assert_eq!(pending_warning_stages(&s, &stages, &none, 29), Vec::<i64>::new());
    assert_eq!(pending_warning_stages(&s, &stages, &none, 30), vec![70]);
    assert_eq!(pending_warning_stages(&s, &stages, &none, 70), vec![30, 50, 70]);
    let sent = vec![
        WarningExecution { id: 1, switch_id: "s".to_string(), stage_seconds: 50, executed_at: 50 },
        WarningExecution {
            id: 2,
            switch_id: "other".to_string(),
            stage_seconds: 30,
            executed_at: 50,
        },
    ];
    assert_eq!(pending_warning_stages(&s, &stages, &sent, 95), vec![10, 30, 70]);
}

#[test]
fn expiry_takes_precedence_over_warnings() {
    let mut store = Store::new();
    db::create_switch(&mut store, &switch("s", 60, 0)).unwrap();
    db::create_warning_stage(&mut store, &stage("s", 20)).unwrap();
    db::create_action(&mut store, &action("s", "email", 0, true)).unwrap();
    db::create_action(&mut store, &action("s", "webhook", 0, false)).unwrap();
    let s = db::get_switch_by_id(&store, "s").unwrap();
    let plan = plan_for_switch(&store, &s, 60);
    assert_eq!(plan.len(), 1);
    assert_eq!(plan[0].kind, FiringKind::Expiry);
    assert_eq!(plan[0].execution_type(), ExecutionType::Final);
    assert_eq!(plan[0].actions.len(), 1);
    assert_eq!(plan[0].actions[0].action_type, "webhook");
    let before = plan_for_switch(&store, &s, 59);
    assert_eq!(before.len(), 1);
    assert_eq!(before[0].kind, FiringKind::Warning { stage_seconds: 20 });
    assert_eq!(before[0].execution_type(), ExecutionType::Warning);
    assert_eq!(before[0].actions[0].action_type, "email");
}

#[test]
fn paused_switches_are_never_planned() {
    let mut store = Store::new();
    let mut paused = switch("p", 10, 0);
    paused.status = SwitchStatus::Paused;
    paused.last_trigger = Some(0);
    paused.trigger_count_max = 0;
    db::create_switch(&mut store, &paused).unwrap();
    db::create_warning_stage(&mut store, &stage("p", 5)).unwrap();
    assert!(plan_active_sweep(&store, 1_000).is_empty());
    assert!(plan_triggered_sweep(&store, 1_000).is_empty());
}

#[test]
fn expiry_scenario() {
    let mut store = Store::new();
    let mut dog = Watchdog::new();
    db::create_switch(&mut store, &switch("s", 60, 0)).unwrap();
    let action_id = db::create_action(&mut store, &action("s", "webhook", 0, false)).unwrap();
    assert_eq!(tick(&mut store, &mut dog, 70, ok), 1);
    let s = db::get_switch_by_id(&store, "s").unwrap();
    assert_eq!(s.status, SwitchStatus::Triggered);
    assert_eq!(s.last_trigger, Some(70));
    assert_eq!(s.trigger_count_executed, 1);
    let rows = db::list_action_executions(&store);
    assert_eq!(rows.len(), 1);
    assert_eq!(rows[0].status, ExecutionStatus::Completed);
    assert_eq!(rows[0].execution_type, ExecutionType::Final);
    assert_eq!(rows[0].action_id, action_id);
    assert_eq!(rows[0].switch_id, "s");
    assert_eq!(rows[0].started_at, 70);
    assert_eq!(rows[0].completed_at, Some(70));
    assert_eq!(rows[0].exit_code, Some(0));
    assert_eq!(rows[0].stdout, Some("done".to_string()));
    assert_eq!(rows[0].error_message, None);
    assert!(db::list_warning_executions(&store).is_empty());
    assert_eq!(dog.phase(), Phase::Idle);
}

#[test]
fn warning_fires_exactly_once() {
    let mut store = Store::new();
    let mut dog = Watchdog::new();
    db::create_switch(&mut store, &switch("s", 60, 0)).unwrap();
    db::create_warning_stage(&mut store, &stage("s", 20)).unwrap();
    db::create_action(&mut store, &action("s", "email", 0, true)).unwrap();
    assert_eq!(tick(&mut store, &mut dog, 39, ok), 0);
    assert_eq!(tick(&mut store, &mut dog, 45, ok), 1);
    assert_eq!(tick(&mut store, &mut dog, 50, ok), 0);
    let markers = db::list_warning_executions(&store);
    assert_eq!(markers.len(), 1);
    assert_eq!(markers[0].stage_seconds, 20);
    assert_eq!(markers[0].switch_id, "s");
    assert_eq!(markers[0].executed_at, 45);
    let rows = db::list_action_executions(&store);
    assert_eq!(rows.len(), 1);
    assert_eq!(rows[0].execution_type, ExecutionType::Warning);
    assert_eq!(db::get_switch_by_id(&store, "s").unwrap().status, SwitchStatus::Active);
}

#[test]
fn bounded_refires() {
    let mut store = Store::new();
    let mut dog = Watchdog::new();
    let mut s = switch("s", 10, 0);
    s.trigger_count_max = 3;
    s.trigger_interval_seconds = 20;
    db::create_switch(&mut store, &s).unwrap();
    db::create_action(&mut store, &action("s", "webhook", 0, false)).unwrap();

    assert_eq!(tick(&mut store, &mut dog, 15, ok), 1);
    assert_eq!(db::get_switch_by_id(&store, "s").unwrap().trigger_count_executed, 1);
    assert_eq!(tick(&mut store, &mut dog, 35, ok), 1);
    assert_eq!(db::get_switch_by_id(&store, "s").unwrap().trigger_count_executed, 2);
    assert_eq!(tick(&mut store, &mut dog, 55, ok), 1);
    assert_eq!(db::get_switch_by_id(&store, "s").unwrap().trigger_count_executed, 3);
    assert_eq!(tick(&mut store, &mut dog, 75, ok), 0);
    let after = db::get_switch_by_id(&store, "s").unwrap();
    assert_eq!(after.trigger_count_executed, 3);
    assert_eq!(after.last_trigger, Some(55));
    assert_eq!(after.status, SwitchStatus::Triggered);
    assert_eq!(db::list_action_executions(&store).len(), 3);
}

#[test]
fn refire_waits_for_the_interval() {
    let mut store = Store::new();
    let mut dog = Watchdog::new();
    let mut s = switch("s", 10, 0);
    s.trigger_count_max = 0;
    s.trigger_interval_seconds = 20;
    db::create_switch(&mut store, &s).unwrap();
    db::create_action(&mut store, &action("s", "webhook", 0, false)).unwrap();
    assert_eq!(tick(&mut store, &mut dog, 15, ok), 1);
    assert_eq!(tick(&mut store, &mut dog, 34, ok), 0);
    assert_eq!(tick(&mut store, &mut dog, 35, ok), 1);
    assert_eq!(db::get_switch_by_id(&store, "s").unwrap().trigger_count_executed, 2);
}

#[test]
fn a_switch_that_expires_is_not_refired_in_the_same_tick() {
    let mut store = Store::new();
    let mut dog = Watchdog::new();
    let mut s = switch("s", 10, 0);
    s.trigger_count_max = 0;
    s.trigger_interval_seconds = 1;
    db::create_switch(&mut store, &s).unwrap();
    db::create_action(&mut store, &action("s", "webhook", 0, false)).unwrap();
    assert_eq!(tick(&mut store, &mut dog, 500, ok), 1);
    assert_eq!(db::get_switch_by_id(&store, "s").unwrap().trigger_count_executed, 1);
}

#[test]
fn the_sweep_run_twice_adds_nothing() {
    let mut store = Store::new();
    let mut dog = Watchdog::new();
    db::create_switch(&mut store, &switch("a", 60, 0)).unwrap();
    db::create_switch(&mut store, &switch("b", 100, 0)).unwrap();
    db::create_switch(&mut store, &switch("c", 1000, 0)).unwrap();
    db::create_warning_stage(&mut store, &stage("b", 50)).unwrap();
    db::create_warning_stage(&mut store, &stage("b", 30)).unwrap();
    db::create_warning_stage(&mut store, &stage("b", 10)).unwrap();
    db::create_warning_stage(&mut store, &stage("c", 10)).unwrap();
    for id in ["a", "b", "c"] {
        db::create_action(&mut store, &action(id, "email", 0, true)).unwrap();
        db::create_action(&mut store, &action(id, "webhook", 0, false)).unwrap();
        db::create_action(&mut store, &action(id, "script", 1, false)).unwrap();
    }
    let handed = tick(&mut store, &mut dog, 75, ok);
    assert_eq!(handed, 2 + 2);
    let markers = db::list_warning_executions(&store).len();
    let rows = db::list_action_executions(&store).len();
    assert_eq!(markers, 2);
    assert_eq!(rows, 4);
    assert!(plan_active_sweep(&store, 75).is_empty());
    assert_eq!(tick(&mut store, &mut dog, 75, ok), 0);
    assert_eq!(db::list_warning_executions(&store).len(), markers);
    assert_eq!(db::list_action_executions(&store).len(), rows);
}

#[test]
fn a_failing_action_does_not_stop_the_others() {
    fn failing() -> ActionResult {
        Err("connection refused".to_string())
    }
    let mut store = Store::new();
    let mut dog = Watchdog::new();
    db::create_switch(&mut store, &switch("s", 60, 0)).unwrap();
    db::create_action(&mut store, &action("s", "webhook", 0, false)).unwrap();
    db::create_action(&mut store, &action("s", "carrier-pigeon", 1, false)).unwrap();
    db::create_action(&mut store, &action("s", "script", 2, false)).unwrap();
    assert_eq!(tick(&mut store, &mut dog, 60, failing), 2);
    let mut rows = db::list_action_executions(&store);
    rows.sort_by_key(|row| row.id);
    assert_eq!(rows.len(), 3);
    assert_eq!(rows[0].status, ExecutionStatus::Failed);
    assert_eq!(rows[0].error_message, Some("connection refused".to_string()));
    assert_eq!(rows[0].exit_code, None);
    assert_eq!(rows[1].status, ExecutionStatus::Failed);
    assert_eq!(rows[1].error_message, Some("Unknown action type: carrier-pigeon".to_string()));
    assert_eq!(rows[2].status, ExecutionStatus::Failed);
    assert!(rows.iter().all(|row| row.completed_at == Some(60)));
    assert_eq!(db::get_switch_by_id(&store, "s").unwrap().status, SwitchStatus::Triggered);
}

#[test]
fn a_non_zero_exit_code_fails_the_record() {
    fn exits_with_three() -> ActionResult {
        Ok((3, "out".to_string(), "err".to_string()))
    }
    let mut store = Store::new();
    let mut dog = Watchdog::new();
    db::create_switch(&mut store, &switch("s", 60, 0)).unwrap();
    db::create_action(&mut store, &action("s", "script", 0, false)).unwrap();
    assert_eq!(tick(&mut store, &mut dog, 61, exits_with_three), 1);
    let rows = db::list_action_executions(&store);
    assert_eq!(rows[0].status, ExecutionStatus::Failed);
    assert_eq!(rows[0].exit_code, Some(3));
    assert_eq!(rows[0].stderr, Some("err".to_string()));
    assert_eq!(rows[0].error_message, None);
}

#[test]
fn the_machine_hands_out_what_the_driver_needs() {
    let mut store = Store::new();
    let mut dog = Watchdog::new();
    db::create_switch(&mut store, &switch("s", 60, 0)).unwrap();
    db::create_warning_stage(&mut store, &stage("s", 30)).unwrap();
    let action_id = db::create_action(&mut store, &action("s", "script", 0, true)).unwrap();
    match run_watchdog(&mut store, &mut dog, Event::Tick { now: 30 }) {
        Command::Run { execution_id, kind, action, switch_id, execution_type } => {
            assert_eq!(execution_id, 1);
            assert_eq!(kind, ActionKind::Script);
            assert_eq!(action.id, action_id);
            assert_eq!(switch_id, "s");
            assert_eq!(execution_type, ExecutionType::Warning);
        }
        other => panic!("expected an action, got {:?}", other),
    }
    assert_eq!(dog.phase(), Phase::Active);
    let running = db::list_action_executions(&store);
    assert_eq!(running[0].status, ExecutionStatus::Running);
    assert_eq!(running[0].completed_at, None);
    assert!(db::list_warning_executions(&store).is_empty());
    assert!(matches!(
        run_watchdog(&mut store, &mut dog, Event::Tick { now: 31 }),
        Command::AwaitResult
    ));
    let done = run_watchdog(&mut store, &mut dog, Event::Finished { outcome: ok(), now: 33 });
    assert!(matches!(done, Command::Sleep { seconds: 10 }));
    let rows = db::list_action_executions(&store);
    assert_eq!(rows[0].started_at, 30);
    assert_eq!(rows[0].completed_at, Some(33));
    let markers = db::list_warning_executions(&store);
    assert_eq!(markers.len(), 1);
    assert_eq!(markers[0].executed_at, 30);
    assert!(matches!(
        run_watchdog(&mut store, &mut dog, Event::Finished { outcome: ok(), now: 34 }),
        Command::Sleep { seconds: 10 }
    ));
    assert_eq!(db::list_action_executions(&store).len(), 1);
}

#[test]
fn a_firing_without_actions_is_still_recorded() {
    let mut store = Store::new();
    let mut dog = Watchdog::new();
    db::create_switch(&mut store, &switch("s", 60, 0)).unwrap();
    db::create_warning_stage(&mut store, &stage("s", 20)).unwrap();
    assert_eq!(tick(&mut store, &mut dog, 40, ok), 0);
    assert_eq!(db::list_warning_executions(&store).len(), 1);
    assert_eq!(tick(&mut store, &mut dog, 60, ok), 0);
    assert_eq!(db::get_switch_by_id(&store, "s").unwrap().status, SwitchStatus::Triggered);
}

#[test]
fn crash_recovery_closes_running_records() {
    let mut store = Store::new();
    let mut dog = Watchdog::new();
    db::create_switch(&mut store, &switch("s", 60, 0)).unwrap();
    let first = db::create_action_execution(&mut store, "s", 1, ExecutionType::Final, 10).unwrap();
    let second =
        db::create_action_execution(&mut store, "s", 2, ExecutionType::Warning, 11).unwrap();
    let third = db::create_action_execution(&mut store, "s", 3, ExecutionType::Final, 12).unwrap();
    db::complete_action_execution(
        &mut store,
        third,
        13,
        Some(0),
        Some(String::new()),
        Some(String::new()),
        None,
    );
    let command = run_watchdog(&mut store, &mut dog, Event::Started { now: 20 });
    assert!(matches!(command, Command::Sleep { seconds: 0 }));
    let rows = db::list_action_executions(&store);
    assert_eq!(rows.len(), 3);
    assert!(rows.iter().all(|row| row.status != ExecutionStatus::Running));
    for row in rows.iter().filter(|row| row.id == first || row.id == second) {
        assert_eq!(row.status, ExecutionStatus::Failed);
        assert_eq!(row.error_message, Some("Process crashed during execution".to_string()));
        assert_eq!(row.completed_at, Some(20));
    }
    let kept = rows.iter().find(|row| row.id == third).unwrap();
    assert_eq!(kept.status, ExecutionStatus::Completed);
    assert_eq!(kept.error_message, None);
    assert_eq!(kept.completed_at, Some(13));
}

#[test]
fn commit_records_each_kind_of_firing() {
    let mut store = Store::new();
    db::create_switch(&mut store, &switch("s", 60, 0)).unwrap();
    let warning = Firing {
        switch_id: "s".to_string(),
        kind: FiringKind::Warning { stage_seconds: 20 },
        actions: Vec::new(),
    };
    commit(&mut store, &warning, 41).unwrap();
    assert!(db::was_warning_sent(&store, "s", 20));
    assert!(!db::was_warning_sent(&store, "s", 21));
    let expiry =
        Firing { switch_id: "s".to_string(), kind: FiringKind::Expiry, actions: Vec::new() };
    commit(&mut store, &expiry, 60).unwrap();
    let refire =
        Firing { switch_id: "s".to_string(), kind: FiringKind::Refire, actions: Vec::new() };
    commit(&mut store, &refire, 120).unwrap();
    let s = db::get_switch_by_id(&store, "s").unwrap();
    assert_eq!(s.status, SwitchStatus::Triggered);
    assert_eq!(s.last_trigger, Some(120));
    assert_eq!(s.trigger_count_executed, 2);
}

#[test]
fn firings_are_planned_from_rows_alone() {
    let s = switch("s", 60, 0);
    let stages = vec![stage("s", 20), stage("s", 40)];
    let warnings = vec![action("s", "email", 0, true)];
    let finals = vec![action("s", "webhook", 0, false), action("s", "script", 1, false)];
    let none: Vec<WarningExecution> = Vec::new();

    assert!(plan_firings(&s, &stages, &none, &warnings, &finals, 19).is_empty());
    let early = plan_firings(&s, &stages, &none, &warnings, &finals, 45);
    assert_eq!(early.len(), 2);
    assert_eq!(early[0].kind, FiringKind::Warning { stage_seconds: 20 });
    assert_eq!(early[1].kind, FiringKind::Warning { stage_seconds: 40 });
    assert_eq!(early[0].actions.len(), 1);
    assert_eq!(early[0].actions[0].action_type, "email");
    assert_eq!(early[0].switch_id, "s");

    let late = plan_firings(&s, &stages, &none, &warnings, &finals, 60);
    assert_eq!(late.len(), 1);
    assert_eq!(late[0].kind, FiringKind::Expiry);
    assert_eq!(late[0].actions.len(), 2);
    assert_eq!(late[0].actions[1].action_type, "script");

    let mut triggered = switch("s", 60, 0);
    triggered.trigger(60);
    triggered.trigger_count_max = 0;
    triggered.trigger_interval_seconds = 30;
    assert!(plan_firings(&triggered, &stages, &none, &warnings, &finals, 200).is_empty());
    assert!(plan_refiring(&triggered, &finals, 89).is_empty());
    let again = plan_refiring(&triggered, &finals, 90);
    assert_eq!(again.len(), 1);
    assert_eq!(again[0].kind, FiringKind::Refire);
    assert_eq!(again[0].execution_type(), ExecutionType::Final);
    assert_eq!(again[0].actions.len(), 2);
    assert!(plan_refiring(&s, &finals, 1_000).is_empty());
}
