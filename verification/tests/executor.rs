use sentinel::db::{self, Store};
use sentinel::models::{
    Action, ActionKind, ExecutionStatus, ExecutionType, Switch, SwitchStatus,
};
use sentinel::watchdog::executor::{driver_for, execute_actions, Completion, Step};

fn action(id: i64, kind: &str) -> Action {
    Action {
        id,
        switch_id: "s".to_string(),
        action_order: id,
        action_type: kind.to_string(),
        is_warning: false,
        config: "{}".to_string(),
    }
}

fn switch(id: &str) -> Switch {
    Switch {
        id: id.to_string(),
        name: id.to_string(),
        description: None,
        api_token: "token".to_string(),
        timeout_seconds: 60,
        last_checkin: 0,
        last_trigger: None,
        status: SwitchStatus::Active,
        created_at: 0,
        trigger_count_max: 1,
        trigger_interval_seconds: 60,
        trigger_count_executed: 0,
    }
}

#[test]
fn drivers_are_found_by_name() {
    assert_eq!(driver_for(&action(1, "email")), Ok(ActionKind::Email));
    assert_eq!(driver_for(&action(1, "webhook")), Ok(ActionKind::Webhook));
    assert_eq!(driver_for(&action(1, "script")), Ok(ActionKind::Script));
    assert_eq!(driver_for(&action(1, "Email")), Err("Unknown action type: Email".to_string()));
    assert_eq!(driver_for(&action(1, "")), Err("Unknown action type: ".to_string()));
}

#[test]
fn names_read_back_as_written() {
    for kind in [ActionKind::Email, ActionKind::Webhook, ActionKind::Script] {
        assert_eq!(ActionKind::parse(kind.as_str()), Some(kind));
    }
    for kind in [ExecutionType::Warning, ExecutionType::Final] {
        assert_eq!(ExecutionType::parse(kind.as_str()), Some(kind));
    }
    for status in [ExecutionStatus::Running, ExecutionStatus::Completed, ExecutionStatus::Failed] {
        assert_eq!(ExecutionStatus::parse(status.as_str()), Some(status));
    }
    assert_eq!(ExecutionType::Final.as_str(), "final");
    assert_eq!(ExecutionType::parse("finale"), None);
}

#[test]
fn a_result_becomes_what_is_written_on_the_record() {
    let done = Completion::from_outcome(Ok((0, "out".to_string(), "err".to_string())));
    assert_eq!(done.exit_code, Some(0));
    assert_eq!(done.stdout, Some("out".to_string()));
    assert_eq!(done.stderr, Some("err".to_string()));
    assert_eq!(done.error_message, None);
    assert_eq!(done.status(), ExecutionStatus::Completed);
    let exited = Completion::from_outcome(Ok((1, String::new(), String::new())));
    assert_eq!(exited.status(), ExecutionStatus::Failed);
    let failed = Completion::from_outcome(Err("no route".to_string()));
    assert_eq!(failed.exit_code, None);
    assert_eq!(failed.stdout, None);
    assert_eq!(failed.stderr, None);
    assert_eq!(failed.error_message, Some("no route".to_string()));
    assert_eq!(failed.status(), ExecutionStatus::Failed);
}

#[test]
fn the_runner_goes_through_every_action_in_order() {
    let mut store = Store::new();
    db::create_switch(&mut store, &switch("s")).unwrap();
    let actions = vec![action(11, "email"), action(12, "telegraph"), action(13, "script")];
    let mut runner = execute_actions("s", actions, ExecutionType::Final);
    assert!(!runner.is_done());
    assert_eq!(runner.position(), 0);

    match runner.start_next(&mut store, 100) {
        Step::Dispatch { execution_id, kind, action, switch_id, execution_type } => {
            assert_eq!(execution_id, 1);
            assert_eq!(kind, ActionKind::Email);
            assert_eq!(action.id, 11);
            assert_eq!(switch_id, "s");
            assert_eq!(execution_type, ExecutionType::Final);
        }
        other => panic!("expected a dispatch, got {:?}", other),
    }
    assert_eq!(runner.running(), Some(1));
    assert!(matches!(runner.start_next(&mut store, 101), Step::Busy));
    assert_eq!(db::list_action_executions(&store).len(), 1);
    assert!(runner.finish(&mut store, Err("relay down".to_string()), 102));
    assert_eq!(runner.running(), None);
    assert!(!runner.finish(&mut store, Ok((0, String::new(), String::new())), 103));

    assert!(matches!(runner.start_next(&mut store, 104), Step::Rejected { execution_id: 2 }));
    assert_eq!(runner.running(), None);

    assert!(matches!(runner.start_next(&mut store, 105), Step::Dispatch { execution_id: 3, .. }));
    assert!(!runner.is_done());
    assert!(runner.finish(&mut store, Ok((0, "fine".to_string(), String::new())), 106));
    assert!(runner.is_done());
    assert!(matches!(runner.start_next(&mut store, 107), Step::Done));
    assert_eq!(runner.position(), 3);

    let mut rows = db::list_action_executions(&store);
    rows.sort_by_key(|row| row.id);
    assert_eq!(rows.len(), 3);
    assert_eq!(rows[0].action_id, 11);
    assert_eq!(rows[0].status, ExecutionStatus::Failed);
    assert_eq!(rows[0].error_message, Some("relay down".to_string()));
    assert_eq!(rows[0].started_at, 100);
    assert_eq!(rows[0].completed_at, Some(102));
    assert_eq!(rows[1].action_id, 12);
    assert_eq!(rows[1].status, ExecutionStatus::Failed);
    assert_eq!(rows[1].error_message, Some("Unknown action type: telegraph".to_string()));
    assert_eq!(rows[1].completed_at, Some(104));
    assert_eq!(rows[2].action_id, 13);
    assert_eq!(rows[2].status, ExecutionStatus::Completed);
    assert_eq!(rows[2].stdout, Some("fine".to_string()));
}

#[test]
fn a_runner_without_actions_is_done_at_once() {
    let mut store = Store::new();
    let mut runner = execute_actions("s", Vec::new(), ExecutionType::Warning);
    assert!(runner.is_done());
    assert!(matches!(runner.start_next(&mut store, 1), Step::Done));
    assert!(db::list_action_executions(&store).is_empty());
}

#[test]
fn actions_of_an_unknown_switch_are_passed_over() {
    let mut store = Store::new();
    let mut runner = execute_actions("nobody", vec![action(1, "email")], ExecutionType::Final);
    assert!(matches!(runner.start_next(&mut store, 1), Step::Unrecorded));
    assert!(runner.is_done());
    assert!(matches!(runner.start_next(&mut store, 2), Step::Done));
    assert!(db::list_action_executions(&store).is_empty());
}
