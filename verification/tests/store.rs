use sentinel::db::{self, derive_status, Store, StoreError};
use sentinel::models::{
    Action, ExecutionStatus, ExecutionType, Switch, SwitchStatus, WarningStage,
};

fn switch(id: &str, created: i64) -> Switch {
    Switch {
        id: id.to_string(),
        name: id.to_uppercase(),
        description: Some("a switch".to_string()),
        api_token: "token".to_string(),
        timeout_seconds: 60,
        last_checkin: created,
        last_trigger: None,
        status: SwitchStatus::Active,
        created_at: created,
        trigger_count_max: 0,
        trigger_interval_seconds: 10,
        trigger_count_executed: 0,
    }
}

fn action(id: &str, order: i64, is_warning: bool) -> Action {
    Action {
        id: 99,
        switch_id: id.to_string(),
        action_order: order,
        action_type: "webhook".to_string(),
        is_warning,
        config: format!("{{\"order\":{}}}", order),
    }
}

#[test]
fn a_new_store_is_empty() {
    let store = Store::new();
    assert_eq!(db::switch_count(&store), 0);
    assert!(db::list_switches(&store).is_empty());
    assert!(db::list_action_executions(&store).is_empty());
    assert!(db::list_warning_executions(&store).is_empty());
    assert!(db::get_switch_by_id(&store, "any").is_none());
}

#[test]
fn switches_are_listed_newest_first() {
    let mut store = Store::new();
    db::create_switch(&mut store, &switch("old", 10)).unwrap();
    db::create_switch(&mut store, &switch("new", 30)).unwrap();
    db::create_switch(&mut store, &switch("mid", 20)).unwrap();
    let ids: Vec<String> = db::list_switches(&store).into_iter().map(|s| s.id).collect();
    assert_eq!(ids, vec!["new", "mid", "old"]);
    assert_eq!(db::switch_count(&store), 3);
    let found = db::get_switch_by_id(&store, "mid").unwrap();
    assert_eq!(found.name, "MID");
    assert_eq!(found.description, Some("a switch".to_string()));
    assert_eq!(found.created_at, 20);
}

#[test]
fn a_second_switch_with_the_same_id_is_refused() {
    let mut store = Store::new();
    db::create_switch(&mut store, &switch("s", 10)).unwrap();
    assert_eq!(db::create_switch(&mut store, &switch("s", 20)), Err(StoreError::DuplicateSwitch));
    assert_eq!(db::switch_count(&store), 1);
    assert_eq!(db::get_switch_by_id(&store, "s").unwrap().created_at, 10);
}

#[test]
fn switches_are_found_by_state() {
    let mut store = Store::new();
    db::create_switch(&mut store, &switch("a", 1)).unwrap();
    db::create_switch(&mut store, &switch("b", 2)).unwrap();
    let mut paused = switch("c", 3);
    paused.status = SwitchStatus::Paused;
    db::create_switch(&mut store, &paused).unwrap();
    db::mark_switch_triggered(&mut store, "a", 100);
    let active: Vec<String> = db::get_active_switches(&store).into_iter().map(|s| s.id).collect();
    let triggered: Vec<String> =
        db::get_triggered_switches(&store).into_iter().map(|s| s.id).collect();
    assert_eq!(active, vec!["b"]);
    assert_eq!(triggered, vec!["a"]);
    let a = db::get_switch_by_id(&store, "a").unwrap();
    assert_eq!(a.last_trigger, Some(100));
    assert_eq!(a.trigger_count_executed, 1);
}

#[test]
fn updates_touch_only_the_named_switch() {
    let mut store = Store::new();
    db::create_switch(&mut store, &switch("a", 1)).unwrap();
    db::create_switch(&mut store, &switch("b", 2)).unwrap();
    db::update_checkin(&mut store, "a", 50);
    db::update_checkin(&mut store, "missing", 60);
    assert_eq!(db::get_switch_by_id(&store, "a").unwrap().last_checkin, 50);
    assert_eq!(db::get_switch_by_id(&store, "b").unwrap().last_checkin, 2);
    db::mark_switch_triggered(&mut store, "b", 70);
    db::update_trigger_execution(&mut store, "b", 80).unwrap();
    db::update_trigger_execution(&mut store, "b", 90).unwrap();
    let b = db::get_switch_by_id(&store, "b").unwrap();
    assert_eq!(b.trigger_count_executed, 3);
    assert_eq!(b.last_trigger, Some(90));
    assert_eq!(db::get_switch_by_id(&store, "a").unwrap().trigger_count_executed, 0);
}

#[test]
fn a_count_that_cannot_grow_is_reported() {
    let mut store = Store::new();
    let mut s = switch("s", 1);
    s.trigger_count_executed = i64::MAX;
    db::create_switch(&mut store, &s).unwrap();
    assert_eq!(db::update_trigger_execution(&mut store, "s", 5), Err(StoreError::Exhausted));
    let after = db::get_switch_by_id(&store, "s").unwrap();
    assert_eq!(after.trigger_count_executed, i64::MAX);
    assert_eq!(after.last_trigger, None);
    assert_eq!(db::update_trigger_execution(&mut store, "missing", 5), Ok(()));
}

#[test]
fn stages_come_back_sorted_by_lead() {
    let mut store = Store::new();
    db::create_switch(&mut store, &switch("s", 1)).unwrap();
    db::create_switch(&mut store, &switch("other", 2)).unwrap();
    for lead in [30, 10, 20, 10] {
        db::create_warning_stage(&mut store, &WarningStage {
                id: 7,
                switch_id: "s".to_string(),
                seconds_before_deadline: lead,
            })
            .unwrap();
    }
    db::create_warning_stage(&mut store, &WarningStage {
            id: 7,
            switch_id: "other".to_string(),
            seconds_before_deadline: 15,
        })
        .unwrap();
    let stages = db::get_warning_stages_for_switch(&store, "s");
    let leads: Vec<i64> = stages.iter().map(|s| s.seconds_before_deadline).collect();
    assert_eq!(leads, vec![10, 10, 20, 30]);
    let ids: Vec<i64> = stages.iter().map(|s| s.id).collect();
    assert_eq!(ids, vec![2, 4, 3, 1]);
    assert!(db::get_warning_stages_for_switch(&store, "nobody").is_empty());
}

#[test]
fn actions_come_back_in_their_order() {
    let mut store = Store::new();
    db::create_switch(&mut store, &switch("s", 1)).unwrap();
    db::create_switch(&mut store, &switch("t", 2)).unwrap();
    assert_eq!(db::create_action(&mut store, &action("s", 2, false)), Ok(1));
    assert_eq!(db::create_action(&mut store, &action("s", 0, false)), Ok(2));
    assert_eq!(db::create_action(&mut store, &action("s", 1, false)), Ok(3));
    assert_eq!(db::create_action(&mut store, &action("s", 0, true)), Ok(4));
    assert_eq!(db::create_action(&mut store, &action("t", 0, false)), Ok(5));
    let finals = db::get_actions_for_switch(&store, "s", false);
    let orders: Vec<i64> = finals.iter().map(|a| a.action_order).collect();
    assert_eq!(orders, vec![0, 1, 2]);
    assert_eq!(finals[0].id, 2);
    assert_eq!(finals[0].config, "{\"order\":0}");
    let warnings = db::get_actions_for_switch(&store, "s", true);
    assert_eq!(warnings.len(), 1);
    assert!(warnings[0].is_warning);
}

#[test]
fn markers_are_found_by_switch_and_stage() {
    let mut store = Store::new();
    db::create_switch(&mut store, &switch("s", 1)).unwrap();
    assert!(!db::was_warning_sent(&store, "s", 20));
    db::record_warning_execution(&mut store, "s", 20, 40).unwrap();
    assert!(db::was_warning_sent(&store, "s", 20));
    assert!(!db::was_warning_sent(&store, "s", 10));
    assert!(!db::was_warning_sent(&store, "t", 20));
    let markers = db::list_warning_executions(&store);
    assert_eq!(markers.len(), 1);
    assert_eq!(markers[0].id, 1);
    assert_eq!(markers[0].executed_at, 40);
}

#[test]
fn an_execution_runs_then_completes_or_fails() {
    let mut store = Store::new();
    db::create_switch(&mut store, &switch("s", 1)).unwrap();
    let a = db::create_action_execution(&mut store, "s", 5, ExecutionType::Final, 100).unwrap();
    let b = db::create_action_execution(&mut store, "s", 6, ExecutionType::Final, 101).unwrap();
    let c = db::create_action_execution(&mut store, "s", 7, ExecutionType::Warning, 102).unwrap();
    assert_eq!((a, b, c), (1, 2, 3));
    db::complete_action_execution(
        &mut store,
        a,
        110,
        Some(0),
        Some("out".to_string()),
        Some(String::new()),
        None,
    );
    db::complete_action_execution(&mut store, b, 111, Some(2), None, None, None);
    db::complete_action_execution(&mut store, c, 112, None, None, None, Some("boom".to_string()));
    db::complete_action_execution(&mut store, 99, 113, Some(0), None, None, None);
    let rows = db::get_execution_history(&store, "s");
    let ids: Vec<i64> = rows.iter().map(|r| r.id).collect();
    assert_eq!(ids, vec![3, 2, 1]);
    assert_eq!(rows[2].status, ExecutionStatus::Completed);
    assert_eq!(rows[2].completed_at, Some(110));
    assert_eq!(rows[2].stdout, Some("out".to_string()));
    assert_eq!(rows[1].status, ExecutionStatus::Failed);
    assert_eq!(rows[1].exit_code, Some(2));
    assert_eq!(rows[0].status, ExecutionStatus::Failed);
    assert_eq!(rows[0].error_message, Some("boom".to_string()));
    assert_eq!(rows[0].exit_code, None);
    assert_eq!(rows[0].execution_type, ExecutionType::Warning);
}

#[test]
fn status_follows_from_the_result() {
    assert_eq!(derive_status(Some(0), &None), ExecutionStatus::Completed);
    assert_eq!(derive_status(None, &None), ExecutionStatus::Completed);
    assert_eq!(derive_status(Some(1), &None), ExecutionStatus::Failed);
    assert_eq!(derive_status(Some(-1), &None), ExecutionStatus::Failed);
    assert_eq!(derive_status(Some(0), &Some("late".to_string())), ExecutionStatus::Failed);
    assert_eq!(derive_status(None, &Some(String::new())), ExecutionStatus::Failed);
}

#[test]
fn orphaned_executions_are_counted_and_failed() {
    let mut store = Store::new();
    db::create_switch(&mut store, &switch("s", 1)).unwrap();
    let a = db::create_action_execution(&mut store, "s", 1, ExecutionType::Final, 1).unwrap();
    db::create_action_execution(&mut store, "s", 2, ExecutionType::Final, 2).unwrap();
    db::complete_action_execution(&mut store, a, 3, Some(0), None, None, None);
    assert_eq!(db::mark_orphaned_executions_failed(&mut store, 9), 1);
    assert_eq!(db::mark_orphaned_executions_failed(&mut store, 10), 0);
    let rows = db::list_action_executions(&store);
    assert!(rows.iter().all(|r| r.status != ExecutionStatus::Running));
    let orphan = rows.iter().find(|r| r.id == 2).unwrap();
    assert_eq!(orphan.status, ExecutionStatus::Failed);
    assert_eq!(orphan.error_message, Some("Process crashed during execution".to_string()));
    assert_eq!(orphan.completed_at, Some(9));
    let done = rows.iter().find(|r| r.id == 1).unwrap();
    assert_eq!(done.status, ExecutionStatus::Completed);
    assert_eq!(done.completed_at, Some(3));
    assert!(rows.iter().all(|r| r.completed_at.is_some()));
}

#[test]
fn history_is_cut_off_after_a_hundred() {
    let mut store = Store::new();
    db::create_switch(&mut store, &switch("s", 1)).unwrap();
    db::create_switch(&mut store, &switch("t", 2)).unwrap();
    for at in 0..130 {
        db::create_action_execution(&mut store, "s", 1, ExecutionType::Final, at).unwrap();
        db::create_action_execution(&mut store, "t", 1, ExecutionType::Final, at).unwrap();
    }
    let rows = db::get_execution_history(&store, "s");
    assert_eq!(rows.len(), 100);
    assert_eq!(rows[0].started_at, 129);
    assert_eq!(rows[99].started_at, 30);
    assert!(rows.iter().all(|r| r.switch_id == "s"));
    assert_eq!(db::list_action_executions(&store).len(), 260);
}

#[test]
fn deleting_a_switch_takes_its_rows_along() {
    let mut store = Store::new();
    db::create_switch(&mut store, &switch("s", 1)).unwrap();
    db::create_switch(&mut store, &switch("t", 2)).unwrap();
    for id in ["s", "t"] {
        db::create_warning_stage(&mut store, &WarningStage {
                id: 0,
                switch_id: id.to_string(),
                seconds_before_deadline: 10,
            })
            .unwrap();
        db::create_action(&mut store, &action(id, 0, false)).unwrap();
        db::record_warning_execution(&mut store, id, 10, 50).unwrap();
        db::create_action_execution(&mut store, id, 1, ExecutionType::Final, 60).unwrap();
    }
    assert!(!db::delete_switch(&mut store, "nobody"));
    assert_eq!(db::switch_count(&store), 2);
    assert_eq!(db::list_action_executions(&store).len(), 2);
    assert!(db::delete_switch(&mut store, "s"));
    assert!(!db::delete_switch(&mut store, "s"));
    assert!(db::get_switch_by_id(&store, "s").is_none());
    assert!(db::get_warning_stages_for_switch(&store, "s").is_empty());
    assert!(db::get_actions_for_switch(&store, "s", false).is_empty());
    assert!(!db::was_warning_sent(&store, "s", 10));
    assert!(db::get_execution_history(&store, "s").is_empty());
    assert!(db::get_switch_by_id(&store, "t").is_some());
    assert_eq!(db::get_warning_stages_for_switch(&store, "t").len(), 1);
    assert_eq!(db::get_actions_for_switch(&store, "t", false).len(), 1);
    assert!(db::was_warning_sent(&store, "t", 10));
    assert_eq!(db::get_execution_history(&store, "t").len(), 1);
}

#[test]
fn rows_for_an_unknown_switch_are_refused() {
    let mut store = Store::new();
    db::create_switch(&mut store, &switch("s", 1)).unwrap();
    let stage = WarningStage { id: 0, switch_id: "nobody".to_string(), seconds_before_deadline: 5 };
    assert_eq!(db::create_warning_stage(&mut store, &stage), Err(StoreError::UnknownSwitch));
    assert_eq!(
        db::create_action(&mut store, &action("nobody", 0, false)),
        Err(StoreError::UnknownSwitch)
    );
    assert_eq!(
        db::record_warning_execution(&mut store, "nobody", 5, 1),
        Err(StoreError::UnknownSwitch)
    );
    assert_eq!(
        db::create_action_execution(&mut store, "nobody", 1, ExecutionType::Final, 1),
        Err(StoreError::UnknownSwitch)
    );
    assert!(db::holds_switch(&store, "s"));
    assert!(!db::holds_switch(&store, "nobody"));
    assert!(db::get_warning_stages_for_switch(&store, "nobody").is_empty());
    assert!(db::get_actions_for_switch(&store, "nobody", false).is_empty());
    assert!(!db::was_warning_sent(&store, "nobody", 5));
    assert!(db::list_action_executions(&store).is_empty());
    assert_eq!(db::create_action(&mut store, &action("s", 0, false)), Ok(1));
}
