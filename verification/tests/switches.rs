use sentinel::api::switches::{
    action_rows, create_switch, create_switch_with, get_switch, list_scripts, new_action,
    new_switch, prepare, prepare_with, stage_rows, validate, CreateError, ValidationError,
};
use sentinel::db::{self, Store, StoreError};
use sentinel::models::{CreateActionRequest, CreateSwitchRequest, ExecutionType, SwitchStatus};

fn request() -> CreateSwitchRequest {
    CreateSwitchRequest {
        name: "backup".to_string(),
        description: Some("nightly".to_string()),
        timeout_seconds: 3600,
        trigger_count_max: 3,
        trigger_interval_seconds: 600,
        warning_stages: vec![900, 300],
        warning_actions: vec![CreateActionRequest {
            action_type: "email".to_string(),
            config: "{\"subject\":\"late\"}".to_string(),
        }],
        final_actions: vec![
            CreateActionRequest {
                action_type: "webhook".to_string(),
                config: "{\"a\":1}".to_string(),
            },
            CreateActionRequest {
                action_type: "script".to_string(),
                config: "{\"b\":2}".to_string(),
            },
        ],
    }
}

#[test]
fn trigger_settings_are_validated() {
    let mut r = request();
    assert_eq!(validate(&r), Ok(()));
    r.trigger_count_max = 0;
    r.trigger_interval_seconds = 1;
    assert_eq!(validate(&r), Ok(()));
    r.trigger_interval_seconds = 0;
    assert_eq!(validate(&r), Err(ValidationError::TriggerIntervalTooShort));
    r.trigger_count_max = -1;
    assert_eq!(validate(&r), Err(ValidationError::NegativeTriggerCount));
    assert_eq!(ValidationError::NegativeTriggerCount.message(), "trigger_count_max must be >= 0");
    assert_eq!(
        ValidationError::TriggerIntervalTooShort.message(),
        "trigger_interval_seconds must be >= 1"
    );
}

#[test]
fn timeout_and_stages_are_validated() {
    let mut r = request();
    r.timeout_seconds = 1;
    r.warning_stages = Vec::new();
    assert_eq!(validate(&r), Ok(()));
    r.timeout_seconds = 0;
    assert_eq!(validate(&r), Err(ValidationError::TimeoutTooShort));
    r.timeout_seconds = -3600;
    assert_eq!(validate(&r), Err(ValidationError::TimeoutTooShort));
    r.trigger_interval_seconds = 0;
    assert_eq!(validate(&r), Err(ValidationError::TriggerIntervalTooShort));

    let mut r = request();
    r.timeout_seconds = 60;
    r.warning_stages = vec![1, 59];
    assert_eq!(validate(&r), Ok(()));
    for bad in [0, -1, 60, 61, i64::MAX, i64::MIN] {
        r.warning_stages = vec![30, bad, 10];
        assert_eq!(validate(&r), Err(ValidationError::StageOutOfRange), "{}", bad);
    }
    assert_eq!(ValidationError::TimeoutTooShort.message(), "timeout_seconds must be >= 1");
    assert_eq!(
        ValidationError::StageOutOfRange.message(),
        "warning_stages must be > 0 and < timeout_seconds"
    );
}

#[test]
fn a_request_with_a_stage_outside_the_timeout_stores_nothing() {
    let mut store = Store::new();
    let mut late = request();
    late.warning_stages = vec![900, 3600];
    assert_eq!(
        create_switch_with(&mut store, &late, "id-1", "t", 1).unwrap_err(),
        CreateError::Invalid(ValidationError::StageOutOfRange)
    );
    let mut short = request();
    short.timeout_seconds = 0;
    short.warning_stages = Vec::new();
    assert_eq!(
        create_switch_with(&mut store, &short, "id-1", "t", 1).unwrap_err(),
        CreateError::Invalid(ValidationError::TimeoutTooShort)
    );
    assert_eq!(
        create_switch(&mut store, &late).unwrap_err(),
        CreateError::Invalid(ValidationError::StageOutOfRange)
    );
    assert_eq!(prepare(&short).unwrap_err(), ValidationError::TimeoutTooShort);
    assert_eq!(db::switch_count(&store), 0);
    assert!(db::get_warning_stages_for_switch(&store, "id-1").is_empty());
    assert!(db::get_actions_for_switch(&store, "id-1", false).is_empty());
}

#[test]
fn a_new_switch_is_active_and_checked_in() {
    let s = new_switch(&request(), "id-1", "token-1", 1000);
    assert_eq!(s.id, "id-1");
    assert_eq!(s.api_token, "token-1");
    assert_eq!(s.name, "backup");
    assert_eq!(s.description, Some("nightly".to_string()));
    assert_eq!(s.timeout_seconds, 3600);
    assert_eq!(s.last_checkin, 1000);
    assert_eq!(s.created_at, 1000);
    assert_eq!(s.last_trigger, None);
    assert_eq!(s.status, SwitchStatus::Active);
    assert_eq!(s.trigger_count_max, 3);
    assert_eq!(s.trigger_interval_seconds, 600);
    assert_eq!(s.trigger_count_executed, 0);
    let a = new_action(&request().final_actions[1], "id-1", 1, false);
    assert_eq!(a.action_order, 1);
    assert_eq!(a.action_type, "script");
    assert_eq!(a.config, "{\"b\":2}");
    assert!(!a.is_warning);
}

#[test]
fn a_request_becomes_a_switch_with_its_rows() {
    let mut store = Store::new();
    let created = create_switch_with(&mut store, &request(), "id-1", "token-1", 1000).unwrap();
    assert_eq!(created.switch_id, "id-1");
    assert_eq!(created.api_token, "token-1");
    let detail = get_switch(&store, "id-1").unwrap();
    assert_eq!(detail.switch.name, "backup");
    let leads: Vec<i64> = detail.warning_stages.iter().map(|s| s.seconds_before_deadline).collect();
    assert_eq!(leads, vec![300, 900]);
    assert_eq!(detail.warning_actions.len(), 1);
    assert_eq!(detail.warning_actions[0].action_type, "email");
    assert_eq!(detail.warning_actions[0].action_order, 0);
    let finals: Vec<(i64, String)> =
        detail.final_actions.iter().map(|a| (a.action_order, a.action_type.clone())).collect();
    assert_eq!(finals, vec![(0, "webhook".to_string()), (1, "script".to_string())]);
    assert!(detail.execution_history.is_empty());
    assert!(get_switch(&store, "id-2").is_none());
    assert_eq!(db::list_switches(&store).len(), 1);
}

#[test]
fn a_refused_request_changes_nothing() {
    let mut store = Store::new();
    let mut invalid = request();
    invalid.trigger_interval_seconds = 0;
    assert_eq!(
        create_switch_with(&mut store, &invalid, "id-1", "t", 1).unwrap_err(),
        CreateError::Invalid(ValidationError::TriggerIntervalTooShort)
    );
    assert_eq!(db::switch_count(&store), 0);
    create_switch_with(&mut store, &request(), "id-1", "t", 1).unwrap();
    assert_eq!(
        create_switch_with(&mut store, &request(), "id-1", "u", 2).unwrap_err(),
        CreateError::Refused(StoreError::DuplicateSwitch)
    );
    assert_eq!(db::switch_count(&store), 1);
    assert_eq!(db::get_warning_stages_for_switch(&store, "id-1").len(), 2);
    assert_eq!(db::get_actions_for_switch(&store, "id-1", false).len(), 2);
}

#[test]
fn created_switches_get_fresh_identifiers_and_tokens() {
    let mut store = Store::new();
    let first = create_switch(&mut store, &request()).unwrap();
    let second = create_switch(&mut store, &request()).unwrap();
    assert_eq!(first.switch_id.len(), 36);
    assert_eq!(first.api_token.len(), 64);
    assert_ne!(first.switch_id, second.switch_id);
    assert_ne!(first.api_token, second.api_token);
    assert_eq!(first.switch_id.matches('-').count(), 4);
    let stored = db::get_switch_by_id(&store, &first.switch_id).unwrap();
    assert_eq!(stored.api_token, first.api_token);
    assert!(stored.last_checkin > 1_600_000_000);
    assert_eq!(stored.last_checkin, stored.created_at);
    assert_eq!(db::switch_count(&store), 2);
    let mut invalid = request();
    invalid.trigger_count_max = -5;
    assert_eq!(
        create_switch(&mut store, &invalid).unwrap_err(),
        CreateError::Invalid(ValidationError::NegativeTriggerCount)
    );
}

#[test]
fn deleting_reports_whether_the_switch_was_there() {
    let mut store = Store::new();
    create_switch_with(&mut store, &request(), "id-1", "t", 1).unwrap();
    db::create_action_execution(&mut store, "id-1", 1, ExecutionType::Final, 5).unwrap();
    assert!(db::delete_switch(&mut store, "id-1"));
    assert!(!db::delete_switch(&mut store, "id-1"));
    assert!(get_switch(&store, "id-1").is_none());
    assert!(db::list_action_executions(&store).is_empty());
    assert!(db::list_switches(&store).is_empty());
}

#[test]
fn hidden_files_are_not_listed_as_scripts() {
    let names = vec![
        "notify.sh".to_string(),
        ".hidden".to_string(),
        "a.b".to_string(),
        String::new(),
        ".".to_string(),
        "run".to_string(),
    ];
    assert_eq!(list_scripts(&names), vec!["notify.sh", "a.b", "", "run"]);
    assert_eq!(list_scripts(&Vec::new()), Vec::<String>::new());
}

#[test]
fn a_request_is_prepared_as_rows() {
    let prepared = prepare_with(&request(), "id-1", "token-1", 1000).unwrap();
    assert_eq!(prepared.switch.id, "id-1");
    assert_eq!(prepared.switch.created_at, 1000);
    let leads: Vec<i64> =
        prepared.warning_stages.iter().map(|s| s.seconds_before_deadline).collect();
    assert_eq!(leads, vec![900, 300]);
    assert!(prepared.warning_stages.iter().all(|s| s.switch_id == "id-1"));
    assert_eq!(prepared.warning_actions.len(), 1);
    assert!(prepared.warning_actions[0].is_warning);
    let finals: Vec<(i64, String, bool)> = prepared
        .final_actions
        .iter()
        .map(|a| (a.action_order, a.action_type.clone(), a.is_warning))
        .collect();
    assert_eq!(finals, vec![(0, "webhook".to_string(), false), (1, "script".to_string(), false)]);
    assert_eq!(stage_rows(&vec![5, 6], "x").len(), 2);
    assert_eq!(action_rows(&request().final_actions, "x", false)[1].action_order, 1);

    let mut invalid = request();
    invalid.trigger_count_max = -1;
    assert_eq!(
        prepare_with(&invalid, "id-1", "t", 1).unwrap_err(),
        ValidationError::NegativeTriggerCount
    );
    assert_eq!(prepare(&invalid).unwrap_err(), ValidationError::NegativeTriggerCount);

    let drawn = prepare(&request()).unwrap();
    assert_eq!(drawn.switch.id.len(), 36);
    assert_eq!(drawn.switch.api_token.len(), 64);
    assert!(drawn
        .switch
        .api_token
        .chars()
        .all(|c| c.is_ascii_digit() || ('a'..='f').contains(&c)));
    assert!(drawn.switch.created_at > 1_600_000_000);
    assert_eq!(drawn.switch.last_checkin, drawn.switch.created_at);
    assert!(drawn.final_actions.iter().all(|a| a.switch_id == drawn.switch.id));
}
