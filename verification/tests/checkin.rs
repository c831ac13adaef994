use axum::http::HeaderMap;
use sentinel::api::checkin::{
    authorize, authorize_now, checkin, checkin_at, extract_bearer_token, CheckinReply,
};
use sentinel::auth::tokens_match;
use sentinel::db::{self, Store};
use sentinel::models::{CheckinResponse, Switch, SwitchStatus};
use sentinel::watchdog::machine::{run_watchdog, Command, Event, Watchdog};

fn authorization(headers: &HeaderMap) -> Option<&str> {
    headers.get("authorization").and_then(|value| value.to_str().ok())
}

fn switch(id: &str, token: &str, timeout: i64, created: i64) -> Switch {
    Switch {
        id: id.to_string(),
        name: "heartbeat".to_string(),
        description: None,
        api_token: token.to_string(),
        timeout_seconds: timeout,
        last_checkin: created,
        last_trigger: None,
        status: SwitchStatus::Active,
        created_at: created,
        trigger_count_max: 1,
        trigger_interval_seconds: 60,
        trigger_count_executed: 0,
    }
}

#[test]
fn test_extract_bearer_token() {
    let mut headers = HeaderMap::new();
    headers.insert("authorization", "Bearer abc123def456".parse().unwrap());

    let token = extract_bearer_token(authorization(&headers));
    assert_eq!(token, Some("abc123def456".to_string()));
}

#[test]
fn test_extract_bearer_token_missing() {
    let headers = HeaderMap::new();
    let token = extract_bearer_token(authorization(&headers));
    assert_eq!(token, None);
}

#[test]
fn test_extract_bearer_token_invalid_format() {
    let mut headers = HeaderMap::new();
    headers.insert("authorization", "Basic abc123".parse().unwrap());

    let token = extract_bearer_token(authorization(&headers));
    assert_eq!(token, None);
}

#[test]
fn bearer_token_edge_cases() {
    assert_eq!(extract_bearer_token(Some("Bearer ")), Some(String::new()));
    assert_eq!(extract_bearer_token(Some("Bearer")), None);
    assert_eq!(extract_bearer_token(Some("bearer abc")), None);
    assert_eq!(extract_bearer_token(Some("Bearer  two")), Some(" two".to_string()));
    assert_eq!(extract_bearer_token(Some("Bearer t\u{f6}ken")), Some("t\u{f6}ken".to_string()));
    assert_eq!(extract_bearer_token(Some("")), None);
}

#[test]
fn tokens_match_compares_contents() {
    assert!(tokens_match("abc123", "abc123"));
    assert!(!tokens_match("abc123", "abc124"));
    assert!(!tokens_match("abc123", "abc12"));
    assert!(!tokens_match("abc123", ""));
    assert!(tokens_match("", ""));
}

#[test]
fn checkin_without_header_is_reported() {
    let mut store = Store::new();
    db::create_switch(&mut store, &switch("s1", "secret", 60, 0)).unwrap();
    let reply = checkin_at(&mut store, "s1", None, 30);
    assert_eq!(reply, CheckinReply::MissingAuthorization);
    assert_eq!(reply.status_code(), 401);
    assert_eq!(reply.body(), "{\"error\":\"Missing or invalid Authorization header\"}");
    let malformed = checkin_at(&mut store, "s1", Some("Basic secret"), 30);
    assert_eq!(malformed, CheckinReply::MissingAuthorization);
    assert_eq!(db::get_switch_by_id(&store, "s1").unwrap().last_checkin, 0);
}

#[test]
fn unknown_switch_and_wrong_token_answer_alike() {
    let mut store = Store::new();
    db::create_switch(&mut store, &switch("real-id", "secret", 60, 0)).unwrap();
    let unknown = checkin_at(&mut store, "unknown-id", Some("Bearer anything"), 10);
    let wrong = checkin_at(&mut store, "real-id", Some("Bearer not-the-secret"), 10);
    assert_eq!(unknown, CheckinReply::AuthenticationFailed);
    assert_eq!(unknown, wrong);
    assert_eq!(unknown.status_code(), 401);
    assert_eq!(unknown.status_code(), wrong.status_code());
    assert_eq!(unknown.body(), "{\"error\":\"Authentication failed\"}");
    assert_eq!(unknown.body().as_bytes(), wrong.body().as_bytes());
    assert_eq!(unknown.error_message(), Some("Authentication failed"));
    assert_eq!(db::get_switch_by_id(&store, "real-id").unwrap().last_checkin, 0);
}

#[test]
fn accepted_checkin_resets_the_deadline() {
    let mut store = Store::new();
    db::create_switch(&mut store, &switch("s1", "secret", 60, 0)).unwrap();
    let reply = checkin_at(&mut store, "s1", Some("Bearer secret"), 30);
    assert_eq!(
        reply,
        CheckinReply::Accepted(CheckinResponse {
            success: true,
            last_checkin: 30,
            next_deadline: 90
        })
    );
    assert_eq!(reply.status_code(), 200);
    assert_eq!(reply.error_message(), None);
    assert_eq!(reply.body(), "{\"success\":true,\"last_checkin\":30,\"next_deadline\":90}");
    assert_eq!(db::get_switch_by_id(&store, "s1").unwrap().last_checkin, 30);
}

#[test]
fn failure_replies_have_their_status_and_body() {
    assert_eq!(CheckinReply::LookupFailed.status_code(), 500);
    assert_eq!(CheckinReply::LookupFailed.body(), "{\"error\":\"Internal server error\"}");
    assert_eq!(CheckinReply::UpdateFailed.status_code(), 500);
    assert_eq!(CheckinReply::UpdateFailed.body(), "{\"error\":\"Failed to update checkin\"}");
}

#[test]
fn two_checkins_follow_the_clock() {
    let mut store = Store::new();
    db::create_switch(&mut store, &switch("s1", "secret", 60, 0)).unwrap();
    checkin_at(&mut store, "s1", Some("Bearer secret"), 100);
    let first = db::get_switch_by_id(&store, "s1").unwrap().last_checkin;
    checkin_at(&mut store, "s1", Some("Bearer secret"), 100 + 25);
    let second = db::get_switch_by_id(&store, "s1").unwrap().last_checkin;
    assert_eq!(first, 100);
    assert_eq!(second, 125);
    assert!(second - first >= 25);
}

#[test]
fn happy_checkin_prevents_firing() {
    let mut store = Store::new();
    let mut dog = Watchdog::new();
    db::create_switch(&mut store, &switch("s1", "secret", 60, 0)).unwrap();
    let reply = checkin_at(&mut store, "s1", Some("Bearer secret"), 30);
    assert_eq!(reply.status_code(), 200);
    let command = run_watchdog(&mut store, &mut dog, Event::Tick { now: 40 });
    assert!(matches!(command, Command::Sleep { seconds: 10 }));
    let s = db::get_switch_by_id(&store, "s1").unwrap();
    assert_eq!(s.last_checkin, 30);
    assert_eq!(s.status, SwitchStatus::Active);
    assert!(db::list_action_executions(&store).is_empty());
    assert!(db::list_warning_executions(&store).is_empty());
}

#[test]
fn a_deadline_that_cannot_be_written_down_is_not_accepted() {
    let mut store = Store::new();
    db::create_switch(&mut store, &switch("s1", "secret", i64::MAX, 0)).unwrap();
    let reply = checkin_at(&mut store, "s1", Some("Bearer secret"), 1);
    assert_eq!(reply, CheckinReply::UpdateFailed);
    assert_eq!(db::get_switch_by_id(&store, "s1").unwrap().last_checkin, 0);
    let fits = checkin_at(&mut store, "s1", Some("Bearer secret"), 0);
    assert_eq!(
        fits,
        CheckinReply::Accepted(CheckinResponse {
            success: true,
            last_checkin: 0,
            next_deadline: i64::MAX
        })
    );
}

#[test]
fn the_verdict_depends_on_switch_and_token_alone() {
    let s = switch("s1", "secret", 60, 0);
    assert_eq!(authorize(None, "secret", 5), CheckinReply::AuthenticationFailed);
    assert_eq!(authorize(Some(&s), "Secret", 5), CheckinReply::AuthenticationFailed);
    assert_eq!(
        authorize(Some(&s), "secret", 5),
        CheckinReply::Accepted(CheckinResponse {
            success: true,
            last_checkin: 5,
            next_deadline: 65
        })
    );
    assert_eq!(authorize_now(None, "secret"), CheckinReply::AuthenticationFailed);
    assert_eq!(authorize_now(Some(&s), "wrong"), CheckinReply::AuthenticationFailed);
}

#[test]
fn a_checkin_by_the_clock_records_the_present() {
    let mut store = Store::new();
    db::create_switch(&mut store, &switch("s1", "secret", 60, 0)).unwrap();
    match checkin(&mut store, "s1", Some("Bearer secret")) {
        CheckinReply::Accepted(response) => {
            assert!(response.success);
            assert!(response.last_checkin > 1_600_000_000);
            assert_eq!(response.next_deadline, response.last_checkin + 60);
            assert_eq!(
                db::get_switch_by_id(&store, "s1").unwrap().last_checkin,
                response.last_checkin
            );
        }
        other => panic!("expected an accepted check-in, got {:?}", other),
    }
    match authorize_now(Some(&switch("s1", "secret", 60, 0)), "secret") {
        CheckinReply::Accepted(response) => assert!(response.last_checkin > 1_600_000_000),
        other => panic!("expected an accepted check-in, got {:?}", other),
    }
    assert_eq!(
        checkin(&mut store, "s1", Some("Bearer wrong")),
        CheckinReply::AuthenticationFailed
    );
}
