use sentinel::config::{SecurityConfig, SmtpConfig};
use sentinel::models::{EmailActionConfig, ExecutionType, ScriptActionConfig, WebhookActionConfig};
use sentinel::watchdog::actions::email::{
    envelope, invalid_recipient, recipients, sent, tls_mode, EmailFailure, TlsMode,
    SEND_TIMEOUT_SECONDS,
};
use sentinel::watchdog::actions::script::{
    build_command, not_found, not_run, resolve_script, script_outcome, unreadable_config,
};
use sentinel::watchdog::actions::webhook::{
    classify_response, method_from_upper, method_of, names_match, request_for, request_headers,
    unreadable_body, HttpMethod, WebhookFailure, REQUEST_TIMEOUT_SECONDS,
};

fn email(to: Option<&str>, bcc: &[&str]) -> EmailActionConfig {
    EmailActionConfig {
        to: to.map(|t| t.to_string()),
        bcc: bcc.iter().map(|b| b.to_string()).collect(),
        subject: "subject".to_string(),
        body: "body".to_string(),
    }
}

fn webhook(headers: Option<Vec<(&str, &str)>>, body: Option<&str>) -> WebhookActionConfig {
    WebhookActionConfig {
        url: "http://localhost/hook".to_string(),
        method: "POST".to_string(),
        headers: headers
            .map(|list| list.into_iter().map(|(n, v)| (n.to_string(), v.to_string())).collect()),
        body: body.map(|b| b.to_string()),
    }
}

#[test]
fn recipients_prefer_the_bcc_list() {
    assert_eq!(
        recipients(&email(Some("to@example.org"), &["a@example.org", "b@example.org"])),
        Ok(vec!["a@example.org".to_string(), "b@example.org".to_string()])
    );
    assert_eq!(
        recipients(&email(Some("to@example.org"), &[])),
        Ok(vec!["to@example.org".to_string()])
    );
    assert_eq!(recipients(&email(None, &[])), Err("No recipients specified".to_string()));
}

#[test]
fn port_465_means_implicit_tls() {
    assert_eq!(tls_mode(465), TlsMode::Wrapper);
    assert_eq!(tls_mode(587), TlsMode::Required);
    assert_eq!(tls_mode(25), TlsMode::Required);
    assert_eq!(tls_mode(0), TlsMode::Required);
    assert_eq!(SEND_TIMEOUT_SECONDS, 30);
}

#[test]
fn a_delivery_is_recorded_with_its_count() {
    assert_eq!(sent(3), Ok((0, "Email sent to 3 BCC recipients".to_string(), String::new())));
    assert_eq!(sent(1), Ok((0, "Email sent to 1 BCC recipients".to_string(), String::new())));
}

#[test]
fn email_failures_are_described() {
    assert_eq!(EmailFailure::Config.describe("eof"), "Failed to parse email config: eof");
    assert_eq!(EmailFailure::FromAddress.describe("x"), "Invalid 'from' address: x");
    assert_eq!(EmailFailure::Build.describe("x"), "Failed to build email: x");
    assert_eq!(EmailFailure::TlsParameters.describe("x"), "Failed to create TLS parameters: x");
    assert_eq!(EmailFailure::Transport.describe("x"), "Failed to create SMTP transport: x");
    assert_eq!(EmailFailure::Send.describe("x"), "Failed to send email: x");
    assert_eq!(EmailFailure::Join.describe("x"), "Task join error: x");
    assert_eq!(invalid_recipient("nobody", "no @"), "Invalid BCC address 'nobody': no @");
    assert_eq!(sentinel::watchdog::actions::email::timed_out(), "Email send timeout (30s)");
}

#[test]
fn get_and_post_are_allowed_in_any_case() {
    assert_eq!(method_of("GET"), Ok(HttpMethod::Get));
    assert_eq!(method_of("get"), Ok(HttpMethod::Get));
    assert_eq!(method_of("Post"), Ok(HttpMethod::Post));
    assert_eq!(method_of("pOsT"), Ok(HttpMethod::Post));
    assert_eq!(method_of("PUT"), Err("Unsupported HTTP method: PUT".to_string()));
    assert_eq!(method_of("delete"), Err("Unsupported HTTP method: delete".to_string()));
    assert_eq!(method_of(""), Err("Unsupported HTTP method: ".to_string()));
    assert_eq!(method_from_upper("GET", "get"), Ok(HttpMethod::Get));
    assert_eq!(method_from_upper("get", "get"), Err("Unsupported HTTP method: get".to_string()));
}

#[test]
fn a_body_implies_the_json_content_type() {
    let json = ("Content-Type".to_string(), "application/json".to_string());
    assert_eq!(request_headers(&webhook(None, Some("{}"))), vec![json.clone()]);
    assert_eq!(request_headers(&webhook(None, None)), Vec::<(String, String)>::new());
    let token = ("X-Token".to_string(), "abc".to_string());
    assert_eq!(
        request_headers(&webhook(Some(vec![("X-Token", "abc")]), Some("{}"))),
        vec![token.clone(), json.clone()]
    );
    assert_eq!(request_headers(&webhook(Some(vec![("X-Token", "abc")]), None)), vec![token]);
    let own = ("content-type".to_string(), "text/plain".to_string());
    assert_eq!(
        request_headers(&webhook(Some(vec![("content-type", "text/plain")]), Some("hi"))),
        vec![own]
    );
}

#[test]
fn header_names_match_whatever_their_case() {
    assert!(names_match("Content-Type", "content-type"));
    assert!(names_match("CONTENT-TYPE", "Content-Type"));
    assert!(!names_match("Content-Type", "Content_Type"));
    assert!(!names_match("Content-Type", "Content-Typ"));
    assert!(!names_match("K", "\u{212a}"));
}

#[test]
fn answers_are_classified_by_status() {
    assert_eq!(
        classify_response(200, "ok".to_string()),
        Ok((0, "Webhook executed successfully (HTTP 200)".to_string(), "ok".to_string()))
    );
    assert_eq!(
        classify_response(299, String::new()),
        Ok((0, "Webhook executed successfully (HTTP 299)".to_string(), String::new()))
    );
    assert_eq!(
        classify_response(199, "early".to_string()),
        Err("Webhook failed with HTTP 199: early".to_string())
    );
    assert_eq!(
        classify_response(300, "moved".to_string()),
        Err("Webhook failed with HTTP 300: moved".to_string())
    );
    assert_eq!(
        classify_response(503, "down".to_string()),
        Err("Webhook failed with HTTP 503: down".to_string())
    );
    assert_eq!(unreadable_body(), "(failed to read body)");
    assert_eq!(REQUEST_TIMEOUT_SECONDS, 30);
}

#[test]
fn webhook_failures_are_described() {
    assert_eq!(WebhookFailure::Config.describe("x"), "Failed to parse webhook config: x");
    assert_eq!(WebhookFailure::Client.describe("x"), "Failed to create HTTP client: x");
    assert_eq!(WebhookFailure::Transport.describe("x"), "Failed to execute webhook: x");
    assert_eq!(sentinel::watchdog::actions::webhook::timed_out(), "Webhook timeout (30s)");
}

#[test]
fn the_script_runs_in_its_sandbox() {
    let config = ScriptActionConfig {
        script_path: "notify.sh".to_string(),
        args: vec!["--loud".to_string(), "now".to_string()],
    };
    let security =
        SecurityConfig { scripts_dir: "/srv/scripts".to_string(), script_timeout_seconds: 60 };
    let resolved = resolve_script(&config, &security);
    assert_eq!(resolved, "/srv/scripts/notify.sh");
    let command = build_command(&config, &security, &resolved, "switch-1", ExecutionType::Final);
    assert_eq!(command.program, "timeout");
    assert_eq!(
        command.args,
        vec!["--signal=KILL", "60", "/srv/scripts/notify.sh", "--loud", "now"]
    );
    assert_eq!(
        command.env,
        vec![
            ("SWITCH_ID".to_string(), "switch-1".to_string()),
            ("EXECUTION_TYPE".to_string(), "final".to_string()),
            ("PATH".to_string(), "/usr/local/bin:/usr/bin:/bin".to_string()),
        ]
    );
    assert_eq!(command.working_dir, "/srv/scripts");
    assert_eq!(command.wait_seconds, 65);
    let warning = build_command(&config, &security, &resolved, "switch-1", ExecutionType::Warning);
    assert_eq!(warning.env[1].1, "warning");
}

#[test]
fn the_end_of_a_script_is_recorded() {
    assert_eq!(
        script_outcome(Some(0), "out".to_string(), "err".to_string()),
        Ok((0, "out".to_string(), "err".to_string()))
    );
    assert_eq!(
        script_outcome(Some(137), String::new(), String::new()),
        Ok((137, String::new(), String::new()))
    );
    assert_eq!(
        script_outcome(None, String::new(), "killed".to_string()),
        Ok((-1, String::new(), "killed".to_string()))
    );
    assert_eq!(not_found("\"/srv/scripts/x.sh\""), "Script not found: \"/srv/scripts/x.sh\"");
    assert_eq!(unreadable_config("eof"), "Failed to parse script config: eof");
    assert_eq!(not_run("denied"), "Failed to execute script: denied");
    assert_eq!(
        sentinel::watchdog::actions::script::timed_out(60),
        "Script timeout (60s + 5s buffer)"
    );
}

#[test]
fn the_message_goes_visibly_to_the_sender_alone() {
    let smtp = SmtpConfig {
        host: "mail.example.org".to_string(),
        port: 465,
        username: "user".to_string(),
        password: "secret".to_string(),
        from: "sentinel@example.org".to_string(),
    };
    let letter = envelope(&email(Some("to@example.org"), &["a@example.org"]), &smtp).unwrap();
    assert_eq!(letter.from, "sentinel@example.org");
    assert_eq!(letter.to, "sentinel@example.org");
    assert_eq!(letter.bcc, vec!["a@example.org"]);
    assert_eq!(letter.subject, "subject");
    assert_eq!(letter.body, "body");
    let single = envelope(&email(Some("to@example.org"), &[]), &smtp).unwrap();
    assert_eq!(single.bcc, vec!["to@example.org"]);
    assert_eq!(single.to, "sentinel@example.org");
    assert_eq!(envelope(&email(None, &[]), &smtp).unwrap_err(), "No recipients specified");
}

#[test]
fn the_request_is_put_together_from_the_configuration() {
    let request = request_for(&webhook(Some(vec![("X-Token", "abc")]), Some("{}"))).unwrap();
    assert_eq!(request.method, HttpMethod::Post);
    assert_eq!(request.url, "http://localhost/hook");
    assert_eq!(
        request.headers,
        vec![
            ("X-Token".to_string(), "abc".to_string()),
            ("Content-Type".to_string(), "application/json".to_string()),
        ]
    );
    assert_eq!(request.body, Some("{}".to_string()));
    let mut config = webhook(None, None);
    config.method = "patch".to_string();
    assert_eq!(request_for(&config).unwrap_err(), "Unsupported HTTP method: patch");
}
