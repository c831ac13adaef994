use sentinel::models::{Switch, SwitchStatus};
use sentinel::text::decimal_text;
use sentinel::web::dashboard::{
    escape_html, format_deadline, format_duration, format_relative_time, health, Health,
};

fn switch(timeout: i64, last_checkin: i64, status: SwitchStatus) -> Switch {
    Switch {
        id: "s".to_string(),
        name: "s".to_string(),
        description: None,
        api_token: "t".to_string(),
        timeout_seconds: timeout,
        last_checkin,
        last_trigger: None,
        status,
        created_at: 0,
        trigger_count_max: 0,
        trigger_interval_seconds: 1,
        trigger_count_executed: 0,
    }
}

#[test]
fn markup_is_escaped() {
    assert_eq!(escape_html("plain text"), "plain text");
    assert_eq!(escape_html(""), "");
    assert_eq!(
        escape_html("<a href=\"x\">Tom & Jerry's</a>"),
        "&lt;a href=&quot;x&quot;&gt;Tom &amp; Jerry&#39;s&lt;/a&gt;"
    );
    assert_eq!(escape_html("&amp;"), "&amp;amp;");
    assert_eq!(escape_html("gr\u{fc}\u{df}e <b>"), "gr\u{fc}\u{df}e &lt;b&gt;");
}

#[test]
fn durations_are_written_in_their_largest_unit() {
    assert_eq!(format_duration(0), "0 seconds");
    assert_eq!(format_duration(59), "59 seconds");
    assert_eq!(format_duration(60), "1 minutes");
    assert_eq!(format_duration(119), "1 minutes");
    assert_eq!(format_duration(3599), "59 minutes");
    assert_eq!(format_duration(3600), "1 hours");
    assert_eq!(format_duration(86399), "23 hours");
    assert_eq!(format_duration(86400), "1 days");
    assert_eq!(format_duration(200000), "2 days");
    assert_eq!(format_duration(-5), "-5 seconds");
}

#[test]
fn times_are_written_relative_to_now() {
    assert_eq!(format_relative_time(100, 130), "30 seconds ago");
    assert_eq!(format_relative_time(100, 100), "0 seconds ago");
    assert_eq!(format_relative_time(4000, 100), "1 hours from now");
    assert_eq!(format_relative_time(0, 172800), "2 days ago");
}

#[test]
fn deadlines_are_written_as_time_left_or_time_past() {
    let s = switch(60, 0, SwitchStatus::Active);
    assert_eq!(format_deadline(&s, 10), "in 50 seconds");
    assert_eq!(format_deadline(&s, 60), "0 seconds ago");
    assert_eq!(format_deadline(&s, 200), "2 minutes ago");
}

#[test]
fn health_follows_state_and_time_left() {
    assert_eq!(health(&switch(60, 0, SwitchStatus::Active), 0), Health::Alive);
    assert_eq!(health(&switch(60, 0, SwitchStatus::Active), 45), Health::Alive);
    assert_eq!(health(&switch(60, 0, SwitchStatus::Active), 46), Health::Warning);
    assert_eq!(health(&switch(60, 0, SwitchStatus::Active), 60), Health::Warning);
    assert_eq!(health(&switch(60, 0, SwitchStatus::Active), 61), Health::Expired);
    assert_eq!(health(&switch(60, 0, SwitchStatus::Triggered), 0), Health::Expired);
    assert_eq!(health(&switch(60, 0, SwitchStatus::Paused), 0), Health::Expired);
    assert_eq!(health(&switch(-8, 0, SwitchStatus::Active), -20), Health::Alive);
    assert_eq!(Health::Alive.class(), "alive");
    assert_eq!(Health::Warning.class(), "warning");
    assert_eq!(Health::Expired.class(), "expired");
}

#[test]
fn decimal_text_writes_signed_numbers() {
    assert_eq!(decimal_text(0), "0");
    assert_eq!(decimal_text(7), "7");
    assert_eq!(decimal_text(10), "10");
    assert_eq!(decimal_text(1234567890), "1234567890");
    assert_eq!(decimal_text(-42), "-42");
    assert_eq!(decimal_text(i64::MAX), "9223372036854775807");
    assert_eq!(decimal_text(i64::MIN), "-9223372036854775808");
}

#[test]
fn switch_states_read_back_as_written() {
    for status in [SwitchStatus::Active, SwitchStatus::Triggered, SwitchStatus::Paused] {
        assert_eq!(SwitchStatus::parse(status.as_str()), Some(status));
    }
    assert_eq!(SwitchStatus::Active.as_str(), "active");
    assert_eq!(SwitchStatus::Triggered.as_str(), "triggered");
    assert_eq!(SwitchStatus::Paused.as_str(), "paused");
    assert_eq!(SwitchStatus::parse("ACTIVE"), None);
    assert_eq!(SwitchStatus::parse(""), None);
}
