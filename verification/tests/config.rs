use sentinel::config::{parse_unsigned, Config, ConfigError, Environment, Variable};

fn environment() -> Environment {
    Environment {
        database_url: None,
        smtp_host: Some("mail.example.org".to_string()),
        smtp_port: Some("465".to_string()),
        smtp_username: Some("user".to_string()),
        smtp_password: Some("password".to_string()),
        smtp_from: Some("sentinel@example.org".to_string()),
        bind_address: None,
        scripts_dir: None,
        script_timeout_seconds: None,
    }
}

#[test]
fn defaults_fill_what_is_unset() {
    let config = Config::from_env(&environment()).unwrap();
    assert_eq!(config.database_url, "sqlite:sentinel.db");
    assert_eq!(config.smtp.host, "mail.example.org");
    assert_eq!(config.smtp.port, 465);
    assert_eq!(config.smtp.username, "user");
    assert_eq!(config.smtp.password, "password");
    assert_eq!(config.smtp.from, "sentinel@example.org");
    assert_eq!(config.server.bind_address, "0.0.0.0:3000");
    assert_eq!(config.security.scripts_dir, "./scripts");
    assert_eq!(config.security.script_timeout_seconds, 60);
}

#[test]
fn what_is_set_is_taken() {
    let mut env = environment();
    env.database_url = Some("sqlite::memory:".to_string());
    env.bind_address = Some("127.0.0.1:8080".to_string());
    env.scripts_dir = Some("/srv/scripts".to_string());
    env.script_timeout_seconds = Some("5".to_string());
    let config = Config::from_env(&env).unwrap();
    assert_eq!(config.database_url, "sqlite::memory:");
    assert_eq!(config.server.bind_address, "127.0.0.1:8080");
    assert_eq!(config.security.scripts_dir, "/srv/scripts");
    assert_eq!(config.security.script_timeout_seconds, 5);
}

#[test]
fn the_relay_has_no_defaults() {
    let mut env = environment();
    env.smtp_from = None;
    assert_eq!(Config::from_env(&env).unwrap_err(), ConfigError::Missing(Variable::SmtpFrom));
    env.smtp_password = None;
    assert_eq!(Config::from_env(&env).unwrap_err(), ConfigError::Missing(Variable::SmtpPassword));
    env.smtp_username = None;
    assert_eq!(Config::from_env(&env).unwrap_err(), ConfigError::Missing(Variable::SmtpUsername));
    env.smtp_port = None;
    assert_eq!(Config::from_env(&env).unwrap_err(), ConfigError::Missing(Variable::SmtpPort));
    env.smtp_host = None;
    assert_eq!(Config::from_env(&env).unwrap_err(), ConfigError::Missing(Variable::SmtpHost));
}

#[test]
fn numbers_must_be_numbers_of_their_range() {
    let mut env = environment();
    env.smtp_port = Some("65536".to_string());
    assert_eq!(Config::from_env(&env).unwrap_err(), ConfigError::Invalid(Variable::SmtpPort));
    env.smtp_port = Some("smtp".to_string());
    assert_eq!(Config::from_env(&env).unwrap_err(), ConfigError::Invalid(Variable::SmtpPort));
    env.smtp_port = Some("65535".to_string());
    env.script_timeout_seconds = Some("-1".to_string());
    assert_eq!(
        Config::from_env(&env).unwrap_err(),
        ConfigError::Invalid(Variable::ScriptTimeoutSeconds)
    );
    env.script_timeout_seconds = Some("18446744073709551615".to_string());
    assert_eq!(Config::from_env(&env).unwrap().security.script_timeout_seconds, u64::MAX);
}

#[test]
fn unsigned_numbers_are_read_as_the_standard_library_reads_them() {
    for text in ["0", "7", "+7", "007", "65535", "65536", "", "+", "-0", "1 ", " 1", "1_0", "0x10",
        "++1", "99999999999999999999999", "18446744073709551615", "18446744073709551616", "\u{661}"]
    {
        assert_eq!(parse_unsigned(text, u64::MAX), text.parse::<u64>().ok(), "{:?}", text);
        assert_eq!(
            parse_unsigned(text, 65535),
            text.parse::<u16>().ok().map(u64::from),
            "{:?}",
            text
        );
    }
}

#[test]
fn variables_have_their_names() {
    assert_eq!(Variable::DatabaseUrl.name(), "DATABASE_URL");
    assert_eq!(Variable::SmtpHost.name(), "SMTP_HOST");
    assert_eq!(Variable::SmtpPort.name(), "SMTP_PORT");
    assert_eq!(Variable::SmtpUsername.name(), "SMTP_USERNAME");
    assert_eq!(Variable::SmtpPassword.name(), "SMTP_PASSWORD");
    assert_eq!(Variable::SmtpFrom.name(), "SMTP_FROM");
    assert_eq!(Variable::BindAddress.name(), "BIND_ADDRESS");
    assert_eq!(Variable::ScriptsDir.name(), "SCRIPTS_DIR");
    assert_eq!(Variable::ScriptTimeoutSeconds.name(), "SCRIPT_TIMEOUT_SECONDS");
}
