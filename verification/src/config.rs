//! The configuration of the service: its settings, the variables that
//! carry them, and how their texts become values.

use crate::models::opt_text;
use crate::text::chars_of;
use vstd::prelude::*;
use vstd::string::*;

verus! {

/// The configuration of the whole service.
#[derive(Debug)]
pub struct Config {
    pub database_url: String,
    pub smtp: SmtpConfig,
    pub server: ServerConfig,
    pub security: SecurityConfig,
}

/// How the mail relay is reached.
#[derive(Debug)]
pub struct SmtpConfig {
    pub host: String,
    pub port: u16,
    pub username: String,
    pub password: String,
    pub from: String,
}

/// Where the HTTP surface listens.
#[derive(Debug)]
pub struct ServerConfig {
    pub bind_address: String,
}

/// Where scripts live and how long one may run.
#[derive(Debug)]
pub struct SecurityConfig {
    pub scripts_dir: String,
    pub script_timeout_seconds: u64,
}

/// The variables that carry the configuration.
#[derive(Clone, Copy, Debug, PartialEq, Eq, Structural)]
pub enum Variable {
    DatabaseUrl,
    SmtpHost,
    SmtpPort,
    SmtpUsername,
    SmtpPassword,
    SmtpFrom,
    BindAddress,
    ScriptsDir,
    ScriptTimeoutSeconds,
}

impl Variable {
    /// The name of the variable in the environment.
    pub fn name(&self) -> (r: &'static str)
        ensures
            r@ == (match self {
                Variable::DatabaseUrl => "DATABASE_URL"@,
                Variable::SmtpHost => "SMTP_HOST"@,
                Variable::SmtpPort => "SMTP_PORT"@,
                Variable::SmtpUsername => "SMTP_USERNAME"@,
                Variable::SmtpPassword => "SMTP_PASSWORD"@,
                Variable::SmtpFrom => "SMTP_FROM"@,
                Variable::BindAddress => "BIND_ADDRESS"@,
                Variable::ScriptsDir => "SCRIPTS_DIR"@,
                Variable::ScriptTimeoutSeconds => "SCRIPT_TIMEOUT_SECONDS"@,
            }),
    {
        match self {
            Variable::DatabaseUrl => "DATABASE_URL",
            Variable::SmtpHost => "SMTP_HOST",
            Variable::SmtpPort => "SMTP_PORT",
            Variable::SmtpUsername => "SMTP_USERNAME",
            Variable::SmtpPassword => "SMTP_PASSWORD",
            Variable::SmtpFrom => "SMTP_FROM",
            Variable::BindAddress => "BIND_ADDRESS",
            Variable::ScriptsDir => "SCRIPTS_DIR",
            Variable::ScriptTimeoutSeconds => "SCRIPT_TIMEOUT_SECONDS",
        }
    }
}

/// What the environment holds for each variable; `None` where it is unset.
#[derive(Debug)]
pub struct Environment {
    pub database_url: Option<String>,
    pub smtp_host: Option<String>,
    pub smtp_port: Option<String>,
    pub smtp_username: Option<String>,
    pub smtp_password: Option<String>,
    pub smtp_from: Option<String>,
    pub bind_address: Option<String>,
    pub scripts_dir: Option<String>,
    pub script_timeout_seconds: Option<String>,
}

/// Why the configuration could not be read.
#[derive(Clone, Copy, Debug, PartialEq, Eq, Structural)]
pub enum ConfigError {
    /// A variable that has no default is unset.
    Missing(Variable),
    /// The text of a variable is not a number of its range.
    Invalid(Variable),
}

/// Whether `c` is a decimal digit.
pub open spec fn is_digit(c: char) -> bool {
    '0' <= c && c <= '9'
}

/// The number that a sequence of digits writes; 0 for none.
pub open spec fn digits_value(digits: Seq<char>) -> nat
    decreases digits.len(),
{
    if digits.len() == 0 {
        0
    } else {
        digits_value(digits.drop_last()) * 10 + ((digits.last() as u8) - ('0' as u8)) as nat
    }
}

/// The digits of a text that writes an unsigned number: the text itself, or
/// what follows one leading plus sign.
pub open spec fn unsigned_digits(text: Seq<char>) -> Seq<char> {
    if text.len() > 0 && text[0] == '+' {
        text.subrange(1, text.len() as int)
    } else {
        text
    }
}

/// The number that a text writes, if it writes one no larger than `max`:
/// an optional plus sign, then one decimal digit or more, and nothing else.
pub open spec fn unsigned_of(text: Seq<char>, max: nat) -> Option<nat> {
    let digits = unsigned_digits(text);
    if digits.len() > 0 && (forall|i: int| 0 <= i < digits.len() ==> is_digit(#[trigger] digits[i]))
        && digits_value(digits) <= max {
        Some(digits_value(digits))
    } else {
        None
    }
}

/// The value of digits only grows as more digits follow.
proof fn lemma_digits_value_grows(digits: Seq<char>, n: int)
    requires
        0 <= n <= digits.len(),
    ensures
        digits_value(digits.take(n)) <= digits_value(digits),
    decreases digits.len(),
{
    if n < digits.len() {
        let shorter = digits.drop_last();
        assert(shorter.take(n) =~= digits.take(n));
        lemma_digits_value_grows(shorter, n);
    } else {
        assert(digits.take(n) =~= digits);
    }
}

/// Reads the unsigned number that `text` writes, if it is no larger than
/// `max`.
pub fn parse_unsigned(text: &str, max: u64) -> (r: Option<u64>)
    ensures
        match r {
            Some(n) => unsigned_of(text@, max as nat) == Some(n as nat),
            None => unsigned_of(text@, max as nat) is None,
        },
{
    let chars = chars_of(text);
    let start: usize = if chars.len() > 0 && chars[0] == '+' {
        1
    } else {
        0
    };
    let ghost digits = unsigned_digits(text@);
    proof {
        assert(digits =~= chars@.subrange(start as int, chars@.len() as int));
    }
    if start == chars.len() {
        return None;
    }
    let mut value: u64 = 0;
    let mut i: usize = start;
    proof {
        assert(digits.take(0) =~= Seq::empty());
    }
    while i < chars.len()
        invariant
            start <= i <= chars@.len(),
            start < chars@.len(),
            digits == chars@.subrange(start as int, chars@.len() as int),
            digits == unsigned_digits(text@),
            forall|k: int| 0 <= k < i - start ==> is_digit(#[trigger] digits[k]),
            value as nat == digits_value(digits.take(i - start)),
            value <= max,
        decreases chars.len() - i,
    {
        let c = chars[i];
        proof {
            assert(digits[i - start] == c);
        }
        if !('0' <= c && c <= '9') {
            proof {
                assert(!is_digit(digits[i - start]));
            }
            return None;
        }
        let d: u128 = ((c as u8) - ('0' as u8)) as u128;
        let next: u128 = value as u128 * 10 + d;
        proof {
            let longer = digits.take(i - start + 1);
            assert(longer.drop_last() =~= digits.take(i - start));
            assert(longer.last() == c);
            assert(digits_value(longer) == next);
        }
        if next > max as u128 {
            proof {
                lemma_digits_value_grows(digits, i - start + 1);
            }
            return None;
        }
        value = next as u64;
        i = i + 1;
    }
    proof {
        assert(digits.take(digits.len() as int) =~= digits);
    }
    Some(value)
}

/// What a variable is taken to hold where it is unset.
pub open spec fn or_default(value: Option<String>, default: Seq<char>) -> Seq<char> {
    match value {
        Some(text) => text@,
        None => default,
    }
}

fn text_or(value: &Option<String>, default: &str) -> (r: String)
    ensures
        r@ == or_default(*value, default@),
{
    match value {
        Some(text) => text.clone(),
        None => String::from_str(default),
    }
}

fn required(value: &Option<String>, variable: Variable) -> (r: Result<String, ConfigError>)
    ensures
        match r {
            Ok(text) => *value matches Some(given) && text@ == given@,
            Err(e) => *value is None && e == ConfigError::Missing(variable),
        },
{
    match value {
        Some(text) => Ok(text.clone()),
        None => Err(ConfigError::Missing(variable)),
    }
}

/// What is wrong with the environment, if anything: the first of the mail
/// relay's five variables that is unset, the port before the user name, a
/// port that is no number up to 65535, or a script timeout that is no
/// number of 64 bits. The script timeout is looked at last.
pub open spec fn fault_of(env: Environment) -> Option<ConfigError> {
    if env.smtp_host is None {
        Some(ConfigError::Missing(Variable::SmtpHost))
    } else if env.smtp_port is None {
        Some(ConfigError::Missing(Variable::SmtpPort))
    } else if unsigned_of(env.smtp_port->0@, 65535) is None {
        Some(ConfigError::Invalid(Variable::SmtpPort))
    } else if env.smtp_username is None {
        Some(ConfigError::Missing(Variable::SmtpUsername))
    } else if env.smtp_password is None {
        Some(ConfigError::Missing(Variable::SmtpPassword))
    } else if env.smtp_from is None {
        Some(ConfigError::Missing(Variable::SmtpFrom))
    } else if unsigned_of(or_default(env.script_timeout_seconds, "60"@), u64::MAX as nat) is None {
        Some(ConfigError::Invalid(Variable::ScriptTimeoutSeconds))
    } else {
        None
    }
}

impl Config {
    /// Reads the configuration from what the environment holds. The
    /// database, the bind address, the scripts directory and the script
    /// timeout have defaults; the settings of the mail relay have none.
    pub fn from_env(env: &Environment) -> (r: Result<Config, ConfigError>)
        ensures
            match r {
                Ok(config) => {
                    &&& fault_of(*env) is None
                    &&& config.database_url@ == or_default(env.database_url, "sqlite:sentinel.db"@)
                    &&& opt_text(env.smtp_host) == Some(config.smtp.host@)
                    &&& unsigned_of(env.smtp_port->0@, 65535) == Some(config.smtp.port as nat)
                    &&& opt_text(env.smtp_username) == Some(config.smtp.username@)
                    &&& opt_text(env.smtp_password) == Some(config.smtp.password@)
                    &&& opt_text(env.smtp_from) == Some(config.smtp.from@)
                    &&& config.server.bind_address@ == or_default(env.bind_address, "0.0.0.0:3000"@)
                    &&& config.security.scripts_dir@ == or_default(env.scripts_dir, "./scripts"@)
                    &&& unsigned_of(or_default(env.script_timeout_seconds, "60"@), u64::MAX as nat)
                        == Some(config.security.script_timeout_seconds as nat)
                },
                Err(e) => fault_of(*env) == Some(e),
            },
    {
        let database_url = text_or(&env.database_url, "sqlite:sentinel.db");
        let host = match required(&env.smtp_host, Variable::SmtpHost) {
            Ok(text) => text,
            Err(e) => {
                return Err(e);
            },
        };
        let port_text = match required(&env.smtp_port, Variable::SmtpPort) {
            Ok(text) => text,
            Err(e) => {
                return Err(e);
            },
        };
        let port: u16 = match parse_unsigned(port_text.as_str(), 65535) {
            Some(n) => n as u16,
            None => {
                return Err(ConfigError::Invalid(Variable::SmtpPort));
            },
        };
        let username = match required(&env.smtp_username, Variable::SmtpUsername) {
            Ok(text) => text,
            Err(e) => {
                return Err(e);
            },
        };
        let password = match required(&env.smtp_password, Variable::SmtpPassword) {
            Ok(text) => text,
            Err(e) => {
                return Err(e);
            },
        };
        let from = match required(&env.smtp_from, Variable::SmtpFrom) {
            Ok(text) => text,
            Err(e) => {
                return Err(e);
            },
        };
        let bind_address = text_or(&env.bind_address, "0.0.0.0:3000");
        let scripts_dir = text_or(&env.scripts_dir, "./scripts");
        let timeout_text = text_or(&env.script_timeout_seconds, "60");
        let script_timeout_seconds = match parse_unsigned(timeout_text.as_str(), u64::MAX) {
            Some(n) => n,
            None => {
                return Err(ConfigError::Invalid(Variable::ScriptTimeoutSeconds));
            },
        };
        Ok(
            Config {
                database_url,
                smtp: SmtpConfig { host, port, username, password, from },
                server: ServerConfig { bind_address },
                security: SecurityConfig { scripts_dir, script_timeout_seconds },
            },
        )
    }
}

} // verus!
