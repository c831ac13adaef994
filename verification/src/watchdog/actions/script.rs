//! The script driver: the command that runs a script in its sandbox, and
//! what its end is recorded as.

use crate::config::SecurityConfig;
use crate::models::{texts, ExecutionType, ScriptActionConfig};
use crate::text::{decimal, push_decimal};
use crate::watchdog::executor::{result_view, ActionResult};
use vstd::prelude::*;
use vstd::string::*;

verus! {

/// Seconds that the scheduler waits beyond the script's own timeout, so
/// that a wrapper that hangs is bounded too.
pub const WAIT_MARGIN_SECONDS: u64 = 5;

/// The exit code recorded where the wrapper ended without one.
pub const NO_EXIT_CODE: i64 = -1;

/// A command ready to be spawned: the program and its arguments, the whole
/// environment of the child, its working directory, and how long to wait
/// for it. Its input is closed; both of its output streams are captured.
#[derive(Debug)]
pub struct ScriptCommand {
    pub program: String,
    pub args: Vec<String>,
    pub env: Vec<(String, String)>,
    pub working_dir: String,
    pub wait_seconds: u64,
}

/// A command as a mathematical value.
pub struct ScriptCommandView {
    pub program: Seq<char>,
    pub args: Seq<Seq<char>>,
    pub env: Seq<(Seq<char>, Seq<char>)>,
    pub working_dir: Seq<char>,
    pub wait_seconds: int,
}

impl View for ScriptCommand {
    type V = ScriptCommandView;

    open spec fn view(&self) -> ScriptCommandView {
        ScriptCommandView {
            program: self.program@,
            args: texts(self.args@),
            env: self.env@.map_values(|p: (String, String)| (p.0@, p.1@)),
            working_dir: self.working_dir@,
            wait_seconds: self.wait_seconds as int,
        }
    }
}

/// The command that runs the script at `resolved` for the switch
/// `switch_id`: the `timeout` wrapper, told to kill after the script's
/// timeout, then the script and its arguments; an environment of exactly
/// three variables; the scripts directory as working directory; a wait of
/// the timeout and the margin.
pub open spec fn command_for(
    args: Seq<Seq<char>>,
    scripts_dir: Seq<char>,
    script_timeout_seconds: int,
    resolved: Seq<char>,
    switch_id: Seq<char>,
    execution_type: ExecutionType,
) -> ScriptCommandView {
    ScriptCommandView {
        program: "timeout"@,
        args: seq!["--signal=KILL"@, decimal(script_timeout_seconds), resolved] + args,
        env: seq![
            ("SWITCH_ID"@, switch_id),
            ("EXECUTION_TYPE"@, execution_type.name()),
            ("PATH"@, "/usr/local/bin:/usr/bin:/bin"@),
        ],
        working_dir: scripts_dir,
        wait_seconds: script_timeout_seconds + 5,
    }
}

/// The path that `Path::join` of the standard library makes of a directory
/// and of a path to adjoin to it, both as texts. The joining is textual: it
/// reads neither the file system nor the environment, so the same two texts
/// always give the same path. Which separator stands between the two, and
/// which paths replace the directory, is the platform's matter.
pub uninterp spec fn joined_path(scripts_dir: Seq<char>, script_path: Seq<char>) -> Seq<char>;

/// The path of the script that `config` names: its `script_path`, adjoined
/// to the scripts directory of `security`.
pub fn resolve_script(config: &ScriptActionConfig, security: &SecurityConfig) -> (r: String)
    ensures
        r@ == joined_path(security.scripts_dir@, config.script_path@),
{
    join_path(security.scripts_dir.as_str(), config.script_path.as_str())
}

/// `Path::join` of the standard library, on texts: `script_path` adjoined to
/// `scripts_dir`, the directory first. The result is the path that the two
/// texts give, under its name; nothing is claimed of what it holds.
#[verifier::external_body]
fn join_path(scripts_dir: &str, script_path: &str) -> (r: String)
    ensures
        r@ == joined_path(scripts_dir@, script_path@),
{
    std::path::Path::new(scripts_dir).join(script_path).to_string_lossy().into_owned()
}

/// Builds the command that runs the script at `resolved`.
pub fn build_command(
    config: &ScriptActionConfig,
    security: &SecurityConfig,
    resolved: &str,
    switch_id: &str,
    execution_type: ExecutionType,
) -> (r: ScriptCommand)
    requires
        security.script_timeout_seconds <= u64::MAX - 5,
    ensures
        r@ == command_for(
            texts(config.args@),
            security.scripts_dir@,
            security.script_timeout_seconds as int,
            resolved@,
            switch_id@,
            execution_type,
        ),
{
    let mut args: Vec<String> = Vec::new();
    args.push(String::from_str("--signal=KILL"));
    let mut limit = String::new();
    push_decimal(&mut limit, security.script_timeout_seconds as i128);
    proof {
        assert(limit@ =~= decimal(security.script_timeout_seconds as int));
    }
    args.push(limit);
    args.push(resolved.to_owned());
    let ghost fixed = seq![
        "--signal=KILL"@,
        decimal(security.script_timeout_seconds as int),
        resolved@,
    ];
    let mut i: usize = 0;
    while i < config.args.len()
        invariant
            i <= config.args@.len(),
            args@.len() == 3 + i,
            fixed.len() == 3,
            forall|k: int| 0 <= k < 3 ==> (#[trigger] args@[k])@ == fixed[k],
            forall|k: int| 0 <= k < i ==> (#[trigger] args@[3 + k])@ == config.args@[k]@,
        decreases config.args.len() - i,
    {
        args.push(config.args[i].clone());
        i = i + 1;
    }
    let mut env: Vec<(String, String)> = Vec::new();
    env.push((String::from_str("SWITCH_ID"), switch_id.to_owned()));
    env.push((String::from_str("EXECUTION_TYPE"), String::from_str(execution_type.as_str())));
    env.push((String::from_str("PATH"), String::from_str("/usr/local/bin:/usr/bin:/bin")));
    let command = ScriptCommand {
        program: String::from_str("timeout"),
        args,
        env,
        working_dir: security.scripts_dir.clone(),
        wait_seconds: security.script_timeout_seconds + WAIT_MARGIN_SECONDS,
    };
    proof {
        let wanted = command_for(
            texts(config.args@),
            security.scripts_dir@,
            security.script_timeout_seconds as int,
            resolved@,
            switch_id@,
            execution_type,
        );
        assert forall|k: int| 0 <= k < command@.args.len() implies command@.args[k]
            == wanted.args[k] by {
            if k >= 3 {
                assert(args@[3 + (k - 3)]@ == config.args@[k - 3]@);
            } else {
                assert(args@[k]@ == fixed[k]);
            }
        }
        assert(command@.args =~= wanted.args);
        assert(command@.env =~= wanted.env);
    }
    command
}

/// What the end of the wrapper is recorded as: its exit code, or -1 where
/// it had none, with both captured streams.
pub open spec fn exit_result(code: Option<int>, stdout: Seq<char>, stderr: Seq<char>) -> Result<
    (int, Seq<char>, Seq<char>),
    Seq<char>,
> {
    Ok(
        (
            match code {
                Some(c) => c,
                None => -1,
            },
            stdout,
            stderr,
        ),
    )
}

/// Turns the end of the wrapper into the result of the action.
pub fn script_outcome(code: Option<i32>, stdout: String, stderr: String) -> (r: ActionResult)
    ensures
        result_view(r) == exit_result(
            match code {
                Some(c) => Some(c as int),
                None => None,
            },
            stdout@,
            stderr@,
        ),
{
    let exit_code: i64 = match code {
        Some(c) => c as i64,
        None => NO_EXIT_CODE,
    };
    Ok((exit_code, stdout, stderr))
}

/// The message recorded for a script that is not there.
pub fn not_found(shown_path: &str) -> (r: String)
    ensures
        r@ == "Script not found: "@ + shown_path@,
{
    let mut out = String::from_str("Script not found: ");
    out.append(shown_path);
    out
}

/// The message recorded for a configuration that could not be read.
pub fn unreadable_config(detail: &str) -> (r: String)
    ensures
        r@ == "Failed to parse script config: "@ + detail@,
{
    let mut out = String::from_str("Failed to parse script config: ");
    out.append(detail);
    out
}

/// The message recorded for a script that could not be run.
pub fn not_run(detail: &str) -> (r: String)
    ensures
        r@ == "Failed to execute script: "@ + detail@,
{
    let mut out = String::from_str("Failed to execute script: ");
    out.append(detail);
    out
}

/// The message recorded for a script whose wrapper did not end within the
/// wait.
pub fn timed_out(script_timeout_seconds: u64) -> (r: String)
    ensures
        r@ == "Script timeout ("@ + decimal(script_timeout_seconds as int) + "s + 5s buffer)"@,
{
    let mut out = String::from_str("Script timeout (");
    push_decimal(&mut out, script_timeout_seconds as i128);
    out.append("s + 5s buffer)");
    out
}

} // verus!
