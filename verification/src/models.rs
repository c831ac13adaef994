//! The five persisted entities, the closed sets of states they move through,
//! and the plain request and configuration records around them.

use vstd::prelude::*;

verus! {

/// Lifecycle state of a switch. Only `Active` and `Triggered` switches are
/// ever looked at by the scheduler.
#[derive(Clone, Copy, Debug, PartialEq, Eq, Structural)]
pub enum SwitchStatus {
    Active,
    Triggered,
    Paused,
}

/// Why an action runs: ahead of the deadline, or because it has passed.
#[derive(Clone, Copy, Debug, PartialEq, Eq, Structural)]
pub enum ExecutionType {
    Warning,
    Final,
}

/// State of one audit record.
#[derive(Clone, Copy, Debug, PartialEq, Eq, Structural)]
pub enum ExecutionStatus {
    Running,
    Completed,
    Failed,
}

/// The closed set of action drivers.
#[derive(Clone, Copy, Debug, PartialEq, Eq, Structural)]
pub enum ActionKind {
    Email,
    Webhook,
    Script,
}

/// The view of an optional text.
pub open spec fn opt_text(t: Option<String>) -> Option<Seq<char>> {
    match t {
        Some(s) => Some(s@),
        None => None,
    }
}

/// The views of a list of texts.
pub open spec fn texts(v: Seq<String>) -> Seq<Seq<char>> {
    v.map_values(|s: String| s@)
}

/// Copies an optional text.
pub fn clone_opt_text(t: &Option<String>) -> (r: Option<String>)
    ensures
        opt_text(r) == opt_text(*t),
{
    match t {
        Some(s) => Some(s.clone()),
        None => None,
    }
}

/// Copies a list of texts.
pub fn clone_texts(v: &Vec<String>) -> (r: Vec<String>)
    ensures
        texts(r@) == texts(v@),
{
    let mut out: Vec<String> = Vec::new();
    let mut i: usize = 0;
    while i < v.len()
        invariant
            i <= v@.len(),
            out@.len() == i,
            forall|k: int| 0 <= k < i ==> (#[trigger] out@[k])@ == v@[k]@,
        decreases v.len() - i,
    {
        out.push(v[i].clone());
        i = i + 1;
    }
    proof {
        assert(texts(out@) =~= texts(v@));
    }
    out
}

/// The unit of supervision.
#[derive(Debug)]
pub struct Switch {
    pub id: String,
    pub name: String,
    pub description: Option<String>,
    pub api_token: String,
    pub timeout_seconds: i64,
    pub last_checkin: i64,
    pub last_trigger: Option<i64>,
    pub status: SwitchStatus,
    pub created_at: i64,
    pub trigger_count_max: i64,
    pub trigger_interval_seconds: i64,
    pub trigger_count_executed: i64,
}

/// A switch as a mathematical value.
pub struct SwitchView {
    pub id: Seq<char>,
    pub name: Seq<char>,
    pub description: Option<Seq<char>>,
    pub api_token: Seq<char>,
    pub timeout_seconds: int,
    pub last_checkin: int,
    pub last_trigger: Option<int>,
    pub status: SwitchStatus,
    pub created_at: int,
    pub trigger_count_max: int,
    pub trigger_interval_seconds: int,
    pub trigger_count_executed: int,
}

impl View for Switch {
    type V = SwitchView;

    open spec fn view(&self) -> SwitchView {
        SwitchView {
            id: self.id@,
            name: self.name@,
            description: opt_text(self.description),
            api_token: self.api_token@,
            timeout_seconds: self.timeout_seconds as int,
            last_checkin: self.last_checkin as int,
            last_trigger: match self.last_trigger {
                Some(t) => Some(t as int),
                None => None,
            },
            status: self.status,
            created_at: self.created_at as int,
            trigger_count_max: self.trigger_count_max as int,
            trigger_interval_seconds: self.trigger_interval_seconds as int,
            trigger_count_executed: self.trigger_count_executed as int,
        }
    }
}

impl Clone for Switch {
    fn clone(&self) -> (r: Self)
        ensures
            r@ == self@,
            r.timeout_seconds == self.timeout_seconds,
            r.last_checkin == self.last_checkin,
            r.last_trigger == self.last_trigger,
            r.status == self.status,
            r.created_at == self.created_at,
            r.trigger_count_max == self.trigger_count_max,
            r.trigger_interval_seconds == self.trigger_interval_seconds,
            r.trigger_count_executed == self.trigger_count_executed,
    {
        Switch {
            id: self.id.clone(),
            name: self.name.clone(),
            description: clone_opt_text(&self.description),
            api_token: self.api_token.clone(),
            timeout_seconds: self.timeout_seconds,
            last_checkin: self.last_checkin,
            last_trigger: self.last_trigger,
            status: self.status,
            created_at: self.created_at,
            trigger_count_max: self.trigger_count_max,
            trigger_interval_seconds: self.trigger_interval_seconds,
            trigger_count_executed: self.trigger_count_executed,
        }
    }
}

/// "Fire the warning actions this many seconds before the deadline."
#[derive(Debug)]
pub struct WarningStage {
    pub id: i64,
    pub switch_id: String,
    pub seconds_before_deadline: i64,
}

/// A warning stage as a mathematical value.
pub struct WarningStageView {
    pub id: int,
    pub switch_id: Seq<char>,
    pub seconds_before_deadline: int,
}

impl View for WarningStage {
    type V = WarningStageView;

    open spec fn view(&self) -> WarningStageView {
        WarningStageView {
            id: self.id as int,
            switch_id: self.switch_id@,
            seconds_before_deadline: self.seconds_before_deadline as int,
        }
    }
}

impl Clone for WarningStage {
    fn clone(&self) -> (r: Self)
        ensures
            r@ == self@,
            r.id == self.id,
            r.seconds_before_deadline == self.seconds_before_deadline,
    {
        WarningStage {
            id: self.id,
            switch_id: self.switch_id.clone(),
            seconds_before_deadline: self.seconds_before_deadline,
        }
    }
}

/// The marker that a stage's warning has been sent for a switch.
#[derive(Debug)]
pub struct WarningExecution {
    pub id: i64,
    pub switch_id: String,
    pub stage_seconds: i64,
    pub executed_at: i64,
}

/// A warning marker as a mathematical value.
pub struct WarningExecutionView {
    pub id: int,
    pub switch_id: Seq<char>,
    pub stage_seconds: int,
    pub executed_at: int,
}

impl View for WarningExecution {
    type V = WarningExecutionView;

    open spec fn view(&self) -> WarningExecutionView {
        WarningExecutionView {
            id: self.id as int,
            switch_id: self.switch_id@,
            stage_seconds: self.stage_seconds as int,
            executed_at: self.executed_at as int,
        }
    }
}

impl Clone for WarningExecution {
    fn clone(&self) -> (r: Self)
        ensures
            r@ == self@,
            r.id == self.id,
            r.stage_seconds == self.stage_seconds,
            r.executed_at == self.executed_at,
    {
        WarningExecution {
            id: self.id,
            switch_id: self.switch_id.clone(),
            stage_seconds: self.stage_seconds,
            executed_at: self.executed_at,
        }
    }
}

/// A configured responder of a switch.
#[derive(Debug)]
pub struct Action {
    pub id: i64,
    pub switch_id: String,
    pub action_order: i64,
    pub action_type: String,
    pub is_warning: bool,
    pub config: String,
}

/// An action as a mathematical value.
pub struct ActionView {
    pub id: int,
    pub switch_id: Seq<char>,
    pub action_order: int,
    pub action_type: Seq<char>,
    pub is_warning: bool,
    pub config: Seq<char>,
}

impl View for Action {
    type V = ActionView;

    open spec fn view(&self) -> ActionView {
        ActionView {
            id: self.id as int,
            switch_id: self.switch_id@,
            action_order: self.action_order as int,
            action_type: self.action_type@,
            is_warning: self.is_warning,
            config: self.config@,
        }
    }
}

impl Clone for Action {
    fn clone(&self) -> (r: Self)
        ensures
            r@ == self@,
            r.id == self.id,
            r.action_order == self.action_order,
            r.is_warning == self.is_warning,
    {
        Action {
            id: self.id,
            switch_id: self.switch_id.clone(),
            action_order: self.action_order,
            action_type: self.action_type.clone(),
            is_warning: self.is_warning,
            config: self.config.clone(),
        }
    }
}

/// The audit record of one action invocation.
#[derive(Debug)]
pub struct ActionExecution {
    pub id: i64,
    pub switch_id: String,
    pub action_id: i64,
    pub execution_type: ExecutionType,
    pub started_at: i64,
    pub completed_at: Option<i64>,
    pub status: ExecutionStatus,
    pub exit_code: Option<i64>,
    pub stdout: Option<String>,
    pub stderr: Option<String>,
    pub error_message: Option<String>,
}

/// An audit record as a mathematical value.
pub struct ActionExecutionView {
    pub id: int,
    pub switch_id: Seq<char>,
    pub action_id: int,
    pub execution_type: ExecutionType,
    pub started_at: int,
    pub completed_at: Option<int>,
    pub status: ExecutionStatus,
    pub exit_code: Option<int>,
    pub stdout: Option<Seq<char>>,
    pub stderr: Option<Seq<char>>,
    pub error_message: Option<Seq<char>>,
}

/// An optional machine integer as an optional mathematical one.
pub open spec fn opt_int(v: Option<i64>) -> Option<int> {
    match v {
        Some(n) => Some(n as int),
        None => None,
    }
}

impl View for ActionExecution {
    type V = ActionExecutionView;

    open spec fn view(&self) -> ActionExecutionView {
        ActionExecutionView {
            id: self.id as int,
            switch_id: self.switch_id@,
            action_id: self.action_id as int,
            execution_type: self.execution_type,
            started_at: self.started_at as int,
            completed_at: opt_int(self.completed_at),
            status: self.status,
            exit_code: opt_int(self.exit_code),
            stdout: opt_text(self.stdout),
            stderr: opt_text(self.stderr),
            error_message: opt_text(self.error_message),
        }
    }
}

impl Clone for ActionExecution {
    fn clone(&self) -> (r: Self)
        ensures
            r@ == self@,
            r.id == self.id,
            r.action_id == self.action_id,
            r.execution_type == self.execution_type,
            r.started_at == self.started_at,
            r.completed_at == self.completed_at,
            r.status == self.status,
            r.exit_code == self.exit_code,
    {
        ActionExecution {
            id: self.id,
            switch_id: self.switch_id.clone(),
            action_id: self.action_id,
            execution_type: self.execution_type,
            started_at: self.started_at,
            completed_at: self.completed_at,
            status: self.status,
            exit_code: self.exit_code,
            stdout: clone_opt_text(&self.stdout),
            stderr: clone_opt_text(&self.stderr),
            error_message: clone_opt_text(&self.error_message),
        }
    }
}

/// Configuration of an email action. Every recipient is addressed as BCC;
/// `to` is a shorthand for a single recipient when `bcc` is empty.
#[derive(Debug)]
pub struct EmailActionConfig {
    pub to: Option<String>,
    pub bcc: Vec<String>,
    pub subject: String,
    pub body: String,
}

/// Configuration of a webhook action. Headers are name and value pairs,
/// applied as given.
#[derive(Debug)]
pub struct WebhookActionConfig {
    pub url: String,
    pub method: String,
    pub headers: Option<Vec<(String, String)>>,
    pub body: Option<String>,
}

/// Configuration of a script action.
#[derive(Debug)]
pub struct ScriptActionConfig {
    pub script_path: String,
    pub args: Vec<String>,
}

/// What a client sends to create a switch.
#[derive(Debug)]
pub struct CreateSwitchRequest {
    pub name: String,
    pub description: Option<String>,
    pub timeout_seconds: i64,
    pub trigger_count_max: i64,
    pub trigger_interval_seconds: i64,
    pub warning_stages: Vec<i64>,
    pub warning_actions: Vec<CreateActionRequest>,
    pub final_actions: Vec<CreateActionRequest>,
}

/// One action of a creation request; `config` is the JSON text that the
/// action's driver will read.
#[derive(Debug)]
pub struct CreateActionRequest {
    pub action_type: String,
    pub config: String,
}

/// The body of a successful check-in.
#[derive(Clone, Copy, Debug, PartialEq, Eq, Structural)]
pub struct CheckinResponse {
    pub success: bool,
    pub last_checkin: i64,
    pub next_deadline: i64,
}

impl SwitchStatus {
    /// The name under which the state is persisted.
    pub open spec fn name(self) -> Seq<char> {
        match self {
            SwitchStatus::Active => "active"@,
            SwitchStatus::Triggered => "triggered"@,
            SwitchStatus::Paused => "paused"@,
        }
    }

    /// The persisted name.
    pub fn as_str(&self) -> (r: &'static str)
        ensures
            r@ == self.name(),
    {
        match self {
            SwitchStatus::Active => "active",
            SwitchStatus::Triggered => "triggered",
            SwitchStatus::Paused => "paused",
        }
    }

    /// Reads a persisted name back; any other text is no state.
    pub fn parse(name: &str) -> (r: Option<SwitchStatus>)
        ensures
            match r {
                Some(s) => s.name() == name@,
                None => forall|s: SwitchStatus| s.name() != name@,
            },
    {
        if crate::text::str_eq(name, "active") {
            Some(SwitchStatus::Active)
        } else if crate::text::str_eq(name, "triggered") {
            Some(SwitchStatus::Triggered)
        } else if crate::text::str_eq(name, "paused") {
            Some(SwitchStatus::Paused)
        } else {
            None
        }
    }
}

impl ExecutionType {
    /// The name under which the type is persisted and handed to scripts.
    pub open spec fn name(self) -> Seq<char> {
        match self {
            ExecutionType::Warning => "warning"@,
            ExecutionType::Final => "final"@,
        }
    }

    /// The persisted name.
    pub fn as_str(&self) -> (r: &'static str)
        ensures
            r@ == self.name(),
    {
        match self {
            ExecutionType::Warning => "warning",
            ExecutionType::Final => "final",
        }
    }

    /// Reads a persisted name back; any other text is no type.
    pub fn parse(name: &str) -> (r: Option<ExecutionType>)
        ensures
            match r {
                Some(t) => t.name() == name@,
                None => forall|t: ExecutionType| t.name() != name@,
            },
    {
        if crate::text::str_eq(name, "warning") {
            Some(ExecutionType::Warning)
        } else if crate::text::str_eq(name, "final") {
            Some(ExecutionType::Final)
        } else {
            None
        }
    }
}

impl ExecutionStatus {
    /// The name under which the status is persisted.
    pub open spec fn name(self) -> Seq<char> {
        match self {
            ExecutionStatus::Running => "running"@,
            ExecutionStatus::Completed => "completed"@,
            ExecutionStatus::Failed => "failed"@,
        }
    }

    /// The persisted name.
    pub fn as_str(&self) -> (r: &'static str)
        ensures
            r@ == self.name(),
    {
        match self {
            ExecutionStatus::Running => "running",
            ExecutionStatus::Completed => "completed",
            ExecutionStatus::Failed => "failed",
        }
    }

    /// Reads a persisted name back; any other text is no status.
    pub fn parse(name: &str) -> (r: Option<ExecutionStatus>)
        ensures
            match r {
                Some(s) => s.name() == name@,
                None => forall|s: ExecutionStatus| s.name() != name@,
            },
    {
        if crate::text::str_eq(name, "running") {
            Some(ExecutionStatus::Running)
        } else if crate::text::str_eq(name, "completed") {
            Some(ExecutionStatus::Completed)
        } else if crate::text::str_eq(name, "failed") {
            Some(ExecutionStatus::Failed)
        } else {
            None
        }
    }
}

impl ActionKind {
    /// The name by which an action names its driver.
    pub open spec fn name(self) -> Seq<char> {
        match self {
            ActionKind::Email => "email"@,
            ActionKind::Webhook => "webhook"@,
            ActionKind::Script => "script"@,
        }
    }

    /// The persisted name.
    pub fn as_str(&self) -> (r: &'static str)
        ensures
            r@ == self.name(),
    {
        match self {
            ActionKind::Email => "email",
            ActionKind::Webhook => "webhook",
            ActionKind::Script => "script",
        }
    }

    /// The driver that the name `name` stands for, if it stands for one.
    pub open spec fn named(name: Seq<char>) -> Option<ActionKind> {
        if name == "email"@ {
            Some(ActionKind::Email)
        } else if name == "webhook"@ {
            Some(ActionKind::Webhook)
        } else if name == "script"@ {
            Some(ActionKind::Script)
        } else {
            None
        }
    }

    /// The driver that an action type names, if it names one.
    pub fn parse(name: &str) -> (r: Option<ActionKind>)
        ensures
            r == ActionKind::named(name@),
            match r {
                Some(k) => k.name() == name@,
                None => forall|k: ActionKind| k.name() != name@,
            },
    {
        if crate::text::str_eq(name, "email") {
            Some(ActionKind::Email)
        } else if crate::text::str_eq(name, "webhook") {
            Some(ActionKind::Webhook)
        } else if crate::text::str_eq(name, "script") {
            Some(ActionKind::Script)
        } else {
            None
        }
    }
}

/// The persisted names of the states of a switch are pairwise different, so
/// a name read back gives the state that wrote it.
pub proof fn lemma_status_names_distinct(a: SwitchStatus, b: SwitchStatus)
    ensures
        a.name() == b.name() <==> a == b,
{
    reveal_strlit("active");
    reveal_strlit("triggered");
    reveal_strlit("paused");
    if a != b && a.name() == b.name() {
        assert(a.name().len() == b.name().len());
        assert("active"@[0] == 'a');
        assert("paused"@[0] == 'p');
    }
}

/// The names of the action drivers are pairwise different.
pub proof fn lemma_kind_names_distinct(a: ActionKind, b: ActionKind)
    ensures
        a.name() == b.name() <==> a == b,
{
    reveal_strlit("email");
    reveal_strlit("webhook");
    reveal_strlit("script");
    if a != b && a.name() == b.name() {
        assert(a.name().len() == b.name().len());
    }
}

} // verus!
