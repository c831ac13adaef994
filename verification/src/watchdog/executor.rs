//! The sequential runner: every action of a firing gets its audit record,
//! runs through its driver, and has the record closed with what came back,
//! whether it succeeded or not.

use crate::db::{self, closed_record, derive_status, derived_status, views, Store, StoreView};
use crate::models::{
    opt_int, opt_text, Action, ActionExecutionView, ActionKind, ActionView, ExecutionStatus,
    ExecutionType,
};
use crate::watchdog::{clone_actions, Firing};
use vstd::prelude::*;
use vstd::string::*;

verus! {

/// What a driver hands back: the exit code with what the action wrote to
/// its output and its error stream, or the message of its failure.
pub type ActionResult = Result<(i64, String, String), String>;

/// The result of a driver as a mathematical value.
pub open spec fn result_view(outcome: ActionResult) -> Result<
    (int, Seq<char>, Seq<char>),
    Seq<char>,
> {
    match outcome {
        Ok((code, stdout, stderr)) => Ok((code as int, stdout@, stderr@)),
        Err(message) => Err(message@),
    }
}

/// What is written on an audit record when its action has run.
#[derive(Debug)]
pub struct Completion {
    pub exit_code: Option<i64>,
    pub stdout: Option<String>,
    pub stderr: Option<String>,
    pub error_message: Option<String>,
}

/// A completion as a mathematical value.
pub struct CompletionView {
    pub exit_code: Option<int>,
    pub stdout: Option<Seq<char>>,
    pub stderr: Option<Seq<char>>,
    pub error_message: Option<Seq<char>>,
}

impl View for Completion {
    type V = CompletionView;

    open spec fn view(&self) -> CompletionView {
        CompletionView {
            exit_code: opt_int(self.exit_code),
            stdout: opt_text(self.stdout),
            stderr: opt_text(self.stderr),
            error_message: opt_text(self.error_message),
        }
    }
}

/// What a result writes: an exit code with both streams and no error
/// message, or the error message alone.
pub open spec fn completion_of(outcome: Result<(int, Seq<char>, Seq<char>), Seq<char>>)
    -> CompletionView {
    match outcome {
        Ok((code, stdout, stderr)) => CompletionView {
            exit_code: Some(code),
            stdout: Some(stdout),
            stderr: Some(stderr),
            error_message: None,
        },
        Err(message) => CompletionView {
            exit_code: None,
            stdout: None,
            stderr: None,
            error_message: Some(message),
        },
    }
}

impl CompletionView {
    /// The state that the completion gives its record.
    pub open spec fn status(self) -> ExecutionStatus {
        derived_status(self.exit_code, self.error_message)
    }
}

impl Completion {
    /// Turns the result of a driver into what is written on the record.
    pub fn from_outcome(outcome: ActionResult) -> (r: Completion)
        ensures
            r@ == completion_of(result_view(outcome)),
    {
        match outcome {
            Ok((code, stdout, stderr)) => Completion {
                exit_code: Some(code),
                stdout: Some(stdout),
                stderr: Some(stderr),
                error_message: None,
            },
            Err(message) => Completion {
                exit_code: None,
                stdout: None,
                stderr: None,
                error_message: Some(message),
            },
        }
    }

    /// The state that the completion gives its record.
    pub fn status(&self) -> (r: ExecutionStatus)
        ensures
            r == self@.status(),
    {
        derive_status(self.exit_code, &self.error_message)
    }
}

/// The only result that completes a record is exit code 0 without an error
/// message; every other result fails it.
pub proof fn lemma_status_of_result(outcome: Result<(int, Seq<char>, Seq<char>), Seq<char>>)
    ensures
        completion_of(outcome).status() == ExecutionStatus::Completed <==> (outcome matches Ok(
            triple,
        ) && triple.0 == 0),
        completion_of(outcome).status() != ExecutionStatus::Running,
{
}

/// The failure of an action whose type names no driver.
pub open spec fn unknown_type_message(action_type: Seq<char>) -> Seq<char> {
    "Unknown action type: "@ + action_type
}

/// The driver that runs `action`, or the failure to record in its place
/// where the type names none.
pub fn driver_for(action: &Action) -> (r: Result<ActionKind, String>)
    ensures
        match r {
            Ok(kind) => ActionKind::named(action@.action_type) == Some(kind) && kind.name()
                == action@.action_type,
            Err(message) => ActionKind::named(action@.action_type) is None && message@
                == unknown_type_message(action@.action_type) && forall|kind: ActionKind|
                kind.name() != action@.action_type,
        },
{
    match ActionKind::parse(action.action_type.as_str()) {
        Some(kind) => Ok(kind),
        None => {
            let mut message = String::from_str("Unknown action type: ");
            message.append(action.action_type.as_str());
            Err(message)
        },
    }
}

/// What the runner asks for next.
#[derive(Debug)]
pub enum Step {
    /// Run `action` through the driver `kind` for the switch `switch_id`,
    /// then hand the result to `finish`; its audit record `execution_id` is
    /// open.
    Dispatch {
        execution_id: i64,
        kind: ActionKind,
        action: Action,
        switch_id: String,
        execution_type: ExecutionType,
    },
    /// The type of the action names no driver: its audit record
    /// `execution_id` has been closed as failed. Ask again.
    Rejected { execution_id: i64 },
    /// The store could not open an audit record, for want of the switch or
    /// of an identifier: the action is passed over. Ask again.
    Unrecorded,
    /// An action is running: hand its result to `finish` first.
    Busy,
    /// Every action has run.
    Done,
}

/// The runner of one firing: its actions in order, the place of the next
/// one, and the audit record of the one that is running.
pub struct Runner {
    switch_id: String,
    execution_type: ExecutionType,
    actions: Vec<Action>,
    position: usize,
    open: Option<i64>,
}

/// A runner as a mathematical value.
pub struct RunnerView {
    pub switch_id: Seq<char>,
    pub execution_type: ExecutionType,
    pub actions: Seq<ActionView>,
    pub position: int,
    pub open: Option<int>,
}

impl View for Runner {
    type V = RunnerView;

    closed spec fn view(&self) -> RunnerView {
        RunnerView {
            switch_id: self.switch_id@,
            execution_type: self.execution_type,
            actions: views(self.actions@),
            position: self.position as int,
            open: opt_int(self.open),
        }
    }
}

/// What the runner asks for next, as a mathematical value.
pub enum StepView {
    Dispatch {
        execution_id: int,
        kind: ActionKind,
        action: ActionView,
        switch_id: Seq<char>,
        execution_type: ExecutionType,
    },
    Rejected { execution_id: int },
    Unrecorded,
    Busy,
    Done,
}

impl View for Step {
    type V = StepView;

    open spec fn view(&self) -> StepView {
        match self {
            Step::Dispatch {
                execution_id,
                kind,
                action,
                switch_id,
                execution_type,
            } => StepView::Dispatch {
                execution_id: *execution_id as int,
                kind: *kind,
                action: action@,
                switch_id: switch_id@,
                execution_type: *execution_type,
            },
            Step::Rejected { execution_id } => StepView::Rejected {
                execution_id: *execution_id as int,
            },
            Step::Unrecorded => StepView::Unrecorded,
            Step::Busy => StepView::Busy,
            Step::Done => StepView::Done,
        }
    }
}

impl RunnerView {
    /// Every action has run and none is running.
    pub open spec fn done(self) -> bool {
        self.position == self.actions.len() && self.open is None
    }

    /// The runner is at a place of its list.
    pub open spec fn wf(self) -> bool {
        0 <= self.position <= self.actions.len()
    }

    /// The runner at the first of `actions`.
    pub open spec fn fresh(
        switch_id: Seq<char>,
        actions: Seq<ActionView>,
        execution_type: ExecutionType,
    ) -> RunnerView {
        RunnerView { switch_id, execution_type, actions, position: 0, open: None }
    }

    /// What moving to the next action at `now` does to the store and to
    /// the runner, and what it asks for.
    pub open spec fn started(self, v: StoreView, now: int) -> (StoreView, RunnerView, StepView) {
        if self.open is Some {
            (v, self, StepView::Busy)
        } else if self.position >= self.actions.len() {
            (v, self, StepView::Done)
        } else {
            let action = self.actions[self.position];
            let id = v.next_execution_id;
            let moved = RunnerView { position: self.position + 1, ..self };
            if v.row_refusal(self.switch_id, id) is Some {
                (v, moved, StepView::Unrecorded)
            } else {
                let opened = v.with_start(self.switch_id, action.id, self.execution_type, now);
                match ActionKind::named(action.action_type) {
                    Some(kind) => (
                        opened,
                        RunnerView { open: Some(id), ..moved },
                        StepView::Dispatch {
                            execution_id: id,
                            kind,
                            action,
                            switch_id: self.switch_id,
                            execution_type: self.execution_type,
                        },
                    ),
                    None => (
                        with_completion(
                            opened,
                            id,
                            completion_of(Err(unknown_type_message(action.action_type))),
                            now,
                        ),
                        moved,
                        StepView::Rejected { execution_id: id },
                    ),
                }
            }
        }
    }

    /// What handing in a result at `now` does to the store and to the
    /// runner: the record of the running action is closed with it.
    pub open spec fn finished(
        self,
        v: StoreView,
        outcome: Result<(int, Seq<char>, Seq<char>), Seq<char>>,
        now: int,
    ) -> (StoreView, RunnerView) {
        match self.open {
            Some(id) => (
                with_completion(v, id, completion_of(outcome), now),
                RunnerView { open: None, ..self },
            ),
            None => (v, self),
        }
    }
}

/// The store with the audit record `execution_id` closed at `now` with
/// `completion`.
pub open spec fn with_completion(
    v: StoreView,
    execution_id: int,
    completion: CompletionView,
    now: int,
) -> StoreView {
    StoreView {
        executions: v.executions.map_values(
            |e: ActionExecutionView|
                if e.id == execution_id {
                    closed_record(
                        e,
                        now,
                        completion.exit_code,
                        completion.stdout,
                        completion.stderr,
                        completion.error_message,
                    )
                } else {
                    e
                },
        ),
        ..v
    }
}

/// Sets out to run `actions` for the switch `switch_id`, one after the
/// other in the order given: the result is the runner at the first of them.
pub fn execute_actions(switch_id: &str, actions: Vec<Action>, execution_type: ExecutionType) -> (r:
    Runner)
    ensures
        r@ == RunnerView::fresh(switch_id@, views(actions@), execution_type),
{
    Runner { switch_id: switch_id.to_owned(), execution_type, actions, position: 0, open: None }
}

impl Runner {
    #[verifier::type_invariant]
    spec fn inv(&self) -> bool {
        self.position <= self.actions@.len()
    }

    /// A runner at the first action of `firing`.
    pub fn for_firing(firing: &Firing) -> (r: Runner)
        ensures
            r@ == RunnerView::fresh(
                firing@.switch_id,
                firing@.actions,
                firing@.kind.execution_type(),
            ),
    {
        execute_actions(
            firing.switch_id.as_str(),
            clone_actions(&firing.actions),
            firing.execution_type(),
        )
    }

    /// The place of the next action.
    pub fn position(&self) -> (r: usize)
        ensures
            r == self@.position,
            self@.wf(),
    {
        proof {
            use_type_invariant(self);
        }
        self.position
    }

    /// The audit record of the action that is running, if one is.
    pub fn running(&self) -> (r: Option<i64>)
        ensures
            opt_int(r) == self@.open,
    {
        self.open
    }

    /// Whether every action has run.
    pub fn is_done(&self) -> (r: bool)
        ensures
            r == self@.done(),
            0 <= self@.position <= self@.actions.len(),
    {
        proof {
            use_type_invariant(self);
        }
        self.position == self.actions.len() && self.open.is_none()
    }

    /// Moves to the next action. Its audit record is opened at `now`; where
    /// its type names a driver the action is handed out to be run, where it
    /// names none the record is closed as failed at once. An action whose
    /// record cannot be opened is passed over. While an action is running,
    /// and when none is left, nothing changes.
    pub fn start_next(&mut self, store: &mut Store, now: i64) -> (r: Step)
        ensures
            old(self)@.wf(),
            final(self)@.wf(),
            (final(store)@, final(self)@, r@) == old(self)@.started(old(store)@, now as int),
    {
        proof {
            use_type_invariant(&*self);
        }
        if self.open.is_some() {
            return Step::Busy;
        }
        if self.position == self.actions.len() {
            return Step::Done;
        }
        let action = self.actions[self.position].clone();
        proof {
            assert(views(self.actions@)[self.position as int] == action@);
        }
        self.position = self.position + 1;
        let execution_id = match db::create_action_execution(
            store,
            self.switch_id.as_str(),
            action.id,
            self.execution_type,
            now,
        ) {
            Ok(id) => id,
            Err(_) => {
                return Step::Unrecorded;
            },
        };
        match driver_for(&action) {
            Ok(kind) => {
                self.open = Some(execution_id);
                Step::Dispatch {
                    execution_id,
                    kind,
                    action,
                    switch_id: self.switch_id.clone(),
                    execution_type: self.execution_type,
                }
            },
            Err(message) => {
                db::complete_action_execution(
                    store,
                    execution_id,
                    now,
                    None,
                    None,
                    None,
                    Some(message),
                );
                Step::Rejected { execution_id }
            },
        }
    }

    /// Closes the audit record of the running action at `now` with what its
    /// driver handed back, and says whether an action was running. A
    /// failure is recorded like a success: the runner moves on either way.
    pub fn finish(&mut self, store: &mut Store, outcome: ActionResult, now: i64) -> (r: bool)
        ensures
            r == old(self)@.open is Some,
            final(self)@.wf(),
            (final(store)@, final(self)@) == old(self)@.finished(
                old(store)@,
                result_view(outcome),
                now as int,
            ),
    {
        proof {
            use_type_invariant(&*self);
        }
        match self.open {
            Some(execution_id) => {
                let completion = Completion::from_outcome(outcome);
                db::complete_action_execution(
                    store,
                    execution_id,
                    now,
                    completion.exit_code,
                    completion.stdout,
                    completion.stderr,
                    completion.error_message,
                );
                self.open = None;
                true
            },
            None => false,
        }
    }
}

} // verus!
