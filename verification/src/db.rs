//! The store: the five tables in memory, with the operations that the
//! scheduler, the check-in endpoint and the management surface rely on.

use crate::models::{
    clone_opt_text, opt_int, opt_text, Action, ActionExecution, ActionExecutionView, ActionView,
    ExecutionStatus, ExecutionType, Switch, SwitchStatus, SwitchView, WarningExecution,
    WarningExecutionView, WarningStage, WarningStageView,
};
use crate::text::str_eq;
use vstd::prelude::*;

verus! {

/// Whether `a` may stand before `b` in a table kept in the given direction.
pub open spec fn in_order(a: int, b: int, descending: bool) -> bool {
    if descending {
        a >= b
    } else {
        a <= b
    }
}

/// The keys never step against the direction.
pub open spec fn sorted_keys(keys: Seq<int>, descending: bool) -> bool {
    forall|i: int, j: int| 0 <= i < j < keys.len() ==> in_order(keys[i], keys[j], descending)
}

/// Where a new row with `key` goes: behind the leading rows that may stand
/// before it, so behind every row with an equal key.
pub open spec fn slot(keys: Seq<int>, key: int, descending: bool) -> int
    decreases keys.len(),
{
    if keys.len() == 0 || !in_order(keys[0], key, descending) {
        0
    } else {
        1 + slot(keys.drop_first(), key, descending)
    }
}

/// In a sorted table the slot splits the rows: those before it may stand
/// before the key, those from it on may not, and inserting there keeps the
/// table sorted.
pub proof fn lemma_slot_splits(keys: Seq<int>, key: int, descending: bool)
    requires
        sorted_keys(keys, descending),
    ensures
        0 <= slot(keys, key, descending) <= keys.len(),
        forall|j: int| 0 <= j < slot(keys, key, descending) ==> in_order(keys[j], key, descending),
        forall|j: int|
            slot(keys, key, descending) <= j < keys.len() ==> !in_order(keys[j], key, descending),
        sorted_keys(keys.insert(slot(keys, key, descending), key), descending),
    decreases keys.len(),
{
    if keys.len() == 0 || !in_order(keys[0], key, descending) {
        let after = keys.insert(0, key);
        assert forall|j: int| 0 <= j < keys.len() implies !in_order(keys[j], key, descending) by {
            if j > 0 {
                assert(in_order(keys[0], keys[j], descending));
            }
        }
        assert forall|i: int, j: int| 0 <= i < j < after.len() implies in_order(
            after[i],
            after[j],
            descending,
        ) by {
            if i > 0 {
                assert(in_order(keys[i - 1], keys[j - 1], descending));
            } else {
                assert(in_order(keys[0], keys[j - 1], descending));
            }
        }
    } else {
        let rest = keys.drop_first();
        assert forall|i: int, j: int| 0 <= i < j < rest.len() implies in_order(
            rest[i],
            rest[j],
            descending,
        ) by {
            assert(in_order(keys[i + 1], keys[j + 1], descending));
        }
        lemma_slot_splits(rest, key, descending);
        let p = slot(keys, key, descending);
        assert forall|j: int| 0 <= j < p implies in_order(keys[j], key, descending) by {
            if j > 0 {
                assert(keys[j] == rest[j - 1]);
            }
        }
        assert forall|j: int| p <= j < keys.len() implies !in_order(keys[j], key, descending) by {
            assert(keys[j] == rest[j - 1]);
        }
        let after = keys.insert(p, key);
        assert forall|i: int, j: int| 0 <= i < j < after.len() implies in_order(
            after[i],
            after[j],
            descending,
        ) by {
            let a = if i < p { keys[i] } else if i == p { key } else { keys[i - 1] };
            let b = if j < p { keys[j] } else if j == p { key } else { keys[j - 1] };
            assert(after[i] == a);
            assert(after[j] == b);
            if i < p && j > p {
                assert(in_order(keys[i], keys[j - 1], descending));
            } else if i > p {
                assert(in_order(keys[i - 1], keys[j - 1], descending));
            } else if j < p {
                assert(in_order(keys[i], keys[j], descending));
            }
        }
    }
}

/// The slot of a new row lies within the table or at its end.
pub proof fn lemma_slot_bounds(keys: Seq<int>, key: int, descending: bool)
    ensures
        0 <= slot(keys, key, descending) <= keys.len(),
    decreases keys.len(),
{
    if !(keys.len() == 0 || !in_order(keys[0], key, descending)) {
        lemma_slot_bounds(keys.drop_first(), key, descending);
    }
}

/// A row with the key that its table is kept sorted by.
pub trait Keyed {
    spec fn sort_key(&self) -> int;

    fn key(&self) -> (k: i64)
        ensures
            k == self.sort_key(),
    ;
}

impl Keyed for Switch {
    open spec fn sort_key(&self) -> int {
        self.created_at as int
    }

    fn key(&self) -> (k: i64) {
        self.created_at
    }
}

impl Keyed for WarningStage {
    open spec fn sort_key(&self) -> int {
        self.seconds_before_deadline as int
    }

    fn key(&self) -> (k: i64) {
        self.seconds_before_deadline
    }
}

impl Keyed for Action {
    open spec fn sort_key(&self) -> int {
        self.action_order as int
    }

    fn key(&self) -> (k: i64) {
        self.action_order
    }
}

impl Keyed for ActionExecution {
    open spec fn sort_key(&self) -> int {
        self.started_at as int
    }

    fn key(&self) -> (k: i64) {
        self.started_at
    }
}

/// The sort keys of the rows of a table.
pub open spec fn keys_of<T: Keyed>(rows: Seq<T>) -> Seq<int> {
    rows.map_values(|r: T| r.sort_key())
}

/// Finds the slot of a new row with `key` in `rows`.
pub(crate) fn find_slot<T: Keyed>(rows: &Vec<T>, key: i64, descending: bool) -> (p: usize)
    ensures
        p == slot(keys_of(rows@), key as int, descending),
        p <= rows@.len(),
{
    let ghost keys = keys_of(rows@);
    let mut i: usize = 0;
    proof {
        assert(keys.skip(0) =~= keys);
    }
    while i < rows.len()
        invariant
            i <= rows@.len(),
            keys == keys_of(rows@),
            slot(keys, key as int, descending) == i + slot(
                keys.skip(i as int),
                key as int,
                descending,
            ),
        decreases rows.len() - i,
    {
        let k = rows[i].key();
        let fits = if descending {
            k >= key
        } else {
            k <= key
        };
        proof {
            assert(keys.skip(i as int)[0] == k);
            assert(keys.skip(i as int).drop_first() =~= keys.skip(i + 1));
        }
        if !fits {
            return i;
        }
        i = i + 1;
    }
    proof {
        assert(keys.skip(i as int).len() == 0);
    }
    i
}

} // verus!

verus! {

/// The views of the rows of a table, in table order.
pub open spec fn views<T: View>(rows: Seq<T>) -> Seq<T::V> {
    rows.map_values(|r: T| r@)
}

/// The store as a mathematical value: the five tables, each in the order
/// its queries answer in, and the next identifier of each table that
/// numbers its rows.
pub struct StoreView {
    pub switches: Seq<SwitchView>,
    pub stages: Seq<WarningStageView>,
    pub actions: Seq<ActionView>,
    pub markers: Seq<WarningExecutionView>,
    pub executions: Seq<ActionExecutionView>,
    pub next_stage_id: int,
    pub next_action_id: int,
    pub next_marker_id: int,
    pub next_execution_id: int,
}

/// The message on an audit record that a crash left running.
pub open spec fn crash_message() -> Seq<char> {
    "Process crashed during execution"@
}

/// What holds of every audit record: a running one has no end and no
/// result; a completed one has an end, no error, and exit code 0 if any; a
/// failed one has an end.
pub open spec fn audit_consistent(e: ActionExecutionView) -> bool {
    match e.status {
        ExecutionStatus::Running => {
            &&& e.completed_at is None
            &&& e.exit_code is None
            &&& e.stdout is None
            &&& e.stderr is None
            &&& e.error_message is None
        },
        ExecutionStatus::Completed => {
            &&& e.completed_at is Some
            &&& e.error_message is None
            &&& (e.exit_code is None || e.exit_code == Some(0int))
        },
        ExecutionStatus::Failed => e.completed_at is Some,
    }
}

/// The identifiers are positive, below the next one to be given out, and
/// no two rows share one.
pub open spec fn ids_fresh(ids: Seq<int>, next: int) -> bool {
    &&& forall|i: int| 0 <= i < ids.len() ==> 1 <= #[trigger] ids[i] < next
    &&& forall|i: int, j: int| 0 <= i < j < ids.len() ==> ids[i] != ids[j]
}

/// The stages of the switch `id`, in table order.
pub open spec fn stages_of(stages: Seq<WarningStageView>, id: Seq<char>) -> Seq<WarningStageView> {
    stages.filter(|s: WarningStageView| s.switch_id == id)
}

/// The warning or the final actions of the switch `id`, in table order.
pub open spec fn actions_of(actions: Seq<ActionView>, id: Seq<char>, is_warning: bool) -> Seq<
    ActionView,
> {
    actions.filter(|a: ActionView| a.switch_id == id && a.is_warning == is_warning)
}

/// The switches in the state `status`, in table order.
pub open spec fn switches_in(switches: Seq<SwitchView>, status: SwitchStatus) -> Seq<SwitchView> {
    switches.filter(|s: SwitchView| s.status == status)
}

/// The audit records of the switch `id`, in table order.
pub open spec fn executions_of(executions: Seq<ActionExecutionView>, id: Seq<char>) -> Seq<
    ActionExecutionView,
> {
    executions.filter(|e: ActionExecutionView| e.switch_id == id)
}

/// Whether a marker says that the warning of the stage `stage_seconds` has
/// been sent for the switch `id`.
pub open spec fn warning_sent(
    markers: Seq<WarningExecutionView>,
    id: Seq<char>,
    stage_seconds: int,
) -> bool {
    exists|i: int|
        0 <= i < markers.len() && (#[trigger] markers[i]).switch_id == id
            && markers[i].stage_seconds == stage_seconds
}

/// A row added at the end of the stages is among those of the switch `id`
/// exactly when it belongs to it.
pub proof fn lemma_stages_of_push(
    stages: Seq<WarningStageView>,
    row: WarningStageView,
    id: Seq<char>,
)
    ensures
        stages_of(stages.push(row), id) == if row.switch_id == id {
            stages_of(stages, id).push(row)
        } else {
            stages_of(stages, id)
        },
{
    stages.lemma_filter_push(row, |s: WarningStageView| s.switch_id == id);
}

/// A row added at the end of the actions is among the warning or the final
/// actions of the switch `id` exactly when it is one of them.
pub proof fn lemma_actions_of_push(
    actions: Seq<ActionView>,
    row: ActionView,
    id: Seq<char>,
    is_warning: bool,
)
    ensures
        actions_of(actions.push(row), id, is_warning) == if row.switch_id == id && row.is_warning
            == is_warning {
            actions_of(actions, id, is_warning).push(row)
        } else {
            actions_of(actions, id, is_warning)
        },
{
    actions.lemma_filter_push(
        row,
        |a: ActionView| a.switch_id == id && a.is_warning == is_warning,
    );
}

/// A row added at the end of the switches is among those in the state
/// `status` exactly when it is in that state.
pub proof fn lemma_switches_in_push(
    switches: Seq<SwitchView>,
    row: SwitchView,
    status: SwitchStatus,
)
    ensures
        switches_in(switches.push(row), status) == if row.status == status {
            switches_in(switches, status).push(row)
        } else {
            switches_in(switches, status)
        },
{
    switches.lemma_filter_push(row, |s: SwitchView| s.status == status);
}

/// A row added at the end of the audit records is among those of the switch
/// `id` exactly when it belongs to it.
pub proof fn lemma_executions_of_push(
    executions: Seq<ActionExecutionView>,
    row: ActionExecutionView,
    id: Seq<char>,
)
    ensures
        executions_of(executions.push(row), id) == if row.switch_id == id {
            executions_of(executions, id).push(row)
        } else {
            executions_of(executions, id)
        },
{
    executions.lemma_filter_push(row, |e: ActionExecutionView| e.switch_id == id);
}

impl StoreView {
    /// The keys by which the switches are kept: their creation instants.
    pub open spec fn switch_keys(self) -> Seq<int> {
        self.switches.map_values(|s: SwitchView| s.created_at)
    }

    /// The keys by which the stages are kept: their leads.
    pub open spec fn stage_keys(self) -> Seq<int> {
        self.stages.map_values(|s: WarningStageView| s.seconds_before_deadline)
    }

    /// The keys by which the actions are kept: their orders.
    pub open spec fn action_keys(self) -> Seq<int> {
        self.actions.map_values(|a: ActionView| a.action_order)
    }

    /// The keys by which the audit records are kept: their starts.
    pub open spec fn execution_keys(self) -> Seq<int> {
        self.executions.map_values(|e: ActionExecutionView| e.started_at)
    }

    /// No two switches share an identifier.
    pub open spec fn switch_ids_unique(self) -> bool {
        forall|i: int, j: int|
            0 <= i < j < self.switches.len() ==> self.switches[i].id != self.switches[j].id
    }

    /// The invariant of the store.
    pub open spec fn wf(self) -> bool {
        &&& self.switch_ids_unique()
        &&& sorted_keys(self.switch_keys(), true)
        &&& sorted_keys(self.stage_keys(), false)
        &&& sorted_keys(self.action_keys(), false)
        &&& sorted_keys(self.execution_keys(), true)
        &&& 1 <= self.next_stage_id <= i64::MAX
        &&& 1 <= self.next_action_id <= i64::MAX
        &&& 1 <= self.next_marker_id <= i64::MAX
        &&& 1 <= self.next_execution_id <= i64::MAX
        &&& ids_fresh(self.stages.map_values(|s: WarningStageView| s.id), self.next_stage_id)
        &&& ids_fresh(self.actions.map_values(|a: ActionView| a.id), self.next_action_id)
        &&& ids_fresh(self.markers.map_values(|m: WarningExecutionView| m.id), self.next_marker_id)
        &&& ids_fresh(
            self.executions.map_values(|e: ActionExecutionView| e.id),
            self.next_execution_id,
        )
        &&& forall|i: int|
            0 <= i < self.executions.len() ==> audit_consistent(#[trigger] self.executions[i])
        &&& self.owned()
    }

    /// Every stage, action, marker and audit record belongs to a switch
    /// that the store holds.
    pub open spec fn owned(self) -> bool {
        &&& forall|i: int|
            0 <= i < self.stages.len() ==> self.has_switch((#[trigger] self.stages[i]).switch_id)
        &&& forall|i: int|
            0 <= i < self.actions.len() ==> self.has_switch(
                (#[trigger] self.actions[i]).switch_id,
            )
        &&& forall|i: int|
            0 <= i < self.markers.len() ==> self.has_switch(
                (#[trigger] self.markers[i]).switch_id,
            )
        &&& forall|i: int|
            0 <= i < self.executions.len() ==> self.has_switch(
                (#[trigger] self.executions[i]).switch_id,
            )
    }

    /// Why a row for the switch `switch_id` cannot be added to a table
    /// whose next identifier is `next_id`, if it cannot: the store does not
    /// hold the switch, or the identifiers of the table are used up.
    pub open spec fn row_refusal(self, switch_id: Seq<char>, next_id: int) -> Option<StoreError> {
        if !self.has_switch(switch_id) {
            Some(StoreError::UnknownSwitch)
        } else if next_id >= i64::MAX {
            Some(StoreError::Exhausted)
        } else {
            None
        }
    }

    /// The store without the switch `id` and without every row that
    /// belongs to it.
    pub open spec fn without_switch(self, id: Seq<char>) -> StoreView {
        StoreView {
            switches: self.switches.filter(|v: SwitchView| Switch::owner(v) != id),
            stages: self.stages.filter(|v: WarningStageView| WarningStage::owner(v) != id),
            actions: self.actions.filter(|v: ActionView| Action::owner(v) != id),
            markers: self.markers.filter(
                |v: WarningExecutionView| WarningExecution::owner(v) != id,
            ),
            executions: self.executions.filter(
                |v: ActionExecutionView| ActionExecution::owner(v) != id,
            ),
            ..self
        }
    }

    /// The store with the switch `s` added.
    pub open spec fn with_switch(self, s: SwitchView) -> StoreView {
        StoreView {
            switches: self.switches.insert(slot(self.switch_keys(), s.created_at, true), s),
            ..self
        }
    }

    /// The store with a stage of `lead` seconds added for the switch
    /// `switch_id`, under the next stage identifier.
    pub open spec fn with_stage(self, switch_id: Seq<char>, lead: int) -> StoreView {
        StoreView {
            stages: self.stages.insert(
                slot(self.stage_keys(), lead, false),
                WarningStageView {
                    id: self.next_stage_id,
                    switch_id,
                    seconds_before_deadline: lead,
                },
            ),
            next_stage_id: self.next_stage_id + 1,
            ..self
        }
    }

    /// The store with the action `a` added under the next action
    /// identifier.
    pub open spec fn with_action(self, a: ActionView) -> StoreView {
        StoreView {
            actions: self.actions.insert(
                slot(self.action_keys(), a.action_order, false),
                ActionView { id: self.next_action_id, ..a },
            ),
            next_action_id: self.next_action_id + 1,
            ..self
        }
    }

    /// The store with a marker added for the stage `stage_seconds` of the
    /// switch `switch_id`, under the next marker identifier.
    pub open spec fn with_marker(self, switch_id: Seq<char>, stage_seconds: int, at: int)
        -> StoreView {
        StoreView {
            markers: self.markers.push(
                WarningExecutionView {
                    id: self.next_marker_id,
                    switch_id,
                    stage_seconds,
                    executed_at: at,
                },
            ),
            next_marker_id: self.next_marker_id + 1,
            ..self
        }
    }

    /// The store with a running audit record opened at `at` for the action
    /// `action_id` of the switch `switch_id`, under the next execution
    /// identifier.
    pub open spec fn with_start(
        self,
        switch_id: Seq<char>,
        action_id: int,
        execution_type: ExecutionType,
        at: int,
    ) -> StoreView {
        StoreView {
            executions: self.executions.insert(
                slot(self.execution_keys(), at, true),
                started_record(self.next_execution_id, switch_id, action_id, execution_type, at),
            ),
            next_execution_id: self.next_execution_id + 1,
            ..self
        }
    }

    /// The store after crash recovery at `at`: every audit record that was
    /// running is closed as failed, with `at` as its end.
    pub open spec fn reaped(self, at: int) -> StoreView {
        StoreView {
            executions: self.executions.map_values(
                |e: ActionExecutionView| reaped_record(e, at),
            ),
            ..self
        }
    }

    /// Whether the fires of the switch `id` can be counted once more.
    pub open spec fn can_count_fire(self, id: Seq<char>) -> bool {
        forall|i: int|
            0 <= i < self.switches.len() && self.switches[i].id == id
                ==> self.switches[i].trigger_count_executed < i64::MAX
    }

    /// Whether the store holds the switch `id`.
    pub open spec fn has_switch(self, id: Seq<char>) -> bool {
        exists|i: int| 0 <= i < self.switches.len() && #[trigger] self.switches[i].id == id
    }
}

/// Giving out the next identifier keeps the identifiers fresh, wherever the
/// new row goes.
pub proof fn lemma_fresh_insert(ids: Seq<int>, next: int, p: int)
    requires
        ids_fresh(ids, next),
        1 <= next,
        0 <= p <= ids.len(),
    ensures
        ids_fresh(ids.insert(p, next), next + 1),
{
    let after = ids.insert(p, next);
    assert forall|i: int| 0 <= i < after.len() implies 1 <= #[trigger] after[i] < next + 1 by {
        if i < p {
            assert(after[i] == ids[i]);
        } else if i > p {
            assert(after[i] == ids[i - 1]);
        }
    }
    assert forall|i: int, j: int| 0 <= i < j < after.len() implies after[i] != after[j] by {
        let a = if i < p { ids[i] } else if i == p { next } else { ids[i - 1] };
        let b = if j < p { ids[j] } else if j == p { next } else { ids[j - 1] };
        assert(after[i] == a);
        assert(after[j] == b);
    }
}

/// The state that a result gives an audit record: failed when there is an
/// error message or an exit code other than 0, completed otherwise.
pub open spec fn derived_status(exit_code: Option<int>, error_message: Option<Seq<char>>)
    -> ExecutionStatus {
    if error_message is Some || (exit_code is Some && exit_code != Some(0int)) {
        ExecutionStatus::Failed
    } else {
        ExecutionStatus::Completed
    }
}

/// An audit record closed at `completed_at` with the given result.
pub open spec fn closed_record(
    e: ActionExecutionView,
    completed_at: int,
    exit_code: Option<int>,
    stdout: Option<Seq<char>>,
    stderr: Option<Seq<char>>,
    error_message: Option<Seq<char>>,
) -> ActionExecutionView {
    ActionExecutionView {
        completed_at: Some(completed_at),
        status: derived_status(exit_code, error_message),
        exit_code,
        stdout,
        stderr,
        error_message,
        ..e
    }
}

/// An audit record after crash recovery at `at`: one that a crash left
/// running is closed as failed, with the crash message and `at` as its end;
/// any other is as it was.
pub open spec fn reaped_record(e: ActionExecutionView, at: int) -> ActionExecutionView {
    if e.status == ExecutionStatus::Running {
        ActionExecutionView {
            completed_at: Some(at),
            status: ExecutionStatus::Failed,
            error_message: Some(crash_message()),
            ..e
        }
    } else {
        e
    }
}

/// The audit record that the start of an action writes.
pub open spec fn started_record(
    id: int,
    switch_id: Seq<char>,
    action_id: int,
    execution_type: ExecutionType,
    started_at: int,
) -> ActionExecutionView {
    ActionExecutionView {
        id,
        switch_id,
        action_id,
        execution_type,
        started_at,
        completed_at: None,
        status: ExecutionStatus::Running,
        exit_code: None,
        stdout: None,
        stderr: None,
        error_message: None,
    }
}

/// The switches with `last_checkin` of the switch `id` set to `at`.
pub open spec fn with_checkin(switches: Seq<SwitchView>, id: Seq<char>, at: int) -> Seq<
    SwitchView,
> {
    switches.map_values(
        |s: SwitchView|
            if s.id == id {
                s.checked_in(at)
            } else {
                s
            },
    )
}

/// The switches with the switch `id` triggered at `at`.
pub open spec fn with_trigger(switches: Seq<SwitchView>, id: Seq<char>, at: int) -> Seq<
    SwitchView,
> {
    switches.map_values(
        |s: SwitchView|
            if s.id == id {
                s.triggered(at)
            } else {
                s
            },
    )
}

/// The switches with one more fire of the switch `id` counted at `at`.
pub open spec fn with_refire(switches: Seq<SwitchView>, id: Seq<char>, at: int) -> Seq<
    SwitchView,
> {
    switches.map_values(
        |s: SwitchView|
            if s.id == id {
                s.refired(at)
            } else {
                s
            },
    )
}

/// A record that has been closed is no longer running and has its end
/// set; if it is completed, it carries no error message and no exit code
/// but 0.
pub proof fn theorem_closed_record_is_consistent(
    e: ActionExecutionView,
    completed_at: int,
    exit_code: Option<int>,
    stdout: Option<Seq<char>>,
    stderr: Option<Seq<char>>,
    error_message: Option<Seq<char>>,
)
    ensures
        ({
            let c = closed_record(e, completed_at, exit_code, stdout, stderr, error_message);
            &&& audit_consistent(c)
            &&& c.status != ExecutionStatus::Running
            &&& c.completed_at == Some(completed_at)
            &&& c.status == ExecutionStatus::Completed ==> c.error_message is None && (c.exit_code
                is None || c.exit_code == Some(0int))
            &&& c.status == ExecutionStatus::Failed <==> error_message is Some || (exit_code
                matches Some(code) && code != 0)
        }),
{
}

/// Crash recovery closes a running record as failed with the crash
/// message and the instant of the recovery as its end; it leaves every
/// other record as it is; what holds of every audit record holds
/// afterwards.
pub proof fn theorem_reaped_record_is_consistent(e: ActionExecutionView, at: int)
    requires
        audit_consistent(e),
    ensures
        audit_consistent(reaped_record(e, at)),
        reaped_record(e, at).status != ExecutionStatus::Running,
        e.status == ExecutionStatus::Running ==> reaped_record(e, at).status
            == ExecutionStatus::Failed && reaped_record(e, at).error_message == Some(
            crash_message(),
        ) && reaped_record(e, at).completed_at == Some(at),
        e.status != ExecutionStatus::Running ==> reaped_record(e, at) == e,
{
}

/// In a well-formed store every audit record that is completed or failed
/// has its end set, and every completed record carries no error message
/// and no exit code but 0; a running record has no end.
pub proof fn theorem_audit_trail_is_consistent(v: StoreView, i: int)
    requires
        v.wf(),
        0 <= i < v.executions.len(),
    ensures
        v.executions[i].status == ExecutionStatus::Completed ==> v.executions[i].completed_at
            is Some && v.executions[i].error_message is None && (v.executions[i].exit_code is None
            || v.executions[i].exit_code == Some(0int)),
        v.executions[i].status == ExecutionStatus::Failed ==> v.executions[i].completed_at
            is Some,
        v.executions[i].status == ExecutionStatus::Running ==> v.executions[i].completed_at
            is None,
{
    assert(audit_consistent(v.executions[i]));
}

/// The state that a result gives an audit record.
pub fn derive_status(exit_code: Option<i64>, error_message: &Option<String>) -> (r:
    ExecutionStatus)
    ensures
        r == derived_status(opt_int(exit_code), opt_text(*error_message)),
{
    let bad_exit = match exit_code {
        Some(code) => code != 0,
        None => false,
    };
    if error_message.is_some() || bad_exit {
        ExecutionStatus::Failed
    } else {
        ExecutionStatus::Completed
    }
}

/// How many audit records are running.
pub open spec fn running_count(executions: Seq<ActionExecutionView>) -> nat {
    executions.filter(|e: ActionExecutionView| e.status == ExecutionStatus::Running).len()
}

/// Where no record is running, the count of running records is 0.
pub proof fn lemma_none_running(executions: Seq<ActionExecutionView>)
    requires
        forall|i: int|
            0 <= i < executions.len() ==> (#[trigger] executions[i]).status
                != ExecutionStatus::Running,
    ensures
        running_count(executions) == 0,
    decreases executions.len(),
{
    reveal(Seq::filter);
    if executions.len() > 0 {
        lemma_none_running(executions.drop_last());
    }
}

/// The history of the switch `id`: its audit records in table order, cut
/// off after a hundred.
pub open spec fn history_of(executions: Seq<ActionExecutionView>, id: Seq<char>) -> Seq<
    ActionExecutionView,
> {
    let all = executions_of(executions, id);
    if all.len() <= 100 {
        all
    } else {
        all.take(100)
    }
}

/// The rows that pass a filter come from the table in table order:
/// `origin[k]` is the place in `s` of the `k`-th row that passed.
pub proof fn lemma_filter_embeds<A>(s: Seq<A>, pred: spec_fn(A) -> bool) -> (origin: Seq<int>)
    ensures
        origin.len() == s.filter(pred).len(),
        forall|k: int|
            0 <= k < origin.len() ==> 0 <= #[trigger] origin[k] < s.len() && s.filter(pred)[k]
                == s[origin[k]] && pred(s[origin[k]]),
        forall|a: int, b: int| 0 <= a < b < origin.len() ==> origin[a] < origin[b],
    decreases s.len(),
{
    reveal(Seq::filter);
    if s.len() == 0 {
        Seq::empty()
    } else {
        let head = lemma_filter_embeds(s.drop_last(), pred);
        if pred(s.last()) {
            head.push(s.len() - 1)
        } else {
            head
        }
    }
}

/// A filter keeps a sorted table sorted.
pub proof fn lemma_filter_keeps_sorted<A>(
    s: Seq<A>,
    key: spec_fn(A) -> int,
    pred: spec_fn(A) -> bool,
    descending: bool,
)
    requires
        sorted_keys(s.map_values(key), descending),
    ensures
        sorted_keys(s.filter(pred).map_values(key), descending),
{
    let origin = lemma_filter_embeds(s, pred);
    let keys = s.map_values(key);
    let kept = s.filter(pred).map_values(key);
    assert forall|i: int, j: int| 0 <= i < j < kept.len() implies in_order(
        kept[i],
        kept[j],
        descending,
    ) by {
        assert(in_order(keys[origin[i]], keys[origin[j]], descending));
    }
}

/// A filter keeps fresh identifiers fresh.
pub proof fn lemma_filter_keeps_fresh<A>(
    s: Seq<A>,
    id_of: spec_fn(A) -> int,
    pred: spec_fn(A) -> bool,
    next: int,
)
    requires
        ids_fresh(s.map_values(id_of), next),
    ensures
        ids_fresh(s.filter(pred).map_values(id_of), next),
{
    let origin = lemma_filter_embeds(s, pred);
    let ids = s.map_values(id_of);
    let kept = s.filter(pred).map_values(id_of);
    assert forall|i: int| 0 <= i < kept.len() implies 1 <= #[trigger] kept[i] < next by {
        assert(kept[i] == ids[origin[i]]);
    }
    assert forall|i: int, j: int| 0 <= i < j < kept.len() implies kept[i] != kept[j] by {
        assert(kept[i] == ids[origin[i]]);
        assert(kept[j] == ids[origin[j]]);
    }
}

/// Among switches with distinct identifiers, those that pass a filter have
/// distinct identifiers, and where the filter lets no switch `id` pass,
/// none of them is the switch `id`.
pub proof fn lemma_filter_keeps_distinct(
    switches: Seq<SwitchView>,
    pred: spec_fn(SwitchView) -> bool,
    id: Seq<char>,
)
    requires
        forall|i: int, j: int| 0 <= i < j < switches.len() ==> switches[i].id != switches[j].id,
        forall|v: SwitchView| pred(v) ==> v.id != id,
    ensures
        forall|i: int, j: int|
            0 <= i < j < switches.filter(pred).len() ==> switches.filter(pred)[i].id
                != switches.filter(pred)[j].id,
        forall|i: int| 0 <= i < switches.filter(pred).len() ==> switches.filter(pred)[i].id != id,
{
    let origin = lemma_filter_embeds(switches, pred);
    let kept = switches.filter(pred);
    assert forall|i: int, j: int| 0 <= i < j < kept.len() implies kept[i].id != kept[j].id by {
        assert(kept[i] == switches[origin[i]]);
        assert(kept[j] == switches[origin[j]]);
    }
    assert forall|i: int| 0 <= i < kept.len() implies kept[i].id != id by {
        assert(kept[i] == switches[origin[i]]);
    }
}

/// A row that belongs to a switch.
pub trait Owned: View + Sized {
    /// The identifier of the switch that the row belongs to.
    spec fn owner(v: Self::V) -> Seq<char>;

    fn is_owned_by(&self, id: &str) -> (r: bool)
        ensures
            r == (Self::owner(self@) == id@),
    ;

    fn copy(&self) -> (r: Self)
        ensures
            r@ == self@,
    ;
}

impl Owned for Switch {
    open spec fn owner(v: SwitchView) -> Seq<char> {
        v.id
    }

    fn is_owned_by(&self, id: &str) -> (r: bool) {
        str_eq(self.id.as_str(), id)
    }

    fn copy(&self) -> (r: Self) {
        self.clone()
    }
}

impl Owned for WarningStage {
    open spec fn owner(v: WarningStageView) -> Seq<char> {
        v.switch_id
    }

    fn is_owned_by(&self, id: &str) -> (r: bool) {
        str_eq(self.switch_id.as_str(), id)
    }

    fn copy(&self) -> (r: Self) {
        self.clone()
    }
}

impl Owned for Action {
    open spec fn owner(v: ActionView) -> Seq<char> {
        v.switch_id
    }

    fn is_owned_by(&self, id: &str) -> (r: bool) {
        str_eq(self.switch_id.as_str(), id)
    }

    fn copy(&self) -> (r: Self) {
        self.clone()
    }
}

impl Owned for WarningExecution {
    open spec fn owner(v: WarningExecutionView) -> Seq<char> {
        v.switch_id
    }

    fn is_owned_by(&self, id: &str) -> (r: bool) {
        str_eq(self.switch_id.as_str(), id)
    }

    fn copy(&self) -> (r: Self) {
        self.clone()
    }
}

impl Owned for ActionExecution {
    open spec fn owner(v: ActionExecutionView) -> Seq<char> {
        v.switch_id
    }

    fn is_owned_by(&self, id: &str) -> (r: bool) {
        str_eq(self.switch_id.as_str(), id)
    }

    fn copy(&self) -> (r: Self) {
        self.clone()
    }
}

/// The rows of `rows` that belong to another switch than `id`, in order.
pub(crate) fn rows_of_others<T: Owned>(rows: &Vec<T>, id: &str) -> (r: Vec<T>)
    ensures
        views(r@) == views(rows@).filter(|v: T::V| T::owner(v) != id@),
{
    let ghost others = |v: T::V| T::owner(v) != id@;
    let mut out: Vec<T> = Vec::new();
    let mut i: usize = 0;
    proof {
        assert(views(rows@).take(0) =~= Seq::empty());
        reveal(Seq::filter);
        assert(views(out@) =~= views(rows@).take(0).filter(others));
    }
    while i < rows.len()
        invariant
            i <= rows@.len(),
            others == (|v: T::V| T::owner(v) != id@),
            views(out@) == views(rows@).take(i as int).filter(others),
        decreases rows.len() - i,
    {
        proof {
            let v = rows@[i as int]@;
            assert(views(rows@).take(i + 1) =~= views(rows@).take(i as int).push(v));
            views(rows@).take(i as int).lemma_filter_push(v, others);
        }
        if !rows[i].is_owned_by(id) {
            let row = rows[i].copy();
            proof {
                assert(views(out@.push(row)) =~= views(out@).push(row@));
            }
            out.push(row);
        }
        i = i + 1;
    }
    proof {
        assert(views(rows@).take(rows@.len() as int) =~= views(rows@));
    }
    out
}

/// Why the store refused a row.
#[derive(Clone, Copy, Debug, PartialEq, Eq, Structural)]
pub enum StoreError {
    /// A switch with the same identifier is already there.
    DuplicateSwitch,
    /// The identifiers of the table, or the counter of the switch, are
    /// used up.
    Exhausted,
    /// The store holds no switch that the row could belong to.
    UnknownSwitch,
}

/// A state change of one switch.
#[derive(Clone, Copy, PartialEq, Eq, Structural)]
enum Change {
    CheckIn,
    Trigger,
    Refire,
}

impl SwitchView {
    spec fn changed(self, change: Change, at: int) -> SwitchView {
        match change {
            Change::CheckIn => self.checked_in(at),
            Change::Trigger => self.triggered(at),
            Change::Refire => self.refired(at),
        }
    }
}

/// The durable state of the supervisor, held in memory.
pub struct Store {
    switches: Vec<Switch>,
    stages: Vec<WarningStage>,
    actions: Vec<Action>,
    markers: Vec<WarningExecution>,
    executions: Vec<ActionExecution>,
    next_stage_id: i64,
    next_action_id: i64,
    next_marker_id: i64,
    next_execution_id: i64,
}

impl View for Store {
    type V = StoreView;

    closed spec fn view(&self) -> StoreView {
        StoreView {
            switches: views(self.switches@),
            stages: views(self.stages@),
            actions: views(self.actions@),
            markers: views(self.markers@),
            executions: views(self.executions@),
            next_stage_id: self.next_stage_id as int,
            next_action_id: self.next_action_id as int,
            next_marker_id: self.next_marker_id as int,
            next_execution_id: self.next_execution_id as int,
        }
    }
}

impl Store {
    #[verifier::type_invariant]
    spec fn inv(&self) -> bool {
        self@.wf()
    }

    /// An empty store; every table numbers its rows from 1.
    pub fn new() -> (r: Store)
        ensures
            r@.wf(),
            r@ == (StoreView {
                switches: Seq::empty(),
                stages: Seq::empty(),
                actions: Seq::empty(),
                markers: Seq::empty(),
                executions: Seq::empty(),
                next_stage_id: 1,
                next_action_id: 1,
                next_marker_id: 1,
                next_execution_id: 1,
            }),
    {
        let r = Store {
            switches: Vec::new(),
            stages: Vec::new(),
            actions: Vec::new(),
            markers: Vec::new(),
            executions: Vec::new(),
            next_stage_id: 1,
            next_action_id: 1,
            next_marker_id: 1,
            next_execution_id: 1,
        };
        proof {
            assert(r@.switches =~= Seq::empty());
            assert(r@.stages =~= Seq::empty());
            assert(r@.actions =~= Seq::empty());
            assert(r@.markers =~= Seq::empty());
            assert(r@.executions =~= Seq::empty());
        }
        r
    }
}

/// How many stages can still be added.
pub fn stage_ids_left(store: &Store) -> (n: u64)
    ensures
        store@.wf(),
        n == i64::MAX - store@.next_stage_id,
{
    proof {
        use_type_invariant(store);
    }
    (i64::MAX - store.next_stage_id) as u64
}

/// How many actions can still be added.
pub fn action_ids_left(store: &Store) -> (n: u64)
    ensures
        store@.wf(),
        n == i64::MAX - store@.next_action_id,
{
    proof {
        use_type_invariant(store);
    }
    (i64::MAX - store.next_action_id) as u64
}

/// How many switches the store holds.
pub fn switch_count(store: &Store) -> (n: usize)
    ensures
        store@.wf(),
        n == store@.switches.len(),
{
    proof {
        use_type_invariant(store);
    }
    store.switches.len()
}

/// The switch `id`, if the store holds it.
pub fn get_switch_by_id(store: &Store, id: &str) -> (r: Option<Switch>)
    ensures
        store@.wf(),
        match r {
            Some(s) => s@.id == id@ && store@.switches.contains(s@),
            None => !store@.has_switch(id@),
        },
{
    proof {
        use_type_invariant(store);
    }
    let mut i: usize = 0;
    while i < store.switches.len()
        invariant
            store@.wf(),
            i <= store.switches@.len(),
            forall|k: int| 0 <= k < i ==> store@.switches[k].id != id@,
        decreases store.switches.len() - i,
    {
        if str_eq(store.switches[i].id.as_str(), id) {
            let found = store.switches[i].clone();
            proof {
                assert(store@.switches[i as int] == found@);
            }
            return Some(found);
        }
        i = i + 1;
    }
    None
}

/// Whether the store holds the switch `id`.
pub fn holds_switch(store: &Store, id: &str) -> (r: bool)
    ensures
        store@.wf(),
        r == store@.has_switch(id@),
{
    let found = get_switch_by_id(store, id);
    proof {
        if found is Some {
            let hit = found->0@;
            let k = choose|k: int| 0 <= k < store@.switches.len() && store@.switches[k] == hit;
            assert(store@.switches[k].id == id@);
        }
    }
    found.is_some()
}

/// The switch rows with `change` applied to the switch `id`.
fn change_switch(store: &mut Store, id: &str, change: Change, at: i64)
    requires
        change == Change::Refire ==> forall|i: int|
            0 <= i < old(store)@.switches.len() && old(store)@.switches[i].id == id@
                ==> old(store)@.switches[i].trigger_count_executed < i64::MAX,
    ensures
        final(store)@.wf(),
        final(store)@ == (StoreView {
            switches: old(store)@.switches.map_values(
                |s: SwitchView|
                    if s.id == id@ {
                        s.changed(change, at as int)
                    } else {
                        s
                    },
            ),
            ..old(store)@
        }),
{
    proof {
        use_type_invariant(&*store);
    }
    let mut out: Vec<Switch> = Vec::new();
    let mut i: usize = 0;
    while i < store.switches.len()
        invariant
            i <= store.switches@.len(),
            out@.len() == i,
            change == Change::Refire ==> forall|k: int|
                0 <= k < store@.switches.len() && store@.switches[k].id == id@
                    ==> store@.switches[k].trigger_count_executed < i64::MAX,
            forall|k: int|
                0 <= k < i ==> (#[trigger] out@[k])@ == (if store.switches@[k]@.id == id@ {
                    store.switches@[k]@.changed(change, at as int)
                } else {
                    store.switches@[k]@
                }),
        decreases store.switches.len() - i,
    {
        let mut row = store.switches[i].clone();
        if str_eq(row.id.as_str(), id) {
            proof {
                assert(store@.switches[i as int] == row@);
            }
            match change {
                Change::CheckIn => row.check_in(at),
                Change::Trigger => row.trigger(at),
                Change::Refire => row.refire(at),
            }
        }
        out.push(row);
        i = i + 1;
    }
    proof {
        let after = views(out@);
        let before = old(store)@.switches;
        assert(after =~= before.map_values(
            |s: SwitchView|
                if s.id == id@ {
                    s.changed(change, at as int)
                } else {
                    s
                },
        ));
        assert(after.map_values(|s: SwitchView| s.created_at) =~= old(store)@.switch_keys());
        let next = StoreView { switches: after, ..old(store)@ };
        assert forall|x: Seq<char>| #[trigger] old(store)@.has_switch(x) implies next.has_switch(
            x,
        ) by {
            let k = choose|k: int|
                0 <= k < before.len() && (#[trigger] before[k]).id == x;
            assert(next.switches[k].id == x);
        }
        assert(next.owned());
    }
    store.switches = out;
}

/// Adds a switch as given. A second switch with an identifier that the
/// store already holds is refused, and nothing changes.
pub fn create_switch(store: &mut Store, switch: &Switch) -> (r: Result<(), StoreError>)
    ensures
        final(store)@.wf(),
        match r {
            Ok(_) => !old(store)@.has_switch(switch@.id)
                && final(store)@ == old(store)@.with_switch(switch@),
            Err(e) => e == StoreError::DuplicateSwitch && old(store)@.has_switch(switch@.id)
                && final(store)@ == old(store)@,
        },
{
    proof {
        use_type_invariant(&*store);
    }
    if get_switch_by_id(store, switch.id.as_str()).is_some() {
        proof {
            let found = choose|s: SwitchView|
                s.id == switch@.id && store@.switches.contains(s);
            let k = choose|k: int| 0 <= k < store@.switches.len() && store@.switches[k] == found;
            assert(store@.switches[k].id == switch@.id);
        }
        return Err(StoreError::DuplicateSwitch);
    }
    let at = find_slot(&store.switches, switch.created_at, true);
    let mut rows = list_switches(store);
    rows.insert(at, switch.clone());
    proof {
        let before = old(store)@;
        let keys = before.switch_keys();
        assert(keys_of(old(store).switches@) =~= keys);
        lemma_slot_splits(keys, switch.created_at as int, true);
        let after = views(rows@);
        assert(after =~= before.switches.insert(at as int, switch@));
        assert(after.map_values(|s: SwitchView| s.created_at) =~= keys.insert(
            at as int,
            switch.created_at as int,
        ));
        assert forall|i: int, j: int| 0 <= i < j < after.len() implies after[i].id
            != after[j].id by {
            let a = if i < at { before.switches[i] } else if i == at { switch@ } else {
                before.switches[i - 1]
            };
            let b = if j < at { before.switches[j] } else if j == at { switch@ } else {
                before.switches[j - 1]
            };
            assert(after[i] == a);
            assert(after[j] == b);
        }
        let next = StoreView { switches: after, ..before };
        assert forall|x: Seq<char>| #[trigger] before.has_switch(x) implies next.has_switch(x) by {
            let k = choose|k: int|
                0 <= k < before.switches.len() && (#[trigger] before.switches[k]).id == x;
            if k < at {
                assert(next.switches[k].id == x);
            } else {
                assert(next.switches[k + 1].id == x);
            }
        }
        assert(next.owned());
    }
    store.switches = rows;
    Ok(())
}

/// Every switch, newest first.
pub fn list_switches(store: &Store) -> (r: Vec<Switch>)
    ensures
        store@.wf(),
        views(r@) == store@.switches,
{
    proof {
        use_type_invariant(store);
    }
    let mut out: Vec<Switch> = Vec::new();
    let mut i: usize = 0;
    while i < store.switches.len()
        invariant
            i <= store.switches@.len(),
            out@.len() == i,
            forall|k: int| 0 <= k < i ==> (#[trigger] out@[k])@ == store.switches@[k]@,
        decreases store.switches.len() - i,
    {
        out.push(store.switches[i].clone());
        i = i + 1;
    }
    proof {
        assert(views(out@) =~= store@.switches);
    }
    out
}

/// The switches in the state `status`, in table order.
pub fn switches_with_status(store: &Store, status: SwitchStatus) -> (r: Vec<Switch>)
    ensures
        store@.wf(),
        views(r@) == switches_in(store@.switches, status),
{
    proof {
        use_type_invariant(store);
    }
    let mut out: Vec<Switch> = Vec::new();
    let mut i: usize = 0;
    proof {
        assert(store@.switches.take(0) =~= Seq::empty());
        reveal(Seq::filter);
        assert(views(out@) =~= switches_in(store@.switches.take(0), status));
    }
    while i < store.switches.len()
        invariant
            i <= store.switches@.len(),
            views(out@) == switches_in(store@.switches.take(i as int), status),
        decreases store.switches.len() - i,
    {
        proof {
            let row = store@.switches[i as int];
            assert(store@.switches.take(i + 1) =~= store@.switches.take(i as int).push(row));
            lemma_switches_in_push(store@.switches.take(i as int), row, status);
        }
        if store.switches[i].status == status {
            let row = store.switches[i].clone();
            proof {
                assert(views(out@.push(row)) =~= views(out@).push(row@));
            }
            out.push(row);
        }
        i = i + 1;
    }
    proof {
        assert(store@.switches.take(store@.switches.len() as int) =~= store@.switches);
    }
    out
}

/// The switches that the active sweep looks at.
pub fn get_active_switches(store: &Store) -> (r: Vec<Switch>)
    ensures
        store@.wf(),
        views(r@) == switches_in(store@.switches, SwitchStatus::Active),
{
    switches_with_status(store, SwitchStatus::Active)
}

/// The switches that the triggered sweep looks at.
pub fn get_triggered_switches(store: &Store) -> (r: Vec<Switch>)
    ensures
        store@.wf(),
        views(r@) == switches_in(store@.switches, SwitchStatus::Triggered),
{
    switches_with_status(store, SwitchStatus::Triggered)
}

/// Sets `last_checkin` of the switch `id`; without such a switch
/// nothing changes.
pub fn update_checkin(store: &mut Store, id: &str, timestamp: i64)
    ensures
        final(store)@.wf(),
        final(store)@ == (StoreView {
            switches: with_checkin(old(store)@.switches, id@, timestamp as int),
            ..old(store)@
        }),
{
    change_switch(store, id, Change::CheckIn, timestamp);
    proof {
        assert(store@.switches =~= with_checkin(old(store)@.switches, id@, timestamp as int));
    }
}

/// Moves the switch `id` to `Triggered`, with `last_trigger` set and one
/// fire counted, in one step.
pub fn mark_switch_triggered(store: &mut Store, id: &str, timestamp: i64)
    ensures
        final(store)@.wf(),
        final(store)@ == (StoreView {
            switches: with_trigger(old(store)@.switches, id@, timestamp as int),
            ..old(store)@
        }),
{
    change_switch(store, id, Change::Trigger, timestamp);
    proof {
        assert(store@.switches =~= with_trigger(old(store)@.switches, id@, timestamp as int));
    }
}

/// Sets `last_trigger` of the switch `switch_id` and counts one more
/// fire, in one step. Where the count cannot grow, nothing changes.
pub fn update_trigger_execution(
    store: &mut Store,
    switch_id: &str,
    trigger_time: i64,
) -> (r: Result<(), StoreError>)
    ensures
        final(store)@.wf(),
        match r {
            Ok(_) => old(store)@.can_count_fire(switch_id@) && final(store)@ == (StoreView {
                switches: with_refire(old(store)@.switches, switch_id@, trigger_time as int),
                ..old(store)@
            }),
            Err(e) => e == StoreError::Exhausted && !old(store)@.can_count_fire(switch_id@)
                && final(store)@ == old(store)@,
        },
{
    proof {
        use_type_invariant(&*store);
    }
    let mut i: usize = 0;
    while i < store.switches.len()
        invariant
            store@.wf(),
            i <= store.switches@.len(),
            forall|k: int|
                0 <= k < i && store@.switches[k].id == switch_id@
                    ==> store@.switches[k].trigger_count_executed < i64::MAX,
        decreases store.switches.len() - i,
    {
        if store.switches[i].trigger_count_executed == i64::MAX && str_eq(
            store.switches[i].id.as_str(),
            switch_id,
        ) {
            proof {
                assert(store@.switches[i as int].id == switch_id@);
            }
            return Err(StoreError::Exhausted);
        }
        i = i + 1;
    }
    change_switch(store, switch_id, Change::Refire, trigger_time);
    proof {
        assert(store@.switches =~= with_refire(
            old(store)@.switches,
            switch_id@,
            trigger_time as int,
        ));
    }
    Ok(())
}

/// Adds a warning stage under the next stage identifier; the identifier
/// in `stage` is not read. A stage for a switch that the store does not
/// hold is refused, as is one when the identifiers are used up.
pub fn create_warning_stage(store: &mut Store, stage: &WarningStage) -> (r: Result<(), StoreError>)
    ensures
        final(store)@.wf(),
        match r {
            Ok(_) => old(store)@.row_refusal(stage@.switch_id, old(store)@.next_stage_id)
                is None && final(store)@ == old(store)@.with_stage(
                stage@.switch_id,
                stage.seconds_before_deadline as int,
            ),
            Err(e) => old(store)@.row_refusal(stage@.switch_id, old(store)@.next_stage_id)
                == Some(e) && final(store)@ == old(store)@,
        },
{
    proof {
        use_type_invariant(&*store);
    }
    if !holds_switch(store, stage.switch_id.as_str()) {
        return Err(StoreError::UnknownSwitch);
    }
    if store.next_stage_id == i64::MAX {
        return Err(StoreError::Exhausted);
    }
    let row = WarningStage {
        id: store.next_stage_id,
        switch_id: stage.switch_id.clone(),
        seconds_before_deadline: stage.seconds_before_deadline,
    };
    let at = find_slot(&store.stages, stage.seconds_before_deadline, false);
    let mut rows: Vec<WarningStage> = Vec::new();
    core::mem::swap(&mut rows, &mut store.stages);
    rows.insert(at, row);
    proof {
        let before = old(store)@;
        let keys = before.stage_keys();
        assert(keys_of(old(store).stages@) =~= keys);
        lemma_slot_splits(keys, stage.seconds_before_deadline as int, false);
        let after = views(rows@);
        assert(after =~= before.stages.insert(at as int, row@));
        assert(after.map_values(|s: WarningStageView| s.seconds_before_deadline)
            =~= keys.insert(at as int, stage.seconds_before_deadline as int));
        let ids = before.stages.map_values(|s: WarningStageView| s.id);
        lemma_fresh_insert(ids, before.next_stage_id, at as int);
        assert(after.map_values(|s: WarningStageView| s.id) =~= ids.insert(
            at as int,
            before.next_stage_id,
        ));
        assert forall|i: int| 0 <= i < after.len() implies before.has_switch(
            (#[trigger] after[i]).switch_id,
        ) by {
            if i < at {
                assert(after[i] == before.stages[i]);
            } else if i > at {
                assert(after[i] == before.stages[i - 1]);
            }
        }
    }
    store.next_stage_id = store.next_stage_id + 1;
    store.stages = rows;
    Ok(())
}

/// The stages of the switch `switch_id`, the smallest lead first.
pub fn get_warning_stages_for_switch(store: &Store, switch_id: &str) -> (r: Vec<WarningStage>)
    ensures
        store@.wf(),
        views(r@) == stages_of(store@.stages, switch_id@),
        forall|i: int, j: int|
            0 <= i < j < r@.len() ==> r@[i].seconds_before_deadline
                <= r@[j].seconds_before_deadline,
{
    proof {
        use_type_invariant(store);
    }
    let mut out: Vec<WarningStage> = Vec::new();
    let mut i: usize = 0;
    proof {
        assert(store@.stages.take(0) =~= Seq::empty());
        reveal(Seq::filter);
        assert(views(out@) =~= stages_of(store@.stages.take(0), switch_id@));
    }
    while i < store.stages.len()
        invariant
            store@.wf(),
            i <= store.stages@.len(),
            views(out@) == stages_of(store@.stages.take(i as int), switch_id@),
            forall|a: int, b: int|
                0 <= a < b < out@.len() ==> out@[a].seconds_before_deadline
                    <= out@[b].seconds_before_deadline,
            forall|a: int, k: int|
                0 <= a < out@.len() && i <= k < store.stages@.len()
                    ==> out@[a].seconds_before_deadline
                    <= store.stages@[k].seconds_before_deadline,
        decreases store.stages.len() - i,
    {
        proof {
            let row = store@.stages[i as int];
            assert(store@.stages.take(i + 1) =~= store@.stages.take(i as int).push(row));
            lemma_stages_of_push(store@.stages.take(i as int), row, switch_id@);
            assert forall|k: int| i < k < store.stages@.len() implies store.stages@[i as int]
                .seconds_before_deadline <= store.stages@[k].seconds_before_deadline by {
                let keys = store@.stage_keys();
                assert(in_order(keys[i as int], keys[k], false));
            }
        }
        if str_eq(store.stages[i].switch_id.as_str(), switch_id) {
            let row = store.stages[i].clone();
            proof {
                assert(views(out@.push(row)) =~= views(out@).push(row@));
            }
            out.push(row);
        }
        i = i + 1;
    }
    proof {
        assert(store@.stages.take(store@.stages.len() as int) =~= store@.stages);
    }
    out
}

/// Marks the warning of the stage `stage_seconds` as sent for the switch
/// `switch_id` at `timestamp`. A marker for a switch that the store does
/// not hold is refused, as is one when the identifiers are used up.
pub fn record_warning_execution(
    store: &mut Store,
    switch_id: &str,
    stage_seconds: i64,
    timestamp: i64,
) -> (r: Result<(), StoreError>)
    ensures
        final(store)@.wf(),
        match r {
            Ok(_) => old(store)@.row_refusal(switch_id@, old(store)@.next_marker_id) is None
                && final(store)@ == old(store)@.with_marker(
                switch_id@,
                stage_seconds as int,
                timestamp as int,
            ),
            Err(e) => old(store)@.row_refusal(switch_id@, old(store)@.next_marker_id) == Some(e)
                && final(store)@ == old(store)@,
        },
{
    proof {
        use_type_invariant(&*store);
    }
    if !holds_switch(store, switch_id) {
        return Err(StoreError::UnknownSwitch);
    }
    if store.next_marker_id == i64::MAX {
        return Err(StoreError::Exhausted);
    }
    let row = WarningExecution {
        id: store.next_marker_id,
        switch_id: switch_id.to_owned(),
        stage_seconds,
        executed_at: timestamp,
    };
    let mut rows: Vec<WarningExecution> = Vec::new();
    core::mem::swap(&mut rows, &mut store.markers);
    rows.push(row);
    proof {
        let before = old(store)@;
        let after = views(rows@);
        assert(after =~= before.markers.push(row@));
        let ids = before.markers.map_values(|m: WarningExecutionView| m.id);
        lemma_fresh_insert(ids, before.next_marker_id, ids.len() as int);
        assert(after.map_values(|m: WarningExecutionView| m.id) =~= ids.insert(
            ids.len() as int,
            before.next_marker_id,
        ));
        assert forall|i: int| 0 <= i < after.len() implies before.has_switch(
            (#[trigger] after[i]).switch_id,
        ) by {
            if i < before.markers.len() {
                assert(after[i] == before.markers[i]);
            }
        }
    }
    store.next_marker_id = store.next_marker_id + 1;
    store.markers = rows;
    Ok(())
}

/// Whether the warning of the stage `stage_seconds` has been sent for
/// the switch `switch_id`.
pub fn was_warning_sent(store: &Store, switch_id: &str, stage_seconds: i64) -> (r: bool)
    ensures
        store@.wf(),
        r == warning_sent(store@.markers, switch_id@, stage_seconds as int),
{
    proof {
        use_type_invariant(store);
    }
    let mut i: usize = 0;
    while i < store.markers.len()
        invariant
            store@.wf(),
            i <= store.markers@.len(),
            forall|k: int|
                0 <= k < i ==> !((#[trigger] store@.markers[k]).switch_id == switch_id@
                    && store@.markers[k].stage_seconds == stage_seconds as int),
        decreases store.markers.len() - i,
    {
        if store.markers[i].stage_seconds == stage_seconds && str_eq(
            store.markers[i].switch_id.as_str(),
            switch_id,
        ) {
            proof {
                assert(store@.markers[i as int].switch_id == switch_id@);
            }
            return true;
        }
        i = i + 1;
    }
    false
}

/// Every warning marker, oldest first.
pub fn list_warning_executions(store: &Store) -> (r: Vec<WarningExecution>)
    ensures
        store@.wf(),
        views(r@) == store@.markers,
{
    proof {
        use_type_invariant(store);
    }
    let mut out: Vec<WarningExecution> = Vec::new();
    let mut i: usize = 0;
    while i < store.markers.len()
        invariant
            i <= store.markers@.len(),
            out@.len() == i,
            forall|k: int| 0 <= k < i ==> (#[trigger] out@[k])@ == store.markers@[k]@,
        decreases store.markers.len() - i,
    {
        out.push(store.markers[i].clone());
        i = i + 1;
    }
    proof {
        assert(views(out@) =~= store@.markers);
    }
    out
}

/// Adds an action under the next action identifier, which is returned;
/// the identifier in `action` is not read. An action for a switch that the
/// store does not hold is refused, as is one when the identifiers are used
/// up.
pub fn create_action(store: &mut Store, action: &Action) -> (r: Result<i64, StoreError>)
    ensures
        final(store)@.wf(),
        match r {
            Ok(id) => old(store)@.row_refusal(action@.switch_id, old(store)@.next_action_id)
                is None && id == old(store)@.next_action_id && final(store)@ == old(
                store,
            )@.with_action(action@),
            Err(e) => old(store)@.row_refusal(action@.switch_id, old(store)@.next_action_id)
                == Some(e) && final(store)@ == old(store)@,
        },
{
    proof {
        use_type_invariant(&*store);
    }
    if !holds_switch(store, action.switch_id.as_str()) {
        return Err(StoreError::UnknownSwitch);
    }
    if store.next_action_id == i64::MAX {
        return Err(StoreError::Exhausted);
    }
    let id = store.next_action_id;
    let row = Action {
        id,
        switch_id: action.switch_id.clone(),
        action_order: action.action_order,
        action_type: action.action_type.clone(),
        is_warning: action.is_warning,
        config: action.config.clone(),
    };
    let at = find_slot(&store.actions, action.action_order, false);
    let mut rows: Vec<Action> = Vec::new();
    core::mem::swap(&mut rows, &mut store.actions);
    rows.insert(at, row);
    proof {
        let before = old(store)@;
        let keys = before.action_keys();
        assert(keys_of(old(store).actions@) =~= keys);
        lemma_slot_splits(keys, action.action_order as int, false);
        let after = views(rows@);
        assert(after =~= before.actions.insert(at as int, row@));
        assert(after.map_values(|a: ActionView| a.action_order) =~= keys.insert(
            at as int,
            action.action_order as int,
        ));
        let ids = before.actions.map_values(|a: ActionView| a.id);
        lemma_fresh_insert(ids, before.next_action_id, at as int);
        assert(after.map_values(|a: ActionView| a.id) =~= ids.insert(
            at as int,
            before.next_action_id,
        ));
        assert forall|i: int| 0 <= i < after.len() implies before.has_switch(
            (#[trigger] after[i]).switch_id,
        ) by {
            if i < at {
                assert(after[i] == before.actions[i]);
            } else if i > at {
                assert(after[i] == before.actions[i - 1]);
            }
        }
    }
    store.next_action_id = store.next_action_id + 1;
    store.actions = rows;
    Ok(id)
}

/// The warning or the final actions of the switch `switch_id`, in the
/// order in which they run.
pub fn get_actions_for_switch(store: &Store, switch_id: &str, is_warning: bool) -> (r: Vec<Action>)
    ensures
        store@.wf(),
        views(r@) == actions_of(store@.actions, switch_id@, is_warning),
        forall|i: int, j: int|
            0 <= i < j < r@.len() ==> r@[i].action_order <= r@[j].action_order,
{
    proof {
        use_type_invariant(store);
    }
    let mut out: Vec<Action> = Vec::new();
    let mut i: usize = 0;
    proof {
        assert(store@.actions.take(0) =~= Seq::empty());
        reveal(Seq::filter);
        assert(views(out@) =~= actions_of(store@.actions.take(0), switch_id@, is_warning));
    }
    while i < store.actions.len()
        invariant
            store@.wf(),
            i <= store.actions@.len(),
            views(out@) == actions_of(store@.actions.take(i as int), switch_id@, is_warning),
            forall|a: int, b: int|
                0 <= a < b < out@.len() ==> out@[a].action_order <= out@[b].action_order,
            forall|a: int, k: int|
                0 <= a < out@.len() && i <= k < store.actions@.len() ==> out@[a].action_order
                    <= store.actions@[k].action_order,
        decreases store.actions.len() - i,
    {
        proof {
            let row = store@.actions[i as int];
            assert(store@.actions.take(i + 1) =~= store@.actions.take(i as int).push(row));
            lemma_actions_of_push(store@.actions.take(i as int), row, switch_id@, is_warning);
            assert forall|k: int| i < k < store.actions@.len() implies store.actions@[i as int]
                .action_order <= store.actions@[k].action_order by {
                let keys = store@.action_keys();
                assert(in_order(keys[i as int], keys[k], false));
            }
        }
        if store.actions[i].is_warning == is_warning && str_eq(
            store.actions[i].switch_id.as_str(),
            switch_id,
        ) {
            let row = store.actions[i].clone();
            proof {
                assert(views(out@.push(row)) =~= views(out@).push(row@));
            }
            out.push(row);
        }
        i = i + 1;
    }
    proof {
        assert(store@.actions.take(store@.actions.len() as int) =~= store@.actions);
    }
    out
}

/// Opens the audit record of one action invocation, in state `Running`,
/// under the next execution identifier, which is returned. A record for a
/// switch that the store does not hold is refused, as is one when the
/// identifiers are used up.
pub fn create_action_execution(
    store: &mut Store,
    switch_id: &str,
    action_id: i64,
    execution_type: ExecutionType,
    timestamp: i64,
) -> (r: Result<i64, StoreError>)
    ensures
        final(store)@.wf(),
        match r {
            Ok(id) => old(store)@.row_refusal(switch_id@, old(store)@.next_execution_id) is None
                && id == old(store)@.next_execution_id
                && final(store)@ == old(store)@.with_start(
                switch_id@,
                action_id as int,
                execution_type,
                timestamp as int,
            ),
            Err(e) => old(store)@.row_refusal(switch_id@, old(store)@.next_execution_id)
                == Some(e) && final(store)@ == old(store)@,
        },
{
    proof {
        use_type_invariant(&*store);
    }
    if !holds_switch(store, switch_id) {
        return Err(StoreError::UnknownSwitch);
    }
    if store.next_execution_id == i64::MAX {
        return Err(StoreError::Exhausted);
    }
    let id = store.next_execution_id;
    let row = ActionExecution {
        id,
        switch_id: switch_id.to_owned(),
        action_id,
        execution_type,
        started_at: timestamp,
        completed_at: None,
        status: ExecutionStatus::Running,
        exit_code: None,
        stdout: None,
        stderr: None,
        error_message: None,
    };
    let at = find_slot(&store.executions, timestamp, true);
    let mut rows: Vec<ActionExecution> = Vec::new();
    core::mem::swap(&mut rows, &mut store.executions);
    rows.insert(at, row);
    proof {
        let before = old(store)@;
        let keys = before.execution_keys();
        assert(keys_of(old(store).executions@) =~= keys);
        lemma_slot_splits(keys, timestamp as int, true);
        let after = views(rows@);
        assert(after =~= before.executions.insert(at as int, row@));
        assert(after.map_values(|e: ActionExecutionView| e.started_at) =~= keys.insert(
            at as int,
            timestamp as int,
        ));
        let ids = before.executions.map_values(|e: ActionExecutionView| e.id);
        lemma_fresh_insert(ids, before.next_execution_id, at as int);
        assert(after.map_values(|e: ActionExecutionView| e.id) =~= ids.insert(
            at as int,
            before.next_execution_id,
        ));
        assert forall|i: int| 0 <= i < after.len() implies audit_consistent(
            #[trigger] after[i],
        ) && before.has_switch(after[i].switch_id) by {
            if i < at {
                assert(after[i] == before.executions[i]);
            } else if i > at {
                assert(after[i] == before.executions[i - 1]);
            }
        }
    }
    store.next_execution_id = store.next_execution_id + 1;
    store.executions = rows;
    Ok(id)
}

/// Closes the audit record `execution_id` with the result of its
/// action; the state follows from the result. Without such a record
/// nothing changes.
pub fn complete_action_execution(
    store: &mut Store,
    execution_id: i64,
    completed_at: i64,
    exit_code: Option<i64>,
    stdout: Option<String>,
    stderr: Option<String>,
    error_message: Option<String>,
)
    ensures
        final(store)@.wf(),
        final(store)@ == (StoreView {
            executions: old(store)@.executions.map_values(
                |e: ActionExecutionView|
                    if e.id == execution_id {
                        closed_record(
                            e,
                            completed_at as int,
                            opt_int(exit_code),
                            opt_text(stdout),
                            opt_text(stderr),
                            opt_text(error_message),
                        )
                    } else {
                        e
                    },
            ),
            ..old(store)@
        }),
{
    proof {
        use_type_invariant(&*store);
    }
    let status = derive_status(exit_code, &error_message);
    let ghost close = |e: ActionExecutionView|
        if e.id == execution_id {
            closed_record(
                e,
                completed_at as int,
                opt_int(exit_code),
                opt_text(stdout),
                opt_text(stderr),
                opt_text(error_message),
            )
        } else {
            e
        };
    let mut out: Vec<ActionExecution> = Vec::new();
    let mut i: usize = 0;
    while i < store.executions.len()
        invariant
            i <= store.executions@.len(),
            out@.len() == i,
            status == derived_status(opt_int(exit_code), opt_text(error_message)),
            close == (|e: ActionExecutionView|
                if e.id == execution_id {
                    closed_record(
                        e,
                        completed_at as int,
                        opt_int(exit_code),
                        opt_text(stdout),
                        opt_text(stderr),
                        opt_text(error_message),
                    )
                } else {
                    e
                }),
            forall|k: int| 0 <= k < i ==> (#[trigger] out@[k])@ == close(store.executions@[k]@),
        decreases store.executions.len() - i,
    {
        let row = &store.executions[i];
        if row.id == execution_id {
            out.push(
                ActionExecution {
                    id: row.id,
                    switch_id: row.switch_id.clone(),
                    action_id: row.action_id,
                    execution_type: row.execution_type,
                    started_at: row.started_at,
                    completed_at: Some(completed_at),
                    status,
                    exit_code,
                    stdout: clone_opt_text(&stdout),
                    stderr: clone_opt_text(&stderr),
                    error_message: clone_opt_text(&error_message),
                },
            );
        } else {
            out.push(row.clone());
        }
        i = i + 1;
    }
    proof {
        let before = old(store)@;
        let after = views(out@);
        assert(after =~= before.executions.map_values(close));
        assert(after.map_values(|e: ActionExecutionView| e.started_at)
            =~= before.execution_keys());
        assert(after.map_values(|e: ActionExecutionView| e.id) =~= before.executions.map_values(
            |e: ActionExecutionView| e.id,
        ));
        assert forall|k: int| 0 <= k < after.len() implies audit_consistent(
            #[trigger] after[k],
        ) by {
            assert(audit_consistent(before.executions[k]));
        }
    }
    store.executions = out;
}

/// Closes every audit record that is still running as failed, with the
/// crash message and `timestamp` as its end, and says how many there were.
/// Afterwards no record is running.
pub fn mark_orphaned_executions_failed(store: &mut Store, timestamp: i64) -> (count: u64)
    ensures
        final(store)@.wf(),
        final(store)@ == old(store)@.reaped(timestamp as int),
        count == running_count(old(store)@.executions),
        running_count(final(store)@.executions) == 0,
        forall|i: int|
            0 <= i < final(store)@.executions.len() ==> final(store)@.executions[i].status
                != ExecutionStatus::Running,
{
    proof {
        use_type_invariant(&*store);
    }
    let mut out: Vec<ActionExecution> = Vec::new();
    let mut count: usize = 0;
    let mut i: usize = 0;
    proof {
        assert(store@.executions.take(0) =~= Seq::empty());
        reveal(Seq::filter);
    }
    while i < store.executions.len()
        invariant
            i <= store.executions@.len(),
            out@.len() == i,
            count <= i,
            count == running_count(store@.executions.take(i as int)),
            forall|k: int|
                0 <= k < i ==> (#[trigger] out@[k])@ == reaped_record(
                    store.executions@[k]@,
                    timestamp as int,
                ),
        decreases store.executions.len() - i,
    {
        let row = &store.executions[i];
        proof {
            let v = store@.executions[i as int];
            assert(store@.executions.take(i + 1) =~= store@.executions.take(i as int).push(v));
            store@.executions.take(i as int).lemma_filter_push(
                v,
                |e: ActionExecutionView| e.status == ExecutionStatus::Running,
            );
        }
        if row.status == ExecutionStatus::Running {
            out.push(
                ActionExecution {
                    id: row.id,
                    switch_id: row.switch_id.clone(),
                    action_id: row.action_id,
                    execution_type: row.execution_type,
                    started_at: row.started_at,
                    completed_at: Some(timestamp),
                    status: ExecutionStatus::Failed,
                    exit_code: row.exit_code,
                    stdout: clone_opt_text(&row.stdout),
                    stderr: clone_opt_text(&row.stderr),
                    error_message: Some("Process crashed during execution".to_owned()),
                },
            );
            count = count + 1;
        } else {
            out.push(row.clone());
        }
        i = i + 1;
    }
    proof {
        let before = old(store)@;
        let after = views(out@);
        assert(before.executions.take(before.executions.len() as int) =~= before.executions);
        assert(after =~= before.executions.map_values(
            |e: ActionExecutionView| reaped_record(e, timestamp as int),
        ));
        assert(after.map_values(|e: ActionExecutionView| e.started_at)
            =~= before.execution_keys());
        assert(after.map_values(|e: ActionExecutionView| e.id) =~= before.executions.map_values(
            |e: ActionExecutionView| e.id,
        ));
        assert forall|k: int| 0 <= k < after.len() implies audit_consistent(
            #[trigger] after[k],
        ) && after[k].status != ExecutionStatus::Running by {
            assert(audit_consistent(before.executions[k]));
        }
        lemma_none_running(after);
    }
    store.executions = out;
    count as u64
}

/// The latest audit records of the switch `switch_id`, the latest start
/// first, at most a hundred of them.
pub fn get_execution_history(store: &Store, switch_id: &str) -> (r: Vec<ActionExecution>)
    ensures
        store@.wf(),
        views(r@) == history_of(store@.executions, switch_id@),
        forall|i: int, j: int| 0 <= i < j < r@.len() ==> r@[i].started_at >= r@[j].started_at,
{
    proof {
        use_type_invariant(store);
    }
    let mut out: Vec<ActionExecution> = Vec::new();
    let mut i: usize = 0;
    proof {
        assert(store@.executions.take(0) =~= Seq::empty());
        reveal(Seq::filter);
        assert(views(out@) =~= executions_of(store@.executions.take(0), switch_id@));
    }
    while i < store.executions.len() && out.len() < 100
        invariant
            store@.wf(),
            i <= store.executions@.len(),
            out@.len() <= 100,
            views(out@) == executions_of(store@.executions.take(i as int), switch_id@),
            forall|a: int, b: int|
                0 <= a < b < out@.len() ==> out@[a].started_at >= out@[b].started_at,
            forall|a: int, k: int|
                0 <= a < out@.len() && i <= k < store.executions@.len() ==> out@[a].started_at
                    >= store.executions@[k].started_at,
        decreases store.executions.len() - i,
    {
        proof {
            let row = store@.executions[i as int];
            assert(store@.executions.take(i + 1) =~= store@.executions.take(i as int).push(row));
            lemma_executions_of_push(store@.executions.take(i as int), row, switch_id@);
            assert forall|k: int|
                i < k < store.executions@.len() implies store.executions@[i as int].started_at
                >= store.executions@[k].started_at by {
                let keys = store@.execution_keys();
                assert(in_order(keys[i as int], keys[k], true));
            }
        }
        if str_eq(store.executions[i].switch_id.as_str(), switch_id) {
            let row = store.executions[i].clone();
            proof {
                assert(views(out@.push(row)) =~= views(out@).push(row@));
            }
            out.push(row);
        }
        i = i + 1;
    }
    proof {
        let all = store@.executions;
        let head = all.take(i as int);
        let tail = all.skip(i as int);
        assert(all =~= head + tail);
        Seq::filter_distributes_over_add(
            head,
            tail,
            |e: ActionExecutionView| e.switch_id == switch_id@,
        );
        let found = executions_of(head, switch_id@);
        assert(executions_of(all, switch_id@) == found + executions_of(tail, switch_id@));
        if i as int == all.len() {
            assert(tail =~= Seq::empty());
            reveal(Seq::filter);
            assert(executions_of(tail, switch_id@) =~= Seq::empty());
            assert(executions_of(all, switch_id@) =~= found);
            assert(history_of(all, switch_id@) =~= found);
        } else {
            assert(found.len() == 100);
            assert(history_of(all, switch_id@) =~= found);
        }
    }
    out
}

/// Every audit record, the latest start first.
pub fn list_action_executions(store: &Store) -> (r: Vec<ActionExecution>)
    ensures
        store@.wf(),
        views(r@) == store@.executions,
{
    proof {
        use_type_invariant(store);
    }
    let mut out: Vec<ActionExecution> = Vec::new();
    let mut i: usize = 0;
    while i < store.executions.len()
        invariant
            i <= store.executions@.len(),
            out@.len() == i,
            forall|k: int| 0 <= k < i ==> (#[trigger] out@[k])@ == store.executions@[k]@,
        decreases store.executions.len() - i,
    {
        out.push(store.executions[i].clone());
        i = i + 1;
    }
    proof {
        assert(views(out@) =~= store@.executions);
    }
    out
}

/// Removes the switch `id` together with its stages, actions, markers
/// and audit records, and says whether there was such a switch. Without
/// such a switch nothing changes: no row belongs to a switch that the
/// store does not hold.
pub fn delete_switch(store: &mut Store, id: &str) -> (found: bool)
    ensures
        final(store)@.wf(),
        found == old(store)@.has_switch(id@),
        found ==> final(store)@ == old(store)@.without_switch(id@),
        !found ==> final(store)@ == old(store)@,
        !final(store)@.has_switch(id@),
{
    proof {
        use_type_invariant(&*store);
    }
    let found = get_switch_by_id(store, id).is_some();
    proof {
        if found {
            let hit = choose|s: SwitchView| s.id == id@ && store@.switches.contains(s);
            let k = choose|k: int| 0 <= k < store@.switches.len() && store@.switches[k] == hit;
            assert(store@.switches[k].id == id@);
        }
    }
    if !found {
        return false;
    }
    let ghost before = store@;
    let switches = rows_of_others(&store.switches, id);
    let stages = rows_of_others(&store.stages, id);
    let actions = rows_of_others(&store.actions, id);
    let markers = rows_of_others(&store.markers, id);
    let executions = rows_of_others(&store.executions, id);
    proof {
        let other_switch = |v: SwitchView| Switch::owner(v) != id@;
        let other_stage = |v: WarningStageView| WarningStage::owner(v) != id@;
        let other_action = |v: ActionView| Action::owner(v) != id@;
        let other_marker = |v: WarningExecutionView| WarningExecution::owner(v) != id@;
        let other_execution = |v: ActionExecutionView| ActionExecution::owner(v) != id@;
        lemma_filter_keeps_sorted(
            before.switches,
            |s: SwitchView| s.created_at,
            other_switch,
            true,
        );
        lemma_filter_keeps_distinct(before.switches, other_switch, id@);
        lemma_filter_keeps_sorted(
            before.stages,
            |s: WarningStageView| s.seconds_before_deadline,
            other_stage,
            false,
        );
        lemma_filter_keeps_fresh(
            before.stages,
            |s: WarningStageView| s.id,
            other_stage,
            before.next_stage_id,
        );
        lemma_filter_keeps_sorted(
            before.actions,
            |a: ActionView| a.action_order,
            other_action,
            false,
        );
        lemma_filter_keeps_fresh(
            before.actions,
            |a: ActionView| a.id,
            other_action,
            before.next_action_id,
        );
        lemma_filter_keeps_fresh(
            before.markers,
            |m: WarningExecutionView| m.id,
            other_marker,
            before.next_marker_id,
        );
        lemma_filter_keeps_sorted(
            before.executions,
            |e: ActionExecutionView| e.started_at,
            other_execution,
            true,
        );
        lemma_filter_keeps_fresh(
            before.executions,
            |e: ActionExecutionView| e.id,
            other_execution,
            before.next_execution_id,
        );
        let kept = before.executions.filter(other_execution);
        let origin = lemma_filter_embeds(before.executions, other_execution);
        assert forall|k: int| 0 <= k < kept.len() implies audit_consistent(
            #[trigger] kept[k],
        ) && before.has_switch(kept[k].switch_id) && kept[k].switch_id != id@ by {
            assert(audit_consistent(before.executions[origin[k]]));
            assert(before.has_switch(before.executions[origin[k]].switch_id));
        }
        let kept_stages = before.stages.filter(other_stage);
        let stage_origin = lemma_filter_embeds(before.stages, other_stage);
        assert forall|k: int| 0 <= k < kept_stages.len() implies before.has_switch(
            (#[trigger] kept_stages[k]).switch_id,
        ) && kept_stages[k].switch_id != id@ by {
            assert(before.has_switch(before.stages[stage_origin[k]].switch_id));
        }
        let kept_actions = before.actions.filter(other_action);
        let action_origin = lemma_filter_embeds(before.actions, other_action);
        assert forall|k: int| 0 <= k < kept_actions.len() implies before.has_switch(
            (#[trigger] kept_actions[k]).switch_id,
        ) && kept_actions[k].switch_id != id@ by {
            assert(before.has_switch(before.actions[action_origin[k]].switch_id));
        }
        let kept_markers = before.markers.filter(other_marker);
        let marker_origin = lemma_filter_embeds(before.markers, other_marker);
        assert forall|k: int| 0 <= k < kept_markers.len() implies before.has_switch(
            (#[trigger] kept_markers[k]).switch_id,
        ) && kept_markers[k].switch_id != id@ by {
            assert(before.has_switch(before.markers[marker_origin[k]].switch_id));
        }
        let after = before.without_switch(id@);
        assert forall|x: Seq<char>| #[trigger] before.has_switch(x) && x != id@ implies after
            .has_switch(x) by {
            let k = choose|k: int|
                0 <= k < before.switches.len() && (#[trigger] before.switches[k]).id == x;
            before.switches.lemma_filter_contains(other_switch, k);
            let j = choose|j: int|
                0 <= j < after.switches.len() && after.switches[j] == before.switches[k];
            assert(after.switches[j].id == x);
        }
        let first = StoreView { stages: kept_stages, ..before };
        let second = StoreView { actions: kept_actions, ..first };
        let third = StoreView { markers: kept_markers, ..second };
        let fourth = StoreView { executions: kept, ..third };
        assert(first.owned());
        assert(second.owned());
        assert(third.owned());
        assert(fourth.owned());
        assert(after.owned());
    }
    store.stages = stages;
    store.actions = actions;
    store.markers = markers;
    store.executions = executions;
    store.switches = switches;
    found
}

} // verus!
