//! Creating switches: what a request must satisfy, and the rows that a
//! valid request becomes.

use crate::auth::{generate_api_token, is_api_token};
use crate::db::{
    self, actions_of, history_of, stages_of, views, Store, StoreError, StoreView,
};
use crate::models::{
    clone_opt_text, opt_text, Action, ActionExecution, ActionView, CreateActionRequest,
    CreateSwitchRequest, Switch, SwitchStatus, SwitchView, WarningStage, WarningStageView,
};
use crate::text::chars_of;
use vstd::prelude::*;
use vstd::string::*;

verus! {

/// What is wrong with a creation request.
#[derive(Clone, Copy, Debug, PartialEq, Eq, Structural)]
pub enum ValidationError {
    /// `trigger_count_max` is negative.
    NegativeTriggerCount,
    /// `trigger_interval_seconds` is below one second.
    TriggerIntervalTooShort,
    /// `timeout_seconds` is below one second.
    TimeoutTooShort,
    /// A warning stage does not lie strictly between 0 and the timeout.
    StageOutOfRange,
}

impl ValidationError {
    /// The message sent back to the client.
    pub fn message(&self) -> (r: &'static str)
        ensures
            r@ == (match self {
                ValidationError::NegativeTriggerCount => "trigger_count_max must be >= 0"@,
                ValidationError::TriggerIntervalTooShort => {
                    "trigger_interval_seconds must be >= 1"@
                },
                ValidationError::TimeoutTooShort => "timeout_seconds must be >= 1"@,
                ValidationError::StageOutOfRange => {
                    "warning_stages must be > 0 and < timeout_seconds"@
                },
            }),
    {
        match self {
            ValidationError::NegativeTriggerCount => "trigger_count_max must be >= 0",
            ValidationError::TriggerIntervalTooShort => "trigger_interval_seconds must be >= 1",
            ValidationError::TimeoutTooShort => "timeout_seconds must be >= 1",
            ValidationError::StageOutOfRange => "warning_stages must be > 0 and < timeout_seconds",
        }
    }
}

/// Whether a stage of `lead` seconds lies inside a timeout: strictly after
/// the check-in and strictly before the deadline.
pub open spec fn stage_in_range(lead: int, timeout_seconds: int) -> bool {
    0 < lead < timeout_seconds
}

/// Whether every one of `leads` lies inside the timeout.
pub open spec fn stages_in_range(leads: Seq<i64>, timeout_seconds: int) -> bool {
    forall|i: int|
        0 <= i < leads.len() ==> stage_in_range(#[trigger] leads[i] as int, timeout_seconds)
}

/// What validation answers for a request. The cap on fires must not be
/// negative; the interval between fires and the timeout must each be at
/// least a second; every warning stage must lie inside the timeout. The
/// settings are looked at in this order.
pub open spec fn validation_of(request: CreateSwitchRequest) -> Result<(), ValidationError> {
    if request.trigger_count_max < 0 {
        Err(ValidationError::NegativeTriggerCount)
    } else if request.trigger_interval_seconds < 1 {
        Err(ValidationError::TriggerIntervalTooShort)
    } else if request.timeout_seconds < 1 {
        Err(ValidationError::TimeoutTooShort)
    } else if !stages_in_range(request.warning_stages@, request.timeout_seconds as int) {
        Err(ValidationError::StageOutOfRange)
    } else {
        Ok(())
    }
}

/// Validates a creation request.
pub fn validate(request: &CreateSwitchRequest) -> (r: Result<(), ValidationError>)
    ensures
        r == validation_of(*request),
        r is Ok <==> request.trigger_count_max >= 0 && request.trigger_interval_seconds >= 1
            && request.timeout_seconds >= 1 && stages_in_range(
            request.warning_stages@,
            request.timeout_seconds as int,
        ),
{
    if request.trigger_count_max < 0 {
        return Err(ValidationError::NegativeTriggerCount);
    }
    if request.trigger_interval_seconds < 1 {
        return Err(ValidationError::TriggerIntervalTooShort);
    }
    if request.timeout_seconds < 1 {
        return Err(ValidationError::TimeoutTooShort);
    }
    let mut i: usize = 0;
    while i < request.warning_stages.len()
        invariant
            i <= request.warning_stages@.len(),
            request.trigger_count_max >= 0,
            request.trigger_interval_seconds >= 1,
            request.timeout_seconds >= 1,
            forall|k: int|
                0 <= k < i ==> stage_in_range(
                    #[trigger] request.warning_stages@[k] as int,
                    request.timeout_seconds as int,
                ),
        decreases request.warning_stages.len() - i,
    {
        let lead = request.warning_stages[i];
        if lead <= 0 || lead >= request.timeout_seconds {
            proof {
                assert(!stage_in_range(
                    request.warning_stages@[i as int] as int,
                    request.timeout_seconds as int,
                ));
            }
            return Err(ValidationError::StageOutOfRange);
        }
        i = i + 1;
    }
    Ok(())
}

/// The switch that a request creates at `now` under the identifier `id`
/// with the token `api_token`: active, checked in at its creation, never
/// triggered.
pub open spec fn requested_switch(
    request: CreateSwitchRequest,
    id: Seq<char>,
    api_token: Seq<char>,
    now: int,
) -> SwitchView {
    SwitchView {
        id,
        name: request.name@,
        description: opt_text(request.description),
        api_token,
        timeout_seconds: request.timeout_seconds as int,
        last_checkin: now,
        last_trigger: None,
        status: SwitchStatus::Active,
        created_at: now,
        trigger_count_max: request.trigger_count_max as int,
        trigger_interval_seconds: request.trigger_interval_seconds as int,
        trigger_count_executed: 0,
    }
}

/// A switch created from a valid request has valid trigger settings and a
/// timeout of at least a second, has not fired, is active, and is checked
/// in at the instant of its creation; every stage created with it lies
/// inside its timeout.
pub proof fn lemma_requested_switch_is_valid(
    request: CreateSwitchRequest,
    id: Seq<char>,
    api_token: Seq<char>,
    now: int,
)
    requires
        validation_of(request) is Ok,
    ensures
        requested_switch(request, id, api_token, now).valid_trigger_settings(),
        requested_switch(request, id, api_token, now).within_cap(),
        requested_switch(request, id, api_token, now).status == SwitchStatus::Active,
        requested_switch(request, id, api_token, now).last_checkin >= requested_switch(
            request,
            id,
            api_token,
            now,
        ).created_at,
        requested_switch(request, id, api_token, now).timeout_seconds >= 1,
        forall|i: int|
            0 <= i < request.warning_stages@.len() ==> stage_in_range(
                (#[trigger] requested_stages(request.warning_stages@, id)[i])
                    .seconds_before_deadline,
                requested_switch(request, id, api_token, now).timeout_seconds,
            ),
{
    assert forall|i: int| 0 <= i < request.warning_stages@.len() implies stage_in_range(
        (#[trigger] requested_stages(request.warning_stages@, id)[i]).seconds_before_deadline,
        requested_switch(request, id, api_token, now).timeout_seconds,
    ) by {
        assert(stage_in_range(request.warning_stages@[i] as int, request.timeout_seconds as int));
    }
}

/// Builds the switch that `request` creates.
pub fn new_switch(request: &CreateSwitchRequest, id: &str, api_token: &str, now: i64) -> (r: Switch)
    ensures
        r@ == requested_switch(*request, id@, api_token@, now as int),
{
    Switch {
        id: id.to_owned(),
        name: request.name.clone(),
        description: clone_opt_text(&request.description),
        api_token: api_token.to_owned(),
        timeout_seconds: request.timeout_seconds,
        last_checkin: now,
        last_trigger: None,
        status: SwitchStatus::Active,
        created_at: now,
        trigger_count_max: request.trigger_count_max,
        trigger_interval_seconds: request.trigger_interval_seconds,
        trigger_count_executed: 0,
    }
}

/// The action that the request at place `order` of its list becomes: the
/// place is its order.
pub open spec fn requested_action(
    request: CreateActionRequest,
    switch_id: Seq<char>,
    order: int,
    is_warning: bool,
) -> ActionView {
    ActionView {
        id: 0,
        switch_id,
        action_order: order,
        action_type: request.action_type@,
        is_warning,
        config: request.config@,
    }
}

/// Builds the action that the request at place `order` becomes.
pub fn new_action(request: &CreateActionRequest, switch_id: &str, order: i64, is_warning: bool)
    -> (r: Action)
    ensures
        r@ == requested_action(*request, switch_id@, order as int, is_warning),
{
    Action {
        id: 0,
        switch_id: switch_id.to_owned(),
        action_order: order,
        action_type: request.action_type.clone(),
        is_warning,
        config: request.config.clone(),
    }
}

/// The order of the action at place `place` of its list: the place itself.
pub open spec fn order_at(place: int) -> int {
    if place <= i64::MAX {
        place
    } else {
        i64::MAX as int
    }
}

/// The stage rows that the leads of a request become, in order.
pub open spec fn requested_stages(leads: Seq<i64>, switch_id: Seq<char>) -> Seq<WarningStageView> {
    Seq::new(
        leads.len(),
        |i: int| WarningStageView { id: 0, switch_id, seconds_before_deadline: leads[i] as int },
    )
}

/// The action rows that the requests of one list become, in order.
pub open spec fn requested_actions(
    requests: Seq<CreateActionRequest>,
    switch_id: Seq<char>,
    is_warning: bool,
) -> Seq<ActionView> {
    Seq::new(
        requests.len(),
        |i: int| requested_action(requests[i], switch_id, order_at(i), is_warning),
    )
}

/// Builds the stage rows of a request.
pub fn stage_rows(leads: &Vec<i64>, switch_id: &str) -> (r: Vec<WarningStage>)
    ensures
        views(r@) == requested_stages(leads@, switch_id@),
{
    let mut out: Vec<WarningStage> = Vec::new();
    let mut i: usize = 0;
    while i < leads.len()
        invariant
            i <= leads@.len(),
            out@.len() == i,
            forall|k: int|
                0 <= k < i ==> (#[trigger] out@[k])@ == (WarningStageView {
                    id: 0,
                    switch_id: switch_id@,
                    seconds_before_deadline: leads@[k] as int,
                }),
        decreases leads.len() - i,
    {
        out.push(
            WarningStage {
                id: 0,
                switch_id: switch_id.to_owned(),
                seconds_before_deadline: leads[i],
            },
        );
        i = i + 1;
    }
    proof {
        assert(views(out@) =~= requested_stages(leads@, switch_id@));
    }
    out
}

/// Builds the action rows of one list of a request.
pub fn action_rows(requests: &Vec<CreateActionRequest>, switch_id: &str, is_warning: bool) -> (r:
    Vec<Action>)
    ensures
        views(r@) == requested_actions(requests@, switch_id@, is_warning),
{
    let mut out: Vec<Action> = Vec::new();
    let mut i: usize = 0;
    while i < requests.len()
        invariant
            i <= requests@.len(),
            out@.len() == i,
            forall|k: int|
                0 <= k < i ==> (#[trigger] out@[k])@ == requested_action(
                    requests@[k],
                    switch_id@,
                    order_at(k),
                    is_warning,
                ),
        decreases requests.len() - i,
    {
        let order: i64 = if i as u128 <= i64::MAX as u128 {
            i as i64
        } else {
            i64::MAX
        };
        out.push(new_action(&requests[i], switch_id, order, is_warning));
        i = i + 1;
    }
    proof {
        assert(views(out@) =~= requested_actions(requests@, switch_id@, is_warning));
    }
    out
}

/// Every row that a valid request becomes.
#[derive(Debug)]
pub struct Prepared {
    pub switch: Switch,
    pub warning_stages: Vec<WarningStage>,
    pub warning_actions: Vec<Action>,
    pub final_actions: Vec<Action>,
}

/// Whether `prepared` holds the rows of `request` under the identifier
/// `id`, with the token `api_token`, created at `now`.
pub open spec fn prepared_from(
    prepared: Prepared,
    request: CreateSwitchRequest,
    id: Seq<char>,
    api_token: Seq<char>,
    now: int,
) -> bool {
    &&& prepared.switch@ == requested_switch(request, id, api_token, now)
    &&& views(prepared.warning_stages@) == requested_stages(request.warning_stages@, id)
    &&& views(prepared.warning_actions@) == requested_actions(request.warning_actions@, id, true)
    &&& views(prepared.final_actions@) == requested_actions(request.final_actions@, id, false)
}

/// Validates `request` and builds its rows under the given identifier and
/// token, created at `now`.
pub fn prepare_with(request: &CreateSwitchRequest, id: &str, api_token: &str, now: i64) -> (r:
    Result<Prepared, ValidationError>)
    ensures
        match r {
            Ok(prepared) => validation_of(*request) is Ok && prepared_from(
                prepared,
                *request,
                id@,
                api_token@,
                now as int,
            ),
            Err(why) => validation_of(*request) == Err::<(), ValidationError>(why),
        },
{
    match validate(request) {
        Err(why) => Err(why),
        Ok(_) => Ok(
            Prepared {
                switch: new_switch(request, id, api_token, now),
                warning_stages: stage_rows(&request.warning_stages, id),
                warning_actions: action_rows(&request.warning_actions, id, true),
                final_actions: action_rows(&request.final_actions, id, false),
            },
        ),
    }
}

/// Validates `request` and builds its rows under a fresh random identifier
/// and a fresh random token of 64 hexadecimal digits, created at the
/// instant that the clock shows.
pub fn prepare(request: &CreateSwitchRequest) -> (r: Result<Prepared, ValidationError>)
    ensures
        match r {
            Ok(prepared) => {
                &&& validation_of(*request) is Ok
                &&& prepared.switch@.id.len() == 36
                &&& is_api_token(prepared.switch@.api_token)
                &&& prepared.switch@.created_at >= 0
                &&& prepared_from(
                    prepared,
                    *request,
                    prepared.switch@.id,
                    prepared.switch@.api_token,
                    prepared.switch@.created_at,
                )
            },
            Err(why) => validation_of(*request) == Err::<(), ValidationError>(why),
        },
{
    match validate(request) {
        Err(why) => Err(why),
        Ok(_) => {
            let id = random_switch_id();
            let token = generate_api_token();
            let now = crate::clock::now();
            prepare_with(request, id.as_str(), token.as_str(), now)
        },
    }
}

/// The store with a stage added for each of `leads`, in order.
pub open spec fn with_stages(v: StoreView, switch_id: Seq<char>, leads: Seq<i64>) -> StoreView
    decreases leads.len(),
{
    if leads.len() == 0 {
        v
    } else {
        with_stages(v, switch_id, leads.drop_last()).with_stage(switch_id, leads.last() as int)
    }
}

/// The store with an action added for each of `requests`, in order, each
/// with its place as its order.
pub open spec fn with_actions(
    v: StoreView,
    switch_id: Seq<char>,
    requests: Seq<CreateActionRequest>,
    is_warning: bool,
) -> StoreView
    decreases requests.len(),
{
    if requests.len() == 0 {
        v
    } else {
        with_actions(v, switch_id, requests.drop_last(), is_warning).with_action(
            requested_action(requests.last(), switch_id, requests.len() - 1, is_warning),
        )
    }
}

/// The store after `request` has been carried out: the switch, then its
/// stages, then its warning actions, then its final actions.
pub open spec fn with_request(
    v: StoreView,
    request: CreateSwitchRequest,
    id: Seq<char>,
    api_token: Seq<char>,
    now: int,
) -> StoreView {
    with_actions(
        with_actions(
            with_stages(
                v.with_switch(requested_switch(request, id, api_token, now)),
                id,
                request.warning_stages@,
            ),
            id,
            request.warning_actions@,
            true,
        ),
        id,
        request.final_actions@,
        false,
    )
}

/// Why a switch was not created.
#[derive(Clone, Copy, Debug, PartialEq, Eq, Structural)]
pub enum CreateError {
    /// The request is not valid.
    Invalid(ValidationError),
    /// The store refused the switch.
    Refused(StoreError),
}

/// What the client learns of the switch it created.
#[derive(Debug)]
pub struct Created {
    pub switch_id: String,
    pub api_token: String,
}

proof fn lemma_with_stages_counts(v: StoreView, switch_id: Seq<char>, leads: Seq<i64>)
    ensures
        with_stages(v, switch_id, leads).next_stage_id == v.next_stage_id + leads.len(),
        with_stages(v, switch_id, leads).next_action_id == v.next_action_id,
    decreases leads.len(),
{
    if leads.len() > 0 {
        lemma_with_stages_counts(v, switch_id, leads.drop_last());
    }
}

proof fn lemma_with_actions_counts(
    v: StoreView,
    switch_id: Seq<char>,
    requests: Seq<CreateActionRequest>,
    is_warning: bool,
)
    ensures
        with_actions(v, switch_id, requests, is_warning).next_action_id == v.next_action_id
            + requests.len(),
    decreases requests.len(),
{
    if requests.len() > 0 {
        lemma_with_actions_counts(v, switch_id, requests.drop_last(), is_warning);
    }
}

/// Adds an action to the store for each of `requests`.
fn add_actions(
    store: &mut Store,
    switch_id: &str,
    requests: &Vec<CreateActionRequest>,
    is_warning: bool,
)
    requires
        old(store)@.wf(),
        old(store)@.has_switch(switch_id@),
        old(store)@.next_action_id + requests@.len() <= i64::MAX,
    ensures
        final(store)@.wf(),
        final(store)@.has_switch(switch_id@),
        final(store)@ == with_actions(old(store)@, switch_id@, requests@, is_warning),
{
    let mut i: usize = 0;
    let ghost base = store@;
    proof {
        assert(requests@.take(0) =~= Seq::empty());
    }
    while i < requests.len()
        invariant
            store@.wf(),
            store@.has_switch(switch_id@),
            base.next_action_id >= 1,
            i <= requests@.len(),
            base.next_action_id + requests@.len() <= i64::MAX,
            store@ == with_actions(base, switch_id@, requests@.take(i as int), is_warning),
        decreases requests.len() - i,
    {
        proof {
            lemma_with_actions_counts(base, switch_id@, requests@.take(i as int), is_warning);
            assert(requests@.take(i + 1).drop_last() =~= requests@.take(i as int));
            assert(requests@.take(i + 1).last() == requests@[i as int]);
        }
        let action = new_action(&requests[i], switch_id, i as i64, is_warning);
        match db::create_action(store, &action) {
            Ok(_) => {},
            Err(_) => {
                assert(false);
            },
        }
        i = i + 1;
    }
    proof {
        assert(requests@.take(requests@.len() as int) =~= requests@);
    }
}

/// Whether the store has identifiers left for every stage and every action
/// of `request`.
pub open spec fn has_room(v: StoreView, request: CreateSwitchRequest) -> bool {
    &&& v.next_stage_id + request.warning_stages@.len() <= i64::MAX
    &&& v.next_action_id + request.warning_actions@.len() + request.final_actions@.len()
        <= i64::MAX
}

/// What creation answers before it writes anything, if it refuses: an
/// invalid request first, then an identifier that the store already holds,
/// then a store without room.
pub open spec fn refusal_of(v: StoreView, request: CreateSwitchRequest, id: Seq<char>) -> Option<
    CreateError,
> {
    match validation_of(request) {
        Err(why) => Some(CreateError::Invalid(why)),
        Ok(_) => if v.has_switch(id) {
            Some(CreateError::Refused(StoreError::DuplicateSwitch))
        } else if !has_room(v, request) {
            Some(CreateError::Refused(StoreError::Exhausted))
        } else {
            None
        },
    }
}

/// Whether every stage of the store lies inside the timeout of its switch,
/// and every switch has a timeout of at least a second.
pub open spec fn stages_within_timeouts(v: StoreView) -> bool {
    &&& forall|j: int|
        0 <= j < v.switches.len() ==> (#[trigger] v.switches[j]).timeout_seconds >= 1
    &&& forall|i: int, j: int|
        0 <= i < v.stages.len() && 0 <= j < v.switches.len() && (#[trigger] v.stages[i]).switch_id
            == (#[trigger] v.switches[j]).id ==> stage_in_range(
            v.stages[i].seconds_before_deadline,
            v.switches[j].timeout_seconds,
        )
}

/// Every stage after stages have been added was there before, or belongs
/// to `switch_id` with one of `leads`.
proof fn lemma_with_stages_rows(v: StoreView, switch_id: Seq<char>, leads: Seq<i64>, i: int)
    requires
        0 <= i < with_stages(v, switch_id, leads).stages.len(),
    ensures
        v.stages.contains(with_stages(v, switch_id, leads).stages[i]) || (with_stages(
            v,
            switch_id,
            leads,
        ).stages[i].switch_id == switch_id && exists|k: int|
            0 <= k < leads.len() && with_stages(
                v,
                switch_id,
                leads,
            ).stages[i].seconds_before_deadline == #[trigger] leads[k] as int),
    decreases leads.len(),
{
    if leads.len() == 0 {
        assert(v.stages[i] == with_stages(v, switch_id, leads).stages[i]);
    } else {
        let earlier = leads.drop_last();
        let mid = with_stages(v, switch_id, earlier);
        let after = with_stages(v, switch_id, leads);
        let at = db::slot(mid.stage_keys(), leads.last() as int, false);
        db::lemma_slot_bounds(mid.stage_keys(), leads.last() as int, false);
        if i == at {
            assert(after.stages[i].seconds_before_deadline == leads[leads.len() - 1] as int);
        } else {
            let from = if i < at {
                i
            } else {
                i - 1
            };
            assert(after.stages[i] == mid.stages[from]);
            lemma_with_stages_rows(v, switch_id, earlier, from);
            if !v.stages.contains(mid.stages[from]) {
                let k = choose|k: int|
                    0 <= k < earlier.len() && mid.stages[from].seconds_before_deadline
                        == #[trigger] earlier[k] as int;
                assert(leads[k] == earlier[k]);
            }
        }
    }
}

/// Adding actions leaves the switches and the stages as they are.
proof fn lemma_with_actions_frame(
    v: StoreView,
    switch_id: Seq<char>,
    requests: Seq<CreateActionRequest>,
    is_warning: bool,
)
    ensures
        with_actions(v, switch_id, requests, is_warning).switches == v.switches,
        with_actions(v, switch_id, requests, is_warning).stages == v.stages,
    decreases requests.len(),
{
    if requests.len() > 0 {
        lemma_with_actions_frame(v, switch_id, requests.drop_last(), is_warning);
    }
}

/// Creation keeps every stage inside the timeout of its switch, and every
/// timeout at a second or more: where that holds of a store and the
/// request is not refused, it holds of the store after the request has
/// been carried out.
pub proof fn theorem_creation_keeps_stages_in_range(
    v: StoreView,
    request: CreateSwitchRequest,
    id: Seq<char>,
    api_token: Seq<char>,
    now: int,
)
    requires
        v.wf(),
        stages_within_timeouts(v),
        refusal_of(v, request, id) is None,
    ensures
        stages_within_timeouts(with_request(v, request, id, api_token, now)),
{
    assert forall|i: int| 0 <= i < v.stages.len() implies (#[trigger] v.stages[i]).switch_id
        != id by {
        assert(v.has_switch(v.stages[i].switch_id));
    }
    let new = requested_switch(request, id, api_token, now);
    let based = v.with_switch(new);
    let staged = with_stages(based, id, request.warning_stages@);
    let warned = with_actions(staged, id, request.warning_actions@, true);
    let after = with_request(v, request, id, api_token, now);
    lemma_with_actions_frame(staged, id, request.warning_actions@, true);
    lemma_with_actions_frame(warned, id, request.final_actions@, false);
    let at = db::slot(v.switch_keys(), new.created_at, true);
    db::lemma_slot_bounds(v.switch_keys(), new.created_at, true);
    lemma_stages_grow(based, id, request.warning_stages@);
    assert(after.switches == based.switches);
    assert forall|j: int| 0 <= j < after.switches.len() implies (#[trigger] after.switches[j])
        .timeout_seconds >= 1 by {
        if j < at {
            assert(after.switches[j] == v.switches[j]);
        } else if j > at {
            assert(after.switches[j] == v.switches[j - 1]);
        }
    }
    assert forall|i: int, j: int|
        0 <= i < after.stages.len() && 0 <= j < after.switches.len() && (
        #[trigger] after.stages[i]).switch_id == (
        #[trigger] after.switches[j]).id implies stage_in_range(
        after.stages[i].seconds_before_deadline,
        after.switches[j].timeout_seconds,
    ) by {
        lemma_with_stages_rows(based, id, request.warning_stages@, i);
        let row = after.stages[i];
        let old_switch = if j < at {
            v.switches[j]
        } else {
            v.switches[j - 1]
        };
        if j != at {
            assert(after.switches[j] == old_switch);
        }
        if v.stages.contains(row) {
            let k = choose|k: int| 0 <= k < v.stages.len() && v.stages[k] == row;
            assert(v.stages[k].switch_id != id);
            if j != at {
                assert(stage_in_range(
                    v.stages[k].seconds_before_deadline,
                    old_switch.timeout_seconds,
                ));
            }
        } else {
            let k = choose|k: int|
                0 <= k < request.warning_stages@.len() && row.seconds_before_deadline
                    == #[trigger] request.warning_stages@[k] as int;
            assert(stage_in_range(
                request.warning_stages@[k] as int,
                request.timeout_seconds as int,
            ));
            if j != at {
                assert(v.has_switch(id));
            }
        }
    }
}

/// Adding stages adds one row for each lead and leaves the switches as
/// they are.
proof fn lemma_stages_grow(v: StoreView, switch_id: Seq<char>, leads: Seq<i64>)
    ensures
        with_stages(v, switch_id, leads).stages.len() == v.stages.len() + leads.len(),
        with_stages(v, switch_id, leads).switches == v.switches,
    decreases leads.len(),
{
    if leads.len() > 0 {
        let mid = with_stages(v, switch_id, leads.drop_last());
        lemma_stages_grow(v, switch_id, leads.drop_last());
        db::lemma_slot_bounds(mid.stage_keys(), leads.last() as int, false);
    }
}

/// Carries out a creation request at `now` under the given identifier and
/// token: all of it, or, where it is refused, none of it.
pub fn create_switch_with(
    store: &mut Store,
    request: &CreateSwitchRequest,
    id: &str,
    api_token: &str,
    now: i64,
) -> (r: Result<Created, CreateError>)
    ensures
        match r {
            Ok(created) => {
                &&& refusal_of(old(store)@, *request, id@) is None
                &&& created.switch_id@ == id@
                &&& created.api_token@ == api_token@
                &&& final(store)@ == with_request(
                    old(store)@,
                    *request,
                    id@,
                    api_token@,
                    now as int,
                )
            },
            Err(e) => final(store)@ == old(store)@ && refusal_of(old(store)@, *request, id@)
                == Some(e),
        },
{
    match validate(request) {
        Err(why) => {
            return Err(CreateError::Invalid(why));
        },
        Ok(_) => {},
    }
    if db::get_switch_by_id(store, id).is_some() {
        proof {
            let v = store@;
            let hit = choose|s: SwitchView| s.id == id@ && v.switches.contains(s);
            let k = choose|k: int| 0 <= k < v.switches.len() && v.switches[k] == hit;
            assert(v.switches[k].id == id@);
        }
        return Err(CreateError::Refused(StoreError::DuplicateSwitch));
    }
    let stage_room = db::stage_ids_left(store);
    let action_room = db::action_ids_left(store);
    let wanted_stages = request.warning_stages.len() as u128;
    let wanted_actions = request.warning_actions.len() as u128
        + request.final_actions.len() as u128;
    if wanted_stages > stage_room as u128 || wanted_actions > action_room as u128 {
        return Err(CreateError::Refused(StoreError::Exhausted));
    }
    let switch = new_switch(request, id, api_token, now);
    match db::create_switch(store, &switch) {
        Err(_) => {
            assert(false);
        },
        Ok(_) => {},
    }
    let ghost base = store@;
    let leads = &request.warning_stages;
    let mut i: usize = 0;
    proof {
        assert(leads@.take(0) =~= Seq::empty());
        let at = db::slot(old(store)@.switch_keys(), switch.created_at as int, true);
        db::lemma_slot_bounds(old(store)@.switch_keys(), switch.created_at as int, true);
        assert(base.switches[at].id == id@);
    }
    while i < leads.len()
        invariant
            store@.wf(),
            store@.has_switch(id@),
            i <= leads@.len(),
            base.next_stage_id + leads@.len() <= i64::MAX,
            store@ == with_stages(base, id@, leads@.take(i as int)),
        decreases leads.len() - i,
    {
        proof {
            lemma_with_stages_counts(base, id@, leads@.take(i as int));
            assert(leads@.take(i + 1).drop_last() =~= leads@.take(i as int));
            assert(leads@.take(i + 1).last() == leads@[i as int]);
        }
        let stage = WarningStage {
            id: 0,
            switch_id: id.to_owned(),
            seconds_before_deadline: leads[i],
        };
        match db::create_warning_stage(store, &stage) {
            Ok(_) => {},
            Err(_) => {
                assert(false);
            },
        }
        i = i + 1;
    }
    proof {
        assert(leads@.take(leads@.len() as int) =~= leads@);
        lemma_with_stages_counts(base, id@, leads@);
    }
    let ghost staged = store@;
    add_actions(store, id, &request.warning_actions, true);
    proof {
        lemma_with_actions_counts(staged, id@, request.warning_actions@, true);
    }
    add_actions(store, id, &request.final_actions, false);
    Ok(Created { switch_id: id.to_owned(), api_token: api_token.to_owned() })
}

/// `Uuid::new_v4` of `uuid`, written out: a random identifier in the
/// hyphenated form, 36 characters long. Nothing is claimed of the
/// characters.
#[verifier::external_body]
fn random_switch_id() -> (r: String)
    ensures
        r@.len() == 36,
{
    uuid::Uuid::new_v4().to_string()
}

/// Carries out a creation request under a fresh random identifier and a
/// fresh random token of 64 hexadecimal digits, both of which are handed
/// back, at the instant that the clock shows.
pub fn create_switch(store: &mut Store, request: &CreateSwitchRequest) -> (r: Result<
    Created,
    CreateError,
>)
    ensures
        match r {
            Ok(created) => exists|now: int|
                0 <= now <= i64::MAX && final(store)@ == #[trigger] with_request(
                    old(store)@,
                    *request,
                    created.switch_id@,
                    created.api_token@,
                    now,
                ) && refusal_of(old(store)@, *request, created.switch_id@) is None
                    && created.switch_id@.len() == 36 && is_api_token(created.api_token@),
            Err(e) => final(store)@ == old(store)@ && exists|id: Seq<char>|
                id.len() == 36 && #[trigger] refusal_of(old(store)@, *request, id) == Some(e),
        },
{
    let id = random_switch_id();
    let token = generate_api_token();
    let now = crate::clock::now();
    let r = create_switch_with(store, request, id.as_str(), token.as_str(), now);
    proof {
        if r is Ok {
            assert(final(store)@ == with_request(
                old(store)@,
                *request,
                r->Ok_0.switch_id@,
                r->Ok_0.api_token@,
                now as int,
            ));
        } else {
            assert(refusal_of(old(store)@, *request, id@) == Some(r->Err_0));
        }
    }
    r
}

/// Whether a file name is shown among the scripts: names that begin with
/// a dot are hidden.
pub open spec fn visible(name: Seq<char>) -> bool {
    !(name.len() > 0 && name[0] == '.')
}

/// The names of a directory listing that are shown among the scripts, in
/// the order given.
pub fn list_scripts(names: &Vec<String>) -> (r: Vec<String>)
    ensures
        r@.map_values(|n: String| n@) == names@.map_values(|n: String| n@).filter(
            |n: Seq<char>| visible(n),
        ),
{
    let ghost all = names@.map_values(|n: String| n@);
    let mut out: Vec<String> = Vec::new();
    let mut i: usize = 0;
    proof {
        assert(all.take(0) =~= Seq::empty());
        reveal(Seq::filter);
        assert(out@.map_values(|n: String| n@) =~= all.take(0).filter(|n: Seq<char>| visible(n)));
    }
    while i < names.len()
        invariant
            i <= names@.len(),
            all == names@.map_values(|n: String| n@),
            out@.map_values(|n: String| n@) == all.take(i as int).filter(
                |n: Seq<char>| visible(n),
            ),
        decreases names.len() - i,
    {
        let chars = chars_of(names[i].as_str());
        proof {
            assert(all.take(i + 1) =~= all.take(i as int).push(names@[i as int]@));
            all.take(i as int).lemma_filter_push(names@[i as int]@, |n: Seq<char>| visible(n));
        }
        if !(chars.len() > 0 && chars[0] == '.') {
            let name = names[i].clone();
            proof {
                assert(out@.push(name).map_values(|n: String| n@) =~= out@.map_values(
                    |n: String| n@,
                ).push(name@));
            }
            out.push(name);
        }
        i = i + 1;
    }
    proof {
        assert(all.take(names@.len() as int) =~= all);
    }
    out
}

/// Everything the store holds about one switch.
#[derive(Debug)]
pub struct SwitchDetail {
    pub switch: Switch,
    pub warning_stages: Vec<WarningStage>,
    pub warning_actions: Vec<Action>,
    pub final_actions: Vec<Action>,
    pub execution_history: Vec<ActionExecution>,
}

/// The switch `id` with its stages, its warning and its final actions, and
/// its latest audit records; nothing where the store holds no such switch.
pub fn get_switch(store: &Store, id: &str) -> (r: Option<SwitchDetail>)
    ensures
        match r {
            Some(detail) => {
                &&& detail.switch@.id == id@
                &&& store@.switches.contains(detail.switch@)
                &&& views(detail.warning_stages@) == stages_of(store@.stages, id@)
                &&& views(detail.warning_actions@) == actions_of(store@.actions, id@, true)
                &&& views(detail.final_actions@) == actions_of(store@.actions, id@, false)
                &&& views(detail.execution_history@) == history_of(store@.executions, id@)
            },
            None => !store@.has_switch(id@),
        },
{
    match db::get_switch_by_id(store, id) {
        None => None,
        Some(switch) => Some(
            SwitchDetail {
                switch,
                warning_stages: db::get_warning_stages_for_switch(store, id),
                warning_actions: db::get_actions_for_switch(store, id, true),
                final_actions: db::get_actions_for_switch(store, id, false),
                execution_history: db::get_execution_history(store, id),
            },
        ),
    }
}

} // verus!
