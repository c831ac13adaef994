//! The scheduler as a machine: it is told what has happened, changes the
//! store, and says what to do next. Whoever drives it sleeps, runs the
//! actions, and reads the clock.

use crate::db::{self, views, Store, StoreView};
use crate::models::{Action, ActionKind, ActionView, ExecutionType};
use crate::watchdog::executor::{
    result_view, ActionResult, Runner, RunnerView, Step, StepView,
};
use crate::watchdog::{
    can_commit, commit, committed, plan_active, plan_active_sweep, plan_triggered,
    plan_triggered_sweep, Firing, FiringView,
};
use vstd::prelude::*;

verus! {

/// Seconds between the end of one tick and the start of the next.
pub const TICK_SECONDS: u64 = 10;

/// Which sweep of a tick is under way.
#[derive(Clone, Copy, Debug, PartialEq, Eq, Structural)]
pub enum Phase {
    /// Between ticks.
    Idle,
    /// The sweep over the active switches.
    Active,
    /// The sweep over the triggered switches, which follows the other.
    Triggered,
}

/// What the machine is told.
#[derive(Debug)]
pub enum Event {
    /// The process has started; the clock shows `now`.
    Started { now: i64 },
    /// The clock has reached the next tick; it shows `now`.
    Tick { now: i64 },
    /// The action that was handed out has come back with `outcome`; the
    /// clock shows `now`.
    Finished { outcome: ActionResult, now: i64 },
}

/// An event as a mathematical value.
pub enum EventView {
    Started { now: int },
    Tick { now: int },
    Finished { outcome: Result<(int, Seq<char>, Seq<char>), Seq<char>>, now: int },
}

impl View for Event {
    type V = EventView;

    open spec fn view(&self) -> EventView {
        match self {
            Event::Started { now } => EventView::Started { now: *now as int },
            Event::Tick { now } => EventView::Tick { now: *now as int },
            Event::Finished { outcome, now } => EventView::Finished {
                outcome: result_view(*outcome),
                now: *now as int,
            },
        }
    }
}

/// What the machine asks for.
#[derive(Debug)]
pub enum Command {
    /// Run `action` through the driver `kind`, then report `Finished`.
    Run {
        execution_id: i64,
        kind: ActionKind,
        action: Action,
        switch_id: String,
        execution_type: ExecutionType,
    },
    /// Sleep for `seconds`, then report `Tick`.
    Sleep { seconds: u64 },
    /// An action is out: report `Finished` before anything else.
    AwaitResult,
}

/// A command as a mathematical value.
pub enum CommandView {
    Run {
        execution_id: int,
        kind: ActionKind,
        action: ActionView,
        switch_id: Seq<char>,
        execution_type: ExecutionType,
    },
    Sleep { seconds: int },
    AwaitResult,
}

impl View for Command {
    type V = CommandView;

    open spec fn view(&self) -> CommandView {
        match self {
            Command::Run {
                execution_id,
                kind,
                action,
                switch_id,
                execution_type,
            } => CommandView::Run {
                execution_id: *execution_id as int,
                kind: *kind,
                action: action@,
                switch_id: switch_id@,
                execution_type: *execution_type,
            },
            Command::Sleep { seconds } => CommandView::Sleep { seconds: *seconds as int },
            Command::AwaitResult => CommandView::AwaitResult,
        }
    }
}

/// The state of the scheduler between two events: the sweep under way, the
/// instant of its tick, its firings, the place of the firing in progress,
/// and the runner of that firing once it has begun.
pub struct Watchdog {
    phase: Phase,
    tick: i64,
    plan: Vec<Firing>,
    index: usize,
    runner: Option<Runner>,
}

/// The state of the scheduler as a mathematical value.
pub struct WatchdogView {
    pub phase: Phase,
    pub tick: int,
    pub plan: Seq<FiringView>,
    pub index: int,
    pub runner: Option<RunnerView>,
}

/// The view of an optional runner.
pub open spec fn runner_view(runner: Option<Runner>) -> Option<RunnerView> {
    match runner {
        Some(r) => Some(r@),
        None => None,
    }
}

impl View for Watchdog {
    type V = WatchdogView;

    closed spec fn view(&self) -> WatchdogView {
        WatchdogView {
            phase: self.phase,
            tick: self.tick as int,
            plan: views(self.plan@),
            index: self.index as int,
            runner: runner_view(self.runner),
        }
    }
}

/// The store after `f` has been recorded at `tick`, where the store can
/// record it; the store as it is where it cannot.
pub open spec fn recorded(v: StoreView, f: FiringView, tick: int) -> StoreView {
    if can_commit(v, f) {
        committed(v, f, tick)
    } else {
        v
    }
}

impl WatchdogView {
    /// The state between ticks.
    pub open spec fn idle() -> WatchdogView {
        WatchdogView { phase: Phase::Idle, tick: 0, plan: Seq::empty(), index: 0, runner: None }
    }

    /// The place is a place of the plan or its end, and the runner, if
    /// there is one, is at a place of its list.
    pub open spec fn wf(self) -> bool {
        &&& 0 <= self.index <= self.plan.len()
        &&& self.runner matches Some(r) ==> r.wf()
    }

    /// The sweeps that are still to come, this one included.
    pub open spec fn sweeps_left(self) -> int {
        match self.phase {
            Phase::Idle => 0,
            Phase::Triggered => 1,
            Phase::Active => 2,
        }
    }

    /// The steps that the firing in progress still takes.
    pub open spec fn steps_left(self) -> int {
        match self.runner {
            Some(r) => r.actions.len() - r.position,
            None => if self.index < self.plan.len() {
                self.plan[self.index].actions.len() as int + 1
            } else {
                0
            },
        }
    }

    /// The state at the start of the tick at `now`: the active sweep with
    /// its plan, at its first firing.
    pub open spec fn at_tick(v: StoreView, now: int) -> WatchdogView {
        WatchdogView {
            phase: Phase::Active,
            tick: now,
            plan: plan_active(v, now),
            index: 0,
            runner: None,
        }
    }
}

/// What the machine does from the state `w` until it has to hand out an
/// action or the tick is over; `at` is what the clock showed at the last
/// event. Firing after firing, each action gets its audit record and is
/// handed out, or is passed over where it cannot run; when the actions of
/// a firing are through, the firing is recorded at the instant of the tick;
/// when the active sweep is through, the triggered sweep is planned on the
/// store as it then is; when that is through, the machine sleeps.
pub open spec fn advanced(v: StoreView, w: WatchdogView, at: int) -> (
    StoreView,
    WatchdogView,
    CommandView,
)
    decreases w.sweeps_left(), w.plan.len() - w.index, w.steps_left(),
{
    if !w.wf() || w.phase == Phase::Idle {
        (v, WatchdogView::idle(), CommandView::Sleep { seconds: 10 })
    } else if w.index >= w.plan.len() {
        if w.phase == Phase::Active {
            advanced(
                v,
                WatchdogView {
                    phase: Phase::Triggered,
                    plan: plan_triggered(v, w.tick),
                    index: 0,
                    runner: None,
                    ..w
                },
                at,
            )
        } else {
            (v, WatchdogView::idle(), CommandView::Sleep { seconds: 10 })
        }
    } else {
        let f = w.plan[w.index];
        match w.runner {
            None => advanced(
                v,
                WatchdogView {
                    runner: Some(
                        RunnerView::fresh(f.switch_id, f.actions, f.kind.execution_type()),
                    ),
                    ..w
                },
                at,
            ),
            Some(r) => {
                let (v2, r2, step) = r.started(v, at);
                match step {
                    StepView::Dispatch {
                        execution_id,
                        kind,
                        action,
                        switch_id,
                        execution_type,
                    } => (
                        v2,
                        WatchdogView { runner: Some(r2), ..w },
                        CommandView::Run { execution_id, kind, action, switch_id, execution_type },
                    ),
                    StepView::Busy => (v, w, CommandView::AwaitResult),
                    StepView::Done => advanced(
                        recorded(v, f, w.tick),
                        WatchdogView { index: w.index + 1, runner: None, ..w },
                        at,
                    ),
                    _ => advanced(v2, WatchdogView { runner: Some(r2), ..w }, at),
                }
            },
        }
    }
}

/// What an event does to the store and to the machine, and what the
/// machine asks for. At the start of the process the audit records that a
/// crash left running are closed at that instant, and the first tick is
/// due at once. A
/// tick begins with the plan of the active sweep. A result closes the
/// audit record of the action that was out, and the tick goes on. A tick
/// while an action is out, and a result while none is, change nothing.
pub open spec fn reacted(v: StoreView, w: WatchdogView, event: EventView) -> (
    StoreView,
    WatchdogView,
    CommandView,
) {
    match event {
        EventView::Started { now } => (
            v.reaped(now),
            WatchdogView::idle(),
            CommandView::Sleep { seconds: 0 },
        ),
        EventView::Tick { now } => if w.phase == Phase::Idle {
            advanced(v, WatchdogView::at_tick(v, now), now)
        } else {
            (v, w, CommandView::AwaitResult)
        },
        EventView::Finished { outcome, now } => match w.runner {
            Some(r) => if w.phase != Phase::Idle && r.open is Some {
                let (v2, r2) = r.finished(v, outcome, now);
                advanced(v2, WatchdogView { runner: Some(r2), ..w }, now)
            } else {
                (v, w, CommandView::Sleep { seconds: 10 })
            },
            None => (v, w, CommandView::Sleep { seconds: 10 }),
        },
    }
}

impl Watchdog {
    #[verifier::type_invariant]
    spec fn inv(&self) -> bool {
        self.index <= self.plan@.len()
    }

    /// The machine before the process has started.
    pub fn new() -> (r: Watchdog)
        ensures
            r@ == WatchdogView::idle(),
    {
        let r = Watchdog { phase: Phase::Idle, tick: 0, plan: Vec::new(), index: 0, runner: None };
        proof {
            assert(r@.plan =~= Seq::empty());
        }
        r
    }

    /// Which sweep is under way.
    pub fn phase(&self) -> (r: Phase)
        ensures
            r == self@.phase,
    {
        self.phase
    }

    fn set_idle(&mut self)
        ensures
            final(self)@ == WatchdogView::idle(),
    {
        proof {
            use_type_invariant(&*self);
        }
        self.phase = Phase::Idle;
        self.tick = 0;
        self.index = 0;
        self.plan = Vec::new();
        self.runner = None;
        proof {
            assert(self@.plan =~= Seq::empty());
        }
    }

    /// Goes on from the present state until an action is handed out or
    /// the tick is over.
    fn advance(&mut self, store: &mut Store, at: i64) -> (r: Command)
        requires
            old(self)@.phase != Phase::Idle,
        ensures
            (final(store)@, final(self)@, r@) == advanced(old(store)@, old(self)@, at as int),
    {
        proof {
            use_type_invariant(&*self);
        }
        let ghost goal = advanced(store@, self@, at as int);
        let mut phase = self.phase;
        let tick = self.tick;
        let mut index = self.index;
        self.index = 0;
        let mut plan: Vec<Firing> = Vec::new();
        core::mem::swap(&mut plan, &mut self.plan);
        let mut runner: Option<Runner> = None;
        core::mem::swap(&mut runner, &mut self.runner);
        match &runner {
            Some(r) => {
                let _ = r.position();
            },
            None => {},
        }
        loop
            invariant
                goal == advanced(old(store)@, old(self)@, at as int),
                phase != Phase::Idle,
                index <= plan@.len(),
                self.index == 0,
                self.plan@.len() == 0,
                runner matches Some(r) ==> r@.wf(),
                goal == advanced(
                    store@,
                    WatchdogView {
                        phase,
                        tick: tick as int,
                        plan: views(plan@),
                        index: index as int,
                        runner: runner_view(runner),
                    },
                    at as int,
                ),
            decreases
                    (if phase == Phase::Active {
                        2int
                    } else {
                        1int
                    }),
                    plan@.len() - index,
                    (match runner {
                        Some(r) => r@.actions.len() - r@.position,
                        None => if index < plan@.len() {
                            views(plan@)[index as int].actions.len() as int + 1
                        } else {
                            0int
                        },
                    }),
        {
            if index == plan.len() {
                if phase == Phase::Active {
                    plan = plan_triggered_sweep(store, tick);
                    index = 0;
                    phase = Phase::Triggered;
                    runner = None;
                    continue ;
                }
                self.set_idle();
                let r = Command::Sleep { seconds: TICK_SECONDS };
                return r;
            }
            proof {
                assert(views(plan@)[index as int] == plan@[index as int]@);
            }
            match runner {
                None => {
                    runner = Some(Runner::for_firing(&plan[index]));
                },
                Some(mut r) => {
                    let step = r.start_next(store, at);
                    match step {
                        Step::Dispatch {
                            execution_id,
                            kind,
                            action,
                            switch_id,
                            execution_type,
                        } => {
                            self.phase = phase;
                            self.tick = tick;
                            self.plan = plan;
                            self.index = index;
                            self.runner = Some(r);
                            let r = Command::Run {
                                execution_id,
                                kind,
                                action,
                                switch_id,
                                execution_type,
                            };
                            return r;
                        },
                        Step::Busy => {
                            self.phase = phase;
                            self.tick = tick;
                            self.plan = plan;
                            self.index = index;
                            self.runner = Some(r);
                            let r = Command::AwaitResult;
                            return r;
                        },
                        Step::Done => {
                            let _ = commit(store, &plan[index], tick);
                            index = index + 1;
                            runner = None;
                        },
                        _ => {
                            runner = Some(r);
                        },
                    }
                },
            }
        }
    }
}

/// Tells the machine what has happened; the result is what it asks for.
pub fn run_watchdog(store: &mut Store, watchdog: &mut Watchdog, event: Event) -> (r: Command)
    ensures
        (final(store)@, final(watchdog)@, r@) == reacted(old(store)@, old(watchdog)@, event@),
{
    proof {
        use_type_invariant(&*watchdog);
    }
    match event {
        Event::Started { now } => {
            let _ = db::mark_orphaned_executions_failed(store, now);
            watchdog.set_idle();
            Command::Sleep { seconds: 0 }
        },
        Event::Tick { now } => {
                if watchdog.phase != Phase::Idle {
                return Command::AwaitResult;
            }
            watchdog.phase = Phase::Active;
            watchdog.tick = now;
            watchdog.index = 0;
            watchdog.plan = plan_active_sweep(store, now);
            watchdog.runner = None;
            watchdog.advance(store, now)
        },
        Event::Finished { outcome, now } => {
                if watchdog.phase == Phase::Idle {
                return Command::Sleep { seconds: TICK_SECONDS };
            }
            let mut runner: Option<Runner> = None;
            core::mem::swap(&mut runner, &mut watchdog.runner);
            match runner {
                Some(mut r) => {
                    if r.running().is_none() {
                        watchdog.runner = Some(r);
                        return Command::Sleep { seconds: TICK_SECONDS };
                    }
                    let _ = r.finish(store, outcome, now);
                    watchdog.runner = Some(r);
                    watchdog.advance(store, now)
                },
                None => Command::Sleep { seconds: TICK_SECONDS },
            }
        },
    }
}

} // verus!
