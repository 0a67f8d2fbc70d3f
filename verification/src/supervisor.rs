use crate::pyremote::{race_outcome, spec_race_outcome, Error, Output, Race};
use std::time::Duration;
use vstd::prelude::*;

verus! {

/// Where one execution stands.
#[derive(Debug)]
pub enum State {
    /// The workspace file is being created; nothing is held yet.
    Creating,
    /// The workspace file exists under this path and is being filled with
    /// prelude and source.
    Filling(String),
    /// The workspace is complete and the interpreter is being started.
    Spawning(String),
    /// The interpreter runs, in a race against the timer.
    Running(String),
    /// The interpreter is being killed and reaped; the error is what the
    /// execution will report.
    Killing(String, Error),
    /// No process is left; the workspace file is being removed.
    Releasing(String, Result<Output, Error>),
    /// The outcome has been handed out.
    Finished,
}

/// What the outside world reports back after it carried out an action.
#[derive(Debug)]
pub enum Event {
    /// A workspace file was created under this path, at which there was no
    /// file before.
    Created(String),
    /// The workspace file holds prelude and source.
    Filled,
    /// The interpreter process was started.
    Spawned,
    /// The race between the process and the timer is over.
    Raced(Race),
    /// The killed process has been reaped.
    Reaped,
    /// The workspace file no longer exists.
    Removed,
    /// The action could not be carried out.
    Failed(std::io::Error),
}

/// What the outside world is asked to do next.
#[derive(Debug)]
pub enum Action {
    /// Create a new workspace file under a name that nothing else uses.
    CreateWorkspace,
    /// Read the prelude and write the workspace contents to the file at
    /// this path.
    FillWorkspace(String),
    /// Start the interpreter on the workspace file at this path, with both
    /// outputs piped and no input.
    Spawn(String),
    /// Wait for the process to end, for no longer than the given time.
    Race(Duration),
    /// Kill the process and wait until it has been reaped.
    Kill,
    /// Remove the workspace file at this path.
    RemoveWorkspace(String),
    /// Hand the outcome to the caller.
    Return(Result<Output, Error>),
    /// The event did not fit the state and was dropped.
    Nothing,
}

/// Supervises one execution: it is told what happened and says what to do.
#[derive(Debug)]
pub struct Supervisor {
    /// Time that the process may take.
    pub budget: Duration,
    /// Progress of the execution.
    pub state: State,
}

/// Whether a state takes an event.
pub open spec fn accepts(state: State, event: Event) -> bool {
    match (state, event) {
        (State::Creating, Event::Created(_)) => true,
        (State::Creating, Event::Failed(_)) => true,
        (State::Filling(_), Event::Filled) => true,
        (State::Filling(_), Event::Failed(_)) => true,
        (State::Spawning(_), Event::Spawned) => true,
        (State::Spawning(_), Event::Failed(_)) => true,
        (State::Running(_), Event::Raced(_)) => true,
        (State::Killing(_, _), Event::Reaped) => true,
        (State::Releasing(_, _), Event::Removed) => true,
        _ => false,
    }
}

/// The state after an event.
pub open spec fn next_state(state: State, event: Event, budget: Duration) -> State {
    match (state, event) {
        (State::Creating, Event::Created(path)) => State::Filling(path),
        (State::Creating, Event::Failed(_)) => State::Finished,
        (State::Filling(path), Event::Filled) => State::Spawning(path),
        (State::Filling(path), Event::Failed(error)) => State::Releasing(
            path,
            Err(Error::IO(error)),
        ),
        (State::Spawning(path), Event::Spawned) => State::Running(path),
        (State::Spawning(path), Event::Failed(error)) => State::Releasing(
            path,
            Err(Error::IO(error)),
        ),
        (State::Running(path), Event::Raced(race)) => match spec_race_outcome(race, budget) {
            Ok(output) => State::Releasing(path, Ok(output)),
            Err(error) => State::Killing(path, error),
        },
        (State::Killing(path, error), Event::Reaped) => State::Releasing(path, Err(error)),
        (State::Releasing(_, _), Event::Removed) => State::Finished,
        (state, _) => state,
    }
}

/// The action that answers an event.
pub open spec fn next_action(state: State, event: Event, budget: Duration) -> Action {
    match (state, event) {
        (State::Creating, Event::Created(path)) => Action::FillWorkspace(path),
        (State::Creating, Event::Failed(error)) => Action::Return(Err(Error::IO(error))),
        (State::Filling(path), Event::Filled) => Action::Spawn(path),
        (State::Filling(path), Event::Failed(_)) => Action::RemoveWorkspace(path),
        (State::Spawning(_), Event::Spawned) => Action::Race(budget),
        (State::Spawning(path), Event::Failed(_)) => Action::RemoveWorkspace(path),
        (State::Running(path), Event::Raced(race)) => match spec_race_outcome(race, budget) {
            Ok(_) => Action::RemoveWorkspace(path),
            Err(_) => Action::Kill,
        },
        (State::Killing(path, _), Event::Reaped) => Action::RemoveWorkspace(path),
        (State::Releasing(_, outcome), Event::Removed) => Action::Return(outcome),
        _ => Action::Nothing,
    }
}

impl Supervisor {
    /// The supervisor after an event.
    pub open spec fn spec_step(self, event: Event) -> Supervisor {
        Supervisor { budget: self.budget, state: next_state(self.state, event, self.budget) }
    }

    /// The action with which the supervisor answers an event.
    pub open spec fn spec_action(self, event: Event) -> Action {
        next_action(self.state, event, self.budget)
    }

    /// Begins an execution with the given budget. The first thing to do is
    /// to create the workspace file.
    pub fn new(budget: Duration) -> (started: (Supervisor, Action))
        ensures
            started.0.budget == budget,
            started.0.state == State::Creating,
            started.1 == Action::CreateWorkspace,
    {
        (Supervisor { budget, state: State::Creating }, Action::CreateWorkspace)
    }

    /// Whether the outcome has been handed out.
    pub fn is_finished(&self) -> (finished: bool)
        ensures
            finished == (self.state == State::Finished),
    {
        match self.state {
            State::Finished => true,
            _ => false,
        }
    }

    /// Takes an event and says what to do next. An event that does not fit
    /// the state changes nothing.
    pub fn step(self, event: Event) -> (next: (Supervisor, Action))
        ensures
            next.0 == self.spec_step(event),
            next.1 == self.spec_action(event),
    {
        let budget = self.budget;
        match (self.state, event) {
            (State::Creating, Event::Created(path)) => {
                let named = path.clone();
                (Supervisor { budget, state: State::Filling(path) }, Action::FillWorkspace(named))
            },
            (State::Creating, Event::Failed(error)) => (
                Supervisor { budget, state: State::Finished },
                Action::Return(Err(Error::from(error))),
            ),
            (State::Filling(path), Event::Filled) => {
                let named = path.clone();
                (Supervisor { budget, state: State::Spawning(path) }, Action::Spawn(named))
            },
            (State::Filling(path), Event::Failed(error)) => {
                let named = path.clone();
                (
                    Supervisor { budget, state: State::Releasing(path, Err(Error::from(error))) },
                    Action::RemoveWorkspace(named),
                )
            },
            (State::Spawning(path), Event::Spawned) => (
                Supervisor { budget, state: State::Running(path) },
                Action::Race(budget),
            ),
            (State::Spawning(path), Event::Failed(error)) => {
                let named = path.clone();
                (
                    Supervisor { budget, state: State::Releasing(path, Err(Error::from(error))) },
                    Action::RemoveWorkspace(named),
                )
            },
            (State::Running(path), Event::Raced(race)) => match race_outcome(race, budget) {
                Ok(output) => {
                    let named = path.clone();
                    (
                        Supervisor { budget, state: State::Releasing(path, Ok(output)) },
                        Action::RemoveWorkspace(named),
                    )
                },
                Err(error) => (
                    Supervisor { budget, state: State::Killing(path, error) },
                    Action::Kill,
                ),
            },
            (State::Killing(path, error), Event::Reaped) => {
                let named = path.clone();
                (
                    Supervisor { budget, state: State::Releasing(path, Err(error)) },
                    Action::RemoveWorkspace(named),
                )
            },
            (State::Releasing(_, outcome), Event::Removed) => (
                Supervisor { budget, state: State::Finished },
                Action::Return(outcome),
            ),
            (state, _) => (Supervisor { budget, state }, Action::Nothing),
        }
    }
}

/// Most events that an execution can still take before it has finished.
pub open spec fn steps_left(state: State) -> nat {
    match state {
        State::Creating => 6,
        State::Filling(_) => 5,
        State::Spawning(_) => 4,
        State::Running(_) => 3,
        State::Killing(_, _) => 2,
        State::Releasing(_, _) => 1,
        State::Finished => 0,
    }
}

/// Every event that is taken brings the execution nearer to its end, so
/// that it has finished after six of them at most; an event that is not
/// taken changes nothing and asks for nothing.
pub proof fn lemma_each_step_advances(supervisor: Supervisor, event: Event)
    ensures
        accepts(supervisor.state, event) ==> steps_left(supervisor.spec_step(event).state)
            < steps_left(supervisor.state),
        !accepts(supervisor.state, event) ==> supervisor.spec_step(event) == supervisor
            && supervisor.spec_action(event) == Action::Nothing,
        accepts(supervisor.state, event) ==> supervisor.spec_action(event) != Action::Nothing,
{
}

/// An execution that has not finished can always go on: there is an event
/// that it takes. One that has finished takes none.
pub proof fn lemma_never_stuck(state: State)
    ensures
        state != State::Finished ==> exists|event: Event| accepts(state, event),
        state == State::Finished ==> forall|event: Event| !accepts(state, event),
{
    match state {
        State::Creating => {
            let path: String = arbitrary();
            assert(accepts(state, Event::Created(path)));
        },
        State::Filling(_) => {
            assert(accepts(state, Event::Filled));
        },
        State::Spawning(_) => {
            assert(accepts(state, Event::Spawned));
        },
        State::Running(_) => {
            assert(accepts(state, Event::Raced(Race::Elapsed)));
        },
        State::Killing(_, _) => {
            assert(accepts(state, Event::Reaped));
        },
        State::Releasing(_, _) => {
            assert(accepts(state, Event::Removed));
        },
        State::Finished => {},
    }
}

/// What an execution holds: its workspace file and its process.
pub struct Holdings {
    /// The workspace file exists.
    pub workspace: bool,
    /// A process has been started and not yet seen to be gone.
    pub process: bool,
}

/// What is held after an event that was taken, going by the event alone:
/// creation and removal of the file, start of the process, its own end and
/// its reaping.
pub open spec fn holdings_after(held: Holdings, event: Event) -> Holdings {
    match event {
        Event::Created(_) => Holdings { workspace: true, process: held.process },
        Event::Removed => Holdings { workspace: false, process: held.process },
        Event::Spawned => Holdings { workspace: held.workspace, process: true },
        Event::Raced(Race::Completed(_)) => Holdings { workspace: held.workspace, process: false },
        Event::Reaped => Holdings { workspace: held.workspace, process: false },
        _ => held,
    }
}

/// What a state is supposed to hold.
pub open spec fn holdings_of(state: State) -> Holdings {
    match state {
        State::Creating => Holdings { workspace: false, process: false },
        State::Filling(_) => Holdings { workspace: true, process: false },
        State::Spawning(_) => Holdings { workspace: true, process: false },
        State::Running(_) => Holdings { workspace: true, process: true },
        State::Killing(_, _) => Holdings { workspace: true, process: true },
        State::Releasing(_, _) => Holdings { workspace: true, process: false },
        State::Finished => Holdings { workspace: false, process: false },
    }
}

/// The supervisor that begins an execution.
pub open spec fn start(budget: Duration) -> Supervisor {
    Supervisor { budget, state: State::Creating }
}

/// The supervisor after a sequence of events.
pub open spec fn run(supervisor: Supervisor, events: Seq<Event>) -> Supervisor
    decreases events.len(),
{
    if events.len() == 0 {
        supervisor
    } else {
        run(supervisor, events.drop_last()).spec_step(events.last())
    }
}

/// What is held after a sequence of events, of which those count that the
/// supervisor took.
pub open spec fn held(supervisor: Supervisor, before: Holdings, events: Seq<Event>) -> Holdings
    decreases events.len(),
{
    if events.len() == 0 {
        before
    } else {
        let earlier = held(supervisor, before, events.drop_last());
        if accepts(run(supervisor, events.drop_last()).state, events.last()) {
            holdings_after(earlier, events.last())
        } else {
            earlier
        }
    }
}

/// The outcomes handed out in the course of a sequence of events.
pub open spec fn returned(supervisor: Supervisor, events: Seq<Event>) -> Seq<Result<Output, Error>>
    decreases events.len(),
{
    if events.len() == 0 {
        Seq::empty()
    } else {
        let earlier = returned(supervisor, events.drop_last());
        match run(supervisor, events.drop_last()).spec_action(events.last()) {
            Action::Return(outcome) => earlier.push(outcome),
            _ => earlier,
        }
    }
}

/// Whether the error, if it is a timeout, names this budget.
pub open spec fn timeout_is(error: Error, budget: Duration) -> bool {
    match error {
        Error::Timeout { timeout } => timeout == budget,
        Error::IO(_) => true,
    }
}

/// Whether an outcome that a state keeps for later names the budget in its
/// timeout.
pub open spec fn keeps_budget(state: State, budget: Duration) -> bool {
    match state {
        State::Killing(_, error) => timeout_is(error, budget),
        State::Releasing(_, Err(error)) => timeout_is(error, budget),
        _ => true,
    }
}

/// The budget of a supervisor never changes.
pub proof fn lemma_budget_is_kept(supervisor: Supervisor, events: Seq<Event>)
    ensures
        run(supervisor, events).budget == supervisor.budget,
    decreases events.len(),
{
    if events.len() > 0 {
        lemma_budget_is_kept(supervisor, events.drop_last());
    }
}

/// Whatever events arrive in whatever order, an execution holds exactly
/// what its state says. So when it has finished, with whichever outcome,
/// its workspace file is gone and no process of it is left; and while the
/// process runs or is being killed, the file is still there.
pub proof fn lemma_holdings_follow_state(budget: Duration, events: Seq<Event>)
    ensures
        held(start(budget), holdings_of(State::Creating), events) == holdings_of(
            run(start(budget), events).state,
        ),
        run(start(budget), events).state == State::Finished ==> {
            &&& !held(start(budget), holdings_of(State::Creating), events).workspace
            &&& !held(start(budget), holdings_of(State::Creating), events).process
        },
    decreases events.len(),
{
    if events.len() > 0 {
        lemma_holdings_follow_state(budget, events.drop_last());
        lemma_budget_is_kept(start(budget), events.drop_last());
    }
}

/// An execution hands out one outcome, at the moment it finishes, and none
/// before or after.
pub proof fn lemma_one_outcome(budget: Duration, events: Seq<Event>)
    ensures
        returned(start(budget), events).len() == if run(start(budget), events).state
            == State::Finished {
            1nat
        } else {
            0nat
        },
    decreases events.len(),
{
    if events.len() > 0 {
        lemma_one_outcome(budget, events.drop_last());
        lemma_budget_is_kept(start(budget), events.drop_last());
    }
}

/// An outcome that a state keeps for later names the budget in its timeout.
proof fn lemma_keeps_budget(budget: Duration, events: Seq<Event>)
    ensures
        keeps_budget(run(start(budget), events).state, budget),
    decreases events.len(),
{
    if events.len() > 0 {
        lemma_keeps_budget(budget, events.drop_last());
        lemma_budget_is_kept(start(budget), events.drop_last());
    }
}

/// A timeout that an execution reports names the budget that the execution
/// was begun with.
pub proof fn lemma_timeout_names_budget(budget: Duration, events: Seq<Event>, i: int)
    requires
        0 <= i < returned(start(budget), events).len(),
    ensures
        match returned(start(budget), events)[i] {
            Err(error) => timeout_is(error, budget),
            Ok(_) => true,
        },
    decreases events.len(),
{
    if events.len() > 0 {
        let earlier = returned(start(budget), events.drop_last());
        lemma_keeps_budget(budget, events.drop_last());
        lemma_budget_is_kept(start(budget), events.drop_last());
        if i < earlier.len() {
            lemma_timeout_names_budget(budget, events.drop_last(), i);
        }
    }
}

/// How many workspace files were made in the course of a sequence of
/// events.
pub open spec fn workspaces_made(supervisor: Supervisor, events: Seq<Event>) -> nat
    decreases events.len(),
{
    if events.len() == 0 {
        0
    } else {
        let earlier = workspaces_made(supervisor, events.drop_last());
        if accepts(run(supervisor, events.drop_last()).state, events.last()) && events.last()
            is Created {
            earlier + 1
        } else {
            earlier
        }
    }
}

/// How many processes were started in the course of a sequence of events.
pub open spec fn processes_started(supervisor: Supervisor, events: Seq<Event>) -> nat
    decreases events.len(),
{
    if events.len() == 0 {
        0
    } else {
        let earlier = processes_started(supervisor, events.drop_last());
        if accepts(run(supervisor, events.drop_last()).state, events.last()) && events.last()
            == Event::Spawned {
            earlier + 1
        } else {
            earlier
        }
    }
}

/// An execution makes at most one workspace file and starts at most one
/// process, and no process before its workspace is complete.
pub proof fn lemma_one_workspace_one_process(budget: Duration, events: Seq<Event>)
    ensures
        workspaces_made(start(budget), events) <= 1,
        processes_started(start(budget), events) <= 1,
        run(start(budget), events).state == State::Creating ==> workspaces_made(
            start(budget),
            events,
        ) == 0,
        (run(start(budget), events).state is Filling || run(start(budget), events).state
            is Spawning) ==> workspaces_made(start(budget), events) == 1,
        processes_started(start(budget), events) == 1 ==> workspaces_made(start(budget), events)
            == 1,
        (run(start(budget), events).state == State::Creating || run(start(budget), events).state
            is Filling || run(start(budget), events).state is Spawning) ==> processes_started(
            start(budget),
            events,
        ) == 0,
    decreases events.len(),
{
    if events.len() > 0 {
        lemma_one_workspace_one_process(budget, events.drop_last());
        lemma_budget_is_kept(start(budget), events.drop_last());
    }
}

/// Several executions side by side: each event is addressed to one of
/// them, by its place in the pool, and only that one takes it.
pub open spec fn run_all(pool: Seq<Supervisor>, events: Seq<(int, Event)>) -> Seq<Supervisor>
    decreases events.len(),
{
    if events.len() == 0 {
        pool
    } else {
        let before = run_all(pool, events.drop_last());
        let (whose, event) = events.last();
        if 0 <= whose < before.len() {
            before.update(whose, before[whose].spec_step(event))
        } else {
            before
        }
    }
}

/// The events addressed to one execution, in the order in which they came.
pub open spec fn events_of(events: Seq<(int, Event)>, whose: int) -> Seq<Event>
    decreases events.len(),
{
    if events.len() == 0 {
        Seq::empty()
    } else if events.last().0 == whose {
        events_of(events.drop_last(), whose).push(events.last().1)
    } else {
        events_of(events.drop_last(), whose)
    }
}

/// However the events of several executions are interleaved, each
/// execution ends where its own events alone would have taken it: what
/// happens to one never shows in another.
pub proof fn lemma_executions_do_not_mix(
    pool: Seq<Supervisor>,
    events: Seq<(int, Event)>,
    whose: int,
)
    requires
        0 <= whose < pool.len(),
    ensures
        run_all(pool, events).len() == pool.len(),
        run_all(pool, events)[whose] == run(pool[whose], events_of(events, whose)),
    decreases events.len(),
{
    if events.len() > 0 {
        let earlier = events.drop_last();
        lemma_executions_do_not_mix(pool, earlier, whose);
        let (target, event) = events.last();
        if 0 <= target < pool.len() {
            lemma_executions_do_not_mix(pool, earlier, target);
        }
        if target == whose {
            let own = events_of(earlier, whose);
            assert(own.push(event).drop_last() =~= own);
            assert(own.push(event).last() == event);
        }
    }
}

/// The workspace file that an execution holds in a state.
pub open spec fn workspace_of(state: State) -> Option<String> {
    match state {
        State::Filling(path) => Some(path),
        State::Spawning(path) => Some(path),
        State::Running(path) => Some(path),
        State::Killing(path, _) => Some(path),
        State::Releasing(path, _) => Some(path),
        _ => None,
    }
}

/// The workspace file that an action names.
pub open spec fn named_workspace(action: Action) -> Option<String> {
    match action {
        Action::FillWorkspace(path) => Some(path),
        Action::Spawn(path) => Some(path),
        Action::RemoveWorkspace(path) => Some(path),
        _ => None,
    }
}

/// An execution works on its own workspace file and on no other. The file
/// that an action names is the one that the execution held when the event
/// came, or the one that the event itself reports as made. And the file
/// that an execution holds stays the same from the event that made it to
/// the event that removed it.
pub proof fn lemma_actions_name_own_workspace(supervisor: Supervisor, event: Event)
    ensures
        named_workspace(supervisor.spec_action(event)).is_some() ==> {
            ||| named_workspace(supervisor.spec_action(event)) == workspace_of(supervisor.state)
            ||| supervisor.state == State::Creating && event == Event::Created(
                named_workspace(supervisor.spec_action(event)).unwrap(),
            )
        },
        workspace_of(supervisor.spec_step(event).state).is_some() ==> {
            ||| workspace_of(supervisor.spec_step(event).state) == workspace_of(supervisor.state)
            ||| supervisor.state == State::Creating && event == Event::Created(
                workspace_of(supervisor.spec_step(event).state).unwrap(),
            )
        },
{
}

/// Whether an event reports a file as made that a state holds already.
pub open spec fn makes_workspace_of(event: Event, state: State) -> bool {
    match event {
        Event::Created(path) => workspace_of(state) == Some(path),
        _ => false,
    }
}

/// Whether every workspace file was new when it was made: whether no event
/// reports a file as made that another execution of the pool held at that
/// moment.
pub open spec fn creations_are_new(pool: Seq<Supervisor>, events: Seq<(int, Event)>) -> bool {
    forall|at: int, other: int|
        0 <= at < events.len() && 0 <= other < pool.len() && other != events[at].0
            ==> !makes_workspace_of(
            events[at].1,
            (#[trigger] run_all(pool, events.take(at))[other]).state,
        )
}

/// Executions side by side never share a workspace file. Where none of them
/// holds a file at the outset and every file is new when it is made, the
/// file that one execution holds is at no time the file of another,
/// however their events are interleaved.
pub proof fn lemma_workspaces_stay_apart(
    pool: Seq<Supervisor>,
    events: Seq<(int, Event)>,
    first: int,
    second: int,
)
    requires
        0 <= first < pool.len(),
        0 <= second < pool.len(),
        first != second,
        forall|k: int| 0 <= k < pool.len() ==> workspace_of(#[trigger] pool[k].state).is_none(),
        creations_are_new(pool, events),
    ensures
        workspace_of(run_all(pool, events)[first].state).is_some() ==> workspace_of(
            run_all(pool, events)[first].state,
        ) != workspace_of(run_all(pool, events)[second].state),
    decreases events.len(),
{
    if events.len() > 0 {
        let earlier = events.drop_last();
        let before = run_all(pool, earlier);
        let (whose, event) = events.last();
        assert(events.take(events.len() - 1) =~= earlier);
        assert(creations_are_new(pool, earlier)) by {
            assert forall|at: int, other: int|
                0 <= at < earlier.len() && 0 <= other < pool.len() && other
                    != earlier[at].0 implies !makes_workspace_of(
                earlier[at].1,
                (#[trigger] run_all(pool, earlier.take(at))[other]).state,
            ) by {
                assert(earlier.take(at) =~= events.take(at));
                assert(earlier[at] == events[at]);
            }
        }
        lemma_workspaces_stay_apart(pool, earlier, first, second);
        lemma_workspaces_stay_apart(pool, earlier, second, first);
        lemma_executions_do_not_mix(pool, earlier, first);
        if whose == first {
            lemma_actions_name_own_workspace(before[first], event);
            assert(!makes_workspace_of(
                events[events.len() - 1].1,
                run_all(pool, events.take(events.len() - 1))[second].state,
            ));
        } else if whose == second {
            lemma_actions_name_own_workspace(before[second], event);
            assert(!makes_workspace_of(
                events[events.len() - 1].1,
                run_all(pool, events.take(events.len() - 1))[first].state,
            ));
        }
    }
}

} // verus!
