//! The service's life cycle: a boot sequence, then a loop that sleeps and
//! dispatches every registered action, until a shutdown is requested.

use vstd::prelude::*;
use crate::config::Config;
use crate::error::ServiceError;

verus! {

/// What the runner needs to know of a service's configuration.
pub trait ServiceConfig {
    fn service_name(&self) -> &str;

    fn log_file_path(&self) -> &str;
}

impl ServiceConfig for Config {
    fn service_name(&self) -> &str {
        self.service_name.as_str()
    }

    fn log_file_path(&self) -> &str {
        self.log_file_path.as_str()
    }
}

/// A unit of work run once per loop tick with the service's configuration.
pub trait Action<C> {
    fn execute(&self, config: &C) -> Result<(), ServiceError>;

    fn name(&self) -> &str;
}

/// The registered actions, dispatched in order of registration.
pub struct ServiceRunner<A> {
    pub actions: Vec<A>,
}

/// The outcome of one action in one dispatch round.
pub struct ActionOutcome {
    /// Position of the action in registration order.
    pub index: usize,
    pub result: Result<(), ServiceError>,
}

impl<A> ServiceRunner<A> {
    /// A runner with no action.
    pub fn new() -> (r: ServiceRunner<A>)
        ensures
            r.actions@.len() == 0,
    {
        ServiceRunner { actions: Vec::new() }
    }

    /// Registers `action` after those already registered.
    pub fn add_action(self, action: A) -> (r: ServiceRunner<A>)
        ensures
            r.actions@ == self.actions@.push(action),
    {
        let mut actions = self.actions;
        actions.push(action);
        ServiceRunner { actions }
    }

    /// Runs every registered action once, in order, and reports each outcome;
    /// a failing action does not keep the later ones from running.
    pub fn dispatch<C>(&self, config: &C) -> (r: Vec<ActionOutcome>)
        where
            A: Action<C>,
        ensures
            r@.len() == self.actions@.len(),
            forall|i: int| 0 <= i < r@.len() ==> (#[trigger] r@[i]).index == i,
    {
        let mut outcomes: Vec<ActionOutcome> = Vec::new();
        let mut i: usize = 0;
        while i < self.actions.len()
            invariant
                i <= self.actions@.len(),
                outcomes@.len() == i,
                forall|j: int| 0 <= j < i ==> (#[trigger] outcomes@[j]).index == j,
            decreases self.actions@.len() - i,
        {
            let result = self.actions[i].execute(config);
            outcomes.push(ActionOutcome { index: i, result });
            i = i + 1;
        }
        outcomes
    }
}

impl<A> Default for ServiceRunner<A> {
    fn default() -> (r: ServiceRunner<A>)
        ensures
            r.actions@.len() == 0,
    {
        ServiceRunner::new()
    }
}

/// Stages of the service's life.
#[derive(Debug, Clone, Copy, PartialEq, Eq)]
pub enum RunnerState {
    Booting,
    Running,
    ShuttingDown,
    Stopped,
}

/// What the caller observed since the last command.
#[derive(Debug, Clone, Copy, PartialEq, Eq)]
pub enum RunnerEvent {
    /// Every boot check passed and the log sink is installed.
    BootSucceeded,
    /// A boot check failed.
    BootFailed,
    /// The sleep ended; `running` is the shutdown flag read after it.
    Woke { running: bool },
    /// Every action ran once.
    Dispatched,
    /// The final log line was written.
    FinalLogged,
}

/// What the caller must do next.
#[derive(Debug, Clone, Copy, PartialEq, Eq)]
pub enum RunnerCommand {
    /// Sleep for the configured interval, then read the shutdown flag.
    Sleep,
    /// Run every registered action once.
    DispatchAll,
    /// Write the final log line.
    LogFinal,
    /// Exit with status 0.
    Exit,
    /// Exit with a non-zero status, reporting the boot failure.
    Abort,
    /// Nothing: the event does not apply in this state.
    Ignore,
}

/// The transition function of the runner.
pub open spec fn next(state: RunnerState, event: RunnerEvent) -> (RunnerState, RunnerCommand) {
    match (state, event) {
        (RunnerState::Booting, RunnerEvent::BootSucceeded) => (RunnerState::Running, RunnerCommand::Sleep),
        (RunnerState::Booting, RunnerEvent::BootFailed) => (RunnerState::Stopped, RunnerCommand::Abort),
        (RunnerState::Running, RunnerEvent::Woke { running }) => if running {
            (RunnerState::Running, RunnerCommand::DispatchAll)
        } else {
            (RunnerState::ShuttingDown, RunnerCommand::LogFinal)
        },
        (RunnerState::Running, RunnerEvent::Dispatched) => (RunnerState::Running, RunnerCommand::Sleep),
        (RunnerState::ShuttingDown, RunnerEvent::FinalLogged) => (RunnerState::Stopped, RunnerCommand::Exit),
        _ => (state, RunnerCommand::Ignore),
    }
}

/// Advances the runner by one observed event.
pub fn step(state: RunnerState, event: RunnerEvent) -> (r: (RunnerState, RunnerCommand))
    ensures
        r == next(state, event),
{
    match (state, event) {
        (RunnerState::Booting, RunnerEvent::BootSucceeded) => (RunnerState::Running, RunnerCommand::Sleep),
        (RunnerState::Booting, RunnerEvent::BootFailed) => (RunnerState::Stopped, RunnerCommand::Abort),
        (RunnerState::Running, RunnerEvent::Woke { running }) => if running {
            (RunnerState::Running, RunnerCommand::DispatchAll)
        } else {
            (RunnerState::ShuttingDown, RunnerCommand::LogFinal)
        },
        (RunnerState::Running, RunnerEvent::Dispatched) => (RunnerState::Running, RunnerCommand::Sleep),
        (RunnerState::ShuttingDown, RunnerEvent::FinalLogged) => (RunnerState::Stopped, RunnerCommand::Exit),
        _ => (state, RunnerCommand::Ignore),
    }
}

/// A failed boot never reaches the loop, and stopping is final.
pub proof fn lemma_runner_safety(state: RunnerState, event: RunnerEvent)
    ensures
        state == RunnerState::Booting && event == RunnerEvent::BootFailed ==> next(state, event)
            == (RunnerState::Stopped, RunnerCommand::Abort),
        state == RunnerState::Stopped ==> next(state, event).0 == RunnerState::Stopped,
        next(state, event).1 == RunnerCommand::DispatchAll ==> state == RunnerState::Running
            && event == (RunnerEvent::Woke { running: true }),
        next(state, event).0 == RunnerState::Running ==> state != RunnerState::Booting || event
            == RunnerEvent::BootSucceeded,
{
}

} // verus!
