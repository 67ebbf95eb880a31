//! The supervisor: which tasks run, and what is done when one of them ends or
//! the process is told to stop.

use vstd::prelude::*;

verus! {

/// The seconds between two looks for new chapters.
pub const CHECK_PERIOD_SECONDS: u64 = 300;

/// The seconds between two rounds of delivery.
pub const DELIVERY_PERIOD_SECONDS: u64 = 30;

/// The number of connections to the store that may be open at once.
pub const POOL_SIZE: u64 = 30;

/// The long-running tasks.
#[derive(Clone, Copy, Debug, PartialEq, Eq, Structural)]
pub enum Task {
    /// The API server.
    Server,
    /// The loop that looks for new chapters.
    NewChapters,
    /// The loop that delivers chapters.
    Notifications,
}

/// What can happen to the supervisor.
#[derive(Clone, Copy, Debug, PartialEq, Eq, Structural)]
pub enum Event {
    /// A task returned or panicked.
    Ended(Task),
    /// The interrupt signal arrived.
    Signal,
}

/// What the supervisor does.
#[derive(Clone, Copy, Debug, PartialEq, Eq, Structural)]
pub enum Command {
    /// Bring the store's schema up to date.
    Migrate,
    /// Start a task.
    Spawn(Task),
    /// Listen for the interrupt signal.
    Listen,
    /// Stop waiting and leave.
    Shutdown,
    /// Nothing.
    Ignore,
}

/// The supervisor's state: whether it is still running.
#[derive(Clone, Copy, Debug, PartialEq, Eq, Structural)]
pub struct Supervisor {
    pub running: bool,
}

/// What is done at the start, in order: the migrations, then the three tasks
/// and the listener.
pub open spec fn startup_commands() -> Seq<Command> {
    seq![
        Command::Migrate,
        Command::Spawn(Task::Server),
        Command::Spawn(Task::NewChapters),
        Command::Spawn(Task::Notifications),
        Command::Listen,
    ]
}

/// What is done on `event`: a task that ended is started again, a signal ends
/// the run, and after that nothing is started any more.
pub open spec fn reaction(running: bool, event: Event) -> (bool, Command) {
    if !running {
        (false, Command::Ignore)
    } else {
        match event {
            Event::Ended(task) => (true, Command::Spawn(task)),
            Event::Signal => (false, Command::Shutdown),
        }
    }
}

impl Supervisor {
    /// Starts the supervisor and says what to do first.
    pub fn start() -> (started: (Supervisor, Vec<Command>))
        ensures
            started.0.running,
            started.1@ == startup_commands(),
    {
        let mut commands: Vec<Command> = Vec::new();
        commands.push(Command::Migrate);
        commands.push(Command::Spawn(Task::Server));
        commands.push(Command::Spawn(Task::NewChapters));
        commands.push(Command::Spawn(Task::Notifications));
        commands.push(Command::Listen);
        (Supervisor { running: true }, commands)
    }

    /// Takes an event and says what to do about it.
    pub fn handle(&mut self, event: Event) -> (command: Command)
        ensures
            (final(self).running, command) == reaction(old(self).running, event),
    {
        if !self.running {
            return Command::Ignore;
        }
        match event {
            Event::Ended(task) => Command::Spawn(task),
            Event::Signal => {
                self.running = false;
                Command::Shutdown
            },
        }
    }
}

} // verus!
