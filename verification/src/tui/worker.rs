//! The background worker that polls service status.
use crate::container::ServiceStatus;
use vstd::prelude::*;

verus! {

/// Seconds between two polls of the service status.
pub const STATUS_POLL_SECONDS: u64 = 2;

/// What the dashboard asks of the worker.
#[derive(Debug, PartialEq, Eq)]
pub enum WorkerCommand {
    /// Poll these services from now on.
    SetServices(Vec<String>),
    /// Poll now.
    PokeServiceStatus,
    /// Stop.
    Shutdown,
}

/// What the worker reports.
#[derive(Debug, PartialEq, Eq)]
pub enum WorkerSnapshot {
    /// The status of one service.
    ServiceStatus { name: String, status: ServiceStatus },
}

/// What woke the worker.
#[derive(Debug, PartialEq, Eq)]
pub enum WorkerEvent {
    /// A command, or the end of the command channel.
    Command(Option<WorkerCommand>),
    /// The poll interval elapsed.
    Tick,
}

/// What the worker does next.
#[derive(Debug, Clone, Copy, PartialEq, Eq, Structural)]
pub enum WorkerStep {
    /// Wait for the next event.
    Wait,
    /// Poll the current services, then wait.
    Poll,
    /// Poll the current services, then stop if nobody reads the reports.
    PollAndCheck,
    /// Stop.
    Stop,
}

/// The services that the worker polls.
#[derive(Debug, PartialEq, Eq)]
pub struct WorkerState {
    pub services: Vec<String>,
}

impl WorkerState {
    /// Takes in one event and says what to do next. Only `SetServices` changes
    /// which services are polled.
    pub fn step(&mut self, event: WorkerEvent) -> (res: WorkerStep)
        ensures
            match event {
                WorkerEvent::Command(Some(WorkerCommand::SetServices(s))) => res == WorkerStep::Wait
                    && final(self).services == s,
                WorkerEvent::Command(Some(WorkerCommand::PokeServiceStatus)) => res
                    == WorkerStep::Poll && *final(self) == *old(self),
                WorkerEvent::Command(Some(WorkerCommand::Shutdown)) => res == WorkerStep::Stop
                    && *final(self) == *old(self),
                WorkerEvent::Command(None) => res == WorkerStep::Stop && *final(self)
                    == *old(self),
                WorkerEvent::Tick => res == WorkerStep::PollAndCheck && *final(self) == *old(self),
            },
    {
        match event {
            WorkerEvent::Command(Some(WorkerCommand::SetServices(s))) => {
                self.services = s;
                WorkerStep::Wait
            },
            WorkerEvent::Command(Some(WorkerCommand::PokeServiceStatus)) => WorkerStep::Poll,
            WorkerEvent::Command(Some(WorkerCommand::Shutdown)) => WorkerStep::Stop,
            WorkerEvent::Command(None) => WorkerStep::Stop,
            WorkerEvent::Tick => WorkerStep::PollAndCheck,
        }
    }
}

} // verus!
