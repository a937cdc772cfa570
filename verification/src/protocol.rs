//! The reactor as a state machine: what it asks of its driver, what the
//! driver reports back, and how each report changes its state.
//!
//! [`ReactorModel`] is the state; `register`, `run` and `react` are its
//! transitions. The executable reactor follows them step by step.

use crate::config::{all_addresses_valid, ServerModel};
use crate::registry::{entry_of, valid_listeners, ListenerEntry};
use crate::token::{descriptor_of, token_of};
use vstd::prelude::*;

verus! {

/// The most readiness events that one wait call may report.
pub const BATCH_SIZE: usize = 10;

/// The timeout of a wait call that blocks until there is readiness to report.
pub const NO_TIMEOUT: i32 = -1;

/// The two states of a reactor's life. There is no way back from `Running`.
#[derive(Clone, Copy, Debug, PartialEq, Eq, Structural)]
pub enum Phase {
    /// Listeners are being registered.
    Initializing,
    /// Every server has its listener and the wait/dispatch cycle goes on.
    Running,
}

/// What the reactor is waiting for.
#[derive(Clone, Copy, Debug, PartialEq, Eq, Structural)]
pub enum Stage {
    /// For the listeners to be registered.
    Initializing,
    /// For the notification context to report readiness.
    Waiting,
    /// For the outcome of an accept on a ready listener.
    Accepting,
    /// For the outcome of the handler on an accepted connection.
    Handling,
}

/// What a listener is registered for with the notification context.
#[derive(Clone, Copy, Debug, PartialEq, Eq, Structural)]
pub enum Interest {
    /// The listener can be read from: a connection is pending.
    Readable,
}

/// The event mask by which the notification context knows an interest.
pub open spec fn mask_of(interest: Interest) -> u32 {
    match interest {
        Interest::Readable => 0x1,
    }
}

/// The constant `libc::EPOLLIN`, as an event mask. Its value is 0x1.
#[verifier::external_body]
fn epollin() -> (mask: u32)
    ensures
        mask == 0x1,
{
    libc::EPOLLIN as u32
}

impl Interest {
    /// The event mask to register a listener with.
    pub fn mask(self) -> (mask: u32)
        ensures
            mask == mask_of(self),
    {
        match self {
            Interest::Readable => epollin(),
        }
    }
}

/// What to tell the notification context about a newly registered listener.
#[derive(Clone, Copy, Debug, PartialEq, Eq, Structural)]
pub struct Registration {
    /// The listener and the server it was bound for.
    pub listener: ListenerEntry,
    /// The readiness to be notified of.
    pub interest: Interest,
    /// The token that the notifications about this listener are to carry.
    pub token: u64,
}

/// What the driver is to do next.
#[derive(Clone, Copy, Debug, PartialEq, Eq, Structural)]
pub enum Action {
    /// Block on the notification context until it reports readiness, for at
    /// most `max_events` events, or until `timeout` milliseconds are over,
    /// where a negative timeout is none at all.
    Wait { max_events: usize, timeout: i32 },
    /// Accept one connection on this listener, without blocking.
    Accept(ListenerEntry),
    /// Run the connection handler on the connection just accepted on this
    /// listener, with the configuration of its server.
    Handle(ListenerEntry),
}

/// Something for the driver to put into the log.
#[derive(Clone, Copy, Debug, PartialEq, Eq, Structural)]
pub enum Notice {
    /// The wait call failed.
    WaitFailed,
    /// The accept failed: perhaps no connection was pending after all.
    AcceptFailed,
    /// The handler failed on the connection.
    HandlerFailed,
    /// The handler is done with the connection.
    Handled,
}

/// The reactor's answer to an event.
#[derive(Clone, Copy, Debug, PartialEq, Eq, Structural)]
pub struct Step {
    /// What to log of the event, if anything.
    pub notice: Option<Notice>,
    /// What to do next.
    pub action: Action,
}

/// What came of the action that the driver carried out.
#[derive(Debug, PartialEq, Eq)]
pub enum Event {
    /// The wait call returned `count`: -1 if it failed, else the number of
    /// events it reported, whose tokens are the first `count` of `tokens`,
    /// in the order reported.
    Woke { count: i32, tokens: Vec<u64> },
    /// The accept yielded a connection.
    Accepted,
    /// The accept yielded none.
    AcceptFailed,
    /// The handler returned normally.
    Handled,
    /// The handler returned an error.
    HandlerFailed,
}

/// The mathematical value of an [`Event`].
pub enum EventModel {
    Woke { count: i32, tokens: Seq<u64> },
    Accepted,
    AcceptFailed,
    Handled,
    HandlerFailed,
}

impl View for Event {
    type V = EventModel;

    open spec fn view(&self) -> EventModel {
        match self {
            Event::Woke { count, tokens } => EventModel::Woke { count: *count, tokens: tokens@ },
            Event::Accepted => EventModel::Accepted,
            Event::AcceptFailed => EventModel::AcceptFailed,
            Event::Handled => EventModel::Handled,
            Event::HandlerFailed => EventModel::HandlerFailed,
        }
    }
}

/// Why no reactor was made.
#[derive(Clone, Copy, Debug, PartialEq, Eq, Structural)]
pub enum InitError {
    /// The address of the server at this position is not of the form host:port.
    InvalidAddress { server: usize },
    /// The notification context could not be created.
    NoContext,
}

/// Why a listener was not registered.
#[derive(Clone, Copy, Debug, PartialEq, Eq, Structural)]
pub enum RegisterError {
    /// The reactor is running: its listeners are settled.
    Running,
    /// Every server has its listener already.
    NoServerLeft,
    /// The descriptor is negative, so it names no open socket.
    InvalidDescriptor,
    /// The descriptor is registered already.
    AlreadyRegistered,
}

/// Why the reactor did not start to run.
#[derive(Clone, Copy, Debug, PartialEq, Eq, Structural)]
pub enum RunError {
    /// The reactor is running already.
    Running,
    /// Some server has no listener yet.
    ListenersMissing,
}

/// The listener that a token names, if it is one of `listeners`.
pub open spec fn resolve(listeners: Seq<i32>, token: u64) -> Option<ListenerEntry> {
    entry_of(listeners, descriptor_of(token))
}

/// The listeners that the tokens of a batch name, in the order of the batch.
/// A token that names none of `listeners` is passed over.
pub open spec fn ready_listeners(listeners: Seq<i32>, tokens: Seq<u64>) -> Seq<ListenerEntry> {
    tokens.filter_map(|token: u64| resolve(listeners, token))
}

/// The mathematical value of a [`crate::reactor::Reactor`].
pub struct ReactorModel {
    /// The configured servers.
    pub servers: Seq<ServerModel>,
    /// The descriptor of the notification context.
    pub context: i32,
    /// The descriptors of the registered listeners: at position `k` that of
    /// the listener of server `k`.
    pub listeners: Seq<i32>,
    /// What the reactor is waiting for.
    pub stage: Stage,
    /// The ready listeners of the current batch that are not done with yet.
    /// The first is the one being accepted on or handled.
    pub agenda: Seq<ListenerEntry>,
}

impl ReactorModel {
    /// The phase that the stage belongs to.
    pub open spec fn phase(self) -> Phase {
        if self.stage is Initializing {
            Phase::Initializing
        } else {
            Phase::Running
        }
    }

    /// What holds of every reactor.
    pub open spec fn valid(self) -> bool {
        &&& self.context != -1
        &&& self.servers.len() <= usize::MAX
        &&& all_addresses_valid(self.servers)
        &&& valid_listeners(self.listeners)
        &&& self.listeners.len() <= self.servers.len()
        &&& (self.phase() is Running ==> self.listeners.len() == self.servers.len())
        &&& (self.stage is Initializing || self.stage is Waiting ==> self.agenda.len() == 0)
        &&& (self.stage is Accepting || self.stage is Handling ==> self.agenda.len() > 0)
        &&& forall|i: int|
            0 <= i < self.agenda.len() ==> entry_of(
                self.listeners,
                (#[trigger] self.agenda[i]).descriptor,
            ) == Some(self.agenda[i])
    }

    /// The reactor that `initialize` makes of valid arguments.
    pub open spec fn initial(servers: Seq<ServerModel>, context: i32) -> ReactorModel {
        ReactorModel {
            servers,
            context,
            listeners: Seq::empty(),
            stage: Stage::Initializing,
            agenda: Seq::empty(),
        }
    }

    /// What registering `descriptor` comes to: the reactor afterwards and what
    /// to tell the notification context, or the reason why not.
    pub open spec fn register(self, descriptor: i32) -> Result<
        (ReactorModel, Registration),
        RegisterError,
    > {
        if !(self.stage is Initializing) {
            Err(RegisterError::Running)
        } else if self.listeners.len() >= self.servers.len() {
            Err(RegisterError::NoServerLeft)
        } else if descriptor < 0 {
            Err(RegisterError::InvalidDescriptor)
        } else if self.listeners.contains(descriptor) {
            Err(RegisterError::AlreadyRegistered)
        } else {
            Ok(
                (
                    ReactorModel { listeners: self.listeners.push(descriptor), ..self },
                    Registration {
                        listener: ListenerEntry {
                            descriptor,
                            server: self.listeners.len() as usize,
                        },
                        interest: Interest::Readable,
                        token: token_of(descriptor),
                    },
                ),
            )
        }
    }

    /// What starting to run comes to: the reactor afterwards, or the reason
    /// why not.
    pub open spec fn run(self) -> Result<ReactorModel, RunError> {
        if !(self.stage is Initializing) {
            Err(RunError::Running)
        } else if self.listeners.len() < self.servers.len() {
            Err(RunError::ListenersMissing)
        } else {
            Ok(ReactorModel { stage: Stage::Waiting, ..self })
        }
    }

    /// Goes on with what is left of a batch: accepts on the first listener
    /// of `agenda`, or waits again when none is left.
    pub open spec fn proceed(self, agenda: Seq<ListenerEntry>, notice: Option<Notice>) -> (
        ReactorModel,
        Step,
    ) {
        if agenda.len() == 0 {
            (
                ReactorModel { stage: Stage::Waiting, agenda, ..self },
                Step { notice, action: Action::Wait { max_events: BATCH_SIZE, timeout: NO_TIMEOUT } },
            )
        } else {
            (
                ReactorModel { stage: Stage::Accepting, agenda, ..self },
                Step { notice, action: Action::Accept(agenda[0]) },
            )
        }
    }

    /// The reactor's answer to `event`, with the reactor afterwards. There is
    /// none where the event is not an outcome of the action that the reactor
    /// named last, nor where its count is neither -1 nor from 0 to the
    /// number of tokens that it holds.
    pub open spec fn react(self, event: EventModel) -> Option<(ReactorModel, Step)> {
        match (self.stage, event) {
            (Stage::Waiting, EventModel::Woke { count, tokens }) => {
                if count == -1 {
                    Some(
                        (
                            self,
                            Step {
                                notice: Some(Notice::WaitFailed),
                                action: Action::Wait { max_events: BATCH_SIZE, timeout: NO_TIMEOUT },
                            },
                        ),
                    )
                } else if 0 <= count <= tokens.len() {
                    Some(
                        self.proceed(
                            ready_listeners(self.listeners, tokens.take(count as int)),
                            None,
                        ),
                    )
                } else {
                    None
                }
            },
            (Stage::Accepting, EventModel::Accepted) => Some(
                (
                    ReactorModel { stage: Stage::Handling, ..self },
                    Step { notice: None, action: Action::Handle(self.agenda[0]) },
                ),
            ),
            (Stage::Accepting, EventModel::AcceptFailed) => Some(
                self.proceed(self.agenda.drop_first(), Some(Notice::AcceptFailed)),
            ),
            (Stage::Handling, EventModel::Handled) => Some(
                self.proceed(self.agenda.drop_first(), Some(Notice::Handled)),
            ),
            (Stage::Handling, EventModel::HandlerFailed) => Some(
                self.proceed(self.agenda.drop_first(), Some(Notice::HandlerFailed)),
            ),
            _ => None,
        }
    }

    /// The reactor after `event`: as `react` says where the event is taken,
    /// unchanged where it is not.
    pub open spec fn on(self, event: EventModel) -> ReactorModel {
        match self.react(event) {
            Some((next, _)) => next,
            None => self,
        }
    }

    /// The reactor after each of `events` in turn.
    pub open spec fn after(self, events: Seq<EventModel>) -> ReactorModel
        decreases events.len(),
    {
        if events.len() == 0 {
            self
        } else {
            self.after(events.drop_last()).on(events.last())
        }
    }

    /// A bound on the events that the driver still has to report before the
    /// reactor waits again: two for each listener of the agenda, an accept
    /// and a handler, less the accept that has been reported.
    pub open spec fn outstanding(self) -> nat {
        match self.stage {
            Stage::Initializing | Stage::Waiting => 0,
            Stage::Accepting => 2 * self.agenda.len(),
            Stage::Handling => (2 * self.agenda.len() - 1) as nat,
        }
    }
}

} // verus!
