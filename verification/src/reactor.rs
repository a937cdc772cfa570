//! The reactor: one notification context, many listeners, one thread.
//!
//! The reactor decides and its driver acts. While the reactor is
//! initializing, the driver binds a listener for each server, in the order of
//! the configuration, and has each one registered. Once running, the reactor
//! names one [`Action`] at a time; the driver carries it out and reports the
//! [`Event`] that came of it to [`Reactor::step`], which names the next one.
//! Nothing that happens to a single connection ends the run.

use crate::config::{all_addresses_valid, first_invalid_address, Config, ConfigError};
use crate::protocol::{
    ready_listeners, resolve, Action, Event, InitError, Interest, Notice, Phase, ReactorModel,
    RegisterError, Registration, RunError, Stage, Step, BATCH_SIZE, NO_TIMEOUT,
};
use crate::registry::{entry_of, ListenerEntry, ListenerRegistry, RegistryError};
use crate::token::{descriptor_for, token_for};
use vstd::prelude::*;

verus! {

/// What changes while the reactor runs: the stage, and the ready listeners
/// of the current batch, of which the first `done` are done with.
struct Progress {
    stage: Stage,
    batch: Vec<ListenerEntry>,
    done: usize,
}

impl Progress {
    fn initializing() -> (progress: Progress)
        ensures
            progress.stage is Initializing,
            progress.batch@.len() == 0,
            progress.done == 0,
    {
        Progress { stage: Stage::Initializing, batch: Vec::new(), done: 0 }
    }

    fn waiting() -> (progress: Progress)
        ensures
            progress.stage is Waiting,
            progress.batch@.len() == 0,
            progress.done == 0,
    {
        Progress { stage: Stage::Waiting, batch: Vec::new(), done: 0 }
    }
}

/// The reactor: the configuration it serves, the notification context it
/// waits on, the listeners registered with it, and how far it has come with
/// the batch of ready listeners at hand.
///
/// Its view, a [`ReactorModel`], is valid at all times.
pub struct Reactor {
    config: Config,
    context: i32,
    registry: ListenerRegistry,
    progress: Progress,
}

impl View for Reactor {
    type V = ReactorModel;

    closed spec fn view(&self) -> ReactorModel {
        ReactorModel {
            servers: self.config@,
            context: self.context,
            listeners: self.registry@,
            stage: self.progress.stage,
            agenda: self.progress.batch@.skip(self.progress.done as int),
        }
    }
}

impl Reactor {
    #[verifier::type_invariant]
    spec fn inv(self) -> bool {
        &&& self@.valid()
        &&& self.progress.done <= self.progress.batch@.len()
    }

    /// Makes a reactor for the servers of `config` around the notification
    /// context `context`, which is what creating the context returned: its
    /// descriptor, or -1 on failure.
    ///
    /// The configuration is judged first: no reactor is made, and so no
    /// listener can be registered, unless every address is of the form
    /// host:port.
    pub fn initialize(config: Config, context: i32) -> (made: Result<Reactor, InitError>)
        ensures
            made is Ok <==> all_addresses_valid(config@) && context != -1,
            match made {
                Ok(reactor) => {
                    &&& reactor@ == ReactorModel::initial(config@, context)
                    &&& reactor@.valid()
                },
                Err(InitError::InvalidAddress { server }) => first_invalid_address(
                    config@,
                    server as int,
                ),
                Err(InitError::NoContext) => all_addresses_valid(config@) && context == -1,
            },
    {
        match config.validate() {
            Err(ConfigError::InvalidAddress { server }) => {
                return Err(InitError::InvalidAddress { server });
            },
            Ok(()) => {},
        }
        if context == -1 {
            return Err(InitError::NoContext);
        }
        assert(config.servers.len() <= usize::MAX);
        let reactor = Reactor {
            config,
            context,
            registry: ListenerRegistry::new(),
            progress: Progress::initializing(),
        };
        assert(reactor@.agenda =~= Seq::empty());
        Ok(reactor)
    }

    /// Registers the listener with descriptor `descriptor` for the next
    /// server that has none yet. The listener must be bound and in
    /// non-blocking mode: the reactor will have it accepted on without
    /// knowing more than that it was reported ready.
    ///
    /// On success the driver is to add the listener to the notification
    /// context as the registration says.
    pub fn register(&mut self, descriptor: i32) -> (outcome: Result<Registration, RegisterError>)
        ensures
            final(self)@.valid(),
            match old(self)@.register(descriptor) {
                Ok((next, registration)) => {
                    &&& final(self)@ == next
                    &&& outcome == Ok::<Registration, RegisterError>(registration)
                },
                Err(error) => {
                    &&& final(self)@ == old(self)@
                    &&& outcome == Err::<Registration, RegisterError>(error)
                },
            },
    {
        proof {
            use_type_invariant(&*self);
        }
        match self.progress.stage {
            Stage::Initializing => {},
            _ => {
                return Err(RegisterError::Running);
            },
        }
        if self.registry.len() >= self.config.servers.len() {
            return Err(RegisterError::NoServerLeft);
        }
        let mut registry = ListenerRegistry::new();
        std::mem::swap(&mut registry, &mut self.registry);
        let inserted = registry.insert(descriptor);
        self.registry = registry;
        match inserted {
            Ok(listener) => Ok(
                Registration {
                    listener,
                    interest: Interest::Readable,
                    token: token_for(descriptor),
                },
            ),
            Err(RegistryError::InvalidDescriptor) => Err(RegisterError::InvalidDescriptor),
            Err(RegistryError::AlreadyRegistered) => Err(RegisterError::AlreadyRegistered),
        }
    }

    /// Starts the wait/dispatch cycle, once every server has its listener,
    /// and names the first action: to wait. From here on the listeners stay
    /// as they are.
    pub fn run(&mut self) -> (outcome: Result<Action, RunError>)
        ensures
            final(self)@.valid(),
            match old(self)@.run() {
                Ok(next) => {
                    &&& final(self)@ == next
                    &&& outcome == Ok::<Action, RunError>(Action::Wait { max_events: BATCH_SIZE, timeout: NO_TIMEOUT })
                },
                Err(error) => {
                    &&& final(self)@ == old(self)@
                    &&& outcome == Err::<Action, RunError>(error)
                },
            },
    {
        proof {
            use_type_invariant(&*self);
        }
        match self.progress.stage {
            Stage::Initializing => {},
            _ => {
                return Err(RunError::Running);
            },
        }
        if self.registry.len() < self.config.servers.len() {
            return Err(RunError::ListenersMissing);
        }
        self.progress = Progress::waiting();
        assert(final(self)@.agenda =~= old(self)@.agenda);
        Ok(Action::Wait { max_events: BATCH_SIZE, timeout: NO_TIMEOUT })
    }

    /// Takes the outcome of the action named last and names the next one.
    ///
    /// A failed wait, a failed accept and a failed handler are each noted and
    /// passed over: the reactor goes on with the next ready listener of the
    /// batch, or waits again. Tokens that name no registered listener are
    /// ignored. An event that is no outcome of the action named last, or
    /// whose count is neither -1 nor from 0 to the number of tokens that it
    /// holds, is not taken: the answer is `None` and the reactor is as it
    /// was.
    pub fn step(&mut self, event: Event) -> (answer: Option<Step>)
        ensures
            final(self)@.valid(),
            match old(self)@.react(event@) {
                Some((next, step)) => final(self)@ == next && answer == Some(step),
                None => final(self)@ == old(self)@ && answer is None,
            },
    {
        proof {
            use_type_invariant(&*self);
        }
        match (self.progress.stage, event) {
            (Stage::Waiting, Event::Woke { count, tokens }) => {
                if count == -1 {
                    return Some(
                        Step {
                            notice: Some(Notice::WaitFailed),
                            action: Action::Wait { max_events: BATCH_SIZE, timeout: NO_TIMEOUT },
                        },
                    );
                }
                if count < 0 {
                    return None;
                }
                let reported: usize = count as usize;
                if reported > tokens.len() {
                    return None;
                }
                let batch = self.ready(&tokens, reported);
                assert(batch@.skip(0) =~= batch@);
                Some(self.proceed(batch, 0, None))
            },
            (Stage::Accepting, Event::Accepted) => {
                let mut progress = Progress::waiting();
                std::mem::swap(&mut progress, &mut self.progress);
                let listener = progress.batch[progress.done];
                let handling =
                    Progress { stage: Stage::Handling, batch: progress.batch, done: progress.done };
                self.progress = handling;
                Some(Step { notice: None, action: Action::Handle(listener) })
            },
            (Stage::Accepting, Event::AcceptFailed) => Some(
                self.advance(Some(Notice::AcceptFailed)),
            ),
            (Stage::Handling, Event::Handled) => Some(self.advance(Some(Notice::Handled))),
            (Stage::Handling, Event::HandlerFailed) => Some(
                self.advance(Some(Notice::HandlerFailed)),
            ),
            _ => None,
        }
    }

    /// Looks up the listeners that the first `count` of `tokens` name.
    fn ready(&self, tokens: &Vec<u64>, count: usize) -> (batch: Vec<ListenerEntry>)
        requires
            count <= tokens@.len(),
        ensures
            batch@ == ready_listeners(self@.listeners, tokens@.take(count as int)),
            forall|i: int|
                0 <= i < batch@.len() ==> entry_of(
                    self@.listeners,
                    (#[trigger] batch@[i]).descriptor,
                ) == Some(batch@[i]),
    {
        let ghost reported = tokens@.take(count as int);
        let mut batch: Vec<ListenerEntry> = Vec::new();
        let mut at: usize = 0;
        while at < count
            invariant
                at <= count <= tokens@.len(),
                reported == tokens@.take(count as int),
                batch@ == ready_listeners(self@.listeners, reported.take(at as int)),
                forall|i: int|
                    0 <= i < batch@.len() ==> entry_of(
                        self@.listeners,
                        (#[trigger] batch@[i]).descriptor,
                    ) == Some(batch@[i]),
            decreases count - at,
        {
            assert(reported.take(at + 1).drop_last() == reported.take(at as int));
            assert(reported.take(at + 1).last() == tokens@[at as int]);
            match self.registry.lookup(descriptor_for(tokens[at])) {
                Some(listener) => {
                    batch.push(listener);
                },
                None => {},
            }
            at = at + 1;
        }
        assert(reported.take(at as int) == reported);
        batch
    }

    /// Goes on with `batch`, of which the first `done` listeners are done with.
    fn proceed(&mut self, batch: Vec<ListenerEntry>, done: usize, notice: Option<Notice>) -> (step:
        Step)
        requires
            old(self)@.phase() is Running,
            done <= batch@.len(),
            forall|i: int|
                done <= i < batch@.len() ==> entry_of(
                    old(self)@.listeners,
                    (#[trigger] batch@[i]).descriptor,
                ) == Some(batch@[i]),
        ensures
            final(self)@.valid(),
            (final(self)@, step) == old(self)@.proceed(batch@.skip(done as int), notice),
    {
        proof {
            use_type_invariant(&*self);
        }
        if done == batch.len() {
            self.progress = Progress::waiting();
            assert(final(self)@.agenda =~= batch@.skip(done as int));
            Step { notice, action: Action::Wait { max_events: BATCH_SIZE, timeout: NO_TIMEOUT } }
        } else {
            let listener = batch[done];
            self.progress = Progress { stage: Stage::Accepting, batch, done };
            Step { notice, action: Action::Accept(listener) }
        }
    }

    /// Leaves the first listener of the agenda behind and goes on with the rest.
    fn advance(&mut self, notice: Option<Notice>) -> (step: Step)
        requires
            old(self)@.stage is Accepting || old(self)@.stage is Handling,
        ensures
            final(self)@.valid(),
            (final(self)@, step) == old(self)@.proceed(old(self)@.agenda.drop_first(), notice),
    {
        proof {
            use_type_invariant(&*self);
        }
        let mut progress = Progress::waiting();
        std::mem::swap(&mut progress, &mut self.progress);
        let ghost agenda = progress.batch@.skip(progress.done as int);
        assert(agenda.drop_first() =~= progress.batch@.skip(progress.done + 1));
        assert forall|i: int| progress.done < i < progress.batch@.len() implies entry_of(
            old(self)@.listeners,
            (#[trigger] progress.batch@[i]).descriptor,
        ) == Some(progress.batch@[i]) by {
            assert(progress.batch@[i] == agenda[i - progress.done]);
        }
        assert(progress.done < progress.batch.len());
        self.proceed(progress.batch, progress.done + 1, notice)
    }

    /// Finds the listener that the token of a readiness event names. There
    /// is none where the token is stale or foreign.
    pub fn resolve(&self, token: u64) -> (found: Option<ListenerEntry>)
        ensures
            found == resolve(self@.listeners, token),
    {
        self.registry.lookup(descriptor_for(token))
    }

    /// The server that is to get its listener next, while there is one.
    pub fn next_server(&self) -> (server: Option<usize>)
        ensures
            server == if self@.stage is Initializing && self@.listeners.len()
                < self@.servers.len() {
                Some(self@.listeners.len() as usize)
            } else {
                None
            },
    {
        proof {
            use_type_invariant(self);
        }
        match self.progress.stage {
            Stage::Initializing => {
                let registered = self.registry.len();
                if registered < self.config.servers.len() {
                    Some(registered)
                } else {
                    None
                }
            },
            _ => None,
        }
    }

    /// Whether the reactor is initializing or running.
    pub fn phase(&self) -> (phase: Phase)
        ensures
            phase == self@.phase(),
            self@.valid(),
    {
        proof {
            use_type_invariant(self);
        }
        match self.progress.stage {
            Stage::Initializing => Phase::Initializing,
            _ => Phase::Running,
        }
    }

    /// What the reactor is waiting for.
    pub fn stage(&self) -> (stage: Stage)
        ensures
            stage == self@.stage,
            self@.valid(),
    {
        proof {
            use_type_invariant(self);
        }
        self.progress.stage
    }

    /// The descriptor of the notification context.
    pub fn context(&self) -> (context: i32)
        ensures
            context == self@.context,
            context != -1,
    {
        proof {
            use_type_invariant(self);
        }
        self.context
    }

    /// The configuration that the reactor was made for.
    pub fn config(&self) -> (config: &Config)
        ensures
            config@ == self@.servers,
            all_addresses_valid(config@),
    {
        proof {
            use_type_invariant(self);
        }
        &self.config
    }
}

} // verus!
