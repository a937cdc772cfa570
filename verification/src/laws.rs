//! What holds of the reactor on every run.
//!
//! The laws speak of [`ReactorModel`], the value that the executable reactor
//! is proved to follow, so they hold of every reactor whatever its driver
//! reports.

use crate::address::is_host_port;
use crate::config::{all_addresses_valid, ServerModel};
use crate::protocol::{
    ready_listeners, resolve, Action, EventModel, Notice, ReactorModel, RegisterError,
    Registration, Stage, Step, BATCH_SIZE, NO_TIMEOUT,
};
use crate::registry::{entry_of, valid_listeners, ListenerEntry};
use crate::token::{lemma_token_round_trip, token_of};
use vstd::prelude::*;

verus! {

/// How the reactor's dealing with one ready listener ends.
pub enum Turn {
    /// The accept yielded no connection.
    AcceptFailed,
    /// A connection was accepted and the handler failed on it.
    HandlerFailed,
    /// A connection was accepted and handled.
    Handled,
}

impl Turn {
    /// The events that the driver reports in the course of the turn.
    pub open spec fn events(self) -> Seq<EventModel> {
        match self {
            Turn::AcceptFailed => seq![EventModel::AcceptFailed],
            Turn::HandlerFailed => seq![EventModel::Accepted, EventModel::HandlerFailed],
            Turn::Handled => seq![EventModel::Accepted, EventModel::Handled],
        }
    }
}

/// The events of several turns, one after the other.
pub open spec fn events_of(turns: Seq<Turn>) -> Seq<EventModel>
    decreases turns.len(),
{
    if turns.len() == 0 {
        Seq::empty()
    } else {
        events_of(turns.drop_last()) + turns.last().events()
    }
}

/// The position of a descriptor among valid listeners is the server it was
/// registered for.
pub proof fn lemma_entry_of_listener(listeners: Seq<i32>, server: int)
    requires
        valid_listeners(listeners),
        0 <= server < listeners.len(),
    ensures
        entry_of(listeners, listeners[server]) == Some(
            ListenerEntry { descriptor: listeners[server], server: server as usize },
        ),
{
    assert(listeners.contains(listeners[server]));
    let found = listeners.index_of(listeners[server]);
    assert(found == server);
}

/// A readiness event leads back to the listener it is about: the token
/// under which a listener was registered names that listener, and with it
/// the server it was bound for.
pub proof fn lemma_token_names_its_listener(listeners: Seq<i32>, server: int)
    requires
        valid_listeners(listeners),
        0 <= server < listeners.len(),
    ensures
        resolve(listeners, token_of(listeners[server])) == Some(
            ListenerEntry { descriptor: listeners[server], server: server as usize },
        ),
{
    lemma_token_round_trip(listeners[server]);
    lemma_entry_of_listener(listeners, server);
}

/// A batch of one token yields the listener that the token names, or nothing.
pub proof fn lemma_ready_listeners_of_one(listeners: Seq<i32>, token: u64)
    ensures
        ready_listeners(listeners, seq![token]) == match resolve(listeners, token) {
            Some(listener) => seq![listener],
            None => Seq::empty(),
        },
{
    let one = seq![token];
    assert(one.drop_last() =~= Seq::<u64>::empty());
    assert(one.last() == token);
    assert(ready_listeners(listeners, one.drop_last()) =~= Seq::<ListenerEntry>::empty());
    assert(ready_listeners(listeners, one) =~= match resolve(listeners, token) {
        Some(listener) => seq![listener],
        None => Seq::empty(),
    });
}

/// The ready listeners come in the order of the batch: those of the first
/// part of a batch, followed by those of the rest.
pub proof fn lemma_ready_listeners_in_order(
    listeners: Seq<i32>,
    first: Seq<u64>,
    rest: Seq<u64>,
)
    ensures
        ready_listeners(listeners, first + rest) == ready_listeners(listeners, first)
            + ready_listeners(listeners, rest),
    decreases rest.len(),
{
    if rest.len() == 0 {
        assert(first + rest =~= first);
        assert(ready_listeners(listeners, rest) =~= Seq::<ListenerEntry>::empty());
        assert(ready_listeners(listeners, first) + ready_listeners(listeners, rest)
            =~= ready_listeners(listeners, first));
    } else {
        let whole = first + rest;
        assert(whole.drop_last() =~= first + rest.drop_last());
        assert(whole.last() == rest.last());
        lemma_ready_listeners_in_order(listeners, first, rest.drop_last());
        assert(ready_listeners(listeners, whole) =~= ready_listeners(listeners, first)
            + ready_listeners(listeners, rest));
    }
}

/// No ready listener is left out: every token of a batch that names a
/// registered listener puts that listener on the agenda.
pub proof fn lemma_ready_listener_is_on_the_agenda(listeners: Seq<i32>, tokens: Seq<u64>, i: int)
    requires
        0 <= i < tokens.len(),
        resolve(listeners, tokens[i]) is Some,
    ensures
        ready_listeners(listeners, tokens).contains(resolve(listeners, tokens[i])->0),
{
    let before = tokens.take(i);
    let one = seq![tokens[i]];
    let behind = tokens.skip(i + 1);
    assert(tokens =~= (before + one) + behind);
    lemma_ready_listeners_in_order(listeners, before + one, behind);
    lemma_ready_listeners_in_order(listeners, before, one);
    lemma_ready_listeners_of_one(listeners, tokens[i]);
    let ready = ready_listeners(listeners, tokens);
    let at = ready_listeners(listeners, before).len() as int;
    assert(ready[at] == resolve(listeners, tokens[i])->0);
}

/// Nothing foreign gets on the agenda: each of the ready listeners is
/// registered, under the descriptor and for the server that its entry says.
pub proof fn lemma_agenda_holds_listeners_only(listeners: Seq<i32>, tokens: Seq<u64>, j: int)
    requires
        0 <= j < ready_listeners(listeners, tokens).len(),
    ensures
        entry_of(listeners, ready_listeners(listeners, tokens)[j].descriptor) == Some(
            ready_listeners(listeners, tokens)[j],
        ),
    decreases tokens.len(),
{
    if tokens.len() > 0 {
        let earlier = ready_listeners(listeners, tokens.drop_last());
        if j < earlier.len() {
            lemma_agenda_holds_listeners_only(listeners, tokens.drop_last(), j);
        }
    }
}

/// A reactor starts out valid.
pub proof fn lemma_initial_reactor_is_valid(servers: Seq<ServerModel>, context: i32)
    requires
        servers.len() <= usize::MAX,
        all_addresses_valid(servers),
        context != -1,
    ensures
        ReactorModel::initial(servers, context).valid(),
        ReactorModel::initial(servers, context).phase() is Initializing,
{
}

/// Registering a listener keeps the reactor valid, adds exactly that
/// listener, for the first server that had none, and changes nothing else.
pub proof fn lemma_register_keeps_valid(m: ReactorModel, descriptor: i32)
    requires
        m.valid(),
    ensures
        match m.register(descriptor) {
            Ok((next, registration)) => {
                &&& next.valid()
                &&& next.phase() is Initializing
                &&& next.listeners.len() == m.listeners.len() + 1
                &&& next.listeners[registration.listener.server as int] == descriptor
                &&& resolve(next.listeners, registration.token) == Some(registration.listener)
            },
            Err(_) => true,
        },
{
    if m.register(descriptor) is Ok {
        let next = m.register(descriptor)->Ok_0.0;
        assert forall|i: int, j: int|
            0 <= i < next.listeners.len() && 0 <= j < next.listeners.len() && i != j implies
            next.listeners[i] != next.listeners[j] by {
            if i < m.listeners.len() {
                assert(m.listeners.contains(m.listeners[i]));
            }
            if j < m.listeners.len() {
                assert(m.listeners.contains(m.listeners[j]));
            }
        }
        assert(next.agenda.len() == 0);
        lemma_token_names_its_listener(next.listeners, m.listeners.len() as int);
    }
}

/// The reactor starts to run only when every server has its listener, and
/// it is valid when it does.
pub proof fn lemma_run_keeps_valid(m: ReactorModel)
    requires
        m.valid(),
    ensures
        match m.run() {
            Ok(next) => {
                &&& next.valid()
                &&& next.phase() is Running
                &&& next.listeners == m.listeners
                &&& next.listeners.len() == m.servers.len()
            },
            Err(_) => true,
        },
{
}

/// Once the reactor runs, each server has exactly one listener: the
/// listeners are as many as the servers, the one at a server's position was
/// registered for that server and for no other, and the server's address is
/// of the form host:port.
pub proof fn lemma_running_reactor_has_one_listener_per_server(m: ReactorModel, server: int)
    requires
        m.valid(),
        m.phase() is Running,
        0 <= server < m.servers.len(),
    ensures
        m.listeners.len() == m.servers.len(),
        is_host_port(m.servers[server].address),
        m.listeners[server] >= 0,
        entry_of(m.listeners, m.listeners[server]) == Some(
            ListenerEntry { descriptor: m.listeners[server], server: server as usize },
        ),
        forall|other: int|
            0 <= other < m.servers.len() && other != server ==> m.listeners[other]
                != m.listeners[server],
{
    lemma_entry_of_listener(m.listeners, server);
}

/// Whatever the driver reports, a valid reactor stays valid and in its
/// phase, and neither its servers nor its context nor its listeners change.
/// While the reactor is initializing it takes no event at all.
pub proof fn lemma_event_keeps_phase_and_listeners(m: ReactorModel, event: EventModel)
    requires
        m.valid(),
    ensures
        m.on(event).valid(),
        m.on(event).phase() == m.phase(),
        m.on(event).servers == m.servers,
        m.on(event).context == m.context,
        m.on(event).listeners == m.listeners,
        m.phase() is Initializing ==> m.react(event) is None,
{
    match m.react(event) {
        Some((next, step)) => {
            match event {
                EventModel::Woke { count, tokens } => {
                    if count >= 0 {
                        let agenda = ready_listeners(m.listeners, tokens.take(count as int));
                        assert forall|i: int| 0 <= i < agenda.len() implies entry_of(
                            m.listeners,
                            (#[trigger] agenda[i]).descriptor,
                        ) == Some(agenda[i]) by {
                            lemma_agenda_holds_listeners_only(
                                m.listeners,
                                tokens.take(count as int),
                                i,
                            );
                        }
                    }
                },
                EventModel::Accepted => {},
                _ => {
                    let rest = m.agenda.drop_first();
                    assert forall|i: int| 0 <= i < rest.len() implies entry_of(
                        m.listeners,
                        (#[trigger] rest[i]).descriptor,
                    ) == Some(rest[i]) by {
                        assert(rest[i] == m.agenda[i + 1]);
                    }
                },
            }
        },
        None => {},
    }
}

/// Running is for good: after any events whatever, a running reactor is
/// valid and running, with the listeners it started to run with. No event
/// ends the run, and none adds or removes a listener.
pub proof fn lemma_running_is_for_good(m: ReactorModel, events: Seq<EventModel>)
    requires
        m.valid(),
        m.phase() is Running,
    ensures
        m.after(events).valid(),
        m.after(events).phase() is Running,
        m.after(events).servers == m.servers,
        m.after(events).context == m.context,
        m.after(events).listeners == m.listeners,
        forall|descriptor: i32| m.after(events).register(descriptor) is Err,
        m.after(events).run() is Err,
    decreases events.len(),
{
    if events.len() > 0 {
        lemma_running_is_for_good(m, events.drop_last());
        lemma_event_keeps_phase_and_listeners(m.after(events.drop_last()), events.last());
    }
}

/// The stage tells which action the reactor named last: to wait, to accept
/// on the first listener of the agenda, or to handle the connection
/// accepted on it.
pub proof fn lemma_stage_tells_the_action(m: ReactorModel, event: EventModel)
    requires
        m.valid(),
    ensures
        m.react(event) matches Some((next, step)) ==> step.action == match next.stage {
            Stage::Accepting => Action::Accept(next.agenda[0]),
            Stage::Handling => Action::Handle(next.agenda[0]),
            _ => Action::Wait { max_events: BATCH_SIZE, timeout: NO_TIMEOUT },
        },
{
}

/// A failed wait is noted and the reactor waits again, unchanged.
pub proof fn lemma_failed_wait_is_passed_over(m: ReactorModel, tokens: Seq<u64>)
    requires
        m.valid(),
        m.stage is Waiting,
    ensures
        m.react(EventModel::Woke { count: -1i32, tokens }) == Some(
            (
                m,
                Step {
                    notice: Some(Notice::WaitFailed),
                    action: Action::Wait { max_events: BATCH_SIZE, timeout: NO_TIMEOUT },
                },
            ),
        ),
{
}

/// A failed accept is noted and passed over: the reactor goes on with the
/// next ready listener of the batch, or waits again if there is none.
pub proof fn lemma_failed_accept_is_passed_over(m: ReactorModel)
    requires
        m.valid(),
        m.stage is Accepting,
    ensures
        m.react(EventModel::AcceptFailed) matches Some((next, step)) && {
            &&& step.notice == Some(Notice::AcceptFailed)
            &&& next.phase() is Running
            &&& next.agenda == m.agenda.drop_first()
            &&& step.action == if m.agenda.len() > 1 {
                Action::Accept(m.agenda[1])
            } else {
                Action::Wait { max_events: BATCH_SIZE, timeout: NO_TIMEOUT }
            }
        },
{
}

/// A failed handler is noted and passed over in the same way, and so the
/// connection that failed delays no other.
pub proof fn lemma_failed_handler_is_passed_over(m: ReactorModel)
    requires
        m.valid(),
        m.stage is Handling,
    ensures
        m.react(EventModel::HandlerFailed) matches Some((next, step)) && {
            &&& step.notice == Some(Notice::HandlerFailed)
            &&& next.phase() is Running
            &&& next.agenda == m.agenda.drop_first()
            &&& step.action == if m.agenda.len() > 1 {
                Action::Accept(m.agenda[1])
            } else {
                Action::Wait { max_events: BATCH_SIZE, timeout: NO_TIMEOUT }
            }
        },
{
}

/// Every batch comes to an end: each event that the reactor takes while a
/// batch is under way brings the next wait nearer, and the reactor waits
/// again exactly when nothing is outstanding.
pub proof fn lemma_batch_comes_to_an_end(m: ReactorModel, event: EventModel)
    requires
        m.valid(),
        m.outstanding() > 0,
    ensures
        match m.react(event) {
            Some((next, step)) => {
                &&& next.outstanding() < m.outstanding()
                &&& (next.outstanding() == 0 <==> step.action is Wait)
            },
            None => true,
        },
        m.stage is Accepting ==> m.react(EventModel::Accepted) is Some && m.react(
            EventModel::AcceptFailed,
        ) is Some,
        m.stage is Handling ==> m.react(EventModel::Handled) is Some && m.react(
            EventModel::HandlerFailed,
        ) is Some,
{
}

/// The events of two runs, one after the other, lead where the second run
/// leads from where the first one led.
pub proof fn lemma_after_both(m: ReactorModel, first: Seq<EventModel>, second: Seq<EventModel>)
    ensures
        m.after(first + second) == m.after(first).after(second),
    decreases second.len(),
{
    if second.len() == 0 {
        assert(first + second =~= first);
    } else {
        assert((first + second).drop_last() =~= first + second.drop_last());
        assert((first + second).last() == second.last());
        lemma_after_both(m, first, second.drop_last());
    }
}

/// One turn takes the first listener off the agenda, however it ends.
proof fn lemma_one_turn(m: ReactorModel, turn: Turn)
    requires
        m.valid(),
        m.stage is Accepting,
    ensures
        m.after(turn.events()).agenda == m.agenda.drop_first(),
        m.after(turn.events()).stage == if m.agenda.len() > 1 {
            Stage::Accepting
        } else {
            Stage::Waiting
        },
{
    let events = turn.events();
    match turn {
        Turn::AcceptFailed => {
            assert(events.drop_last() =~= Seq::<EventModel>::empty());
            assert(m.after(events.drop_last()) == m);
        },
        _ => {
            let accepted = events.drop_last();
            assert(accepted =~= seq![EventModel::Accepted]);
            assert(accepted.drop_last() =~= Seq::<EventModel>::empty());
            assert(m.after(accepted.drop_last()) == m);
            assert(m.after(accepted) == m.on(EventModel::Accepted));
        },
    }
}

/// No ready listener is starved: whichever way the turns of the listeners
/// before it end, each listener of the agenda gets its turn, in order, and
/// when all have had theirs the reactor waits again.
pub proof fn lemma_every_ready_listener_has_its_turn(m: ReactorModel, turns: Seq<Turn>)
    requires
        m.valid(),
        m.stage is Accepting,
        turns.len() <= m.agenda.len(),
    ensures
        m.after(events_of(turns)).agenda == m.agenda.skip(turns.len() as int),
        m.after(events_of(turns)).stage == if turns.len() < m.agenda.len() {
            Stage::Accepting
        } else {
            Stage::Waiting
        },
    decreases turns.len(),
{
    if turns.len() == 0 {
        assert(m.agenda.skip(0) =~= m.agenda);
    } else {
        let earlier = turns.drop_last();
        lemma_every_ready_listener_has_its_turn(m, earlier);
        let reached = m.after(events_of(earlier));
        lemma_running_is_for_good(m, events_of(earlier));
        lemma_after_both(m, events_of(earlier), turns.last().events());
        lemma_one_turn(reached, turns.last());
        assert(m.agenda.skip(earlier.len() as int).drop_first() =~= m.agenda.skip(
            turns.len() as int,
        ));
    }
}

/// With no server configured, a running reactor does nothing but wait: it
/// is waiting after any events whatever, and all it ever asks for is to wait
/// again.
pub proof fn lemma_without_servers_the_reactor_only_waits(
    m: ReactorModel,
    events: Seq<EventModel>,
    event: EventModel,
)
    requires
        m.valid(),
        m.phase() is Running,
        m.servers.len() == 0,
    ensures
        m.after(events).stage is Waiting,
        m.after(events).react(event) matches Some((_, step)) ==> step.action == (Action::Wait { max_events: BATCH_SIZE, timeout: NO_TIMEOUT }),
{
    lemma_running_is_for_good(m, events);
    let reached = m.after(events);
    assert(reached.stage is Waiting) by {
        if reached.agenda.len() > 0 {
            assert(reached.listeners.contains(reached.agenda[0].descriptor));
        }
    }
    if let EventModel::Woke { count, tokens } = event {
        if 0 <= count <= tokens.len() {
            let agenda = ready_listeners(reached.listeners, tokens.take(count as int));
            if agenda.len() > 0 {
                lemma_agenda_holds_listeners_only(
                    reached.listeners,
                    tokens.take(count as int),
                    0,
                );
                assert(reached.listeners.contains(agenda[0].descriptor));
            }
        }
    }
}

/// With no server configured there is nothing to register, and the reactor
/// can start to run at once.
pub proof fn lemma_without_servers_the_reactor_starts_at_once(context: i32, descriptor: i32)
    requires
        context != -1,
    ensures
        ReactorModel::initial(Seq::empty(), context).valid(),
        ReactorModel::initial(Seq::empty(), context).register(descriptor) == Err::<
            (ReactorModel, Registration),
            RegisterError,
        >(RegisterError::NoServerLeft),
        ReactorModel::initial(Seq::empty(), context).run() is Ok,
{
}

/// A listener that is reported ready is served in the same batch, whatever
/// becomes of the listeners reported before it: once they have had their
/// turns, whichever way each turn ended, the reactor asks for an accept on
/// that listener.
pub proof fn lemma_ready_listener_is_served(
    m: ReactorModel,
    count: i32,
    tokens: Seq<u64>,
    i: int,
    turns: Seq<Turn>,
)
    requires
        m.valid(),
        m.stage is Waiting,
        0 <= i < count <= tokens.len(),
        resolve(m.listeners, tokens[i]) is Some,
        turns.len() == ready_listeners(m.listeners, tokens.take(i)).len(),
    ensures
        ({
            let woken = m.on(EventModel::Woke { count, tokens });
            let reached = woken.after(events_of(turns));
            &&& reached.stage is Accepting
            &&& reached.agenda[0] == resolve(m.listeners, tokens[i])->0
        }),
{
    let reported = tokens.take(count as int);
    let before = reported.take(i);
    let one = seq![reported[i]];
    let behind = reported.skip(i + 1);
    assert(before =~= tokens.take(i));
    assert(reported =~= (before + one) + behind);
    lemma_ready_listeners_in_order(m.listeners, before + one, behind);
    lemma_ready_listeners_in_order(m.listeners, before, one);
    lemma_ready_listeners_of_one(m.listeners, tokens[i]);
    let agenda = ready_listeners(m.listeners, reported);
    assert(agenda[turns.len() as int] == resolve(m.listeners, tokens[i])->0);
    let woken = m.on(EventModel::Woke { count, tokens });
    lemma_event_keeps_phase_and_listeners(m, EventModel::Woke { count, tokens });
    lemma_every_ready_listener_has_its_turn(woken, turns);
}

/// As many repetitions of `cycle` as `times` says.
pub open spec fn repeated(cycle: Seq<EventModel>, times: nat) -> Seq<EventModel>
    decreases times,
{
    if times == 0 {
        Seq::empty()
    } else {
        repeated(cycle, (times - 1) as nat) + cycle
    }
}

/// What the driver reports when a listener is reported ready and has no
/// connection pending after all: a wake with the listener's token, and a
/// failed accept.
pub open spec fn spurious_readiness(token: u64) -> Seq<EventModel> {
    seq![EventModel::Woke { count: 1, tokens: seq![token] }, EventModel::AcceptFailed]
}

/// Readiness with nothing behind it, however often repeated, leaves a
/// waiting reactor as it was: waiting, and ready for the next wait call.
pub proof fn lemma_spurious_readiness_changes_nothing(m: ReactorModel, token: u64, times: nat)
    requires
        m.valid(),
        m.stage is Waiting,
    ensures
        m.after(repeated(spurious_readiness(token), times)) == m,
    decreases times,
{
    if times > 0 {
        let earlier = repeated(spurious_readiness(token), (times - 1) as nat);
        lemma_spurious_readiness_changes_nothing(m, token, (times - 1) as nat);
        lemma_after_both(m, earlier, spurious_readiness(token));
        let cycle = spurious_readiness(token);
        let woke = cycle.drop_last();
        assert(woke =~= seq![EventModel::Woke { count: 1, tokens: seq![token] }]);
        assert(woke.drop_last() =~= Seq::<EventModel>::empty());
        assert(m.after(woke.drop_last()) == m);
        assert(seq![token].take(1) =~= seq![token]);
        lemma_ready_listeners_of_one(m.listeners, token);
        let woken = m.after(woke);
        assert(woken == m.on(EventModel::Woke { count: 1, tokens: seq![token] }));
        assert(m.after(cycle) == woken.on(EventModel::AcceptFailed));
        assert(m.after(cycle).agenda =~= m.agenda);
    }
}

} // verus!
