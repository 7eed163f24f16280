//! The life of a connection that is made anew whenever it is lost.
use vstd::prelude::*;

use crate::builder::ConnParams;
use crate::cmd::TvCmd;
use crate::conn_task::ConnExitStatus;
use crate::error::TvError;

verus! {

/// How long the connection rests after a registration without an answer, in seconds.
pub const PAIRING_BACKOFF_SECS: u64 = 10;

/// Where the connection stands.
#[derive(Clone, Copy, Debug, PartialEq, Eq, Structural)]
pub enum Phase {
    /// It is being made.
    Connecting,
    /// It is there, and its loop is being started.
    Starting,
    /// Its loop runs, and the client is registered with the TV.
    Pairing,
    /// The registration was not answered.
    BackingOff,
    /// It is being closed, since the registration was not answered.
    Closing,
    /// It goes on until it ends by itself.
    Running,
    /// It ended and is not made anew.
    Finished,
}

/// What can happen to the connection.
#[derive(Clone, Copy, Debug, PartialEq, Eq, Structural)]
pub enum LinkEvent {
    Connected,
    ConnectFailed,
    Started,
    /// The registration was answered: by whatever response, or by the news that the connection closed.
    Paired,
    /// The registration was not answered.
    PairingFailed,
    Slept,
    CloseSent,
    /// The connection ended and is to be made anew.
    Lost,
    /// The connection ended for good.
    Ended,
}

/// What is done next.
#[derive(Clone, Copy, Debug, PartialEq, Eq, Structural)]
pub enum LinkAction {
    /// Make a connection.
    Connect,
    /// Start the connection's loop.
    Start,
    /// Send the command that registers the client with the TV, and wait for its answer.
    Pair,
    /// Wait so many seconds.
    Sleep(u64),
    /// Ask the connection's loop to end.
    Close,
    /// Wait for the connection's loop to end.
    AwaitExit,
    /// Nothing more.
    Stop,
}

impl Phase {
    /// Whether an event can happen in a phase.
    pub open spec fn expects(self, event: LinkEvent) -> bool {
        match self {
            Phase::Connecting => event is Connected || event is ConnectFailed,
            Phase::Starting => event is Started,
            Phase::Pairing => event is Paired || event is PairingFailed,
            Phase::BackingOff => event is Slept,
            Phase::Closing => event is CloseSent,
            Phase::Running => event is Lost || event is Ended,
            Phase::Finished => false,
        }
    }

    /// What is done in a phase.
    pub open spec fn action(self) -> LinkAction {
        match self {
            Phase::Connecting => LinkAction::Connect,
            Phase::Starting => LinkAction::Start,
            Phase::Pairing => LinkAction::Pair,
            Phase::BackingOff => LinkAction::Sleep(PAIRING_BACKOFF_SECS),
            Phase::Closing => LinkAction::Close,
            Phase::Running => LinkAction::AwaitExit,
            Phase::Finished => LinkAction::Stop,
        }
    }
}

/// The phase that an event leads to.
pub open spec fn phase_after(event: LinkEvent) -> Phase {
    match event {
        LinkEvent::Connected => Phase::Starting,
        LinkEvent::ConnectFailed => Phase::Connecting,
        LinkEvent::Started => Phase::Pairing,
        LinkEvent::Paired => Phase::Running,
        LinkEvent::PairingFailed => Phase::BackingOff,
        LinkEvent::Slept => Phase::Closing,
        LinkEvent::CloseSent => Phase::Running,
        LinkEvent::Lost => Phase::Connecting,
        LinkEvent::Ended => Phase::Finished,
    }
}

/// The state of a connection.
#[verifier::ext_equal]
pub struct LinkState<W> {
    /// What every attempt to connect goes by.
    pub params: ConnParams,
    pub phase: Phase,
    /// Whether commands can be sent.
    pub connected: bool,
    /// Those who wait until commands can be sent, in the order in which they came.
    pub waiters: Seq<W>,
}

impl<W> LinkState<W> {
    /// Nobody waits for what is there already, and commands go out only on a connection on
    /// which the registration was answered.
    pub open spec fn coherent(self) -> bool {
        &&& self.connected ==> self.waiters.len() == 0
        &&& self.connected ==> self.phase is Running || self.phase is Finished
    }

    /// The state after an event.
    pub open spec fn after(self, event: LinkEvent) -> LinkState<W> {
        LinkState {
            phase: phase_after(event),
            connected: match event {
                LinkEvent::Paired => true,
                LinkEvent::Lost => false,
                _ => self.connected,
            },
            waiters: if event is Paired {
                Seq::empty()
            } else {
                self.waiters
            },
            ..self
        }
    }

    /// Those who need not wait any more after an event.
    pub open spec fn released(self, event: LinkEvent) -> Seq<W> {
        if event is Paired {
            self.waiters
        } else {
            Seq::empty()
        }
    }

    /// The state after somebody came to wait.
    pub open spec fn after_wait(self, waiter: W) -> LinkState<W> {
        if self.connected {
            self
        } else {
            LinkState { waiters: self.waiters.push(waiter), ..self }
        }
    }
}

/// A connection that is made anew whenever it is lost.
///
/// `W` is how those who wait for the connection are told that it is there.
pub struct PersistentConn<W> {
    params: ConnParams,
    phase: Phase,
    is_connected: bool,
    waiters: Vec<W>,
}

impl<W> View for PersistentConn<W> {
    type V = LinkState<W>;

    closed spec fn view(&self) -> LinkState<W> {
        LinkState {
            params: self.params,
            phase: self.phase,
            connected: self.is_connected,
            waiters: self.waiters@,
        }
    }
}

impl<W> PersistentConn<W> {
    /// A connection that is yet to be made by `params`, with nobody waiting for it.
    pub fn start(params: ConnParams) -> (out: (PersistentConn<W>, LinkAction))
        ensures
            out.0@ == (LinkState::<W> {
                params,
                phase: Phase::Connecting,
                connected: false,
                waiters: Seq::empty(),
            }),
            out.0@.coherent(),
            out.1 == out.0@.phase.action(),
    {
        (
            PersistentConn {
                params,
                phase: Phase::Connecting,
                is_connected: false,
                waiters: Vec::new(),
            },
            LinkAction::Connect,
        )
    }

    /// What every attempt to connect goes by, and how long an answer may take.
    pub fn params(&self) -> (params: &ConnParams)
        ensures
            *params == self@.params,
    {
        &self.params
    }

    /// Where the connection stands.
    pub fn phase(&self) -> (phase: Phase)
        ensures
            phase == self@.phase,
    {
        self.phase
    }

    /// Whether commands can be sent.
    pub fn is_connected(&self) -> (connected: bool)
        ensures
            connected == self@.connected,
    {
        self.is_connected
    }

    /// Moves on after an event. Hands out those who need not wait any more.
    pub fn step(&mut self, event: LinkEvent) -> (out: (LinkAction, Vec<W>))
        requires
            old(self)@.coherent(),
            old(self)@.phase.expects(event),
        ensures
            final(self)@ == old(self)@.after(event),
            final(self)@.coherent(),
            out.0 == final(self)@.phase.action(),
            out.1@ == old(self)@.released(event),
    {
        let mut released: Vec<W> = Vec::new();
        let action = match event {
            LinkEvent::Connected => {
                self.phase = Phase::Starting;
                LinkAction::Start
            },
            LinkEvent::ConnectFailed => {
                self.phase = Phase::Connecting;
                LinkAction::Connect
            },
            LinkEvent::Started => {
                self.phase = Phase::Pairing;
                LinkAction::Pair
            },
            LinkEvent::Paired => {
                self.phase = Phase::Running;
                self.is_connected = true;
                released.append(&mut self.waiters);
                LinkAction::AwaitExit
            },
            LinkEvent::PairingFailed => {
                self.phase = Phase::BackingOff;
                LinkAction::Sleep(PAIRING_BACKOFF_SECS)
            },
            LinkEvent::Slept => {
                self.phase = Phase::Closing;
                LinkAction::Close
            },
            LinkEvent::CloseSent => {
                self.phase = Phase::Running;
                LinkAction::AwaitExit
            },
            LinkEvent::Lost => {
                self.phase = Phase::Connecting;
                self.is_connected = false;
                LinkAction::Connect
            },
            LinkEvent::Ended => {
                self.phase = Phase::Finished;
                LinkAction::Stop
            },
        };
        (action, released)
    }

    /// The command that registers the client with the TV, by the client's key. Its answer goes to
    /// `reply`.
    pub fn pair_cmd<R>(&self, reply: R) -> (cmd: TvCmd<R>)
        ensures
            cmd matches TvCmd::Register(key, slot) && key@ == self@.params.client_key@ && slot
                == reply,
    {
        TvCmd::register(self.params.client_key.clone(), reply)
    }

    /// Somebody wants to know when commands can be sent. Who need not wait is handed back at once.
    pub fn wait(&mut self, waiter: W) -> (out: Option<W>)
        requires
            old(self)@.coherent(),
        ensures
            final(self)@ == old(self)@.after_wait(waiter),
            final(self)@.coherent(),
            out == if old(self)@.connected {
                Some(waiter)
            } else {
                None
            },
    {
        if self.is_connected {
            Some(waiter)
        } else {
            self.waiters.push(waiter);
            None
        }
    }

    /// Lets a command through where commands can be sent.
    pub fn send_cmd<R>(&self, cmd: TvCmd<R>) -> (result: Result<TvCmd<R>, TvError>)
        ensures
            result == if self@.connected {
                Ok::<TvCmd<R>, TvError>(cmd)
            } else {
                Err(TvError::NotConnected)
            },
    {
        if !self.is_connected() {
            return Err(TvError::NotConnected);
        }
        Ok(cmd)
    }

    /// Lets a pointer command through where commands can be sent.
    pub fn send_pointer_cmd(&self, cmd: String) -> (result: Result<String, TvError>)
        ensures
            result == if self@.connected {
                Ok::<String, TvError>(cmd)
            } else {
                Err(TvError::NotConnected)
            },
    {
        if !self.is_connected() {
            return Err(TvError::NotConnected);
        }
        Ok(cmd)
    }
}

/// What the end of a connection's loop means for the connection.
pub open spec fn exit_event<Q>(status: ConnExitStatus<Q>) -> LinkEvent {
    match status {
        ConnExitStatus::Reconnect(_) => LinkEvent::Lost,
        ConnExitStatus::Finish => LinkEvent::Ended,
    }
}

/// Takes in how a connection's loop ended. Hands out what the next one goes on with, where there is to
/// be one.
pub fn exited<Q>(status: ConnExitStatus<Q>) -> (out: (LinkEvent, Option<Q>))
    ensures
        out.0 == exit_event(status),
        out.1 == match status {
            ConnExitStatus::Reconnect(queue) => Some(queue),
            ConnExitStatus::Finish => None,
        },
{
    match status {
        ConnExitStatus::Reconnect(queue) => (LinkEvent::Lost, Some(queue)),
        ConnExitStatus::Finish => (LinkEvent::Ended, None),
    }
}

/// What came of the wait for the answer to a command.
#[derive(Debug)]
pub enum Waited<T> {
    Answered(Result<T, TvError>),
    /// The command was dropped. Holds what the channel said.
    Canceled(String),
    /// No answer came in time. Holds what the timer said.
    TimedOut(String),
}

impl<T> Waited<T> {
    /// The result of the command.
    pub fn result(self) -> (result: Result<T, TvError>)
        ensures
            result == match self {
                Waited::Answered(answer) => answer,
                Waited::Canceled(reason) => Err(TvError::Canceled(reason)),
                Waited::TimedOut(reason) => Err(TvError::TimedOut(reason)),
            },
    {
        match self {
            Waited::Answered(answer) => answer,
            Waited::Canceled(reason) => Err(TvError::Canceled(reason)),
            Waited::TimedOut(reason) => Err(TvError::TimedOut(reason)),
        }
    }
}

/// What is done in each phase, and what can happen in it.
pub proof fn law_what_each_phase_is_for(event: LinkEvent)
    ensures
        Phase::Connecting.action() == LinkAction::Connect,
        Phase::Starting.action() == LinkAction::Start,
        Phase::Pairing.action() == LinkAction::Pair,
        Phase::BackingOff.action() == LinkAction::Sleep(10),
        Phase::Closing.action() == LinkAction::Close,
        Phase::Running.action() == LinkAction::AwaitExit,
        Phase::Finished.action() == LinkAction::Stop,
        Phase::Connecting.expects(event) <==> event == LinkEvent::Connected || event
            == LinkEvent::ConnectFailed,
        Phase::Starting.expects(event) <==> event == LinkEvent::Started,
        Phase::Pairing.expects(event) <==> event == LinkEvent::Paired || event
            == LinkEvent::PairingFailed,
        Phase::BackingOff.expects(event) <==> event == LinkEvent::Slept,
        Phase::Closing.expects(event) <==> event == LinkEvent::CloseSent,
        Phase::Running.expects(event) <==> event == LinkEvent::Lost || event == LinkEvent::Ended,
        !Phase::Finished.expects(event),
{
}

/// An answered registration lets commands through and tells everybody who waits, all at once and in
/// order. No other event tells anybody, none but a loss shuts commands out, and none changes the
/// parameters.
pub proof fn law_registration_lets_commands_through<W>(link: LinkState<W>, event: LinkEvent)
    ensures
        link.after(LinkEvent::Paired).connected,
        link.after(LinkEvent::Paired).waiters.len() == 0,
        link.released(LinkEvent::Paired) == link.waiters,
        !link.after(LinkEvent::Lost).connected,
        event != LinkEvent::Paired ==> link.released(event).len() == 0 && link.after(event).waiters
            == link.waiters,
        event != LinkEvent::Paired && event != LinkEvent::Lost ==> link.after(event).connected
            == link.connected,
        link.after(event).params == link.params,
{
}

/// Where each event leads, whatever the state is.
pub proof fn law_where_each_event_leads<W>(link: LinkState<W>)
    ensures
        link.after(LinkEvent::Connected).phase == Phase::Starting,
        link.after(LinkEvent::ConnectFailed).phase == Phase::Connecting,
        link.after(LinkEvent::Started).phase == Phase::Pairing,
        link.after(LinkEvent::Paired).phase == Phase::Running,
        link.after(LinkEvent::PairingFailed).phase == Phase::BackingOff,
        link.after(LinkEvent::Slept).phase == Phase::Closing,
        link.after(LinkEvent::CloseSent).phase == Phase::Running,
        link.after(LinkEvent::Lost).phase == Phase::Connecting,
        link.after(LinkEvent::Ended).phase == Phase::Finished,
{
}

/// Who comes while commands can be sent need not wait. Who comes before stands behind all who came
/// earlier. Nothing else changes.
pub proof fn law_who_comes_waits_behind_the_others<W>(link: LinkState<W>, waiter: W)
    ensures
        link.connected ==> link.after_wait(waiter) == link,
        !link.connected ==> {
            let after = link.after_wait(waiter);
            &&& after.waiters.len() == link.waiters.len() + 1
            &&& after.waiters.last() == waiter
            &&& after.waiters.drop_last() == link.waiters
            &&& after.connected == link.connected
            &&& after.phase == link.phase
            &&& after.params == link.params
        },
{
    assert(link.waiters.push(waiter).drop_last() == link.waiters);
}

/// A loop that hands its queue on means a lost connection. One that does not means the end.
pub proof fn law_what_the_end_of_a_loop_means<Q>(queue: Q)
    ensures
        exit_event(ConnExitStatus::Reconnect(queue)) == LinkEvent::Lost,
        exit_event(ConnExitStatus::<Q>::Finish) == LinkEvent::Ended,
{
}

} // verus!
