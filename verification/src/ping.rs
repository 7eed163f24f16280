//! The task that finds out whether the other side is still there.
use vstd::prelude::*;

verus! {

/// How long the task waits before each ping, in seconds.
pub const PING_INTERVAL_SECS: u64 = 10;

/// How long the task waits for the answer to a ping, in seconds.
pub const PONG_TIMEOUT_SECS: u64 = 10;

/// Where the task stands. The number is that of the next ping, or of the one that was sent.
#[derive(Clone, Copy, Debug, PartialEq, Eq, Structural)]
pub enum PingTask {
    /// It waits for the time of the next ping.
    Sleeping(u64),
    /// It asks the connection to send a ping.
    Queueing(u64),
    /// It waits for the answer to a ping.
    Waiting(u64),
    /// It asks for the connection to be closed.
    Closing,
    /// It has ended.
    Stopped,
}

/// What can happen to the task.
#[derive(Clone, Copy, Debug, PartialEq, Eq, Structural)]
pub enum PingEvent {
    /// The time of the next ping has come.
    Slept,
    /// The connection took the ping.
    Queued,
    /// The connection takes no more pings.
    QueueClosed,
    /// The ping was answered.
    Ponged,
    /// The ping will not be answered.
    Canceled,
    /// No answer came in time.
    TimedOut,
    /// The request to close the connection is out.
    CloseSent,
}

/// What the task does next.
#[derive(Clone, Copy, Debug, PartialEq, Eq, Structural)]
pub enum PingAction {
    /// Wait so many seconds.
    Sleep(u64),
    /// Hand the connection a ping with this number.
    Queue(u64),
    /// Wait so many seconds at most for the answer.
    AwaitPong(u64),
    /// Ask for the connection to be closed.
    SendClose,
    /// End.
    Stop,
}

impl PingTask {
    /// Whether an event can happen where the task stands.
    pub open spec fn expects(self, event: PingEvent) -> bool {
        match self {
            PingTask::Sleeping(_) => event is Slept,
            PingTask::Queueing(_) => event is Queued || event is QueueClosed,
            PingTask::Waiting(n) => (event is Ponged && n < u64::MAX) || event is Canceled
                || event is TimedOut,
            PingTask::Closing => event is CloseSent,
            PingTask::Stopped => false,
        }
    }

    /// Where the task stands after an event.
    pub open spec fn next(self, event: PingEvent) -> PingTask {
        match (self, event) {
            (PingTask::Sleeping(n), PingEvent::Slept) => PingTask::Queueing(n),
            (PingTask::Queueing(n), PingEvent::Queued) => PingTask::Waiting(n),
            (PingTask::Waiting(n), PingEvent::Ponged) => PingTask::Sleeping((n + 1) as u64),
            (PingTask::Waiting(_), PingEvent::TimedOut) => PingTask::Closing,
            _ => PingTask::Stopped,
        }
    }

    /// What the task does where it stands.
    pub open spec fn action(self) -> PingAction {
        match self {
            PingTask::Sleeping(_) => PingAction::Sleep(PING_INTERVAL_SECS),
            PingTask::Queueing(n) => PingAction::Queue(n),
            PingTask::Waiting(_) => PingAction::AwaitPong(PONG_TIMEOUT_SECS),
            PingTask::Closing => PingAction::SendClose,
            PingTask::Stopped => PingAction::Stop,
        }
    }

    /// The task as it begins: the first ping has the number 0.
    pub fn start() -> (out: (PingTask, PingAction))
        ensures
            out.0 == PingTask::Sleeping(0),
            out.1 == out.0.action(),
    {
        (PingTask::Sleeping(0), PingAction::Sleep(PING_INTERVAL_SECS))
    }

    /// Moves on after an event.
    pub fn step(self, event: PingEvent) -> (out: (PingTask, PingAction))
        requires
            self.expects(event),
        ensures
            out.0 == self.next(event),
            out.1 == out.0.action(),
    {
        match (self, event) {
            (PingTask::Sleeping(n), PingEvent::Slept) => (
                PingTask::Queueing(n),
                PingAction::Queue(n),
            ),
            (PingTask::Queueing(n), PingEvent::Queued) => (
                PingTask::Waiting(n),
                PingAction::AwaitPong(PONG_TIMEOUT_SECS),
            ),
            (PingTask::Waiting(n), PingEvent::Ponged) => (
                PingTask::Sleeping(n + 1),
                PingAction::Sleep(PING_INTERVAL_SECS),
            ),
            (PingTask::Waiting(_), PingEvent::TimedOut) => (
                PingTask::Closing,
                PingAction::SendClose,
            ),
            _ => (PingTask::Stopped, PingAction::Stop),
        }
    }
}

/// Where the task stands after a sequence of events.
pub open spec fn task_after(events: Seq<PingEvent>) -> PingTask
    decreases events.len(),
{
    if events.len() == 0 {
        PingTask::Sleeping(0)
    } else {
        task_after(events.drop_last()).next(events.last())
    }
}

/// Whether each of the events can happen where the task stands then.
pub open spec fn possible(events: Seq<PingEvent>) -> bool
    decreases events.len(),
{
    events.len() > 0 ==> possible(events.drop_last()) && task_after(events.drop_last()).expects(
        events.last(),
    )
}

/// The numbers of the pings that the task asks for in the course of the events.
pub open spec fn pings(events: Seq<PingEvent>) -> Seq<u64>
    decreases events.len(),
{
    if events.len() == 0 {
        Seq::empty()
    } else {
        match task_after(events) {
            PingTask::Queueing(n) => pings(events.drop_last()).push(n),
            _ => pings(events.drop_last()),
        }
    }
}

/// How many of the events are answers to pings.
pub open spec fn pongs(events: Seq<PingEvent>) -> nat
    decreases events.len(),
{
    if events.len() == 0 {
        0
    } else {
        pongs(events.drop_last()) + if events.last() is Ponged {
            1nat
        } else {
            0
        }
    }
}

/// The pings are numbered 0, 1, 2 and so on, and each of them is asked for only after all before it
/// were answered.
pub proof fn law_each_ping_follows_the_answer_to_the_last(events: Seq<PingEvent>)
    requires
        possible(events),
    ensures
        forall|i: int| 0 <= i < pings(events).len() ==> #[trigger] pings(events)[i] == i,
        pongs(events) <= pings(events).len() <= pongs(events) + 1,
        match task_after(events) {
            PingTask::Sleeping(n) => pings(events).len() == n && pongs(events) == n,
            PingTask::Queueing(n) => pings(events).len() == n + 1 && pongs(events) == n,
            PingTask::Waiting(n) => pings(events).len() == n + 1 && pongs(events) == n,
            PingTask::Closing => pings(events).len() == pongs(events) + 1,
            PingTask::Stopped => pings(events).len() == pongs(events) + 1,
        },
    decreases events.len(),
{
    if events.len() > 0 {
        law_each_ping_follows_the_answer_to_the_last(events.drop_last());
    }
}

/// A ping that is not answered in time is the last one, and the connection is asked to close.
pub proof fn law_unanswered_ping_closes_the_connection(n: u64)
    ensures
        PingTask::Waiting(n).expects(PingEvent::TimedOut),
        PingTask::Waiting(n).next(PingEvent::TimedOut).action() == PingAction::SendClose,
        PingTask::Waiting(n).next(PingEvent::TimedOut).next(PingEvent::CloseSent).action()
            == PingAction::Stop,
        forall|event: PingEvent|
            !(#[trigger] PingTask::Waiting(n).next(PingEvent::TimedOut).next(
                PingEvent::CloseSent,
            ).expects(event)),
{
}

/// Every ping, whatever its number, comes after the full interval and is given the full time for its
/// answer. An answer leads to the next number, silence to the request to close, and where the ping
/// cannot be sent or will not be answered the task ends.
pub proof fn law_every_ping_has_its_full_time(n: u64)
    ensures
        PingTask::Sleeping(n).action() == PingAction::Sleep(10),
        PingTask::Sleeping(n).next(PingEvent::Slept) == PingTask::Queueing(n),
        PingTask::Queueing(n).action() == PingAction::Queue(n),
        PingTask::Queueing(n).next(PingEvent::Queued) == PingTask::Waiting(n),
        PingTask::Queueing(n).next(PingEvent::QueueClosed) == PingTask::Stopped,
        PingTask::Waiting(n).action() == PingAction::AwaitPong(10),
        n < u64::MAX ==> (PingTask::Waiting(n).next(PingEvent::Ponged) matches PingTask::Sleeping(m)
            && m == n + 1),
        PingTask::Waiting(n).next(PingEvent::Canceled) == PingTask::Stopped,
        PingTask::Waiting(n).next(PingEvent::TimedOut) == PingTask::Closing,
        PingTask::Closing.action() == PingAction::SendClose,
        PingTask::Closing.next(PingEvent::CloseSent) == PingTask::Stopped,
        PingTask::Stopped.action() == PingAction::Stop,
{
}

/// What can happen where the task stands: nothing once it has ended, and an answer only while one is
/// awaited and the next number can be counted.
pub proof fn law_what_can_happen_to_the_task(n: u64, event: PingEvent)
    ensures
        PingTask::Sleeping(n).expects(event) <==> event == PingEvent::Slept,
        PingTask::Queueing(n).expects(event) <==> event == PingEvent::Queued || event
            == PingEvent::QueueClosed,
        PingTask::Waiting(n).expects(event) <==> event == PingEvent::Canceled || event
            == PingEvent::TimedOut || (event == PingEvent::Ponged && n != u64::MAX),
        PingTask::Closing.expects(event) <==> event == PingEvent::CloseSent,
        !PingTask::Stopped.expects(event),
{
}

} // verus!
