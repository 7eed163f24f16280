//! What holds over the whole life of a connection, whatever happens in it.
use vstd::prelude::*;

#[allow(unused_imports)]
use crate::builder::ConnParams;
#[allow(unused_imports)]
use crate::cmd::{law_request_ids_are_unique, Reply, TvCmd};
#[allow(unused_imports)]
use crate::conn::{
    exit_event, phase_after, LinkAction, LinkEvent, LinkState, Phase, PAIRING_BACKOFF_SECS,
};
#[allow(unused_imports)]
use crate::conn_task::{action, after_event, ActionView, ConnEvent, ConnExitStatus};
#[allow(unused_imports)]
use crate::error::TvError;
#[allow(unused_imports)]
use crate::json_value::json_parsed;
#[allow(unused_imports)]
use crate::main_conn::{
    law_cmd_keeps_ids, law_next_id_is_free, law_other_events_keep_ids, MainConnProcessor, MainState,
};
#[allow(unused_imports)]
use crate::ping::{PingEvent, PingTask};
#[allow(unused_imports)]
use crate::processor::{
    ws_event, CmdProcessor, Message, MessageView, MsgProcessor, NoticeView, PingProcessor, RespView, WsEvent,
};
#[allow(unused_imports)]
use crate::waiting::{closing_answers, closing_answers_in_order};

verus! {

/// The state of a connection after each of the events was taken.
pub open spec fn state_after<M: MsgProcessor + CmdProcessor<T> + PingProcessor, T>(
    start: M::State,
    events: Seq<ConnEvent<T, M::PongSlot>>,
) -> M::State
    decreases events.len(),
{
    if events.len() == 0 {
        start
    } else {
        after_event::<M, T>(
            state_after::<M, T>(start, events.drop_last()),
            events.last(),
        ).state
    }
}

/// The state of the main connection after a sequence of events.
pub open spec fn main_after<R, P>(
    start: MainState<R, P>,
    events: Seq<ConnEvent<TvCmd<R>, P>>,
) -> MainState<R, P> {
    state_after::<MainConnProcessor<R, P>, TvCmd<R>>(start, events)
}

/// What the processor of a connection responds to the event number `i`, where it takes each of those
/// before.
pub open spec fn response<M: MsgProcessor + CmdProcessor<T> + PingProcessor, T>(
    start: M::State,
    events: Seq<ConnEvent<T, M::PongSlot>>,
    i: int,
) -> RespView {
    after_event::<M, T>(state_after::<M, T>(start, events.take(i)), events[i]).resp
}

/// What the processor of a connection responds to each of the events.
pub open spec fn responses<M: MsgProcessor + CmdProcessor<T> + PingProcessor, T>(
    start: M::State,
    events: Seq<ConnEvent<T, M::PongSlot>>,
) -> Seq<RespView> {
    Seq::new(events.len(), |i: int| response::<M, T>(start, events, i))
}

/// The messages in responses that hold one, in order.
pub open spec fn messages(resps: Seq<RespView>) -> Seq<MessageView>
    decreases resps.len(),
{
    if resps.len() == 0 {
        Seq::empty()
    } else {
        match resps.last() {
            RespView::ContinueWith(message) => messages(resps.drop_last()).push(message),
            _ => messages(resps.drop_last()),
        }
    }
}

/// Whether a response ends the loop of a connection.
pub open spec fn ends(resp: RespView) -> bool {
    resp is Reconnect || resp is Finish
}

/// How far the loop of a connection has come.
#[verifier::ext_equal]
pub struct Run<S> {
    pub state: S,
    /// How many events were taken.
    pub taken: nat,
    /// What was handed to the websocket, in order.
    pub sent: Seq<MessageView>,
    /// How the loop ended, once it did.
    pub exit: Option<ConnExitStatus<()>>,
}

impl<S> Run<S> {
    /// One more turn of the loop, unless it has ended.
    pub open spec fn turn<M: MsgProcessor<State = S> + CmdProcessor<T> + PingProcessor, T>(
        self,
        event: ConnEvent<T, M::PongSlot>,
    ) -> Run<S> {
        if self.exit is Some {
            self
        } else {
            let step = after_event::<M, T>(self.state, event);
            let run = Run { state: step.state, taken: self.taken + 1, ..self };
            match action(step.resp) {
                ActionView::Wait => run,
                ActionView::Send(message) => Run { sent: self.sent.push(message), ..run },
                ActionView::Reconnect => Run { exit: Some(ConnExitStatus::Reconnect(())), ..run },
                ActionView::Finish => Run { exit: Some(ConnExitStatus::Finish), ..run },
            }
        }
    }
}

/// What the loop of a connection makes of the events that come up. Whether the websocket took what it
/// was handed plays no part in it.
pub open spec fn run<M: MsgProcessor + CmdProcessor<T> + PingProcessor, T>(
    start: M::State,
    events: Seq<ConnEvent<T, M::PongSlot>>,
) -> Run<M::State>
    decreases events.len(),
{
    if events.len() == 0 {
        Run { state: start, taken: 0, sent: Seq::empty(), exit: None }
    } else {
        run::<M, T>(start, events.drop_last()).turn::<M, T>(events.last())
    }
}

/// The loop of a connection takes the events up to the first whose response ends it, and none after
/// that. It sends the messages in the responses to the events that it took, in that order, and nothing
/// else. It ends as the last of these responses says, and goes on where none says so.
pub proof fn law_loop_sends_the_responses_until_one_ends_it<
    M: MsgProcessor + CmdProcessor<T> + PingProcessor,
    T,
>(start: M::State, events: Seq<ConnEvent<T, M::PongSlot>>)
    ensures
        ({
            let out = run::<M, T>(start, events);
            let resps = responses::<M, T>(start, events);
            let last = out.taken - 1;
            &&& out.taken <= events.len()
            &&& out.state == state_after::<M, T>(start, events.take(out.taken as int))
            &&& out.sent == messages(resps.take(out.taken as int))
            &&& forall|i: int| 0 <= i < last ==> !ends(#[trigger] resps[i])
            &&& match out.exit {
                Some(ConnExitStatus::Reconnect(_)) => out.taken > 0 && resps[last] is Reconnect,
                Some(ConnExitStatus::Finish) => out.taken > 0 && resps[last] is Finish,
                None => out.taken == events.len() && (out.taken > 0 ==> !ends(resps[last])),
            }
        }),
    decreases events.len(),
{
    if events.len() > 0 {
        let front = events.drop_last();
        let before = run::<M, T>(start, front);
        let resps = responses::<M, T>(start, events);
        let front_resps = responses::<M, T>(start, front);
        law_loop_sends_the_responses_until_one_ends_it::<M, T>(start, front);
        assert forall|i: int| 0 <= i < front.len() implies #[trigger] resps[i]
            == front_resps[i] by {
            assert(events.take(i) == front.take(i));
        }
        assert(resps.drop_last() == front_resps);
        if before.exit is Some {
            assert(events.take(before.taken as int) == front.take(before.taken as int));
            assert(resps.take(before.taken as int) == front_resps.take(before.taken as int));
        } else {
            assert(front.take(front.len() as int) == front);
            assert(front_resps.take(front.len() as int) == front_resps);
            assert(events.take(front.len() as int) == front);
            assert(events.take(events.len() as int) == events);
            assert(resps.take(events.len() as int) == resps);
        }
    }
}

/// Once its loop has ended, nothing that comes up makes a difference to a connection.
pub proof fn law_nothing_is_taken_after_the_end<
    M: MsgProcessor + CmdProcessor<T> + PingProcessor,
    T,
>(
    start: M::State,
    events: Seq<ConnEvent<T, M::PongSlot>>,
    later: Seq<ConnEvent<T, M::PongSlot>>,
)
    requires
        run::<M, T>(start, events).exit is Some,
    ensures
        run::<M, T>(start, events + later) == run::<M, T>(start, events),
    decreases later.len(),
{
    if later.len() > 0 {
        law_nothing_is_taken_after_the_end::<M, T>(start, events, later.drop_last());
        assert((events + later).drop_last() == events + later.drop_last());
    } else {
        assert(events + later == events);
    }
}

/// Whether `answer` goes to the slot of `cmd` with the news that the connection closed.
pub open spec fn tells_of_the_close<R>(cmd: TvCmd<R>, answer: (R, Reply)) -> bool {
    answer.0 == cmd.slot() && answer.1@ == cmd.reply(Err(TvError::ConnectionClosed))
}

/// A request to close the main connection ends its loop before anything else is taken, in such a way
/// that a new connection goes on with the very command queue. Every command that waits then is
/// answered with the news that the connection closed.
pub proof fn law_close_hands_the_queue_on<R, P, Q>(
    start: MainState<R, P>,
    events: Seq<ConnEvent<TvCmd<R>, P>>,
    queue: Q,
    answers: Seq<(R, Reply)>,
)
    requires
        run::<MainConnProcessor<R, P>, TvCmd<R>>(start, events).exit is None,
        closing_answers(main_after(start, events).waiting, answers),
    ensures
        ({
            let before = run::<MainConnProcessor<R, P>, TvCmd<R>>(start, events);
            let after = run::<MainConnProcessor<R, P>, TvCmd<R>>(
                start,
                events.push(ConnEvent::Close),
            );
            &&& after.state == before.state
            &&& after.state == main_after(start, events)
            &&& after.sent == before.sent
            &&& after.exit matches Some(exit)
            &&& exit.handing_on(queue) == ConnExitStatus::Reconnect(queue)
            &&& exit_event(exit.handing_on(queue)) is Lost
            &&& phase_after(LinkEvent::Lost).action() is Connect
        }),
        answers.len() == main_after(start, events).waiting.dom().len(),
        forall|id: Seq<char>| #[trigger]
            main_after(start, events).waiting.contains_key(id) ==> exists|i: int|
                0 <= i < answers.len() && tells_of_the_close(
                    main_after(start, events).waiting[id],
                    #[trigger] answers[i],
                ),
{
    law_loop_sends_the_responses_until_one_ends_it::<MainConnProcessor<R, P>, TvCmd<R>>(
        start,
        events,
    );
    assert(events.take(events.len() as int) == events);
    assert(events.push(ConnEvent::Close).drop_last() == events);
    let waiting = main_after(start, events).waiting;
    let ids = choose|ids: Seq<Seq<char>>| #[trigger]
        closing_answers_in_order(waiting, answers, ids);
    ids.unique_seq_to_set();
    assert forall|id: Seq<char>| #[trigger] waiting.contains_key(id) implies exists|i: int|
        0 <= i < answers.len() && tells_of_the_close(waiting[id], #[trigger] answers[i]) by {
        assert(ids.to_set().contains(id));
        let i = choose|i: int| 0 <= i < ids.len() && ids[i] == id;
        assert(tells_of_the_close(waiting[id], answers[i]));
    }
}

/// The identifiers of the commands that are sent in the course of the events.
pub open spec fn sent<R, P>(
    start: MainState<R, P>,
    events: Seq<ConnEvent<TvCmd<R>, P>>,
) -> Set<Seq<char>>
    decreases events.len(),
{
    if events.len() == 0 {
        Set::empty()
    } else {
        let before = sent(start, events.drop_last());
        match events.last() {
            ConnEvent::Cmd(Some(cmd)) => before.insert(
                cmd.request_id(main_after(start, events.drop_last()).counter),
            ),
            _ => before,
        }
    }
}

/// The identifier of the command that an event brings the answer to.
pub open spec fn answered_by<R, P>(
    state: MainState<R, P>,
    event: ConnEvent<TvCmd<R>, P>,
) -> Option<Seq<char>> {
    match event {
        ConnEvent::Msg(msg) => match ws_event(msg) {
            WsEvent::Text(text) => match json_parsed(text) {
                Some(response) => match response.at("id"@).text() {
                    Some(id) => if state.waiting.contains_key(id) {
                        Some(id)
                    } else {
                        None
                    },
                    None => None,
                },
                None => None,
            },
            _ => None,
        },
        _ => None,
    }
}

/// The identifiers of the commands that are answered in the course of the events, in order.
pub open spec fn answered<R, P>(
    start: MainState<R, P>,
    events: Seq<ConnEvent<TvCmd<R>, P>>,
) -> Seq<Seq<char>>
    decreases events.len(),
{
    if events.len() == 0 {
        Seq::empty()
    } else {
        let before = answered(start, events.drop_last());
        match answered_by(main_after(start, events.drop_last()), events.last()) {
            Some(id) => before.push(id),
            None => before,
        }
    }
}

/// An event brings an answer exactly where it is a response to a waiting command: it is what that
/// command reads out of the response, and goes to the slot of that command, which does not wait any
/// more.
pub proof fn law_answers_go_to_waiting_commands<R, P>(
    state: MainState<R, P>,
    event: ConnEvent<TvCmd<R>, P>,
)
    ensures
        ({
            let step = after_event::<MainConnProcessor<R, P>, TvCmd<R>>(state, event);
            match answered_by(state, event) {
                Some(id) => {
                    &&& state.waiting.contains_key(id)
                    &&& step.notice matches NoticeView::Answer(slot, reply)
                    &&& slot == state.waiting[id].slot()
                    &&& event matches ConnEvent::Msg(Some(Ok(Message::Text(text))))
                    &&& json_parsed(text@) matches Some(response)
                    &&& response.at("id"@).text() == Some(id)
                    &&& reply == state.waiting[id].reply(Ok(response))
                    &&& step.state.waiting == state.waiting.remove(id)
                },
                None => !(step.notice is Answer),
            }
        }),
{
}

/// What an event does to the identifiers that are in use.
proof fn lemma_event<R, P>(state: MainState<R, P>, event: ConnEvent<TvCmd<R>, P>)
    requires
        state.coherent(),
    ensures
        ({
            let after = after_event::<MainConnProcessor<R, P>, TvCmd<R>>(state, event).state;
            &&& after.coherent()
            &&& after.counter >= state.counter
            &&& match event {
                ConnEvent::Cmd(Some(cmd)) => {
                    &&& after.waiting == state.waiting.insert(cmd.request_id(state.counter), cmd)
                    &&& after.counter == state.counter + 1
                    &&& !state.waiting.contains_key(cmd.request_id(state.counter))
                },
                _ => match answered_by(state, event) {
                    Some(id) => after.waiting == state.waiting.remove(id),
                    None => after.waiting == state.waiting,
                },
            }
        }),
{
    match event {
        ConnEvent::Cmd(Some(cmd)) => {
            law_cmd_keeps_ids(state, cmd);
            law_next_id_is_free(state, cmd);
        },
        ConnEvent::Ping(ping_req) => {
            law_other_events_keep_ids(state, ping_req, Seq::empty(), Seq::empty());
        },
        ConnEvent::Msg(msg) => {
            match ws_event(msg) {
                WsEvent::Text(text) => {
                    law_other_events_keep_ids(state, None, Seq::empty(), text);
                },
                WsEvent::Pong(data) => {
                    law_other_events_keep_ids(state, None, data, Seq::empty());
                },
                _ => {},
            }
        },
        _ => {},
    }
}

/// No command is lost and none is answered twice: at any time, the commands that were sent are those
/// that were answered and those that wait, and no command is both.
pub proof fn law_every_command_waits_or_was_answered_once<R, P>(
    start: MainState<R, P>,
    events: Seq<ConnEvent<TvCmd<R>, P>>,
)
    requires
        start.counter == 0,
        start.waiting == Map::<Seq<char>, TvCmd<R>>::empty(),
    ensures
        answered(start, events).no_duplicates(),
        forall|id: Seq<char>|
            sent(start, events).contains(id) <==> (answered(start, events).contains(id)
                || main_after(start, events).waiting.contains_key(id)),
        forall|id: Seq<char>|
            !(answered(start, events).contains(id) && main_after(
                start,
                events,
            ).waiting.contains_key(id)),
{
    lemma_history(start, events);
}

/// The law on commands, with what its proof carries along.
proof fn lemma_history<R, P>(start: MainState<R, P>, events: Seq<ConnEvent<TvCmd<R>, P>>)
    requires
        start.counter == 0,
        start.waiting == Map::<Seq<char>, TvCmd<R>>::empty(),
    ensures
        main_after(start, events).coherent(),
        forall|id: Seq<char>| #[trigger]
            sent(start, events).contains(id) ==> exists|cmd: TvCmd<R>, n: nat|
                n < main_after(start, events).counter && id == #[trigger] cmd.request_id(n),
        answered(start, events).no_duplicates(),
        forall|id: Seq<char>|
            sent(start, events).contains(id) <==> (answered(start, events).contains(id)
                || main_after(start, events).waiting.contains_key(id)),
        forall|id: Seq<char>|
            !(answered(start, events).contains(id) && main_after(
                start,
                events,
            ).waiting.contains_key(id)),
    decreases events.len(),
{
    if events.len() > 0 {
        let front = events.drop_last();
        let event = events.last();
        let state = main_after(start, front);
        let after = main_after(start, events);
        let old_answered = answered(start, front);
        let new_answered = answered(start, events);
        lemma_history(start, front);
        lemma_event(state, event);
        match event {
            ConnEvent::Cmd(Some(cmd)) => {
                let new_id = cmd.request_id(state.counter);
                if sent(start, front).contains(new_id) {
                    let (other, n) = choose|other: TvCmd<R>, n: nat|
                        n < state.counter && new_id == #[trigger] other.request_id(n);
                    law_request_ids_are_unique(cmd, state.counter, other, n);
                }
                assert forall|id: Seq<char>| #[trigger]
                    sent(start, events).contains(id) implies exists|c: TvCmd<R>, n: nat|
                    n < after.counter && id == #[trigger] c.request_id(n) by {
                    if id == new_id {
                        assert(id == cmd.request_id(state.counter));
                    } else {
                        assert(sent(start, front).contains(id));
                        let (c, n) = choose|c: TvCmd<R>, n: nat|
                            n < state.counter && id == #[trigger] c.request_id(n);
                        assert(n < after.counter && id == c.request_id(n));
                    }
                }
            },
            _ => {
                if let Some(answered_id) = answered_by(state, event) {
                    assert(new_answered == old_answered.push(answered_id));
                    assert(!old_answered.contains(answered_id));
                    assert forall|id: Seq<char>|
                        new_answered.contains(id) == (old_answered.contains(id) || id
                            == answered_id) by {
                        if old_answered.contains(id) {
                            let i = choose|i: int|
                                0 <= i < old_answered.len() && old_answered[i] == id;
                            assert(new_answered[i] == id);
                        }
                        if id == answered_id {
                            assert(new_answered[old_answered.len() as int] == id);
                        }
                    }
                }
                assert forall|id: Seq<char>| #[trigger]
                    sent(start, events).contains(id) implies exists|c: TvCmd<R>, n: nat|
                    n < after.counter && id == #[trigger] c.request_id(n) by {
                    assert(sent(start, front).contains(id));
                    let (c, n) = choose|c: TvCmd<R>, n: nat|
                        n < state.counter && id == #[trigger] c.request_id(n);
                    assert(n < after.counter && id == c.request_id(n));
                }
            },
        }
    }
}

/// What can happen to a connection that is made anew whenever it is lost.
pub enum LinkInput<W> {
    Event(LinkEvent),
    /// Somebody wants to know when commands can be sent.
    Wait(W),
}

/// The state of such a connection after all that happened.
pub open spec fn link_after<W>(params: ConnParams, inputs: Seq<LinkInput<W>>) -> LinkState<W>
    decreases inputs.len(),
{
    if inputs.len() == 0 {
        LinkState { params, phase: Phase::Connecting, connected: false, waiters: Seq::empty() }
    } else {
        let before = link_after(params, inputs.drop_last());
        match inputs.last() {
            LinkInput::Event(event) => before.after(event),
            LinkInput::Wait(waiter) => before.after_wait(waiter),
        }
    }
}

/// Whether each of the events can happen in the phase in which it does.
pub open spec fn link_possible<W>(params: ConnParams, inputs: Seq<LinkInput<W>>) -> bool
    decreases inputs.len(),
{
    inputs.len() > 0 ==> link_possible(params, inputs.drop_last()) && match inputs.last() {
        LinkInput::Event(event) => link_after(params, inputs.drop_last()).phase.expects(event),
        LinkInput::Wait(_) => true,
    }
}

/// Those who came to wait, in order.
pub open spec fn arrivals<W>(inputs: Seq<LinkInput<W>>) -> Seq<W>
    decreases inputs.len(),
{
    if inputs.len() == 0 {
        Seq::empty()
    } else {
        match inputs.last() {
            LinkInput::Event(_) => arrivals(inputs.drop_last()),
            LinkInput::Wait(waiter) => arrivals(inputs.drop_last()).push(waiter),
        }
    }
}

/// Those who were told that commands can be sent, in order.
pub open spec fn told<W>(params: ConnParams, inputs: Seq<LinkInput<W>>) -> Seq<W>
    decreases inputs.len(),
{
    if inputs.len() == 0 {
        Seq::empty()
    } else {
        let before = told(params, inputs.drop_last());
        let state = link_after(params, inputs.drop_last());
        match inputs.last() {
            LinkInput::Event(event) => before + state.released(event),
            LinkInput::Wait(waiter) => if state.connected {
                before.push(waiter)
            } else {
                before
            },
        }
    }
}

/// Everybody who comes to wait is told exactly once, in the order of arrival: those who were told and
/// those who still wait are, in that order, those who came.
pub proof fn law_waiters_are_told_once_and_in_order<W>(
    params: ConnParams,
    inputs: Seq<LinkInput<W>>,
)
    requires
        link_possible(params, inputs),
    ensures
        told(params, inputs) + link_after(params, inputs).waiters == arrivals(inputs),
        link_after(params, inputs).coherent(),
    decreases inputs.len(),
{
    if inputs.len() > 0 {
        law_waiters_are_told_once_and_in_order(params, inputs.drop_last());
        let before = link_after(params, inputs.drop_last());
        assert(told(params, inputs) + link_after(params, inputs).waiters =~= arrivals(inputs));
    }
}

/// Commands can be sent only where the registration was answered and the connection was not lost since.
pub proof fn law_commands_go_out_only_after_pairing<W>(
    params: ConnParams,
    inputs: Seq<LinkInput<W>>,
)
    requires
        link_after(params, inputs).connected,
    ensures
        exists|i: int|
            0 <= i < inputs.len() && #[trigger] inputs[i] == LinkInput::<W>::Event(
                LinkEvent::Paired,
            ) && forall|j: int|
                i < j < inputs.len() ==> #[trigger] inputs[j] != LinkInput::<W>::Event(
                    LinkEvent::Lost,
                ),
    decreases inputs.len(),
{
    if inputs.len() > 0 {
        let front = inputs.drop_last();
        let last = inputs.len() - 1;
        if inputs[last] == LinkInput::<W>::Event(LinkEvent::Paired) {
        } else {
            law_commands_go_out_only_after_pairing(params, front);
            let i = choose|i: int|
                0 <= i < front.len() && #[trigger] front[i] == LinkInput::<W>::Event(
                    LinkEvent::Paired,
                ) && forall|j: int|
                    i < j < front.len() ==> #[trigger] front[j] != LinkInput::<W>::Event(
                        LinkEvent::Lost,
                    );
            assert(inputs[i] == front[i]);
            assert forall|j: int| i < j < inputs.len() implies #[trigger] inputs[j]
                != LinkInput::<W>::Event(LinkEvent::Lost) by {
                if j < front.len() {
                    assert(inputs[j] == front[j]);
                }
            }
        }
    }
}

/// Commands can be sent wherever the registration was answered and the connection was not lost since.
pub proof fn law_commands_go_out_ever_after_pairing<W>(
    params: ConnParams,
    inputs: Seq<LinkInput<W>>,
    i: int,
)
    requires
        0 <= i < inputs.len(),
        inputs[i] == LinkInput::<W>::Event(LinkEvent::Paired),
        forall|j: int|
            i < j < inputs.len() ==> #[trigger] inputs[j] != LinkInput::<W>::Event(LinkEvent::Lost),
    ensures
        link_after(params, inputs).connected,
    decreases inputs.len(),
{
    let front = inputs.drop_last();
    if i < front.len() {
        assert forall|j: int| i < j < front.len() implies #[trigger] front[j]
            != LinkInput::<W>::Event(LinkEvent::Lost) by {
            assert(inputs[j] != LinkInput::<W>::Event(LinkEvent::Lost));
        }
        law_commands_go_out_ever_after_pairing(params, front, i);
        assert(inputs[inputs.len() - 1] != LinkInput::<W>::Event(LinkEvent::Lost));
    }
}

/// Every attempt to connect goes by the parameters that were given at the start. There is a next
/// attempt exactly where one failed or its connection was lost, and none after a connection that ended
/// for good.
pub proof fn law_attempts_go_on_with_the_same_parameters<W>(
    params: ConnParams,
    inputs: Seq<LinkInput<W>>,
)
    requires
        link_possible(params, inputs),
    ensures
        link_after(params, inputs).params == params,
        forall|i: int|
            0 <= i < inputs.len() && (#[trigger] inputs[i] is Event) ==> {
                let event = inputs[i]->Event_0;
                let after = link_after(params, inputs.take(i + 1));
                &&& after.params == params
                &&& after.phase.action() is Connect <==> event is ConnectFailed || event is Lost
                &&& after.phase.action() is Stop <==> event is Ended
            },
        forall|i: int, j: int|
            0 <= i < j < inputs.len() && #[trigger] inputs[i] == LinkInput::<W>::Event(
                LinkEvent::Ended,
            ) ==> #[trigger] inputs[j] is Wait,
        link_after(params, inputs).phase is Finished <==> exists|i: int|
            0 <= i < inputs.len() && #[trigger] inputs[i] == LinkInput::<W>::Event(
                LinkEvent::Ended,
            ),
    decreases inputs.len(),
{
    if inputs.len() > 0 {
        let front = inputs.drop_last();
        let last = inputs.len() - 1;
        law_attempts_go_on_with_the_same_parameters(params, front);
        assert forall|i: int|
            0 <= i < inputs.len() && (#[trigger] inputs[i] is Event) implies {
            let event = inputs[i]->Event_0;
            let after = link_after(params, inputs.take(i + 1));
            &&& after.params == params
            &&& after.phase.action() is Connect <==> event is ConnectFailed || event is Lost
            &&& after.phase.action() is Stop <==> event is Ended
        } by {
            if i < last {
                assert(front[i] is Event);
                assert(inputs.take(i + 1) == front.take(i + 1));
            } else {
                assert(inputs.take(i + 1) == inputs);
            }
        }
        assert forall|i: int| 0 <= i < last implies #[trigger] inputs[i] == front[i] by {}
        if exists|i: int|
            0 <= i < front.len() && #[trigger] front[i] == LinkInput::<W>::Event(
                LinkEvent::Ended,
            ) {
            let i = choose|i: int|
                0 <= i < front.len() && #[trigger] front[i] == LinkInput::<W>::Event(
                    LinkEvent::Ended,
                );
            assert(inputs[i] == LinkInput::<W>::Event(LinkEvent::Ended));
        }
        if inputs[last] == LinkInput::<W>::Event(LinkEvent::Ended) {
            assert(link_after(params, inputs).phase is Finished);
        }
    }
}

/// The course of an attempt that succeeds: the loop of the connection is started first, and only then
/// is the client registered. Where the registration is not answered, the connection rests and is
/// closed, and commands stay shut out. Either way the end of the loop decides whether there is a next attempt,
/// which goes by the same parameters.
pub proof fn law_course_of_an_attempt<W, Q>(link: LinkState<W>, queue: Q)
    requires
        link.coherent(),
        link.phase is Connecting,
    ensures
        ({
            let started = link.after(LinkEvent::Connected);
            let pairing = started.after(LinkEvent::Started);
            let answered = pairing.after(LinkEvent::Paired);
            let resting = pairing.after(LinkEvent::PairingFailed);
            let closing = resting.after(LinkEvent::Slept);
            let unanswered = closing.after(LinkEvent::CloseSent);
            let lost = exit_event(ConnExitStatus::Reconnect(queue));
            let ended = exit_event(ConnExitStatus::<Q>::Finish);
            &&& started.phase.action() is Start && !started.connected
            &&& pairing.phase.action() is Pair && !pairing.connected
            &&& answered.phase.action() is AwaitExit && answered.connected
            &&& resting.phase.action() == LinkAction::Sleep(PAIRING_BACKOFF_SECS)
            &&& closing.phase.action() is Close
            &&& unanswered.phase.action() is AwaitExit && !unanswered.connected
            &&& forall|last: LinkState<W>|
                #![trigger last.after(lost)]
                #![trigger last.after(ended)]
                last == answered || last == unanswered ==> {
                    &&& last.phase.expects(lost) && last.phase.expects(ended)
                    &&& last.after(lost).phase.action() is Connect
                    &&& !last.after(lost).connected
                    &&& last.after(lost).params == link.params
                    &&& last.after(ended).phase.action() is Stop
                }
        }),
{
}

/// The main connection is given up for a new one exactly where somebody wants it closed or the
/// websocket was closed or failed. It is given up for good exactly where no more commands can come or
/// the websocket is gone.
pub proof fn law_how_the_main_connection_ends<R, P>(
    state: MainState<R, P>,
    event: ConnEvent<TvCmd<R>, P>,
)
    ensures
        ({
            let resp = after_event::<MainConnProcessor<R, P>, TvCmd<R>>(state, event).resp;
            &&& action(resp) is Reconnect <==> (event is Close || (event matches ConnEvent::Msg(
                msg,
            ) && (ws_event(msg) is ConnectionClosed || ws_event(msg) is Failed)))
            &&& action(resp) is Finish <==> ((event matches ConnEvent::Cmd(cmd) && cmd is None) || (
            event matches ConnEvent::Msg(msg) && ws_event(msg) is Dropped))
        }),
{
}

/// A TV that does not answer a ping in time costs the connection: the ping task asks for it to be
/// closed, its loop ends, no command is let through, and a new connection is made.
pub proof fn law_silent_tv_is_connected_to_anew<R, P, W>(
    ping_counter: u64,
    main: MainState<R, P>,
    link: LinkState<W>,
)
    requires
        link.phase is Running,
    ensures
        PingTask::Waiting(ping_counter).next(PingEvent::TimedOut).action() is SendClose,
        action(
            after_event::<MainConnProcessor<R, P>, TvCmd<R>>(main, ConnEvent::Close).resp,
        ) is Reconnect,
        link.phase.expects(LinkEvent::Lost),
        !link.after(LinkEvent::Lost).connected,
        link.after(LinkEvent::Lost).phase.action() is Connect,
{
}

} // verus!
