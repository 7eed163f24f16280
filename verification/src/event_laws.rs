//! What each thing that reaches a connection does, said of all states and all that it may hold.
use vstd::prelude::*;

#[allow(unused_imports)]
use crate::bytes::law_bytes_have_the_value_of_the_number;
#[allow(unused_imports)]
use crate::cmd::{law_request_names_its_id, Reply, TvCmd};
#[allow(unused_imports)]
use crate::conn_task::{
    accepts, action, after_event, ActionView, ConnAction, ConnEvent, ConnExitStatus,
};
#[allow(unused_imports)]
use crate::json::JsonView;
#[allow(unused_imports)]
use crate::json_value::{json_parsed, json_printed};
#[allow(unused_imports)]
use crate::main_conn::{MainConnProcessor, MainState};
#[allow(unused_imports)]
use crate::pointer_conn::PointerConnProcessor;
#[allow(unused_imports)]
use crate::processor::{
    CloseFrame, CmdProcessor, Message, MessageView, MsgProcessor, Notice, NoticeView, PingProcessor,
    Processed, ProcessorResp, RespView, Step, WsError,
};

verus! {

/// A text that is a response to a waiting command gives that command its answer, out of the whole
/// response as it was read, and takes it from those that wait. Nothing else changes.
pub proof fn law_response_text_answers_its_command<R, P>(
    state: MainState<R, P>,
    text: String,
    response: JsonView,
    id: Seq<char>,
)
    requires
        json_parsed(text@) == Some(response),
        response.at("id"@) == JsonView::Text(id),
        state.waiting.contains_key(id),
    ensures
        ({
            let step = after_event::<MainConnProcessor<R, P>, TvCmd<R>>(
                state,
                ConnEvent::Msg(Some(Ok(Message::Text(text)))),
            );
            &&& step.notice == NoticeView::<R, P>::Answer(
                state.waiting[id].slot(),
                state.waiting[id].reply(Ok(response)),
            )
            &&& step.resp is Continue
            &&& step.state.waiting == state.waiting.remove(id)
            &&& step.state.counter == state.counter
            &&& step.state.pong == state.pong
            &&& step.state.pairing == state.pairing
        }),
{
}

/// A response gives the waiting command that it names its answer, out of the whole response. One that
/// names none does nothing.
pub proof fn law_response_answers_the_command_that_it_names<R, P>(
    state: MainState<R, P>,
    response: JsonView,
)
    ensures
        ({
            let step = state.after_response(response);
            if response.at("id"@) is Text && state.waiting.contains_key(
                response.at("id"@)->Text_0,
            ) {
                let id = response.at("id"@)->Text_0;
                &&& step.notice == NoticeView::<R, P>::Answer(
                    state.waiting[id].slot(),
                    state.waiting[id].reply(Ok(response)),
                )
                &&& step.resp is Continue
                &&& step.state.waiting == state.waiting.remove(id)
                &&& step.state.counter == state.counter
                &&& step.state.pong == state.pong
                &&& step.state.pairing == state.pairing
            } else {
                &&& step.notice is Nothing
                &&& step.resp is Continue
                &&& step.state == state
            }
        }),
{
}

/// Any other text changes nothing and answers nobody.
pub proof fn law_other_texts_do_nothing<R, P>(state: MainState<R, P>, text: String)
    requires
        json_parsed(text@) matches Some(response) ==> (response.at("id"@) matches JsonView::Text(id)
            ==> !state.waiting.contains_key(id)),
    ensures
        ({
            let step = after_event::<MainConnProcessor<R, P>, TvCmd<R>>(
                state,
                ConnEvent::Msg(Some(Ok(Message::Text(text)))),
            );
            &&& step.notice is Nothing
            &&& step.resp is Continue
            &&& step.state == state
        }),
{
}

/// A command is sent as the text of its message, under the number of the commands before it, and waits
/// from then on under the identifier in that message. Nothing else changes.
pub proof fn law_command_is_sent_and_waits<R, P>(state: MainState<R, P>, cmd: TvCmd<R>)
    ensures
        ({
            let message = cmd.request(state.counter, state.pairing);
            let step = after_event::<MainConnProcessor<R, P>, TvCmd<R>>(
                state,
                ConnEvent::Cmd(Some(cmd)),
            );
            &&& step.resp == RespView::ContinueWith(MessageView::Text(json_printed(message)))
            &&& step.notice is Nothing
            &&& step.state.counter == state.counter + 1
            &&& message.at("id"@) matches JsonView::Text(id)
            &&& step.state.waiting == state.waiting.insert(id, cmd)
            &&& step.state.pong == state.pong
            &&& step.state.pairing == state.pairing
        }),
{
    law_request_names_its_id(cmd, state.counter, state.pairing);
}

/// A ping goes out with eight bytes that have its number for their value, and waits from then on in
/// place of any before it. Nothing else changes.
pub proof fn law_ping_is_sent_and_waits<R, P>(state: MainState<R, P>, n: u64, slot: P)
    ensures
        ({
            let step = after_event::<MainConnProcessor<R, P>, TvCmd<R>>(
                state,
                ConnEvent::Ping(Some((n, slot))),
            );
            &&& step.resp matches RespView::ContinueWith(MessageView::Ping(data))
            &&& data.len() == 8
            &&& data.fold_left(0int, |value: int, b: u8| 256 * value + b) == n
            &&& step.notice is Nothing
            &&& step.state.pong == Some((n, slot))
            &&& step.state.counter == state.counter
            &&& step.state.waiting == state.waiting
            &&& step.state.pairing == state.pairing
        }),
{
    law_bytes_have_the_value_of_the_number(n, Seq::empty());
}

/// A pong ends the wait for one. It tells that the other side is alive exactly where the first eight of
/// its bytes have the number of the ping for their value. Nothing else changes.
pub proof fn law_pong_is_weighed_by_its_value<R, P>(
    state: MainState<R, P>,
    data: Vec<u8>,
    n: u64,
    slot: P,
)
    requires
        state.pong == Some((n, slot)),
        data@.len() >= 8,
    ensures
        ({
            let step = after_event::<MainConnProcessor<R, P>, TvCmd<R>>(
                state,
                ConnEvent::Msg(Some(Ok(Message::Pong(data)))),
            );
            let value = data@.take(8).fold_left(0int, |value: int, b: u8| 256 * value + b);
            &&& value == n ==> step.notice == NoticeView::<R, P>::Alive(slot)
            &&& value != n ==> step.notice is Nothing
            &&& step.resp is Continue
            &&& step.state.pong is None
            &&& step.state.counter == state.counter
            &&& step.state.waiting == state.waiting
            &&& step.state.pairing == state.pairing
        }),
{
    law_bytes_have_the_value_of_the_number(n, data@.take(8));
}

/// A pong that nothing waits for, and the news that there will be no more pings, do nothing.
pub proof fn law_stray_pongs_do_nothing<R, P>(state: MainState<R, P>, data: Vec<u8>)
    ensures
        ({
            let pong = after_event::<MainConnProcessor<R, P>, TvCmd<R>>(
                state,
                ConnEvent::Msg(Some(Ok(Message::Pong(data)))),
            );
            let no_more = after_event::<MainConnProcessor<R, P>, TvCmd<R>>(
                state,
                ConnEvent::Ping(None),
            );
            &&& state.pong is None ==> pong.notice is Nothing && pong.resp is Continue && pong.state
                == state
            &&& no_more.notice is Nothing && no_more.resp is Continue && no_more.state == state
        }),
{
}

/// What every connection does alike: a ping is answered with a pong that carries the same data, binary
/// and close messages are ignored, a request to close and a websocket that was closed or failed call
/// for a new connection, and no more commands or no websocket any more is the end. None of it changes
/// the state or brings an answer.
pub proof fn law_what_all_connections_do_alike<
    M: MsgProcessor + CmdProcessor<T> + PingProcessor,
    T,
>(state: M::State, data: Vec<u8>, frame: Option<CloseFrame>, reason: String)
    ensures
        after_event::<M, T>(state, ConnEvent::Msg(Some(Ok(Message::Ping(data))))) == only::<M>(
            state,
            RespView::ContinueWith(MessageView::Pong(data@)),
        ),
        after_event::<M, T>(state, ConnEvent::Msg(Some(Ok(Message::Binary(data))))) == only::<M>(
            state,
            RespView::Continue,
        ),
        after_event::<M, T>(state, ConnEvent::Msg(Some(Ok(Message::Close(frame))))) == only::<M>(
            state,
            RespView::Continue,
        ),
        after_event::<M, T>(state, ConnEvent::Msg(Some(Err(WsError::ConnectionClosed)))) == only::<
            M,
        >(state, RespView::Reconnect),
        after_event::<M, T>(state, ConnEvent::Msg(Some(Err(WsError::Other(reason))))) == only::<M>(
            state,
            RespView::Reconnect,
        ),
        after_event::<M, T>(state, ConnEvent::Msg(None)) == only::<M>(state, RespView::Finish),
        after_event::<M, T>(state, ConnEvent::Close) == only::<M>(state, RespView::Reconnect),
        after_event::<M, T>(state, ConnEvent::Cmd(None)) == only::<M>(state, RespView::Finish),
{
}

/// A step that leaves the state as it is and brings no news.
pub open spec fn only<M: MsgProcessor>(state: M::State, resp: RespView) -> Step<
    M::State,
    M::ReplySlot,
    M::PongSlot,
> {
    Step { state, resp, notice: NoticeView::Nothing }
}

/// On the pointer connection a command goes out as the text that it is, and texts, pongs and wishes to
/// ping do nothing.
pub proof fn law_pointer_connection_only_sends(
    cmd: String,
    text: String,
    data: Vec<u8>,
    ping_req: Option<(u64, ())>,
)
    ensures
        after_event::<PointerConnProcessor, String>((), ConnEvent::Cmd(Some(cmd))) == only::<
            PointerConnProcessor,
        >((), RespView::ContinueWith(MessageView::Text(cmd@))),
        after_event::<PointerConnProcessor, String>(
            (),
            ConnEvent::Msg(Some(Ok(Message::Text(text)))),
        ) == only::<PointerConnProcessor>((), RespView::Continue),
        after_event::<PointerConnProcessor, String>(
            (),
            ConnEvent::Msg(Some(Ok(Message::Pong(data)))),
        ) == only::<PointerConnProcessor>((), RespView::Continue),
        after_event::<PointerConnProcessor, String>((), ConnEvent::Ping(ping_req)) == only::<
            PointerConnProcessor,
        >((), RespView::Continue),
{
}

/// The loop waits, sends or ends as it is told.
pub proof fn law_loop_does_as_it_is_told<Q>(message: Message, queue: Q)
    ensures
        action(RespView::Continue) == ConnAction::Wait@,
        action(RespView::ContinueWith(message@)) == ConnAction::Send(message)@,
        action(RespView::Reconnect) == ConnAction::Exit(ConnExitStatus::Reconnect(()))@,
        action(RespView::Finish) == ConnAction::Exit(ConnExitStatus::Finish)@,
        action(RespView::Continue) is Wait,
        action(RespView::ContinueWith(message@)) == ActionView::Send(message@),
        action(RespView::Reconnect) is Reconnect,
        action(RespView::Finish) is Finish,
        ConnExitStatus::Reconnect(()).handing_on(queue) == ConnExitStatus::Reconnect(queue),
        ConnExitStatus::Finish.handing_on(queue) == ConnExitStatus::<Q>::Finish,
{
}

/// The main connection takes every event, but for a command after as many as can be counted and, while
/// a pong is awaited, one without room for a number.
pub proof fn law_main_connection_takes_all_but<R, P>(
    state: MainState<R, P>,
    event: ConnEvent<TvCmd<R>, P>,
)
    ensures
        accepts::<MainConnProcessor<R, P>, TvCmd<R>>(state, event) <==> match event {
            ConnEvent::Cmd(Some(_)) => state.counter < u64::MAX,
            ConnEvent::Msg(Some(Ok(Message::Pong(data)))) => state.pong is None || data@.len() >= 8,
            _ => true,
        },
{
}

/// The pointer connection takes every event.
pub proof fn law_pointer_connection_takes_all(event: ConnEvent<String, ()>)
    ensures
        accepts::<PointerConnProcessor, String>((), event),
{
}

/// A message says what it holds, and of which kind it is.
pub proof fn law_messages_say_what_they_hold(
    text: String,
    data: Vec<u8>,
    frame: Option<CloseFrame>,
)
    ensures
        Message::Text(text)@ == MessageView::Text(text@),
        Message::Binary(data)@ == MessageView::Binary(data@),
        Message::Ping(data)@ == MessageView::Ping(data@),
        Message::Pong(data)@ == MessageView::Pong(data@),
        Message::Close(frame)@ == MessageView::Close(frame),
{
}

/// What comes of an event is told in full: the state, what is done next, and the news for others.
pub proof fn law_outcomes_are_told_in_full<S, R, P>(
    state: S,
    message: Message,
    reply_slot: R,
    reply: Reply,
    pong_slot: P,
    out: Processed<R, P>,
)
    ensures
        ProcessorResp::Continue@ is Continue,
        ProcessorResp::ContinueWith(message)@ == RespView::ContinueWith(message@),
        ProcessorResp::Reconnect@ is Reconnect,
        ProcessorResp::Finish@ is Finish,
        Notice::<R, P>::Nothing@ is Nothing,
        Notice::<R, P>::Answer(reply_slot, reply)@ == NoticeView::<R, P>::Answer(reply_slot, reply@),
        Notice::<R, P>::Alive(pong_slot)@ == NoticeView::<R, P>::Alive(pong_slot),
        out.step(state).state == state,
        out.step(state).resp == out.resp@,
        out.step(state).notice == out.notice@,
{
}

} // verus!
