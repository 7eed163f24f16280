//! The loop of a connection: one event after another, until the connection is given up.
use vstd::prelude::*;

use crate::processor::{
    CmdProcessor, Message, MsgProcessor, Notice, PingProcessor, Processed, ProcessorResp,
    WsError,
};
#[allow(unused_imports)]
use crate::processor::{after_msg, ws_event, MessageView, NoticeView, RespView, Step, WsEvent};

verus! {

/// How a connection ended.
#[derive(Debug)]
pub enum ConnExitStatus<T> {
    /// It is to be made anew. Holds what the next one goes on with.
    Reconnect(T),
    /// There is nothing more to do.
    Finish,
}

impl ConnExitStatus<()> {
    /// The same end, where the next connection goes on with the command queue of this one.
    pub open spec fn handing_on<Q>(self, queue: Q) -> ConnExitStatus<Q> {
        match self {
            ConnExitStatus::Reconnect(_) => ConnExitStatus::Reconnect(queue),
            ConnExitStatus::Finish => ConnExitStatus::Finish,
        }
    }

    /// The same end, where the next connection goes on with the command queue of this one.
    pub fn hand_on<Q>(self, queue: Q) -> (status: ConnExitStatus<Q>)
        ensures
            status == self.handing_on(queue),
    {
        match self {
            ConnExitStatus::Reconnect(()) => ConnExitStatus::Reconnect(queue),
            ConnExitStatus::Finish => ConnExitStatus::Finish,
        }
    }
}

/// What can reach a connection.
#[derive(Debug)]
pub enum ConnEvent<T, P> {
    /// Somebody wants the connection closed.
    Close,
    /// The other side is to be pinged. `None`: there will be no more pings.
    Ping(Option<(u64, P)>),
    /// A command is to be sent. `None`: there will be no more commands.
    Cmd(Option<T>),
    /// The websocket brought something.
    Msg(Option<Result<Message, WsError>>),
}

/// What the loop does next.
#[derive(Debug)]
pub enum ConnAction {
    /// Wait for the next event.
    Wait,
    /// Send a message, then wait for the next event.
    Send(Message),
    /// End the loop.
    Exit(ConnExitStatus<()>),
}

/// What a `ConnAction` says.
#[verifier::ext_equal]
pub enum ActionView {
    Wait,
    Send(MessageView),
    Reconnect,
    Finish,
}

impl View for ConnAction {
    type V = ActionView;

    open spec fn view(&self) -> ActionView {
        match *self {
            ConnAction::Wait => ActionView::Wait,
            ConnAction::Send(message) => ActionView::Send(message@),
            ConnAction::Exit(ConnExitStatus::Reconnect(_)) => ActionView::Reconnect,
            ConnAction::Exit(ConnExitStatus::Finish) => ActionView::Finish,
        }
    }
}

/// What the loop does on a response of the processor.
pub open spec fn action(resp: RespView) -> ActionView {
    match resp {
        RespView::Continue => ActionView::Wait,
        RespView::ContinueWith(message) => ActionView::Send(message),
        RespView::Reconnect => ActionView::Reconnect,
        RespView::Finish => ActionView::Finish,
    }
}

/// Whether an event may come up in `state`.
pub open spec fn accepts<M: MsgProcessor + CmdProcessor<T> + PingProcessor, T>(
    state: M::State,
    event: ConnEvent<T, M::PongSlot>,
) -> bool {
    match event {
        ConnEvent::Cmd(Some(cmd)) => M::accepts_cmd(state, cmd),
        ConnEvent::Msg(msg) => match ws_event(msg) {
            WsEvent::Pong(data) => M::accepts_pong(state, data),
            _ => true,
        },
        _ => true,
    }
}

/// What an event does.
pub open spec fn after_event<M: MsgProcessor + CmdProcessor<T> + PingProcessor, T>(
    state: M::State,
    event: ConnEvent<T, M::PongSlot>,
) -> Step<M::State, M::ReplySlot, M::PongSlot> {
    match event {
        ConnEvent::Close => Step {
            state,
            resp: RespView::Reconnect,
            notice: NoticeView::Nothing,
        },
        ConnEvent::Ping(ping_req) => M::after_ping(state, ping_req),
        ConnEvent::Cmd(Some(cmd)) => M::after_cmd(state, cmd),
        ConnEvent::Cmd(None) => Step {
            state,
            resp: RespView::Finish,
            notice: NoticeView::Nothing,
        },
        ConnEvent::Msg(msg) => after_msg::<M>(state, ws_event(msg)),
    }
}

/// One turn of the loop: lets the processor react to an event, and decides how to go on.
pub fn conn_step<M: MsgProcessor + CmdProcessor<T> + PingProcessor, T>(
    processor: &mut M,
    event: ConnEvent<T, M::PongSlot>,
) -> (out: (ConnAction, Notice<M::ReplySlot, M::PongSlot>))
    requires
        old(processor).valid(),
        accepts::<M, T>(old(processor).state(), event),
    ensures
        final(processor).valid(),
        ({
            let step = after_event::<M, T>(old(processor).state(), event);
            &&& final(processor).state() == step.state
            &&& out.0@ == action(step.resp)
            &&& out.1@ == step.notice
        }),
{
    let processed = match event {
        ConnEvent::Close => Processed {
            resp: ProcessorResp::Reconnect,
            notice: Notice::Nothing,
        },
        ConnEvent::Ping(ping_req) => processor.process_ping(ping_req),
        ConnEvent::Cmd(cmd) => processor.process_cmd(cmd),
        ConnEvent::Msg(msg) => processor.process_msg(msg),
    };
    let action = match processed.resp {
        ProcessorResp::Continue => ConnAction::Wait,
        ProcessorResp::ContinueWith(message) => ConnAction::Send(message),
        ProcessorResp::Reconnect => ConnAction::Exit(ConnExitStatus::Reconnect(())),
        ProcessorResp::Finish => ConnAction::Exit(ConnExitStatus::Finish),
    };
    (action, processed.notice)
}

} // verus!
