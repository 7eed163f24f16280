//! What a connection does with each thing that reaches it.
use vstd::prelude::*;

use crate::cmd::Reply;
#[allow(unused_imports)]
use crate::cmd::ReplyView;

verus! {

/// Why a websocket was closed, as the side that closed it says.
#[derive(Debug)]
pub struct CloseFrame {
    pub code: u16,
    pub reason: String,
}

/// A websocket message.
#[derive(Debug)]
pub enum Message {
    Text(String),
    Binary(Vec<u8>),
    Ping(Vec<u8>),
    Pong(Vec<u8>),
    Close(Option<CloseFrame>),
}

/// What a `Message` says.
#[verifier::ext_equal]
pub enum MessageView {
    Text(Seq<char>),
    Binary(Seq<u8>),
    Ping(Seq<u8>),
    Pong(Seq<u8>),
    Close(Option<CloseFrame>),
}

impl View for Message {
    type V = MessageView;

    open spec fn view(&self) -> MessageView {
        match *self {
            Message::Text(text) => MessageView::Text(text@),
            Message::Binary(data) => MessageView::Binary(data@),
            Message::Ping(data) => MessageView::Ping(data@),
            Message::Pong(data) => MessageView::Pong(data@),
            Message::Close(frame) => MessageView::Close(frame),
        }
    }
}

/// What a websocket reports in place of a message.
#[derive(Debug)]
pub enum WsError {
    /// The connection was closed in an orderly way.
    ConnectionClosed,
    /// Anything else. Holds what the websocket said.
    Other(String),
}

/// What a connection is to do next.
#[derive(Debug)]
pub enum ProcessorResp {
    /// Wait for the next event.
    Continue,
    /// Send a message, then wait for the next event.
    ContinueWith(Message),
    /// Give the connection up and make a new one.
    Reconnect,
    /// Give the connection up for good.
    Finish,
}

/// What a `ProcessorResp` says.
#[verifier::ext_equal]
pub enum RespView {
    Continue,
    ContinueWith(MessageView),
    Reconnect,
    Finish,
}

impl View for ProcessorResp {
    type V = RespView;

    open spec fn view(&self) -> RespView {
        match *self {
            ProcessorResp::Continue => RespView::Continue,
            ProcessorResp::ContinueWith(message) => RespView::ContinueWith(message@),
            ProcessorResp::Reconnect => RespView::Reconnect,
            ProcessorResp::Finish => RespView::Finish,
        }
    }
}

/// Something that an event brought about for somebody else.
#[derive(Debug)]
pub enum Notice<R, P> {
    Nothing,
    /// The command with the slot `R` has its answer.
    Answer(R, Reply),
    /// The ping with the slot `P` was answered.
    Alive(P),
}

/// What a `Notice` says.
#[verifier::ext_equal]
pub enum NoticeView<R, P> {
    Nothing,
    Answer(R, ReplyView),
    Alive(P),
}

impl<R, P> View for Notice<R, P> {
    type V = NoticeView<R, P>;

    open spec fn view(&self) -> NoticeView<R, P> {
        match *self {
            Notice::Nothing => NoticeView::Nothing,
            Notice::Answer(slot, reply) => NoticeView::Answer(slot, reply@),
            Notice::Alive(slot) => NoticeView::Alive(slot),
        }
    }
}

/// What came of an event.
#[derive(Debug)]
pub struct Processed<R, P> {
    pub resp: ProcessorResp,
    pub notice: Notice<R, P>,
}

/// The state after an event, and what came of it.
#[verifier::ext_equal]
pub struct Step<S, R, P> {
    pub state: S,
    pub resp: RespView,
    pub notice: NoticeView<R, P>,
}

impl<R, P> Processed<R, P> {
    /// The step that this is the outcome of, `state` being the state after it.
    pub open spec fn step<S>(self, state: S) -> Step<S, R, P> {
        Step { state, resp: self.resp@, notice: self.notice@ }
    }

    fn only(resp: ProcessorResp) -> (out: Self)
        ensures
            out.resp == resp,
            out.notice is Nothing,
    {
        Processed { resp, notice: Notice::Nothing }
    }
}

/// The state that a connection keeps between events.
pub trait Processor: Sized {
    /// What the state is, mathematically.
    type State;

    /// Where the answer to a command is put.
    type ReplySlot;

    /// Where the answer to a ping is put.
    type PongSlot;

    /// The state as it is now.
    spec fn state(&self) -> Self::State;

    /// Holds from the start and after each event.
    spec fn valid(&self) -> bool;
}

/// What the websocket can bring: a message, an error, or nothing any more.
pub enum WsEvent {
    Text(Seq<char>),
    Binary(Seq<u8>),
    Ping(Seq<u8>),
    Pong(Seq<u8>),
    Close,
    ConnectionClosed,
    Failed,
    Dropped,
}

/// What `msg` is an instance of.
pub open spec fn ws_event(msg: Option<Result<Message, WsError>>) -> WsEvent {
    match msg {
        Some(Ok(Message::Text(text))) => WsEvent::Text(text@),
        Some(Ok(Message::Binary(data))) => WsEvent::Binary(data@),
        Some(Ok(Message::Ping(data))) => WsEvent::Ping(data@),
        Some(Ok(Message::Pong(data))) => WsEvent::Pong(data@),
        Some(Ok(Message::Close(_))) => WsEvent::Close,
        Some(Err(WsError::ConnectionClosed)) => WsEvent::ConnectionClosed,
        Some(Err(WsError::Other(_))) => WsEvent::Failed,
        None => WsEvent::Dropped,
    }
}

/// Reacts to what the websocket brings.
pub trait MsgProcessor: Processor {
    /// Whether a pong with `data` may come up in `state`.
    spec fn accepts_pong(state: Self::State, data: Seq<u8>) -> bool;

    /// What a text does.
    spec fn after_text(state: Self::State, data: Seq<char>) -> Step<
        Self::State,
        Self::ReplySlot,
        Self::PongSlot,
    >;

    /// What a pong does.
    spec fn after_pong(state: Self::State, data: Seq<u8>) -> Step<
        Self::State,
        Self::ReplySlot,
        Self::PongSlot,
    >;

    /// Takes a text in.
    fn on_text(&mut self, data: String) -> (out: Processed<Self::ReplySlot, Self::PongSlot>)
        requires
            old(self).valid(),
        ensures
            final(self).valid(),
            out.step(final(self).state()) == Self::after_text(old(self).state(), data@),
    ;

    /// Takes a pong in.
    fn on_pong(&mut self, data: Vec<u8>) -> (out: Processed<Self::ReplySlot, Self::PongSlot>)
        requires
            old(self).valid(),
            Self::accepts_pong(old(self).state(), data@),
        ensures
            final(self).valid(),
            out.step(final(self).state()) == Self::after_pong(old(self).state(), data@),
    ;

    /// A binary message is ignored.
    fn on_binary(&mut self, _data: Vec<u8>) -> (out: Processed<Self::ReplySlot, Self::PongSlot>)
        ensures
            *final(self) == *old(self),
            out.resp is Continue,
            out.notice is Nothing,
    {
        Processed::only(ProcessorResp::Continue)
    }

    /// A ping is answered with a pong that carries the same data.
    fn on_ping(&mut self, data: Vec<u8>) -> (out: Processed<Self::ReplySlot, Self::PongSlot>)
        ensures
            *final(self) == *old(self),
            out.resp@ == RespView::ContinueWith(MessageView::Pong(data@)),
            out.notice is Nothing,
    {
        Processed::only(ProcessorResp::ContinueWith(Message::Pong(data)))
    }

    /// A close message is ignored: the websocket reports the end of the connection by itself.
    fn on_close(&mut self, _data: Option<CloseFrame>) -> (out: Processed<
        Self::ReplySlot,
        Self::PongSlot,
    >)
        ensures
            *final(self) == *old(self),
            out.resp is Continue,
            out.notice is Nothing,
    {
        Processed::only(ProcessorResp::Continue)
    }

    /// A connection that was closed is made anew.
    fn on_conn_closed(&mut self) -> (out: Processed<Self::ReplySlot, Self::PongSlot>)
        ensures
            *final(self) == *old(self),
            out.resp is Reconnect,
            out.notice is Nothing,
    {
        Processed::only(ProcessorResp::Reconnect)
    }

    /// A connection that failed is made anew.
    fn on_err(&mut self, _err: WsError) -> (out: Processed<Self::ReplySlot, Self::PongSlot>)
        ensures
            *final(self) == *old(self),
            out.resp is Reconnect,
            out.notice is Nothing,
    {
        Processed::only(ProcessorResp::Reconnect)
    }

    /// Where the websocket is gone there is nothing more to do.
    fn on_channel_dropped(&mut self) -> (out: Processed<Self::ReplySlot, Self::PongSlot>)
        ensures
            *final(self) == *old(self),
            out.resp is Finish,
            out.notice is Nothing,
    {
        Processed::only(ProcessorResp::Finish)
    }

    /// Hands what the websocket brought to the reaction that it calls for.
    fn process_msg(&mut self, msg: Option<Result<Message, WsError>>) -> (out: Processed<
        Self::ReplySlot,
        Self::PongSlot,
    >)
        requires
            old(self).valid(),
            ws_event(msg) matches WsEvent::Pong(data) ==> Self::accepts_pong(
                old(self).state(),
                data,
            ),
        ensures
            final(self).valid(),
            match ws_event(msg) {
                WsEvent::Text(data) => out.step(final(self).state()) == Self::after_text(
                    old(self).state(),
                    data,
                ),
                WsEvent::Pong(data) => out.step(final(self).state()) == Self::after_pong(
                    old(self).state(),
                    data,
                ),
                other => {
                    &&& *final(self) == *old(self)
                    &&& out.resp@ == plain_resp(other)
                    &&& out.notice is Nothing
                },
            },
    {
        match msg {
            Some(Ok(Message::Text(data))) => self.on_text(data),
            Some(Ok(Message::Binary(data))) => self.on_binary(data),
            Some(Ok(Message::Ping(data))) => self.on_ping(data),
            Some(Ok(Message::Pong(data))) => self.on_pong(data),
            Some(Ok(Message::Close(data))) => self.on_close(data),
            Some(Err(WsError::ConnectionClosed)) => self.on_conn_closed(),
            Some(Err(e)) => self.on_err(e),
            None => self.on_channel_dropped(),
        }
    }
}

/// What an event of the websocket does.
pub open spec fn after_msg<M: MsgProcessor>(state: M::State, event: WsEvent) -> Step<
    M::State,
    M::ReplySlot,
    M::PongSlot,
> {
    match event {
        WsEvent::Text(data) => M::after_text(state, data),
        WsEvent::Pong(data) => M::after_pong(state, data),
        other => Step { state, resp: plain_resp(other), notice: NoticeView::Nothing },
    }
}

/// What an event calls for that every connection reacts to in the same way.
pub open spec fn plain_resp(event: WsEvent) -> RespView {
    match event {
        WsEvent::Ping(data) => RespView::ContinueWith(MessageView::Pong(data)),
        WsEvent::ConnectionClosed => RespView::Reconnect,
        WsEvent::Failed => RespView::Reconnect,
        WsEvent::Dropped => RespView::Finish,
        _ => RespView::Continue,
    }
}

/// Reacts to commands of the type `T`.
pub trait CmdProcessor<T>: Processor {
    /// Whether a command may come up in `state`.
    spec fn accepts_cmd(state: Self::State, cmd: T) -> bool;

    /// What a command does.
    spec fn after_cmd(state: Self::State, cmd: T) -> Step<
        Self::State,
        Self::ReplySlot,
        Self::PongSlot,
    >;

    /// Takes a command in.
    fn on_cmd(&mut self, cmd: T) -> (out: Processed<Self::ReplySlot, Self::PongSlot>)
        requires
            old(self).valid(),
            Self::accepts_cmd(old(self).state(), cmd),
        ensures
            final(self).valid(),
            out.step(final(self).state()) == Self::after_cmd(old(self).state(), cmd),
    ;

    /// Where no more commands can come there is nothing more to do.
    fn on_channel_dropped(&mut self) -> (out: Processed<Self::ReplySlot, Self::PongSlot>)
        ensures
            *final(self) == *old(self),
            out.resp is Finish,
            out.notice is Nothing,
    {
        Processed::only(ProcessorResp::Finish)
    }

    /// Hands a command on, or the news that there are no more.
    fn process_cmd(&mut self, cmd: Option<T>) -> (out: Processed<Self::ReplySlot, Self::PongSlot>)
        requires
            old(self).valid(),
            cmd matches Some(c) ==> Self::accepts_cmd(old(self).state(), c),
        ensures
            final(self).valid(),
            match cmd {
                Some(c) => out.step(final(self).state()) == Self::after_cmd(old(self).state(), c),
                None => {
                    &&& *final(self) == *old(self)
                    &&& out.resp is Finish
                    &&& out.notice is Nothing
                },
            },
    {
        match cmd {
            Some(cmd) => self.on_cmd(cmd),
            None => self.on_channel_dropped(),
        }
    }
}

/// Reacts to the wish to ping the other side.
pub trait PingProcessor: Processor {
    /// What a wish to ping does. `None` is the news that there will be no more.
    spec fn after_ping(
        state: Self::State,
        ping_req: Option<(u64, Self::PongSlot)>,
    ) -> Step<Self::State, Self::ReplySlot, Self::PongSlot>;

    /// Takes the wish to ping in, or the news that there are no more.
    fn process_ping(&mut self, ping_req: Option<(u64, Self::PongSlot)>) -> (out: Processed<
        Self::ReplySlot,
        Self::PongSlot,
    >)
        requires
            old(self).valid(),
        ensures
            final(self).valid(),
            out.step(final(self).state()) == Self::after_ping(old(self).state(), ping_req),
    ;
}

} // verus!
