//! The connection that pointer commands go out on.
use vstd::prelude::*;

use crate::processor::{
    CmdProcessor, Message, MsgProcessor, Notice, PingProcessor, Processed, Processor, ProcessorResp,
};
#[allow(unused_imports)]
use crate::processor::{MessageView, NoticeView, RespView, Step};

verus! {

/// The pointer connection. Nothing is answered on it, so it keeps no state.
#[derive(Debug)]
pub struct PointerConnProcessor;

impl PointerConnProcessor {
    pub fn new() -> (processor: PointerConnProcessor)
        ensures
            processor.valid(),
    {
        PointerConnProcessor
    }
}

impl Processor for PointerConnProcessor {
    type State = ();

    type ReplySlot = ();

    type PongSlot = ();

    open spec fn state(&self) -> () {
        ()
    }

    open spec fn valid(&self) -> bool {
        true
    }
}

impl CmdProcessor<String> for PointerConnProcessor {
    open spec fn accepts_cmd(state: (), cmd: String) -> bool {
        true
    }

    /// A command is sent as the text that it consists of.
    open spec fn after_cmd(state: (), cmd: String) -> Step<(), (), ()> {
        Step {
            state: (),
            resp: RespView::ContinueWith(MessageView::Text(cmd@)),
            notice: NoticeView::Nothing,
        }
    }

    fn on_cmd(&mut self, cmd: String) -> (out: Processed<(), ()>) {
        Processed {
            resp: ProcessorResp::ContinueWith(Message::Text(cmd)),
            notice: Notice::Nothing,
        }
    }
}

impl MsgProcessor for PointerConnProcessor {
    open spec fn accepts_pong(state: (), data: Seq<u8>) -> bool {
        true
    }

    /// Texts are ignored.
    open spec fn after_text(state: (), data: Seq<char>) -> Step<(), (), ()> {
        Step { state: (), resp: RespView::Continue, notice: NoticeView::Nothing }
    }

    /// Pongs are ignored.
    open spec fn after_pong(state: (), data: Seq<u8>) -> Step<(), (), ()> {
        Step { state: (), resp: RespView::Continue, notice: NoticeView::Nothing }
    }

    fn on_text(&mut self, _data: String) -> (out: Processed<(), ()>) {
        Processed { resp: ProcessorResp::Continue, notice: Notice::Nothing }
    }

    fn on_pong(&mut self, _data: Vec<u8>) -> (out: Processed<(), ()>) {
        Processed { resp: ProcessorResp::Continue, notice: Notice::Nothing }
    }
}

impl PingProcessor for PointerConnProcessor {
    /// No pings are sent.
    open spec fn after_ping(state: (), ping_req: Option<(u64, ())>) -> Step<(), (), ()> {
        Step { state: (), resp: RespView::Continue, notice: NoticeView::Nothing }
    }

    fn process_ping(&mut self, _ping_req: Option<(u64, ())>) -> (out: Processed<(), ()>) {
        Processed { resp: ProcessorResp::Continue, notice: Notice::Nothing }
    }
}

} // verus!
