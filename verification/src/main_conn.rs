//! The connection that commands go out on and answers come back on.
use vstd::prelude::*;

use crate::bytes::{from_be_bytes, to_be_bytes};
#[allow(unused_imports)]
use crate::bytes::{
    be_bytes, be_value, law_bytes_give_back_the_number, law_number_gives_back_the_bytes,
    lemma_eight_bytes,
};
use crate::cmd::{PairingPayload, Reply, TvCmd};
#[allow(unused_imports)]
use crate::cmd::{law_request_ids_are_unique, law_request_names_its_id};
use crate::json::Json;
#[allow(unused_imports)]
use crate::json::JsonView;
#[allow(unused_imports)]
use crate::json_value::{json_parsed, json_printed, READABLE_DEPTH};
use crate::processor::{
    CmdProcessor, Message, MsgProcessor, Notice, PingProcessor, Processed, Processor, ProcessorResp,
};
#[allow(unused_imports)]
use crate::processor::{MessageView, NoticeView, RespView, Step};
use crate::waiting::WaitingCmds;
#[allow(unused_imports)]
use crate::waiting::closing_answers;

verus! {

/// The state of the main connection.
#[verifier::ext_equal]
pub struct MainState<R, P> {
    /// How many commands were sent.
    pub counter: nat,
    /// The commands without an answer, by the identifier that they were sent with.
    pub waiting: Map<Seq<char>, TvCmd<R>>,
    /// The ping without an answer.
    pub pong: Option<(u64, P)>,
    /// The payload of a registration.
    pub pairing: Map<Seq<char>, JsonView>,
}

impl<R, P> MainState<R, P> {
    /// Whether the waiting command under `id` was sent under the number `n`.
    pub open spec fn waits_under(self, id: Seq<char>, n: nat) -> bool {
        self.waiting.contains_key(id) && id == self.waiting[id].request_id(n)
    }

    /// Every waiting command stands under the identifier that it was sent with, and no two of them were
    /// sent under the same number.
    pub open spec fn coherent(self) -> bool {
        &&& forall|id: Seq<char>| #[trigger]
            self.waiting.contains_key(id) ==> exists|n: nat|
                n < self.counter && #[trigger] self.waits_under(id, n)
        &&& forall|id: Seq<char>, other: Seq<char>, n: nat| #[trigger]
            self.waits_under(id, n) && #[trigger] self.waits_under(other, n) ==> id == other
    }

    /// An event that nothing comes of.
    pub open spec fn idle(self) -> Step<MainState<R, P>, R, P> {
        Step { state: self, resp: RespView::Continue, notice: NoticeView::Nothing }
    }

    /// A command is sent under the next number and waits from then on.
    pub open spec fn after_cmd(self, cmd: TvCmd<R>) -> Step<MainState<R, P>, R, P> {
        Step {
            state: MainState {
                counter: self.counter + 1,
                waiting: self.waiting.insert(cmd.request_id(self.counter), cmd),
                ..self
            },
            resp: RespView::ContinueWith(
                MessageView::Text(json_printed(cmd.request(self.counter, self.pairing))),
            ),
            notice: NoticeView::Nothing,
        }
    }

    /// A response answers the waiting command whose identifier it names. Any other response is
    /// ignored.
    pub open spec fn after_response(self, response: JsonView) -> Step<MainState<R, P>, R, P> {
        match response.at("id"@).text() {
            Some(id) => if self.waiting.contains_key(id) {
                Step {
                    state: MainState { waiting: self.waiting.remove(id), ..self },
                    resp: RespView::Continue,
                    notice: NoticeView::Answer(
                        self.waiting[id].slot(),
                        self.waiting[id].reply(Ok(response)),
                    ),
                }
            } else {
                self.idle()
            },
            None => self.idle(),
        }
    }

    /// A text is a response where it is JSON. Any other text is ignored.
    pub open spec fn after_text(self, text: Seq<char>) -> Step<MainState<R, P>, R, P> {
        match json_parsed(text) {
            Some(response) => self.after_response(response),
            None => self.idle(),
        }
    }

    /// A ping is sent with its number as data, and waits from then on.
    pub open spec fn after_ping(self, ping_req: Option<(u64, P)>) -> Step<MainState<R, P>, R, P> {
        match ping_req {
            Some((ping_counter, slot)) => Step {
                state: MainState { pong: Some((ping_counter, slot)), ..self },
                resp: RespView::ContinueWith(
                    MessageView::Ping(be_bytes(ping_counter as nat, 8)),
                ),
                notice: NoticeView::Nothing,
            },
            None => self.idle(),
        }
    }

    /// A pong ends the wait for one. It counts as an answer where it carries the number of the ping.
    pub open spec fn after_pong(self, data: Seq<u8>) -> Step<MainState<R, P>, R, P> {
        match self.pong {
            Some((ping_counter, slot)) => Step {
                state: MainState { pong: None, ..self },
                resp: RespView::Continue,
                notice: if be_value(data.take(8)) == ping_counter {
                    NoticeView::Alive(slot)
                } else {
                    NoticeView::Nothing
                },
            },
            None => self.idle(),
        }
    }
}

/// The main connection: the commands and the ping that wait for an answer.
///
/// `R` is where the answer to a command is put, `P` where the answer to a ping is put.
pub struct MainConnProcessor<R, P> {
    cmd_counter: u64,
    waiting_cmds: WaitingCmds<R>,
    waiting_pong: Option<(u64, P)>,
    pairing: PairingPayload,
}

impl<R, P> Processor for MainConnProcessor<R, P> {
    type State = MainState<R, P>;

    type ReplySlot = R;

    type PongSlot = P;

    closed spec fn state(&self) -> MainState<R, P> {
        MainState {
            counter: self.cmd_counter as nat,
            waiting: self.waiting_cmds@,
            pong: self.waiting_pong,
            pairing: self.pairing@,
        }
    }

    closed spec fn valid(&self) -> bool {
        self.waiting_cmds.valid() && self.state().coherent()
    }
}

impl<R, P> MainConnProcessor<R, P> {
    /// A connection on which nothing was sent yet.
    pub fn new(pairing: PairingPayload) -> (processor: Self)
        ensures
            processor.valid(),
            processor.state() == (MainState::<R, P> {
                counter: 0,
                waiting: Map::empty(),
                pong: None,
                pairing: pairing@,
            }),
    {
        MainConnProcessor {
            cmd_counter: 0,
            waiting_cmds: WaitingCmds::new(),
            waiting_pong: None,
            pairing,
        }
    }

    /// How many commands were sent.
    pub fn cmd_counter(&self) -> (counter: u64)
        ensures
            counter == self.state().counter,
    {
        self.cmd_counter
    }

    /// Whether a ping waits for its answer.
    pub fn is_waiting_for_pong(&self) -> (waiting: bool)
        ensures
            waiting == (self.state().pong is Some),
    {
        self.waiting_pong.is_some()
    }

    /// Puts a command among those that wait, and writes the message that is sent for it.
    pub fn enqueue(&mut self, cmd: TvCmd<R>) -> (msg: Json)
        requires
            old(self).valid(),
            old(self).state().counter < u64::MAX,
        ensures
            final(self).valid(),
            final(self).state() == old(self).state().after_cmd(cmd).state,
            msg@ == cmd.request(old(self).state().counter, old(self).state().pairing),
    {
        let ghost before = self.state();
        let json_cmd = cmd.prepare(self.cmd_counter, &self.pairing);
        proof {
            law_request_names_its_id(cmd, before.counter, before.pairing);
            law_next_id_is_free(before, cmd);
        }
        if let Some(member) = json_cmd.get("id") {
            if let Some(msg_id) = member.as_text() {
                self.waiting_cmds.insert(msg_id.clone(), cmd);
            }
        }
        self.cmd_counter += 1;
        proof {
            law_cmd_keeps_ids(before, cmd);
        }
        json_cmd
    }

    /// Gives the answer that a response holds to the command that waits for it.
    pub fn on_response(&mut self, resp: Json) -> (out: Processed<R, P>)
        requires
            old(self).valid(),
        ensures
            final(self).valid(),
            out.step(final(self).state()) == old(self).state().after_response(resp@),
    {
        proof {
            law_response_keeps_ids(self.state(), resp@);
        }
        let cmd = match resp.get("id") {
            Some(member) => match member.as_text() {
                Some(id) => self.waiting_cmds.remove(id),
                None => None,
            },
            None => None,
        };
        assert(self.state() == old(self).state().after_response(resp@).state);
        match cmd {
            Some(cmd) => {
                let (slot, reply) = cmd.process(Ok(resp));
                Processed { resp: ProcessorResp::Continue, notice: Notice::Answer(slot, reply) }
            },
            None => Processed { resp: ProcessorResp::Continue, notice: Notice::Nothing },
        }
    }

    /// Ends the connection: every waiting command is answered with the news that it closed.
    pub fn close(self) -> (answers: Vec<(R, Reply)>)
        requires
            self.valid(),
        ensures
            closing_answers(self.state().waiting, answers@),
    {
        self.waiting_cmds.close()
    }
}

impl<R, P> PingProcessor for MainConnProcessor<R, P> {
    open spec fn after_ping(state: MainState<R, P>, ping_req: Option<(u64, P)>) -> Step<
        MainState<R, P>,
        R,
        P,
    > {
        state.after_ping(ping_req)
    }

    fn process_ping(&mut self, ping_req: Option<(u64, P)>) -> (out: Processed<R, P>) {
        proof {
            law_other_events_keep_ids(self.state(), ping_req, Seq::empty(), Seq::empty());
        }
        match ping_req {
            Some((ping_counter, pong_tx)) => {
                let data = to_be_bytes(ping_counter);
                self.waiting_pong = Some((ping_counter, pong_tx));
                Processed {
                    resp: ProcessorResp::ContinueWith(Message::Ping(data)),
                    notice: Notice::Nothing,
                }
            },
            None => Processed { resp: ProcessorResp::Continue, notice: Notice::Nothing },
        }
    }
}

impl<R, P> CmdProcessor<TvCmd<R>> for MainConnProcessor<R, P> {
    open spec fn accepts_cmd(state: MainState<R, P>, cmd: TvCmd<R>) -> bool {
        state.counter < u64::MAX
    }

    open spec fn after_cmd(state: MainState<R, P>, cmd: TvCmd<R>) -> Step<MainState<R, P>, R, P> {
        state.after_cmd(cmd)
    }

    /// What is sent can be read again as the message of the command, where that message is plain.
    fn on_cmd(&mut self, cmd: TvCmd<R>) -> (out: Processed<R, P>)
        ensures
            cmd.request(old(self).state().counter, old(self).state().pairing).is_plain(
                READABLE_DEPTH as nat,
            ) ==> {
                &&& out.resp matches ProcessorResp::ContinueWith(Message::Text(text))
                &&& json_parsed(text@) == Some(
                    cmd.request(old(self).state().counter, old(self).state().pairing),
                )
            },
    {
        let json_cmd = self.enqueue(cmd);
        Processed {
            resp: ProcessorResp::ContinueWith(Message::Text(json_cmd.to_text())),
            notice: Notice::Nothing,
        }
    }
}

impl<R, P> MsgProcessor for MainConnProcessor<R, P> {
    /// A pong that is waited for carries at least the eight bytes of a number.
    open spec fn accepts_pong(state: MainState<R, P>, data: Seq<u8>) -> bool {
        state.pong is Some ==> data.len() >= 8
    }

    open spec fn after_text(state: MainState<R, P>, data: Seq<char>) -> Step<
        MainState<R, P>,
        R,
        P,
    > {
        state.after_text(data)
    }

    open spec fn after_pong(state: MainState<R, P>, data: Seq<u8>) -> Step<MainState<R, P>, R, P> {
        state.after_pong(data)
    }

    fn on_text(&mut self, data: String) -> (out: Processed<R, P>) {
        match Json::parse(data.as_str()) {
            Some(resp) => self.on_response(resp),
            None => Processed { resp: ProcessorResp::Continue, notice: Notice::Nothing },
        }
    }

    fn on_pong(&mut self, data: Vec<u8>) -> (out: Processed<R, P>) {
        proof {
            law_other_events_keep_ids(self.state(), None, data@, Seq::empty());
        }
        if let Some((ping_counter, pong_tx)) = self.waiting_pong.take() {
            let pong_counter = from_be_bytes(&data);
            if ping_counter == pong_counter {
                return Processed {
                    resp: ProcessorResp::Continue,
                    notice: Notice::Alive(pong_tx),
                };
            }
        }
        Processed { resp: ProcessorResp::Continue, notice: Notice::Nothing }
    }
}

/// The identifier of the next command is not in use: no waiting command is ever displaced.
pub proof fn law_next_id_is_free<R, P>(state: MainState<R, P>, cmd: TvCmd<R>)
    requires
        state.coherent(),
    ensures
        !state.waiting.contains_key(cmd.request_id(state.counter)),
{
    let id = cmd.request_id(state.counter);
    if state.waiting.contains_key(id) {
        let n = choose|n: nat| n < state.counter && #[trigger] state.waits_under(id, n);
        law_request_ids_are_unique(cmd, state.counter, state.waiting[id], n);
    }
}

/// A waiting command was sent under one number only.
pub proof fn law_number_of_a_command_is_unique<R, P>(
    state: MainState<R, P>,
    id: Seq<char>,
    m: nat,
    n: nat,
)
    requires
        state.waits_under(id, m),
        state.waits_under(id, n),
    ensures
        m == n,
{
    law_request_ids_are_unique(state.waiting[id], m, state.waiting[id], n);
}

/// Sending a command leaves every waiting command under the identifier that it was sent with, and no
/// two of them under the same number.
pub proof fn law_cmd_keeps_ids<R, P>(state: MainState<R, P>, cmd: TvCmd<R>)
    requires
        state.coherent(),
    ensures
        state.after_cmd(cmd).state.coherent(),
{
    let after = state.after_cmd(cmd).state;
    let new_id = cmd.request_id(state.counter);
    assert forall|id: Seq<char>| #[trigger] after.waiting.contains_key(id) implies exists|n: nat|
        n < after.counter && #[trigger] after.waits_under(id, n) by {
        if id == new_id {
            assert(after.waits_under(id, state.counter));
        } else {
            assert(state.waiting.contains_key(id));
            let n = choose|n: nat| n < state.counter && #[trigger] state.waits_under(id, n);
            assert(after.waits_under(id, n));
        }
    }
    assert forall|id: Seq<char>, other: Seq<char>, n: nat| #[trigger]
        after.waits_under(id, n) && #[trigger] after.waits_under(other, n) implies id == other by {
        lemma_waited_under(state, cmd, id, n);
        lemma_waited_under(state, cmd, other, n);
        if id != new_id && other != new_id {
            assert(state.waits_under(id, n) && state.waits_under(other, n));
        }
    }
}

/// A command that waits after another was sent is that one, under the next number, or waited before,
/// under a smaller one.
proof fn lemma_waited_under<R, P>(state: MainState<R, P>, cmd: TvCmd<R>, id: Seq<char>, n: nat)
    requires
        state.coherent(),
        state.after_cmd(cmd).state.waits_under(id, n),
    ensures
        if id == cmd.request_id(state.counter) {
            n == state.counter
        } else {
            state.waits_under(id, n) && n < state.counter
        },
{
    if id == cmd.request_id(state.counter) {
        law_request_ids_are_unique(cmd, state.counter, cmd, n);
    } else {
        assert(state.waiting.contains_key(id));
        assert(state.waits_under(id, n));
        let m = choose|m: nat| m < state.counter && #[trigger] state.waits_under(id, m);
        law_number_of_a_command_is_unique(state, id, m, n);
    }
}

/// Where fewer commands wait, each as before, they still stand under the identifiers that they were
/// sent with.
proof fn lemma_fewer_waiting<R, P>(state: MainState<R, P>, after: MainState<R, P>)
    requires
        state.coherent(),
        after.counter == state.counter,
        after.waiting.submap_of(state.waiting),
    ensures
        after.coherent(),
{
    assert forall|id: Seq<char>, n: nat| #[trigger] after.waits_under(id, n) implies
        state.waits_under(id, n) by {
        assert(after.waiting.dom().contains(id));
    }
    assert forall|id: Seq<char>| #[trigger] after.waiting.contains_key(id) implies exists|n: nat|
        n < after.counter && #[trigger] after.waits_under(id, n) by {
        assert(after.waiting.dom().contains(id));
        assert(state.waiting.contains_key(id));
        let n = choose|n: nat| n < state.counter && #[trigger] state.waits_under(id, n);
        assert(after.waits_under(id, n));
    }
}

/// A response leaves every waiting command under the identifier that it was sent with, and no two of
/// them under the same number.
pub proof fn law_response_keeps_ids<R, P>(state: MainState<R, P>, response: JsonView)
    requires
        state.coherent(),
    ensures
        state.after_response(response).state.coherent(),
{
    lemma_fewer_waiting(state, state.after_response(response).state);
}

/// Pings, pongs and texts leave every waiting command under the identifier that it was sent with, and
/// no two of them under the same number.
pub proof fn law_other_events_keep_ids<R, P>(
    state: MainState<R, P>,
    ping_req: Option<(u64, P)>,
    data: Seq<u8>,
    text: Seq<char>,
)
    requires
        state.coherent(),
    ensures
        state.after_ping(ping_req).state.coherent(),
        state.after_pong(data).state.coherent(),
        state.after_text(text).state.coherent(),
{
    lemma_fewer_waiting(state, state.after_ping(ping_req).state);
    lemma_fewer_waiting(state, state.after_pong(data).state);
    lemma_fewer_waiting(state, state.after_text(text).state);
}

/// A processor that is valid keeps every waiting command under the identifier that it was sent with, and
/// no two of them under the same number.
pub proof fn law_valid_is_coherent<R, P>(processor: MainConnProcessor<R, P>)
    requires
        processor.valid(),
    ensures
        processor.state().coherent(),
{
}

/// A response that names the identifier in the message of a command answers that command, and leaves
/// waiting what waited before it was sent.
pub proof fn law_response_answers_its_command<R, P>(
    state: MainState<R, P>,
    cmd: TvCmd<R>,
    response: JsonView,
)
    requires
        state.coherent(),
        response.at("id"@) == cmd.request(state.counter, state.pairing).at("id"@),
    ensures
        ({
            let step = state.after_cmd(cmd).state.after_response(response);
            &&& step.notice == NoticeView::<R, P>::Answer(cmd.slot(), cmd.reply(Ok(response)))
            &&& step.state.waiting == state.waiting
        }),
{
    law_request_names_its_id(cmd, state.counter, state.pairing);
    law_next_id_is_free(state, cmd);
    assert(state.waiting.insert(cmd.request_id(state.counter), cmd).remove(
        cmd.request_id(state.counter),
    ) =~= state.waiting);
}

/// A command stays among the waiting ones while responses to others, other commands, pings and pongs
/// come.
pub proof fn law_command_waits_for_its_response<R, P>(
    state: MainState<R, P>,
    id: Seq<char>,
    response: JsonView,
    cmd: TvCmd<R>,
    ping_req: Option<(u64, P)>,
    data: Seq<u8>,
)
    requires
        state.coherent(),
        state.waiting.contains_key(id),
        response.at("id"@).text() != Some(id),
    ensures
        state.after_response(response).state.waiting.contains_key(id),
        state.after_response(response).state.waiting[id] == state.waiting[id],
        state.after_cmd(cmd).state.waiting.contains_key(id),
        state.after_cmd(cmd).state.waiting[id] == state.waiting[id],
        state.after_ping(ping_req).state.waiting == state.waiting,
        state.after_pong(data).state.waiting == state.waiting,
{
    law_next_id_is_free(state, cmd);
}

/// A command is answered once: a second response with the same identifier is ignored.
pub proof fn law_command_is_answered_once<R, P>(
    state: MainState<R, P>,
    first: JsonView,
    second: JsonView,
)
    requires
        first.at("id"@).text() is Some,
        second.at("id"@).text() == first.at("id"@).text(),
    ensures
        ({
            let after = state.after_response(first).state;
            after.after_response(second) == after.idle()
        }),
{
}

/// A pong that carries the data of the ping answers it, and nothing waits for a pong any more.
pub proof fn law_pong_answers_its_ping<R, P>(state: MainState<R, P>, ping_counter: u64, slot: P)
    ensures
        ({
            let ping = state.after_ping(Some((ping_counter, slot)));
            let data = be_bytes(ping_counter as nat, 8);
            let pong = ping.state.after_pong(data);
            &&& ping.resp == RespView::ContinueWith(MessageView::Ping(data))
            &&& data.len() == 8
            &&& pong.notice == NoticeView::<R, P>::Alive(slot)
            &&& pong.state == (MainState { pong: None, ..state })
        }),
{
    lemma_eight_bytes();
    law_bytes_give_back_the_number(ping_counter as nat, 8);
    let data = be_bytes(ping_counter as nat, 8);
    assert(data.take(8) == data);
}

/// A pong counts exactly where its first eight bytes are the data of the ping. It ends the wait in any
/// case.
pub proof fn law_pong_counts_by_its_data<R, P>(
    state: MainState<R, P>,
    ping_counter: u64,
    slot: P,
    data: Seq<u8>,
)
    requires
        data.len() >= 8,
    ensures
        ({
            let pong = state.after_ping(Some((ping_counter, slot))).state.after_pong(data);
            &&& pong.notice == if data.take(8) == be_bytes(ping_counter as nat, 8) {
                NoticeView::<R, P>::Alive(slot)
            } else {
                NoticeView::Nothing
            }
            &&& pong.state == (MainState { pong: None, ..state })
        }),
{
    lemma_eight_bytes();
    law_bytes_give_back_the_number(ping_counter as nat, 8);
    law_number_gives_back_the_bytes(data.take(8));
}

/// A pong with the number of another ping answers nothing, though it ends the wait.
pub proof fn law_outdated_pong_answers_nothing<R, P>(
    state: MainState<R, P>,
    ping_counter: u64,
    slot: P,
    other: u64,
)
    requires
        other != ping_counter,
    ensures
        ({
            let pong = state.after_ping(Some((ping_counter, slot))).state.after_pong(
                be_bytes(other as nat, 8),
            );
            &&& pong.notice == NoticeView::<R, P>::Nothing
            &&& pong.state == (MainState { pong: None, ..state })
        }),
{
    lemma_eight_bytes();
    law_bytes_give_back_the_number(other as nat, 8);
    let data = be_bytes(other as nat, 8);
    assert(data.take(8) == data);
}

} // verus!
