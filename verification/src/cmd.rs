//! The commands that a TV understands: what is sent for each, and what its answer means.
use vstd::prelude::*;

use crate::error::TvError;
use crate::json::{push_member, Json};
#[allow(unused_imports)]
use crate::json::{entries_view, items_view, lemma_items_view, members_plain, JsonView};
#[allow(unused_imports)]
use crate::json_value::{json_parsed, READABLE_DEPTH};
use crate::text::decimal_text;
#[allow(unused_imports)]
use crate::text::{decimal, lemma_decimal_digits, lemma_decimal_injective};

verus! {

pub const AUDIO_URI: &'static str = "ssap://audio";

pub const SYSTEM_URI: &'static str = "ssap://system";

pub const TV_URI: &'static str = "ssap://tv";

pub const NETWORK_INPUT_URI: &'static str = "ssap://com.webos.service.networkinput";

/// The address of a command: the service that it belongs to, a slash, and its name.
pub open spec fn uri(base: Seq<char>, cmd: Seq<char>) -> Seq<char> {
    base + "/"@ + cmd
}

/// The address of the command `cmd` of the service `base`.
pub fn mk_uri(base: &str, cmd: &str) -> (result: String)
    ensures
        result@ == uri(base@, cmd@),
{
    String::from_str(base).concat("/").concat(cmd)
}

/// A command to the TV.
///
/// Each command carries a slot of type `R`, which says where its answer is to be put. The slot is
/// handed back together with the answer, and nothing else is done with it.
#[derive(Debug)]
pub enum TvCmd<R> {
    Register(String, R),
    TurnOff(R),
    OpenChannel(u8, R),
    GetVolume(R),
    SetVolume(u8, R),
    VolumeUp(R),
    VolumeDown(R),
    GetInputs(R),
    SwitchInput(String, R),
    GetPointerInputSocket(R),
}

/// The answer to a command.
#[derive(Debug)]
pub enum Reply {
    /// The command has no result of its own.
    Done,
    /// The volume level.
    Volume(Result<u8, TvError>),
    /// The identifiers of the external inputs.
    Inputs(Result<Vec<String>, TvError>),
    /// The whole response, with the address of the pointer socket in it.
    PointerInputSocket(Result<Json, TvError>),
}

/// What a `Reply` says.
#[verifier::ext_equal]
pub enum ReplyView {
    Done,
    Volume(Result<u8, TvError>),
    Inputs(Result<Seq<Seq<char>>, TvError>),
    PointerInputSocket(Result<JsonView, TvError>),
}

/// The texts in a list of strings.
pub open spec fn texts(strings: Seq<String>) -> Seq<Seq<char>> {
    strings.map_values(|s: String| s@)
}

impl View for Reply {
    type V = ReplyView;

    open spec fn view(&self) -> ReplyView {
        match *self {
            Reply::Done => ReplyView::Done,
            Reply::Volume(result) => ReplyView::Volume(result),
            Reply::Inputs(result) => ReplyView::Inputs(
                match result {
                    Ok(inputs) => Ok(texts(inputs@)),
                    Err(e) => Err(e),
                },
            ),
            Reply::PointerInputSocket(result) => ReplyView::PointerInputSocket(
                response_view(result),
            ),
        }
    }
}

/// What a response says, where there is one.
pub open spec fn response_view(response: Result<Json, TvError>) -> Result<JsonView, TvError> {
    match response {
        Ok(json) => Ok(json@),
        Err(e) => Err(e),
    }
}

/// The volume level in a response: its `payload.volume`, in the range of a byte.
pub open spec fn volume_in(response: JsonView) -> Result<u8, TvError> {
    match response.at("payload"@).at("volume"@).unsigned() {
        Some(level) => Ok((level % 256) as u8),
        None => Err(TvError::InvalidResponse),
    }
}

/// The inputs in a response: the `id` of every device in its `payload.devices` that has one.
pub open spec fn inputs_in(response: JsonView) -> Result<Seq<Seq<char>>, TvError> {
    match response.at("payload"@).at("devices"@).items() {
        Some(devices) => Ok(devices.filter_map(|device: JsonView| device.at("id"@).text())),
        None => Err(TvError::InvalidResponse),
    }
}

/// The payload of a registration, without the key of the client: an object.
pub struct PairingPayload {
    entries: Vec<(String, Json)>,
}

impl View for PairingPayload {
    type V = Map<Seq<char>, JsonView>;

    closed spec fn view(&self) -> Map<Seq<char>, JsonView> {
        entries_view(self.entries@)
    }
}

impl PairingPayload {
    /// Takes the members of an object. `None` where `json` is none.
    pub fn from_json(json: Json) -> (result: Option<PairingPayload>)
        ensures
            match result {
                Some(payload) => json@ == JsonView::Object(payload@),
                None => !(json@ is Object),
            },
    {
        match json {
            Json::Object(entries) => Some(PairingPayload { entries }),
            _ => None,
        }
    }

    /// Reads the payload from a JSON text. `None` where the text is no JSON object.
    pub fn parse(text: &str) -> (result: Option<PairingPayload>)
        ensures
            match result {
                Some(payload) => json_parsed(text@) == Some(JsonView::Object(payload@)),
                None => json_parsed(text@) is None || !(json_parsed(text@)->Some_0 is Object),
            },
    {
        match Json::parse(text) {
            Some(json) => PairingPayload::from_json(json),
            None => None,
        }
    }

    /// The payload with the key of the client in it.
    pub fn with_client_key(&self, client_key: &String) -> (json: Json)
        ensures
            json@ == JsonView::Object(self@.insert("client-key"@, JsonView::Text(client_key@))),
    {
        let mut entries = copy_entries(&self.entries);
        push_member(&mut entries, "client-key", Json::Text(client_key.clone()));
        Json::Object(entries)
    }
}

/// A copy of a list of members.
fn copy_entries(entries: &Vec<(String, Json)>) -> (copies: Vec<(String, Json)>)
    ensures
        entries_view(copies@) == entries_view(entries@),
{
    let mut copies: Vec<(String, Json)> = Vec::new();
    let mut i: usize = 0;
    while i < entries.len()
        invariant
            i <= entries.len(),
            entries_view(copies@) == entries_view(entries@.take(i as int)),
        decreases entries.len() - i,
    {
        let ghost before = copies@;
        copies.push((entries[i].0.clone(), entries[i].1.clone()));
        assert(copies@.drop_last() == before);
        assert(entries@.take(i + 1).drop_last() == entries@.take(i as int));
        i += 1;
    }
    assert(entries@.take(i as int) == entries@);
    copies
}

/// An object with a single member.
fn single_member(key: &str, value: Json) -> (json: Json)
    ensures
        json@ == JsonView::Object(map![key@ => value@]),
{
    let mut entries: Vec<(String, Json)> = Vec::new();
    push_member(&mut entries, key, value);
    Json::Object(entries)
}

/// The identifiers of the devices that have one, in order.
fn device_ids(devices: &Vec<Json>) -> (ids: Vec<String>)
    ensures
        texts(ids@) == items_view(devices@).filter_map(
            |device: JsonView| device.at("id"@).text(),
        ),
{
    let mut ids: Vec<String> = Vec::new();
    let ghost views = items_view(devices@);
    let ghost id_of = |device: JsonView| device.at("id"@).text();
    let mut i: usize = 0;
    proof {
        lemma_items_view(devices@);
        assert(views.take(0) == Seq::<JsonView>::empty());
        assert(views.take(0).filter_map(id_of) == Seq::<Seq<char>>::empty());
    }
    while i < devices.len()
        invariant
            i <= devices.len(),
            views == items_view(devices@),
            views.len() == devices@.len(),
            forall|k: int| 0 <= k < devices@.len() ==> #[trigger] views[k] == devices@[k]@,
            id_of == |device: JsonView| device.at("id"@).text(),
            texts(ids@) == views.take(i as int).filter_map(id_of),
        decreases devices.len() - i,
    {
        proof {
            views.lemma_filter_map_take_succ(id_of, i as int);
            assert(views[i as int] == devices@[i as int]@);
        }
        if let Some(id) = devices[i].get("id") {
            if let Some(text) = id.as_text() {
                let ghost before = ids@;
                ids.push(text.clone());
                assert(texts(ids@) == texts(before).push(text@));
            }
        }
        i += 1;
    }
    assert(views.take(i as int) == views);
    ids
}

impl<R> TvCmd<R> {
    pub fn register(client_key: String, reply: R) -> (cmd: TvCmd<R>)
        ensures
            cmd == TvCmd::Register(client_key, reply),
    {
        TvCmd::Register(client_key, reply)
    }

    pub fn turn_off(reply: R) -> (cmd: TvCmd<R>)
        ensures
            cmd == TvCmd::TurnOff(reply),
    {
        TvCmd::TurnOff(reply)
    }

    pub fn open_channel(num: u8, reply: R) -> (cmd: TvCmd<R>)
        ensures
            cmd == TvCmd::OpenChannel(num, reply),
    {
        TvCmd::OpenChannel(num, reply)
    }

    pub fn get_volume(reply: R) -> (cmd: TvCmd<R>)
        ensures
            cmd == TvCmd::GetVolume(reply),
    {
        TvCmd::GetVolume(reply)
    }

    pub fn set_volume(level: u8, reply: R) -> (cmd: TvCmd<R>)
        ensures
            cmd == TvCmd::SetVolume(level, reply),
    {
        TvCmd::SetVolume(level, reply)
    }

    pub fn volume_up(reply: R) -> (cmd: TvCmd<R>)
        ensures
            cmd == TvCmd::VolumeUp(reply),
    {
        TvCmd::VolumeUp(reply)
    }

    pub fn volume_down(reply: R) -> (cmd: TvCmd<R>)
        ensures
            cmd == TvCmd::VolumeDown(reply),
    {
        TvCmd::VolumeDown(reply)
    }

    pub fn get_inputs(reply: R) -> (cmd: TvCmd<R>)
        ensures
            cmd == TvCmd::GetInputs(reply),
    {
        TvCmd::GetInputs(reply)
    }

    pub fn switch_input(input: &str, reply: R) -> (cmd: TvCmd<R>)
        ensures
            cmd matches TvCmd::SwitchInput(name, slot) && name@ == input@ && slot == reply,
    {
        TvCmd::SwitchInput(String::from_str(input), reply)
    }

    pub fn get_pointer_input_socket(reply: R) -> (cmd: TvCmd<R>)
        ensures
            cmd == TvCmd::GetPointerInputSocket(reply),
    {
        TvCmd::GetPointerInputSocket(reply)
    }

    /// Where the answer to the command is to be put.
    pub open spec fn slot(self) -> R {
        match self {
            TvCmd::Register(_, reply) => reply,
            TvCmd::TurnOff(reply) => reply,
            TvCmd::OpenChannel(_, reply) => reply,
            TvCmd::GetVolume(reply) => reply,
            TvCmd::SetVolume(_, reply) => reply,
            TvCmd::VolumeUp(reply) => reply,
            TvCmd::VolumeDown(reply) => reply,
            TvCmd::GetInputs(reply) => reply,
            TvCmd::SwitchInput(_, reply) => reply,
            TvCmd::GetPointerInputSocket(reply) => reply,
        }
    }

    /// The name of the command.
    pub open spec fn name(self) -> Seq<char> {
        match self {
            TvCmd::Register(_, _) => "register"@,
            TvCmd::TurnOff(_) => "turnOff"@,
            TvCmd::OpenChannel(_, _) => "openChannel"@,
            TvCmd::GetVolume(_) => "getVolume"@,
            TvCmd::SetVolume(_, _) => "setVolume"@,
            TvCmd::VolumeUp(_) => "volumeUp"@,
            TvCmd::VolumeDown(_) => "volumeDown"@,
            TvCmd::GetInputs(_) => "getExternalInputList"@,
            TvCmd::SwitchInput(_, _) => "switchInput"@,
            TvCmd::GetPointerInputSocket(_) => "getPointerInputSocket"@,
        }
    }

    /// Whether the other command is the same one, whatever its arguments are.
    pub open spec fn same_command(self, other: TvCmd<R>) -> bool {
        match self {
            TvCmd::Register(_, _) => other is Register,
            TvCmd::TurnOff(_) => other is TurnOff,
            TvCmd::OpenChannel(_, _) => other is OpenChannel,
            TvCmd::GetVolume(_) => other is GetVolume,
            TvCmd::SetVolume(_, _) => other is SetVolume,
            TvCmd::VolumeUp(_) => other is VolumeUp,
            TvCmd::VolumeDown(_) => other is VolumeDown,
            TvCmd::GetInputs(_) => other is GetInputs,
            TvCmd::SwitchInput(_, _) => other is SwitchInput,
            TvCmd::GetPointerInputSocket(_) => other is GetPointerInputSocket,
        }
    }

    /// The service that the command belongs to. A registration belongs to none.
    pub open spec fn service(self) -> Option<Seq<char>> {
        match self {
            TvCmd::Register(_, _) => None,
            TvCmd::TurnOff(_) => Some(SYSTEM_URI@),
            TvCmd::OpenChannel(_, _) => Some(TV_URI@),
            TvCmd::GetVolume(_) => Some(AUDIO_URI@),
            TvCmd::SetVolume(_, _) => Some(AUDIO_URI@),
            TvCmd::VolumeUp(_) => Some(AUDIO_URI@),
            TvCmd::VolumeDown(_) => Some(AUDIO_URI@),
            TvCmd::GetInputs(_) => Some(TV_URI@),
            TvCmd::SwitchInput(_, _) => Some(TV_URI@),
            TvCmd::GetPointerInputSocket(_) => Some(NETWORK_INPUT_URI@),
        }
    }

    /// The kind of message that the command is sent as.
    pub open spec fn message_type(self) -> Seq<char> {
        match self {
            TvCmd::Register(_, _) => "register"@,
            _ => "request"@,
        }
    }

    /// What the command says beyond its name.
    pub open spec fn payload(self, pairing: Map<Seq<char>, JsonView>) -> Option<JsonView> {
        match self {
            TvCmd::Register(client_key, _) => Some(
                JsonView::Object(pairing.insert("client-key"@, JsonView::Text(client_key@))),
            ),
            TvCmd::OpenChannel(channel, _) => Some(
                JsonView::Object(map!["channelNumber"@ => JsonView::Unsigned(channel as u64)]),
            ),
            TvCmd::SwitchInput(input, _) => Some(
                JsonView::Object(map!["inputId"@ => JsonView::Text(input@)]),
            ),
            TvCmd::SetVolume(level, _) => Some(
                JsonView::Object(map!["volume"@ => JsonView::Unsigned(level as u64)]),
            ),
            _ => None,
        }
    }

    /// What identifies the command when it is the `counter`-th one sent: its name and that number.
    pub open spec fn request_id(self, counter: nat) -> Seq<char> {
        self.name() + "_"@ + decimal(counter)
    }

    /// The message that is sent for the command.
    pub open spec fn request(self, counter: nat, pairing: Map<Seq<char>, JsonView>) -> JsonView {
        let head = map![
            "id"@ => JsonView::Text(self.request_id(counter)),
            "type"@ => JsonView::Text(self.message_type()),
        ];
        let addressed = match self.service() {
            Some(base) => head.insert("uri"@, JsonView::Text(uri(base, self.name()))),
            None => head,
        };
        JsonView::Object(
            match self.payload(pairing) {
                Some(payload) => addressed.insert("payload"@, payload),
                None => addressed,
            },
        )
    }

    /// The answer to the command, given what came back for it.
    pub open spec fn reply(self, response: Result<JsonView, TvError>) -> ReplyView {
        match self {
            TvCmd::GetInputs(_) => ReplyView::Inputs(
                match response {
                    Ok(json) => inputs_in(json),
                    Err(e) => Err(e),
                },
            ),
            TvCmd::GetVolume(_) => ReplyView::Volume(
                match response {
                    Ok(json) => volume_in(json),
                    Err(e) => Err(e),
                },
            ),
            TvCmd::GetPointerInputSocket(_) => ReplyView::PointerInputSocket(response),
            _ => ReplyView::Done,
        }
    }

    /// Writes the message that is sent for the command.
    pub fn prepare(&self, counter: u64, pairing: &PairingPayload) -> (msg: Json)
        ensures
            msg@ == self.request(counter as nat, pairing@),
    {
        let (req_type, service, cmd_name, payload): (
            &'static str,
            Option<&'static str>,
            &'static str,
            Option<Json>,
        ) = match self {
            TvCmd::Register(client_key, _) => (
                "register",
                None,
                "register",
                Some(pairing.with_client_key(client_key)),
            ),
            TvCmd::TurnOff(_) => ("request", Some(SYSTEM_URI), "turnOff", None),
            TvCmd::OpenChannel(channel, _) => (
                "request",
                Some(TV_URI),
                "openChannel",
                Some(single_member("channelNumber", Json::Unsigned(*channel as u64))),
            ),
            TvCmd::GetInputs(_) => ("request", Some(TV_URI), "getExternalInputList", None),
            TvCmd::SwitchInput(input, _) => (
                "request",
                Some(TV_URI),
                "switchInput",
                Some(single_member("inputId", Json::Text(input.clone()))),
            ),
            TvCmd::GetVolume(_) => ("request", Some(AUDIO_URI), "getVolume", None),
            TvCmd::SetVolume(level, _) => (
                "request",
                Some(AUDIO_URI),
                "setVolume",
                Some(single_member("volume", Json::Unsigned(*level as u64))),
            ),
            TvCmd::VolumeUp(_) => ("request", Some(AUDIO_URI), "volumeUp", None),
            TvCmd::VolumeDown(_) => ("request", Some(AUDIO_URI), "volumeDown", None),
            TvCmd::GetPointerInputSocket(_) => (
                "request",
                Some(NETWORK_INPUT_URI),
                "getPointerInputSocket",
                None,
            ),
        };

        let id = String::from_str(cmd_name).concat("_").concat(decimal_text(counter).as_str());
        let mut entries: Vec<(String, Json)> = Vec::new();
        push_member(&mut entries, "id", Json::Text(id));
        push_member(&mut entries, "type", Json::Text(String::from_str(req_type)));
        if let Some(base) = service {
            push_member(&mut entries, "uri", Json::Text(mk_uri(base, cmd_name)));
        }
        if let Some(payload) = payload {
            push_member(&mut entries, "payload", payload);
        }
        Json::Object(entries)
    }

    /// Turns what came back for the command into its answer, and hands back where to put it.
    pub fn process(self, resp: Result<Json, TvError>) -> (answer: (R, Reply))
        ensures
            answer.0 == self.slot(),
            answer.1@ == self.reply(response_view(resp)),
    {
        match self {
            TvCmd::Register(_, ch) => (ch, Reply::Done),
            TvCmd::TurnOff(ch) => (ch, Reply::Done),
            TvCmd::OpenChannel(_, ch) => (ch, Reply::Done),
            TvCmd::SwitchInput(_, ch) => (ch, Reply::Done),
            TvCmd::SetVolume(_, ch) => (ch, Reply::Done),
            TvCmd::VolumeUp(ch) => (ch, Reply::Done),
            TvCmd::VolumeDown(ch) => (ch, Reply::Done),
            TvCmd::GetInputs(ch) => {
                let inputs = match resp {
                    Ok(json) => read_inputs(&json),
                    Err(e) => Err(e),
                };
                (ch, Reply::Inputs(inputs))
            },
            TvCmd::GetVolume(ch) => {
                let level = match resp {
                    Ok(json) => read_volume(&json),
                    Err(e) => Err(e),
                };
                (ch, Reply::Volume(level))
            },
            TvCmd::GetPointerInputSocket(ch) => (ch, Reply::PointerInputSocket(resp)),
        }
    }
}

/// Reads the inputs out of a response.
fn read_inputs(response: &Json) -> (result: Result<Vec<String>, TvError>)
    ensures
        match result {
            Ok(inputs) => inputs_in(response@) == Ok::<_, TvError>(texts(inputs@)),
            Err(e) => inputs_in(response@) == Err::<Seq<Seq<char>>, _>(e),
        },
{
    if let Some(payload) = response.get("payload") {
        if let Some(devices) = payload.get("devices") {
            if let Some(items) = devices.as_items() {
                return Ok(device_ids(items));
            }
        }
    }
    Err(TvError::InvalidResponse)
}

/// Reads the volume level out of a response.
fn read_volume(response: &Json) -> (result: Result<u8, TvError>)
    ensures
        result == volume_in(response@),
{
    if let Some(payload) = response.get("payload") {
        if let Some(volume) = payload.get("volume") {
            if let Some(level) = volume.as_u64() {
                assert(level as u8 == level % 256) by (bit_vector);
                return Ok(#[verifier::truncate] (level as u8));
            }
        }
    }
    Err(TvError::InvalidResponse)
}

/// No two commands have the same name.
pub proof fn law_names_tell_commands_apart<R>(a: TvCmd<R>, b: TvCmd<R>)
    ensures
        a.name() == b.name() <==> a.same_command(b),
{
    reveal_strlit("register");
    reveal_strlit("turnOff");
    reveal_strlit("openChannel");
    reveal_strlit("getVolume");
    reveal_strlit("setVolume");
    reveal_strlit("volumeUp");
    reveal_strlit("volumeDown");
    reveal_strlit("getExternalInputList");
    reveal_strlit("switchInput");
    reveal_strlit("getPointerInputSocket");
    assert("register"@.len() == 8 && "turnOff"@.len() == 7 && "openChannel"@.len() == 11);
    assert("getVolume"@.len() == 9 && "setVolume"@.len() == 9 && "volumeUp"@.len() == 8);
    assert("volumeDown"@.len() == 10 && "getExternalInputList"@.len() == 20);
    assert("switchInput"@.len() == 11 && "getPointerInputSocket"@.len() == 21);
    assert("register"@[0] == 'r' && "volumeUp"@[0] == 'v');
    assert("openChannel"@[0] == 'o' && "switchInput"@[0] == 's');
    assert("getVolume"@[0] == 'g' && "setVolume"@[0] == 's');
}

/// The identifiers of two requests are equal only where the commands are the same, of the same name,
/// and were sent under the same number.
pub proof fn law_request_ids_are_unique<R>(a: TvCmd<R>, m: nat, b: TvCmd<R>, n: nat)
    requires
        a.request_id(m) == b.request_id(n),
    ensures
        a.same_command(b),
        a.name() == b.name(),
        m == n,
{
    reveal_strlit("_");
    let id = a.request_id(m);
    let dm = decimal(m);
    let dn = decimal(n);
    lemma_decimal_digits(m);
    lemma_decimal_digits(n);
    assert(id[id.len() - dm.len() - 1] == '_');
    assert(id[id.len() - dn.len() - 1] == '_');
    if dm.len() < dn.len() {
        assert(id[id.len() - dm.len() - 1] == dn[dn.len() - dm.len() - 1]);
    } else if dn.len() < dm.len() {
        assert(id[id.len() - dn.len() - 1] == dm[dm.len() - dn.len() - 1]);
    }
    assert(dm == id.skip(id.len() - dm.len()));
    assert(dn == id.skip(id.len() - dn.len()));
    lemma_decimal_injective(m, n);
    assert(a.name() == id.take(id.len() - dm.len() - 1));
    assert(b.name() == id.take(id.len() - dn.len() - 1));
    law_names_tell_commands_apart(a, b);
}

/// The message that is sent for a command names the command's identifier.
pub proof fn law_request_names_its_id<R>(
    cmd: TvCmd<R>,
    counter: nat,
    pairing: Map<Seq<char>, JsonView>,
)
    ensures
        cmd.request(counter, pairing).at("id"@).text() == Some(cmd.request_id(counter)),
{
    reveal_strlit("id");
    reveal_strlit("type");
    reveal_strlit("uri");
    reveal_strlit("payload");
    assert("type"@[0] == 't' && "uri"@[0] == 'u' && "payload"@[0] == 'p' && "id"@[0] == 'i');
}

/// The message that is sent for a command is plain, so that it can be read from its text. Of a
/// registration this holds where its payload is plain.
pub proof fn law_request_is_plain<R>(
    cmd: TvCmd<R>,
    counter: nat,
    pairing: Map<Seq<char>, JsonView>,
)
    requires
        cmd is Register ==> JsonView::Object(pairing).is_plain((READABLE_DEPTH - 1) as nat),
    ensures
        cmd.request(counter, pairing).is_plain(READABLE_DEPTH as nat),
{
    let payload_depth = (READABLE_DEPTH - 1) as nat;
    let member_depth = (payload_depth - 1) as nat;
    if cmd is Register {
        assert(members_plain(pairing, member_depth));
    }
    if let Some(payload) = cmd.payload(pairing) {
        assert(members_plain(payload->Object_0, member_depth));
    }
    assert(members_plain(cmd.request(counter, pairing)->Object_0, payload_depth));
}

} // verus!
