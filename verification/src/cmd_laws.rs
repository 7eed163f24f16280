//! What holds of the messages that are sent for commands, and of what is read out of the answers.
use vstd::prelude::*;

#[allow(unused_imports)]
use crate::cmd::{
    law_request_ids_are_unique, law_request_names_its_id, response_view, uri, Reply, ReplyView,
    TvCmd,
};
#[allow(unused_imports)]
use crate::error::TvError;
#[allow(unused_imports)]
use crate::json::{Json, JsonView};
#[allow(unused_imports)]
use crate::text::decimal;

verus! {

/// The keys of a message are told apart.
proof fn lemma_keys()
    ensures
        "id"@ != "type"@,
        "id"@ != "uri"@,
        "id"@ != "payload"@,
        "type"@ != "uri"@,
        "type"@ != "payload"@,
        "uri"@ != "payload"@,
{
    reveal_strlit("id");
    reveal_strlit("type");
    reveal_strlit("uri");
    reveal_strlit("payload");
    assert("id"@[0] == 'i' && "type"@[0] == 't' && "uri"@[0] == 'u' && "payload"@[0] == 'p');
}

/// A message without a payload.
pub open spec fn bare(id: Seq<char>, uri: Seq<char>) -> JsonView {
    JsonView::Object(
        map![
            "id"@ => JsonView::Text(id),
            "type"@ => JsonView::Text("request"@),
            "uri"@ => JsonView::Text(uri),
        ],
    )
}

/// A message whose payload has one member.
pub open spec fn loaded(
    id: Seq<char>,
    uri: Seq<char>,
    key: Seq<char>,
    value: JsonView,
) -> JsonView {
    JsonView::Object(
        map![
            "id"@ => JsonView::Text(id),
            "type"@ => JsonView::Text("request"@),
            "uri"@ => JsonView::Text(uri),
            "payload"@ => JsonView::Object(map![key => value]),
        ],
    )
}

/// The message that is sent for each command, member by member.
pub proof fn law_message_of_each_command<R>(
    key: String,
    input: String,
    number: u8,
    slot: R,
    n: nat,
    pairing: Map<Seq<char>, JsonView>,
)
    ensures
        TvCmd::Register(key, slot).request(n, pairing) == JsonView::Object(
            map![
                "id"@ => JsonView::Text("register_"@ + decimal(n)),
                "type"@ => JsonView::Text("register"@),
                "payload"@ => JsonView::Object(
                    pairing.insert("client-key"@, JsonView::Text(key@)),
                ),
            ],
        ),
        TvCmd::TurnOff(slot).request(n, pairing) == bare(
            "turnOff_"@ + decimal(n),
            "ssap://system/turnOff"@,
        ),
        TvCmd::OpenChannel(number, slot).request(n, pairing) == loaded(
            "openChannel_"@ + decimal(n),
            "ssap://tv/openChannel"@,
            "channelNumber"@,
            JsonView::Unsigned(number as u64),
        ),
        TvCmd::GetVolume(slot).request(n, pairing) == bare(
            "getVolume_"@ + decimal(n),
            "ssap://audio/getVolume"@,
        ),
        TvCmd::SetVolume(number, slot).request(n, pairing) == loaded(
            "setVolume_"@ + decimal(n),
            "ssap://audio/setVolume"@,
            "volume"@,
            JsonView::Unsigned(number as u64),
        ),
        TvCmd::VolumeUp(slot).request(n, pairing) == bare(
            "volumeUp_"@ + decimal(n),
            "ssap://audio/volumeUp"@,
        ),
        TvCmd::VolumeDown(slot).request(n, pairing) == bare(
            "volumeDown_"@ + decimal(n),
            "ssap://audio/volumeDown"@,
        ),
        TvCmd::GetInputs(slot).request(n, pairing) == bare(
            "getExternalInputList_"@ + decimal(n),
            "ssap://tv/getExternalInputList"@,
        ),
        TvCmd::SwitchInput(input, slot).request(n, pairing) == loaded(
            "switchInput_"@ + decimal(n),
            "ssap://tv/switchInput"@,
            "inputId"@,
            JsonView::Text(input@),
        ),
        TvCmd::GetPointerInputSocket(slot).request(n, pairing) == bare(
            "getPointerInputSocket_"@ + decimal(n),
            "ssap://com.webos.service.networkinput/getPointerInputSocket"@,
        ),
{
    lemma_keys();
    lemma_ids();
    lemma_uris();
    let register = TvCmd::Register(key, slot);
    assert(register.request(n, pairing)->Object_0 =~= map![
        "id"@ => JsonView::Text("register_"@ + decimal(n)),
        "type"@ => JsonView::Text("register"@),
        "payload"@ => JsonView::Object(pairing.insert("client-key"@, JsonView::Text(key@))),
    ]);
    lemma_bare(TvCmd::TurnOff(slot), n, pairing);
    lemma_bare(TvCmd::GetVolume(slot), n, pairing);
    lemma_bare(TvCmd::VolumeUp(slot), n, pairing);
    lemma_bare(TvCmd::VolumeDown(slot), n, pairing);
    lemma_bare(TvCmd::GetInputs(slot), n, pairing);
    lemma_bare(TvCmd::GetPointerInputSocket(slot), n, pairing);
    lemma_loaded(TvCmd::OpenChannel(number, slot), n, pairing);
    lemma_loaded(TvCmd::SetVolume(number, slot), n, pairing);
    lemma_loaded(TvCmd::SwitchInput(input, slot), n, pairing);
}

proof fn lemma_bare<R>(cmd: TvCmd<R>, n: nat, pairing: Map<Seq<char>, JsonView>)
    requires
        cmd.service() is Some,
        cmd.payload(pairing) is None,
        cmd.message_type() == "request"@,
    ensures
        cmd.request(n, pairing) == bare(
            cmd.name() + "_"@ + decimal(n),
            uri(cmd.service()->Some_0, cmd.name()),
        ),
{
    lemma_keys();
    let id = cmd.name() + "_"@ + decimal(n);
    let address = uri(cmd.service()->Some_0, cmd.name());
    assert(cmd.request(n, pairing)->Object_0 =~= bare(id, address)->Object_0);
}

proof fn lemma_loaded<R>(cmd: TvCmd<R>, n: nat, pairing: Map<Seq<char>, JsonView>)
    requires
        cmd is OpenChannel || cmd is SetVolume || cmd is SwitchInput,
    ensures
        cmd.request(n, pairing) == JsonView::Object(
            map![
                "id"@ => JsonView::Text(cmd.name() + "_"@ + decimal(n)),
                "type"@ => JsonView::Text("request"@),
                "uri"@ => JsonView::Text(uri(cmd.service()->Some_0, cmd.name())),
                "payload"@ => cmd.payload(pairing)->Some_0,
            ],
        ),
{
    lemma_keys();
    assert(cmd.request(n, pairing)->Object_0 =~= map![
        "id"@ => JsonView::Text(cmd.name() + "_"@ + decimal(n)),
        "type"@ => JsonView::Text("request"@),
        "uri"@ => JsonView::Text(uri(cmd.service()->Some_0, cmd.name())),
        "payload"@ => cmd.payload(pairing)->Some_0,
    ]);
}

/// The beginnings of the identifiers.
proof fn lemma_ids()
    ensures
        "register"@ + "_"@ == "register_"@,
        "turnOff"@ + "_"@ == "turnOff_"@,
        "openChannel"@ + "_"@ == "openChannel_"@,
        "getVolume"@ + "_"@ == "getVolume_"@,
        "setVolume"@ + "_"@ == "setVolume_"@,
        "volumeUp"@ + "_"@ == "volumeUp_"@,
        "volumeDown"@ + "_"@ == "volumeDown_"@,
        "getExternalInputList"@ + "_"@ == "getExternalInputList_"@,
        "switchInput"@ + "_"@ == "switchInput_"@,
        "getPointerInputSocket"@ + "_"@ == "getPointerInputSocket_"@,
{
    reveal_strlit("_");
    reveal_strlit("register");
    reveal_strlit("register_");
    reveal_strlit("turnOff");
    reveal_strlit("turnOff_");
    reveal_strlit("openChannel");
    reveal_strlit("openChannel_");
    reveal_strlit("getVolume");
    reveal_strlit("getVolume_");
    reveal_strlit("setVolume");
    reveal_strlit("setVolume_");
    reveal_strlit("volumeUp");
    reveal_strlit("volumeUp_");
    reveal_strlit("volumeDown");
    reveal_strlit("volumeDown_");
    reveal_strlit("getExternalInputList");
    reveal_strlit("getExternalInputList_");
    reveal_strlit("switchInput");
    reveal_strlit("switchInput_");
    reveal_strlit("getPointerInputSocket");
    reveal_strlit("getPointerInputSocket_");
}

/// The addresses of the commands.
proof fn lemma_uris()
    ensures
        uri("ssap://system"@, "turnOff"@) == "ssap://system/turnOff"@,
        uri("ssap://tv"@, "openChannel"@) == "ssap://tv/openChannel"@,
        uri("ssap://audio"@, "getVolume"@) == "ssap://audio/getVolume"@,
        uri("ssap://audio"@, "setVolume"@) == "ssap://audio/setVolume"@,
        uri("ssap://audio"@, "volumeUp"@) == "ssap://audio/volumeUp"@,
        uri("ssap://audio"@, "volumeDown"@) == "ssap://audio/volumeDown"@,
        uri("ssap://tv"@, "getExternalInputList"@) == "ssap://tv/getExternalInputList"@,
        uri("ssap://tv"@, "switchInput"@) == "ssap://tv/switchInput"@,
        uri("ssap://com.webos.service.networkinput"@, "getPointerInputSocket"@)
            == "ssap://com.webos.service.networkinput/getPointerInputSocket"@,
{
    reveal_strlit("/");
    reveal_strlit("ssap://system");
    reveal_strlit("ssap://tv");
    reveal_strlit("ssap://audio");
    reveal_strlit("ssap://com.webos.service.networkinput");
    reveal_strlit("turnOff");
    reveal_strlit("openChannel");
    reveal_strlit("getVolume");
    reveal_strlit("setVolume");
    reveal_strlit("volumeUp");
    reveal_strlit("volumeDown");
    reveal_strlit("getExternalInputList");
    reveal_strlit("switchInput");
    reveal_strlit("getPointerInputSocket");
    reveal_strlit("ssap://system/turnOff");
    reveal_strlit("ssap://tv/openChannel");
    reveal_strlit("ssap://audio/getVolume");
    reveal_strlit("ssap://audio/setVolume");
    reveal_strlit("ssap://audio/volumeUp");
    reveal_strlit("ssap://audio/volumeDown");
    reveal_strlit("ssap://tv/getExternalInputList");
    reveal_strlit("ssap://tv/switchInput");
    reveal_strlit("ssap://com.webos.service.networkinput/getPointerInputSocket");
}

/// The arguments of a command stand in the payload of its message, whatever they are.
pub proof fn law_arguments_reach_the_tv<R>(
    key: String,
    input: String,
    number: u8,
    slot: R,
    n: nat,
    pairing: Map<Seq<char>, JsonView>,
)
    ensures
        TvCmd::SetVolume(number, slot).request(n, pairing).at("payload"@).at("volume"@).unsigned()
            == Some(number as u64),
        TvCmd::OpenChannel(number, slot).request(n, pairing).at("payload"@).at(
            "channelNumber"@,
        ).unsigned() == Some(number as u64),
        TvCmd::SwitchInput(input, slot).request(n, pairing).at("payload"@).at("inputId"@).text()
            == Some(input@),
        TvCmd::Register(key, slot).request(n, pairing).at("payload"@).at("client-key"@).text()
            == Some(key@),
        forall|member: Seq<char>|
            member != "client-key"@ ==> #[trigger] TvCmd::Register(key, slot).request(
                n,
                pairing,
            ).at("payload"@).at(member) == JsonView::Object(pairing).at(member),
{
    lemma_keys();
    law_message_of_each_command(key, input, number, slot, n, pairing);
}

/// Two messages are equal exactly where they are sent for the same command, with the same arguments,
/// under the same number. Where the answers are to be put makes no difference.
pub proof fn law_messages_tell_all_but_the_slot<R>(
    a: TvCmd<R>,
    m: nat,
    b: TvCmd<R>,
    n: nat,
    pairing: Map<Seq<char>, JsonView>,
)
    ensures
        a.request(m, pairing) == b.request(n, pairing) <==> m == n && match (a, b) {
            (TvCmd::Register(x, _), TvCmd::Register(y, _)) => x@ == y@,
            (TvCmd::TurnOff(_), TvCmd::TurnOff(_)) => true,
            (TvCmd::OpenChannel(x, _), TvCmd::OpenChannel(y, _)) => x == y,
            (TvCmd::GetVolume(_), TvCmd::GetVolume(_)) => true,
            (TvCmd::SetVolume(x, _), TvCmd::SetVolume(y, _)) => x == y,
            (TvCmd::VolumeUp(_), TvCmd::VolumeUp(_)) => true,
            (TvCmd::VolumeDown(_), TvCmd::VolumeDown(_)) => true,
            (TvCmd::GetInputs(_), TvCmd::GetInputs(_)) => true,
            (TvCmd::SwitchInput(x, _), TvCmd::SwitchInput(y, _)) => x@ == y@,
            (TvCmd::GetPointerInputSocket(_), TvCmd::GetPointerInputSocket(_)) => true,
            _ => false,
        },
{
    if a.request(m, pairing) == b.request(n, pairing) {
        law_request_names_its_id(a, m, pairing);
        law_request_names_its_id(b, n, pairing);
        law_request_ids_are_unique(a, m, b, n);
        match (a, b) {
            (TvCmd::Register(x, r), TvCmd::Register(y, s)) => {
                law_arguments_reach_the_tv(x, x, 0, r, m, pairing);
                law_arguments_reach_the_tv(y, y, 0, s, n, pairing);
            },
            (TvCmd::OpenChannel(x, r), TvCmd::OpenChannel(y, s)) => {
                law_arguments_reach_the_tv(arbitrary(), arbitrary(), x, r, m, pairing);
                law_arguments_reach_the_tv(arbitrary(), arbitrary(), y, s, n, pairing);
            },
            (TvCmd::SetVolume(x, r), TvCmd::SetVolume(y, s)) => {
                law_arguments_reach_the_tv(arbitrary(), arbitrary(), x, r, m, pairing);
                law_arguments_reach_the_tv(arbitrary(), arbitrary(), y, s, n, pairing);
            },
            (TvCmd::SwitchInput(x, r), TvCmd::SwitchInput(y, s)) => {
                law_arguments_reach_the_tv(x, x, 0, r, m, pairing);
                law_arguments_reach_the_tv(y, y, 0, s, n, pairing);
            },
            _ => {},
        }
    }
}

/// Only a registration sends what the pairing payload holds.
pub proof fn law_pairing_payload_goes_out_with_a_registration_only<R>(
    cmd: TvCmd<R>,
    n: nat,
    one: Map<Seq<char>, JsonView>,
    other: Map<Seq<char>, JsonView>,
)
    requires
        !(cmd is Register),
    ensures
        cmd.request(n, one) == cmd.request(n, other),
{
}

/// The answer to a command goes where the command says.
pub proof fn law_answer_goes_to_the_slot_of_the_command<R>(
    text: String,
    number: u8,
    slot: R,
)
    ensures
        TvCmd::Register(text, slot).slot() == slot,
        TvCmd::TurnOff(slot).slot() == slot,
        TvCmd::OpenChannel(number, slot).slot() == slot,
        TvCmd::GetVolume(slot).slot() == slot,
        TvCmd::SetVolume(number, slot).slot() == slot,
        TvCmd::VolumeUp(slot).slot() == slot,
        TvCmd::VolumeDown(slot).slot() == slot,
        TvCmd::GetInputs(slot).slot() == slot,
        TvCmd::SwitchInput(text, slot).slot() == slot,
        TvCmd::GetPointerInputSocket(slot).slot() == slot,
{
}

/// A command that asks for nothing is done, whatever came back for it.
pub proof fn law_commands_that_ask_for_nothing_are_done<R>(
    cmd: TvCmd<R>,
    response: Result<JsonView, TvError>,
)
    requires
        !(cmd is GetVolume),
        !(cmd is GetInputs),
        !(cmd is GetPointerInputSocket),
    ensures
        cmd.reply(response) is Done,
{
}

/// The answer to the question for the pointer socket is the whole response, or the error.
pub proof fn law_pointer_socket_is_the_whole_response<R>(
    slot: R,
    response: Result<JsonView, TvError>,
)
    ensures
        TvCmd::GetPointerInputSocket(slot).reply(response) matches ReplyView::PointerInputSocket(
            answer,
        ) && answer == response,
{
}

/// The volume is the number under `payload.volume`, as far as it fits into a byte. A response without
/// such a number is invalid, and an error stays the error that it is.
pub proof fn law_volume_is_the_number_in_the_payload<R>(
    slot: R,
    response: JsonView,
    level: u64,
    e: TvError,
)
    ensures
        response.at("payload"@).at("volume"@) == JsonView::Unsigned(level) ==> (TvCmd::GetVolume(
            slot,
        ).reply(Ok(response)) matches ReplyView::Volume(Ok(volume)) && volume as int == level as int
            % 256),
        response.at("payload"@).at("volume"@) == JsonView::Unsigned(level) && level < 256 ==> (
        TvCmd::GetVolume(slot).reply(Ok(response)) matches ReplyView::Volume(Ok(volume)) && volume
            == level),
        !(response.at("payload"@).at("volume"@) is Unsigned) ==> TvCmd::GetVolume(slot).reply(
            Ok(response),
        ) == ReplyView::Volume(Err(TvError::InvalidResponse)),
        TvCmd::GetVolume(slot).reply(Err(e)) == ReplyView::Volume(Err(e)),
{
}

/// A TV that reports the payload with which a level was set reports that level.
pub proof fn law_volume_that_was_set_is_the_volume_that_is_read<R>(
    level: u8,
    slot: R,
    n: nat,
    pairing: Map<Seq<char>, JsonView>,
    response: JsonView,
)
    requires
        response.at("payload"@) == TvCmd::SetVolume(level, slot).request(n, pairing).at("payload"@),
    ensures
        TvCmd::GetVolume(slot).reply(Ok(response)) == ReplyView::Volume(Ok(level)),
{
    law_arguments_reach_the_tv(arbitrary(), arbitrary(), level, slot, n, pairing);
}

/// The inputs are the identifiers of the devices under `payload.devices` that have a text for one: as
/// many as there are such devices, and in their order.
pub proof fn law_inputs_are_the_ids_of_the_devices<R>(
    slot: R,
    response: JsonView,
    devices: Seq<JsonView>,
)
    requires
        response.at("payload"@).at("devices"@) == JsonView::Array(devices),
    ensures
        ({
            let named = devices.filter(|device: JsonView| device.at("id"@) is Text);
            &&& TvCmd::GetInputs(slot).reply(Ok(response)) matches ReplyView::Inputs(Ok(inputs))
            &&& inputs.len() == named.len()
            &&& forall|i: int|
                0 <= i < inputs.len() ==> named[i].at("id"@) == JsonView::Text(
                    #[trigger] inputs[i],
                )
        }),
{
    lemma_named_devices(devices);
}

/// Each device with a text for an identifier adds it at the end. Any other device adds nothing.
pub proof fn law_one_more_device_adds_its_id<R>(
    slot: R,
    response: JsonView,
    devices: Seq<JsonView>,
    device: JsonView,
    longer: JsonView,
)
    requires
        response.at("payload"@).at("devices"@) == JsonView::Array(devices),
        longer.at("payload"@).at("devices"@) == JsonView::Array(devices.push(device)),
    ensures
        ({
            let cmd = TvCmd::GetInputs(slot);
            &&& cmd.reply(Ok(response)) matches ReplyView::Inputs(Ok(inputs))
            &&& cmd.reply(Ok(longer)) == ReplyView::Inputs(
                Ok(
                    match device.at("id"@) {
                        JsonView::Text(id) => inputs.push(id),
                        _ => inputs,
                    },
                ),
            )
        }),
{
    let id_of = |device: JsonView| device.at("id"@).text();
    assert(devices.push(device).drop_last() == devices);
    if let JsonView::Text(id) = device.at("id"@) {
        assert(devices.push(device).filter_map(id_of) == devices.filter_map(id_of).push(id));
    }
}

/// An input is listed exactly where one of the devices has it for an identifier.
pub proof fn law_input_is_listed_where_a_device_has_it<R>(
    slot: R,
    response: JsonView,
    devices: Seq<JsonView>,
    input: Seq<char>,
)
    requires
        response.at("payload"@).at("devices"@) == JsonView::Array(devices),
    ensures
        TvCmd::GetInputs(slot).reply(Ok(response)) matches ReplyView::Inputs(Ok(inputs)) && (
        inputs.contains(input) <==> exists|i: int|
            0 <= i < devices.len() && (#[trigger] devices[i]).at("id"@) == JsonView::Text(input)),
{
    lemma_listed(devices, input);
}

/// A response without an array under `payload.devices` is invalid, and an error stays the error that it
/// is.
pub proof fn law_inputs_need_an_array<R>(slot: R, response: JsonView, e: TvError)
    ensures
        !(response.at("payload"@).at("devices"@) is Array) ==> TvCmd::GetInputs(slot).reply(
            Ok(response),
        ) == ReplyView::Inputs(Err(TvError::InvalidResponse)),
        TvCmd::GetInputs(slot).reply(Err(e)) == ReplyView::Inputs(Err(e)),
{
}

proof fn lemma_named_devices(devices: Seq<JsonView>)
    ensures
        ({
            let ids = devices.filter_map(|device: JsonView| device.at("id"@).text());
            let named = devices.filter(|device: JsonView| device.at("id"@) is Text);
            &&& ids.len() == named.len()
            &&& forall|i: int|
                0 <= i < ids.len() ==> named[i].at("id"@) == JsonView::Text(#[trigger] ids[i])
        }),
    decreases devices.len(),
{
    reveal(Seq::filter);
    if devices.len() > 0 {
        lemma_named_devices(devices.drop_last());
    }
}

proof fn lemma_listed(devices: Seq<JsonView>, input: Seq<char>)
    ensures
        devices.filter_map(|device: JsonView| device.at("id"@).text()).contains(input)
            <==> exists|i: int|
            0 <= i < devices.len() && (#[trigger] devices[i]).at("id"@) == JsonView::Text(input),
    decreases devices.len(),
{
    let id_of = |device: JsonView| device.at("id"@).text();
    if devices.len() > 0 {
        let front = devices.drop_last();
        let last = devices.len() - 1;
        let before = front.filter_map(id_of);
        let after = devices.filter_map(id_of);
        lemma_listed(front, input);
        if before.contains(input) {
            let k = choose|k: int| 0 <= k < before.len() && before[k] == input;
            assert(after[k] == input);
            let i = choose|i: int|
                0 <= i < front.len() && (#[trigger] front[i]).at("id"@) == JsonView::Text(input);
            assert(devices[i].at("id"@) == JsonView::Text(input));
        } else {
            if after.contains(input) {
                let k = choose|k: int| 0 <= k < after.len() && after[k] == input;
                if k < before.len() {
                    assert(before[k] == input);
                }
                assert(devices[last].at("id"@) == JsonView::Text(input));
            }
            if exists|i: int|
                0 <= i < devices.len() && (#[trigger] devices[i]).at("id"@) == JsonView::Text(
                    input,
                ) {
                let i = choose|i: int|
                    0 <= i < devices.len() && (#[trigger] devices[i]).at("id"@) == JsonView::Text(
                        input,
                    );
                if i < last {
                    assert(front[i].at("id"@) == JsonView::Text(input));
                }
                assert(after[before.len() as int] == input);
            }
        }
    }
}

/// An answer says what it holds, the inputs text by text and in order.
pub proof fn law_answers_say_what_they_hold(
    level: Result<u8, TvError>,
    inputs: Vec<String>,
    json: Json,
    e: TvError,
)
    ensures
        Reply::Done@ is Done,
        Reply::Volume(level)@ == ReplyView::Volume(level),
        Reply::Inputs(Ok(inputs))@ matches ReplyView::Inputs(Ok(ids)) && ids.len() == inputs@.len()
            && forall|i: int| 0 <= i < ids.len() ==> #[trigger] ids[i] == inputs@[i]@,
        Reply::Inputs(Err(e))@ == ReplyView::Inputs(Err(e)),
        Reply::PointerInputSocket(Ok(json))@ == ReplyView::PointerInputSocket(Ok(json@)),
        Reply::PointerInputSocket(Err(e))@ == ReplyView::PointerInputSocket(Err(e)),
        response_view(Ok(json)) == Ok::<JsonView, TvError>(json@),
        response_view(Err(e)) == Err::<JsonView, TvError>(e),
{
}

/// The address of a command is its service, a slash and its name.
pub proof fn law_address_is_service_slash_name(base: Seq<char>, cmd: Seq<char>)
    ensures
        uri(base, cmd).take(base.len() as int) == base,
        uri(base, cmd)[base.len() as int] == '/',
        uri(base, cmd).skip((base.len() + 1) as int) == cmd,
        uri(base, cmd).len() == base.len() + 1 + cmd.len(),
{
    reveal_strlit("/");
}

/// The words of an error: fixed ones, or what was said about it.
pub proof fn law_errors_are_reported_in_these_words(reason: String)
    ensures
        TvError::InvalidResponse.text() == "Invalid response"@,
        TvError::ConnectionClosed.text() == "Connection closed"@,
        TvError::NotConnected.text() == "Not connected"@,
        TvError::Canceled(reason).text() == "Canceled channel: "@ + reason@,
        TvError::TimedOut(reason).text() == reason@,
        TvError::InvalidUrl(reason).text() == reason@,
{
}

} // verus!
