use lgtv::cmd::{mk_uri, PairingPayload, Reply, TvCmd};
use lgtv::{Json, TvError};

fn pairing() -> PairingPayload {
    PairingPayload::parse("{\"forcePairing\":false,\"pairingType\":\"PROMPT\"}").unwrap()
}

fn sent(cmd: TvCmd<u32>, counter: u64) -> String {
    cmd.prepare(counter, &pairing()).to_text()
}

fn answer(cmd: TvCmd<u32>, response: &str) -> Reply {
    let (slot, reply) = cmd.process(Ok(Json::parse(response).unwrap()));
    assert_eq!(slot, 7);
    reply
}

#[test]
fn uri_is_service_and_name() {
    assert_eq!(mk_uri("ssap://audio", "getVolume"), "ssap://audio/getVolume");
    assert_eq!(mk_uri("", ""), "/");
}

#[test]
fn plain_commands_have_no_payload() {
    assert_eq!(
        sent(TvCmd::turn_off(7), 0),
        "{\"id\":\"turnOff_0\",\"type\":\"request\",\"uri\":\"ssap://system/turnOff\"}"
    );
    assert_eq!(
        sent(TvCmd::get_volume(7), 1),
        "{\"id\":\"getVolume_1\",\"type\":\"request\",\"uri\":\"ssap://audio/getVolume\"}"
    );
    assert_eq!(
        sent(TvCmd::volume_up(7), 19),
        "{\"id\":\"volumeUp_19\",\"type\":\"request\",\"uri\":\"ssap://audio/volumeUp\"}"
    );
    assert_eq!(
        sent(TvCmd::volume_down(7), 200),
        "{\"id\":\"volumeDown_200\",\"type\":\"request\",\"uri\":\"ssap://audio/volumeDown\"}"
    );
    assert_eq!(
        sent(TvCmd::get_inputs(7), u64::MAX),
        "{\"id\":\"getExternalInputList_18446744073709551615\",\"type\":\"request\",\
         \"uri\":\"ssap://tv/getExternalInputList\"}"
    );
    assert_eq!(
        sent(TvCmd::get_pointer_input_socket(7), 3),
        "{\"id\":\"getPointerInputSocket_3\",\"type\":\"request\",\
         \"uri\":\"ssap://com.webos.service.networkinput/getPointerInputSocket\"}"
    );
}

#[test]
fn commands_with_arguments_have_a_payload() {
    assert_eq!(
        sent(TvCmd::open_channel(10, 7), 0),
        "{\"id\":\"openChannel_0\",\"payload\":{\"channelNumber\":10},\"type\":\"request\",\
         \"uri\":\"ssap://tv/openChannel\"}"
    );
    assert_eq!(
        sent(TvCmd::set_volume(255, 7), 4),
        "{\"id\":\"setVolume_4\",\"payload\":{\"volume\":255},\"type\":\"request\",\
         \"uri\":\"ssap://audio/setVolume\"}"
    );
    assert_eq!(
        sent(TvCmd::switch_input("HDMI_3", 7), 5),
        "{\"id\":\"switchInput_5\",\"payload\":{\"inputId\":\"HDMI_3\"},\"type\":\"request\",\
         \"uri\":\"ssap://tv/switchInput\"}"
    );
}

#[test]
fn registration_carries_the_client_key() {
    assert_eq!(
        sent(TvCmd::register("secret".to_string(), 7), 0),
        "{\"id\":\"register_0\",\"payload\":{\"client-key\":\"secret\",\"forcePairing\":false,\
         \"pairingType\":\"PROMPT\"},\"type\":\"register\"}"
    );
}

#[test]
fn client_key_replaces_one_in_the_payload() {
    let pairing = PairingPayload::parse("{\"client-key\":\"old\",\"scale\":-1.5}").unwrap();
    let cmd: TvCmd<u32> = TvCmd::register("new".to_string(), 7);
    assert_eq!(
        cmd.prepare(2, &pairing).to_text(),
        "{\"id\":\"register_2\",\"payload\":{\"client-key\":\"new\",\"scale\":-1.5},\"type\":\"register\"}"
    );
}

#[test]
fn pairing_payload_is_an_object() {
    assert!(PairingPayload::parse("{}").is_some());
    assert!(PairingPayload::parse("[]").is_none());
    assert!(PairingPayload::parse("no json").is_none());
    assert!(PairingPayload::from_json(Json::Null).is_none());
    assert!(PairingPayload::from_json(Json::Object(Vec::new())).is_some());
}

#[test]
fn commands_without_a_result_are_done_whatever_comes_back() {
    for response in ["{}", "null", "{\"type\":\"error\"}"] {
        assert!(matches!(answer(TvCmd::register("k".to_string(), 7), response), Reply::Done));
        assert!(matches!(answer(TvCmd::turn_off(7), response), Reply::Done));
        assert!(matches!(answer(TvCmd::open_channel(1, 7), response), Reply::Done));
        assert!(matches!(answer(TvCmd::switch_input("x", 7), response), Reply::Done));
        assert!(matches!(answer(TvCmd::set_volume(1, 7), response), Reply::Done));
        assert!(matches!(answer(TvCmd::volume_up(7), response), Reply::Done));
        assert!(matches!(answer(TvCmd::volume_down(7), response), Reply::Done));
    }
    let failed: TvCmd<u32> = TvCmd::turn_off(7);
    assert!(matches!(failed.process(Err(TvError::ConnectionClosed)), (7, Reply::Done)));
}

#[test]
fn volume_is_read_from_the_payload() {
    assert!(matches!(
        answer(TvCmd::get_volume(7), "{\"payload\":{\"volume\":10}}"),
        Reply::Volume(Ok(10))
    ));
    assert!(matches!(
        answer(TvCmd::get_volume(7), "{\"payload\":{\"volume\":263}}"),
        Reply::Volume(Ok(7))
    ));
    for response in [
        "{}",
        "[]",
        "{\"payload\":{}}",
        "{\"payload\":{\"volume\":\"10\"}}",
        "{\"payload\":{\"volume\":-1}}",
        "{\"payload\":{\"volume\":1.5}}",
    ] {
        assert!(matches!(
            answer(TvCmd::get_volume(7), response),
            Reply::Volume(Err(TvError::InvalidResponse))
        ));
    }
    let failed: TvCmd<u32> = TvCmd::get_volume(7);
    assert!(matches!(
        failed.process(Err(TvError::ConnectionClosed)),
        (7, Reply::Volume(Err(TvError::ConnectionClosed)))
    ));
}

#[test]
fn get_inputs() {
    let response = "{\"id\":\"getExternalInputList_0\",\"payload\":{\"devices\":[\
        {\"id\":\"HDMI_1\",\"label\":\"HDMI 1\"},{\"label\":\"nameless\"},{\"id\":2},null,\
        {\"id\":\"HDMI_3\"}]}}";
    match answer(TvCmd::get_inputs(7), response) {
        Reply::Inputs(Ok(inputs)) => assert_eq!(inputs, vec!["HDMI_1", "HDMI_3"]),
        other => panic!("{:?}", other),
    }
    match answer(TvCmd::get_inputs(7), "{\"payload\":{\"devices\":[]}}") {
        Reply::Inputs(Ok(inputs)) => assert!(inputs.is_empty()),
        other => panic!("{:?}", other),
    }
    assert!(matches!(
        answer(TvCmd::get_inputs(7), "{\"payload\":{\"devices\":{}}}"),
        Reply::Inputs(Err(TvError::InvalidResponse))
    ));
}

#[test]
fn pointer_socket_is_the_whole_response() {
    let response = "{\"id\":\"x\",\"payload\":{\"n\":0.25,\"socketPath\":\"ws://tv/p\"}}";
    match answer(TvCmd::get_pointer_input_socket(7), response) {
        Reply::PointerInputSocket(Ok(json)) => assert_eq!(json.to_text(), response),
        other => panic!("{:?}", other),
    }
}

#[test]
fn request_ids_differ() {
    let a = TvCmd::turn_off(7u32).prepare(1, &pairing());
    let b = TvCmd::turn_off(7u32).prepare(11, &pairing());
    assert_ne!(a.get("id").unwrap().as_text(), b.get("id").unwrap().as_text());
}

#[test]
fn errors_are_reported_in_words() {
    assert_eq!(TvError::InvalidResponse.message(), "Invalid response");
    assert_eq!(TvError::ConnectionClosed.message(), "Connection closed");
    assert_eq!(TvError::NotConnected.message(), "Not connected");
    assert_eq!(
        TvError::Canceled("oneshot canceled".to_string()).message(),
        "Canceled channel: oneshot canceled"
    );
    assert_eq!(TvError::TimedOut("too late".to_string()).message(), "too late");
    assert_eq!(TvError::InvalidUrl("empty host".to_string()).message(), "empty host");
}
