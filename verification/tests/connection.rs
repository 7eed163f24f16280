use std::time::Duration;

use lgtv::builder::ConnParams;
use lgtv::cmd::{PairingPayload, Reply, TvCmd};
use lgtv::conn::{exited, LinkAction, LinkEvent, PersistentConn, Phase, Waited};
use lgtv::conn_task::{conn_step, ConnAction, ConnEvent, ConnExitStatus};
use lgtv::main_conn::MainConnProcessor;
use lgtv::ping::{PingAction, PingEvent, PingTask};
use lgtv::pointer_conn::PointerConnProcessor;
use lgtv::processor::{
    CloseFrame, CmdProcessor, Message, MsgProcessor, Notice, PingProcessor, ProcessorResp, WsError,
};
use lgtv::{Json, TvError};

type Main = MainConnProcessor<u32, char>;

fn main_conn() -> Main {
    MainConnProcessor::new(PairingPayload::parse("{}").unwrap())
}

fn params() -> ConnParams {
    ConnParams {
        url: "ws://tv/".to_string(),
        client_key: "secret".to_string(),
        connect_timeout: Some(Duration::from_secs(10)),
        read_timeout: Some(Duration::from_secs(5)),
    }
}

fn send(main: &mut Main, cmd: TvCmd<u32>) -> String {
    match conn_step(main, ConnEvent::Cmd(Some(cmd))) {
        (ConnAction::Send(Message::Text(text)), Notice::Nothing) => text,
        other => panic!("{:?}", other),
    }
}

fn receive(main: &mut Main, text: &str) -> Notice<u32, char> {
    let event: ConnEvent<TvCmd<u32>, char> =
        ConnEvent::Msg(Some(Ok(Message::Text(text.to_string()))));
    match conn_step(main, event) {
        (ConnAction::Wait, notice) => notice,
        other => panic!("{:?}", other),
    }
}

#[test]
fn commands_are_numbered() {
    let mut main = main_conn();
    assert_eq!(main.cmd_counter(), 0);
    assert!(send(&mut main, TvCmd::turn_off(1)).contains("\"id\":\"turnOff_0\""));
    assert!(send(&mut main, TvCmd::turn_off(2)).contains("\"id\":\"turnOff_1\""));
    assert!(send(&mut main, TvCmd::get_volume(3)).contains("\"id\":\"getVolume_2\""));
    assert_eq!(main.cmd_counter(), 3);
}

#[test]
fn what_is_sent_can_be_read() {
    let mut main = main_conn();
    let text = send(&mut main, TvCmd::register("key \"1\"".to_string(), 1));
    let sent = Json::parse(&text).unwrap();
    assert_eq!(sent.get("type").unwrap().as_text(), Some(&"register".to_string()));
    let payload = sent.get("payload").unwrap();
    assert_eq!(payload.get("client-key").unwrap().as_text(), Some(&"key \"1\"".to_string()));
    assert!(matches!(receive(&mut main, &text), Notice::Answer(1, _)));
}

#[test]
fn response_answers_its_command_once() {
    let mut main = main_conn();
    send(&mut main, TvCmd::get_volume(1));
    send(&mut main, TvCmd::get_volume(2));
    let second = "{\"id\":\"getVolume_1\",\"payload\":{\"volume\":20}}";
    assert!(matches!(
        receive(&mut main, second),
        Notice::Answer(2, Reply::Volume(Ok(20)))
    ));
    assert!(matches!(receive(&mut main, second), Notice::Nothing));
    let first = "{\"id\":\"getVolume_0\",\"payload\":{\"volume\":10}}";
    assert!(matches!(
        receive(&mut main, first),
        Notice::Answer(1, Reply::Volume(Ok(10)))
    ));
    assert!(main.close().is_empty());
}

#[test]
fn other_texts_are_ignored() {
    let mut main = main_conn();
    send(&mut main, TvCmd::get_volume(1));
    for text in [
        "no json",
        "[]",
        "{}",
        "{\"id\":0}",
        "{\"id\":\"getVolume_1\"}",
        "{\"id\":\"getVolume_00\"}",
        "{\"id\":\"volumeUp_0\"}",
    ] {
        assert!(matches!(receive(&mut main, text), Notice::Nothing));
    }
    assert_eq!(main.close().len(), 1);
}

#[test]
fn closing_answers_every_waiting_command() {
    let mut main = main_conn();
    send(&mut main, TvCmd::get_volume(1));
    send(&mut main, TvCmd::turn_off(2));
    send(&mut main, TvCmd::get_inputs(3));
    receive(&mut main, "{\"id\":\"turnOff_1\"}");
    send(&mut main, TvCmd::volume_up(4));
    let mut answers = main.close();
    answers.sort_by_key(|answer| answer.0);
    assert_eq!(answers.len(), 3);
    assert!(matches!(
        answers[0],
        (1, Reply::Volume(Err(TvError::ConnectionClosed)))
    ));
    assert!(matches!(
        answers[1],
        (3, Reply::Inputs(Err(TvError::ConnectionClosed)))
    ));
    assert!(matches!(answers[2], (4, Reply::Done)));
}

#[test]
fn pong_answers_its_ping() {
    let mut main = main_conn();
    let event: ConnEvent<TvCmd<u32>, char> = ConnEvent::Ping(Some((258, 'p')));
    let data = match conn_step(&mut main, event) {
        (ConnAction::Send(Message::Ping(data)), Notice::Nothing) => data,
        other => panic!("{:?}", other),
    };
    assert_eq!(data, vec![0, 0, 0, 0, 0, 0, 1, 2]);
    assert!(main.is_waiting_for_pong());
    let out = main.on_pong(data.clone());
    assert!(matches!(out.resp, ProcessorResp::Continue));
    assert!(matches!(out.notice, Notice::Alive('p')));
    assert!(!main.is_waiting_for_pong());
    assert!(matches!(main.on_pong(data).notice, Notice::Nothing));
}

#[test]
fn outdated_pong_ends_the_wait_without_an_answer() {
    let mut main = main_conn();
    main.process_ping(Some((2, 'p')));
    assert!(matches!(
        main.on_pong(vec![0, 0, 0, 0, 0, 0, 0, 1]).notice,
        Notice::Nothing
    ));
    assert!(!main.is_waiting_for_pong());
    assert!(matches!(main.on_pong(vec![1, 2]).notice, Notice::Nothing));
    let none = main.process_ping(None);
    assert!(matches!(none.resp, ProcessorResp::Continue));
}

#[test]
fn pong_counts_by_its_first_eight_bytes() {
    let mut main = main_conn();
    main.process_ping(Some((258, 'p')));
    let longer = vec![0, 0, 0, 0, 0, 0, 1, 2, 3];
    assert!(matches!(main.on_pong(longer).notice, Notice::Alive('p')));
    main.process_ping(Some((258, 'p')));
    let other = vec![1, 0, 0, 0, 0, 0, 1, 2];
    assert!(matches!(main.on_pong(other).notice, Notice::Nothing));
}

#[test]
fn websocket_events_are_told_apart() {
    let mut main = main_conn();
    let frame = CloseFrame { code: 1000, reason: "bye".to_string() };
    assert!(matches!(
        main.process_msg(Some(Ok(Message::Binary(vec![1])))).resp,
        ProcessorResp::Continue
    ));
    match main.process_msg(Some(Ok(Message::Ping(vec![1, 2, 3])))).resp {
        ProcessorResp::ContinueWith(Message::Pong(data)) => assert_eq!(data, vec![1, 2, 3]),
        other => panic!("{:?}", other),
    }
    assert!(matches!(
        main.process_msg(Some(Ok(Message::Close(Some(frame))))).resp,
        ProcessorResp::Continue
    ));
    assert!(matches!(
        main.process_msg(Some(Err(WsError::ConnectionClosed))).resp,
        ProcessorResp::Reconnect
    ));
    assert!(matches!(
        main.process_msg(Some(Err(WsError::Other("broken".to_string())))).resp,
        ProcessorResp::Reconnect
    ));
    assert!(matches!(main.process_msg(None).resp, ProcessorResp::Finish));
}

#[test]
fn loop_ends_as_the_processor_says() {
    let mut main = main_conn();
    let close: ConnEvent<TvCmd<u32>, char> = ConnEvent::Close;
    assert!(matches!(
        conn_step(&mut main, close).0,
        ConnAction::Exit(ConnExitStatus::Reconnect(()))
    ));
    let no_more: ConnEvent<TvCmd<u32>, char> = ConnEvent::Cmd(None);
    assert!(matches!(
        conn_step(&mut main, no_more).0,
        ConnAction::Exit(ConnExitStatus::Finish)
    ));
    let no_pings: ConnEvent<TvCmd<u32>, char> = ConnEvent::Ping(None);
    assert!(matches!(conn_step(&mut main, no_pings).0, ConnAction::Wait));
}

#[test]
fn pointer_commands_are_sent_as_they_are() {
    let mut pointer = PointerConnProcessor::new();
    match pointer.process_cmd(Some("type:click\n\n".to_string())).resp {
        ProcessorResp::ContinueWith(Message::Text(text)) => assert_eq!(text, "type:click\n\n"),
        other => panic!("{:?}", other),
    }
    assert!(matches!(pointer.process_cmd(None).resp, ProcessorResp::Finish));
    assert!(matches!(pointer.on_text("x".to_string()).resp, ProcessorResp::Continue));
    assert!(matches!(pointer.on_pong(vec![]).resp, ProcessorResp::Continue));
    assert!(matches!(pointer.process_ping(Some((1, ()))).resp, ProcessorResp::Continue));
}

#[test]
fn pings_follow_one_another() {
    let (task, action) = PingTask::start();
    assert_eq!(action, PingAction::Sleep(10));
    let (task, action) = task.step(PingEvent::Slept);
    assert_eq!(action, PingAction::Queue(0));
    let (task, action) = task.step(PingEvent::Queued);
    assert_eq!(action, PingAction::AwaitPong(10));
    let (task, action) = task.step(PingEvent::Ponged);
    assert_eq!(action, PingAction::Sleep(10));
    let (task, action) = task.step(PingEvent::Slept);
    assert_eq!(action, PingAction::Queue(1));
    assert_eq!(task.step(PingEvent::QueueClosed).1, PingAction::Stop);
    let (task, _) = task.step(PingEvent::Queued);
    assert_eq!(task.step(PingEvent::Canceled).1, PingAction::Stop);
    let (task, action) = task.step(PingEvent::TimedOut);
    assert_eq!(action, PingAction::SendClose);
    assert_eq!(task.step(PingEvent::CloseSent), (PingTask::Stopped, PingAction::Stop));
}

#[test]
fn waiters_are_told_when_the_registration_is_answered() {
    let (mut conn, action) = PersistentConn::start(params());
    assert_eq!(action, LinkAction::Connect);
    assert!(!conn.is_connected());
    assert_eq!(conn.wait('a'), None);
    assert_eq!(conn.step(LinkEvent::ConnectFailed), (LinkAction::Connect, vec![]));
    assert_eq!(conn.step(LinkEvent::Connected), (LinkAction::Start, vec![]));
    assert_eq!(conn.step(LinkEvent::Started), (LinkAction::Pair, vec![]));
    assert_eq!(conn.wait('b'), None);
    assert!(matches!(
        conn.send_cmd(TvCmd::turn_off(1u32)),
        Err(TvError::NotConnected)
    ));
    assert_eq!(conn.step(LinkEvent::Paired), (LinkAction::AwaitExit, vec!['a', 'b']));
    assert!(conn.is_connected());
    assert_eq!(conn.wait('c'), Some('c'));
    assert!(matches!(conn.send_cmd(TvCmd::turn_off(1u32)), Ok(TvCmd::TurnOff(1))));
    assert_eq!(conn.send_pointer_cmd("x".to_string()).unwrap(), "x");
    assert_eq!(conn.step(LinkEvent::Lost), (LinkAction::Connect, vec![]));
    assert!(!conn.is_connected());
    assert!(matches!(
        conn.send_pointer_cmd("x".to_string()),
        Err(TvError::NotConnected)
    ));
}

#[test]
fn session_from_pairing_to_inputs() {
    let (mut conn, _) = PersistentConn::start(params());
    assert_eq!(conn.wait('w'), None);
    conn.step(LinkEvent::Connected);
    conn.step(LinkEvent::Started);
    let mut main = main_conn();
    let text = send(&mut main, conn.pair_cmd(1));
    assert_eq!(
        text,
        "{\"id\":\"register_0\",\"payload\":{\"client-key\":\"secret\"},\"type\":\"register\"}"
    );
    let paired = receive(&mut main, "{\"type\":\"registered\",\"id\":\"register_0\",\"payload\":{}}");
    assert!(matches!(paired, Notice::Answer(1, Reply::Done)));
    assert_eq!(conn.step(LinkEvent::Paired).1, vec!['w']);
    let cmd = conn.send_cmd(TvCmd::get_inputs(2)).unwrap();
    send(&mut main, cmd);
    let inputs = receive(
        &mut main,
        "{\"id\":\"getExternalInputList_1\",\"payload\":{\"devices\":[{\"id\":\"HDMI_1\"}]}}",
    );
    match inputs {
        Notice::Answer(2, Reply::Inputs(Ok(ids))) => assert_eq!(ids, vec!["HDMI_1"]),
        other => panic!("{:?}", other),
    }
}

#[test]
fn silent_tv_is_connected_to_anew() {
    let (mut conn, _) = PersistentConn::<char>::start(params());
    conn.step(LinkEvent::Connected);
    conn.step(LinkEvent::Started);
    conn.step(LinkEvent::Paired);
    assert_eq!(PingTask::Waiting(5).step(PingEvent::TimedOut).1, PingAction::SendClose);
    let close: ConnEvent<TvCmd<u32>, char> = ConnEvent::Close;
    assert!(matches!(
        conn_step(&mut main_conn(), close).0,
        ConnAction::Exit(ConnExitStatus::Reconnect(()))
    ));
    assert_eq!(conn.step(LinkEvent::Lost).0, LinkAction::Connect);
    assert!(!conn.is_connected());
}

#[test]
fn unanswered_registration_closes_the_connection() {
    let (mut conn, _) = PersistentConn::<char>::start(params());
    conn.step(LinkEvent::Connected);
    conn.step(LinkEvent::Started);
    assert_eq!(conn.step(LinkEvent::PairingFailed).0, LinkAction::Sleep(10));
    assert_eq!(conn.step(LinkEvent::Slept).0, LinkAction::Close);
    assert_eq!(conn.step(LinkEvent::CloseSent).0, LinkAction::AwaitExit);
    assert!(!conn.is_connected());
    assert_eq!(conn.step(LinkEvent::Lost).0, LinkAction::Connect);
    conn.step(LinkEvent::Connected);
    conn.step(LinkEvent::Started);
    conn.step(LinkEvent::Paired);
    assert_eq!(conn.step(LinkEvent::Ended).0, LinkAction::Stop);
    assert_eq!(conn.phase(), Phase::Finished);
}

#[test]
fn every_attempt_goes_by_the_same_parameters() {
    let (mut conn, _) = PersistentConn::<char>::start(params());
    let events = [
        LinkEvent::ConnectFailed,
        LinkEvent::Connected,
        LinkEvent::Started,
        LinkEvent::Paired,
        LinkEvent::Lost,
        LinkEvent::Connected,
        LinkEvent::Started,
        LinkEvent::PairingFailed,
        LinkEvent::Slept,
        LinkEvent::CloseSent,
        LinkEvent::Lost,
    ];
    for event in events {
        let (action, _) = conn.step(event);
        let again = event == LinkEvent::ConnectFailed || event == LinkEvent::Lost;
        assert_eq!(action == LinkAction::Connect, again);
        assert_eq!(conn.params().url, "ws://tv/");
        assert_eq!(conn.params().connect_timeout, Some(Duration::from_secs(10)));
        assert_eq!(conn.params().read_timeout, Some(Duration::from_secs(5)));
        assert!(matches!(conn.pair_cmd(7), TvCmd::Register(key, 7) if key == "secret"));
    }
}

#[test]
fn closed_connection_hands_its_queue_on() {
    let mut main = main_conn();
    send(&mut main, TvCmd::get_volume(1));
    let close: ConnEvent<TvCmd<u32>, char> = ConnEvent::Close;
    let exit = match conn_step(&mut main, close) {
        (ConnAction::Exit(exit), Notice::Nothing) => exit,
        other => panic!("{:?}", other),
    };
    assert_eq!(exited(exit.hand_on(vec!['q'])), (LinkEvent::Lost, Some(vec!['q'])));
    let answers = main.close();
    assert!(matches!(answers[..], [(1, Reply::Volume(Err(TvError::ConnectionClosed)))]));
    assert_eq!(exited(ConnExitStatus::Finish.hand_on('q')), (LinkEvent::Ended, None));
}

#[test]
fn loop_sends_in_order_and_stops_at_the_first_end() {
    let mut main = main_conn();
    let events: Vec<ConnEvent<TvCmd<u32>, char>> = vec![
        ConnEvent::Cmd(Some(TvCmd::turn_off(1))),
        ConnEvent::Msg(Some(Ok(Message::Binary(vec![0])))),
        ConnEvent::Msg(Some(Ok(Message::Ping(vec![9])))),
        ConnEvent::Msg(None),
        ConnEvent::Cmd(Some(TvCmd::turn_off(2))),
    ];
    let mut sent = Vec::new();
    let mut exit = None;
    for event in events {
        match conn_step(&mut main, event).0 {
            ConnAction::Wait => {}
            ConnAction::Send(message) => sent.push(message),
            ConnAction::Exit(status) => {
                exit = Some(status);
                break;
            }
        }
    }
    assert!(matches!(exit, Some(ConnExitStatus::Finish)));
    assert_eq!(sent.len(), 2);
    assert!(matches!(&sent[0], Message::Text(text) if text.contains("turnOff_0")));
    assert!(matches!(&sent[1], Message::Pong(data) if *data == vec![9]));
    assert_eq!(main.cmd_counter(), 1);
}

#[test]
fn waiting_for_an_answer_can_fail() {
    assert_eq!(Waited::Answered(Ok(5)).result().unwrap(), 5);
    assert!(matches!(
        Waited::<u8>::Answered(Err(TvError::InvalidResponse)).result(),
        Err(TvError::InvalidResponse)
    ));
    assert_eq!(
        Waited::<u8>::Canceled("gone".to_string()).result().unwrap_err().message(),
        "Canceled channel: gone"
    );
    assert_eq!(
        Waited::<u8>::TimedOut("late".to_string()).result().unwrap_err().message(),
        "late"
    );
}
