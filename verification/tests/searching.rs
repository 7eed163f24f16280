use lgtv::scan::{
    names_webos, read_answer, Received, Scan, ScanStep, RECV_BUFFER_LEN, SEARCH_ADDR, SEARCH_REQUEST,
};

fn answer(server: &str, uuid: &str) -> Vec<u8> {
    let text = format!(
        "HTTP/1.1 200 OK\r\nServer: {}\r\nUSN: uuid:{}::urn:schemas-upnp-org:device:MediaRenderer:1\r\n\r\n",
        server, uuid
    );
    let mut buf = text.into_bytes();
    buf.resize(RECV_BUFFER_LEN, 0);
    buf
}

#[test]
fn request_asks_for_media_renderers() {
    assert_eq!(SEARCH_ADDR, "239.255.255.250:1900");
    assert_eq!(
        SEARCH_REQUEST.as_bytes(),
        b"M-SEARCH * HTTP/1.1\r\n\
        HOST: 239.255.255.250:1900\r\n\
        MAN: \"ssdp:discover\"\r\n\
        MX: 2\r\n\
        ST: urn:schemas-upnp-org:device:MediaRenderer:1\r\n\r\n"
    );
}

#[test]
fn tv_is_known_by_its_server_line() {
    let (found, uuid) = read_answer(&answer("WebOS/4.1.0 UPnP/1.0 LGE WebOS TV/Version 0.9", "abc-1"));
    assert!(found);
    assert_eq!(uuid, Some("abc-1".to_string()));
    let (found, uuid) = read_answer(&answer("Linux UPnP/1.0 Sonos", "abc-2"));
    assert!(!found);
    assert_eq!(uuid, Some("abc-2".to_string()));
}

#[test]
fn only_whole_lines_count() {
    assert_eq!(read_answer(b""), (false, None));
    assert_eq!(read_answer(b"\n\n"), (false, None));
    assert_eq!(read_answer(b"X-Server: LGE WebOS TV"), (false, None));
    assert_eq!(read_answer(b"Server:\nLGE WebOS TV"), (false, None));
    assert_eq!(read_answer(b"Server:LGE WebOS TV"), (true, None));
    assert_eq!(read_answer(b"server:LGE WebOS TV"), (false, None));
    assert_eq!(read_answer(b"x\nServer: LGE WebOS T"), (false, None));
}

#[test]
fn uuid_is_the_third_part_of_the_last_such_line() {
    assert_eq!(read_answer(b"USN: uuid:").1, Some("".to_string()));
    assert_eq!(read_answer(b"USN: uuid:a").1, Some("a".to_string()));
    assert_eq!(read_answer(b"USN: uuid:a:b:c").1, Some("a".to_string()));
    assert_eq!(read_answer(b"USN: uuid:a\r\n").1, Some("a\r".to_string()));
    assert_eq!(read_answer(b"USN: uuid:a:\nUSN: uuid:b:\n").1, Some("b".to_string()));
    assert_eq!(read_answer(b"USN:uuid:a").1, None);
    assert_eq!(read_answer(b"USN: uuid:\xff!").1, Some("\u{fffd}!".to_string()));
    assert_eq!(read_answer("USN: uuid:ä".as_bytes()).1, Some("ä".to_string()));
}

#[test]
fn bytes_that_are_no_text_do_not_hide_the_tv() {
    assert!(read_answer(b"Server: \xff\xfe LGE WebOS TV \x80").0);
    assert!(!read_answer(b"Server: LGE \xffWebOS TV").0);
}

#[test]
fn webos_is_named_anywhere_in_the_line() {
    assert!(names_webos("LGE WebOS TV"));
    assert!(names_webos("x LGE LGE WebOS TV/1"));
    assert!(!names_webos("LGE WebOS T"));
    assert!(!names_webos(""));
}

#[test]
fn each_tv_is_found_once() {
    let mut scan = Scan::new(5_000);
    scan.on_answer(&answer("LGE WebOS TV", "one"), "192.168.2.3".to_string(), 1_000);
    assert_eq!(scan.remaining(), 4_000);
    scan.on_answer(&answer("Sonos", "two"), "192.168.2.4".to_string(), 500);
    scan.on_answer(&answer("LGE WebOS TV", "three"), "192.168.2.5".to_string(), 0);
    scan.on_answer(&answer("LGE WebOS TV", "again"), "192.168.2.3".to_string(), 3_500);
    assert_eq!(scan.remaining(), 0);
    let tvs = scan.finish();
    assert_eq!(tvs.len(), 2);
    assert_eq!(tvs[0].addr, "192.168.2.3");
    assert_eq!(tvs[0].uuid, Some("one".to_string()));
    assert_eq!(tvs[1].addr, "192.168.2.5");
    assert_eq!(tvs[1].uuid, Some("three".to_string()));
}

#[test]
fn tvs_stand_in_the_order_of_their_first_answers() {
    let mut scan = Scan::new(100);
    for (server, addr) in [
        ("Sonos", "a"),
        ("LGE WebOS TV", "b"),
        ("LGE WebOS TV", "a"),
        ("LGE WebOS TV", "b"),
        ("LGE WebOS TV", "c"),
    ] {
        scan.on_answer(&answer(server, addr), addr.to_string(), 10);
    }
    assert_eq!(scan.remaining(), 50);
    let addrs: Vec<String> = scan.finish().into_iter().map(|tv| tv.addr).collect();
    assert_eq!(addrs, vec!["b", "a", "c"]);
}

#[test]
fn search_ends_in_time_or_with_an_error() {
    let buf = answer("LGE WebOS TV", "one");
    let heard = || -> Scan {
        match Scan::new(10).step::<u8>(&buf, Received::Answer("tv".to_string(), 4)) {
            ScanStep::Waiting(scan) => scan,
            ScanStep::Over(_) => panic!("over"),
        }
    };
    assert_eq!(heard().remaining(), 6);
    match heard().step::<u8>(&buf, Received::TimedOut) {
        ScanStep::Over(Ok(tvs)) => {
            assert_eq!(tvs.len(), 1);
            assert_eq!(tvs[0].addr, "tv");
        }
        _ => panic!("no result"),
    }
    assert!(matches!(heard().step(&buf, Received::Failed(5)), ScanStep::Over(Err(5))));
}

#[test]
fn tv_can_be_noted_without_an_identifier() {
    let mut scan = Scan::new(1);
    scan.note("a".to_string(), None);
    scan.note("a".to_string(), Some("x".to_string()));
    let tvs = scan.finish();
    assert_eq!(tvs.len(), 1);
    assert_eq!(tvs[0].uuid, None);
}
