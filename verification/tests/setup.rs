use std::time::Duration;

use lgtv::{LgtvBuilder, TvError};

#[test]
fn timeouts_are_kept() {
    let mut builder = LgtvBuilder::default();
    assert_eq!(builder.connect_timeout, None);
    assert_eq!(builder.read_timeout, None);
    let params = builder
        .connect_timeout(Duration::from_secs(10))
        .read_timeout(Duration::from_secs(5))
        .connect("ws://192.168.2.3:3000", "secret")
        .unwrap();
    assert_eq!(params.connect_timeout, Some(Duration::from_secs(10)));
    assert_eq!(params.read_timeout, Some(Duration::from_secs(5)));
    assert_eq!(params.client_key, "secret");
    assert_eq!(params.url, "ws://192.168.2.3:3000/");
    assert_eq!(builder.connect_timeout, Some(Duration::from_secs(10)));
}

#[test]
fn address_must_be_a_url() {
    match LgtvBuilder::default().connect("192.168.2.3", "secret") {
        Err(TvError::InvalidUrl(reason)) => assert_eq!(reason, "relative URL without a base"),
        other => panic!("{:?}", other),
    }
    match LgtvBuilder::default().connect("ws://", "secret") {
        Err(TvError::InvalidUrl(reason)) => assert_eq!(reason, "empty host"),
        other => panic!("{:?}", other),
    }
}

#[test]
fn parameters_follow_the_address() {
    let params = LgtvBuilder::default().params(Ok("ws://tv/".to_string()), "key").unwrap();
    assert_eq!(params.url, "ws://tv/");
    assert_eq!(params.connect_timeout, None);
    assert!(matches!(
        LgtvBuilder::default().params(Err("bad".to_string()), "key"),
        Err(TvError::InvalidUrl(_))
    ));
}
