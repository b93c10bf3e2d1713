use serial_bridge::dispatch::{subscription_topics, Dispatcher};

#[test]
fn sps30_payload_is_relabeled_with_the_sps_tag() {
    let mut d = Dispatcher::new(0, 5000, 0);
    let forwarded = d.on_publish("sps30", b"{\"value\":1}", 0);
    assert_eq!(forwarded, Some("{\"value\":1,\"topic\":\"sps\"}".to_string()));
}

#[test]
fn relabeling_the_same_payload_twice_gives_the_same_message() {
    let mut d = Dispatcher::new(0, 5000, 0);
    let first = d.on_publish("imu", b"{\"x\":2}", 10);
    let second = d.on_publish("imu", b"{\"x\":2}", 99);
    assert!(first.is_some());
    assert_eq!(first, second);
}

#[test]
fn an_existing_topic_field_is_overwritten() {
    let mut d = Dispatcher::new(0, 5000, 0);
    let forwarded = d.on_publish("status", b"{\"topic\":\"old\",\"v\":2}", 0);
    assert_eq!(forwarded, Some("{\"topic\":\"status\",\"v\":2}".to_string()));
}

#[test]
fn unknown_topics_are_ignored() {
    let mut d = Dispatcher::new(0, 5000, 0);
    assert_eq!(d.on_publish("somewhere", b"{\"value\":1}", 0), None);
}

#[test]
fn binary_payloads_are_never_forwarded() {
    let mut d = Dispatcher::new(0, 5000, 0);
    let payload: Vec<u8> = vec![0xFF, 0xFE, 0x00];
    assert_eq!(d.on_publish("imu", payload.as_slice(), 0), None);
}

#[test]
fn invalid_utf8_payload_is_dropped_even_where_lossy_decoding_would_parse() {
    let mut d = Dispatcher::new(0, 5000, 0);
    let mut payload: Vec<u8> = Vec::new();
    payload.extend_from_slice(b"{\"v\":\"");
    payload.push(0xFF);
    payload.extend_from_slice(b"\"}");
    assert_eq!(d.on_publish("imu", payload.as_slice(), 0), None);
}

#[test]
fn non_object_json_is_dropped() {
    let mut d = Dispatcher::new(0, 5000, 0);
    assert_eq!(d.on_publish("status", b"5", 0), None);
    assert_eq!(d.on_publish("status", b"[1,2]", 0), None);
}

#[test]
fn anemometer_messages_inside_the_window_are_dropped() {
    let mut d = Dispatcher::new(5, 5000, 0);
    // The window starts at 0; an arrival 3 ms later is early and is dropped.
    assert_eq!(d.on_publish("anemometer", b"{\"w\":1}", 3), None);
    // The drop did not move the window: 5 ms after the start is accepted.
    let accepted = d.on_publish("anemometer", b"{\"w\":2}", 5);
    assert_eq!(accepted, Some("{\"w\":2,\"topic\":\"anm\"}".to_string()));
    // The window now starts at 5: 9 is early, 10 is accepted.
    assert_eq!(d.on_publish("anemometer", b"{\"w\":3}", 9), None);
    assert!(d.on_publish("anemometer", b"{\"w\":4}", 10).is_some());
}

#[test]
fn other_channels_are_not_rate_limited() {
    let mut d = Dispatcher::new(1000, 5000, 0);
    assert!(d.on_publish("sps30", b"{\"v\":1}", 1).is_some());
    assert!(d.on_publish("sps30", b"{\"v\":2}", 2).is_some());
}

#[test]
fn poll_error_resets_subscription_and_health() {
    let mut d = Dispatcher::new(0, 750, 0);
    d.on_subscribe_ok();
    assert!(!d.wants_subscribe());
    assert!(d.healthy);
    let delay = d.on_poll_error();
    assert_eq!(delay, 750);
    assert!(!d.healthy);
    // A fresh subscribe attempt is due after the delay.
    assert!(d.wants_subscribe());
}

#[test]
fn failed_subscription_keeps_the_transport_down() {
    let mut d = Dispatcher::new(0, 200, 0);
    let delay = d.on_subscribe_err();
    assert_eq!(delay, 200);
    assert!(!d.healthy);
    assert!(d.wants_subscribe());
    d.on_subscribe_ok();
    assert!(d.healthy);
    assert!(!d.wants_subscribe());
}

#[test]
fn the_dispatcher_subscribes_to_the_four_fixed_topics() {
    let topics = subscription_topics();
    assert_eq!(topics, vec!["anemometer", "sps30", "imu", "status"]);
}
