use serial_bridge::health::HealthSignal;
use serial_bridge::lines::LineBuffer;
use serial_bridge::publisher::{command_payload, command_topic, publisher_step, PublishAction};
use serial_bridge::queue::{BoundedQueue, QUEUE_CAPACITY};
use serial_bridge::reader::extract_messages;
use serial_bridge::serial::SerialManager;
use serial_bridge::timing::{has_elapsed_between, RateFilter};
use serial_bridge::writer::writer_step;

#[test]
fn a_serial_command_line_is_published_unwrapped() {
    let mut buf = LineBuffer::new();
    let msgs = extract_messages(&mut buf, b"{\"command\":\"reset\"}\n");
    assert_eq!(msgs.len(), 1);
    match publisher_step(true, &msgs[0]) {
        PublishAction::Publish(payload) => assert_eq!(payload, "reset"),
        _ => panic!("the command message must be published"),
    }
    assert_eq!(command_topic(), "command");
}

#[test]
fn the_published_payload_is_the_raw_command_value() {
    // The value is carried exactly: no quoting, no wrapping, escapes undone.
    let payload = command_payload("{\"command\":\"re\\\"set now\"}");
    assert_eq!(payload, Some("re\"set now".to_string()));
}

#[test]
fn malformed_command_messages_are_dropped_not_retried() {
    assert!(matches!(publisher_step(true, "{not json}"), PublishAction::Drop));
    assert!(matches!(publisher_step(true, "{\"other\":1}"), PublishAction::Drop));
    assert!(matches!(publisher_step(true, "{\"command\":1}"), PublishAction::Drop));
}

#[test]
fn the_publisher_waits_while_mqtt_is_down() {
    assert!(matches!(publisher_step(false, "{\"command\":\"x\"}"), PublishAction::Wait));
}

#[test]
fn the_writer_never_writes_while_serial_is_down() {
    assert_eq!(writer_step(false, "{\"a\":1}"), None);
}

#[test]
fn the_writer_frames_each_message_with_a_newline() {
    assert_eq!(writer_step(true, "{\"a\":1}"), Some("{\"a\":1}\n".to_string()));
}

#[test]
fn queued_messages_leave_oldest_first() {
    let mut q = BoundedQueue::new(QUEUE_CAPACITY);
    assert!(q.push("m1".to_string()));
    assert!(q.push("m2".to_string()));
    assert!(q.push("m3".to_string()));
    assert_eq!(q.pop(), Some("m1".to_string()));
    assert_eq!(q.pop(), Some("m2".to_string()));
    assert_eq!(q.pop(), Some("m3".to_string()));
    assert_eq!(q.pop(), None);
}

#[test]
fn a_full_queue_refuses_the_next_message() {
    let mut q = BoundedQueue::new(2);
    assert!(q.push("a".to_string()));
    assert!(q.push("b".to_string()));
    assert!(!q.push("c".to_string()));
    assert_eq!(q.len(), 2);
    assert_eq!(q.pop(), Some("a".to_string()));
    assert!(q.push("c".to_string()));
}

#[test]
fn once_healthy_the_oldest_queued_message_is_written_first() {
    let mut q = BoundedQueue::new(QUEUE_CAPACITY);
    assert!(q.push("older".to_string()));
    assert!(q.push("newer".to_string()));
    let head = q.pop().unwrap();
    // While the signal is false the head is not written.
    assert_eq!(writer_step(false, &head), None);
    // Once it flips true, that same oldest message goes out first.
    assert_eq!(writer_step(true, &head), Some("older\n".to_string()));
    assert_eq!(q.pop(), Some("newer".to_string()));
}

#[test]
fn elapsed_time_comparison_is_exact() {
    assert!(has_elapsed_between(0, 5, 5));
    assert!(!has_elapsed_between(0, 4, 5));
    assert!(has_elapsed_between(7, 100, 0));
    // Clock readings out of order count as no time elapsed.
    assert!(!has_elapsed_between(10, 3, 5));
    assert!(has_elapsed_between(10, 3, 0));
}

#[test]
fn the_rate_filter_window_moves_only_on_accepted_samples() {
    let mut f = RateFilter::new(5, 0);
    assert!(!f.accept(3));
    assert!(f.accept(5));
    assert!(!f.accept(9));
    assert!(f.accept(10));
}

#[test]
fn a_zero_interval_filter_accepts_everything() {
    let mut f = RateFilter::new(0, 0);
    assert!(f.accept(0));
    assert!(f.accept(0));
    assert!(f.accept(1));
}

#[test]
fn the_health_signal_is_last_write_wins() {
    let mut h = HealthSignal::new();
    assert!(!h.current());
    h.publish(true);
    assert!(h.current());
    h.publish(true);
    assert!(h.current());
    h.publish(false);
    assert!(!h.current());
}

#[test]
fn the_serial_manager_reopens_only_while_down() {
    let m = SerialManager::new(5000);
    assert!(!m.wants_open(true));
    assert!(m.wants_open(false));
    let (healthy, delay) = m.on_open_result(true);
    assert!(healthy);
    assert_eq!(delay, None);
    let (healthy, delay) = m.on_open_result(false);
    assert!(!healthy);
    assert_eq!(delay, Some(5000));
}
