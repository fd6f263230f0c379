use event_loop_server::events::Event;
use event_loop_server::servers::udp_server::{Action, Completion, DatagramLoop};
use event_loop_server::servers::READ_BUFFER_SIZE;
use event_loop_server::start_udp_server;

type Loop = DatagramLoop<u16>;

/// A loop that is bound, has its sink, and waits for a datagram.
fn receiving() -> Loop {
    let (mut udp, action) = start_udp_server::<u16, String>();
    assert_eq!(action, Action::Bind);
    assert_eq!(udp.step::<String>(Completion::Bound), Some(Action::StartSink));
    assert_eq!(udp.step::<String>(Completion::SinkStarted), Some(Action::Receive));
    udp
}

#[test]
fn udp_starts_by_binding() {
    let (udp, action) = start_udp_server::<u16, String>();
    assert_eq!(udp, DatagramLoop::Binding);
    assert_eq!(action, Action::Bind);
}

#[test]
fn udp_bind_failure_is_reported_and_final() {
    let (mut udp, _) = start_udp_server::<u16, String>();
    assert_eq!(
        udp.step(Completion::BindFailed { error: "address in use".to_string() }),
        Some(Action::Fail { error: "address in use".to_string() })
    );
    assert_eq!(udp, DatagramLoop::Failed);
    assert_eq!(udp.step::<String>(Completion::Bound), None);
    assert_eq!(udp.step::<String>(Completion::SinkStarted), None);
    assert_eq!(udp.step::<String>(Completion::Received { bytes: b"late", from: 1 }), None);
    assert_eq!(udp.step::<String>(Completion::Sent), None);
    assert_eq!(udp, DatagramLoop::Failed);
}

#[test]
fn udp_round_trip() {
    let mut udp = receiving();
    assert_eq!(
        udp.step::<String>(Completion::Received { bytes: b"hello", from: 4000 }),
        Some(Action::Enqueue { event: Event::Custom("hello".to_string()) })
    );
    assert_eq!(udp, DatagramLoop::Enqueueing { data: b"hello".to_vec(), peer: 4000 });
    assert_eq!(
        udp.step::<String>(Completion::Enqueued),
        Some(Action::SendTo { data: b"hello".to_vec(), to: 4000 })
    );
    assert_eq!(udp, DatagramLoop::Replying);
    assert_eq!(udp.step::<String>(Completion::Sent), Some(Action::Receive));
    assert_eq!(udp, DatagramLoop::Receiving);
}

#[test]
fn udp_replies_go_to_the_sender_of_each_datagram() {
    let mut udp = receiving();
    for (payload, sender) in [(&b"one"[..], 1u16), (&b"two"[..], 2), (&b"three"[..], 1)] {
        udp.step::<String>(Completion::Received { bytes: payload, from: sender });
        assert_eq!(
            udp.step::<String>(Completion::Enqueued),
            Some(Action::SendTo { data: payload.to_vec(), to: sender })
        );
        assert_eq!(udp.step::<String>(Completion::Sent), Some(Action::Receive));
    }
}

#[test]
fn udp_empty_datagram_is_empty_text_and_is_answered() {
    let mut udp = receiving();
    assert_eq!(
        udp.step::<String>(Completion::Received { bytes: &[], from: 7 }),
        Some(Action::Enqueue { event: Event::Custom(String::new()) })
    );
    assert_eq!(
        udp.step::<String>(Completion::Enqueued),
        Some(Action::SendTo { data: Vec::new(), to: 7 })
    );
}

#[test]
fn udp_ping_is_enqueued_as_ping() {
    let mut udp = receiving();
    assert_eq!(
        udp.step::<String>(Completion::Received { bytes: b"ping", from: 7 }),
        Some(Action::Enqueue { event: Event::Ping(b"ping".to_vec()) })
    );
}

#[test]
fn udp_datagram_of_a_full_buffer_is_kept_whole() {
    let payload = vec![b'a'; READ_BUFFER_SIZE];
    let mut udp = receiving();
    udp.step::<String>(Completion::Received { bytes: &payload, from: 9 });
    assert_eq!(
        udp.step::<String>(Completion::Enqueued),
        Some(Action::SendTo { data: payload, to: 9 })
    );
}

#[test]
fn udp_payload_over_the_buffer_is_cut_to_its_first_1024_bytes() {
    let mut payload = vec![b'a'; 1024];
    payload.extend_from_slice(b"this part is lost");
    let mut udp = receiving();
    assert_eq!(
        udp.step::<String>(Completion::Received { bytes: &payload, from: 9 }),
        Some(Action::Enqueue { event: Event::Custom("a".repeat(1024)) })
    );
    assert_eq!(
        udp.step::<String>(Completion::Enqueued),
        Some(Action::SendTo { data: vec![b'a'; 1024], to: 9 })
    );
}

#[test]
fn udp_receive_failure_is_not_fatal() {
    let mut udp = receiving();
    for _ in 0..4 {
        assert_eq!(udp.step::<String>(Completion::ReceiveFailed), Some(Action::Receive));
        assert_eq!(udp, DatagramLoop::Receiving);
    }
}

#[test]
fn udp_send_failure_is_not_fatal() {
    let mut udp = receiving();
    udp.step::<String>(Completion::Received { bytes: b"dropped reply", from: 3 });
    udp.step::<String>(Completion::Enqueued);
    assert_eq!(udp.step::<String>(Completion::SendFailed), Some(Action::Receive));
    assert_eq!(udp, DatagramLoop::Receiving);
}

#[test]
fn udp_closed_queue_does_not_stop_the_reply() {
    let mut udp = receiving();
    udp.step::<String>(Completion::Received { bytes: &[0xFF, 0xFE], from: 3 });
    assert_eq!(
        udp.step::<String>(Completion::QueueClosed),
        Some(Action::SendTo { data: vec![0xFF, 0xFE], to: 3 })
    );
}

#[test]
fn udp_loop_waits_for_the_queue() {
    let mut udp = receiving();
    udp.step::<String>(Completion::Received { bytes: b"held", from: 5 });
    assert_eq!(udp.step::<String>(Completion::Received { bytes: b"next", from: 6 }), None);
    assert_eq!(udp.step::<String>(Completion::ReceiveFailed), None);
    assert_eq!(udp.step::<String>(Completion::Sent), None);
    assert_eq!(udp.step::<String>(Completion::SendFailed), None);
    assert_eq!(udp, DatagramLoop::Enqueueing { data: b"held".to_vec(), peer: 5 });
    assert_eq!(
        udp.step::<String>(Completion::Enqueued),
        Some(Action::SendTo { data: b"held".to_vec(), to: 5 })
    );
}

#[test]
fn udp_completions_out_of_turn_are_refused() {
    let (mut udp, _) = start_udp_server::<u16, String>();
    assert_eq!(udp.step::<String>(Completion::Received { bytes: b"early", from: 1 }), None);
    assert_eq!(udp.step::<String>(Completion::SinkStarted), None);
    assert_eq!(udp, DatagramLoop::Binding);
    udp.step::<String>(Completion::Bound);
    assert_eq!(udp.step::<String>(Completion::Bound), None);
    assert_eq!(udp.step(Completion::BindFailed { error: "late".to_string() }), None);
    assert_eq!(udp, DatagramLoop::StartingSink);
}
