use coap_server::app::codes::MessageType;
use coap_server::app::retransmission_manager::{
    MessageHeader, ReplyEvent, RetransmissionManager, RetryAction, RetryState, SendFailed,
};

const SECOND: u128 = 1_000_000_000;

fn header() -> MessageHeader {
    MessageHeader { message_type: MessageType::NonConfirmable, message_id: 5 }
}

#[test]
fn test_timeout() {
    // One retransmission allowed: two transmissions, then NoReply(2).
    let mut manager: RetransmissionManager<i32, &str> = RetransmissionManager::with_message_id(17);
    let mut h = header();
    manager.send_reliably(&mut h, 123, "waiter");
    let message_id = h.message_id;
    let mut received: Vec<u16> = vec![];
    let mut transmissions = 0;
    let (mut state, action) = RetryState::start(1, 5 * SECOND);
    let mut next = action;
    let result = loop {
        match next {
            RetryAction::Transmit { timeout_nanos } => {
                transmissions += 1;
                received.push(h.message_id);
                assert_eq!(timeout_nanos, 5 * SECOND * (1 << (transmissions - 1)));
                assert!(state.timeout_ok());
                next = state.on_timeout();
            }
            RetryAction::Wait { .. } => panic!("no reply events in this scenario"),
            RetryAction::Finish(r) => break r,
        }
    };
    assert!(matches!(result, Err(SendFailed::NoReply(2))));
    assert_eq!(transmissions, 2);
    assert_eq!(received.len(), 2);
    assert_eq!(received[0], message_id);
    assert_eq!(message_id, 17);
}

#[test]
fn test_happy_path() {
    let mut manager: RetransmissionManager<i32, &str> = RetransmissionManager::with_message_id(40);
    let mut h = header();
    assert!(manager.send_reliably(&mut h, 123, "waiter").is_none());
    assert_eq!(h.message_type, MessageType::Confirmable);
    assert_eq!(h.message_id, 40);
    let reply = manager.maybe_handle_reply(MessageType::Acknowledgement, h.message_id, &123);
    assert_eq!(reply, Some("waiter"));
    let (state, _) = RetryState::start(0, 999 * SECOND);
    let action = state.on_reply(&ReplyEvent::PeerResponse(MessageType::Acknowledgement));
    assert!(matches!(action, RetryAction::Finish(Ok(()))));
}

#[test]
fn test_reset() {
    let mut manager: RetransmissionManager<i32, &str> = RetransmissionManager::with_message_id(7);
    let mut h = header();
    manager.send_reliably(&mut h, 123, "waiter");
    assert_eq!(manager.maybe_handle_reply(MessageType::Reset, h.message_id, &123), Some("waiter"));
    let (state, _) = RetryState::start(0, 5 * SECOND);
    let action = state.on_reply(&ReplyEvent::PeerResponse(MessageType::Reset));
    assert!(matches!(action, RetryAction::Finish(Err(SendFailed::Reset))));
}

#[test]
fn reply_from_another_peer_or_id_is_not_matched() {
    let mut manager: RetransmissionManager<i32, &str> = RetransmissionManager::with_message_id(100);
    let mut h = header();
    manager.send_reliably(&mut h, 1, "waiter");
    assert_eq!(manager.maybe_handle_reply(MessageType::Acknowledgement, 100, &2), None);
    assert_eq!(manager.maybe_handle_reply(MessageType::Acknowledgement, 101, &1), None);
    assert_eq!(manager.maybe_handle_reply(MessageType::Confirmable, 100, &1), None);
    // Still awaited: the right reply is matched once, and only once.
    assert_eq!(manager.maybe_handle_reply(MessageType::Acknowledgement, 100, &1), Some("waiter"));
    assert_eq!(manager.maybe_handle_reply(MessageType::Acknowledgement, 100, &1), None);
}

#[test]
fn message_ids_are_consecutive_and_wrap() {
    let mut manager: RetransmissionManager<i32, u32> = RetransmissionManager::with_message_id(u16::MAX);
    let mut a = header();
    let mut b = header();
    manager.send_reliably(&mut a, 1, 1);
    manager.send_reliably(&mut b, 1, 2);
    assert_eq!(a.message_id, u16::MAX);
    assert_eq!(b.message_id, 0);
}

#[test]
fn reused_key_hands_back_the_displaced_waiter() {
    let mut manager: RetransmissionManager<i32, u32> = RetransmissionManager::with_message_id(9);
    let mut h = header();
    manager.send_reliably(&mut h, 1, 1);
    // 65536 sends later the id comes round again for the same peer.
    for i in 0..65535u32 {
        let mut other = header();
        manager.send_reliably(&mut other, 2, i);
    }
    let mut again = header();
    assert_eq!(manager.send_reliably(&mut again, 1, 99), Some(1));
    assert_eq!(again.message_id, 9);
}

#[test]
fn random_start_is_a_valid_manager() {
    let mut manager: RetransmissionManager<i32, u8> = RetransmissionManager::new();
    let mut h = header();
    manager.send_reliably(&mut h, 3, 1);
    assert_eq!(manager.maybe_handle_reply(MessageType::Reset, h.message_id, &3), Some(1));
}

#[test]
fn backoff_doubles_each_retransmission() {
    let (mut state, first) = RetryState::start(4, 2 * SECOND);
    assert!(matches!(first, RetryAction::Transmit { timeout_nanos } if timeout_nanos == 2 * SECOND));
    let mut timeouts = vec![];
    loop {
        match state.on_timeout() {
            RetryAction::Transmit { timeout_nanos } => timeouts.push(timeout_nanos / SECOND),
            RetryAction::Finish(r) => {
                assert!(matches!(r, Err(SendFailed::NoReply(5))));
                break;
            }
            RetryAction::Wait { .. } => panic!("unexpected wait"),
        }
    }
    assert_eq!(timeouts, vec![4, 8, 16, 32]);
}

#[test]
fn random_initial_timeout_is_in_range() {
    for _ in 0..20 {
        let (_, action) = RetryState::start_random(4, 2 * SECOND, 3 * SECOND);
        match action {
            RetryAction::Transmit { timeout_nanos } => {
                assert!(timeout_nanos >= 2 * SECOND && timeout_nanos <= 3 * SECOND)
            }
            _ => panic!("expected a transmission"),
        }
    }
}

#[test]
fn other_reply_events() {
    let (state, _) = RetryState::start(1, SECOND);
    assert!(matches!(state.on_reply(&ReplyEvent::Waiting), RetryAction::Wait { timeout_nanos } if timeout_nanos == SECOND));
    match state.on_reply(&ReplyEvent::PeerResponse(MessageType::Confirmable)) {
        RetryAction::Finish(Err(SendFailed::InternalError(m))) => assert_eq!(m, "unexpected t=Confirmable"),
        _ => panic!("expected an internal error"),
    }
    match state.on_reply(&ReplyEvent::InternalError("boom".to_string())) {
        RetryAction::Finish(Err(SendFailed::InternalError(m))) => assert_eq!(m, "boom"),
        _ => panic!("expected an internal error"),
    }
    match state.on_send_error("closed".to_string()) {
        RetryAction::Finish(Err(SendFailed::TransmissionError(m))) => assert_eq!(m, "closed"),
        _ => panic!("expected a transmission error"),
    }
}
