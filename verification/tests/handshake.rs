use communication::client::{join_room, Handshake, JoinStep, RETRY_MILLIS, TIMEOUT_COUNT};
use communication::protocol::{set_id, set_protocol, Message, ProtocolID};
use communication::server::{Code, JOIN_FAILED, JOIN_SUCCESS};

fn session() -> ProtocolID {
    let mut s = ProtocolID::new();
    set_protocol(&mut s, "MOYU".to_string());
    set_id(&mut s, &"alice".to_string());
    s
}

fn start() -> Handshake {
    join_room(&session(), &"secret".to_string())
}

fn frame(kind: Code, text: &str) -> Message {
    Message::new(kind.byte(), &text.to_string(), &session())
}

#[test]
fn join_room_asks_with_the_key() {
    let h = start();
    assert_eq!(h.request.code, Code::Request.byte());
    assert_eq!(h.request.message, "secret");
    assert_eq!(h.request.pro_id.id, session().id);
    assert_eq!(h.attempts, 0);
    assert_eq!(h.limit, 30);
    assert_eq!(TIMEOUT_COUNT, 30);
    assert_eq!(RETRY_MILLIS, 1500);
}

#[test]
fn silence_times_out_at_the_bound() {
    let mut h = start();
    for attempt in 1..30 {
        assert_eq!(h.step(None), JoinStep::Retry, "attempt {}", attempt);
        assert_eq!(h.attempts, attempt);
    }
    assert_eq!(h.step(None), JoinStep::TimedOut);
    assert_eq!(h.attempts, 30);
}

#[test]
fn the_bound_can_be_set() {
    let mut h = start();
    h.limit = 3;
    assert_eq!(h.step(None), JoinStep::Retry);
    assert_eq!(h.step(None), JoinStep::Retry);
    assert_eq!(h.step(None), JoinStep::TimedOut);
    let mut one = start();
    one.limit = 1;
    assert_eq!(one.step(None), JoinStep::TimedOut);
}

#[test]
fn success_ends_the_handshake() {
    let mut h = start();
    assert_eq!(h.step(None), JoinStep::Retry);
    assert_eq!(h.step(Some(&frame(Code::Reply, JOIN_SUCCESS))), JoinStep::Joined);
}

#[test]
fn success_at_the_last_attempt_still_counts() {
    let mut h = start();
    h.limit = 2;
    assert_eq!(h.step(None), JoinStep::Retry);
    assert_eq!(h.step(Some(&frame(Code::Reply, JOIN_SUCCESS))), JoinStep::Joined);
}

#[test]
fn refusal_ends_the_handshake_at_once() {
    let mut h = start();
    assert_eq!(h.step(Some(&frame(Code::Reply, JOIN_FAILED))), JoinStep::Refused);
    assert_eq!(h.attempts, 1);
}

#[test]
fn other_frames_are_no_answer() {
    let mut h = start();
    assert_eq!(h.step(Some(&frame(Code::Reply, "maybe"))), JoinStep::Retry);
    assert_eq!(h.step(Some(&frame(Code::Reply, "Success join room!"))), JoinStep::Retry);
    assert_eq!(h.step(Some(&frame(Code::Reply, "Error"))), JoinStep::Retry);
    assert_eq!(h.step(Some(&frame(Code::Message, JOIN_SUCCESS))), JoinStep::Retry);
    assert_eq!(h.step(Some(&frame(Code::Message, JOIN_FAILED))), JoinStep::Retry);
    assert_eq!(h.attempts, 5);
}

#[test]
fn poll_takes_the_front_of_the_queue() {
    let mut que = std::collections::VecDeque::new();
    que.push_back(frame(Code::Message, "hello"));
    que.push_back(frame(Code::Reply, JOIN_SUCCESS));
    que.push_back(frame(Code::Message, "later"));
    let mut h = start();
    assert_eq!(h.poll(&mut que), JoinStep::Retry);
    assert_eq!(que.len(), 2);
    assert_eq!(h.poll(&mut que), JoinStep::Joined);
    assert_eq!(que.len(), 1);
    assert_eq!(que[0].message, "later");
    assert_eq!(h.attempts, 2);
}

#[test]
fn poll_of_an_empty_queue_counts_an_attempt() {
    let mut que = std::collections::VecDeque::new();
    let mut h = start();
    h.limit = 2;
    assert_eq!(h.poll(&mut que), JoinStep::Retry);
    assert_eq!(h.poll(&mut que), JoinStep::TimedOut);
    assert!(que.is_empty());
}

#[test]
fn other_frames_do_not_stretch_the_bound() {
    let mut h = start();
    h.limit = 2;
    assert_eq!(h.step(Some(&frame(Code::Message, "hello"))), JoinStep::Retry);
    assert_eq!(h.step(Some(&frame(Code::Message, "hello"))), JoinStep::TimedOut);
}
