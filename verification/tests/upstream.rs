use relay_gateway::backoff::BackoffPolicy;
use relay_gateway::frame::Frame;
use relay_gateway::upstream::{LinkAction, LinkEvent, LinkStatus, UpstreamLink};

fn link() -> UpstreamLink {
    UpstreamLink::new(BackoffPolicy::standard(), 4)
}

fn connected() -> UpstreamLink {
    let mut link = link();
    link.on_event(LinkEvent::Start);
    link.on_event(LinkEvent::ConnectSucceeded);
    link
}

fn none() -> Vec<LinkAction> {
    Vec::new()
}

#[test]
fn new_link_is_disconnected_and_idle() {
    let link = link();
    assert_eq!(link.status(), LinkStatus::Disconnected);
    assert_eq!(link.failures(), 0);
    assert_eq!(link.queued(), 0);
    assert_eq!(link.policy(), BackoffPolicy::standard());
    assert!(!link.is_halted());
    assert!(!link.is_connected());
}

#[test]
fn start_asks_for_a_connection_attempt() {
    let mut link = link();
    assert_eq!(link.on_event(LinkEvent::Start), vec![LinkAction::Connect]);
    assert_eq!(link.status(), LinkStatus::Connecting);
    // a second start while the attempt is under way changes nothing
    assert_eq!(link.on_event(LinkEvent::Start), none());
    assert_eq!(link.status(), LinkStatus::Connecting);
}

#[test]
fn successful_attempt_starts_both_halves() {
    let mut link = link();
    link.on_event(LinkEvent::Start);
    assert_eq!(link.on_event(LinkEvent::ConnectSucceeded), vec![LinkAction::StartHalves]);
    assert_eq!(link.status(), LinkStatus::Connected);
    assert!(link.is_connected());
}

#[test]
fn failed_first_attempt_is_retried_and_does_not_abort() {
    let mut link = link();
    link.on_event(LinkEvent::Start);
    assert_eq!(link.on_event(LinkEvent::ConnectFailed), vec![LinkAction::RetryAfter(500)]);
    assert_eq!(link.status(), LinkStatus::Disconnected);
    assert_eq!(link.failures(), 1);
    assert!(!link.is_halted());
    assert_eq!(link.on_event(LinkEvent::RetryDue), vec![LinkAction::Connect]);
    assert_eq!(link.status(), LinkStatus::Connecting);
}

#[test]
fn waits_grow_from_one_failure_to_the_next() {
    let mut link = link();
    link.on_event(LinkEvent::Start);
    let mut waits = Vec::new();
    for _ in 0..7 {
        let actions = link.on_event(LinkEvent::ConnectFailed);
        assert_eq!(actions.len(), 1);
        if let LinkAction::RetryAfter(ms) = actions[0] {
            waits.push(ms);
        }
        assert_eq!(link.on_event(LinkEvent::RetryDue), vec![LinkAction::Connect]);
    }
    assert_eq!(waits, vec![500, 1_000, 2_000, 4_000, 8_000, 16_000, 30_000]);
    assert_eq!(link.failures(), 7);
    assert!(!link.is_halted());
}

#[test]
fn link_gives_up_when_the_budget_is_used_up() {
    let mut link = UpstreamLink::new(BackoffPolicy::new(10, 100, 3).unwrap(), 4);
    link.on_event(LinkEvent::Start);
    assert_eq!(link.on_event(LinkEvent::ConnectFailed), vec![LinkAction::RetryAfter(10)]);
    link.on_event(LinkEvent::RetryDue);
    assert_eq!(link.on_event(LinkEvent::ConnectFailed), vec![LinkAction::RetryAfter(20)]);
    link.on_event(LinkEvent::RetryDue);
    assert_eq!(link.on_event(LinkEvent::ConnectFailed), vec![LinkAction::GiveUp]);
    assert!(link.is_halted());
    assert_eq!(link.status(), LinkStatus::Disconnected);
    assert_eq!(link.failures(), 3);
    // nothing moves a link that has given up
    for event in [
        LinkEvent::Start,
        LinkEvent::RetryDue,
        LinkEvent::ConnectSucceeded,
        LinkEvent::ConnectFailed,
        LinkEvent::StreamEnded,
        LinkEvent::KeepaliveDue,
        LinkEvent::Shutdown,
    ] {
        assert_eq!(link.on_event(event), none());
    }
    assert_eq!(link.status(), LinkStatus::Disconnected);
    assert!(!link.enqueue(Frame::Ping(Vec::new())));
}

#[test]
fn budget_of_one_gives_up_on_the_first_failure() {
    let mut link = UpstreamLink::new(BackoffPolicy::new(10, 100, 1).unwrap(), 4);
    link.on_event(LinkEvent::Start);
    assert_eq!(link.on_event(LinkEvent::ConnectFailed), vec![LinkAction::GiveUp]);
    assert!(link.is_halted());
}

#[test]
fn success_clears_the_failure_count() {
    let mut link = link();
    link.on_event(LinkEvent::Start);
    link.on_event(LinkEvent::ConnectFailed);
    link.on_event(LinkEvent::RetryDue);
    link.on_event(LinkEvent::ConnectFailed);
    link.on_event(LinkEvent::RetryDue);
    assert_eq!(link.failures(), 2);
    link.on_event(LinkEvent::ConnectSucceeded);
    assert_eq!(link.failures(), 0);
    // the next outage starts again from the base delay
    link.on_event(LinkEvent::StreamEnded);
    assert_eq!(link.on_event(LinkEvent::ConnectFailed), vec![LinkAction::RetryAfter(500)]);
}

#[test]
fn end_of_stream_starts_a_reconnection_at_once() {
    let mut link = connected();
    assert_eq!(link.on_event(LinkEvent::StreamEnded), vec![LinkAction::Connect]);
    assert_eq!(link.status(), LinkStatus::Reconnecting);
    assert!(!link.is_connected());
    assert!(!link.is_halted());
    assert_eq!(link.on_event(LinkEvent::ConnectSucceeded), vec![LinkAction::StartHalves]);
    assert_eq!(link.status(), LinkStatus::Connected);
}

#[test]
fn events_that_do_not_fit_the_status_are_ignored() {
    let mut idle = link();
    for event in [
        LinkEvent::ConnectSucceeded,
        LinkEvent::ConnectFailed,
        LinkEvent::RetryDue,
        LinkEvent::StreamEnded,
        LinkEvent::KeepaliveDue,
    ] {
        assert_eq!(idle.on_event(event), none());
        assert_eq!(idle.status(), LinkStatus::Disconnected);
        assert_eq!(idle.failures(), 0);
    }
    let mut up = connected();
    for event in [LinkEvent::Start, LinkEvent::ConnectSucceeded, LinkEvent::ConnectFailed, LinkEvent::RetryDue] {
        assert_eq!(up.on_event(event), none());
        assert_eq!(up.status(), LinkStatus::Connected);
    }
    let mut waiting = link();
    waiting.on_event(LinkEvent::Start);
    waiting.on_event(LinkEvent::ConnectFailed);
    assert_eq!(waiting.on_event(LinkEvent::Start), none());
    assert_eq!(waiting.on_event(LinkEvent::StreamEnded), none());
    assert_eq!(waiting.status(), LinkStatus::Disconnected);
    assert_eq!(waiting.failures(), 1);
}

#[test]
fn shutdown_while_waiting_cancels_the_retry() {
    let mut link = link();
    link.on_event(LinkEvent::Start);
    link.on_event(LinkEvent::ConnectFailed);
    assert_eq!(link.on_event(LinkEvent::Shutdown), vec![LinkAction::CancelRetry]);
    assert!(link.is_halted());
    assert_eq!(link.on_event(LinkEvent::RetryDue), none());
    assert_eq!(link.status(), LinkStatus::Disconnected);
}

#[test]
fn shutdown_while_connected_drops_the_socket_and_the_queue() {
    let mut link = connected();
    link.enqueue(Frame::Text(b"unsent".to_vec()));
    assert_eq!(link.on_event(LinkEvent::Shutdown), vec![LinkAction::Disconnect]);
    assert!(link.is_halted());
    assert_eq!(link.status(), LinkStatus::Disconnected);
    assert_eq!(link.queued(), 0);
    assert_eq!(link.next_outbound(), None);
}

#[test]
fn shutdown_during_an_attempt_drops_the_attempt() {
    let mut link = link();
    link.on_event(LinkEvent::Start);
    assert_eq!(link.on_event(LinkEvent::Shutdown), vec![LinkAction::Disconnect]);
    assert_eq!(link.on_event(LinkEvent::ConnectSucceeded), none());
    assert_eq!(link.status(), LinkStatus::Disconnected);
}

#[test]
fn shutdown_of_an_idle_link_asks_for_nothing_and_is_idempotent() {
    let mut link = link();
    assert_eq!(link.on_event(LinkEvent::Shutdown), none());
    assert!(link.is_halted());
    assert_eq!(link.on_event(LinkEvent::Shutdown), none());
    assert_eq!(link.on_event(LinkEvent::Start), none());
}

#[test]
fn writer_takes_frames_in_the_order_they_were_enqueued() {
    let mut link = connected();
    assert!(link.enqueue(Frame::Text(b"first".to_vec())));
    assert!(link.enqueue(Frame::Ping(Vec::new())));
    assert!(link.enqueue(Frame::Binary(vec![3])));
    assert_eq!(link.queued(), 3);
    assert_eq!(link.next_outbound(), Some(Frame::Text(b"first".to_vec())));
    assert_eq!(link.next_outbound(), Some(Frame::Ping(Vec::new())));
    assert_eq!(link.next_outbound(), Some(Frame::Binary(vec![3])));
    assert_eq!(link.next_outbound(), None);
}

#[test]
fn write_queue_is_bounded() {
    let mut link = connected();
    for i in 0..4u8 {
        assert!(link.enqueue(Frame::Binary(vec![i])));
    }
    assert!(!link.enqueue(Frame::Binary(vec![4])));
    assert_eq!(link.queued(), 4);
    assert_eq!(link.next_outbound(), Some(Frame::Binary(vec![0])));
    assert!(link.enqueue(Frame::Binary(vec![5])));
}

#[test]
fn frames_wait_in_the_queue_while_the_socket_is_not_open() {
    let mut link = link();
    assert!(link.enqueue(Frame::Text(b"early".to_vec())));
    assert_eq!(link.next_outbound(), None);
    link.on_event(LinkEvent::Start);
    assert_eq!(link.next_outbound(), None);
    link.on_event(LinkEvent::ConnectSucceeded);
    assert_eq!(link.next_outbound(), Some(Frame::Text(b"early".to_vec())));
    link.enqueue(Frame::Text(b"kept".to_vec()));
    link.on_event(LinkEvent::StreamEnded);
    assert_eq!(link.next_outbound(), None);
    assert_eq!(link.queued(), 1);
    link.on_event(LinkEvent::ConnectSucceeded);
    assert_eq!(link.next_outbound(), Some(Frame::Text(b"kept".to_vec())));
}

#[test]
fn keepalive_puts_an_empty_ping_behind_what_is_queued() {
    let mut link = connected();
    link.enqueue(Frame::Text(b"relay".to_vec()));
    assert_eq!(link.on_event(LinkEvent::KeepaliveDue), none());
    assert_eq!(link.queued(), 2);
    assert_eq!(link.next_outbound(), Some(Frame::Text(b"relay".to_vec())));
    assert_eq!(link.next_outbound(), Some(Frame::Ping(Vec::new())));
}

#[test]
fn keepalive_is_skipped_while_the_socket_is_not_open() {
    let mut link = link();
    link.on_event(LinkEvent::KeepaliveDue);
    link.on_event(LinkEvent::Start);
    link.on_event(LinkEvent::KeepaliveDue);
    assert_eq!(link.queued(), 0);
}

#[test]
fn only_data_frames_from_an_open_socket_are_relayed() {
    let up = connected();
    assert!(up.relays(&Frame::Text(b"t".to_vec())));
    assert!(up.relays(&Frame::Binary(vec![1])));
    assert!(!up.relays(&Frame::Ping(Vec::new())));
    assert!(!up.relays(&Frame::Pong(Vec::new())));
    assert!(!up.relays(&Frame::Close));
    let down = link();
    assert!(!down.relays(&Frame::Text(b"t".to_vec())));
    let mut lost = connected();
    lost.on_event(LinkEvent::StreamEnded);
    assert!(!lost.relays(&Frame::Text(b"t".to_vec())));
}
