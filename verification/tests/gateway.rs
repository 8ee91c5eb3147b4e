use relay_gateway::backoff::BackoffPolicy;
use relay_gateway::connection::{Action, ConnectionState, ConnectionSupervisor};
use relay_gateway::frame::{Frame, ProtocolError};
use relay_gateway::gateway::Gateway;
use relay_gateway::heartbeat::HeartbeatPolicy;
use relay_gateway::upstream::{LinkAction, LinkEvent, LinkStatus};

fn text(payload: &str) -> Frame {
    Frame::Text(payload.as_bytes().to_vec())
}

fn gateway(queue_capacity: usize) -> Gateway {
    Gateway::new(HeartbeatPolicy::standard(), BackoffPolicy::standard(), queue_capacity)
}

fn connected(queue_capacity: usize) -> Gateway {
    let mut gateway = gateway(queue_capacity);
    assert_eq!(gateway.on_link_event(LinkEvent::Start), vec![LinkAction::Connect]);
    assert_eq!(gateway.on_link_event(LinkEvent::ConnectSucceeded), vec![LinkAction::StartHalves]);
    gateway
}

fn accept(gateway: &mut Gateway, now: u64) -> ConnectionSupervisor {
    let (supervisor, actions) = gateway.accept(now).unwrap();
    assert_eq!(actions, vec![Action::ScheduleHeartbeat(5_000)]);
    supervisor
}

fn sorted(mut ids: Vec<u64>) -> Vec<u64> {
    ids.sort();
    ids
}

#[test]
fn new_gateway_has_no_connection_and_an_idle_link() {
    let gateway = gateway(4);
    assert_eq!(gateway.registry().len(), 0);
    assert_eq!(gateway.registry().queue_capacity(), 4);
    assert_eq!(gateway.link().status(), LinkStatus::Disconnected);
    assert_eq!(gateway.link().queued(), 0);
}

#[test]
fn accept_registers_and_starts_a_supervisor_under_a_fresh_identifier() {
    let mut gateway = gateway(4);
    let first = accept(&mut gateway, 100);
    let second = accept(&mut gateway, 200);
    assert_eq!(first.id(), 0);
    assert_eq!(second.id(), 1);
    assert_eq!(first.last_heartbeat(), 100);
    assert_eq!(second.last_heartbeat(), 200);
    assert!(first.is_active() && second.is_active());
    assert_eq!(first.policy(), HeartbeatPolicy::standard());
    assert!(gateway.registry().contains(0));
    assert!(gateway.registry().contains(1));
    assert_eq!(gateway.registry().len(), 2);
}

#[test]
fn identifier_of_a_closed_connection_is_not_handed_out_again() {
    let mut gateway = gateway(4);
    let mut first = accept(&mut gateway, 0);
    gateway.stop_client(&mut first);
    let second = accept(&mut gateway, 0);
    assert_eq!(second.id(), 1);
    assert!(!gateway.registry().contains(0));
}

#[test]
fn ping_through_the_gateway_is_answered_in_the_same_step() {
    let mut gateway = gateway(4);
    let mut client = accept(&mut gateway, 0);
    let left = gateway.on_client_frame(&mut client, Ok(Frame::Ping(Vec::new())), 5);
    assert_eq!(left, vec![Action::Send(Frame::Pong(Vec::new()))]);
    assert_eq!(gateway.link().queued(), 0);
    assert!(gateway.registry().contains(client.id()));
}

#[test]
fn upstream_text_reaches_the_registered_client_unchanged() {
    let mut gateway = connected(4);
    let client = accept(&mut gateway, 0);
    let report = gateway.on_upstream_frame(text("tick-1"));
    assert_eq!(report.queued, vec![client.id()]);
    assert_eq!(report.dropped, Vec::<u64>::new());
    assert_eq!(gateway.take_outbound(client.id()), vec![Frame::Text(b"tick-1".to_vec())]);
    assert_eq!(gateway.take_outbound(client.id()), Vec::<Frame>::new());
}

#[test]
fn upstream_binary_reaches_the_registered_client_unchanged() {
    let mut gateway = connected(4);
    let client = accept(&mut gateway, 0);
    gateway.on_upstream_frame(Frame::Binary(vec![0, 159, 146, 150]));
    assert_eq!(gateway.take_outbound(client.id()), vec![Frame::Binary(vec![0, 159, 146, 150])]);
}

#[test]
fn two_registered_clients_observe_a_then_b() {
    let mut gateway = connected(4);
    let one = accept(&mut gateway, 0);
    let two = accept(&mut gateway, 0);
    assert_eq!(sorted(gateway.on_upstream_frame(text("A")).queued), vec![one.id(), two.id()]);
    assert_eq!(sorted(gateway.on_upstream_frame(text("B")).queued), vec![one.id(), two.id()]);
    assert_eq!(gateway.take_outbound(one.id()), vec![text("A"), text("B")]);
    assert_eq!(gateway.take_outbound(two.id()), vec![text("A"), text("B")]);
}

#[test]
fn control_frames_from_the_feed_are_not_fanned_out() {
    let mut gateway = connected(4);
    let client = accept(&mut gateway, 0);
    for frame in [Frame::Ping(vec![1]), Frame::Pong(vec![1]), Frame::Close] {
        let report = gateway.on_upstream_frame(frame);
        assert_eq!(report.queued, Vec::<u64>::new());
        assert_eq!(report.dropped, Vec::<u64>::new());
    }
    assert_eq!(gateway.registry().pending(client.id()), 0);
}

#[test]
fn nothing_is_fanned_out_before_the_link_is_connected() {
    let mut gateway = gateway(4);
    let client = accept(&mut gateway, 0);
    assert_eq!(gateway.on_upstream_frame(text("early")).queued, Vec::<u64>::new());
    gateway.on_link_event(LinkEvent::Start);
    assert_eq!(gateway.on_upstream_frame(text("early")).queued, Vec::<u64>::new());
    assert_eq!(gateway.registry().pending(client.id()), 0);
}

#[test]
fn client_text_goes_to_the_upstream_write_queue_and_not_back_to_the_client() {
    let mut gateway = connected(4);
    let mut client = accept(&mut gateway, 0);
    let left = gateway.on_client_frame(&mut client, Ok(text("hello feed")), 10);
    assert_eq!(left, Vec::<Action>::new());
    assert_eq!(gateway.registry().pending(client.id()), 0);
    assert_eq!(gateway.link().queued(), 1);
    assert_eq!(gateway.next_upstream_write(), Some(text("hello feed")));
    assert_eq!(gateway.next_upstream_write(), None);
}

#[test]
fn writes_from_several_clients_and_keepalives_leave_in_one_order() {
    let mut gateway = connected(8);
    let mut one = accept(&mut gateway, 0);
    let mut two = accept(&mut gateway, 0);
    gateway.on_client_frame(&mut one, Ok(text("one-1")), 1);
    gateway.on_client_frame(&mut two, Ok(Frame::Binary(vec![2])), 2);
    gateway.on_link_event(LinkEvent::KeepaliveDue);
    gateway.on_client_frame(&mut one, Ok(text("one-2")), 3);
    let mut written = Vec::new();
    while let Some(frame) = gateway.next_upstream_write() {
        written.push(frame);
    }
    assert_eq!(
        written,
        vec![text("one-1"), Frame::Binary(vec![2]), Frame::Ping(Vec::new()), text("one-2")]
    );
}

#[test]
fn forwarded_frame_is_dropped_when_the_write_queue_is_full() {
    let mut gateway = connected(1);
    let mut client = accept(&mut gateway, 0);
    gateway.on_client_frame(&mut client, Ok(text("kept")), 1);
    gateway.on_client_frame(&mut client, Ok(text("dropped")), 2);
    assert_eq!(gateway.link().queued(), 1);
    assert_eq!(gateway.next_upstream_write(), Some(text("kept")));
    assert!(client.is_active());
}

#[test]
fn close_frame_unregisters_and_leaves_the_socket_work_to_the_owner() {
    let mut gateway = connected(4);
    let mut client = accept(&mut gateway, 0);
    let left = gateway.on_client_frame(&mut client, Ok(Frame::Close), 10);
    assert_eq!(
        left,
        vec![
            Action::Enter(ConnectionState::Closing),
            Action::Send(Frame::Close),
            Action::CancelHeartbeat,
            Action::ReleaseSocket,
            Action::Enter(ConnectionState::Closed),
        ]
    );
    assert!(client.is_closed());
    assert!(!gateway.registry().contains(client.id()));
}

#[test]
fn protocol_error_closes_one_connection_and_leaves_the_others() {
    let mut gateway = connected(4);
    let mut bad = accept(&mut gateway, 0);
    let good = accept(&mut gateway, 0);
    let left = gateway.on_client_frame(&mut bad, Err(ProtocolError::Malformed), 10);
    assert_eq!(
        left,
        vec![Action::CancelHeartbeat, Action::ReleaseSocket, Action::Enter(ConnectionState::Closed)]
    );
    assert!(bad.is_closed());
    assert!(good.is_active());
    assert!(!gateway.registry().contains(bad.id()));
    assert!(gateway.registry().contains(good.id()));
    assert_eq!(gateway.on_upstream_frame(text("still here")).queued, vec![good.id()]);
}

#[test]
fn heartbeat_timeout_through_the_gateway_unregisters_the_connection() {
    let mut gateway = connected(4);
    let mut client = accept(&mut gateway, 0);
    assert_eq!(gateway.on_client_tick(&mut client, 5_000), vec![Action::Send(Frame::Ping(Vec::new()))]);
    assert_eq!(gateway.on_client_tick(&mut client, 10_000), vec![Action::Send(Frame::Ping(Vec::new()))]);
    assert!(gateway.registry().contains(client.id()));
    let left = gateway.on_client_tick(&mut client, 15_000);
    assert_eq!(
        left,
        vec![
            Action::Enter(ConnectionState::Closing),
            Action::CancelHeartbeat,
            Action::ReleaseSocket,
            Action::Enter(ConnectionState::Closed),
        ]
    );
    assert!(client.is_closed());
    assert!(!gateway.registry().contains(client.id()));
}

#[test]
fn closed_connection_is_never_served_again() {
    let mut gateway = connected(4);
    let mut gone = accept(&mut gateway, 0);
    let stays = accept(&mut gateway, 0);
    gateway.on_upstream_frame(text("before"));
    gateway.on_client_frame(&mut gone, Ok(Frame::Close), 10);
    for payload in ["1", "2", "3"] {
        let report = gateway.on_upstream_frame(text(payload));
        assert!(report.queued.contains(&stays.id()));
        assert!(!report.queued.contains(&gone.id()));
        assert!(!report.dropped.contains(&gone.id()));
        let newcomer = accept(&mut gateway, 20);
        assert_ne!(newcomer.id(), gone.id());
    }
    assert_eq!(gateway.take_outbound(gone.id()), Vec::<Frame>::new());
    assert!(!gateway.registry().contains(gone.id()));
    assert_eq!(gateway.take_outbound(stays.id()), vec![text("before"), text("1"), text("2"), text("3")]);
}

#[test]
fn stop_client_is_idempotent() {
    let mut gateway = gateway(4);
    let mut client = accept(&mut gateway, 0);
    let first = gateway.stop_client(&mut client);
    assert_eq!(
        first,
        vec![
            Action::Enter(ConnectionState::Closing),
            Action::CancelHeartbeat,
            Action::ReleaseSocket,
            Action::Enter(ConnectionState::Closed),
        ]
    );
    assert_eq!(gateway.stop_client(&mut client), Vec::<Action>::new());
    assert_eq!(gateway.registry().len(), 0);
}

#[test]
fn absorb_carries_out_the_gateway_part_and_hands_back_the_rest_in_order() {
    let mut gateway = connected(4);
    let one = accept(&mut gateway, 0);
    let two = accept(&mut gateway, 0);
    let left = gateway.absorb(vec![
        Action::Send(Frame::Pong(vec![1])),
        Action::Forward(text("up")),
        Action::CancelHeartbeat,
        Action::Unregister(one.id()),
        Action::ScheduleHeartbeat(7),
        Action::Unregister(99),
    ]);
    assert_eq!(
        left,
        vec![Action::Send(Frame::Pong(vec![1])), Action::CancelHeartbeat, Action::ScheduleHeartbeat(7)]
    );
    assert!(!gateway.registry().contains(one.id()));
    assert!(gateway.registry().contains(two.id()));
    assert_eq!(gateway.next_upstream_write(), Some(text("up")));
    assert_eq!(gateway.absorb(Vec::new()), Vec::<Action>::new());
}

#[test]
fn slow_client_drops_frames_and_the_fast_one_gets_them_all() {
    let mut gateway = connected(2);
    let slow = accept(&mut gateway, 0);
    let fast = accept(&mut gateway, 0);
    let mut fast_saw = Vec::new();
    for payload in ["1", "2", "3", "4"] {
        let report = gateway.on_upstream_frame(text(payload));
        assert!(report.queued.contains(&fast.id()));
        fast_saw.extend(gateway.take_outbound(fast.id()));
        if payload == "3" || payload == "4" {
            assert_eq!(report.dropped, vec![slow.id()]);
        }
    }
    assert_eq!(fast_saw, vec![text("1"), text("2"), text("3"), text("4")]);
    assert_eq!(gateway.take_outbound(slow.id()), vec![text("1"), text("2")]);
}

#[test]
fn gateway_survives_an_upstream_outage_without_losing_clients() {
    let mut gateway = connected(8);
    let before = accept(&mut gateway, 0);
    gateway.on_upstream_frame(text("before"));

    // the feed closes the socket: the gateway reconnects, the clients stay
    assert_eq!(gateway.on_link_event(LinkEvent::StreamEnded), vec![LinkAction::Connect]);
    assert_eq!(gateway.link().status(), LinkStatus::Reconnecting);
    assert!(gateway.registry().contains(before.id()));
    assert_eq!(gateway.registry().pending(before.id()), 1);

    // attempts fail with growing waits; meanwhile new clients are accepted and served
    assert_eq!(gateway.on_link_event(LinkEvent::ConnectFailed), vec![LinkAction::RetryAfter(500)]);
    let mut during = accept(&mut gateway, 1_000);
    assert_eq!(
        gateway.on_client_frame(&mut during, Ok(Frame::Ping(vec![7])), 1_100),
        vec![Action::Send(Frame::Pong(vec![7]))]
    );
    assert_eq!(gateway.on_link_event(LinkEvent::RetryDue), vec![LinkAction::Connect]);
    assert_eq!(gateway.on_link_event(LinkEvent::ConnectFailed), vec![LinkAction::RetryAfter(1_000)]);
    assert_eq!(gateway.on_link_event(LinkEvent::RetryDue), vec![LinkAction::Connect]);
    assert_eq!(gateway.on_link_event(LinkEvent::ConnectFailed), vec![LinkAction::RetryAfter(2_000)]);
    assert_eq!(gateway.on_upstream_frame(text("stale")).queued, Vec::<u64>::new());
    assert_eq!(gateway.on_link_event(LinkEvent::RetryDue), vec![LinkAction::Connect]);

    // the attempt succeeds: fan-out resumes for old and new clients alike
    assert_eq!(gateway.on_link_event(LinkEvent::ConnectSucceeded), vec![LinkAction::StartHalves]);
    assert_eq!(gateway.link().status(), LinkStatus::Connected);
    assert_eq!(gateway.link().failures(), 0);
    let report = gateway.on_upstream_frame(text("after"));
    assert_eq!(sorted(report.queued), vec![before.id(), during.id()]);
    assert_eq!(gateway.take_outbound(before.id()), vec![text("before"), text("after")]);
    assert_eq!(gateway.take_outbound(during.id()), vec![text("after")]);
}

#[test]
fn exhausted_retry_budget_is_reported_once_and_clients_keep_their_queues() {
    let mut gateway =
        Gateway::new(HeartbeatPolicy::standard(), BackoffPolicy::new(100, 400, 2).unwrap(), 4);
    let client = accept(&mut gateway, 0);
    gateway.on_link_event(LinkEvent::Start);
    assert_eq!(gateway.on_link_event(LinkEvent::ConnectFailed), vec![LinkAction::RetryAfter(100)]);
    gateway.on_link_event(LinkEvent::RetryDue);
    assert_eq!(gateway.on_link_event(LinkEvent::ConnectFailed), vec![LinkAction::GiveUp]);
    assert!(gateway.link().is_halted());
    assert_eq!(gateway.on_link_event(LinkEvent::RetryDue), Vec::<LinkAction>::new());
    assert!(gateway.registry().contains(client.id()));
}

#[test]
fn shutdown_during_backoff_cancels_the_retry_timer() {
    let mut gateway = gateway(4);
    gateway.on_link_event(LinkEvent::Start);
    gateway.on_link_event(LinkEvent::ConnectFailed);
    assert_eq!(gateway.on_link_event(LinkEvent::Shutdown), vec![LinkAction::CancelRetry]);
    assert_eq!(gateway.on_link_event(LinkEvent::Shutdown), Vec::<LinkAction>::new());
}
