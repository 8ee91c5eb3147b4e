//! The link to the upstream feed: the one outbound socket of the gateway.
//!
//! The link is a state machine that decides when to connect, when to retry
//! and when to give up, and that owns the write half of the socket as a
//! first-in, first-out queue: whoever wants to write to the feed puts a frame
//! into the queue, and the single writer takes the frames out in that order.
//! The queue is bounded; frames that are queued while the socket is not
//! open wait for it.
//! The link performs no I/O. Its owner reports what happened on the socket
//! as a [`LinkEvent`] and carries out the [`LinkAction`]s it gets back.

use vstd::prelude::*;
use crate::backoff::BackoffPolicy;
use crate::frame::{Frame, FrameView};
use crate::queue::OutboundQueue;

verus! {

/// Where the link stands.
#[derive(Debug, Clone, Copy, PartialEq, Eq, Structural)]
pub enum LinkStatus {
    /// No socket and no attempt under way.
    Disconnected,
    /// A first connection attempt, or a retry of one, is under way.
    Connecting,
    /// The socket is open; frames flow in both directions.
    Connected,
    /// The feed closed the socket and an attempt to open it again is under
    /// way.
    Reconnecting,
}

/// What the owner of the socket reports to the link.
#[derive(Debug, Clone, Copy, PartialEq, Eq, Structural)]
pub enum LinkEvent {
    /// The gateway starts up.
    Start,
    /// The connection attempt under way has succeeded.
    ConnectSucceeded,
    /// The connection attempt under way has failed.
    ConnectFailed,
    /// The wait before the next attempt is over.
    RetryDue,
    /// The read half has ended: the feed closed the socket.
    StreamEnded,
    /// It is time for a keepalive ping towards the feed.
    KeepaliveDue,
    /// The process shuts down.
    Shutdown,
}

/// What the owner of the socket has to do for the link.
#[derive(Debug, Clone, Copy, PartialEq, Eq, Structural)]
pub enum LinkAction {
    /// Try to open the socket to the feed.
    Connect,
    /// Start reading from the socket and writing the queued frames to it.
    StartHalves,
    /// Wait this many milliseconds, then report [`LinkEvent::RetryDue`].
    RetryAfter(u64),
    /// Cancel the wait before the next attempt.
    CancelRetry,
    /// Drop the socket, or the attempt to open it.
    Disconnect,
    /// The retry budget is used up: the gateway cannot go on.
    GiveUp,
}

/// The link as a mathematical value. The transitions below define what
/// [`UpstreamLink`] does.
pub struct LinkModel {
    pub policy: BackoffPolicy,
    pub status: LinkStatus,
    /// Failed connection attempts since the socket was last open.
    pub failures: nat,
    /// The link has given up or was shut down; nothing moves it any more.
    pub halted: bool,
    /// The most frames that the write queue holds.
    pub limit: nat,
    /// Frames waiting to be written to the feed, oldest first.
    pub outbound: Seq<FrameView>,
}

impl LinkModel {
    pub open spec fn wf(self) -> bool {
        &&& self.policy.wf()
        &&& self.outbound.len() <= self.limit
        &&& !self.halted ==> self.failures < self.policy.budget()
        &&& self.status is Connected ==> self.failures == 0
    }

    pub open spec fn idle(policy: BackoffPolicy, limit: nat) -> LinkModel {
        LinkModel {
            policy,
            status: LinkStatus::Disconnected,
            failures: 0,
            halted: false,
            limit,
            outbound: Seq::empty(),
        }
    }

    /// A connection attempt is under way.
    pub open spec fn attempting(self) -> bool {
        self.status is Connecting || self.status is Reconnecting
    }

    /// The link is waiting for the next attempt.
    pub open spec fn waiting(self) -> bool {
        self.status is Disconnected && self.failures > 0 && !self.halted
    }

    /// The link has an open socket and is in service.
    pub open spec fn connected(self) -> bool {
        self.status is Connected && !self.halted
    }

    pub open spec fn quiet(self) -> (LinkModel, Seq<LinkAction>) {
        (self, Seq::empty())
    }

    /// The link after `event`, and what its owner has to do.
    pub open spec fn step(self, event: LinkEvent) -> (LinkModel, Seq<LinkAction>) {
        if self.halted {
            self.quiet()
        } else {
            match event {
                LinkEvent::Start => {
                    if self.status is Disconnected && self.failures == 0 {
                        (
                            LinkModel { status: LinkStatus::Connecting, ..self },
                            seq![LinkAction::Connect],
                        )
                    } else {
                        self.quiet()
                    }
                },
                LinkEvent::RetryDue => {
                    if self.waiting() {
                        (
                            LinkModel { status: LinkStatus::Connecting, ..self },
                            seq![LinkAction::Connect],
                        )
                    } else {
                        self.quiet()
                    }
                },
                LinkEvent::ConnectSucceeded => {
                    if self.attempting() {
                        (
                            LinkModel { status: LinkStatus::Connected, failures: 0, ..self },
                            seq![LinkAction::StartHalves],
                        )
                    } else {
                        self.quiet()
                    }
                },
                LinkEvent::ConnectFailed => {
                    if !self.attempting() {
                        self.quiet()
                    } else if self.failures + 1 >= self.policy.budget() {
                        (
                            LinkModel {
                                status: LinkStatus::Disconnected,
                                failures: self.failures + 1,
                                halted: true,
                                ..self
                            },
                            seq![LinkAction::GiveUp],
                        )
                    } else {
                        (
                            LinkModel {
                                status: LinkStatus::Disconnected,
                                failures: self.failures + 1,
                                ..self
                            },
                            seq![
                                LinkAction::RetryAfter(
                                    self.policy.delay(self.failures + 1) as u64,
                                ),
                            ],
                        )
                    }
                },
                LinkEvent::StreamEnded => {
                    if self.status is Connected {
                        (
                            LinkModel { status: LinkStatus::Reconnecting, ..self },
                            seq![LinkAction::Connect],
                        )
                    } else {
                        self.quiet()
                    }
                },
                LinkEvent::KeepaliveDue => {
                    if self.status is Connected {
                        (self.enqueue(FrameView::Ping(Seq::empty())), Seq::empty())
                    } else {
                        self.quiet()
                    }
                },
                LinkEvent::Shutdown => (
                    LinkModel {
                        status: LinkStatus::Disconnected,
                        halted: true,
                        outbound: Seq::empty(),
                        ..self
                    },
                    if self.waiting() {
                        seq![LinkAction::CancelRetry]
                    } else if self.status is Disconnected {
                        Seq::empty()
                    } else {
                        seq![LinkAction::Disconnect]
                    },
                ),
            }
        }
    }

    /// The write queue takes `frame`: the link is not halted and the queue
    /// has room.
    pub open spec fn takes(self) -> bool {
        !self.halted && self.outbound.len() < self.limit
    }

    /// Puts `frame` at the back of the write queue if the queue takes it.
    pub open spec fn enqueue(self, frame: FrameView) -> LinkModel {
        if self.takes() {
            LinkModel { outbound: self.outbound.push(frame), ..self }
        } else {
            self
        }
    }

    /// The writer may write: the socket is open and a frame is waiting.
    pub open spec fn writable(self) -> bool {
        self.connected() && self.outbound.len() > 0
    }

    /// The link after the writer took the oldest frame.
    pub open spec fn written(self) -> LinkModel {
        if self.writable() {
            LinkModel { outbound: self.outbound.drop_first(), ..self }
        } else {
            self
        }
    }

    /// `frame`, read from the feed, is to be fanned out to the clients: the
    /// link is in service and the frame carries data.
    pub open spec fn relays(self, frame: FrameView) -> bool {
        self.connected() && frame.is_data()
    }

    /// The link after `count` rounds of a failed attempt and the wait that
    /// follows it.
    pub open spec fn after_failed_rounds(self, count: nat) -> LinkModel
        decreases count,
    {
        if count == 0 {
            self
        } else {
            self.after_failed_rounds((count - 1) as nat).step(LinkEvent::ConnectFailed).0.step(
                LinkEvent::RetryDue,
            ).0
        }
    }
}

/// The link to the upstream feed.
#[derive(Debug)]
pub struct UpstreamLink {
    policy: BackoffPolicy,
    status: LinkStatus,
    failures: u32,
    halted: bool,
    outbound: OutboundQueue,
}

impl View for UpstreamLink {
    type V = LinkModel;

    closed spec fn view(&self) -> LinkModel {
        LinkModel {
            policy: self.policy,
            status: self.status,
            failures: self.failures as nat,
            halted: self.halted,
            limit: self.outbound.limit(),
            outbound: self.outbound@,
        }
    }
}

impl UpstreamLink {
    /// The invariant of every link.
    pub open spec fn wf(&self) -> bool {
        self@.wf()
    }

    /// A link that has not started yet, with an empty write queue for up to
    /// `write_capacity` frames.
    pub fn new(policy: BackoffPolicy, write_capacity: usize) -> (link: UpstreamLink)
        requires
            policy.wf(),
        ensures
            link.wf(),
            link@ == LinkModel::idle(policy, write_capacity as nat),
    {
        UpstreamLink {
            policy,
            status: LinkStatus::Disconnected,
            failures: 0,
            halted: false,
            outbound: OutboundQueue::new(write_capacity),
        }
    }

    pub fn status(&self) -> (status: LinkStatus)
        ensures
            status == self@.status,
    {
        self.status
    }

    pub fn policy(&self) -> (policy: BackoffPolicy)
        ensures
            policy == self@.policy,
    {
        self.policy
    }

    /// Failed connection attempts since the socket was last open.
    pub fn failures(&self) -> (failures: u32)
        ensures
            failures == self@.failures,
    {
        self.failures
    }

    /// The link has given up or was shut down.
    pub fn is_halted(&self) -> (halted: bool)
        ensures
            halted == self@.halted,
    {
        self.halted
    }

    /// The link has an open socket and is in service.
    pub fn is_connected(&self) -> (connected: bool)
        ensures
            connected == self@.connected(),
    {
        !self.halted && matches!(self.status, LinkStatus::Connected)
    }

    /// The number of frames waiting to be written to the feed.
    pub fn queued(&self) -> (count: usize)
        ensures
            count == self@.outbound.len(),
    {
        self.outbound.len()
    }

    fn is_attempting(&self) -> (attempting: bool)
        ensures
            attempting == self@.attempting(),
    {
        match self.status {
            LinkStatus::Connecting => true,
            LinkStatus::Reconnecting => true,
            _ => false,
        }
    }

    fn is_disconnected(&self) -> (disconnected: bool)
        ensures
            disconnected == (self@.status is Disconnected),
    {
        match self.status {
            LinkStatus::Disconnected => true,
            _ => false,
        }
    }

    /// Takes in what happened on the socket and says what to do next.
    pub fn on_event(&mut self, event: LinkEvent) -> (actions: Vec<LinkAction>)
        requires
            old(self).wf(),
        ensures
            final(self).wf(),
            (final(self)@, actions@) == old(self)@.step(event),
    {
        let mut actions: Vec<LinkAction> = Vec::new();
        if !self.halted {
            match event {
                LinkEvent::Start => {
                    if self.is_disconnected() && self.failures == 0 {
                        self.status = LinkStatus::Connecting;
                        actions.push(LinkAction::Connect);
                    }
                },
                LinkEvent::RetryDue => {
                    if self.is_disconnected() && self.failures > 0 {
                        self.status = LinkStatus::Connecting;
                        actions.push(LinkAction::Connect);
                    }
                },
                LinkEvent::ConnectSucceeded => {
                    if self.is_attempting() {
                        self.status = LinkStatus::Connected;
                        self.failures = 0;
                        actions.push(LinkAction::StartHalves);
                    }
                },
                LinkEvent::ConnectFailed => {
                    if self.is_attempting() {
                        self.status = LinkStatus::Disconnected;
                        self.failures = self.failures + 1;
                        if self.failures >= self.policy.max_attempts() {
                            self.halted = true;
                            actions.push(LinkAction::GiveUp);
                        } else {
                            actions.push(LinkAction::RetryAfter(self.policy.delay_after(self.failures)));
                        }
                    }
                },
                LinkEvent::StreamEnded => {
                    if self.is_connected() {
                        self.status = LinkStatus::Reconnecting;
                        actions.push(LinkAction::Connect);
                    }
                },
                LinkEvent::KeepaliveDue => {
                    if self.is_connected() {
                        let _ = self.outbound.offer(Frame::Ping(Vec::new()));
                    }
                },
                LinkEvent::Shutdown => {
                    if self.is_disconnected() {
                        if self.failures > 0 {
                            actions.push(LinkAction::CancelRetry);
                        }
                    } else {
                        actions.push(LinkAction::Disconnect);
                    }
                    self.status = LinkStatus::Disconnected;
                    self.halted = true;
                    let _ = self.outbound.drain();
                },
            }
        }
        actions
    }

    /// Puts `frame` at the back of the write queue and says whether it did.
    /// A frame is refused when the queue is full or the link is halted.
    pub fn enqueue(&mut self, frame: Frame) -> (accepted: bool)
        requires
            old(self).wf(),
        ensures
            final(self).wf(),
            accepted == old(self)@.takes(),
            final(self)@ == old(self)@.enqueue(frame@),
    {
        if self.halted {
            return false;
        }
        self.outbound.offer(frame)
    }

    /// Takes the oldest frame out of the write queue for the writer to put
    /// on the socket. There is none while the socket is not open.
    pub fn next_outbound(&mut self) -> (next: Option<Frame>)
        requires
            old(self).wf(),
        ensures
            final(self).wf(),
            final(self)@ == old(self)@.written(),
            match next {
                Some(frame) => old(self)@.writable() && frame@ == old(self)@.outbound.first(),
                None => !old(self)@.writable(),
            },
    {
        if !self.is_connected() {
            return None;
        }
        self.outbound.take_next()
    }

    /// Whether `frame`, read from the feed, is to be fanned out to the
    /// clients.
    pub fn relays(&self, frame: &Frame) -> (relayed: bool)
        ensures
            relayed == self@.relays(frame@),
    {
        self.is_connected() && frame.is_data()
    }
}

/// Retries within the budget. Take a link with an attempt under way and no
/// failure so far, and let `rounds` attempts in a row fail, each followed by
/// its wait, with `rounds` below the budget. Then the link has not given up:
/// it is attempting again, it has counted the failures, and its write queue
/// is as it was. If that attempt succeeds, the link is in service with a
/// clean count. If it fails too, the link waits once more, for the delay that
/// the policy gives for that many failures, unless the budget is now used up,
/// in which case it gives up.
pub proof fn retries_within_budget(link: LinkModel, rounds: nat)
    requires
        link.wf(),
        !link.halted,
        link.attempting(),
        link.failures == 0,
        rounds < link.policy.budget(),
    ensures
        ({
            let now = link.after_failed_rounds(rounds);
            let failed = now.step(LinkEvent::ConnectFailed);
            let succeeded = now.step(LinkEvent::ConnectSucceeded);
            &&& now.wf()
            &&& now == LinkModel {
                status: if rounds == 0 {
                    link.status
                } else {
                    LinkStatus::Connecting
                },
                failures: rounds,
                ..link
            }
            &&& succeeded == (
                LinkModel { status: LinkStatus::Connected, failures: 0, ..link },
                seq![LinkAction::StartHalves],
            )
            &&& failed.0.failures == rounds + 1
            &&& failed.0.status is Disconnected
            &&& failed.0.halted == (rounds + 1 >= link.policy.budget())
            &&& failed.1 == if rounds + 1 >= link.policy.budget() {
                seq![LinkAction::GiveUp]
            } else {
                seq![LinkAction::RetryAfter(link.policy.delay(rounds + 1) as u64)]
            }
        }),
    decreases rounds,
{
    if rounds > 0 {
        retries_within_budget(link, (rounds - 1) as nat);
    }
}

/// Only the end of the budget, or a shutdown, stops the link for good: a link
/// that is not halted is halted after an event only if the event is the
/// shutdown, or the failure of an attempt that uses up the budget. A halted
/// link stays as it is and asks for nothing.
pub proof fn only_exhaustion_or_shutdown_halts(link: LinkModel, event: LinkEvent)
    ensures
        link.halted ==> link.step(event) == (link, Seq::<LinkAction>::empty()),
        !link.halted && link.step(event).0.halted ==> {
            ||| event is Shutdown
            ||| {
                &&& event is ConnectFailed
                &&& link.attempting()
                &&& link.failures + 1 >= link.policy.budget()
            }
        },
{
}

/// Every event leaves a well-formed link well-formed.
pub proof fn step_keeps_wf(link: LinkModel, event: LinkEvent)
    requires
        link.wf(),
    ensures
        link.step(event).0.wf(),
        link.step(event).0.policy == link.policy,
        link.step(event).0.limit == link.limit,
{
}

} // verus!
