//! The gateway: the state that all connections share.
//!
//! The gateway owns the registry of client connections and the link to the
//! upstream feed, and hands out connection identifiers. Every method is one
//! short step on that state and performs no I/O, so the gateway can live
//! behind a single owner or a lock that is held for one call at a time.
//! The supervisors of the connections are owned by whoever owns the sockets;
//! the gateway takes a supervisor by reference for the length of one event.

use vstd::prelude::*;
use crate::backoff::BackoffPolicy;
use crate::connection::{Action, ActionView, ConnectionModel, ConnectionState, ConnectionSupervisor, inbound_view};
use crate::frame::{Frame, FrameView, ProtocolError};
use crate::heartbeat::HeartbeatPolicy;
use crate::registry::{FanOutReport, Registry, RegistryModel};
use crate::upstream::{LinkAction, LinkEvent, LinkModel, UpstreamLink};

verus! {

/// The gateway as a mathematical value. The transitions below define what
/// the methods of [`Gateway`] do.
pub struct GatewayModel {
    pub heartbeat: HeartbeatPolicy,
    /// The identifier that the next accepted connection gets. Identifiers
    /// are handed out in increasing order and never again.
    pub next_id: nat,
    pub registry: RegistryModel,
    pub link: LinkModel,
}

impl GatewayModel {
    pub open spec fn wf(self) -> bool {
        &&& self.heartbeat.wf()
        &&& self.registry.wf()
        &&& self.link.wf()
        &&& self.next_id <= u64::MAX
        &&& forall|id: u64| self.registry.has(id) ==> id < self.next_id
    }

    pub open spec fn fresh(
        heartbeat: HeartbeatPolicy,
        backoff: BackoffPolicy,
        queue_limit: nat,
    ) -> GatewayModel {
        GatewayModel {
            heartbeat,
            next_id: 0,
            registry: RegistryModel::empty(queue_limit),
            link: LinkModel::idle(backoff, queue_limit),
        }
    }

    /// No identifier is left to hand out.
    pub open spec fn exhausted(self) -> bool {
        self.next_id >= u64::MAX
    }

    /// The connection that `accept` creates at `now`, before it starts.
    pub open spec fn newcomer(self, now: nat) -> ConnectionModel {
        ConnectionModel {
            id: self.next_id as u64,
            policy: self.heartbeat,
            last_heartbeat: now,
            state: ConnectionState::Active,
        }
    }

    /// The gateway after it accepted a connection: the connection is
    /// registered under the next identifier.
    pub open spec fn accept(self) -> GatewayModel {
        if self.exhausted() {
            self
        } else {
            GatewayModel {
                next_id: self.next_id + 1,
                registry: self.registry.register(self.next_id as u64),
                ..self
            }
        }
    }

    /// Whether `action` is left for the owner of the socket. The gateway
    /// itself carries out the removal from the registry and the forwarding
    /// to the upstream link.
    pub open spec fn left_to_owner(action: ActionView) -> bool {
        !(action is Unregister || action is Forward)
    }

    /// The gateway after it carried out its part of `action`.
    pub open spec fn absorb_one(self, action: ActionView) -> GatewayModel {
        match action {
            ActionView::Unregister(id) => GatewayModel {
                registry: self.registry.unregister(id),
                ..self
            },
            ActionView::Forward(frame) => GatewayModel { link: self.link.enqueue(frame), ..self },
            _ => self,
        }
    }

    /// The gateway after it carried out its part of `actions`, first to
    /// last, and the actions that are left for the owner of the socket, in
    /// their order.
    pub open spec fn absorb(self, actions: Seq<ActionView>) -> (GatewayModel, Seq<ActionView>)
        decreases actions.len(),
    {
        if actions.len() == 0 {
            (self, Seq::empty())
        } else {
            let (gateway, left) = self.absorb(actions.drop_last());
            (
                gateway.absorb_one(actions.last()),
                if Self::left_to_owner(actions.last()) {
                    left.push(actions.last())
                } else {
                    left
                },
            )
        }
    }

    pub open spec fn link_event(self, event: LinkEvent) -> (GatewayModel, Seq<LinkAction>) {
        (GatewayModel { link: self.link.step(event).0, ..self }, self.link.step(event).1)
    }

    /// The gateway after the read half of the link produced `frame`: a data
    /// frame that arrives while the link is in service is fanned out, and
    /// anything else is ignored.
    pub open spec fn upstream_frame(self, frame: FrameView) -> GatewayModel {
        if self.link.relays(frame) {
            GatewayModel { registry: self.registry.fan_out(frame), ..self }
        } else {
            self
        }
    }

    pub open spec fn take_outbound(self, id: u64) -> GatewayModel {
        GatewayModel { registry: self.registry.drained(id), ..self }
    }

    pub open spec fn next_upstream_write(self) -> GatewayModel {
        GatewayModel { link: self.link.written(), ..self }
    }

    /// The gateway after one operation.
    pub open spec fn apply(self, op: GatewayOp) -> GatewayModel {
        match op {
            GatewayOp::Accept => self.accept(),
            GatewayOp::Absorb(actions) => self.absorb(actions).0,
            GatewayOp::Link(event) => self.link_event(event).0,
            GatewayOp::UpstreamFrame(frame) => self.upstream_frame(frame),
            GatewayOp::TakeOutbound(id) => self.take_outbound(id),
            GatewayOp::NextUpstreamWrite => self.next_upstream_write(),
        }
    }

    /// The gateway after the operations of `ops`, first to last.
    pub open spec fn run(self, ops: Seq<GatewayOp>) -> GatewayModel
        decreases ops.len(),
    {
        if ops.len() == 0 {
            self
        } else {
            self.run(ops.drop_last()).apply(ops.last())
        }
    }
}

/// One operation on the gateway, as a mathematical value: each stands for
/// one of the methods of [`Gateway`] that change it.
pub enum GatewayOp {
    /// A connection is accepted.
    Accept,
    /// The gateway carries out its part of what an event on some connection
    /// asked for.
    Absorb(Seq<ActionView>),
    /// Something happened on the socket of the upstream link.
    Link(LinkEvent),
    /// The read half of the upstream link produced a frame.
    UpstreamFrame(FrameView),
    /// The queue of a connection is taken out.
    TakeOutbound(u64),
    /// The writer of the upstream link takes the next frame.
    NextUpstreamWrite,
}

/// The shared state of the gateway.
#[derive(Debug)]
pub struct Gateway {
    heartbeat: HeartbeatPolicy,
    next_id: u64,
    registry: Registry,
    link: UpstreamLink,
}

impl View for Gateway {
    type V = GatewayModel;

    closed spec fn view(&self) -> GatewayModel {
        GatewayModel {
            heartbeat: self.heartbeat,
            next_id: self.next_id as nat,
            registry: self.registry@,
            link: self.link@,
        }
    }
}

impl Gateway {
    /// How the gateway is laid out.
    pub closed spec fn inv(&self) -> bool {
        self.registry.inv()
    }

    /// The invariant of every gateway.
    pub open spec fn wf(&self) -> bool {
        &&& self.inv()
        &&& self@.wf()
    }

    /// A gateway with no connection and a link that has not started. Every
    /// outbound queue, that of each client and that of the link, holds up to
    /// `queue_capacity` frames.
    pub fn new(heartbeat: HeartbeatPolicy, backoff: BackoffPolicy, queue_capacity: usize) -> (gateway:
        Gateway)
        requires
            heartbeat.wf(),
            backoff.wf(),
        ensures
            gateway.wf(),
            gateway@ == GatewayModel::fresh(heartbeat, backoff, queue_capacity as nat),
    {
        Gateway {
            heartbeat,
            next_id: 0,
            registry: Registry::new(queue_capacity),
            link: UpstreamLink::new(backoff, queue_capacity),
        }
    }

    pub fn registry(&self) -> (registry: &Registry)
        requires
            self.wf(),
        ensures
            registry.wf(),
            registry@ == self@.registry,
    {
        &self.registry
    }

    pub fn link(&self) -> (link: &UpstreamLink)
        requires
            self.wf(),
        ensures
            link.wf(),
            link@ == self@.link,
    {
        &self.link
    }

    /// Accepts a client connection at `now`: a supervisor is made for it
    /// under the next identifier, registered and started. The result is the
    /// supervisor and what its start asks for. Nothing is accepted once the
    /// identifiers have run out.
    pub fn accept(&mut self, now: u64) -> (accepted: Option<(ConnectionSupervisor, Vec<Action>)>)
        requires
            old(self).wf(),
        ensures
            final(self).wf(),
            final(self)@ == old(self)@.accept(),
            match accepted {
                Some((supervisor, actions)) => {
                    &&& !old(self)@.exhausted()
                    &&& supervisor.wf()
                    &&& (supervisor@, actions.deep_view()) == old(self)@.newcomer(now as nat).start(
                        now as nat,
                    )
                },
                None => old(self)@.exhausted(),
            },
    {
        if self.next_id == u64::MAX {
            return None;
        }
        let id = self.next_id;
        let added = self.registry.register(id);
        assert(added);
        self.next_id = id + 1;
        assert forall|k: u64| self@.registry.has(k) implies k < self@.next_id by {
            if k != id {
                assert(old(self)@.registry.has(k));
            }
        }
        let mut supervisor = ConnectionSupervisor::new(id, self.heartbeat, now);
        let actions = supervisor.on_start(now);
        Some((supervisor, actions))
    }

    /// Carries out the gateway's part of `actions`: a connection that asks
    /// to be unregistered leaves the registry, and a frame that is to be
    /// forwarded goes into the write queue of the upstream link (and is
    /// dropped if the queue does not take it). The actions that are left
    /// for the owner of the socket are handed back in their order.
    pub fn absorb(&mut self, actions: Vec<Action>) -> (left: Vec<Action>)
        requires
            old(self).wf(),
        ensures
            final(self).wf(),
            (final(self)@, left.deep_view()) == old(self)@.absorb(actions.deep_view()),
            final(self)@.next_id == old(self)@.next_id,
    {
        let mut left: Vec<Action> = Vec::new();
        let ghost all = actions.deep_view();
        for action in it: actions
            invariant
                self.wf(),
                self@.next_id == old(self)@.next_id,
                it.seq().len() == all.len(),
                forall|i: int| 0 <= i < all.len() ==> (#[trigger] it.seq()[i])@ == all[i],
                (self@, left.deep_view()) == old(self)@.absorb(all.take(it.index() as int)),
        {
            let ghost done = it.index() as int;
            let ghost before = left.deep_view();
            proof {
                assert(all.take(done + 1).drop_last() =~= all.take(done));
            }
            match action {
                Action::Unregister(id) => {
                    let ghost registry = self@.registry;
                    let _ = self.registry.unregister(id);
                    assert forall|k: u64| self@.registry.has(k) implies k < self@.next_id by {
                        assert(registry.has(k));
                    }
                },
                Action::Forward(frame) => {
                    let _ = self.link.enqueue(frame);
                },
                other => {
                    left.push(other);
                },
            }
        }
        assert(all.take(all.len() as int) =~= all);
        left
    }

    /// A message arrived at `now` on the connection that `supervisor`
    /// looks after. The supervisor handles it, the gateway carries out its
    /// own part of what the supervisor asks for, and the rest is handed
    /// back for the owner of the socket.
    pub fn on_client_frame(
        &mut self,
        supervisor: &mut ConnectionSupervisor,
        msg: Result<Frame, ProtocolError>,
        now: u64,
    ) -> (left: Vec<Action>)
        requires
            old(self).wf(),
            old(supervisor).wf(),
        ensures
            final(self).wf(),
            final(supervisor).wf(),
            final(supervisor)@ == old(supervisor)@.receive(inbound_view(msg), now as nat).0,
            (final(self)@, left.deep_view()) == old(self)@.absorb(
                old(supervisor)@.receive(inbound_view(msg), now as nat).1,
            ),
    {
        let actions = supervisor.on_inbound_frame(msg, now);
        self.absorb(actions)
    }

    /// The heartbeat timer of the connection that `supervisor` looks after
    /// fired at `now`.
    pub fn on_client_tick(&mut self, supervisor: &mut ConnectionSupervisor, now: u64) -> (left: Vec<
        Action,
    >)
        requires
            old(self).wf(),
            old(supervisor).wf(),
        ensures
            final(self).wf(),
            final(supervisor).wf(),
            final(supervisor)@ == old(supervisor)@.tick(now as nat).0,
            (final(self)@, left.deep_view()) == old(self)@.absorb(old(supervisor)@.tick(now as nat).1),
    {
        let actions = supervisor.on_tick(now);
        self.absorb(actions)
    }

    /// The owner stops the connection that `supervisor` looks after.
    pub fn stop_client(&mut self, supervisor: &mut ConnectionSupervisor) -> (left: Vec<Action>)
        requires
            old(self).wf(),
            old(supervisor).wf(),
        ensures
            final(self).wf(),
            final(supervisor).wf(),
            final(supervisor)@ == old(supervisor)@.stop().0,
            (final(self)@, left.deep_view()) == old(self)@.absorb(old(supervisor)@.stop().1),
    {
        let actions = supervisor.stop();
        self.absorb(actions)
    }

    /// Takes every frame that is queued for the connection `id`, oldest
    /// first, for the owner of the socket to write.
    pub fn take_outbound(&mut self, id: u64) -> (taken: Vec<Frame>)
        requires
            old(self).wf(),
        ensures
            final(self).wf(),
            taken.deep_view() == old(self)@.registry.pending(id),
            final(self)@ == old(self)@.take_outbound(id),
    {
        let taken = self.registry.drain(id);
        assert forall|k: u64| self@.registry.has(k) implies k < self@.next_id by {
            assert(old(self)@.registry.has(k));
        }
        taken
    }

    /// Something happened on the socket of the upstream link. The registry
    /// and the connections are not touched.
    pub fn on_link_event(&mut self, event: LinkEvent) -> (actions: Vec<LinkAction>)
        requires
            old(self).wf(),
        ensures
            final(self).wf(),
            (final(self)@, actions@) == old(self)@.link_event(event),
    {
        self.link.on_event(event)
    }

    /// The read half of the upstream link produced `frame`. A data frame
    /// that arrives while the link is in service is fanned out to every
    /// registered connection; any other frame is ignored. The report names
    /// the connections that took the frame and those that dropped it.
    pub fn on_upstream_frame(&mut self, frame: Frame) -> (report: FanOutReport)
        requires
            old(self).wf(),
        ensures
            final(self).wf(),
            final(self)@ == old(self)@.upstream_frame(frame@),
            report.queued@.no_duplicates(),
            report.dropped@.no_duplicates(),
            forall|id: u64|
                report.queued@.contains(id) <==> old(self)@.link.relays(frame@) && old(
                    self,
                )@.registry.has_room(id),
            forall|id: u64|
                report.dropped@.contains(id) <==> old(self)@.link.relays(frame@) && old(
                    self,
                )@.registry.is_full(id),
    {
        if self.link.relays(&frame) {
            self.registry.fan_out(&frame)
        } else {
            FanOutReport { queued: Vec::new(), dropped: Vec::new() }
        }
    }

    /// Takes the oldest frame out of the write queue of the upstream link,
    /// for the writer to put on the socket.
    pub fn next_upstream_write(&mut self) -> (next: Option<Frame>)
        requires
            old(self).wf(),
        ensures
            final(self).wf(),
            final(self)@ == old(self)@.next_upstream_write(),
            match next {
                Some(frame) => {
                    &&& old(self)@.link.writable()
                    &&& frame@ == old(self)@.link.outbound.first()
                },
                None => !old(self)@.link.writable(),
            },
    {
        self.link.next_outbound()
    }
}

/// Carrying out actions registers nothing and hands out no identifier.
proof fn lemma_absorb_adds_nothing(g: GatewayModel, actions: Seq<ActionView>)
    ensures
        g.absorb(actions).0.next_id == g.next_id,
        g.absorb(actions).0.heartbeat == g.heartbeat,
        forall|id: u64| g.absorb(actions).0.registry.has(id) ==> g.registry.has(id),
    decreases actions.len(),
{
    if actions.len() > 0 {
        lemma_absorb_adds_nothing(g, actions.drop_last());
    }
}

/// Registry consistency, first part: a connection that closes leaves the
/// registry. Whatever event closes an active connection, once the gateway
/// has carried out its part of what the supervisor asked for, the
/// connection's identifier is no longer registered.
pub proof fn closed_connection_is_unregistered(
    g: GatewayModel,
    c: ConnectionModel,
    msg: Result<FrameView, ProtocolError>,
    now: nat,
)
    requires
        c.state is Active,
    ensures
        c.tick(now).0.state is Closed ==> !g.absorb(c.tick(now).1).0.registry.has(c.id),
        c.receive(msg, now).0.state is Closed ==> !g.absorb(c.receive(msg, now).1).0.registry.has(
            c.id,
        ),
        !g.absorb(c.stop().1).0.registry.has(c.id),
{
    let entry = seq![ActionView::Enter(ConnectionState::Closing)];
    lemma_teardown_unregisters(g, c, entry);
    lemma_teardown_unregisters(g, c, entry.push(ActionView::Send(FrameView::Close)));
    lemma_teardown_unregisters(g, c, Seq::empty());
}

/// Actions that end in the teardown of `c` take `c` out of the registry.
proof fn lemma_teardown_unregisters(g: GatewayModel, c: ConnectionModel, before: Seq<ActionView>)
    ensures
        !g.absorb(before + c.teardown()).0.registry.has(c.id),
{
}

/// Registry consistency, second part: a connection that has left the
/// registry never gets back in. Identifiers are handed out once, so when an
/// identifier that has been handed out is not registered, no sequence of
/// operations registers it again. No fan-out round that follows queues
/// anything for it, and nothing is ever waiting for it.
pub proof fn closed_connection_stays_out(g: GatewayModel, id: u64, ops: Seq<GatewayOp>)
    requires
        id < g.next_id,
        !g.registry.has(id),
    ensures
        id < g.run(ops).next_id,
        !g.run(ops).registry.has(id),
        g.run(ops).registry.pending(id) == Seq::<FrameView>::empty(),
    decreases ops.len(),
{
    if ops.len() > 0 {
        closed_connection_stays_out(g, id, ops.drop_last());
        let before = g.run(ops.drop_last());
        match ops.last() {
            GatewayOp::Absorb(actions) => {
                lemma_absorb_adds_nothing(before, actions);
            },
            _ => {},
        }
    }
}

/// Reconnect resilience. Let the feed close the socket of a gateway whose
/// link is in service, and let `rounds` attempts to open it again fail, with
/// `rounds` below the retry budget, before one succeeds. Then:
/// the link asks for a new attempt as soon as the stream ends;
/// all along, the registry, the queues of the clients and the identifiers are
/// as they were, and a connection that is accepted in the meantime is
/// registered as at any other time;
/// while the link is down, a frame that claims to come from the feed is not
/// fanned out;
/// and once the attempt succeeds the link is in service again, and the next
/// data frame from the feed is fanned out to the connections that were there
/// before.
pub proof fn reconnect_keeps_serving(g: GatewayModel, rounds: nat, frame: FrameView)
    requires
        g.wf(),
        g.link.connected(),
        rounds < g.link.policy.budget(),
        frame.is_data(),
    ensures
        ({
            let lost = g.link_event(LinkEvent::StreamEnded);
            let retrying = GatewayModel { link: lost.0.link.after_failed_rounds(rounds), ..g };
            let back = retrying.link_event(LinkEvent::ConnectSucceeded);
            &&& lost.1 == seq![LinkAction::Connect]
            &&& lost.0 == GatewayModel { link: lost.0.link, ..g }
            &&& lost.0.link.status is Reconnecting
            &&& lost.0.upstream_frame(frame) == lost.0
            &&& retrying.upstream_frame(frame) == retrying
            &&& retrying.accept() == GatewayModel { link: retrying.link, ..g.accept() }
            &&& back.1 == seq![LinkAction::StartHalves]
            &&& back.0 == GatewayModel { link: back.0.link, ..g }
            &&& back.0.link.connected()
            &&& back.0.upstream_frame(frame).registry == g.registry.fan_out(frame)
        }),
{
    let lost = g.link_event(LinkEvent::StreamEnded);
    crate::upstream::retries_within_budget(lost.0.link, rounds);
}

} // verus!
