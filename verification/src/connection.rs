//! The supervisor of one client connection: its heartbeat bookkeeping and
//! its reaction to inbound frames.
//!
//! A supervisor performs no I/O. Each event handler updates the supervisor and
//! returns, in order, the [`Action`]s that the owner of the socket and of the
//! heartbeat timer has to carry out.

use vstd::prelude::*;
use crate::frame::{Frame, FrameView, ProtocolError};
use crate::heartbeat::HeartbeatPolicy;

verus! {

/// Lifecycle of a connection. `Active` is the initial state, `Closed` is
/// terminal, and there is no way back to `Active`.
#[derive(Debug, Clone, Copy, PartialEq, Eq, Structural)]
pub enum ConnectionState {
    Active,
    Closing,
    Closed,
}

/// One step that the owner of a connection has to perform.
#[derive(Debug, PartialEq, Eq)]
pub enum Action {
    /// The connection has entered this state. Actions listed before the entry
    /// into `Closed` happen while the connection is still open.
    Enter(ConnectionState),
    /// Start the recurring heartbeat tick with this period in milliseconds.
    ScheduleHeartbeat(u64),
    /// Write this frame to the client socket.
    Send(Frame),
    /// Hand this frame to the write path of the upstream link.
    Forward(Frame),
    /// Cancel the recurring heartbeat tick.
    CancelHeartbeat,
    /// Release the client socket.
    ReleaseSocket,
    /// Remove the connection with this identifier from the registry.
    Unregister(u64),
}

/// Mathematical value of an [`Action`].
pub enum ActionView {
    Enter(ConnectionState),
    ScheduleHeartbeat(u64),
    Send(FrameView),
    Forward(FrameView),
    CancelHeartbeat,
    ReleaseSocket,
    Unregister(u64),
}

impl View for Action {
    type V = ActionView;

    open spec fn view(&self) -> ActionView {
        match *self {
            Action::Enter(state) => ActionView::Enter(state),
            Action::ScheduleHeartbeat(ms) => ActionView::ScheduleHeartbeat(ms),
            Action::Send(frame) => ActionView::Send(frame@),
            Action::Forward(frame) => ActionView::Forward(frame@),
            Action::CancelHeartbeat => ActionView::CancelHeartbeat,
            Action::ReleaseSocket => ActionView::ReleaseSocket,
            Action::Unregister(id) => ActionView::Unregister(id),
        }
    }
}

impl DeepView for Action {
    type V = ActionView;

    open spec fn deep_view(&self) -> ActionView {
        self@
    }
}

impl Clone for Action {
    fn clone(&self) -> (copy: Action)
        ensures
            copy@ == self@,
    {
        match self {
            Action::Enter(state) => Action::Enter(*state),
            Action::ScheduleHeartbeat(ms) => Action::ScheduleHeartbeat(*ms),
            Action::Send(frame) => Action::Send(frame.duplicate()),
            Action::Forward(frame) => Action::Forward(frame.duplicate()),
            Action::CancelHeartbeat => Action::CancelHeartbeat,
            Action::ReleaseSocket => Action::ReleaseSocket,
            Action::Unregister(id) => Action::Unregister(*id),
        }
    }
}

/// What arrived from the client: a frame, or the reason why there is none.
pub open spec fn inbound_view(msg: Result<Frame, ProtocolError>) -> Result<FrameView, ProtocolError> {
    match msg {
        Ok(frame) => Ok(frame@),
        Err(error) => Err(error),
    }
}

/// The supervisor as a mathematical value, with time as an unbounded number
/// of milliseconds. The transitions below define what the handlers of
/// [`ConnectionSupervisor`] do.
pub struct ConnectionModel {
    pub id: u64,
    pub policy: HeartbeatPolicy,
    pub last_heartbeat: nat,
    pub state: ConnectionState,
}

impl ConnectionModel {
    /// Milliseconds since the last heartbeat; zero if `now` lies before it.
    pub open spec fn silence(self, now: nat) -> nat {
        if now >= self.last_heartbeat {
            (now - self.last_heartbeat) as nat
        } else {
            0
        }
    }

    /// The heartbeat timeout has run out at `now`.
    pub open spec fn expired(self, now: nat) -> bool {
        self.silence(now) > self.policy.timeout()
    }

    pub open spec fn closed(self) -> ConnectionModel {
        ConnectionModel { state: ConnectionState::Closed, ..self }
    }

    pub open spec fn refreshed(self, now: nat) -> ConnectionModel {
        ConnectionModel { last_heartbeat: now, ..self }
    }

    /// Tearing the connection down: the timer and the socket go first, then
    /// the connection is closed and leaves the registry.
    pub open spec fn teardown(self) -> Seq<ActionView> {
        seq![
            ActionView::CancelHeartbeat,
            ActionView::ReleaseSocket,
            ActionView::Enter(ConnectionState::Closed),
            ActionView::Unregister(self.id),
        ]
    }

    /// The connection starts: the heartbeat clock is set and the recurring
    /// tick is scheduled.
    pub open spec fn start(self, now: nat) -> (ConnectionModel, Seq<ActionView>) {
        if self.state is Active {
            (
                self.refreshed(now),
                seq![ActionView::ScheduleHeartbeat(self.policy.interval() as u64)],
            )
        } else {
            (self, Seq::empty())
        }
    }

    /// A heartbeat tick: a connection that has been silent for longer than
    /// the timeout is torn down without a ping; any other gets a ping with
    /// an empty payload.
    pub open spec fn tick(self, now: nat) -> (ConnectionModel, Seq<ActionView>) {
        if !(self.state is Active) {
            (self, Seq::empty())
        } else if self.expired(now) {
            (self.closed(), seq![ActionView::Enter(ConnectionState::Closing)] + self.teardown())
        } else {
            (self, seq![ActionView::Send(FrameView::Ping(Seq::empty()))])
        }
    }

    /// An inbound message. Only Ping and Pong refresh the heartbeat clock.
    pub open spec fn receive(self, msg: Result<FrameView, ProtocolError>, now: nat) -> (
        ConnectionModel,
        Seq<ActionView>,
    ) {
        if !(self.state is Active) {
            (self, Seq::empty())
        } else {
            match msg {
                Ok(FrameView::Ping(payload)) => (
                    self.refreshed(now),
                    seq![ActionView::Send(FrameView::Pong(payload))],
                ),
                Ok(FrameView::Pong(_)) => (self.refreshed(now), Seq::empty()),
                Ok(FrameView::Text(payload)) => (
                    self,
                    seq![ActionView::Forward(FrameView::Text(payload))],
                ),
                Ok(FrameView::Binary(payload)) => (
                    self,
                    seq![ActionView::Forward(FrameView::Binary(payload))],
                ),
                Ok(FrameView::Close) => (
                    self.closed(),
                    seq![
                        ActionView::Enter(ConnectionState::Closing),
                        ActionView::Send(FrameView::Close),
                    ] + self.teardown(),
                ),
                Err(_) => (self.closed(), self.teardown()),
            }
        }
    }

    /// The owner stops the connection. Stopping a connection that is no
    /// longer active does nothing.
    pub open spec fn stop(self) -> (ConnectionModel, Seq<ActionView>) {
        if self.state is Active {
            (self.closed(), seq![ActionView::Enter(ConnectionState::Closing)] + self.teardown())
        } else {
            (self, Seq::empty())
        }
    }

    /// The connection after `count` heartbeat ticks in a row, the first at
    /// `first` and each next one a ping interval later, with no inbound
    /// message in between.
    pub open spec fn after_ticks(self, first: nat, count: nat) -> ConnectionModel
        decreases count,
    {
        if count == 0 {
            self
        } else {
            let before = self.after_ticks(first, (count - 1) as nat);
            before.tick((first + (count - 1) * self.policy.interval()) as nat).0
        }
    }
}

/// Supervisor of one accepted client connection.
#[derive(Debug)]
pub struct ConnectionSupervisor {
    id: u64,
    policy: HeartbeatPolicy,
    last_heartbeat: u64,
    state: ConnectionState,
}

impl View for ConnectionSupervisor {
    type V = ConnectionModel;

    closed spec fn view(&self) -> ConnectionModel {
        ConnectionModel {
            id: self.id,
            policy: self.policy,
            last_heartbeat: self.last_heartbeat as nat,
            state: self.state,
        }
    }
}

impl ConnectionSupervisor {
    /// The invariant of every supervisor.
    pub open spec fn wf(&self) -> bool {
        self@.policy.wf()
    }

    /// A supervisor for the connection `id`, active, with its heartbeat
    /// clock at `now`.
    pub fn new(id: u64, policy: HeartbeatPolicy, now: u64) -> (made: ConnectionSupervisor)
        requires
            policy.wf(),
        ensures
            made.wf(),
            made@ == (ConnectionModel {
                id,
                policy,
                last_heartbeat: now as nat,
                state: ConnectionState::Active,
            }),
    {
        ConnectionSupervisor { id, policy, last_heartbeat: now, state: ConnectionState::Active }
    }

    pub fn id(&self) -> (id: u64)
        ensures
            id == self@.id,
    {
        self.id
    }

    pub fn policy(&self) -> (policy: HeartbeatPolicy)
        ensures
            policy == self@.policy,
    {
        self.policy
    }

    pub fn state(&self) -> (state: ConnectionState)
        ensures
            state == self@.state,
    {
        self.state
    }

    pub fn last_heartbeat(&self) -> (at: u64)
        ensures
            at == self@.last_heartbeat,
    {
        self.last_heartbeat
    }

    pub fn is_active(&self) -> (active: bool)
        ensures
            active == (self@.state is Active),
    {
        match self.state {
            ConnectionState::Active => true,
            _ => false,
        }
    }

    pub fn is_closed(&self) -> (closed: bool)
        ensures
            closed == (self@.state is Closed),
    {
        match self.state {
            ConnectionState::Closed => true,
            _ => false,
        }
    }

    /// Appends the teardown of this connection to `actions` and closes it.
    fn teardown(&mut self, actions: &mut Vec<Action>)
        ensures
            final(self)@ == old(self)@.closed(),
            final(actions).deep_view() == old(actions).deep_view() + old(self)@.teardown(),
    {
        actions.push(Action::CancelHeartbeat);
        actions.push(Action::ReleaseSocket);
        self.state = ConnectionState::Closed;
        actions.push(Action::Enter(ConnectionState::Closed));
        actions.push(Action::Unregister(self.id));
    }

    /// The connection has started at `now`.
    pub fn on_start(&mut self, now: u64) -> (actions: Vec<Action>)
        requires
            old(self).wf(),
        ensures
            final(self).wf(),
            (final(self)@, actions.deep_view()) == old(self)@.start(now as nat),
    {
        let mut actions: Vec<Action> = Vec::new();
        if self.is_active() {
            self.last_heartbeat = now;
            actions.push(Action::ScheduleHeartbeat(self.policy.ping_interval_ms()));
        }
        actions
    }

    /// The heartbeat timer fired at `now`.
    pub fn on_tick(&mut self, now: u64) -> (actions: Vec<Action>)
        requires
            old(self).wf(),
        ensures
            final(self).wf(),
            (final(self)@, actions.deep_view()) == old(self)@.tick(now as nat),
    {
        let mut actions: Vec<Action> = Vec::new();
        if self.is_active() {
            let silence: u64 = if now >= self.last_heartbeat {
                now - self.last_heartbeat
            } else {
                0
            };
            if silence > self.policy.timeout_ms() {
                self.state = ConnectionState::Closing;
                actions.push(Action::Enter(ConnectionState::Closing));
                self.teardown(&mut actions);
            } else {
                actions.push(Action::Send(Frame::Ping(Vec::new())));
            }
        }
        actions
    }

    /// A message arrived from the client at `now`.
    pub fn on_inbound_frame(&mut self, msg: Result<Frame, ProtocolError>, now: u64) -> (actions: Vec<
        Action,
    >)
        requires
            old(self).wf(),
        ensures
            final(self).wf(),
            (final(self)@, actions.deep_view()) == old(self)@.receive(inbound_view(msg), now as nat),
    {
        let mut actions: Vec<Action> = Vec::new();
        if self.is_active() {
            match msg {
                Ok(Frame::Ping(payload)) => {
                    self.last_heartbeat = now;
                    actions.push(Action::Send(Frame::Pong(payload)));
                },
                Ok(Frame::Pong(_)) => {
                    self.last_heartbeat = now;
                },
                Ok(Frame::Text(payload)) => {
                    actions.push(Action::Forward(Frame::Text(payload)));
                },
                Ok(Frame::Binary(payload)) => {
                    actions.push(Action::Forward(Frame::Binary(payload)));
                },
                Ok(Frame::Close) => {
                    self.state = ConnectionState::Closing;
                    actions.push(Action::Enter(ConnectionState::Closing));
                    actions.push(Action::Send(Frame::Close));
                    self.teardown(&mut actions);
                },
                Err(_) => {
                    self.teardown(&mut actions);
                },
            }
        }
        actions
    }

    /// The owner stops the connection. Stopping twice is the same as
    /// stopping once.
    pub fn stop(&mut self) -> (actions: Vec<Action>)
        requires
            old(self).wf(),
        ensures
            final(self).wf(),
            (final(self)@, actions.deep_view()) == old(self)@.stop(),
    {
        let mut actions: Vec<Action> = Vec::new();
        if self.is_active() {
            self.state = ConnectionState::Closing;
            actions.push(Action::Enter(ConnectionState::Closing));
            self.teardown(&mut actions);
        }
        actions
    }
}

/// Ticks that all fall within the timeout leave an active connection as it is.
proof fn lemma_quiet_ticks(c: ConnectionModel, first: nat, count: nat)
    requires
        c.state is Active,
        count >= 1 ==> first + (count - 1) * c.policy.interval() <= c.last_heartbeat
            + c.policy.timeout(),
    ensures
        c.after_ticks(first, count) == c,
    decreases count,
{
    if count >= 1 {
        let step = c.policy.interval();
        if count >= 2 {
            assert((count - 2) * step <= (count - 1) * step) by (nonlinear_arith)
                requires
                    count >= 2,
                    step >= 0,
            ;
        }
        lemma_quiet_ticks(c, first, (count - 1) as nat);
    }
}

/// Heartbeat liveness. Take an active connection whose last Ping or Pong came
/// at `last_heartbeat`, and let the heartbeat ticks go on every ping interval,
/// the next one at `first`, with no Ping or Pong arriving any more. Then the
/// ticks up to the deadline `last_heartbeat + timeout` leave the connection
/// untouched, and the first tick after the deadline closes it; that tick
/// comes no later than one ping interval after the deadline. The result is
/// the number of ticks that the connection survives.
pub proof fn heartbeat_liveness(c: ConnectionModel, first: nat) -> (survived: nat)
    requires
        c.policy.wf(),
        c.state is Active,
        first <= c.last_heartbeat + c.policy.interval(),
    ensures
        forall|count: nat| count <= survived ==> c.after_ticks(first, count) == c,
        c.after_ticks(first, survived + 1) == c.closed(),
        c.last_heartbeat + c.policy.timeout() < first + survived * c.policy.interval(),
        first + survived * c.policy.interval() <= c.last_heartbeat + c.policy.timeout()
            + c.policy.interval(),
{
    let step = c.policy.interval() as int;
    let slack = c.last_heartbeat + c.policy.timeout() - first;
    let survived = (slack / step + 1) as nat;
    vstd::arithmetic::div_mod::lemma_fundamental_div_mod(slack, step);
    vstd::arithmetic::div_mod::lemma_mod_bound(slack, step);
    vstd::arithmetic::div_mod::lemma_div_pos_is_pos(slack, step);
    assert(survived * step == step * (slack / step) + step) by (nonlinear_arith)
        requires
            survived == slack / step + 1,
    ;
    assert forall|count: nat| count <= survived implies c.after_ticks(first, count) == c by {
        if count >= 1 {
            assert((count - 1) * step <= (survived - 1) * step) by (nonlinear_arith)
                requires
                    1 <= count <= survived,
                    step >= 0,
            ;
            assert((survived - 1) * step == step * (slack / step)) by (nonlinear_arith)
                requires
                    survived == slack / step + 1,
            ;
        }
        lemma_quiet_ticks(c, first, count);
    }
    assert(c.after_ticks(first, survived) == c);
    survived
}

/// One missed ping is tolerated. Because the timeout is at least two ping
/// intervals, a tick that comes no later than two intervals after the last
/// heartbeat finds the connection within its timeout: it is pinged again and
/// stays as it is.
pub proof fn one_missed_ping_is_tolerated(c: ConnectionModel, now: nat)
    requires
        c.policy.wf(),
        c.state is Active,
        now <= c.last_heartbeat + 2 * c.policy.interval(),
    ensures
        c.tick(now) == (c, seq![ActionView::Send(FrameView::Ping(Seq::empty()))]),
{
}

/// Ping/Pong symmetry. An active connection answers a Ping that carries
/// `payload` with exactly one action, the sending of a Pong with the same
/// payload, and refreshes its heartbeat clock.
pub proof fn ping_is_answered_by_one_pong(c: ConnectionModel, payload: Seq<u8>, now: nat)
    requires
        c.state is Active,
    ensures
        c.receive(Ok(FrameView::Ping(payload)), now) == (
            c.refreshed(now),
            seq![ActionView::Send(FrameView::Pong(payload))],
        ),
{
}

/// Whether an action writes to a socket: to the client's or, through the
/// upstream link, to the feed's.
pub open spec fn is_write(action: ActionView) -> bool {
    action is Send || action is Forward
}

/// The lifecycle only moves forward. Whatever the event, a connection that is
/// not active stays as it is and asks for nothing, so nothing is sent once it
/// is closed; and an active connection either stays active or is closed, in
/// which case the last two actions are its entry into `Closed` and its
/// removal from the registry, with every write before them.
pub proof fn lifecycle_moves_forward(
    c: ConnectionModel,
    msg: Result<FrameView, ProtocolError>,
    now: nat,
)
    ensures
        !(c.state is Active) ==> {
            &&& c.start(now) == (c, Seq::<ActionView>::empty())
            &&& c.tick(now) == (c, Seq::<ActionView>::empty())
            &&& c.receive(msg, now) == (c, Seq::<ActionView>::empty())
            &&& c.stop() == (c, Seq::<ActionView>::empty())
        },
        c.state is Active ==> {
            &&& c.start(now).0.state is Active
            &&& ends_active_or_torn_down(c, c.tick(now))
            &&& ends_active_or_torn_down(c, c.receive(msg, now))
            &&& ends_active_or_torn_down(c, c.stop())
        },
{
    if c.state is Active {
        let entry = seq![ActionView::Enter(ConnectionState::Closing)];
        lemma_teardown_ends(c, entry);
        lemma_teardown_ends(c, entry.push(ActionView::Send(FrameView::Close)));
        lemma_teardown_ends(c, Seq::empty());
        assert(entry.push(ActionView::Send(FrameView::Close)) =~= seq![
            ActionView::Enter(ConnectionState::Closing),
            ActionView::Send(FrameView::Close),
        ]);
    }
}

/// Actions that end in the teardown of `c` are an outcome of a closing event.
proof fn lemma_teardown_ends(c: ConnectionModel, before: Seq<ActionView>)
    ensures
        ends_active_or_torn_down(c, (c.closed(), before + c.teardown())),
{
    let actions = before + c.teardown();
    let n = actions.len() as int;
    assert(actions.subrange(n - 4, n) =~= c.teardown());
}

/// The outcome of an event on the active connection `c`: the connection is
/// still active, or it is closed and its teardown ends the actions.
pub open spec fn ends_active_or_torn_down(
    c: ConnectionModel,
    outcome: (ConnectionModel, Seq<ActionView>),
) -> bool {
    let (next, actions) = outcome;
    let n = actions.len() as int;
    ||| next.state is Active
    ||| {
        &&& next == c.closed()
        &&& n >= 4
        &&& actions.subrange(n - 4, n) == c.teardown()
        &&& forall|i: int| 0 <= i < n && is_write(actions[i]) ==> i < n - 4
    }
}

} // verus!
