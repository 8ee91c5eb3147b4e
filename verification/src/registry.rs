//! The registry of open client connections and the fan-out of upstream
//! frames to them.
//!
//! The registry maps a connection identifier to the write handle of that
//! connection, which is its bounded outbound queue: the fan-out puts frames
//! in, and the owner of the socket takes them out and writes them. The
//! registry owns no connection: an entry is added when a connection has
//! completed its handshake and removed when it closes. Every operation is a
//! short, self-contained step on the map, so one owner (a single task, or a
//! lock held for the length of one call) serialises all access.

use vstd::prelude::*;
use crate::frame::{Frame, FrameView};
use crate::queue::OutboundQueue;

verus! {

/// The registry as a mathematical value: the queue limit that all entries
/// share, and the queued frames of each registered identifier, oldest first.
pub struct RegistryModel {
    pub limit: nat,
    pub queues: Map<u64, Seq<FrameView>>,
}

impl RegistryModel {
    pub open spec fn wf(self) -> bool {
        &&& self.queues.dom().finite()
        &&& forall|id: u64| self.has(id) ==> self.queues[id].len() <= self.limit
    }

    /// `id` is registered.
    pub open spec fn has(self, id: u64) -> bool {
        self.queues.dom().contains(id)
    }

    /// `id` is registered and its queue can take one more frame.
    pub open spec fn has_room(self, id: u64) -> bool {
        self.has(id) && self.queues[id].len() < self.limit
    }

    /// `id` is registered and its queue is full.
    pub open spec fn is_full(self, id: u64) -> bool {
        self.has(id) && self.queues[id].len() >= self.limit
    }

    /// The frames queued for `id`; none if `id` is not registered.
    pub open spec fn pending(self, id: u64) -> Seq<FrameView> {
        if self.has(id) {
            self.queues[id]
        } else {
            Seq::empty()
        }
    }

    pub open spec fn empty(limit: nat) -> RegistryModel {
        RegistryModel { limit, queues: Map::empty() }
    }

    /// Adds `id` with an empty queue; an identifier that is already
    /// registered keeps its queue.
    pub open spec fn register(self, id: u64) -> RegistryModel {
        if self.has(id) {
            self
        } else {
            RegistryModel { queues: self.queues.insert(id, Seq::empty()), ..self }
        }
    }

    pub open spec fn unregister(self, id: u64) -> RegistryModel {
        RegistryModel { queues: self.queues.remove(id), ..self }
    }

    /// Queues `frame` for `id` if `id` is registered and has room; otherwise
    /// nothing changes.
    pub open spec fn send(self, id: u64, frame: FrameView) -> RegistryModel {
        if self.has_room(id) {
            RegistryModel { queues: self.queues.insert(id, self.queues[id].push(frame)), ..self }
        } else {
            self
        }
    }

    /// One fan-out round: every registered connection whose queue has room
    /// gets `frame` at the back of its queue, and every full queue stays as
    /// it is. Whether one connection takes the frame has no bearing on any
    /// other.
    pub open spec fn fan_out(self, frame: FrameView) -> RegistryModel {
        RegistryModel {
            queues: Map::new(
                |id: u64| self.has(id),
                |id: u64|
                    if self.has_room(id) {
                        self.queues[id].push(frame)
                    } else {
                        self.queues[id]
                    },
            ),
            ..self
        }
    }

    /// Empties the queue of `id`.
    pub open spec fn drained(self, id: u64) -> RegistryModel {
        if self.has(id) {
            RegistryModel { queues: self.queues.insert(id, Seq::empty()), ..self }
        } else {
            self
        }
    }

    /// One fan-out round for each of `frames`, in their order, with nothing
    /// taken out of any queue in between.
    pub open spec fn fan_out_all(self, frames: Seq<FrameView>) -> RegistryModel
        decreases frames.len(),
    {
        if frames.len() == 0 {
            self
        } else {
            self.fan_out_all(frames.drop_last()).fan_out(frames.last())
        }
    }

    /// How many of `count` frames in a row the queue of `id` takes.
    pub open spec fn fitting(self, id: u64, count: nat) -> nat {
        let room = self.limit - self.pending(id).len();
        if count <= room {
            count
        } else if room >= 0 {
            room as nat
        } else {
            0
        }
    }
}

/// Fan-out ordering. When the frames of `frames` are fanned out one after
/// the other, a registered connection finds them behind what it had queued
/// before, in the order in which they came: its queue grows by the frames
/// that fit, which are the first ones, and no frame ever stands before one
/// that came earlier. The connection takes its queue out oldest first, so it
/// sees the frames in the order in which the upstream link read them.
pub proof fn fan_out_keeps_order(r: RegistryModel, frames: Seq<FrameView>, id: u64)
    requires
        r.wf(),
        r.has(id),
    ensures
        r.fan_out_all(frames).wf(),
        r.fan_out_all(frames).limit == r.limit,
        r.fan_out_all(frames).has(id),
        r.fan_out_all(frames).pending(id) == r.pending(id) + frames.take(
            r.fitting(id, frames.len()) as int,
        ),
    decreases frames.len(),
{
    if frames.len() > 0 {
        let front = frames.drop_last();
        fan_out_keeps_order(r, front, id);
        let before = r.fan_out_all(front);
        assert(before.fan_out(frames.last()).queues.dom() =~= before.queues.dom());
    }
}

/// Fan-out isolation. In one fan-out round, a connection whose queue is full
/// drops the frame and keeps what it had, and this takes nothing from any
/// other connection: every connection with room gets the frame.
pub proof fn fan_out_is_isolated(r: RegistryModel, frame: FrameView, failing: u64, other: u64)
    requires
        r.is_full(failing),
        r.has_room(other),
    ensures
        r.fan_out(frame).pending(failing) == r.pending(failing),
        r.fan_out(frame).pending(other) == r.pending(other).push(frame),
{
}

/// What became of a frame that was sent to one connection.
#[derive(Debug, Clone, Copy, PartialEq, Eq, Structural)]
pub enum Delivery {
    /// The frame is in the connection's queue.
    Queued,
    /// The connection's queue was full and the frame was dropped.
    Dropped,
    /// No connection is registered under the identifier; nothing happened.
    NoRecipient,
}

/// The outcome of one fan-out round: which connections took the frame and
/// which dropped it because their queue was full. Either list names each
/// connection at most once, in no particular order.
#[derive(Debug, PartialEq, Eq)]
pub struct FanOutReport {
    pub queued: Vec<u64>,
    pub dropped: Vec<u64>,
}

#[derive(Debug)]
struct Entry {
    id: u64,
    queue: OutboundQueue,
}

/// Mapping from connection identifier to the connection's outbound queue.
#[derive(Debug)]
pub struct Registry {
    capacity: usize,
    entries: Vec<Entry>,
}

/// Some entry of `entries` belongs to `id`.
spec fn listed(entries: Seq<Entry>, id: u64) -> bool {
    exists|i: int| 0 <= i < entries.len() && #[trigger] entries[i].id == id
}

/// Where the entry of `id` stands in `entries`.
spec fn position(entries: Seq<Entry>, id: u64) -> int {
    choose|i: int| 0 <= i < entries.len() && #[trigger] entries[i].id == id
}

spec fn distinct(entries: Seq<Entry>) -> bool {
    forall|i: int, j: int|
        0 <= i < j < entries.len() ==> #[trigger] entries[i].id != #[trigger] entries[j].id
}

spec fn queues_of(entries: Seq<Entry>) -> Map<u64, Seq<FrameView>> {
    Map::new(|id: u64| listed(entries, id), |id: u64| entries[position(entries, id)].queue@)
}

/// The queue of this entry takes no further frame.
spec fn full(entry: Entry) -> bool {
    entry.queue@.len() >= entry.queue.limit()
}

/// `id` belongs to one of the first `upto` entries, and the queue of that
/// entry is full, or is not, as `wanted` says.
spec fn reported(entries: Seq<Entry>, upto: int, wanted: bool, id: u64) -> bool {
    exists|i: int| 0 <= i < upto && #[trigger] entries[i].id == id && full(entries[i]) == wanted
}

/// What one more entry adds to `reported`.
proof fn lemma_reported_next(entries: Seq<Entry>, upto: int, wanted: bool, id: u64)
    requires
        0 <= upto < entries.len(),
    ensures
        reported(entries, upto + 1, wanted, id) <==> reported(entries, upto, wanted, id) || (
        entries[upto].id == id && full(entries[upto]) == wanted),
{
}

/// With distinct identifiers, the first `upto` entries do not hold the
/// identifier of the entry at `upto`.
proof fn lemma_not_yet_reported(entries: Seq<Entry>, upto: int, wanted: bool)
    requires
        distinct(entries),
        0 <= upto < entries.len(),
    ensures
        !reported(entries, upto, wanted, entries[upto].id),
{
}

/// A list without duplicates stays so when an identifier that it lacks is
/// added.
proof fn lemma_push_fresh(ids: Seq<u64>, id: u64)
    requires
        ids.no_duplicates(),
        !ids.contains(id),
    ensures
        ids.push(id).no_duplicates(),
{
}

/// What a list holds after one more identifier was added.
proof fn lemma_push_contains(ids: Seq<u64>, id: u64, k: u64)
    ensures
        ids.push(id).contains(k) <==> ids.contains(k) || k == id,
{
    let more = ids.push(id);
    if ids.contains(k) {
        let i = choose|i: int| 0 <= i < ids.len() && ids[i] == k;
        assert(more[i] == k);
    }
    if k == id {
        assert(more[ids.len() as int] == k);
    }
}

/// With distinct identifiers, the entry at `i` is the entry of its identifier.
proof fn lemma_position(entries: Seq<Entry>, i: int)
    requires
        distinct(entries),
        0 <= i < entries.len(),
    ensures
        listed(entries, entries[i].id),
        position(entries, entries[i].id) == i,
        queues_of(entries).dom().contains(entries[i].id),
        queues_of(entries)[entries[i].id] == entries[i].queue@,
{
}

/// The identifiers of a list of distinct entries form a finite set, as large
/// as the list is long.
proof fn lemma_count(entries: Seq<Entry>)
    requires
        distinct(entries),
    ensures
        queues_of(entries).dom().finite(),
        queues_of(entries).dom().len() == entries.len(),
    decreases entries.len(),
{
    let ids = queues_of(entries).dom();
    if entries.len() == 0 {
        assert(ids =~= Set::<u64>::empty());
    } else {
        let front = entries.drop_last();
        let last = entries.last().id;
        assert(distinct(front));
        lemma_count(front);
        assert(ids =~= queues_of(front).dom().insert(last)) by {
            assert forall|id: u64| listed(entries, id) implies listed(front, id) || id == last by {
                let p = position(entries, id);
                if p < front.len() {
                    assert(front[p].id == id);
                }
            }
        }
    }
}

/// Over all entries, `reported` tells who is registered with a queue that is
/// full, or is not, as `wanted` says.
proof fn lemma_report_is_complete(entries: Seq<Entry>, wanted: bool, id: u64)
    requires
        distinct(entries),
    ensures
        reported(entries, entries.len() as int, wanted, id) <==> listed(entries, id) && full(
            entries[position(entries, id)],
        ) == wanted,
{
    if reported(entries, entries.len() as int, wanted, id) {
        let i = choose|i: int|
            0 <= i < entries.len() && #[trigger] entries[i].id == id && full(entries[i]) == wanted;
        lemma_position(entries, i);
    }
    if listed(entries, id) {
        lemma_position(entries, position(entries, id));
    }
}

impl View for Registry {
    type V = RegistryModel;

    closed spec fn view(&self) -> RegistryModel {
        RegistryModel { limit: self.capacity as nat, queues: queues_of(self.entries@) }
    }
}

impl Registry {
    /// How the registry is laid out: no identifier twice, and every queue
    /// bounded by the registry's limit.
    pub closed spec fn inv(&self) -> bool {
        &&& distinct(self.entries@)
        &&& forall|i: int|
            0 <= i < self.entries@.len() ==> {
                &&& (#[trigger] self.entries@[i]).queue.wf()
                &&& self.entries@[i].queue.limit() == self.capacity
            }
    }

    /// The invariant of every registry.
    pub open spec fn wf(&self) -> bool {
        &&& self.inv()
        &&& self@.wf()
    }

    proof fn lemma_inv_gives_wf(&self)
        requires
            self.inv(),
        ensures
            self.wf(),
    {
        lemma_count(self.entries@);
        assert forall|id: u64| self@.has(id) implies self@.queues[id].len() <= self@.limit by {
            lemma_position(self.entries@, position(self.entries@, id));
        }
    }

    /// An empty registry whose queues will hold up to `queue_capacity`
    /// frames each.
    pub fn new(queue_capacity: usize) -> (registry: Registry)
        ensures
            registry.wf(),
            registry@ == RegistryModel::empty(queue_capacity as nat),
    {
        let registry = Registry { capacity: queue_capacity, entries: Vec::new() };
        proof {
            registry.lemma_inv_gives_wf();
            assert(registry@.queues =~= Map::<u64, Seq<FrameView>>::empty());
        }
        registry
    }

    pub fn queue_capacity(&self) -> (capacity: usize)
        ensures
            capacity == self@.limit,
    {
        self.capacity
    }

    /// The number of registered connections.
    pub fn len(&self) -> (len: usize)
        requires
            self.wf(),
        ensures
            len == self@.queues.dom().len(),
    {
        proof {
            lemma_count(self.entries@);
        }
        self.entries.len()
    }

    /// Where the entry of `id` stands, if it has one.
    fn find(&self, id: u64) -> (found: Option<usize>)
        requires
            self.inv(),
        ensures
            match found {
                Some(i) => i < self.entries@.len() && self.entries@[i as int].id == id,
                None => !listed(self.entries@, id),
            },
    {
        let mut i: usize = 0;
        while i < self.entries.len()
            invariant
                i <= self.entries@.len(),
                forall|j: int| 0 <= j < i ==> (#[trigger] self.entries@[j]).id != id,
            decreases self.entries@.len() - i,
        {
            if self.entries[i].id == id {
                return Some(i);
            }
            i = i + 1;
        }
        None
    }

    pub fn contains(&self, id: u64) -> (registered: bool)
        requires
            self.wf(),
        ensures
            registered == self@.has(id),
    {
        match self.find(id) {
            Some(i) => {
                proof {
                    lemma_position(self.entries@, i as int);
                }
                true
            },
            None => false,
        }
    }

    /// The number of frames queued for `id`; zero if `id` is not registered.
    pub fn pending(&self, id: u64) -> (count: usize)
        requires
            self.wf(),
        ensures
            count == self@.pending(id).len(),
    {
        match self.find(id) {
            Some(i) => {
                proof {
                    lemma_position(self.entries@, i as int);
                }
                self.entries[i].queue.len()
            },
            None => 0,
        }
    }

    /// Registers `id` with an empty queue and says whether it did: an
    /// identifier that is already registered is left as it is.
    pub fn register(&mut self, id: u64) -> (added: bool)
        requires
            old(self).wf(),
        ensures
            final(self).wf(),
            added == !old(self)@.has(id),
            final(self)@ == old(self)@.register(id),
    {
        match self.find(id) {
            Some(i) => {
                proof {
                    lemma_position(self.entries@, i as int);
                }
                false
            },
            None => {
                let queue = OutboundQueue::new(self.capacity);
                self.entries.push(Entry { id, queue });
                proof {
                    let before = old(self).entries@;
                    let after = self.entries@;
                    assert(distinct(after));
                    self.lemma_inv_gives_wf();
                    assert(self@.queues =~= old(self)@.queues.insert(id, Seq::empty())) by {
                        assert forall|k: u64| listed(before, k) || k == id implies listed(after, k) by {
                            let p = if k == id {
                                after.len() - 1
                            } else {
                                position(before, k)
                            };
                            assert(after[p].id == k);
                        }
                        assert forall|k: u64| listed(after, k) implies self@.queues[k] == old(
                            self,
                        )@.queues.insert(id, Seq::empty())[k] by {
                            let p = position(after, k);
                            lemma_position(after, p);
                            if p < before.len() {
                                lemma_position(before, p);
                            }
                        }
                    }
                }
                true
            },
        }
    }

    /// Removes `id` and whatever is still queued for it, and says whether it
    /// was registered. Removing an identifier that is not registered does
    /// nothing.
    pub fn unregister(&mut self, id: u64) -> (removed: bool)
        requires
            old(self).wf(),
        ensures
            final(self).wf(),
            removed == old(self)@.has(id),
            final(self)@ == old(self)@.unregister(id),
    {
        match self.find(id) {
            Some(i) => {
                let _ = self.entries.remove(i);
                proof {
                    let before = old(self).entries@;
                    let after = self.entries@;
                    lemma_position(before, i as int);
                    // what stood at `j` now stands at `j`, or one place earlier
                    assert forall|j: int| 0 <= j < after.len() implies #[trigger] after[j] == before[if j
                        < i {
                        j
                    } else {
                        j + 1
                    }] by {}
                    assert(distinct(after));
                    self.lemma_inv_gives_wf();
                    assert(self@.queues =~= old(self)@.queues.remove(id)) by {
                        assert forall|k: u64| listed(before, k) && k != id implies listed(after, k) by {
                            let p = position(before, k);
                            let q = if p < i {
                                p
                            } else {
                                p - 1
                            };
                            assert(after[q].id == k);
                        }
                        assert forall|k: u64| listed(after, k) implies self@.queues[k] == old(
                            self,
                        )@.queues[k] by {
                            let p = position(after, k);
                            lemma_position(after, p);
                            lemma_position(before, if p < i {
                                p
                            } else {
                                p + 1
                            });
                        }
                    }
                }
                true
            },
            None => {
                proof {
                    assert(self@.queues =~= old(self)@.queues.remove(id));
                }
                false
            },
        }
    }

    /// The entries of `self` are those of `before`, but for the queue at `i`,
    /// which now holds `queue`: then the view of `self` is that of `before`
    /// with `queue` under the identifier at `i`.
    proof fn lemma_queue_replaced(&self, before: Registry, i: int, queue: Seq<FrameView>)
        requires
            before.inv(),
            self.capacity == before.capacity,
            0 <= i < before.entries@.len(),
            self.entries@.len() == before.entries@.len(),
            forall|j: int|
                0 <= j < before.entries@.len() ==> (#[trigger] self.entries@[j]).id
                    == before.entries@[j].id,
            forall|j: int|
                0 <= j < before.entries@.len() && j != i ==> (#[trigger] self.entries@[j])
                    == before.entries@[j],
            self.entries@[i].queue@ == queue,
            self.entries@[i].queue.wf(),
            self.entries@[i].queue.limit() == before.capacity,
        ensures
            self.wf(),
            self@ == (RegistryModel {
                queues: before@.queues.insert(before.entries@[i].id, queue),
                ..before@
            }),
    {
        let old_entries = before.entries@;
        let new_entries = self.entries@;
        let id = old_entries[i].id;
        assert(distinct(new_entries));
        self.lemma_inv_gives_wf();
        assert(self@.queues =~= before@.queues.insert(id, queue)) by {
            assert forall|k: u64| listed(old_entries, k) implies listed(new_entries, k) by {
                assert(new_entries[position(old_entries, k)].id == k);
            }
            assert forall|k: u64| listed(new_entries, k) implies self@.queues[k]
                == before@.queues.insert(id, queue)[k] by {
                let p = position(new_entries, k);
                lemma_position(new_entries, p);
                lemma_position(old_entries, p);
            }
        }
    }

    /// Queues `frame` for the connection `id`, if it is registered and its
    /// queue has room. A frame for an identifier that is not registered is
    /// discarded without error.
    pub fn send(&mut self, id: u64, frame: Frame) -> (delivery: Delivery)
        requires
            old(self).wf(),
        ensures
            final(self).wf(),
            final(self)@ == old(self)@.send(id, frame@),
            delivery == if old(self)@.has_room(id) {
                Delivery::Queued
            } else if old(self)@.has(id) {
                Delivery::Dropped
            } else {
                Delivery::NoRecipient
            },
    {
        match self.find(id) {
            Some(i) => {
                proof {
                    lemma_position(self.entries@, i as int);
                }
                let accepted = self.entries[i].queue.offer(frame);
                proof {
                    self.lemma_queue_replaced(*old(self), i as int, self.entries@[i as int].queue@);
                    if !accepted {
                        assert(self@.queues =~= old(self)@.queues);
                    }
                }
                if accepted {
                    Delivery::Queued
                } else {
                    Delivery::Dropped
                }
            },
            None => Delivery::NoRecipient,
        }
    }

    /// Takes every frame that is queued for `id`, oldest first. An identifier
    /// that is not registered has nothing queued.
    pub fn drain(&mut self, id: u64) -> (taken: Vec<Frame>)
        requires
            old(self).wf(),
        ensures
            final(self).wf(),
            taken.deep_view() == old(self)@.pending(id),
            final(self)@ == old(self)@.drained(id),
    {
        match self.find(id) {
            Some(i) => {
                proof {
                    lemma_position(self.entries@, i as int);
                }
                let taken = self.entries[i].queue.drain();
                proof {
                    self.lemma_queue_replaced(*old(self), i as int, Seq::empty());
                }
                taken
            },
            None => Vec::new(),
        }
    }

    /// Delivers `frame` to every registered connection: each connection whose
    /// queue has room gets its own copy at the back of its queue, and each
    /// connection whose queue is full drops the frame and keeps what it has.
    /// No connection's outcome depends on another's.
    pub fn fan_out(&mut self, frame: &Frame) -> (report: FanOutReport)
        requires
            old(self).wf(),
        ensures
            final(self).wf(),
            final(self)@ == old(self)@.fan_out(frame@),
            report.queued@.no_duplicates(),
            report.dropped@.no_duplicates(),
            forall|id: u64| report.queued@.contains(id) <==> old(self)@.has_room(id),
            forall|id: u64| report.dropped@.contains(id) <==> old(self)@.is_full(id),
    {
        let mut queued: Vec<u64> = Vec::new();
        let mut dropped: Vec<u64> = Vec::new();
        let ghost before = self.entries@;
        let mut i: usize = 0;
        while i < self.entries.len()
            invariant
                i <= before.len(),
                before == old(self).entries@,
                distinct(before),
                self.capacity == old(self).capacity,
                self.entries@.len() == before.len(),
                forall|j: int|
                    0 <= j < before.len() ==> {
                        &&& (#[trigger] self.entries@[j]).id == before[j].id
                        &&& self.entries@[j].queue.wf()
                        &&& self.entries@[j].queue.limit() == self.capacity
                        &&& before[j].queue.limit() == self.capacity
                    },
                forall|j: int|
                    0 <= j < i ==> (#[trigger] self.entries@[j]).queue@ == if before[j].queue@.len()
                        < self.capacity {
                        before[j].queue@.push(frame@)
                    } else {
                        before[j].queue@
                    },
                forall|j: int| i <= j < before.len() ==> (#[trigger] self.entries@[j]) == before[j],
                queued@.no_duplicates(),
                dropped@.no_duplicates(),
                forall|id: u64| queued@.contains(id) <==> reported(before, i as int, false, id),
                forall|id: u64| dropped@.contains(id) <==> reported(before, i as int, true, id),
            decreases before.len() - i,
        {
            let id = self.entries[i].id;
            let ghost queued_before = queued@;
            let ghost dropped_before = dropped@;
            let accepted = self.entries[i].queue.offer(frame.duplicate());
            if accepted {
                queued.push(id);
            } else {
                dropped.push(id);
            }
            proof {
                lemma_not_yet_reported(before, i as int, false);
                lemma_not_yet_reported(before, i as int, true);
                if accepted {
                    lemma_push_fresh(queued_before, id);
                } else {
                    lemma_push_fresh(dropped_before, id);
                }
                assert forall|k: u64| queued@.contains(k) <==> reported(
                    before,
                    i + 1,
                    false,
                    k,
                ) by {
                    lemma_reported_next(before, i as int, false, k);
                    lemma_push_contains(queued_before, id, k);
                }
                assert forall|k: u64| dropped@.contains(k) <==> reported(
                    before,
                    i + 1,
                    true,
                    k,
                ) by {
                    lemma_reported_next(before, i as int, true, k);
                    lemma_push_contains(dropped_before, id, k);
                }
            }
            i = i + 1;
        }
        proof {
            let after = self.entries@;
            assert(distinct(after));
            self.lemma_inv_gives_wf();
            let expected = old(self)@.fan_out(frame@);
            assert(self@.queues =~= expected.queues) by {
                assert forall|k: u64| listed(before, k) implies listed(after, k) by {
                    assert(after[position(before, k)].id == k);
                }
                assert forall|k: u64| listed(after, k) implies self@.queues[k] == expected.queues[k] by {
                    let p = position(after, k);
                    lemma_position(after, p);
                    lemma_position(before, p);
                }
            }
            assert forall|id: u64| queued@.contains(id) <==> old(self)@.has_room(id) by {
                lemma_report_is_complete(before, false, id);
            }
            assert forall|id: u64| dropped@.contains(id) <==> old(self)@.is_full(id) by {
                lemma_report_is_complete(before, true, id);
            }
        }
        FanOutReport { queued, dropped }
    }
}

} // verus!
