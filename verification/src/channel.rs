//! The two bounded queues between the supervising side and the real-time
//! side: commands one way, level measurements the other. Each is a
//! single-producer, single-consumer ring whose operations never wait.

use crate::ipc::{ControlMsg, MeterData};
use vstd::prelude::*;

verus! {

/// The writing end of a ring of `rtrb`.
#[verifier::external_type_specification]
#[verifier::external_body]
#[verifier::reject_recursive_types(T)]
pub struct ExProducer<T>(rtrb::Producer<T>);

/// The reading end of a ring of `rtrb`.
#[verifier::external_type_specification]
#[verifier::external_body]
#[verifier::reject_recursive_types(T)]
pub struct ExConsumer<T>(rtrb::Consumer<T>);

/// Largest capacity a channel is made with. A ring takes the memory for
/// all its slots when it is made, and the program ends if it cannot have
/// it; within this limit a ring stays within some tens of megabytes.
pub const MAX_CAPACITY: usize = 1_048_576;

/// Capacity of the control channel that an engine is set up with.
pub const CONTROL_RING_BUFFER_SIZE: usize = 64;

/// Capacity of the meter channel that an engine is set up with.
pub const METER_RING_BUFFER_SIZE: usize = 1024;

/// Whether a queue that holds `pending` and at most `capacity` items has
/// room for one more.
pub open spec fn has_room<T>(pending: Seq<T>, capacity: nat) -> bool {
    pending.len() < capacity
}

/// What a queue that holds `pending` and at most `capacity` items holds
/// after `batch` was offered to it item by item with nothing taken out
/// meanwhile: the items for which there was no room are lost.
pub open spec fn offered<T>(pending: Seq<T>, batch: Seq<T>, capacity: nat) -> Seq<T> {
    if pending.len() >= capacity {
        pending
    } else if batch.len() <= capacity - pending.len() {
        pending + batch
    } else {
        pending + batch.take(capacity - pending.len())
    }
}

/// Offering one more item of a batch appends it where there is room and
/// changes nothing where there is none.
pub proof fn lemma_offered_step<T>(pending: Seq<T>, batch: Seq<T>, k: int, capacity: nat)
    requires
        0 <= k < batch.len(),
        pending.len() <= capacity,
    ensures
        offered(pending, batch.take(k + 1), capacity) == if has_room(
            offered(pending, batch.take(k), capacity),
            capacity,
        ) {
            offered(pending, batch.take(k), capacity).push(batch[k])
        } else {
            offered(pending, batch.take(k), capacity)
        },
{
    assert(batch.take(k + 1) =~= batch.take(k).push(batch[k]));
}

/// Once a queue is full, offering more of a batch changes nothing: what
/// it holds after the first `k` items were offered is what it holds
/// after all were.
pub proof fn lemma_offered_when_full<T>(pending: Seq<T>, batch: Seq<T>, k: int, capacity: nat)
    requires
        0 <= k <= batch.len(),
        pending.len() <= capacity,
        pending.len() + k == capacity,
    ensures
        offered(pending, batch, capacity) == pending + batch.take(k),
{
    if batch.len() == k {
        assert(batch.take(k) =~= batch);
    }
    if k == 0 {
        assert(pending + batch.take(0) =~= pending);
    }
}

/// The capacity bound: when items are offered to an empty queue one by
/// one and nothing is taken out, the first `capacity` of them find room
/// and every later one finds none.
pub proof fn lemma_capacity_bound<T>(items: Seq<T>, k: int, capacity: nat)
    requires
        0 <= k < items.len(),
    ensures
        has_room(offered(Seq::<T>::empty(), items.take(k), capacity), capacity) <==> k < capacity,
        k >= capacity ==> offered(Seq::<T>::empty(), items.take(k + 1), capacity) == offered(
            Seq::<T>::empty(),
            items.take(k),
            capacity,
        ),
{
    if k >= capacity && capacity > 0 {
        assert(items.take(k + 1).take(capacity as int) =~= items.take(k).take(capacity as int));
    }
}

/// Whether `c` reads the ring that `p` writes.
pub uninterp spec fn control_peers(
    p: rtrb::Producer<ControlMsg>,
    c: rtrb::Consumer<ControlMsg>,
) -> bool;

/// The commands that `p` has written and `c` has not read yet, oldest first.
pub uninterp spec fn control_items(
    p: rtrb::Producer<ControlMsg>,
    c: rtrb::Consumer<ControlMsg>,
) -> Seq<ControlMsg>;

/// The capacity that the ring of `p` was made with.
pub uninterp spec fn control_limit(p: rtrb::Producer<ControlMsg>) -> nat;

/// The commands that `p` has written and does not know to be read yet,
/// oldest first: those in the slots from the reading position that it
/// last looked at up to its own writing position. The capacity less
/// their number is what `rtrb::Producer::cached_slots` reports. Only a
/// write through `p` changes them. The reader can only take away from
/// what is unread, so a write finds room as long as they are fewer than
/// the capacity, whatever the reader does.
pub uninterp spec fn control_unread(p: rtrb::Producer<ControlMsg>) -> Seq<ControlMsg>;

/// The commands that `c` itself knows to be ready, oldest first: those
/// in the slots from its own reading position up to the writing position
/// that it last looked at. `rtrb::Consumer::cached_slots` reports their
/// number. Only a read through `c` changes them. The writer cannot touch
/// them, so they come out next, in this order, whatever the writer does.
pub uninterp spec fn control_ready(c: rtrb::Consumer<ControlMsg>) -> Seq<ControlMsg>;

/// `rtrb::RingBuffer::new`: makes an empty ring that holds up to
/// `capacity` commands and hands out its two ends. The writing end
/// starts out with nothing unread and the reading end with nothing
/// ready.
#[verifier::external_body]
fn control_ring_new(capacity: usize) -> (r: (
    rtrb::Producer<ControlMsg>,
    rtrb::Consumer<ControlMsg>,
))
    requires
        capacity <= MAX_CAPACITY,
    ensures
        control_peers(r.0, r.1),
        control_items(r.0, r.1) == Seq::<ControlMsg>::empty(),
        control_limit(r.0) == capacity,
        control_unread(r.0) == Seq::<ControlMsg>::empty(),
        control_ready(r.1) == Seq::<ControlMsg>::empty(),
{
    rtrb::RingBuffer::new(capacity)
}

/// `rtrb::Producer::push`: writes `msg` unless the ring is full, and
/// hands it back if it is. The capacity stays, and the writing end never
/// counts more unread items than the capacity. Where it counts fewer,
/// the write succeeds without a look at the reader and `msg` joins the
/// unread items as the newest. Only where it counts as many does it
/// look: it fails only if it then still finds the ring full, and nothing
/// changes; else it forgets what it finds read and `msg` is again the
/// newest of the unread. Of a caller that holds only the writing end no
/// more is claimed, since the reader may take items out at any time. A
/// caller that also holds the reading end, so that nothing reads
/// meanwhile, learns that the write fails exactly when the ring holds as
/// many items as its capacity, and that on success `msg` is the newest
/// item.
#[verifier::external_body]
fn control_ring_push(
    p: &mut rtrb::Producer<ControlMsg>,
    peer: Option<&rtrb::Consumer<ControlMsg>>,
    msg: ControlMsg,
) -> (r: Result<(), ControlMsg>)
    ensures
        control_limit(*final(p)) == control_limit(*old(p)),
        control_unread(*final(p)).len() <= control_limit(*final(p)),
        r is Err ==> r->Err_0 == msg,
        control_unread(*old(p)).len() < control_limit(*old(p)) ==> {
            &&& r is Ok
            &&& control_unread(*final(p)) == control_unread(*old(p)).push(msg)
        },
        r is Ok ==> control_unread(*final(p)).len() > 0 && control_unread(*final(p)).last() == msg,
        r is Err ==> {
            &&& control_unread(*old(p)).len() == control_limit(*old(p))
            &&& control_unread(*final(p)) == control_unread(*old(p))
        },
        peer is Some && control_peers(*old(p), *peer->0) ==> {
            &&& control_peers(*final(p), *peer->0)
            &&& r is Ok <==> control_items(*old(p), *peer->0).len() < control_limit(*old(p))
            &&& control_items(*final(p), *peer->0) == if r is Ok {
                control_items(*old(p), *peer->0).push(msg)
            } else {
                control_items(*old(p), *peer->0)
            }
        },
{
    let _ = peer;
    p.push(msg).map_err(|e| match e { rtrb::PushError::Full(m) => m })
}

/// `rtrb::Consumer::pop`: takes the oldest item out, if there is one.
/// Where the reading end knows of items that are ready, the oldest of
/// them comes out without a look at the writer and the others stay
/// ready; only where it knows of none does it look, and it comes back
/// empty-handed only if it then still finds none. Of a caller that holds
/// only the reading end no more is claimed, since the writer may add
/// items at any time. A caller that also holds the writing end, so that
/// nothing writes meanwhile, learns that an item comes out exactly when
/// the ring holds one, that it is the oldest, and that the others stay
/// in their order.
#[verifier::external_body]
fn control_ring_pop(
    c: &mut rtrb::Consumer<ControlMsg>,
    peer: Option<&rtrb::Producer<ControlMsg>>,
) -> (r: Option<ControlMsg>)
    ensures
        control_ready(*old(c)).len() > 0 ==> {
            &&& r == Some(control_ready(*old(c))[0])
            &&& control_ready(*final(c)) == control_ready(*old(c)).drop_first()
        },
        r is None ==> control_ready(*old(c)).len() == 0 && control_ready(*final(c)).len() == 0,
        peer is Some && control_peers(*peer->0, *old(c)) ==> {
            &&& control_peers(*peer->0, *final(c))
            &&& r is Some <==> control_items(*peer->0, *old(c)).len() > 0
            &&& r is Some ==> r->0 == control_items(*peer->0, *old(c))[0]
            &&& control_items(*peer->0, *final(c)) == if r is Some {
                control_items(*peer->0, *old(c)).drop_first()
            } else {
                control_items(*peer->0, *old(c))
            }
        },
{
    let _ = peer;
    c.pop().ok()
}

/// A command could not be queued because the control channel is full.
#[derive(Clone, Copy, Debug, PartialEq, Eq, Structural)]
pub struct QueueFull;

/// The channel that carries commands to the real-time side. A whole
/// channel has both ends; `split` parts it into a sending half and a
/// receiving half for two threads.
pub struct ControlChannel {
    producer: Option<rtrb::Producer<ControlMsg>>,
    consumer: Option<rtrb::Consumer<ControlMsg>>,
    capacity: usize,
}

impl ControlChannel {
    /// The ends that are present belong together, the capacity is the
    /// ring's, and the sending end counts no more unread commands
    /// than the capacity.
    pub closed spec fn wf(&self) -> bool {
        &&& self.producer is Some ==> {
            &&& control_limit(self.producer->0) == self.capacity
            &&& control_unread(self.producer->0).len() <= self.capacity
        }
        &&& self.producer is Some && self.consumer is Some ==> {
            &&& control_peers(self.producer->0, self.consumer->0)
            &&& control_items(self.producer->0, self.consumer->0).len() <= self.capacity
        }
    }

    /// Whether commands can be sent through this value.
    pub closed spec fn can_send(&self) -> bool {
        self.producer is Some
    }

    /// Whether commands can be received through this value.
    pub closed spec fn can_receive(&self) -> bool {
        self.consumer is Some
    }

    /// Whether this value has both ends, so that no other thread touches
    /// the ring.
    pub open spec fn is_whole(&self) -> bool {
        self.can_send() && self.can_receive()
    }

    /// The capacity the channel was made with.
    pub closed spec fn spec_capacity(&self) -> nat {
        self.capacity as nat
    }

    /// The commands that the sending end has sent and does not know to
    /// be received yet, oldest first. It is defined where commands
    /// can be sent.
    pub closed spec fn known_unread(&self) -> Seq<ControlMsg> {
        control_unread(self.producer->0)
    }

    /// The room that the sending end knows of: at least this many sends
    /// will succeed, whatever the receiver does.
    pub open spec fn known_room(&self) -> nat {
        (self.spec_capacity() - self.known_unread().len()) as nat
    }

    /// The commands that the receiving end knows to be ready, oldest
    /// first: they come out next, in this order, whatever the sender
    /// does. It is defined where commands can be received.
    pub closed spec fn known_ready(&self) -> Seq<ControlMsg> {
        control_ready(self.consumer->0)
    }

    /// The commands sent and not yet received, oldest first. It is
    /// defined for a whole channel.
    pub closed spec fn pending(&self) -> Seq<ControlMsg> {
        control_items(self.producer->0, self.consumer->0)
    }

    /// A whole channel never holds more than its capacity.
    pub proof fn lemma_bounded(&self)
        requires
            self.wf(),
            self.is_whole(),
        ensures
            self.pending().len() <= self.spec_capacity(),
    {
    }

    /// A sending end never counts more unread commands than the
    /// capacity.
    pub proof fn lemma_unread_bounded(&self)
        requires
            self.wf(),
            self.can_send(),
        ensures
            self.known_unread().len() <= self.spec_capacity(),
    {
    }

    /// An empty whole channel that holds up to `capacity` commands.
    pub fn new(capacity: usize) -> (ch: Self)
        requires
            capacity <= MAX_CAPACITY,
        ensures
            ch.wf(),
            ch.is_whole(),
            ch.spec_capacity() == capacity,
            ch.pending() == Seq::<ControlMsg>::empty(),
            ch.known_unread() == Seq::<ControlMsg>::empty(),
            ch.known_ready() == Seq::<ControlMsg>::empty(),
    {
        let (p, c) = control_ring_new(capacity);
        Self { producer: Some(p), consumer: Some(c), capacity }
    }

    /// The capacity the channel was made with.
    pub fn capacity(&self) -> (n: usize)
        ensures
            n == self.spec_capacity(),
    {
        self.capacity
    }

    /// Whether commands can be sent through this value.
    pub fn has_sender(&self) -> (r: bool)
        ensures
            r == self.can_send(),
    {
        self.producer.is_some()
    }

    /// Whether commands can be received through this value.
    pub fn has_receiver(&self) -> (r: bool)
        ensures
            r == self.can_receive(),
    {
        self.consumer.is_some()
    }

    /// Parts a whole channel into its sending half and its receiving half.
    pub fn split(self) -> (halves: (Self, Self))
        requires
            self.wf(),
            self.is_whole(),
        ensures
            halves.0.wf(),
            halves.0.can_send(),
            !halves.0.can_receive(),
            halves.0.spec_capacity() == self.spec_capacity(),
            halves.0.known_unread() == self.known_unread(),
            halves.1.wf(),
            halves.1.can_receive(),
            !halves.1.can_send(),
            halves.1.spec_capacity() == self.spec_capacity(),
            halves.1.known_ready() == self.known_ready(),
    {
        let capacity = self.capacity;
        (
            Self { producer: self.producer, consumer: None, capacity },
            Self { producer: None, consumer: self.consumer, capacity },
        )
    }

    /// Queues `msg` without waiting. Where the sending end knows of room
    /// it succeeds, and `msg` joins what it counts as unread. It fails
    /// only where it knows of no room and finds none, and then nothing
    /// changes. Whenever it succeeds, `msg` is the newest of the unread.
    /// On a whole channel it fails exactly when `capacity` commands are
    /// pending; else `msg` becomes the newest pending command.
    pub fn send(&mut self, msg: ControlMsg) -> (r: Result<(), QueueFull>)
        requires
            old(self).wf(),
            old(self).can_send(),
        ensures
            final(self).wf(),
            final(self).can_send(),
            final(self).can_receive() == old(self).can_receive(),
            final(self).spec_capacity() == old(self).spec_capacity(),
            final(self).known_ready() == old(self).known_ready(),
            old(self).known_room() > 0 ==> {
                &&& r is Ok
                &&& final(self).known_unread() == old(self).known_unread().push(msg)
            },
            r is Ok ==> {
                &&& final(self).known_unread().len() > 0
                &&& final(self).known_unread().last() == msg
            },
            r is Err ==> {
                &&& old(self).known_room() == 0
                &&& final(self).known_unread() == old(self).known_unread()
            },
            old(self).is_whole() ==> {
                &&& r is Ok <==> has_room(old(self).pending(), old(self).spec_capacity())
                &&& final(self).pending() == if r is Ok {
                    old(self).pending().push(msg)
                } else {
                    old(self).pending()
                }
            },
    {
        let mut p = self.producer.take().unwrap();
        let r = control_ring_push(&mut p, self.consumer.as_ref(), msg);
        self.producer = Some(p);
        match r {
            Ok(()) => Ok(()),
            Err(_) => Err(QueueFull),
        }
    }

    /// Queues the commands of `commands` in their order, without
    /// waiting, up to the first that finds no room, and says how many
    /// were queued. As many are queued as the sending end knows of room
    /// for, and they join what it counts as unread, in their order; it
    /// stops short of the end only where it knows of no room and finds
    /// none. On a whole channel the commands for which there is room
    /// become pending and the others are left out.
    pub fn send_in_order(&mut self, commands: &Vec<ControlMsg>) -> (sent: usize)
        requires
            old(self).wf(),
            old(self).can_send(),
        ensures
            final(self).wf(),
            final(self).can_send(),
            final(self).can_receive() == old(self).can_receive(),
            final(self).spec_capacity() == old(self).spec_capacity(),
            final(self).known_ready() == old(self).known_ready(),
            sent <= commands.len(),
            sent < commands.len() ==> {
                &&& sent >= old(self).known_room()
                &&& final(self).known_room() == 0
            },
            sent <= old(self).known_room() ==> final(self).known_unread() == old(
                self,
            ).known_unread() + commands@.take(sent as int),
            sent > 0 ==> {
                &&& final(self).known_unread().len() > 0
                &&& final(self).known_unread().last() == commands@[sent - 1]
            },
            old(self).is_whole() ==> {
                &&& final(self).pending() == offered(
                    old(self).pending(),
                    commands@,
                    old(self).spec_capacity(),
                )
                &&& final(self).pending() == old(self).pending() + commands@.take(sent as int)
            },
    {
        let ghost unread = self.known_unread();
        let ghost pending = self.pending();
        let ghost capacity = self.spec_capacity();
        proof {
            self.lemma_unread_bounded();
            if self.is_whole() {
                self.lemma_bounded();
            }
            assert(unread + commands@.take(0) =~= unread);
            assert(pending + commands@.take(0) =~= pending);
        }
        let mut i: usize = 0;
        while i < commands.len()
            invariant
                i <= commands.len(),
                self.wf(),
                self.can_send(),
                self.can_receive() == old(self).can_receive(),
                self.spec_capacity() == capacity == old(self).spec_capacity(),
                self.known_ready() == old(self).known_ready(),
                unread == old(self).known_unread(),
                pending == old(self).pending(),
                unread.len() <= capacity,
                self.known_unread().len() <= capacity,
                i <= capacity - unread.len() ==> self.known_unread() == unread + commands@.take(
                    i as int,
                ),
                i > 0 ==> {
                    &&& self.known_unread().len() > 0
                    &&& self.known_unread().last() == commands@[i - 1]
                },
                old(self).is_whole() ==> {
                    &&& pending.len() <= capacity
                    &&& self.pending() == pending + commands@.take(i as int)
                    &&& self.pending().len() <= capacity
                },
            decreases commands.len() - i,
        {
            let ghost so_far = self.known_unread();
            let ghost queued = self.pending();
            match self.send(commands[i]) {
                Ok(()) => {
                    proof {
                        self.lemma_unread_bounded();
                        assert(commands@.take(i + 1) =~= commands@.take(i as int).push(
                            commands@[i as int],
                        ));
                        if i < capacity - unread.len() {
                            assert(so_far.push(commands@[i as int]) =~= unread + commands@.take(
                                i + 1,
                            ));
                        }
                        if old(self).is_whole() {
                            self.lemma_bounded();
                            assert(queued.push(commands@[i as int]) =~= pending + commands@.take(
                                i + 1,
                            ));
                        }
                    }
                    i += 1;
                },
                Err(_) => {
                    proof {
                        if old(self).is_whole() {
                            lemma_offered_when_full(pending, commands@, i as int, capacity);
                        }
                    }
                    return i;
                },
            }
        }
        proof {
            assert(commands@.take(commands.len() as int) =~= commands@);
        }
        i
    }

    /// Takes the oldest pending command, without waiting. Where the
    /// receiving end knows of commands that are ready, the oldest of
    /// them comes out and the others stay ready; nothing comes out only
    /// where it knows of none and finds none. On a whole channel one
    /// comes out exactly when one is pending.
    pub fn try_receive(&mut self) -> (r: Option<ControlMsg>)
        requires
            old(self).wf(),
            old(self).can_receive(),
        ensures
            final(self).wf(),
            final(self).can_receive(),
            final(self).can_send() == old(self).can_send(),
            final(self).spec_capacity() == old(self).spec_capacity(),
            final(self).known_unread() == old(self).known_unread(),
            old(self).known_ready().len() > 0 ==> {
                &&& r == Some(old(self).known_ready()[0])
                &&& final(self).known_ready() == old(self).known_ready().drop_first()
            },
            r is None ==> old(self).known_ready().len() == 0 && final(self).known_ready().len()
                == 0,
            old(self).is_whole() ==> {
                &&& r is Some <==> old(self).pending().len() > 0
                &&& r is Some ==> r->0 == old(self).pending()[0]
                &&& final(self).pending() == if r is Some {
                    old(self).pending().drop_first()
                } else {
                    old(self).pending()
                }
            },
    {
        let mut c = self.consumer.take().unwrap();
        let r = control_ring_pop(&mut c, self.producer.as_ref());
        self.consumer = Some(c);
        r
    }
}

/// Whether `c` reads the ring of measurements that `p` writes.
pub uninterp spec fn meter_peers(
    p: rtrb::Producer<MeterData>,
    c: rtrb::Consumer<MeterData>,
) -> bool;

/// The measurements that `p` has written and `c` has not read yet, oldest first.
pub uninterp spec fn meter_items(
    p: rtrb::Producer<MeterData>,
    c: rtrb::Consumer<MeterData>,
) -> Seq<MeterData>;

/// The capacity that the ring of `p` was made with.
pub uninterp spec fn meter_limit(p: rtrb::Producer<MeterData>) -> nat;

/// The measurements that `p` has written and does not know to be read yet,
/// oldest first: those in the slots from the reading position that it
/// last looked at up to its own writing position. The capacity less
/// their number is what `rtrb::Producer::cached_slots` reports. Only a
/// write through `p` changes them. The reader can only take away from
/// what is unread, so a write finds room as long as they are fewer than
/// the capacity, whatever the reader does.
pub uninterp spec fn meter_unread(p: rtrb::Producer<MeterData>) -> Seq<MeterData>;

/// The measurements that `c` itself knows to be ready, oldest first: those
/// in the slots from its own reading position up to the writing position
/// that it last looked at. `rtrb::Consumer::cached_slots` reports their
/// number. Only a read through `c` changes them. The writer cannot touch
/// them, so they come out next, in this order, whatever the writer does.
pub uninterp spec fn meter_ready(c: rtrb::Consumer<MeterData>) -> Seq<MeterData>;

/// `rtrb::RingBuffer::new`: makes an empty ring that holds up to
/// `capacity` measurements and hands out its two ends. The writing end
/// starts out with nothing unread and the reading end with nothing
/// ready.
#[verifier::external_body]
fn meter_ring_new(capacity: usize) -> (r: (
    rtrb::Producer<MeterData>,
    rtrb::Consumer<MeterData>,
))
    requires
        capacity <= MAX_CAPACITY,
    ensures
        meter_peers(r.0, r.1),
        meter_items(r.0, r.1) == Seq::<MeterData>::empty(),
        meter_limit(r.0) == capacity,
        meter_unread(r.0) == Seq::<MeterData>::empty(),
        meter_ready(r.1) == Seq::<MeterData>::empty(),
{
    rtrb::RingBuffer::new(capacity)
}

/// `rtrb::Producer::push`: writes `data` unless the ring is full, and
/// hands it back if it is. The capacity stays, and the writing end never
/// counts more unread items than the capacity. Where it counts fewer,
/// the write succeeds without a look at the reader and `data` joins the
/// unread items as the newest. Only where it counts as many does it
/// look: it fails only if it then still finds the ring full, and nothing
/// changes; else it forgets what it finds read and `data` is again the
/// newest of the unread. Of a caller that holds only the writing end no
/// more is claimed, since the reader may take items out at any time. A
/// caller that also holds the reading end, so that nothing reads
/// meanwhile, learns that the write fails exactly when the ring holds as
/// many items as its capacity, and that on success `data` is the newest
/// item.
#[verifier::external_body]
fn meter_ring_push(
    p: &mut rtrb::Producer<MeterData>,
    peer: Option<&rtrb::Consumer<MeterData>>,
    data: MeterData,
) -> (r: Result<(), MeterData>)
    ensures
        meter_limit(*final(p)) == meter_limit(*old(p)),
        meter_unread(*final(p)).len() <= meter_limit(*final(p)),
        r is Err ==> r->Err_0 == data,
        meter_unread(*old(p)).len() < meter_limit(*old(p)) ==> {
            &&& r is Ok
            &&& meter_unread(*final(p)) == meter_unread(*old(p)).push(data)
        },
        r is Ok ==> meter_unread(*final(p)).len() > 0 && meter_unread(*final(p)).last() == data,
        r is Err ==> {
            &&& meter_unread(*old(p)).len() == meter_limit(*old(p))
            &&& meter_unread(*final(p)) == meter_unread(*old(p))
        },
        peer is Some && meter_peers(*old(p), *peer->0) ==> {
            &&& meter_peers(*final(p), *peer->0)
            &&& r is Ok <==> meter_items(*old(p), *peer->0).len() < meter_limit(*old(p))
            &&& meter_items(*final(p), *peer->0) == if r is Ok {
                meter_items(*old(p), *peer->0).push(data)
            } else {
                meter_items(*old(p), *peer->0)
            }
        },
{
    let _ = peer;
    p.push(data).map_err(|e| match e { rtrb::PushError::Full(m) => m })
}

/// `rtrb::Consumer::pop`: takes the oldest item out, if there is one.
/// Where the reading end knows of items that are ready, the oldest of
/// them comes out without a look at the writer and the others stay
/// ready; only where it knows of none does it look, and it comes back
/// empty-handed only if it then still finds none. Of a caller that holds
/// only the reading end no more is claimed, since the writer may add
/// items at any time. A caller that also holds the writing end, so that
/// nothing writes meanwhile, learns that an item comes out exactly when
/// the ring holds one, that it is the oldest, and that the others stay
/// in their order.
#[verifier::external_body]
fn meter_ring_pop(
    c: &mut rtrb::Consumer<MeterData>,
    peer: Option<&rtrb::Producer<MeterData>>,
) -> (r: Option<MeterData>)
    ensures
        meter_ready(*old(c)).len() > 0 ==> {
            &&& r == Some(meter_ready(*old(c))[0])
            &&& meter_ready(*final(c)) == meter_ready(*old(c)).drop_first()
        },
        r is None ==> meter_ready(*old(c)).len() == 0 && meter_ready(*final(c)).len() == 0,
        peer is Some && meter_peers(*peer->0, *old(c)) ==> {
            &&& meter_peers(*peer->0, *final(c))
            &&& r is Some <==> meter_items(*peer->0, *old(c)).len() > 0
            &&& r is Some ==> r->0 == meter_items(*peer->0, *old(c))[0]
            &&& meter_items(*peer->0, *final(c)) == if r is Some {
                meter_items(*peer->0, *old(c)).drop_first()
            } else {
                meter_items(*peer->0, *old(c))
            }
        },
{
    let _ = peer;
    c.pop().ok()
}

/// The channel that carries level measurements to the supervising side. A whole
/// channel has both ends; `split` parts it into a sending half and a
/// receiving half for two threads.
pub struct MeterChannel {
    producer: Option<rtrb::Producer<MeterData>>,
    consumer: Option<rtrb::Consumer<MeterData>>,
    capacity: usize,
}

impl MeterChannel {
    /// The ends that are present belong together, the capacity is the
    /// ring's, and the sending end counts no more unread measurements
    /// than the capacity.
    pub closed spec fn wf(&self) -> bool {
        &&& self.producer is Some ==> {
            &&& meter_limit(self.producer->0) == self.capacity
            &&& meter_unread(self.producer->0).len() <= self.capacity
        }
        &&& self.producer is Some && self.consumer is Some ==> {
            &&& meter_peers(self.producer->0, self.consumer->0)
            &&& meter_items(self.producer->0, self.consumer->0).len() <= self.capacity
        }
    }

    /// Whether measurements can be sent through this value.
    pub closed spec fn can_send(&self) -> bool {
        self.producer is Some
    }

    /// Whether measurements can be received through this value.
    pub closed spec fn can_receive(&self) -> bool {
        self.consumer is Some
    }

    /// Whether this value has both ends, so that no other thread touches
    /// the ring.
    pub open spec fn is_whole(&self) -> bool {
        self.can_send() && self.can_receive()
    }

    /// The capacity the channel was made with.
    pub closed spec fn spec_capacity(&self) -> nat {
        self.capacity as nat
    }

    /// The measurements that the sending end has sent and does not know to
    /// be received yet, oldest first. It is defined where measurements
    /// can be sent.
    pub closed spec fn known_unread(&self) -> Seq<MeterData> {
        meter_unread(self.producer->0)
    }

    /// The room that the sending end knows of: at least this many sends
    /// will succeed, whatever the receiver does.
    pub open spec fn known_room(&self) -> nat {
        (self.spec_capacity() - self.known_unread().len()) as nat
    }

    /// The measurements that the receiving end knows to be ready, oldest
    /// first: they come out next, in this order, whatever the sender
    /// does. It is defined where measurements can be received.
    pub closed spec fn known_ready(&self) -> Seq<MeterData> {
        meter_ready(self.consumer->0)
    }

    /// The measurements sent and not yet received, oldest first. It is
    /// defined for a whole channel.
    pub closed spec fn pending(&self) -> Seq<MeterData> {
        meter_items(self.producer->0, self.consumer->0)
    }

    /// A whole channel never holds more than its capacity.
    pub proof fn lemma_bounded(&self)
        requires
            self.wf(),
            self.is_whole(),
        ensures
            self.pending().len() <= self.spec_capacity(),
    {
    }

    /// A sending end never counts more unread measurements than the
    /// capacity.
    pub proof fn lemma_unread_bounded(&self)
        requires
            self.wf(),
            self.can_send(),
        ensures
            self.known_unread().len() <= self.spec_capacity(),
    {
    }

    /// An empty whole channel that holds up to `capacity` measurements.
    pub fn new(capacity: usize) -> (ch: Self)
        requires
            capacity <= MAX_CAPACITY,
        ensures
            ch.wf(),
            ch.is_whole(),
            ch.spec_capacity() == capacity,
            ch.pending() == Seq::<MeterData>::empty(),
            ch.known_unread() == Seq::<MeterData>::empty(),
            ch.known_ready() == Seq::<MeterData>::empty(),
    {
        let (p, c) = meter_ring_new(capacity);
        Self { producer: Some(p), consumer: Some(c), capacity }
    }

    /// The capacity the channel was made with.
    pub fn capacity(&self) -> (n: usize)
        ensures
            n == self.spec_capacity(),
    {
        self.capacity
    }

    /// Whether measurements can be sent through this value.
    pub fn has_sender(&self) -> (r: bool)
        ensures
            r == self.can_send(),
    {
        self.producer.is_some()
    }

    /// Whether measurements can be received through this value.
    pub fn has_receiver(&self) -> (r: bool)
        ensures
            r == self.can_receive(),
    {
        self.consumer.is_some()
    }

    /// Parts a whole channel into its sending half and its receiving half.
    pub fn split(self) -> (halves: (Self, Self))
        requires
            self.wf(),
            self.is_whole(),
        ensures
            halves.0.wf(),
            halves.0.can_send(),
            !halves.0.can_receive(),
            halves.0.spec_capacity() == self.spec_capacity(),
            halves.0.known_unread() == self.known_unread(),
            halves.1.wf(),
            halves.1.can_receive(),
            !halves.1.can_send(),
            halves.1.spec_capacity() == self.spec_capacity(),
            halves.1.known_ready() == self.known_ready(),
    {
        let capacity = self.capacity;
        (
            Self { producer: self.producer, consumer: None, capacity },
            Self { producer: None, consumer: self.consumer, capacity },
        )
    }

    /// Queues `data` without waiting; a full channel drops it. Where the
    /// sending end knows of room, `data` joins what it counts as unread.
    /// Where it knows of none it looks: if it finds none, nothing
    /// changes; else `data` is the newest of the unread. On a whole
    /// channel `data` becomes the newest pending measurement unless
    /// `capacity` measurements are pending, and then nothing changes.
    pub fn publish(&mut self, data: MeterData)
        requires
            old(self).wf(),
            old(self).can_send(),
        ensures
            final(self).wf(),
            final(self).can_send(),
            final(self).can_receive() == old(self).can_receive(),
            final(self).spec_capacity() == old(self).spec_capacity(),
            final(self).known_ready() == old(self).known_ready(),
            old(self).known_room() > 0 ==> final(self).known_unread() == old(
                self,
            ).known_unread().push(data),
            old(self).known_room() == 0 ==> {
                ||| final(self).known_unread() == old(self).known_unread()
                ||| final(self).known_unread().len() > 0 && final(self).known_unread().last()
                    == data
            },
            old(self).is_whole() ==> final(self).pending() == if has_room(
                old(self).pending(),
                old(self).spec_capacity(),
            ) {
                old(self).pending().push(data)
            } else {
                old(self).pending()
            },
    {
        let mut p = self.producer.take().unwrap();
        let _ = meter_ring_push(&mut p, self.consumer.as_ref(), data);
        self.producer = Some(p);
    }

    /// Takes the oldest pending measurement, without waiting. Where the
    /// receiving end knows of measurements that are ready, the oldest of
    /// them comes out and the others stay ready; nothing comes out only
    /// where it knows of none and finds none. On a whole channel one
    /// comes out exactly when one is pending.
    pub fn try_receive(&mut self) -> (r: Option<MeterData>)
        requires
            old(self).wf(),
            old(self).can_receive(),
        ensures
            final(self).wf(),
            final(self).can_receive(),
            final(self).can_send() == old(self).can_send(),
            final(self).spec_capacity() == old(self).spec_capacity(),
            final(self).known_unread() == old(self).known_unread(),
            old(self).known_ready().len() > 0 ==> {
                &&& r == Some(old(self).known_ready()[0])
                &&& final(self).known_ready() == old(self).known_ready().drop_first()
            },
            r is None ==> old(self).known_ready().len() == 0 && final(self).known_ready().len()
                == 0,
            old(self).is_whole() ==> {
                &&& r is Some <==> old(self).pending().len() > 0
                &&& r is Some ==> r->0 == old(self).pending()[0]
                &&& final(self).pending() == if r is Some {
                    old(self).pending().drop_first()
                } else {
                    old(self).pending()
                }
            },
    {
        let mut c = self.consumer.take().unwrap();
        let r = meter_ring_pop(&mut c, self.producer.as_ref());
        self.consumer = Some(c);
        r
    }
}

} // verus!
