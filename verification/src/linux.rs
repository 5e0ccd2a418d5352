//! The parts of the Linux HCI adapter that compute
//!
//! The adapter talks to the Bluetooth controller through a socket and waits for it with epoll;
//! those calls stay outside of the library. These are the values it exchanges, the buffer of
//! the ACL data packets that it received for a connection, and the registry of its timeouts.
use vstd::prelude::*;
use std::collections::HashMap;

verus! {

/// What an epoll event is for: the Bluetooth controller, the exit of the task, or a timeout
/// (by its id)
#[derive(Clone, Copy, Debug, PartialEq, Eq, Structural)]
pub enum EPollResult {
    BluetoothController,
    TaskExit,
    Timeout(u64),
}

/// The value of an epoll event id
pub open spec fn spec_epoll_result(val: u64) -> EPollResult {
    if val == 0 {
        EPollResult::BluetoothController
    } else if val == 1 {
        EPollResult::TaskExit
    } else {
        EPollResult::Timeout(val)
    }
}

/// The epoll event id of a result
pub open spec fn spec_epoll_id(r: EPollResult) -> u64 {
    match r {
        EPollResult::BluetoothController => 0,
        EPollResult::TaskExit => 1,
        EPollResult::Timeout(val) => val,
    }
}

impl EPollResult {
    /// The first id of the timeouts
    pub const TIMEOUT_ID_START: u64 = 2;

    /// The id of the timeout of the timer with the file descriptor `timeout_fd`
    pub fn make_timeout_id(timeout_fd: i32) -> (r: u64)
        requires
            timeout_fd >= 0,
        ensures
            r == timeout_fd + Self::TIMEOUT_ID_START,
    {
        timeout_fd as u64 + Self::TIMEOUT_ID_START
    }

    /// The result of an epoll event id
    pub fn from_id(val: u64) -> (r: EPollResult)
        ensures
            r == spec_epoll_result(val),
    {
        match val {
            0 => EPollResult::BluetoothController,
            1 => EPollResult::TaskExit,
            _ => EPollResult::Timeout(val),
        }
    }

    /// The epoll event id of the result
    pub fn into_id(self) -> (r: u64)
        ensures
            r == spec_epoll_id(self),
    {
        match self {
            EPollResult::BluetoothController => 0,
            EPollResult::TaskExit => 1,
            EPollResult::Timeout(val) => val,
        }
    }
}

/// An epoll event id is read back from its result, and a result whose timeout id is not that
/// of the controller or of the exit is read back from its id.
pub proof fn lemma_epoll_id_roundtrip(val: u64, r: EPollResult)
    ensures
        spec_epoll_id(spec_epoll_result(val)) == val,
        (r matches EPollResult::Timeout(t) ==> t >= EPollResult::TIMEOUT_ID_START)
            ==> spec_epoll_result(spec_epoll_id(r)) == r,
{
}

/// The type of a message over the HCI
#[derive(Clone, Copy, Debug, PartialEq, Eq, Structural)]
pub enum CtrlMsgType {
    Command,
    Event,
    ACLData,
    SyncData,
}

/// The packet indicator of a message type
pub open spec fn spec_ctrl_msg_raw(t: CtrlMsgType) -> u8 {
    match t {
        CtrlMsgType::Command => 0x01,
        CtrlMsgType::ACLData => 0x02,
        CtrlMsgType::SyncData => 0x03,
        CtrlMsgType::Event => 0x04,
    }
}

impl CtrlMsgType {
    /// The message type of a packet indicator, or `Err(())` where it names none
    pub fn try_from(raw: u8) -> (r: Result<CtrlMsgType, ()>)
        ensures
            1 <= raw <= 4 ==> (r matches Ok(t) && spec_ctrl_msg_raw(t) == raw),
            !(1 <= raw <= 4) ==> r is Err,
    {
        match raw {
            0x01 => Ok(CtrlMsgType::Command),
            0x02 => Ok(CtrlMsgType::ACLData),
            0x03 => Ok(CtrlMsgType::SyncData),
            0x04 => Ok(CtrlMsgType::Event),
            _ => Err(()),
        }
    }

    /// The packet indicator of the message type
    pub fn into_raw(self) -> (r: u8)
        ensures
            r == spec_ctrl_msg_raw(self),
    {
        match self {
            CtrlMsgType::Command => 0x01,
            CtrlMsgType::ACLData => 0x02,
            CtrlMsgType::SyncData => 0x03,
            CtrlMsgType::Event => 0x04,
        }
    }
}

/// The number of packets that a limited buffer keeps
pub const LIMITED_CAPACITY: usize = 100;

/// The received packets of a connection
///
/// A `Limited` buffer is a ring that keeps the last `LIMITED_CAPACITY` packets; the `usize` is
/// the index of the oldest packet. An `Unlimited` buffer keeps every packet. A limited buffer
/// can be upgraded to an unlimited one without the loss of a packet.
pub enum PacketBuffer<T> {
    Limited(Vec<T>, usize),
    Unlimited(Vec<T>),
}

/// The packets of a ring whose oldest packet is at `start`, oldest first
pub open spec fn spec_ring<T>(v: Seq<T>, start: int) -> Seq<T> {
    v.skip(start) + v.take(start)
}

impl<T> PacketBuffer<T> {
    /// The packets of the buffer, oldest first
    pub open spec fn spec_packets(&self) -> Seq<T> {
        match self {
            PacketBuffer::Limited(v, start) => spec_ring(v@, *start as int),
            PacketBuffer::Unlimited(v) => v@,
        }
    }

    /// Whether the buffer is well formed: a ring holds at most `LIMITED_CAPACITY` packets, and
    /// its oldest packet is the first one until it is full
    pub open spec fn wf(&self) -> bool {
        match self {
            PacketBuffer::Limited(v, start) => {
                &&& v@.len() <= LIMITED_CAPACITY
                &&& (v@.len() < LIMITED_CAPACITY ==> *start == 0)
                &&& (v@.len() == LIMITED_CAPACITY ==> *start < LIMITED_CAPACITY)
            },
            PacketBuffer::Unlimited(_) => true,
        }
    }

    /// An empty limited buffer
    pub fn new_limited() -> (r: PacketBuffer<T>)
        ensures
            r.wf(),
            r is Limited,
            r.spec_packets() == Seq::<T>::empty(),
    {
        let r = PacketBuffer::Limited(Vec::new(), 0);
        assert(r.spec_packets() =~= Seq::<T>::empty());
        r
    }

    /// An empty unlimited buffer
    pub fn new_unlimited() -> (r: PacketBuffer<T>)
        ensures
            r.wf(),
            r is Unlimited,
            r.spec_packets() == Seq::<T>::empty(),
    {
        PacketBuffer::Unlimited(Vec::new())
    }

    /// Upgrade the buffer to an unlimited one, keeping its packets in their order
    pub fn into_unlimited(self) -> (r: PacketBuffer<T>)
        requires
            self.wf(),
        ensures
            r is Unlimited,
            r.spec_packets() == self.spec_packets(),
    {
        match self {
            PacketBuffer::Limited(v, start) => {
                let ghost packets = spec_ring(v@, start as int);
                let mut v = v;
                if start == 0 {
                    assert(v@ =~= packets);
                    PacketBuffer::Unlimited(v)
                } else {
                    let mut tail = v.split_off(start);
                    tail.append(&mut v);
                    assert(tail@ =~= packets);
                    PacketBuffer::Unlimited(tail)
                }
            },
            PacketBuffer::Unlimited(v) => PacketBuffer::Unlimited(v),
        }
    }

    /// Add a packet
    ///
    /// A full ring drops its oldest packet for the new one.
    pub fn add(&mut self, data: T)
        requires
            old(self).wf(),
        ensures
            final(self).wf(),
            (*final(self) is Limited) == (*old(self) is Limited),
            final(self).spec_packets() == if *old(self) is Limited && old(self).spec_packets().len() == LIMITED_CAPACITY {
                old(self).spec_packets().drop_first().push(data)
            } else {
                old(self).spec_packets().push(data)
            },
    {
        let ghost old_packets = self.spec_packets();
        match self {
            PacketBuffer::Unlimited(v) => {
                v.push(data);
            },
            PacketBuffer::Limited(v, start) => {
                let ghost old_v = v@;
                let ghost s = *start as int;
                if v.len() == LIMITED_CAPACITY {
                    v.set(*start, data);
                    *start = (*start + 1) % LIMITED_CAPACITY;
                    proof {
                        assert(spec_ring(v@, *start as int) =~= spec_ring(old_v, s).drop_first().push(data));
                    }
                } else {
                    v.push(data);
                    proof {
                        assert(spec_ring(v@, 0) =~= v@);
                        assert(spec_ring(old_v, 0) =~= old_v);
                    }
                }
            },
        }
    }

    /// Take the packets out of the buffer, oldest first; the buffer stays, empty, of its kind
    pub fn get(&mut self) -> (r: Vec<T>)
        requires
            old(self).wf(),
        ensures
            final(self).wf(),
            (*final(self) is Limited) == (*old(self) is Limited),
            final(self).spec_packets() == Seq::<T>::empty(),
            r@ == old(self).spec_packets(),
    {
        match self {
            PacketBuffer::Unlimited(v) => {
                let mut taken: Vec<T> = Vec::new();
                core::mem::swap(&mut taken, v);
                taken
            },
            PacketBuffer::Limited(v, start) => {
                let mut taken: Vec<T> = Vec::new();
                core::mem::swap(&mut taken, v);
                let ghost packets = spec_ring(taken@, *start as int);
                let r = if *start == 0 {
                    assert(taken@ =~= packets);
                    taken
                } else {
                    let mut tail = taken.split_off(*start);
                    tail.append(&mut taken);
                    assert(tail@ =~= packets);
                    tail
                };
                *start = 0;
                assert(spec_ring(v@, 0) =~= Seq::<T>::empty());
                r
            },
        }
    }
}

/// The error of the registry of timeouts
#[derive(Clone, Copy, Debug, PartialEq, Eq, Structural)]
pub enum TimeoutError {
    /// A timeout with the id is already registered
    AlreadyExists,
    /// No timeout with the id is registered
    DoesNotExist,
}

impl TimeoutError {
    /// A description of the error
    pub fn message(&self) -> (r: &'static str)
        ensures
            r@ == (match *self {
                TimeoutError::AlreadyExists => "Timeout ID already exists"@,
                TimeoutError::DoesNotExist => "Timeout ID doesn't exist"@,
            }),
    {
        match *self {
            TimeoutError::AlreadyExists => "Timeout ID already exists",
            TimeoutError::DoesNotExist => "Timeout ID doesn't exist",
        }
    }
}

/// The timeouts that are running, by the id of their epoll event
///
/// `T` is what the adapter keeps of a timeout: its timer and what to do when it expires.
pub struct TimeoutManager<T> {
    timeouts: HashMap<u64, T>,
}

impl<T> View for TimeoutManager<T> {
    type V = Map<u64, T>;

    closed spec fn view(&self) -> Map<u64, T> {
        self.timeouts@
    }
}

impl<T> TimeoutManager<T> {
    /// An empty registry
    pub fn new() -> (r: TimeoutManager<T>)
        ensures
            r@ == Map::<u64, T>::empty(),
    {
        TimeoutManager { timeouts: HashMap::new() }
    }

    /// Register a timeout under `timeout_id`
    ///
    /// An id that is already registered keeps its timeout, and the new one is refused.
    pub fn add(&mut self, timeout_id: u64, timeout: T) -> (r: Result<(), TimeoutError>)
        ensures
            old(self)@.contains_key(timeout_id) ==> r == Err::<(), TimeoutError>(TimeoutError::AlreadyExists)
                && final(self)@ == old(self)@,
            !old(self)@.contains_key(timeout_id) ==> r is Ok && final(self)@ == old(self)@.insert(timeout_id, timeout),
    {
        broadcast use vstd::std_specs::hash::group_hash_axioms;
        if self.timeouts.contains_key(&timeout_id) {
            Err(TimeoutError::AlreadyExists)
        } else {
            self.timeouts.insert(timeout_id, timeout);
            Ok(())
        }
    }

    /// Take out the timeout registered under `timeout_id`
    pub fn remove(&mut self, timeout_id: u64) -> (r: Result<T, TimeoutError>)
        ensures
            old(self)@.contains_key(timeout_id) ==> r == Ok::<T, TimeoutError>(old(self)@[timeout_id])
                && final(self)@ == old(self)@.remove(timeout_id),
            !old(self)@.contains_key(timeout_id) ==> r == Err::<T, TimeoutError>(TimeoutError::DoesNotExist)
                && final(self)@ == old(self)@,
    {
        broadcast use vstd::std_specs::hash::group_hash_axioms;
        match self.timeouts.remove(&timeout_id) {
            Some(timeout) => Ok(timeout),
            None => Err(TimeoutError::DoesNotExist),
        }
    }
}

/// A timeout that was registered is taken out again, once: the registry is then as it was.
pub proof fn lemma_timeout_add_remove<T>(m: Map<u64, T>, timeout_id: u64, timeout: T)
    requires
        !m.contains_key(timeout_id),
    ensures
        m.insert(timeout_id, timeout).contains_key(timeout_id),
        m.insert(timeout_id, timeout)[timeout_id] == timeout,
        m.insert(timeout_id, timeout).remove(timeout_id) == m,
{
    assert(m.insert(timeout_id, timeout).remove(timeout_id) =~= m);
}

} // verus!
