//! A channel that lives in memory.
//!
//! [`MemoryChannel`] is a [`Transport`] whose peer is the program itself: the
//! bytes that the peer is to have written are fed in, and the bytes written
//! to the peer are kept for inspection.  It serves to try out a connection
//! without a second virtual machine.

use vstd::prelude::*;
use std::collections::VecDeque;
use crate::transport::{Status, Transport};

verus! {

/// The error of a [`MemoryChannel`]: the channel has been made to fail.
#[derive(Debug, Clone, Copy, PartialEq, Eq, Structural)]
pub struct ChannelBroken;

/// A channel in memory, whose other end the owner plays.
pub struct MemoryChannel {
    /// State of the link.
    status: Status,
    /// Bytes that the peer has written and that have not been read yet.
    inbox: VecDeque<u8>,
    /// Every byte written to the peer.
    outbox: Vec<u8>,
    /// Number of bytes that the peer has room for.
    room: usize,
    /// Whether reading, writing and reopening fail.
    broken: bool,
    /// Every byte read or discarded.
    taken: Ghost<Seq<u8>>,
    /// How often the owner has waited.
    waits: Ghost<nat>,
}

impl MemoryChannel {
    /// A channel in the given state, with nothing to read and room for
    /// `room` bytes.
    pub fn new(status: Status, room: usize) -> (channel: MemoryChannel)
        ensures
            channel.inv(),
            channel.link() == status,
            channel.ready() == 0,
            channel.space() == room,
            channel.consumed() == Seq::<u8>::empty(),
            channel.sent() == Seq::<u8>::empty(),
            channel.waited() == 0,
            !channel.is_broken(),
    {
        MemoryChannel {
            status,
            inbox: VecDeque::new(),
            outbox: Vec::new(),
            room,
            broken: false,
            taken: Ghost(Seq::empty()),
            waits: Ghost(0),
        }
    }

    /// The bytes that wait to be read.
    pub closed spec fn pending(&self) -> Seq<u8> {
        self.inbox@
    }

    /// Whether reading, writing and reopening fail.
    pub closed spec fn is_broken(&self) -> bool {
        self.broken
    }

    /// Plays the peer writing `bytes`.  Returns the number of bytes that
    /// were taken, which is less than `bytes.len()` only where the count of
    /// waiting bytes would leave the range of `usize`.
    pub fn feed(&mut self, bytes: &[u8]) -> (taken: usize)
        requires
            old(self).inv(),
        ensures
            final(self).inv(),
            taken <= bytes@.len(),
            taken == bytes@.len() || final(self).ready() == usize::MAX,
            final(self).pending() == old(self).pending() + bytes@.subrange(0, taken as int),
            final(self).consumed() == old(self).consumed(),
            final(self).sent() == old(self).sent(),
            final(self).space() == old(self).space(),
            final(self).link() == old(self).link(),
            final(self).is_broken() == old(self).is_broken(),
    {
        let mut i: usize = 0;
        while i < bytes.len() && self.inbox.len() < usize::MAX
            invariant
                i <= bytes@.len(),
                self.inbox@ == old(self).inbox@ + bytes@.subrange(0, i as int),
                self.outbox == old(self).outbox,
                self.taken == old(self).taken,
                self.room == old(self).room,
                self.status == old(self).status,
                self.broken == old(self).broken,
                self.waits == old(self).waits,
            decreases bytes@.len() - i,
        {
            self.inbox.push_back(bytes[i]);
            i += 1;
            assert(self.inbox@ =~= old(self).inbox@ + bytes@.subrange(0, i as int));
        }
        i
    }

    /// Plays the peer changing the state of the link.
    pub fn set_status(&mut self, status: Status)
        requires
            old(self).inv(),
        ensures
            final(self).inv(),
            final(self).link() == status,
            final(self).pending() == old(self).pending(),
            final(self).consumed() == old(self).consumed(),
            final(self).sent() == old(self).sent(),
            final(self).space() == old(self).space(),
            final(self).is_broken() == old(self).is_broken(),
    {
        self.status = status;
    }

    /// Plays the peer making room for `room` bytes in all.
    pub fn set_room(&mut self, room: usize)
        requires
            old(self).inv(),
        ensures
            final(self).inv(),
            final(self).space() == room,
            final(self).pending() == old(self).pending(),
            final(self).consumed() == old(self).consumed(),
            final(self).sent() == old(self).sent(),
            final(self).link() == old(self).link(),
            final(self).is_broken() == old(self).is_broken(),
    {
        self.room = room;
    }

    /// Makes reading, writing and reopening fail from now on, or work again.
    pub fn set_broken(&mut self, broken: bool)
        requires
            old(self).inv(),
        ensures
            final(self).inv(),
            final(self).is_broken() == broken,
            final(self).pending() == old(self).pending(),
            final(self).consumed() == old(self).consumed(),
            final(self).sent() == old(self).sent(),
            final(self).space() == old(self).space(),
            final(self).link() == old(self).link(),
    {
        self.broken = broken;
    }

    /// Every byte written to the peer since the channel was opened.
    pub fn written(&self) -> (bytes: &Vec<u8>)
        ensures
            bytes@ == self.sent(),
    {
        &self.outbox
    }
}

impl Transport for MemoryChannel {
    type Error = ChannelBroken;

    closed spec fn inv(&self) -> bool {
        true
    }

    closed spec fn link(&self) -> Status {
        self.status
    }

    closed spec fn consumed(&self) -> Seq<u8> {
        self.taken@
    }

    closed spec fn sent(&self) -> Seq<u8> {
        self.outbox@
    }

    closed spec fn waited(&self) -> nat {
        self.waits@
    }

    closed spec fn ready(&self) -> nat {
        self.inbox@.len()
    }

    closed spec fn space(&self) -> nat {
        self.room as nat
    }

    fn status(&mut self) -> (status: Status) {
        self.status
    }

    fn data_ready(&mut self) -> (n: usize) {
        self.inbox.len()
    }

    fn buffer_space(&mut self) -> (n: usize) {
        self.room
    }

    fn send(&mut self, buf: &[u8]) -> (r: Result<(), ChannelBroken>)
        ensures
            r is Ok <==> !old(self).is_broken(),
            final(self).pending() == old(self).pending(),
            final(self).link() == old(self).link(),
            final(self).is_broken() == old(self).is_broken(),
            r is Err ==> final(self).sent() == old(self).sent() && final(self).space() == old(
                self,
            ).space(),
    {
        if self.broken {
            return Err(ChannelBroken);
        }
        let mut i: usize = 0;
        while i < buf.len()
            invariant
                i <= buf@.len(),
                buf@.len() <= old(self).room,
                self.outbox@ == old(self).outbox@ + buf@.subrange(0, i as int),
                self.inbox == old(self).inbox,
                self.taken == old(self).taken,
                self.room == old(self).room,
                self.status == old(self).status,
                self.broken == old(self).broken,
                self.waits == old(self).waits,
            decreases buf@.len() - i,
        {
            self.outbox.push(buf[i]);
            i += 1;
            assert(self.outbox@ =~= old(self).outbox@ + buf@.subrange(0, i as int));
        }
        assert(buf@.subrange(0, i as int) =~= buf@);
        self.room = self.room - buf.len();
        Ok(())
    }

    fn recv_into(&mut self, buf: &mut Vec<u8>, n: usize) -> (r: Result<(), ChannelBroken>)
        ensures
            r is Ok <==> !old(self).is_broken(),
            final(self).link() == old(self).link(),
            final(self).is_broken() == old(self).is_broken(),
            r is Ok ==> old(self).pending() == final(buf)@.subrange(
                old(buf)@.len() as int,
                final(buf)@.len() as int,
            ) + final(self).pending(),
            r is Err ==> final(self).pending() == old(self).pending() && final(buf)@ == old(buf)@,
    {
        if self.broken {
            return Err(ChannelBroken);
        }
        let ghost start = buf@;
        let mut i: usize = 0;
        while i < n
            invariant
                i <= n,
                n <= old(self).inbox@.len(),
                buf@ == start + old(self).inbox@.subrange(0, i as int),
                self.inbox@ == old(self).inbox@.subrange(i as int, old(self).inbox@.len() as int),
                self.taken@ == old(self).taken@ + old(self).inbox@.subrange(0, i as int),
                self.outbox == old(self).outbox,
                self.room == old(self).room,
                self.status == old(self).status,
                self.broken == old(self).broken,
                self.waits == old(self).waits,
            decreases n - i,
        {
            let next = self.inbox.pop_front();
            match next {
                Some(byte) => {
                    buf.push(byte);
                    proof {
                        self.taken@ = self.taken@.push(byte);
                    }
                },
                None => {},
            }
            i += 1;
            assert(buf@ =~= start + old(self).inbox@.subrange(0, i as int));
            assert(self.inbox@ =~= old(self).inbox@.subrange(
                i as int,
                old(self).inbox@.len() as int,
            ));
            assert(self.taken@ =~= old(self).taken@ + old(self).inbox@.subrange(0, i as int));
        }
        assert(buf@.subrange(0, start.len() as int) =~= start);
        assert(buf@.subrange(start.len() as int, buf@.len() as int) =~= old(self).inbox@.subrange(
            0,
            n as int,
        ));
        assert(old(self).inbox@ =~= old(self).inbox@.subrange(0, n as int) + self.inbox@);
        Ok(())
    }

    fn discard(&mut self, n: usize) -> (r: Result<(), ChannelBroken>)
        ensures
            r is Ok <==> !old(self).is_broken(),
            final(self).link() == old(self).link(),
            final(self).is_broken() == old(self).is_broken(),
            r is Ok ==> final(self).pending() == old(self).pending().subrange(
                n as int,
                old(self).pending().len() as int,
            ),
            r is Err ==> final(self).pending() == old(self).pending(),
    {
        if self.broken {
            return Err(ChannelBroken);
        }
        let mut i: usize = 0;
        while i < n
            invariant
                i <= n,
                n <= old(self).inbox@.len(),
                self.inbox@ == old(self).inbox@.subrange(i as int, old(self).inbox@.len() as int),
                self.taken@ == old(self).taken@ + old(self).inbox@.subrange(0, i as int),
                self.outbox == old(self).outbox,
                self.room == old(self).room,
                self.status == old(self).status,
                self.broken == old(self).broken,
                self.waits == old(self).waits,
            decreases n - i,
        {
            let next = self.inbox.pop_front();
            proof {
                match next {
                    Some(byte) => {
                        self.taken@ = self.taken@.push(byte);
                    },
                    None => {},
                }
            }
            i += 1;
            assert(self.inbox@ =~= old(self).inbox@.subrange(
                i as int,
                old(self).inbox@.len() as int,
            ));
            assert(self.taken@ =~= old(self).taken@ + old(self).inbox@.subrange(0, i as int));
        }
        assert(self.taken@.subrange(0, old(self).taken@.len() as int) =~= old(self).taken@);
        Ok(())
    }

    /// There is nothing to wait for: the peer is the owner.
    fn wait(&mut self) {
        proof {
            self.waits@ = self.waits@ + 1;
        }
    }

    fn reopen(&mut self) -> (r: Result<(), ChannelBroken>)
        ensures
            r is Ok <==> !old(self).is_broken(),
            final(self).is_broken() == old(self).is_broken(),
            r is Ok ==> {
                &&& final(self).link() == Status::Waiting
                &&& final(self).pending() == Seq::<u8>::empty()
                &&& final(self).space() == old(self).space()
            },
    {
        if self.broken {
            self.status = Status::Disconnected;
            return Err(ChannelBroken);
        }
        self.status = Status::Waiting;
        self.inbox.clear();
        self.outbox.clear();
        self.taken = Ghost(Seq::empty());
        self.waits = Ghost(0);
        Ok(())
    }
}

} // verus!
