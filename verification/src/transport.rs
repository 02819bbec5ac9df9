//! The channel that a connection speaks over.
//!
//! The channel itself is not part of this crate.  [`Transport`] states what
//! the framing code needs of it, over a model of six quantities: the bytes
//! taken from the read side so far, the bytes that the write side has taken
//! so far, the number of times this side has waited for the channel, the
//! state of the link, the number of bytes that can be read without blocking,
//! and the number that can be written without blocking.
//!
//! The peer works on the channel at the same time.  The last three
//! quantities are therefore what this side has last been told: each changes
//! when this side asks for it, and the two counts also when this side reads
//! or writes.  A count that is asked for again has not shrunk: what was
//! readable stays readable until it is read.

use vstd::prelude::*;

verus! {

/// The state of the link to the peer.
#[derive(Debug, Clone, Copy, PartialEq, Eq, Structural)]
pub enum Status {
    /// The peer has not connected yet.
    Waiting,
    /// Both sides are connected.
    Connected,
    /// The peer is gone, or the channel could not be opened.
    Disconnected,
}

/// A bidirectional byte channel that never blocks, but in `wait`.
pub trait Transport: Sized {
    /// What the channel reports when an operation fails.
    type Error;

    /// What holds of the channel between any two operations.
    spec fn inv(&self) -> bool;

    /// The state of the link, as `status` last reported it.
    spec fn link(&self) -> Status;

    /// Every byte taken from the read side since the channel was opened,
    /// received or discarded, in the order of arrival.
    spec fn consumed(&self) -> Seq<u8>;

    /// Every byte that the write side has taken since the channel was
    /// opened, in the order of the calls.
    spec fn sent(&self) -> Seq<u8>;

    /// The number of times that this side has waited for the channel since
    /// it was opened.
    spec fn waited(&self) -> nat;

    /// The number of bytes that can be read without blocking: what
    /// `data_ready` last reported, less what has been read since.
    spec fn ready(&self) -> nat;

    /// The number of bytes that can be written without blocking: what
    /// `buffer_space` last reported, less what has been written since.
    spec fn space(&self) -> nat;

    /// Looks at the channel and returns the state of the link.
    fn status(&mut self) -> (status: Status)
        requires
            old(self).inv(),
        ensures
            final(self).inv(),
            final(self).consumed() == old(self).consumed(),
            final(self).sent() == old(self).sent(),
            final(self).ready() == old(self).ready(),
            final(self).space() == old(self).space(),
            status == final(self).link(),
            final(self).waited() == old(self).waited(),
    ;

    /// Looks at the channel and returns the number of bytes that can be read
    /// without blocking.
    fn data_ready(&mut self) -> (n: usize)
        requires
            old(self).inv(),
        ensures
            final(self).inv(),
            final(self).consumed() == old(self).consumed(),
            final(self).sent() == old(self).sent(),
            final(self).ready() >= old(self).ready(),
            final(self).space() == old(self).space(),
            n == final(self).ready(),
            final(self).link() == old(self).link(),
            final(self).waited() == old(self).waited(),
    ;

    /// Looks at the channel and returns the number of bytes that can be
    /// written without blocking.
    fn buffer_space(&mut self) -> (n: usize)
        requires
            old(self).inv(),
        ensures
            final(self).inv(),
            final(self).consumed() == old(self).consumed(),
            final(self).sent() == old(self).sent(),
            final(self).ready() == old(self).ready(),
            final(self).space() >= old(self).space(),
            n == final(self).space(),
            final(self).link() == old(self).link(),
            final(self).waited() == old(self).waited(),
    ;

    /// Writes `buf`, which must not be longer than the space there is.  A
    /// write that fails uses up no space and leaves the read side alone.
    fn send(&mut self, buf: &[u8]) -> (r: Result<(), Self::Error>)
        requires
            old(self).inv(),
            buf@.len() <= old(self).space(),
        ensures
            final(self).inv(),
            final(self).link() == old(self).link(),
            final(self).waited() == old(self).waited(),
            final(self).consumed() == old(self).consumed(),
            final(self).ready() == old(self).ready(),
            match r {
                Ok(()) => {
                    &&& final(self).sent() == old(self).sent() + buf@
                    &&& final(self).space() == old(self).space() - buf@.len()
                },
                Err(_) => final(self).space() == old(self).space(),
            },
    ;

    /// Appends the next `n` bytes of the read side to `buf`; `n` must not be
    /// more than the number of bytes that are ready.
    fn recv_into(&mut self, buf: &mut Vec<u8>, n: usize) -> (r: Result<(), Self::Error>)
        requires
            old(self).inv(),
            n <= old(self).ready(),
        ensures
            final(self).inv(),
            final(self).link() == old(self).link(),
            final(self).waited() == old(self).waited(),
            r is Ok ==> {
                &&& final(buf)@.len() == old(buf)@.len() + n
                &&& final(buf)@.subrange(0, old(buf)@.len() as int) == old(buf)@
                &&& final(self).consumed() == old(self).consumed() + final(buf)@.subrange(
                    old(buf)@.len() as int,
                    final(buf)@.len() as int,
                )
                &&& final(self).sent() == old(self).sent()
                &&& final(self).ready() == old(self).ready() - n
                &&& final(self).space() == old(self).space()
            },
            r is Err ==> final(buf)@.len() <= old(buf)@.len() + n,
    ;

    /// Drops the next `n` bytes of the read side without copying them; `n`
    /// must not be more than the number of bytes that are ready.
    fn discard(&mut self, n: usize) -> (r: Result<(), Self::Error>)
        requires
            old(self).inv(),
            n <= old(self).ready(),
        ensures
            final(self).inv(),
            final(self).link() == old(self).link(),
            final(self).waited() == old(self).waited(),
            r is Ok ==> {
                &&& final(self).consumed().len() == old(self).consumed().len() + n
                &&& final(self).consumed().subrange(0, old(self).consumed().len() as int) == old(
                    self,
                ).consumed()
                &&& final(self).sent() == old(self).sent()
                &&& final(self).ready() == old(self).ready() - n
                &&& final(self).space() == old(self).space()
            },
    ;

    /// Blocks until there is something new on the channel, and acknowledges
    /// it.
    fn wait(&mut self)
        requires
            old(self).inv(),
        ensures
            final(self).inv(),
            final(self).waited() == old(self).waited() + 1,
            final(self).link() == old(self).link(),
            final(self).consumed() == old(self).consumed(),
            final(self).sent() == old(self).sent(),
            final(self).ready() >= old(self).ready(),
            final(self).space() >= old(self).space(),
    ;

    /// Closes the channel and opens it again, listening for the peer.  The
    /// old channel is released before the new one is acquired.
    fn reopen(&mut self) -> (r: Result<(), Self::Error>)
        requires
            old(self).inv(),
        ensures
            final(self).inv(),
            r is Ok ==> {
                &&& final(self).consumed() == Seq::<u8>::empty()
                &&& final(self).sent() == Seq::<u8>::empty()
                &&& final(self).waited() == 0
                &&& final(self).link() != Status::Disconnected
            },
    ;
}

} // verus!
