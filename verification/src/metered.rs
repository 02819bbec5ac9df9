//! Any channel as the transport of a connection.
//!
//! A [`Channel`] is a channel as its own library offers it: a handful of
//! operations, of which nothing is known here.  [`Metered`] keeps the books
//! that a [`Transport`] needs.  It remembers what the channel has last
//! reported and how much of that has been used since, so that the counts it
//! reports never shrink behind the back of the connection, and it takes what
//! the channel hands out through a buffer of its own, so that nothing but
//! whole pieces of the right length ever reaches the connection.

use vstd::prelude::*;
use crate::transport::{Status, Transport};

verus! {

/// A bidirectional byte channel between two virtual machines, as the
/// library of the channel offers it.
pub trait Channel {
    /// What the channel reports when an operation fails.
    type Error;

    /// Returns the state of the link.
    fn status(&self) -> Status;

    /// Returns the number of bytes that can be read without blocking.
    fn data_ready(&self) -> usize;

    /// Returns the number of bytes that can be written without blocking.
    fn buffer_space(&self) -> usize;

    /// Writes `buf`.  It is not called with more bytes than `buffer_space`
    /// has reported.
    fn send(&self, buf: &[u8]) -> Result<(), Self::Error>;

    /// Appends `n` bytes to `buf`.  It is not called with a larger `n` than
    /// `data_ready` has reported.
    fn recv_into(&self, buf: &mut Vec<u8>, n: usize) -> Result<(), Self::Error>;

    /// Drops `n` bytes from the read side.  It is not called with a larger
    /// `n` than `data_ready` has reported.
    fn discard(&self, n: usize) -> Result<(), Self::Error>;

    /// Blocks until there is something new on the channel.
    fn wait(&self);

    /// Closes the channel and opens it again, listening for the peer.
    fn reopen(&mut self) -> Result<(), Self::Error>;
}

/// What a [`Metered`] channel reports when an operation fails.
#[derive(Debug, PartialEq, Eq)]
pub enum MeteredError<E> {
    /// The channel failed; its own error is inside.
    Channel(E),
    /// The channel reported success, but did not hand out as many bytes as
    /// it was asked for.
    WrongLength,
}

/// A channel together with the books on it.
pub struct Metered<C: Channel> {
    /// The channel.
    inner: C,
    /// State of the link, as last reported.
    link: Status,
    /// Number of bytes that the channel has reported as readable and that
    /// have not been read since.
    ready: usize,
    /// Number of bytes that the channel has reported as writable and that
    /// have not been written since.
    space: usize,
    /// Where the channel puts what it hands out.
    scratch: Vec<u8>,
    /// Every byte read, and a zero for every byte discarded.
    taken: Ghost<Seq<u8>>,
    /// Every byte written.
    written: Ghost<Seq<u8>>,
    /// How often the channel has been waited for.
    waits: Ghost<nat>,
}

impl<C: Channel> Metered<C> {
    /// The books on `channel`, which has just been opened.  The link counts
    /// as waiting until `status` has been asked.
    pub fn new(channel: C) -> (metered: Self)
        ensures
            metered.inv(),
            metered.link() == Status::Waiting,
            metered.ready() == 0,
            metered.space() == 0,
            metered.consumed() == Seq::<u8>::empty(),
            metered.sent() == Seq::<u8>::empty(),
            metered.waited() == 0,
    {
        Metered {
            inner: channel,
            link: Status::Waiting,
            ready: 0,
            space: 0,
            scratch: Vec::new(),
            taken: Ghost(Seq::empty()),
            written: Ghost(Seq::empty()),
            waits: Ghost(0),
        }
    }

    /// The channel.
    pub closed spec fn spec_channel(&self) -> &C {
        &self.inner
    }

    /// The channel.
    #[verifier::when_used_as_spec(spec_channel)]
    pub fn channel(&self) -> (channel: &C)
        ensures
            channel == self.spec_channel(),
    {
        &self.inner
    }

    /// What the channel has last handed out, rightly or wrongly.
    pub closed spec fn handed(&self) -> Seq<u8> {
        self.scratch@
    }

    /// Whether `post` differs from this at most in the bytes taken, the
    /// bytes written, and the two counts of bytes.
    pub open spec fn same_link(&self, post: &Self) -> bool {
        &&& post.inv()
        &&& post.spec_channel() == self.spec_channel()
        &&& post.link() == self.link()
        &&& post.waited() == self.waited()
        &&& post.handed() == self.handed()
    }

    /// Books what the channel has made of a write of `buf`: if the channel
    /// has written it, `buf` has been written and its length is gone from
    /// the room there is; if not, nothing has changed and the error of the
    /// channel is passed on.
    pub fn book_send(&mut self, outcome: Result<(), C::Error>, buf: &[u8]) -> (r: Result<
        (),
        MeteredError<C::Error>,
    >)
        requires
            buf@.len() <= old(self).space(),
        ensures
            match outcome {
                Ok(()) => {
                    &&& r is Ok
                    &&& old(self).same_link(final(self))
                    &&& final(self).sent() == old(self).sent() + buf@
                    &&& final(self).space() == old(self).space() - buf@.len()
                    &&& final(self).consumed() == old(self).consumed()
                    &&& final(self).ready() == old(self).ready()
                },
                Err(e) => {
                    &&& r == Err::<(), MeteredError<C::Error>>(MeteredError::Channel(e))
                    &&& *final(self) == *old(self)
                },
            },
    {
        match outcome {
            Ok(()) => {
                self.space = self.space - buf.len();
                proof {
                    self.written@ = self.written@ + buf@;
                }
                Ok(())
            },
            Err(e) => Err(MeteredError::Channel(e)),
        }
    }

    /// Books what the channel has made of a read of `n` bytes.  If the
    /// channel has failed, nothing changes and its error is passed on.  If
    /// it has handed out another number of bytes than `n`, nothing changes
    /// and the result is `WrongLength`.  Else what it has handed out is put
    /// behind `buf`, has been taken, and is gone from what is ready.
    pub fn book_recv(
        &mut self,
        outcome: Result<(), C::Error>,
        buf: &mut Vec<u8>,
        n: usize,
    ) -> (r: Result<(), MeteredError<C::Error>>)
        requires
            n <= old(self).ready(),
        ensures
            match outcome {
                Ok(()) => if old(self).handed().len() == n {
                    &&& r is Ok
                    &&& old(self).same_link(final(self))
                    &&& final(buf)@ == old(buf)@ + old(self).handed()
                    &&& final(self).consumed() == old(self).consumed() + old(self).handed()
                    &&& final(self).ready() == old(self).ready() - n
                    &&& final(self).sent() == old(self).sent()
                    &&& final(self).space() == old(self).space()
                } else {
                    &&& r == Err::<(), MeteredError<C::Error>>(MeteredError::WrongLength)
                    &&& *final(self) == *old(self)
                    &&& final(buf)@ == old(buf)@
                },
                Err(e) => {
                    &&& r == Err::<(), MeteredError<C::Error>>(MeteredError::Channel(e))
                    &&& *final(self) == *old(self)
                    &&& final(buf)@ == old(buf)@
                },
            },
    {
        match outcome {
            Ok(()) => {},
            Err(e) => {
                return Err(MeteredError::Channel(e));
            },
        }
        if self.scratch.len() != n {
            return Err(MeteredError::WrongLength);
        }
        let ghost start = buf@;
        let mut i: usize = 0;
        while i < n
            invariant
                i <= n,
                n == self.scratch@.len(),
                buf@ == start + self.scratch@.take(i as int),
                *self == *old(self),
            decreases n - i,
        {
            buf.push(self.scratch[i]);
            i += 1;
            assert(buf@ =~= start + self.scratch@.take(i as int));
        }
        self.ready = self.ready - n;
        proof {
            assert(self.scratch@.take(n as int) =~= self.scratch@);
            self.taken@ = self.taken@ + self.scratch@;
        }
        Ok(())
    }

    /// Books what the channel has made of dropping `n` bytes: if the
    /// channel has dropped them, `n` bytes have been taken, which count as
    /// zeros since nobody has seen them, and are gone from what is ready; if
    /// not, nothing has changed and the error of the channel is passed on.
    pub fn book_discard(&mut self, outcome: Result<(), C::Error>, n: usize) -> (r: Result<
        (),
        MeteredError<C::Error>,
    >)
        requires
            n <= old(self).ready(),
        ensures
            match outcome {
                Ok(()) => {
                    &&& r is Ok
                    &&& old(self).same_link(final(self))
                    &&& final(self).consumed() == old(self).consumed() + Seq::new(
                        n as nat,
                        |i: int| 0u8,
                    )
                    &&& final(self).ready() == old(self).ready() - n
                    &&& final(self).sent() == old(self).sent()
                    &&& final(self).space() == old(self).space()
                },
                Err(e) => {
                    &&& r == Err::<(), MeteredError<C::Error>>(MeteredError::Channel(e))
                    &&& *final(self) == *old(self)
                },
            },
    {
        match outcome {
            Ok(()) => {
                self.ready = self.ready - n;
                proof {
                    self.taken@ = self.taken@ + Seq::new(n as nat, |i: int| 0u8);
                }
                Ok(())
            },
            Err(e) => Err(MeteredError::Channel(e)),
        }
    }

    /// Books what the channel has made of opening again: if it is open
    /// again, the books start over, with the link waiting; if not, the link
    /// is down, nothing else has changed, and the error of the channel is
    /// passed on.
    pub fn book_reopen(&mut self, outcome: Result<(), C::Error>) -> (r: Result<
        (),
        MeteredError<C::Error>,
    >)
        ensures
            final(self).inv(),
            final(self).spec_channel() == old(self).spec_channel(),
            final(self).handed() == old(self).handed(),
            match outcome {
                Ok(()) => {
                    &&& r is Ok
                    &&& final(self).link() == Status::Waiting
                    &&& final(self).ready() == 0
                    &&& final(self).space() == 0
                    &&& final(self).consumed() == Seq::<u8>::empty()
                    &&& final(self).sent() == Seq::<u8>::empty()
                    &&& final(self).waited() == 0
                },
                Err(e) => {
                    &&& r == Err::<(), MeteredError<C::Error>>(MeteredError::Channel(e))
                    &&& final(self).link() == Status::Disconnected
                    &&& final(self).ready() == old(self).ready()
                    &&& final(self).space() == old(self).space()
                    &&& final(self).consumed() == old(self).consumed()
                    &&& final(self).sent() == old(self).sent()
                    &&& final(self).waited() == old(self).waited()
                },
            },
    {
        match outcome {
            Ok(()) => {
                self.link = Status::Waiting;
                self.ready = 0;
                self.space = 0;
                self.taken = Ghost(Seq::empty());
                self.written = Ghost(Seq::empty());
                self.waits = Ghost(0);
                Ok(())
            },
            Err(e) => {
                self.link = Status::Disconnected;
                Err(MeteredError::Channel(e))
            },
        }
    }
}

impl<C: Channel> Transport for Metered<C> {
    type Error = MeteredError<C::Error>;

    closed spec fn inv(&self) -> bool {
        true
    }

    closed spec fn link(&self) -> Status {
        self.link
    }

    closed spec fn consumed(&self) -> Seq<u8> {
        self.taken@
    }

    closed spec fn sent(&self) -> Seq<u8> {
        self.written@
    }

    closed spec fn waited(&self) -> nat {
        self.waits@
    }

    closed spec fn ready(&self) -> nat {
        self.ready as nat
    }

    closed spec fn space(&self) -> nat {
        self.space as nat
    }

    fn status(&mut self) -> (status: Status) {
        self.link = self.inner.status();
        self.link
    }

    /// The largest count that the channel has reported and that has not been
    /// used up.
    fn data_ready(&mut self) -> (n: usize) {
        let reported = self.inner.data_ready();
        if reported > self.ready {
            self.ready = reported;
        }
        self.ready
    }

    /// The largest count that the channel has reported and that has not been
    /// used up.
    fn buffer_space(&mut self) -> (n: usize) {
        let reported = self.inner.buffer_space();
        if reported > self.space {
            self.space = reported;
        }
        self.space
    }

    fn send(&mut self, buf: &[u8]) -> (r: Result<(), Self::Error>) {
        let outcome = self.inner.send(buf);
        self.book_send(outcome, buf)
    }

    fn recv_into(&mut self, buf: &mut Vec<u8>, n: usize) -> (r: Result<(), Self::Error>) {
        self.scratch.clear();
        let outcome = self.inner.recv_into(&mut self.scratch, n);
        let ghost start = buf@;
        let r = self.book_recv(outcome, buf, n);
        proof {
            if r is Ok {
                assert(buf@.subrange(0, start.len() as int) =~= start);
                assert(buf@.subrange(start.len() as int, buf@.len() as int) =~= self.scratch@);
            }
        }
        r
    }

    fn discard(&mut self, n: usize) -> (r: Result<(), Self::Error>) {
        let outcome = self.inner.discard(n);
        let ghost before = self.taken@;
        let r = self.book_discard(outcome, n);
        proof {
            if r is Ok {
                assert(self.taken@.subrange(0, before.len() as int) =~= before);
            }
        }
        r
    }

    fn wait(&mut self) {
        self.inner.wait();
        proof {
            self.waits@ = self.waits@ + 1;
        }
    }

    fn reopen(&mut self) -> (r: Result<(), Self::Error>) {
        let outcome = self.inner.reopen();
        self.book_reopen(outcome)
    }
}

} // verus!
