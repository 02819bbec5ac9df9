//! A stream of messages over a channel.
//!
//! [`RawMessageStream`] joins a [`Transport`] to the rules of
//! [`crate::framing`].  It never blocks: reading takes what the channel has
//! and reports a message, an error, or that more is needed; writing hands
//! the channel what it has room for and queues the rest, which goes out
//! first whenever the stream is next used.
//!
//! Bytes that are written after an error are dropped.  Bytes that are
//! written while the connection is being made or the version negotiated are
//! dropped as well, unless the stream has been told to hold them
//! ([`RawMessageStream::hold_early_writes`]): then they are queued, and leave
//! once the handshake is done.  Nothing that is queued reaches the channel
//! before the handshake is done.

use vstd::prelude::*;
use std::collections::VecDeque;
use crate::framing::{
    agent_accepts, daemon_accepts, daemon_reply, on_header, Error, HeaderStep, Kind, ProtocolError,
    ReadState,
};
#[allow(unused_imports)]
use crate::framing::{
    lemma_agent_step, lemma_body_step, lemma_daemon_step, lemma_discard_step, lemma_header_step,
    lemma_run_extend, lemma_run_nothing, lemma_xconf_decoding, rank, run, spec_daemon_reply,
    xconf_decoding, Framer, Outcome, Run,
};
use crate::header::{Header, UntrustedHeader, MAX_BODY_LEN};
use crate::limits::PROTOCOL_VERSION;
use crate::payload::{WindowSize, XConf, XConfVersion};
use crate::transport::{Status, Transport};
use crate::wire::Wire;
#[allow(unused_imports)]
use crate::wire::{lemma_u32_bytes, u32_at, u32_bytes};

verus! {

/// A stream of messages over a channel of type `T`.
pub struct RawMessageStream<T: Transport> {
    /// The channel.
    vchan: T,
    /// Write buffer.
    queue: VecDeque<u8>,
    /// State of the read state machine.
    state: ReadState,
    /// Read buffer.
    buffer: Vec<u8>,
    /// Was reconnect successful?
    did_reconnect: bool,
    /// Configuration from the daemon.
    xconf: XConfVersion,
    /// Agent or daemon?
    kind: Kind,
    /// Are bytes that are written before the handshake is done queued?
    hold_early: bool,
}

/// Whether messages can be sent and received in the state `state`: the
/// handshake is done and nothing has failed.
pub open spec fn spec_is_live(state: ReadState) -> bool {
    crate::framing::past_handshake(state)
}

/// Whether messages can be sent and received in the state `state`.
#[verifier::when_used_as_spec(spec_is_live)]
pub fn is_live(state: ReadState) -> (live: bool)
    ensures
        live == spec_is_live(state),
{
    match state {
        ReadState::ReadingHeader | ReadState::ReadingBody { .. } | ReadState::Discard(_) => true,
        ReadState::Connecting | ReadState::Negotiating | ReadState::Error => false,
    }
}

/// What a reader sends of its own accord once the link is up: an agent its
/// version, a daemon nothing.
pub open spec fn hello(kind: Kind) -> Seq<u8> {
    match kind {
        Kind::Agent => u32_bytes(PROTOCOL_VERSION),
        Kind::Daemon => Seq::empty(),
    }
}

/// What the result of reading says of the bytes that were read, if the
/// channel did not fail.
pub open spec fn outcome_of<E>(r: Result<Option<Header>, Error<E>>) -> Option<Outcome> {
    match r {
        Ok(None) => Some(Outcome::Pending),
        Ok(Some(header)) => Some(Outcome::Message(header)),
        Err(Error::Protocol(e)) => Some(Outcome::Failed(e)),
        Err(Error::Transport(_)) => None,
    }
}

/// The number that says how far a state is from the end of the handshake;
/// with it, reading is seen to come to an end.
spec fn phase(state: ReadState) -> nat {
    match state {
        ReadState::Connecting => 2,
        ReadState::Negotiating => 1,
        _ => 0,
    }
}

/// The version and configuration that an agent holds before a handshake:
/// all zero.
pub open spec fn unset() -> XConfVersion {
    XConfVersion {
        version: 0,
        xconf: XConf { size: WindowSize { width: 0, height: 0 }, depth: 0, mem: 0 },
    }
}

/// The version and configuration that an agent holds before a handshake.
fn no_xconf() -> (xconf: XConfVersion)
    ensures
        xconf == unset(),
{
    XConfVersion {
        version: 0,
        xconf: XConf { size: WindowSize { width: 0, height: 0 }, depth: 0, mem: 0 },
    }
}

impl<T: Transport> RawMessageStream<T> {
    /// The channel.
    pub closed spec fn transport(&self) -> &T {
        &self.vchan
    }

    /// The bytes that wait to be written to the channel, first in front.
    pub closed spec fn queued(&self) -> Seq<u8> {
        self.queue@
    }

    /// The reader: the role, the state, the part of the body that has
    /// arrived, the configuration, and the reconnect flag.
    pub closed spec fn framer(&self) -> Framer {
        Framer {
            kind: self.kind,
            state: self.state,
            body: self.buffer@,
            xconf: self.xconf,
            reconnected: self.did_reconnect,
        }
    }

    /// Whether bytes that are written before the handshake is done are
    /// queued; else they are dropped.
    pub closed spec fn holds_early_writes(&self) -> bool {
        self.hold_early
    }

    /// Every byte that has been accepted for the peer: what the channel has
    /// taken, followed by what is queued.
    pub open spec fn outbound(&self) -> Seq<u8> {
        self.transport().sent() + self.queued()
    }

    /// What holds of a stream between any two operations.  Until the
    /// handshake is done no body is held; while a body is read, less of it is
    /// held than its header announces.
    pub open spec fn wf(&self) -> bool {
        &&& self.transport().inv()
        &&& self.framer().body.len() <= MAX_BODY_LEN
        &&& match self.framer().state {
            ReadState::Connecting | ReadState::Negotiating => self.framer().body.len() == 0,
            ReadState::ReadingBody { header } => {
                header.valid() && self.framer().body.len() < header.spec_inner().untrusted_len
            },
            ReadState::Discard(n) => n > 0,
            _ => true,
        }
    }

    /// An agent over `transport`, which listens for the daemon.  The
    /// connection is still to be made.
    pub fn agent(transport: T) -> (stream: Self)
        requires
            transport.inv(),
        ensures
            stream.wf(),
            *stream.transport() == transport,
            stream.queued() == Seq::<u8>::empty(),
            !stream.holds_early_writes(),
            stream.framer() == (Framer {
                kind: Kind::Agent,
                state: ReadState::Connecting,
                body: Seq::empty(),
                xconf: unset(),
                reconnected: false,
            }),
    {
        RawMessageStream {
            vchan: transport,
            queue: VecDeque::new(),
            state: ReadState::Connecting,
            buffer: Vec::new(),
            did_reconnect: false,
            kind: Kind::Agent,
            xconf: no_xconf(),
            hold_early: false,
        }
    }

    /// A daemon over `transport`, which is connected to the agent, with the
    /// configuration of the root window that it will tell the agent.  The
    /// version is still to be negotiated.
    pub fn daemon(transport: T, xconf: XConf) -> (stream: Self)
        requires
            transport.inv(),
        ensures
            stream.wf(),
            *stream.transport() == transport,
            stream.queued() == Seq::<u8>::empty(),
            !stream.holds_early_writes(),
            stream.framer() == (Framer {
                kind: Kind::Daemon,
                state: ReadState::Negotiating,
                body: Seq::empty(),
                xconf: XConfVersion { version: PROTOCOL_VERSION, xconf },
                reconnected: false,
            }),
    {
        RawMessageStream {
            vchan: transport,
            queue: VecDeque::new(),
            state: ReadState::Negotiating,
            buffer: Vec::new(),
            did_reconnect: false,
            kind: Kind::Daemon,
            xconf: XConfVersion { version: PROTOCOL_VERSION, xconf },
            hold_early: false,
        }
    }

    /// The state of the read state machine.
    pub fn state(&self) -> (state: ReadState)
        ensures
            state == self.framer().state,
    {
        self.state
    }

    /// Agent or daemon.
    pub fn kind(&self) -> (kind: Kind)
        ensures
            kind == self.framer().kind,
    {
        self.kind
    }

    /// The version and configuration that the handshake has settled.  Until
    /// then, an agent holds zeros, and a daemon its own version and
    /// configuration.
    pub fn xconf(&self) -> (xconf: XConfVersion)
        ensures
            xconf == self.framer().xconf,
    {
        self.xconf
    }

    /// The number of bytes that wait to be written to the channel.
    pub fn pending_writes(&self) -> (n: usize)
        ensures
            n == self.queued().len(),
    {
        self.queue.len()
    }

    /// Tells the stream what to do with bytes that are written before the
    /// handshake is done: to queue them until it is done, or to drop them.
    /// What is queued already stays queued.
    pub fn hold_early_writes(&mut self, hold: bool)
        ensures
            final(self).holds_early_writes() == hold,
            final(self).framer() == old(self).framer(),
            final(self).transport() == old(self).transport(),
            final(self).queued() == old(self).queued(),
    {
        self.hold_early = hold;
    }

    /// The channel, for the owner to look at.
    pub fn transport_ref(&self) -> (transport: &T)
        ensures
            transport == self.transport(),
    {
        &self.vchan
    }

    /// The channel, for the owner to work on.  Nothing else of the stream
    /// changes.
    pub fn transport_mut(&mut self) -> (transport: &mut T)
        ensures
            *transport == *old(self).transport(),
            *final(self).transport() == *final(transport),
            final(self).queued() == old(self).queued(),
            final(self).framer() == old(self).framer(),
            final(self).holds_early_writes() == old(self).holds_early_writes(),
    {
        &mut self.vchan
    }

    /// Check for a reconnection, consuming the pending reconnection state:
    /// returns whether a handshake has succeeded since this was last asked.
    pub fn reconnected(&mut self) -> (did: bool)
        ensures
            did == old(self).framer().reconnected,
            final(self).framer() == (Framer { reconnected: false, ..old(self).framer() }),
            final(self).transport() == old(self).transport(),
            final(self).queued() == old(self).queued(),
            final(self).holds_early_writes() == old(self).holds_early_writes(),
    {
        let did = self.did_reconnect;
        self.did_reconnect = false;
        did
    }

    /// Returns true if a reconnection is needed: the channel reports that
    /// the peer is gone.
    pub fn needs_reconnect(&mut self) -> (needed: bool)
        requires
            old(self).wf(),
        ensures
            final(self).wf(),
            needed == (final(self).transport().link() == Status::Disconnected),
            final(self).framer() == old(self).framer(),
            final(self).queued() == old(self).queued(),
            final(self).holds_early_writes() == old(self).holds_early_writes(),
            final(self).transport().consumed() == old(self).transport().consumed(),
            final(self).transport().sent() == old(self).transport().sent(),
            final(self).transport().ready() >= old(self).transport().ready(),
    {
        match self.vchan.status() {
            Status::Disconnected => true,
            _ => false,
        }
    }

    /// Acknowledge an event on the channel: the stream waits for the
    /// channel, once, and does nothing else.  This is the one operation that
    /// may block.
    pub fn wait(&mut self)
        requires
            old(self).wf(),
        ensures
            final(self).wf(),
            final(self).transport().waited() == old(self).transport().waited() + 1,
            final(self).transport().link() == old(self).transport().link(),
            final(self).transport().space() >= old(self).transport().space(),
            final(self).framer() == old(self).framer(),
            final(self).queued() == old(self).queued(),
            final(self).holds_early_writes() == old(self).holds_early_writes(),
            final(self).transport().consumed() == old(self).transport().consumed(),
            final(self).transport().sent() == old(self).transport().sent(),
            final(self).transport().ready() >= old(self).transport().ready(),
    {
        self.vchan.wait()
    }

    /// Attempts to write as much of `slice` as possible to the channel.
    /// Never blocks.  Returns the number of bytes written: all of `slice`, or
    /// as many as the channel had room for.
    ///
    /// The channel is asked how much room it has.  If it has none, nothing
    /// is written and the result is `Ok(0)`.  Else the channel is handed as
    /// much of `slice` as it has room for, and only then can the write fail.
    /// Nothing is read and nothing is waited for either way.
    ///
    /// # Errors
    ///
    /// Fails if writing to the channel fails.  The channel then still has
    /// the room that it reported, which is more than none.
    pub fn write_slice(vchan: &mut T, slice: &[u8]) -> (r: Result<usize, T::Error>)
        requires
            old(vchan).inv(),
        ensures
            final(vchan).inv(),
            final(vchan).link() == old(vchan).link(),
            final(vchan).waited() == old(vchan).waited(),
            final(vchan).consumed() == old(vchan).consumed(),
            final(vchan).ready() == old(vchan).ready(),
            match r {
                Ok(n) => {
                    &&& n <= slice@.len()
                    &&& final(vchan).sent() == old(vchan).sent() + slice@.take(n as int)
                    &&& final(vchan).space() + n >= old(vchan).space()
                    &&& (n == slice@.len() || final(vchan).space() == 0)
                },
                Err(_) => final(vchan).space() > 0 && final(vchan).space() >= old(vchan).space(),
            },
    {
        let space = vchan.buffer_space();
        if space == 0 {
            assert(vchan.sent() + slice@.take(0) =~= vchan.sent());
            Ok(0)
        } else {
            let to_write = if space < slice.len() {
                space
            } else {
                slice.len()
            };
            let part = vstd::slice::slice_subrange(slice, 0, to_write);
            assert(part@ =~= slice@.take(to_write as int));
            match vchan.send(part) {
                Ok(()) => Ok(to_write),
                Err(e) => Err(e),
            }
        }
    }

    /// Write as much of the buffered data as possible without blocking.
    /// Returns the number of bytes successfully written, which left the
    /// queue at its front.
    ///
    /// If nothing is queued, the channel is not touched and the result is
    /// `Ok(0)`.  Else the channel is asked how much room it has, and is
    /// handed as much of the front of the queue as it has room for.  Nothing
    /// is read and nothing is waited for either way.
    ///
    /// # Errors
    ///
    /// Fails if writing to the channel fails, which can only be if
    /// something was queued and the channel reported room for some of it.
    /// The queue is then as it was, and the channel still has that room.
    pub fn flush_pending_writes(&mut self) -> (r: Result<usize, T::Error>)
        requires
            old(self).wf(),
        ensures
            final(self).wf(),
            final(self).framer() == old(self).framer(),
            final(self).holds_early_writes() == old(self).holds_early_writes(),
            final(self).transport().link() == old(self).transport().link(),
            final(self).transport().waited() == old(self).transport().waited(),
            final(self).transport().consumed() == old(self).transport().consumed(),
            final(self).transport().ready() == old(self).transport().ready(),
            old(self).queued().len() == 0 ==> {
                &&& r == Ok::<usize, T::Error>(0)
                &&& final(self).transport() == old(self).transport()
            },
            match r {
                Ok(n) => {
                    &&& n <= old(self).queued().len()
                    &&& final(self).queued() == old(self).queued().skip(n as int)
                    &&& final(self).transport().sent() == old(self).transport().sent() + old(
                        self,
                    ).queued().take(n as int)
                    &&& final(self).outbound() == old(self).outbound()
                    &&& final(self).transport().space() + n >= old(self).transport().space()
                    &&& (final(self).queued().len() == 0 || final(self).transport().space() == 0)
                },
                Err(_) => {
                    &&& final(self).queued() == old(self).queued()
                    &&& old(self).queued().len() > 0
                    &&& final(self).transport().space() > 0
                    &&& final(self).transport().space() >= old(self).transport().space()
                },
            },
    {
        let len = self.queue.len();
        if len == 0 {
            assert(self.queue@.skip(0) =~= self.queue@);
            assert(self.vchan.sent() + self.queue@.take(0) =~= self.vchan.sent());
            return Ok(0);
        }
        let space = self.vchan.buffer_space();
        let to_write = if space < len {
            space
        } else {
            len
        };
        let mut chunk: Vec<u8> = Vec::new();
        let mut i: usize = 0;
        while i < to_write
            invariant
                i <= to_write <= len,
                len == self.queue@.len(),
                chunk@ == self.queue@.take(i as int),
            decreases to_write - i,
        {
            chunk.push(self.queue[i]);
            i += 1;
            assert(chunk@ =~= self.queue@.take(i as int));
        }
        if to_write > 0 {
            match self.vchan.send(chunk.as_slice()) {
                Ok(()) => {},
                Err(e) => {
                    return Err(e);
                },
            }
        } else {
            assert(self.vchan.sent() + chunk@ =~= self.vchan.sent());
        }
        let ghost channel = self.vchan;
        let mut j: usize = 0;
        while j < to_write
            invariant
                j <= to_write <= len,
                len == old(self).queue@.len(),
                self.queue@ == old(self).queue@.skip(j as int),
                self.vchan == channel,
                self.state == old(self).state,
                self.buffer == old(self).buffer,
                self.did_reconnect == old(self).did_reconnect,
                self.xconf == old(self).xconf,
                self.kind == old(self).kind,
                self.hold_early == old(self).hold_early,
            decreases to_write - j,
        {
            let _ = self.queue.pop_front();
            j += 1;
            assert(self.queue@ =~= old(self).queue@.skip(j as int));
        }
        assert(chunk@ + self.queue@ =~= old(self).queue@);
        assert(self.vchan.sent() + self.queue@ =~= old(self).vchan.sent() + old(self).queue@);
        Ok(to_write)
    }

    /// Write as much of `buf` to the channel as possible.  Queue the rest in
    /// an internal buffer, behind what is queued already.
    ///
    /// After an error, `buf` is dropped and nothing else happens.  While
    /// the connection is being made or the version negotiated, `buf` is
    /// queued if the stream holds early writes, and dropped if not; the
    /// channel is not touched.
    ///
    /// # Errors
    ///
    /// Fails if there is an I/O error on the channel.  The stream is then in
    /// the error state.
    pub fn write(&mut self, buf: &[u8]) -> (r: Result<(), Error<T::Error>>)
        requires
            old(self).wf(),
        ensures
            final(self).wf(),
            Self::writes(old(self), final(self), buf@, r),
    {
        match self.state {
            ReadState::Error => {
                return Ok(());
            },
            ReadState::Connecting | ReadState::Negotiating => {
                if self.hold_early {
                    self.enqueue(buf, 0);
                    assert(buf@.skip(0) =~= buf@);
                }
                return Ok(());
            },
            _ => {},
        }
        match self.flush_pending_writes() {
            Ok(_) => {},
            Err(e) => {
                self.state = ReadState::Error;
                return Err(Error::Transport(e));
            },
        }
        let mut written: usize = 0;
        if self.queue.len() == 0 {
            match Self::write_slice(&mut self.vchan, buf) {
                Ok(n) => {
                    written = n;
                },
                Err(e) => {
                    self.state = ReadState::Error;
                    return Err(Error::Transport(e));
                },
            }
        }
        let ghost mid = *self;
        assert(mid.vchan.sent() + mid.queue@ + buf@.skip(written as int) =~= old(self).outbound()
            + buf@) by {
            assert(buf@.take(written as int) + buf@.skip(written as int) =~= buf@);
        }
        self.enqueue(buf, written);
        assert(self.outbound() =~= mid.vchan.sent() + mid.queue@ + buf@.skip(written as int));
        Ok(())
    }

    /// Whether the stream `post` and the result `r` are what writing `bytes`
    /// makes of the stream `pre`.
    ///
    /// * After an error, nothing changes and the result is `Ok`.
    /// * Until the handshake is done, the result is `Ok` and the channel is
    ///   not touched; `bytes` are queued behind what is queued if the stream
    ///   holds early writes, and else nothing changes.
    /// * Else, if the channel did not fail, `bytes` stand behind everything
    ///   that was accepted for the peer before, nothing was read, and
    ///   something is queued only if the channel has no room left.
    /// * If the channel failed, the stream is in the error state.
    pub open spec fn writes(
        pre: &Self,
        post: &Self,
        bytes: Seq<u8>,
        r: Result<(), Error<T::Error>>,
    ) -> bool {
        &&& post.holds_early_writes() == pre.holds_early_writes()
        &&& match pre.framer().state {
            ReadState::Error => r is Ok && *post == *pre,
            ReadState::Connecting | ReadState::Negotiating => {
                &&& r is Ok
                &&& post.framer() == pre.framer()
                &&& post.transport() == pre.transport()
                &&& post.queued() == if pre.holds_early_writes() {
                    pre.queued() + bytes
                } else {
                    pre.queued()
                }
            },
            _ => match r {
                Ok(()) => {
                    &&& post.outbound() == pre.outbound() + bytes
                    &&& post.framer() == pre.framer()
                    &&& post.transport().consumed() == pre.transport().consumed()
                    &&& post.transport().ready() >= pre.transport().ready()
                    &&& (post.queued().len() == 0 || post.transport().space() == 0)
                },
                Err(e) => {
                    &&& e is Transport
                    &&& post.framer() == (Framer { state: ReadState::Error, ..pre.framer() })
                },
            },
        }
    }

    /// Queues `buf` from position `from` on, behind what is queued.
    fn enqueue(&mut self, buf: &[u8], from: usize)
        requires
            from <= buf@.len(),
        ensures
            final(self).queue@ == old(self).queue@ + buf@.skip(from as int),
            final(self).vchan == old(self).vchan,
            final(self).state == old(self).state,
            final(self).buffer == old(self).buffer,
            final(self).did_reconnect == old(self).did_reconnect,
            final(self).xconf == old(self).xconf,
            final(self).kind == old(self).kind,
            final(self).hold_early == old(self).hold_early,
    {
        let mut i: usize = from;
        while i < buf.len()
            invariant
                from <= i <= buf@.len(),
                self.queue@ == old(self).queue@ + buf@.subrange(from as int, i as int),
                self.vchan == old(self).vchan,
                self.state == old(self).state,
                self.buffer == old(self).buffer,
                self.did_reconnect == old(self).did_reconnect,
                self.xconf == old(self).xconf,
                self.kind == old(self).kind,
                self.hold_early == old(self).hold_early,
            decreases buf@.len() - i,
        {
            self.queue.push_back(buf[i]);
            i += 1;
            assert(self.queue@ =~= old(self).queue@ + buf@.subrange(from as int, i as int));
        }
        assert(buf@.subrange(from as int, i as int) =~= buf@.skip(from as int));
    }

    /// Whether the stream cannot go on reading with what the channel has
    /// last told: the link is not up, or the channel has fewer bytes than
    /// the next step takes at once, or no room for what the step sends.
    pub open spec fn stalled(&self) -> bool {
        let t = self.transport();
        match self.framer().state {
            ReadState::Connecting => {
                ||| t.link() == Status::Waiting
                ||| t.link() == Status::Connected && self.framer().kind == Kind::Agent && t.space()
                    < 4
            },
            ReadState::Negotiating => match self.framer().kind {
                Kind::Agent => t.ready() < 20,
                Kind::Daemon => t.ready() < 4 || t.space() < 20,
            },
            ReadState::ReadingHeader => t.ready() < 12,
            ReadState::ReadingBody { .. } | ReadState::Discard(_) => t.ready() == 0,
            ReadState::Error => false,
        }
    }

    /// Whether the stream `post` results from the stream `pre` by reading
    /// that amounts to `outcome`, for a reader that starts as `entry` after
    /// it has sent `greeting`: some bytes were taken from the channel, the
    /// reader and the outcome are what the rules of framing make of exactly
    /// these bytes, and the greeting and what the rules answer have been
    /// written behind everything written before and ahead of everything
    /// that is queued.
    pub open spec fn took(
        pre: &Self,
        post: &Self,
        entry: Framer,
        greeting: Seq<u8>,
        outcome: Outcome,
    ) -> bool {
        let taken = post.transport().consumed().skip(pre.transport().consumed().len() as int);
        let result = run(entry, taken);
        &&& post.transport().consumed() == pre.transport().consumed() + taken
        &&& result.used == taken.len()
        &&& result.outcome == outcome
        &&& post.framer() == result.end
        &&& post.transport().sent() + post.queued() == pre.transport().sent() + (greeting
            + result.reply) + pre.queued()
        &&& post.transport().ready() + taken.len() >= pre.transport().ready()
        &&& post.holds_early_writes() == pre.holds_early_writes()
    }

    /// Whether the stream `post` and the result `r` are what reading makes
    /// of the stream `pre`, for a reader that starts as `entry` after it has
    /// sent `greeting`.
    ///
    /// If the channel failed, the stream is in the error state.  Else the
    /// bytes that were taken amount to the result, as `took` says, and if
    /// more bytes are needed, the channel has too few of them.
    pub open spec fn follows(
        pre: &Self,
        post: &Self,
        entry: Framer,
        greeting: Seq<u8>,
        r: Result<Option<Header>, Error<T::Error>>,
    ) -> bool {
        match outcome_of(r) {
            None => {
                &&& post.framer().state is Error
                &&& post.framer().kind == pre.framer().kind
            },
            Some(outcome) => {
                &&& Self::took(pre, post, entry, greeting, outcome)
                &&& (outcome is Pending ==> post.stalled())
            },
        }
    }

    /// Whether between `pre` and `post` the queue has not changed and
    /// nothing has been written but what the rules of framing answer to the
    /// bytes that were read.
    spec fn wrote_ahead(pre: &Self, post: &Self) -> bool {
        let taken = post.vchan.consumed().skip(pre.vchan.consumed().len() as int);
        &&& post.queue@ == pre.queue@
        &&& post.vchan.sent() == pre.vchan.sent() + run(pre.framer(), taken).reply
    }

    /// Whether `post` and `flow` are what one step of reading makes of
    /// `pre`.
    spec fn stepped(pre: &Self, post: &Self, flow: Flow<T::Error>) -> bool {
        match flow {
            Flow::Done(r) => Self::follows(pre, post, pre.framer(), Seq::empty(), r) && (outcome_of(
                r,
            ) is Some ==> Self::wrote_ahead(pre, post)),
            Flow::Continue(left) => {
                &&& Self::took(pre, post, pre.framer(), Seq::empty(), Outcome::Pending)
                &&& Self::wrote_ahead(pre, post)
                &&& left == post.transport().ready()
                &&& post.kind == pre.kind
                &&& !(post.state is Connecting)
                &&& !(post.state is Error)
                &&& (phase(post.state) < phase(pre.state) || (phase(post.state) == phase(pre.state)
                    && (post.transport().ready() < pre.transport().ready() || (
                post.transport().ready() == pre.transport().ready() && rank(post.state) < rank(
                    pre.state,
                )))))
            },
        }
    }

    /// The handshake of an agent: the version and configuration of the
    /// daemon are read and judged.
    fn step_agent(&mut self, avail: usize) -> (flow: Flow<T::Error>)
        requires
            old(self).wf(),
            old(self).state is Negotiating,
            old(self).kind is Agent,
            avail == old(self).vchan.ready(),
        ensures
            final(self).wf(),
            Self::stepped(old(self), final(self), flow),
            !(final(self).state is Connecting),
            final(self).kind == old(self).kind,
            flow matches Flow::Done(Err(Error::Protocol(e))) ==> e is BadLength
                || e is VersionMismatch,
            flow matches Flow::Done(Ok(Some(header))) ==> final(self).buffer@.len()
                == header.spec_inner().untrusted_len,
    {
        let ghost cur = self.framer();
        let ghost start = self.vchan.consumed();
        proof {
            lemma_run_nothing(cur);
            assert(start.skip(start.len() as int) =~= Seq::empty());
            assert(start + Seq::<u8>::empty() =~= start);
            assert(self.vchan.sent() + Seq::<u8>::empty() =~= self.vchan.sent());
            assert(self.vchan.sent() + (Seq::<u8>::empty() + Seq::<u8>::empty()) + self.queue@
                =~= self.vchan.sent() + self.queue@);
        }
        if avail < 20 {
            return Flow::Done(Ok(None));
        }
        match self.vchan.recv_into(&mut self.buffer, 20) {
            Ok(()) => {},
            Err(e) => {
                self.state = ReadState::Error;
                return Flow::Done(Err(Error::Transport(e)));
            },
        }
        let offer = XConfVersion::decode_at(self.buffer.as_slice(), 0);
        let ghost piece = self.buffer@;
        self.buffer.clear();
        proof {
            assert(piece.subrange(0, 20) =~= piece);
            lemma_xconf_decoding(piece, offer);
            lemma_agent_step(cur, piece);
            assert((start + piece).skip(start.len() as int) =~= piece);
        }
        match agent_accepts(offer.version) {
            Ok(()) => {
                self.xconf = offer;
                self.state = ReadState::ReadingHeader;
                self.did_reconnect = true;
                Flow::Continue(avail - 20)
            },
            Err(e) => {
                self.state = ReadState::Error;
                Flow::Done(Err(Error::Protocol(e)))
            },
        }
    }

    /// The handshake of a daemon: the version of the agent is read and
    /// judged, and answered with the negotiated version and the
    /// configuration.  Nothing is read before the channel has room for the
    /// longest answer.
    fn step_daemon(&mut self, avail: usize) -> (flow: Flow<T::Error>)
        requires
            old(self).wf(),
            old(self).state is Negotiating,
            old(self).kind is Daemon,
            avail == old(self).vchan.ready(),
        ensures
            final(self).wf(),
            Self::stepped(old(self), final(self), flow),
            !(final(self).state is Connecting),
            final(self).kind == old(self).kind,
            flow matches Flow::Done(Err(Error::Protocol(e))) ==> e is BadLength
                || e is VersionMismatch,
            flow matches Flow::Done(Ok(Some(header))) ==> final(self).buffer@.len()
                == header.spec_inner().untrusted_len,
    {
        let ghost cur = self.framer();
        let ghost start = self.vchan.consumed();
        proof {
            lemma_run_nothing(cur);
            assert(start.skip(start.len() as int) =~= Seq::empty());
            assert(start + Seq::<u8>::empty() =~= start);
            assert(self.vchan.sent() + Seq::<u8>::empty() =~= self.vchan.sent());
            assert(self.vchan.sent() + (Seq::<u8>::empty() + Seq::<u8>::empty()) + self.queue@
                =~= self.vchan.sent() + self.queue@);
        }
        let space = self.vchan.buffer_space();
        if avail < 4 || space < 20 {
            return Flow::Done(Ok(None));
        }
        match self.vchan.recv_into(&mut self.buffer, 4) {
            Ok(()) => {},
            Err(e) => {
                self.state = ReadState::Error;
                return Flow::Done(Err(Error::Transport(e)));
            },
        }
        let sent = u32::decode_at(self.buffer.as_slice(), 0);
        let ghost piece = self.buffer@;
        self.buffer.clear();
        proof {
            assert(piece.subrange(0, 4) =~= piece);
            lemma_u32_bytes(sent, piece, 0);
            u32::lemma_encoding(&sent, &u32_at(piece, 0));
            lemma_daemon_step(cur, piece);
            assert((start + piece).skip(start.len() as int) =~= piece);
        }
        match daemon_accepts(sent) {
            Ok(agreed) => {
                self.xconf = XConfVersion { version: agreed, xconf: self.xconf.xconf };
                let answer = daemon_reply(&self.xconf);
                match self.vchan.send(answer.as_slice()) {
                    Ok(()) => {},
                    Err(e) => {
                        self.state = ReadState::Error;
                        return Flow::Done(Err(Error::Transport(e)));
                    },
                }
                proof {
                    assert(self.vchan.sent() + self.queue@ =~= old(self).vchan.sent() + (Seq::<
                        u8,
                    >::empty() + answer@) + old(self).queue@);
                }
                self.state = ReadState::ReadingHeader;
                Flow::Continue(avail - 4)
            },
            Err(e) => {
                self.state = ReadState::Error;
                Flow::Done(Err(Error::Protocol(e)))
            },
        }
    }

    /// A header is read and judged.
    fn step_header(&mut self, avail: usize) -> (flow: Flow<T::Error>)
        requires
            old(self).wf(),
            old(self).state is ReadingHeader,
            avail == old(self).vchan.ready(),
        ensures
            final(self).wf(),
            Self::stepped(old(self), final(self), flow),
            !(final(self).state is Connecting),
            final(self).kind == old(self).kind,
            flow matches Flow::Done(Err(Error::Protocol(e))) ==> e is BadLength
                || e is VersionMismatch,
            flow matches Flow::Done(Ok(Some(header))) ==> final(self).buffer@.len()
                == header.spec_inner().untrusted_len,
    {
        let ghost cur = self.framer();
        let ghost start = self.vchan.consumed();
        proof {
            lemma_run_nothing(cur);
            assert(start.skip(start.len() as int) =~= Seq::empty());
            assert(start + Seq::<u8>::empty() =~= start);
            assert(self.vchan.sent() + Seq::<u8>::empty() =~= self.vchan.sent());
            assert(self.vchan.sent() + (Seq::<u8>::empty() + Seq::<u8>::empty()) + self.queue@
                =~= self.vchan.sent() + self.queue@);
        }
        if avail < 12 {
            return Flow::Done(Ok(None));
        }
        // Reset buffer to 0 bytes
        self.buffer.clear();
        match self.vchan.recv_into(&mut self.buffer, 12) {
            Ok(()) => {},
            Err(e) => {
                self.state = ReadState::Error;
                return Flow::Done(Err(Error::Transport(e)));
            },
        }
        let header = UntrustedHeader::decode_at(self.buffer.as_slice(), 0);
        let ghost piece = self.buffer@;
        self.buffer.clear();
        proof {
            assert(piece.subrange(0, 12) =~= piece);
            UntrustedHeader::lemma_decoding(piece, header);
            lemma_header_step(cur, piece);
            assert((start + piece).skip(start.len() as int) =~= piece);
        }
        match on_header(self.kind, &header) {
            HeaderStep::Deliver(valid) => Flow::Done(Ok(Some(valid))),
            HeaderStep::Body(valid) => {
                self.state = ReadState::ReadingBody { header: valid };
                Flow::Continue(avail - 12)
            },
            HeaderStep::Skip => Flow::Continue(avail - 12),
            HeaderStep::Discard(n) => {
                self.state = ReadState::Discard(n);
                Flow::Continue(avail - 12)
            },
            HeaderStep::Reject(e) => {
                self.state = ReadState::Error;
                Flow::Done(Err(Error::Protocol(ProtocolError::BadLength(e))))
            },
        }
    }

    /// As much of the body is read as is there and is missing.
    fn step_body(&mut self, avail: usize) -> (flow: Flow<T::Error>)
        requires
            old(self).wf(),
            old(self).state is ReadingBody,
            avail == old(self).vchan.ready(),
        ensures
            final(self).wf(),
            Self::stepped(old(self), final(self), flow),
            !(final(self).state is Connecting),
            final(self).kind == old(self).kind,
            flow matches Flow::Done(Err(Error::Protocol(e))) ==> e is BadLength
                || e is VersionMismatch,
            flow matches Flow::Done(Ok(Some(header))) ==> final(self).buffer@.len()
                == header.spec_inner().untrusted_len,
            flow is Done,
    {
        let ghost cur = self.framer();
        let ghost start = self.vchan.consumed();
        let header = match self.state {
            ReadState::ReadingBody { header } => header,
            _ => {
                return Flow::Done(Ok(None));
            },
        };
        let to_read = header.len() - self.buffer.len();
        let now = if avail < to_read {
            avail
        } else {
            to_read
        };
        let ghost held = self.buffer@;
        match self.vchan.recv_into(&mut self.buffer, now) {
            Ok(()) => {},
            Err(e) => {
                self.state = ReadState::Error;
                return Flow::Done(Err(Error::Transport(e)));
            },
        }
        let ghost piece = self.buffer@.subrange(held.len() as int, self.buffer@.len() as int);
        proof {
            assert(self.buffer@ =~= held + piece);
            lemma_body_step(cur, piece);
            assert((start + piece).skip(start.len() as int) =~= piece);
            assert(self.vchan.sent() + Seq::<u8>::empty() =~= self.vchan.sent());
            assert(self.vchan.sent() + (Seq::<u8>::empty() + Seq::<u8>::empty()) + self.queue@
                =~= self.vchan.sent() + self.queue@);
        }
        if avail >= to_read {
            self.state = ReadState::ReadingHeader;
            Flow::Done(Ok(Some(header)))
        } else {
            Flow::Done(Ok(None))
        }
    }

    /// As many bytes are dropped as are there and are to be dropped.
    fn step_discard(&mut self, avail: usize) -> (flow: Flow<T::Error>)
        requires
            old(self).wf(),
            old(self).state is Discard,
            avail == old(self).vchan.ready(),
        ensures
            final(self).wf(),
            Self::stepped(old(self), final(self), flow),
            !(final(self).state is Connecting),
            final(self).kind == old(self).kind,
            flow matches Flow::Done(Err(Error::Protocol(e))) ==> e is BadLength
                || e is VersionMismatch,
            flow matches Flow::Done(Ok(Some(header))) ==> final(self).buffer@.len()
                == header.spec_inner().untrusted_len,
    {
        let ghost cur = self.framer();
        let ghost start = self.vchan.consumed();
        let untrusted_len = match self.state {
            ReadState::Discard(n) => n,
            _ => {
                return Flow::Done(Ok(None));
            },
        };
        let wanted = untrusted_len as usize;
        let now = if avail < wanted {
            avail
        } else {
            wanted
        };
        match self.vchan.discard(now) {
            Ok(()) => {},
            Err(e) => {
                self.state = ReadState::Error;
                return Flow::Done(Err(Error::Transport(e)));
            },
        }
        let ghost piece = self.vchan.consumed().skip(start.len() as int);
        proof {
            assert(self.vchan.consumed() =~= start + piece);
            lemma_discard_step(cur, piece);
            assert(self.vchan.sent() + Seq::<u8>::empty() =~= self.vchan.sent());
            assert(self.vchan.sent() + (Seq::<u8>::empty() + Seq::<u8>::empty()) + self.queue@
                =~= self.vchan.sent() + self.queue@);
        }
        if avail >= wanted {
            self.state = ReadState::ReadingHeader;
            Flow::Continue(avail - wanted)
        } else {
            self.state = ReadState::Discard((wanted - avail) as u32);
            Flow::Done(Ok(None))
        }
    }

    /// Reads from the channel, step by step, until a message is complete,
    /// the peer is found to have broken the protocol, or the channel has too
    /// few bytes.
    fn advance(&mut self) -> (r: Result<Option<Header>, Error<T::Error>>)
        requires
            old(self).wf(),
            !(old(self).framer().state is Connecting),
            !(old(self).framer().state is Error),
        ensures
            final(self).wf(),
            Self::follows(old(self), final(self), old(self).framer(), Seq::empty(), r),
            outcome_of(r) is Some ==> Self::wrote_ahead(old(self), final(self)),
            !(final(self).framer().state is Connecting),
            final(self).framer().kind == old(self).framer().kind,
            r matches Err(Error::Protocol(e)) ==> e is BadLength || e is VersionMismatch,
            r matches Ok(Some(header)) ==> final(self).framer().body.len()
                == header.spec_inner().untrusted_len,
    {
        let ghost entry = self.framer();
        let ghost start = self.vchan.consumed();
        let ghost mut taken: Seq<u8> = Seq::empty();
        let ghost mut reply: Seq<u8> = Seq::empty();
        let mut avail: usize = self.vchan.data_ready();
        proof {
            lemma_run_nothing(entry);
            assert(start + taken =~= start);
            assert(self.vchan.sent() + reply =~= self.vchan.sent());
        }
        loop
            invariant
                self.wf(),
                !(self.state is Connecting),
                !(self.state is Error),
                entry == old(self).framer(),
                start == old(self).vchan.consumed(),
                self.kind == entry.kind,
                self.vchan.consumed() == start + taken,
                run(entry, taken) == (Run {
                    end: self.framer(),
                    used: taken.len(),
                    reply,
                    outcome: Outcome::Pending,
                }),
                self.queue@ == old(self).queue@,
                self.vchan.sent() == old(self).vchan.sent() + reply,
                self.hold_early == old(self).hold_early,
                avail == self.vchan.ready(),
                self.vchan.ready() + taken.len() >= old(self).vchan.ready(),
            decreases phase(self.state), avail, rank(self.state),
        {
            let ghost mid = *self;
            let flow = match self.state {
                ReadState::Negotiating => match self.kind {
                    Kind::Agent => self.step_agent(avail),
                    Kind::Daemon => self.step_daemon(avail),
                },
                ReadState::ReadingHeader => self.step_header(avail),
                ReadState::ReadingBody { .. } => self.step_body(avail),
                ReadState::Discard(_) => self.step_discard(avail),
                ReadState::Connecting | ReadState::Error => Flow::Done(Ok(None)),
            };
            proof {
                Self::lemma_steps(old(self), &mid, self, entry, taken, reply, flow);
                let piece = self.vchan.consumed().skip(mid.vchan.consumed().len() as int);
                reply = reply + run(mid.framer(), piece).reply;
                taken = taken + piece;
            }
            match flow {
                Flow::Continue(left) => {
                    avail = left;
                },
                Flow::Done(r) => {
                    return r;
                },
            }
        }
    }

    /// A step that follows on reading is reading: if `mid` results from
    /// `pre` by reading `taken` without a result, and `post` from `mid` by
    /// one step, then `post` results from `pre` by reading `taken` and what
    /// the step took.
    proof fn lemma_steps(
        pre: &Self,
        mid: &Self,
        post: &Self,
        entry: Framer,
        taken: Seq<u8>,
        reply: Seq<u8>,
        flow: Flow<T::Error>,
    )
        requires
            entry == pre.framer(),
            mid.kind == entry.kind,
            mid.hold_early == pre.hold_early,
            mid.vchan.consumed() == pre.vchan.consumed() + taken,
            run(entry, taken) == (Run {
                end: mid.framer(),
                used: taken.len(),
                reply,
                outcome: Outcome::Pending,
            }),
            mid.queue@ == pre.queue@,
            mid.vchan.sent() == pre.vchan.sent() + reply,
            mid.vchan.ready() + taken.len() >= pre.vchan.ready(),
            Self::stepped(mid, post, flow),
        ensures
            flow matches Flow::Done(r) ==> Self::follows(pre, post, entry, Seq::<u8>::empty(), r)
                && (outcome_of(r) is Some ==> Self::wrote_ahead(pre, post)),
            flow is Continue ==> {
                let piece = post.vchan.consumed().skip(mid.vchan.consumed().len() as int);
                &&& post.kind == entry.kind
                &&& post.hold_early == pre.hold_early
                &&& post.vchan.consumed() == pre.vchan.consumed() + (taken + piece)
                &&& run(entry, taken + piece) == (Run {
                    end: post.framer(),
                    used: (taken + piece).len(),
                    reply: reply + run(mid.framer(), piece).reply,
                    outcome: Outcome::Pending,
                })
                &&& post.queue@ == pre.queue@
                &&& post.vchan.sent() == pre.vchan.sent() + (reply + run(mid.framer(), piece).reply)
                &&& post.vchan.ready() + (taken + piece).len() >= pre.vchan.ready()
            },
    {
        let start = pre.vchan.consumed();
        let piece = post.vchan.consumed().skip(mid.vchan.consumed().len() as int);
        let step = run(mid.framer(), piece);
        let through = match flow {
            Flow::Done(r) => outcome_of(r) is Some,
            Flow::Continue(_) => true,
        };
        if through {
            lemma_run_extend(entry, taken, piece);
            assert(start + taken + piece =~= start + (taken + piece));
            assert((start + (taken + piece)).skip(start.len() as int) =~= taken + piece);
            assert(pre.vchan.sent() + reply + step.reply =~= pre.vchan.sent() + (reply
                + step.reply));
            assert(pre.vchan.sent() + (reply + step.reply) + pre.queue@ =~= pre.vchan.sent() + (
            Seq::<u8>::empty() + (reply + step.reply)) + pre.queue@);
        }
    }

    /// Makes the connection, if the link is up: an agent sends its version,
    /// and the version is then negotiated.  Returns whether the connection
    /// was made.  An agent waits until the channel has room for its
    /// version.
    fn connect(&mut self) -> (r: Result<bool, Error<T::Error>>)
        requires
            old(self).wf(),
            old(self).state is Connecting,
        ensures
            final(self).wf(),
            final(self).kind == old(self).kind,
            final(self).queue@ == old(self).queue@,
            final(self).hold_early == old(self).hold_early,
            match r {
                Ok(false) => {
                    &&& final(self).framer() == old(self).framer()
                    &&& final(self).vchan.sent() == old(self).vchan.sent()
                    &&& final(self).vchan.consumed() == old(self).vchan.consumed()
                    &&& final(self).vchan.ready() == old(self).vchan.ready()
                    &&& final(self).stalled()
                },
                Ok(true) => {
                    &&& final(self).framer() == (Framer {
                        state: ReadState::Negotiating,
                        ..old(self).framer()
                    })
                    &&& final(self).vchan.sent() == old(self).vchan.sent() + hello(old(self).kind)
                    &&& final(self).vchan.consumed() == old(self).vchan.consumed()
                    &&& final(self).vchan.ready() == old(self).vchan.ready()
                },
                Err(Error::Protocol(e)) => {
                    &&& e == ProtocolError::ConnectionRefused
                    &&& final(self).framer() == (Framer {
                        state: ReadState::Error,
                        ..old(self).framer()
                    })
                    &&& final(self).vchan.sent() == old(self).vchan.sent()
                    &&& final(self).vchan.consumed() == old(self).vchan.consumed()
                    &&& final(self).vchan.ready() == old(self).vchan.ready()
                    &&& final(self).vchan.link() == Status::Disconnected
                },
                Err(Error::Transport(_)) => final(self).state is Error,
            },
    {
        match self.vchan.status() {
            Status::Waiting => Ok(false),
            Status::Disconnected => {
                self.state = ReadState::Error;
                Err(Error::Protocol(ProtocolError::ConnectionRefused))
            },
            Status::Connected => match self.kind {
                Kind::Daemon => {
                    self.state = ReadState::Negotiating;
                    assert(self.vchan.sent() + Seq::<u8>::empty() =~= self.vchan.sent());
                    Ok(true)
                },
                Kind::Agent => {
                    if self.vchan.buffer_space() < 4 {
                        return Ok(false);
                    }
                    let version = crate::wire::as_bytes(&PROTOCOL_VERSION);
                    match self.vchan.send(version.as_slice()) {
                        Ok(()) => {
                            self.state = ReadState::Negotiating;
                            Ok(true)
                        },
                        Err(e) => {
                            self.state = ReadState::Error;
                            Err(Error::Transport(e))
                        },
                    }
                },
            },
        }
    }

    /// Whether the stream `post` and the result `r` are what reading makes
    /// of the stream `pre`.
    ///
    /// * After an error, reading fails and changes nothing.
    /// * While connecting, reading waits and changes nothing unless the link
    ///   is up; it fails if the peer is gone; and else it sends the greeting
    ///   of its role and goes on to negotiate the version.
    /// * While the version is negotiated, bytes are read as `follows` says.
    /// * Else what is queued is written as far as the channel has room, and
    ///   bytes are read as `follows` says.
    pub open spec fn reads(
        pre: &Self,
        post: &Self,
        r: Result<Option<Header>, Error<T::Error>>,
    ) -> bool {
        match pre.framer().state {
            ReadState::Error => {
                &&& r == Err::<Option<Header>, Error<T::Error>>(
                    Error::Protocol(ProtocolError::AlreadyInErrorState),
                )
                &&& *post == *pre
            },
            ReadState::Connecting => {
                if post.framer().state is Connecting {
                    &&& r == Ok::<Option<Header>, Error<T::Error>>(None)
                    &&& post.framer() == pre.framer()
                    &&& post.transport().sent() == pre.transport().sent()
                    &&& post.queued() == pre.queued()
                    &&& post.holds_early_writes() == pre.holds_early_writes()
                    &&& post.transport().consumed() == pre.transport().consumed()
                    &&& post.transport().ready() == pre.transport().ready()
                    &&& post.stalled()
                } else if r == Err::<Option<Header>, Error<T::Error>>(
                    Error::Protocol(ProtocolError::ConnectionRefused),
                ) {
                    &&& post.framer() == (Framer { state: ReadState::Error, ..pre.framer() })
                    &&& post.transport().sent() == pre.transport().sent()
                    &&& post.queued() == pre.queued()
                    &&& post.holds_early_writes() == pre.holds_early_writes()
                    &&& post.transport().consumed() == pre.transport().consumed()
                    &&& post.transport().ready() == pre.transport().ready()
                    &&& post.transport().link() == Status::Disconnected
                } else {
                    Self::follows(
                        pre,
                        post,
                        Framer { state: ReadState::Negotiating, ..pre.framer() },
                        hello(pre.framer().kind),
                        r,
                    )
                }
            },
            _ => Self::follows(pre, post, pre.framer(), Seq::empty(), r),
        }
    }

    /// Reading after the connection has been made, or after what was queued
    /// has been written, is reading.
    proof fn lemma_reads(
        pre: &Self,
        mid: &Self,
        post: &Self,
        r: Result<Option<Header>, Error<T::Error>>,
    )
        requires
            !(pre.state is Error),
            !(mid.state is Connecting),
            !(post.state is Connecting),
            mid.kind == pre.kind,
            mid.hold_early == pre.hold_early,
            mid.vchan.consumed() == pre.vchan.consumed(),
            mid.vchan.ready() >= pre.vchan.ready(),
            pre.state is Connecting ==> mid.framer() == (Framer {
                state: ReadState::Negotiating,
                ..pre.framer()
            }) && mid.vchan.sent() == pre.vchan.sent() + hello(pre.kind) && mid.queue@
                == pre.queue@,
            pre.state is Negotiating ==> mid.framer() == pre.framer() && mid.vchan.sent()
                == pre.vchan.sent() && mid.queue@ == pre.queue@,
            spec_is_live(pre.state) ==> mid.framer() == pre.framer() && mid.outbound()
                == pre.outbound(),
            Self::follows(mid, post, mid.framer(), Seq::empty(), r),
            outcome_of(r) is Some ==> Self::wrote_ahead(mid, post),
            r matches Err(Error::Protocol(e)) ==> e is BadLength || e is VersionMismatch,
        ensures
            Self::reads(pre, post, r),
    {
        if let Some(outcome) = outcome_of(r) {
            let taken = post.vchan.consumed().skip(mid.vchan.consumed().len() as int);
            let answer = run(mid.framer(), taken).reply;
            if pre.state is Connecting {
                assert(pre.vchan.sent() + hello(pre.kind) + answer + pre.queue@ =~= pre.vchan.sent()
                    + (hello(pre.kind) + answer) + pre.queue@);
            } else if pre.state is Negotiating {
                assert(pre.vchan.sent() + answer + pre.queue@ =~= pre.vchan.sent() + (Seq::<
                    u8,
                >::empty() + answer) + pre.queue@);
            } else {
                crate::framing::lemma_run_past_handshake(mid.framer(), taken);
                assert(mid.vchan.sent() + Seq::<u8>::empty() =~= mid.vchan.sent());
                assert(pre.vchan.sent() + (Seq::<u8>::empty() + Seq::<u8>::empty()) + pre.queue@
                    =~= pre.outbound());
            }
        }
    }

    /// An error is final: reading after an error fails with
    /// `AlreadyInErrorState` and changes nothing, and the stream stays in the
    /// error state.
    pub proof fn lemma_error_is_final(
        pre: &Self,
        post: &Self,
        r: Result<Option<Header>, Error<T::Error>>,
    )
        requires
            Self::reads(pre, post, r),
            pre.framer().state is Error,
        ensures
            r == Err::<Option<Header>, Error<T::Error>>(
                Error::Protocol(ProtocolError::AlreadyInErrorState),
            ),
            *post == *pre,
            post.framer().state is Error,
    {
    }

    /// Whatever reading fails with, the stream is in the error state
    /// afterwards.
    pub proof fn lemma_failure_is_error_state(
        pre: &Self,
        post: &Self,
        r: Result<Option<Header>, Error<T::Error>>,
    )
        requires
            Self::reads(pre, post, r),
            r is Err,
        ensures
            post.framer().state is Error,
    {
        if !(pre.framer().state is Error) && outcome_of(r) is Some {
            let entry = if pre.framer().state is Connecting {
                Framer { state: ReadState::Negotiating, ..pre.framer() }
            } else {
                pre.framer()
            };
            let taken = post.transport().consumed().skip(pre.transport().consumed().len() as int);
            crate::framing::lemma_run_failed(entry, taken);
        }
    }

    /// Nothing that the channel has reported as readable is lost: unless the
    /// channel fails, the count of readable bytes shrinks by no more than
    /// what reading has taken.
    pub proof fn lemma_nothing_lost(
        pre: &Self,
        post: &Self,
        r: Result<Option<Header>, Error<T::Error>>,
    )
        requires
            Self::reads(pre, post, r),
            !(r matches Err(Error::Transport(_))),
        ensures
            post.transport().consumed().len() >= pre.transport().consumed().len(),
            post.transport().consumed().take(pre.transport().consumed().len() as int)
                == pre.transport().consumed(),
            post.transport().ready() + post.transport().consumed().len()
                >= pre.transport().ready() + pre.transport().consumed().len(),
    {
        let before = pre.transport().consumed();
        let taken = post.transport().consumed().skip(before.len() as int);
        assert(before.take(before.len() as int) =~= before);
        assert((before + taken).take(before.len() as int) =~= before);
    }

    /// Reading sends nothing of its own once the handshake is done: what
    /// had been accepted for the peer is what is accepted afterwards, in the
    /// same order, and unless reading fails, messages can still be sent.
    pub proof fn lemma_read_keeps_outbound(
        pre: &Self,
        post: &Self,
        r: Result<Option<Header>, Error<T::Error>>,
    )
        requires
            Self::reads(pre, post, r),
            spec_is_live(pre.framer().state),
            r is Ok,
        ensures
            post.outbound() == pre.outbound(),
            spec_is_live(post.framer().state),
    {
        let taken = post.transport().consumed().skip(pre.transport().consumed().len() as int);
        crate::framing::lemma_run_past_handshake(pre.framer(), taken);
        assert(pre.transport().sent() + (Seq::<u8>::empty() + Seq::<u8>::empty()) + pre.queued()
            =~= pre.outbound());
    }

    fn read_message_internal(&mut self) -> (r: Result<Option<Header>, Error<T::Error>>)
        requires
            old(self).wf(),
        ensures
            final(self).wf(),
            final(self).framer().kind == old(self).framer().kind,
            Self::reads(old(self), final(self), r),
            r matches Ok(Some(header)) ==> header.valid() && final(self).framer().body.len()
                == header.spec_inner().untrusted_len,
    {
        match self.state {
            ReadState::Error => {
                return Err(Error::Protocol(ProtocolError::AlreadyInErrorState));
            },
            ReadState::Connecting => {
                match self.connect() {
                    Ok(true) => {},
                    Ok(false) => {
                        return Ok(None);
                    },
                    Err(e) => {
                        return Err(e);
                    },
                }
            },
            ReadState::Negotiating => {},
            _ => {
                match self.flush_pending_writes() {
                    Ok(_) => {},
                    Err(e) => {
                        self.state = ReadState::Error;
                        return Err(Error::Transport(e));
                    },
                }
            },
        }
        let ghost mid = *self;
        let r = self.advance();
        proof {
            Self::lemma_reads(old(self), &mid, self, r);
            if let Ok(Some(header)) = r {
                use_type_invariant(header);
            }
        }
        r
    }

    /// If a complete message has been buffered, returns `Ok(Some(msg))`.  If
    /// more data needs to arrive, returns `Ok(None)`.  If an error occurs,
    /// `Err` is returned, and the stream is placed in an error state.  If the
    /// stream is in an error state, all further reads fail and change
    /// nothing.
    ///
    /// What is queued for writing is written first, as far as the channel has
    /// room.  Then as much is read as the channel has, up to the first
    /// complete message.  A message that is returned has a validated header,
    /// and its body has exactly the length that the header gives.
    pub fn read_message<'a>(&'a mut self) -> (r: Result<Option<Buffer<'a>>, Error<T::Error>>)
        requires
            old(self).wf(),
        ensures
            final(self).wf(),
            final(self).framer().kind == old(self).framer().kind,
            Self::reads(old(self), final(self), headers(r)),
            r matches Ok(Some(message)) ==> {
                &&& message.spec_hdr().valid()
                &&& message.spec_body() == final(self).framer().body
                &&& message.spec_body().len() == message.spec_hdr().spec_inner().untrusted_len
                &&& final(self).framer().state == ReadState::ReadingHeader
            },
    {
        match self.read_message_internal() {
            Ok(Some(header)) => {
                proof {
                    Self::lemma_message_leaves_header(old(self), self, header);
                }
                Ok(Some(Buffer { hdr: header, inner: &self.buffer }))
            },
            Ok(None) => Ok(None),
            Err(e) => Err(e),
        }
    }

    /// After a message has been returned, the stream reads headers.
    proof fn lemma_message_leaves_header(pre: &Self, post: &Self, header: Header)
        requires
            Self::reads(pre, post, Ok(Some(header))),
        ensures
            post.framer().state == ReadState::ReadingHeader,
    {
        let entry = if pre.state is Connecting {
            Framer { state: ReadState::Negotiating, ..pre.framer() }
        } else {
            pre.framer()
        };
        let taken = post.transport().consumed().skip(pre.transport().consumed().len() as int);
        crate::framing::lemma_run_message(entry, taken);
    }

    /// Tears the channel down, opens it again and starts over: nothing is
    /// queued, no body is held, and the connection is to be made.  Only an
    /// agent can reconnect.
    ///
    /// # Errors
    ///
    /// A daemon gets `NotAnAgent`, and nothing changes.  If the channel
    /// cannot be opened again, its error is returned and the stream is in the
    /// error state.
    pub fn reconnect(&mut self) -> (r: Result<(), Error<T::Error>>)
        requires
            old(self).wf(),
        ensures
            final(self).wf(),
            match old(self).framer().kind {
                Kind::Daemon => {
                    &&& r == Err::<(), Error<T::Error>>(Error::Protocol(ProtocolError::NotAnAgent))
                    &&& *final(self) == *old(self)
                },
                Kind::Agent => match r {
                    Ok(()) => {
                        &&& final(self).framer() == (Framer {
                            state: ReadState::Connecting,
                            body: Seq::empty(),
                            ..old(self).framer()
                        })
                        &&& final(self).queued() == Seq::<u8>::empty()
                        &&& final(self).holds_early_writes() == old(self).holds_early_writes()
                        &&& final(self).transport().consumed() == Seq::<u8>::empty()
                        &&& final(self).transport().sent() == Seq::<u8>::empty()
                        &&& final(self).transport().link() != Status::Disconnected
                    },
                    Err(e) => {
                        &&& e is Transport
                        &&& final(self).framer() == (Framer {
                            state: ReadState::Error,
                            ..old(self).framer()
                        })
                        &&& final(self).queued() == old(self).queued()
                    },
                },
            },
    {
        match self.kind {
            Kind::Daemon => Err(Error::Protocol(ProtocolError::NotAnAgent)),
            Kind::Agent => match self.vchan.reopen() {
                Ok(()) => {
                    self.queue.clear();
                    self.buffer.clear();
                    self.state = ReadState::Connecting;
                    Ok(())
                },
                Err(e) => {
                    self.state = ReadState::Error;
                    Err(Error::Transport(e))
                },
            },
        }
    }
}

/// A message that has been read: its header, and its body for as long as the
/// stream is not used again.
#[derive(Debug)]
pub struct Buffer<'a> {
    inner: &'a Vec<u8>,
    hdr: Header,
}

impl<'a> Buffer<'a> {
    /// The header of the message.
    pub closed spec fn spec_hdr(&self) -> Header {
        self.hdr
    }

    /// The body of the message.
    pub closed spec fn spec_body(&self) -> Seq<u8> {
        self.inner@
    }

    /// Gets the header.
    #[verifier::when_used_as_spec(spec_hdr)]
    pub fn hdr(&self) -> (hdr: Header)
        ensures
            hdr == self.spec_hdr(),
            hdr.valid(),
    {
        proof {
            use_type_invariant(self.hdr);
        }
        self.hdr
    }

    /// Gets a reference to the body.
    pub fn body(&self) -> (body: &[u8])
        ensures
            body@ == self.spec_body(),
    {
        self.inner.as_slice()
    }

    /// Takes the body as a vector of its own.
    pub fn take(self) -> (body: Vec<u8>)
        ensures
            body@ == self.spec_body(),
    {
        self.inner.clone()
    }
}

/// The result of reading a message, with the header in place of the
/// message.
pub open spec fn headers<'a, E>(r: Result<Option<Buffer<'a>>, E>) -> Result<Option<Header>, E> {
    match r {
        Ok(Some(message)) => Ok(Some(message.spec_hdr())),
        Ok(None) => Ok(None),
        Err(e) => Err(e),
    }
}

/// How reading goes on after one step.
enum Flow<E> {
    /// With the next step; the channel still has this many bytes.
    Continue(usize),
    /// Not at all: this is the result.
    Done(Result<Option<Header>, Error<E>>),
}

} // verus!
