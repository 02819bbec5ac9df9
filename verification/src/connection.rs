//! The entry point of the library: a connection of an agent or a daemon.

use vstd::prelude::*;
use crate::framing::{Error, ReadState};
#[allow(unused_imports)]
use crate::framing::Framer;
use crate::header::{Header, UntrustedHeader, WindowID};
#[allow(unused_imports)]
use crate::header::length_allowed;
use crate::payload::{Message, XConf, XConfVersion};
use crate::stream::{Buffer, RawMessageStream};
#[allow(unused_imports)]
use crate::stream::spec_is_live;
use crate::transport::{Status, Transport};
use crate::wire::Wire;

verus! {

/// What reading has come to.
#[derive(Debug)]
pub enum Poll<V> {
    /// Reading is done, with this result.
    Ready(V),
    /// More data needs to arrive.
    Pending,
}

/// The result of reading a message, with the header in place of the message
/// and `Ok(None)` in place of `Pending`.
pub open spec fn polled<'a, E>(r: Poll<Result<Buffer<'a>, E>>) -> Result<Option<Header>, E> {
    match r {
        Poll::Ready(Ok(message)) => Ok(Some(message.spec_hdr())),
        Poll::Pending => Ok(None),
        Poll::Ready(Err(e)) => Err(e),
    }
}

/// The bytes of a message on the wire: the header, which gives the kind, the
/// window and the length of the body, and then the body.
pub open spec fn frame(ty: u32, window: WindowID, body: Seq<u8>) -> Seq<u8> {
    (UntrustedHeader { ty, window, untrusted_len: body.len() as u32 }).encoding() + body
}

/// A connection of an agent or a daemon over a channel of type `T`.
pub struct Connection<T: Transport> {
    raw: RawMessageStream<T>,
}

impl<T: Transport> Connection<T> {
    /// The stream of messages under the connection.
    pub closed spec fn stream(&self) -> &RawMessageStream<T> {
        &self.raw
    }

    /// What holds of a connection between any two operations.
    pub open spec fn wf(&self) -> bool {
        self.stream().wf()
    }

    /// Creates an agent instance over `transport`, which listens for the
    /// daemon.
    pub fn agent(transport: T) -> (connection: Self)
        requires
            transport.inv(),
        ensures
            connection.wf(),
            *connection.stream().transport() == transport,
            connection.stream().queued() == Seq::<u8>::empty(),
            !connection.stream().holds_early_writes(),
            connection.stream().framer() == (Framer {
                kind: crate::framing::Kind::Agent,
                state: ReadState::Connecting,
                body: Seq::empty(),
                xconf: crate::stream::unset(),
                reconnected: false,
            }),
    {
        Connection { raw: RawMessageStream::agent(transport) }
    }

    /// Creates a daemon instance over `transport`, which is connected to
    /// the agent, with the configuration of the root window.
    pub fn daemon(transport: T, xconf: XConf) -> (connection: Self)
        requires
            transport.inv(),
        ensures
            connection.wf(),
            *connection.stream().transport() == transport,
            connection.stream().queued() == Seq::<u8>::empty(),
            !connection.stream().holds_early_writes(),
            connection.stream().framer() == (Framer {
                kind: crate::framing::Kind::Daemon,
                state: ReadState::Negotiating,
                body: Seq::empty(),
                xconf: XConfVersion { version: crate::limits::PROTOCOL_VERSION, xconf },
                reconnected: false,
            }),
    {
        Connection { raw: RawMessageStream::daemon(transport, xconf) }
    }

    /// The stream of messages under the connection, for the owner to look
    /// at.
    pub fn raw(&self) -> (raw: &RawMessageStream<T>)
        ensures
            raw == self.stream(),
    {
        &self.raw
    }

    /// The stream of messages under the connection, for the owner to work
    /// on.
    pub fn raw_mut(&mut self) -> (raw: &mut RawMessageStream<T>)
        ensures
            *raw == *old(self).stream(),
            *final(self).stream() == *final(raw),
    {
        &mut self.raw
    }

    /// Send a GUI message.  This never blocks; outgoing messages are queued
    /// until there is space in the channel.  The message is written whole,
    /// header first, behind everything sent before.
    ///
    /// The length of the payload must be one that its kind allows.  After
    /// an error the message is dropped; until the handshake is done it is
    /// dropped as well, unless the connection holds early messages.
    pub fn send<M: Message>(&mut self, message: &M, window: WindowID) -> (r: Result<
        (),
        Error<T::Error>,
    >)
        requires
            old(self).wf(),
            M::spec_size() <= u32::MAX,
            length_allowed(M::spec_kind().spec_value(), M::spec_size() as u32),
        ensures
            final(self).wf(),
            Self::sends(
                old(self),
                final(self),
                frame(M::spec_kind().spec_value(), window, message.encoding()),
                r,
            ),
    {
        proof {
            M::lemma_encoding(message, message);
        }
        let body = crate::wire::as_bytes(message);
        self.send_raw(body.as_slice(), window, M::kind().value())
    }

    /// Whether the connection `post` and the result `r` are what sending
    /// `bytes` makes of the connection `pre`: what writing `bytes` makes of
    /// the stream under it.
    pub open spec fn sends(
        pre: &Self,
        post: &Self,
        bytes: Seq<u8>,
        r: Result<(), Error<T::Error>>,
    ) -> bool {
        RawMessageStream::writes(pre.stream(), post.stream(), bytes, r)
    }

    /// Messages leave in the order in which they were sent, whatever is
    /// read in between: if `first` is sent, then a message is read without
    /// failure, and then `second` is sent, all after the handshake, then what
    /// has been accepted for the peer has grown by `first` followed by
    /// `second`.
    pub proof fn lemma_sent_in_order(
        start: &Self,
        sent_first: &Self,
        read: &Self,
        sent_second: &Self,
        first: Seq<u8>,
        second: Seq<u8>,
        r: Result<Option<Header>, Error<T::Error>>,
    )
        requires
            spec_is_live(start.stream().framer().state),
            Self::sends(start, sent_first, first, Ok(())),
            RawMessageStream::reads(sent_first.stream(), read.stream(), r),
            r is Ok,
            Self::sends(read, sent_second, second, Ok(())),
        ensures
            sent_second.stream().outbound() == start.stream().outbound() + first + second,
    {
        RawMessageStream::lemma_read_keeps_outbound(sent_first.stream(), read.stream(), r);
    }

    /// Raw version of [`Connection::send`].  Using [`Connection::send`] is
    /// preferred where possible, as it automatically selects the correct
    /// message type.
    ///
    /// The length of `message` must be one that the kind `ty` allows.
    pub fn send_raw(&mut self, message: &[u8], window: WindowID, ty: u32) -> (r: Result<
        (),
        Error<T::Error>,
    >)
        requires
            old(self).wf(),
            message@.len() <= u32::MAX,
            length_allowed(ty, message@.len() as u32),
        ensures
            final(self).wf(),
            Self::sends(old(self), final(self), frame(ty, window, message@), r),
    {
        let untrusted_len = message.len() as u32;
        let header = UntrustedHeader { ty, window, untrusted_len };
        let head = crate::wire::as_bytes(&header);
        match self.raw.write(head.as_slice()) {
            Ok(()) => {},
            Err(e) => {
                return Err(e);
            },
        }
        let r = self.raw.write(message);
        proof {
            assert(old(self).raw.outbound() + head@ + message@ =~= old(self).raw.outbound() + (head@
                + message@));
            assert(old(self).raw.queued() + head@ + message@ =~= old(self).raw.queued() + (head@
                + message@));
        }
        r
    }

    /// Even rawer version of [`Connection::send`]: `msg` is written as it
    /// is.  Using [`Connection::send`] is preferred where possible, as it
    /// automatically selects the correct message type.  Otherwise, prefer
    /// [`Connection::send_raw`], which at least ensures correct framing.
    pub fn send_raw_bytes(&mut self, msg: &[u8]) -> (r: Result<(), Error<T::Error>>)
        requires
            old(self).wf(),
        ensures
            final(self).wf(),
            Self::sends(old(self), final(self), msg@, r),
    {
        self.raw.write(msg)
    }

    /// Tells the connection what to do with messages that are sent before
    /// the handshake is done: to queue them until it is done, or to drop
    /// them, as it does unless told otherwise.
    pub fn hold_early_messages(&mut self, hold: bool)
        ensures
            final(self).stream().holds_early_writes() == hold,
            final(self).stream().framer() == old(self).stream().framer(),
            final(self).stream().transport() == old(self).stream().transport(),
            final(self).stream().queued() == old(self).stream().queued(),
    {
        self.raw.hold_early_writes(hold)
    }

    /// Acknowledge an event (as reported by poll(2), epoll(2), or similar).
    /// Must be called before performing any I/O.  The connection waits for
    /// the channel, once, and does nothing else.  This is the one operation
    /// that may block.
    pub fn wait(&mut self)
        requires
            old(self).wf(),
        ensures
            final(self).wf(),
            final(self).stream().transport().waited() == old(self).stream().transport().waited()
                + 1,
            final(self).stream().transport().link() == old(self).stream().transport().link(),
            final(self).stream().holds_early_writes() == old(self).stream().holds_early_writes(),
            final(self).stream().framer() == old(self).stream().framer(),
            final(self).stream().queued() == old(self).stream().queued(),
            final(self).stream().transport().consumed() == old(
                self,
            ).stream().transport().consumed(),
            final(self).stream().transport().sent() == old(self).stream().transport().sent(),
            final(self).stream().transport().ready() >= old(self).stream().transport().ready(),
    {
        self.raw.wait()
    }

    /// If a complete message has been buffered, returns `Ready(Ok(msg))`.
    /// If more data needs to arrive, returns `Pending`.  If an error occurs,
    /// `Ready(Err)` is returned, and the connection is placed in an error
    /// state.  If the connection is in an error state, all further reads
    /// fail and change nothing.
    pub fn read_message<'a>(&'a mut self) -> (r: Poll<Result<Buffer<'a>, Error<T::Error>>>)
        requires
            old(self).wf(),
        ensures
            final(self).wf(),
            final(self).stream().framer().kind == old(self).stream().framer().kind,
            RawMessageStream::reads(old(self).stream(), final(self).stream(), polled(r)),
            r matches Poll::Ready(Ok(message)) ==> {
                &&& message.spec_hdr().valid()
                &&& message.spec_body() == final(self).stream().framer().body
                &&& message.spec_body().len() == message.spec_hdr().spec_inner().untrusted_len
                &&& final(self).stream().framer().state == ReadState::ReadingHeader
            },
    {
        match self.raw.read_message() {
            Ok(None) => Poll::Pending,
            Ok(Some(v)) => Poll::Ready(Ok(v)),
            Err(e) => Poll::Ready(Err(e)),
        }
    }

    /// Try to reconnect: the channel is torn down and opened again, and the
    /// connection starts over.  Only an agent can reconnect.  If this fails,
    /// the connection is in the error state.
    pub fn reconnect(&mut self) -> (r: Result<(), Error<T::Error>>)
        requires
            old(self).wf(),
        ensures
            final(self).wf(),
            match old(self).stream().framer().kind {
                crate::framing::Kind::Daemon => {
                    &&& r == Err::<(), Error<T::Error>>(
                        Error::Protocol(crate::framing::ProtocolError::NotAnAgent),
                    )
                    &&& *final(self) == *old(self)
                },
                crate::framing::Kind::Agent => match r {
                    Ok(()) => {
                        &&& final(self).stream().framer() == (Framer {
                            state: ReadState::Connecting,
                            body: Seq::empty(),
                            ..old(self).stream().framer()
                        })
                        &&& final(self).stream().queued() == Seq::<u8>::empty()
                        &&& final(self).stream().holds_early_writes() == old(
                            self,
                        ).stream().holds_early_writes()
                        &&& final(self).stream().transport().consumed() == Seq::<u8>::empty()
                        &&& final(self).stream().transport().sent() == Seq::<u8>::empty()
                        &&& final(self).stream().transport().link() != Status::Disconnected
                    },
                    Err(e) => {
                        &&& e is Transport
                        &&& final(self).stream().framer() == (Framer {
                            state: ReadState::Error,
                            ..old(self).stream().framer()
                        })
                        &&& final(self).stream().queued() == old(self).stream().queued()
                    },
                },
            },
    {
        self.raw.reconnect()
    }

    /// Gets and clears the “did_reconnect” flag: returns whether a
    /// handshake has succeeded since this was last asked.
    pub fn reconnected(&mut self) -> (did: bool)
        ensures
            did == old(self).stream().framer().reconnected,
            final(self).stream().framer() == (Framer {
                reconnected: false,
                ..old(self).stream().framer()
            }),
            final(self).stream().transport() == old(self).stream().transport(),
            final(self).stream().queued() == old(self).stream().queued(),
    {
        self.raw.reconnected()
    }

    /// Returns true if a reconnection is needed: the channel reports that
    /// the peer is gone.
    pub fn needs_reconnect(&mut self) -> (needed: bool)
        requires
            old(self).wf(),
        ensures
            final(self).wf(),
            needed == (final(self).stream().transport().link() == Status::Disconnected),
            final(self).stream().framer() == old(self).stream().framer(),
            final(self).stream().queued() == old(self).stream().queued(),
            final(self).stream().transport().consumed() == old(
                self,
            ).stream().transport().consumed(),
            final(self).stream().transport().sent() == old(self).stream().transport().sent(),
    {
        self.raw.needs_reconnect()
    }

    /// Get version information: the version and configuration that the
    /// handshake has settled.
    pub fn xconf(&self) -> (xconf: XConfVersion)
        ensures
            xconf == self.stream().framer().xconf,
    {
        self.raw.xconf()
    }
}

} // verus!
