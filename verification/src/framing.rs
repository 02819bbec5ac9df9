//! The rules of framing: what a stream of bytes from the peer means.
//!
//! A connection first negotiates the protocol version and then reads
//! messages, each a header followed by its body.  [`run`] states the rules
//! as a function from the state of the reader and the bytes that arrive to
//! the state afterwards and what the bytes amount to.  The functions that
//! decide a single step are here as well; the code that moves the bytes is
//! in [`crate::stream`].

use vstd::prelude::*;
use crate::header::{BadLengthError, Header, UntrustedHeader};
#[allow(unused_imports)]
use crate::header::{is_known, length_allowed};
use crate::limits::{MIN_VERSIONED_MINOR, PROTOCOL_VERSION_MAJOR, PROTOCOL_VERSION_MINOR};
use crate::payload::{XConf, XConfVersion};
use crate::wire::Wire;
#[allow(unused_imports)]
use crate::wire::{lemma_u32_bytes, u32_at};

verus! {

/// The kind of a state machine.
#[derive(Debug, Clone, Copy, PartialEq, Eq, Structural)]
pub enum Kind {
    /// An agent instance.
    Agent,
    /// A daemon instance.
    Daemon,
}

/// Protocol state.
#[derive(Debug, Clone, Copy, PartialEq, Eq, Structural)]
pub enum ReadState {
    /// Currently connecting.
    Connecting,
    /// Negotiating protocol version.
    Negotiating,
    /// Reading a message header.
    ReadingHeader,
    /// Reading a message body.
    ReadingBody {
        /// The header of the message.
        header: Header,
    },
    /// Discarding data from an unknown message; the number of bytes that are
    /// still to go.
    Discard(u32),
    /// Something went wrong.  Terminal state.
    Error,
}

/// What the peer or the caller did wrong.
#[derive(Debug, Clone, Copy, PartialEq, Eq, Structural)]
pub enum ProtocolError {
    /// The channel reported that the peer is gone while the connection was
    /// being made.
    ConnectionRefused,
    /// A message arrived with a length that its kind does not allow, or, at
    /// a daemon, with a kind that is not known.
    BadLength(BadLengthError),
    /// The peer speaks a version of the protocol that cannot be accepted.
    VersionMismatch {
        /// Major version of the peer.
        their_major: u32,
        /// Minor version of the peer.
        their_minor: u32,
        /// Major version of this side.
        our_major: u32,
        /// Minor version of this side.
        our_minor: u32,
    },
    /// The connection has failed before.
    AlreadyInErrorState,
    /// A daemon was asked to reconnect.
    NotAnAgent,
}

/// What a connection reports when an operation fails.
#[derive(Debug, PartialEq, Eq)]
pub enum Error<E> {
    /// The channel failed; its own error is inside.
    Transport(E),
    /// The peer or the caller broke the protocol.
    Protocol(ProtocolError),
}

/// The major part of a version as it stands on the wire.
pub open spec fn spec_major(version: u32) -> u32 {
    version / 65536
}

/// The minor part of a version as it stands on the wire.
pub open spec fn spec_minor(version: u32) -> u32 {
    version % 65536
}

/// The major part of a version as it stands on the wire.
#[verifier::when_used_as_spec(spec_major)]
pub fn major(version: u32) -> (part: u32)
    ensures
        part == spec_major(version),
{
    version / 65536
}

/// The minor part of a version as it stands on the wire.
#[verifier::when_used_as_spec(spec_minor)]
pub fn minor(version: u32) -> (part: u32)
    ensures
        part == spec_minor(version),
{
    version % 65536
}

/// The error that tells the peer's version from this side's.
pub open spec fn spec_mismatch(theirs: u32) -> ProtocolError {
    ProtocolError::VersionMismatch {
        their_major: spec_major(theirs),
        their_minor: spec_minor(theirs),
        our_major: PROTOCOL_VERSION_MAJOR,
        our_minor: PROTOCOL_VERSION_MINOR,
    }
}

/// What an agent makes of the version that the daemon offers: the major
/// versions must agree, and the minor version of the daemon must be one with
/// a versioned configuration and not newer than this side's.
pub open spec fn spec_agent_accepts(offered: u32) -> Result<(), ProtocolError> {
    if spec_major(offered) == PROTOCOL_VERSION_MAJOR && MIN_VERSIONED_MINOR <= spec_minor(offered)
        <= PROTOCOL_VERSION_MINOR {
        Ok(())
    } else {
        Err(spec_mismatch(offered))
    }
}

/// What an agent makes of the version that the daemon offers.
#[verifier::when_used_as_spec(spec_agent_accepts)]
pub fn agent_accepts(offered: u32) -> (r: Result<(), ProtocolError>)
    ensures
        r == spec_agent_accepts(offered),
{
    let (their_major, their_minor) = (major(offered), minor(offered));
    if their_major == PROTOCOL_VERSION_MAJOR && their_minor <= PROTOCOL_VERSION_MINOR
        && their_minor >= MIN_VERSIONED_MINOR {
        Ok(())
    } else {
        Err(
            ProtocolError::VersionMismatch {
                their_major,
                their_minor,
                our_major: PROTOCOL_VERSION_MAJOR,
                our_minor: PROTOCOL_VERSION_MINOR,
            },
        )
    }
}

/// What a daemon makes of the version that the agent sends: the major
/// versions must agree, and the minor version that is then spoken is the
/// older of the two.
pub open spec fn spec_daemon_accepts(sent: u32) -> Result<u32, ProtocolError> {
    if spec_major(sent) == PROTOCOL_VERSION_MAJOR {
        if spec_minor(sent) <= PROTOCOL_VERSION_MINOR {
            Ok(spec_minor(sent))
        } else {
            Ok(PROTOCOL_VERSION_MINOR)
        }
    } else {
        Err(spec_mismatch(sent))
    }
}

/// What a daemon makes of the version that the agent sends: the negotiated
/// minor version, or the error.
#[verifier::when_used_as_spec(spec_daemon_accepts)]
pub fn daemon_accepts(sent: u32) -> (r: Result<u32, ProtocolError>)
    ensures
        r == spec_daemon_accepts(sent),
{
    let (their_major, their_minor) = (major(sent), minor(sent));
    if their_major == PROTOCOL_VERSION_MAJOR {
        if their_minor <= PROTOCOL_VERSION_MINOR {
            Ok(their_minor)
        } else {
            Ok(PROTOCOL_VERSION_MINOR)
        }
    } else {
        Err(
            ProtocolError::VersionMismatch {
                their_major,
                their_minor,
                our_major: PROTOCOL_VERSION_MAJOR,
                our_minor: PROTOCOL_VERSION_MINOR,
            },
        )
    }
}

/// The bytes with which a daemon answers the agent, once the negotiated
/// minor version stands in `agreed.version`: the whole of `agreed` if that
/// version has a versioned configuration, and else the configuration alone.
pub open spec fn spec_daemon_reply(agreed: XConfVersion) -> Seq<u8> {
    if agreed.version >= MIN_VERSIONED_MINOR {
        agreed.encoding()
    } else {
        agreed.xconf.encoding()
    }
}

/// The bytes with which a daemon answers the agent.
pub fn daemon_reply(agreed: &XConfVersion) -> (reply: Vec<u8>)
    ensures
        reply@ == spec_daemon_reply(*agreed),
        reply@.len() <= XConfVersion::spec_size(),
{
    proof {
        XConfVersion::lemma_encoding(agreed, agreed);
        XConf::lemma_encoding(&agreed.xconf, &agreed.xconf);
    }
    if agreed.version >= MIN_VERSIONED_MINOR {
        crate::wire::as_bytes(agreed)
    } else {
        crate::wire::as_bytes(&agreed.xconf)
    }
}

/// The version and configuration whose byte image is the first twenty bytes
/// of `bytes`.
pub open spec fn xconf_decoding(bytes: Seq<u8>) -> XConfVersion {
    XConfVersion {
        version: u32_at(bytes, 0),
        xconf: XConf {
            size: crate::payload::WindowSize { width: u32_at(bytes, 4), height: u32_at(bytes, 8) },
            depth: u32_at(bytes, 12),
            mem: u32_at(bytes, 16),
        },
    }
}

/// Twenty bytes are the byte image of the version and configuration they
/// decode to, and of no other.
pub proof fn lemma_xconf_decoding(bytes: Seq<u8>, other: XConfVersion)
    requires
        bytes.len() == 20,
    ensures
        xconf_decoding(bytes).encoding() == bytes,
        other.encoding() == bytes ==> other == xconf_decoding(bytes),
{
    lemma_u32_bytes(0, bytes, 0);
    lemma_u32_bytes(0, bytes, 4);
    lemma_u32_bytes(0, bytes, 8);
    lemma_u32_bytes(0, bytes, 12);
    lemma_u32_bytes(0, bytes, 16);
    assert(xconf_decoding(bytes).encoding() =~= bytes);
    XConfVersion::lemma_encoding(&other, &xconf_decoding(bytes));
}

/// What is to be done once a header has arrived.
#[derive(Debug, Clone, Copy, PartialEq, Eq, Structural)]
pub enum HeaderStep {
    /// The message has no body: hand it to the caller at once.
    Deliver(Header),
    /// Read the body of the message.
    Body(Header),
    /// The kind is not known and there is no body: go on with the next
    /// header.
    Skip,
    /// The kind is not known: drop this many bytes, which is more than
    /// none.
    Discard(u32),
    /// The header is a protocol error.
    Reject(BadLengthError),
}

/// What is to be done once the header `header` has arrived.  A kind that is
/// not known is skipped by an agent, so that it can talk to a newer daemon,
/// and is an error at a daemon.
#[verifier::opaque]
pub open spec fn spec_on_header(kind: Kind, header: UntrustedHeader) -> HeaderStep {
    let bad = BadLengthError { ty: header.ty, untrusted_len: header.untrusted_len };
    if length_allowed(header.ty, header.untrusted_len) {
        if header.untrusted_len == 0 {
            HeaderStep::Deliver(Header::of(header))
        } else {
            HeaderStep::Body(Header::of(header))
        }
    } else if is_known(header.ty) {
        HeaderStep::Reject(bad)
    } else {
        match kind {
            Kind::Daemon => HeaderStep::Reject(bad),
            Kind::Agent => if header.untrusted_len == 0 {
                HeaderStep::Skip
            } else {
                HeaderStep::Discard(header.untrusted_len)
            },
        }
    }
}

/// What is to be done once the header `header` has arrived.
pub fn on_header(kind: Kind, header: &UntrustedHeader) -> (step: HeaderStep)
    ensures
        step == spec_on_header(kind, *header),
        step matches HeaderStep::Deliver(h) ==> h.valid() && h.spec_inner().untrusted_len == 0,
        step matches HeaderStep::Body(h) ==> h.valid() && h.spec_inner().untrusted_len > 0,
        step matches HeaderStep::Discard(n) ==> n > 0,
{
    reveal(spec_on_header);
    match header.validate_length() {
        Err(e) => HeaderStep::Reject(e),
        Ok(Some(valid)) => {
            proof {
                Header::lemma_of(*header, valid);
            }
            if valid.len() == 0 {
                HeaderStep::Deliver(valid)
            } else {
                HeaderStep::Body(valid)
            }
        },
        Ok(None) => match kind {
            Kind::Daemon => HeaderStep::Reject(
                BadLengthError { ty: header.ty, untrusted_len: header.untrusted_len },
            ),
            Kind::Agent => {
                if header.untrusted_len == 0 {
                    HeaderStep::Skip
                } else {
                    HeaderStep::Discard(header.untrusted_len)
                }
            },
        },
    }
}

/// The reader of a connection, as far as the rules of framing go.
pub struct Framer {
    /// Agent or daemon.
    pub kind: Kind,
    /// State of the reader.
    pub state: ReadState,
    /// The part of the current body that has arrived.
    pub body: Seq<u8>,
    /// The version and configuration that the handshake has settled.
    pub xconf: XConfVersion,
    /// Whether a handshake has succeeded since this was last asked.
    pub reconnected: bool,
}

/// What a stretch of bytes from the peer amounts to.
pub enum Outcome {
    /// More bytes are needed.
    Pending,
    /// A message is complete; its body is the `body` of the reader.
    Message(Header),
    /// The peer broke the protocol.
    Failed(ProtocolError),
}

/// The result of reading a stretch of bytes.
pub struct Run {
    /// The reader afterwards.
    pub end: Framer,
    /// How many of the bytes were taken.
    pub used: nat,
    /// The bytes that were sent to the peer in answer.
    pub reply: Seq<u8>,
    /// What the bytes amount to.
    pub outcome: Outcome,
}

/// The result of a reader that takes nothing and waits for more.
pub open spec fn idle(m: Framer) -> Run {
    Run { end: m, used: 0, reply: Seq::empty(), outcome: Outcome::Pending }
}

/// The result of a reader that took `used` bytes, answered `reply`, and then
/// went on to `rest`.
pub open spec fn then_run(used: nat, reply: Seq<u8>, rest: Run) -> Run {
    Run { end: rest.end, used: used + rest.used, reply: reply + rest.reply, outcome: rest.outcome }
}

/// The result of a reader that took `used` bytes and found them wrong.
pub open spec fn failed(m: Framer, used: nat, error: ProtocolError) -> Run {
    Run {
        end: Framer { state: ReadState::Error, body: Seq::empty(), ..m },
        used,
        reply: Seq::empty(),
        outcome: Outcome::Failed(error),
    }
}

/// The number that says how far a state is from reading headers; it makes
/// the definition of `run` well-founded.
pub open spec fn rank(state: ReadState) -> nat {
    match state {
        ReadState::Discard(_) => 1,
        _ => 0,
    }
}

/// What the reader `m` makes of the bytes `input`, read from the front up to
/// the first complete message, the first error, or the point where more
/// bytes are needed.
///
/// * While connecting, and after an error, nothing is read.
/// * While negotiating, an agent reads the version and configuration of the
///   daemon, twenty bytes, and accepts or fails; a daemon reads the version
///   of the agent, four bytes, and answers with the negotiated version and
///   its configuration, or fails.
/// * A header is read once its twelve bytes are there.  A message without a
///   body is complete at once.
/// * A body is read as it arrives, until it has the length that the header
///   gives.
/// * The body of a message of a kind that is not known is dropped as it
///   arrives.
#[verifier::opaque]
pub open spec fn run(m: Framer, input: Seq<u8>) -> Run
    decreases input.len(), rank(m.state),
{
    match m.state {
        ReadState::Connecting => idle(m),
        ReadState::Error => Run {
            end: m,
            used: 0,
            reply: Seq::empty(),
            outcome: Outcome::Failed(ProtocolError::AlreadyInErrorState),
        },
        ReadState::Negotiating => match m.kind {
            Kind::Agent => if input.len() < XConfVersion::spec_size() {
                idle(m)
            } else {
                let offer = xconf_decoding(input);
                match spec_agent_accepts(offer.version) {
                    Ok(()) => then_run(
                        20,
                        Seq::empty(),
                        run(
                            Framer {
                                state: ReadState::ReadingHeader,
                                body: Seq::empty(),
                                xconf: offer,
                                reconnected: true,
                                ..m
                            },
                            input.skip(20),
                        ),
                    ),
                    Err(e) => failed(m, 20, e),
                }
            },
            Kind::Daemon => if input.len() < 4 {
                idle(m)
            } else {
                match spec_daemon_accepts(u32_at(input, 0)) {
                    Ok(agreed) => {
                        let xconf = XConfVersion { version: agreed, xconf: m.xconf.xconf };
                        then_run(
                            4,
                            spec_daemon_reply(xconf),
                            run(
                                Framer {
                                    state: ReadState::ReadingHeader,
                                    body: Seq::empty(),
                                    xconf,
                                    ..m
                                },
                                input.skip(4),
                            ),
                        )
                    },
                    Err(e) => failed(m, 4, e),
                }
            },
        },
        ReadState::ReadingHeader => if input.len() < UntrustedHeader::spec_size() {
            idle(m)
        } else {
            let fresh = Framer { body: Seq::empty(), ..m };
            match spec_on_header(m.kind, UntrustedHeader::decoding(input)) {
                HeaderStep::Deliver(header) => Run {
                    end: fresh,
                    used: 12,
                    reply: Seq::empty(),
                    outcome: Outcome::Message(header),
                },
                HeaderStep::Body(header) => then_run(
                    12,
                    Seq::empty(),
                    run(
                        Framer { state: ReadState::ReadingBody { header }, ..fresh },
                        input.skip(12),
                    ),
                ),
                HeaderStep::Skip => then_run(12, Seq::empty(), run(fresh, input.skip(12))),
                HeaderStep::Discard(n) => then_run(
                    12,
                    Seq::empty(),
                    run(Framer { state: ReadState::Discard(n), ..fresh }, input.skip(12)),
                ),
                HeaderStep::Reject(e) => failed(m, 12, ProtocolError::BadLength(e)),
            }
        },
        ReadState::ReadingBody { header } => {
            let missing = header.spec_inner().untrusted_len - m.body.len();
            if input.len() >= missing {
                Run {
                    end: Framer {
                        state: ReadState::ReadingHeader,
                        body: m.body + input.take(missing),
                        ..m
                    },
                    used: missing as nat,
                    reply: Seq::empty(),
                    outcome: Outcome::Message(header),
                }
            } else {
                Run {
                    end: Framer { body: m.body + input, ..m },
                    used: input.len(),
                    reply: Seq::empty(),
                    outcome: Outcome::Pending,
                }
            }
        },
        ReadState::Discard(n) => if input.len() >= n {
            then_run(
                n as nat,
                Seq::empty(),
                run(Framer { state: ReadState::ReadingHeader, ..m }, input.skip(n as int)),
            )
        } else {
            Run {
                end: Framer { state: ReadState::Discard((n - input.len()) as u32), ..m },
                used: input.len(),
                reply: Seq::empty(),
                outcome: Outcome::Pending,
            }
        },
    }
}

/// Whether the reader `m` waits when there is nothing to read.
pub open spec fn waits(m: Framer) -> bool {
    match m.state {
        ReadState::Connecting | ReadState::Negotiating | ReadState::ReadingHeader => true,
        ReadState::ReadingBody { header } => m.body.len() < header.spec_inner().untrusted_len,
        ReadState::Discard(n) => n > 0,
        ReadState::Error => false,
    }
}

/// A reader that waits makes nothing of no bytes.
pub proof fn lemma_run_nothing(m: Framer)
    requires
        waits(m),
    ensures
        run(m, Seq::empty()) == idle(m),
{
    reveal(run);
    assert(m.body + Seq::<u8>::empty() =~= m.body);
}

/// What `lemma_run_extend` states of a reader and two stretches of bytes.
pub open spec fn extends(m: Framer, first: Seq<u8>, second: Seq<u8>) -> bool {
    run(m, first + second) == then_run(
        first.len(),
        run(m, first).reply,
        run(run(m, first).end, second),
    )
}

/// Bytes may arrive in any number of pieces: if the reader has taken all of
/// `first` and waits for more, then what it makes of `first` followed by
/// `second` is what it makes of `second` from where `first` has left it.
pub proof fn lemma_run_extend(m: Framer, first: Seq<u8>, second: Seq<u8>)
    requires
        run(m, first).outcome == Outcome::Pending,
        run(m, first).used == first.len(),
    ensures
        extends(m, first, second),
    decreases first.len(), rank(m.state), 1nat,
{
    reveal(run);
    if first.len() == 0 {
        lemma_extend_nothing(m, first, second);
    } else {
        match m.state {
            ReadState::Connecting | ReadState::Error => {},
            ReadState::Negotiating => match m.kind {
                Kind::Agent => lemma_extend_agent(m, first, second),
                Kind::Daemon => lemma_extend_daemon(m, first, second),
            },
            ReadState::ReadingHeader => lemma_extend_header(m, first, second),
            ReadState::ReadingBody { header } => lemma_extend_body(m, first, second),
            ReadState::Discard(n) => lemma_extend_discard(m, first, second),
        }
    }
}

proof fn lemma_extend_nothing(m: Framer, first: Seq<u8>, second: Seq<u8>)
    requires
        run(m, first).outcome == Outcome::Pending,
        run(m, first).used == first.len(),
        first.len() == 0,
    ensures
        extends(m, first, second),
{
    reveal(run);
    let whole = first + second;
    let split = then_run(first.len(), run(m, first).reply, run(run(m, first).end, second));
    assert(first =~= Seq::empty());
    assert(whole =~= second);
    if waits(m) {
        lemma_run_nothing(m);
    } else {
        match m.state {
            ReadState::Discard(n) => {
                assert(first.skip(0) =~= first);
                lemma_run_nothing(Framer { state: ReadState::ReadingHeader, ..m });
                assert(second.skip(0) =~= second);
            },
            _ => {},
        }
    }
    assert(split.reply =~= run(m, whole).reply);
    assert(split.end.body =~= run(m, whole).end.body);
}

proof fn lemma_extend_agent(m: Framer, first: Seq<u8>, second: Seq<u8>)
    requires
        run(m, first).outcome == Outcome::Pending,
        run(m, first).used == first.len(),
        first.len() > 0,
        m.state == ReadState::Negotiating,
        m.kind == Kind::Agent,
    ensures
        extends(m, first, second),
    decreases first.len(), rank(m.state), 0nat,
{
    reveal(run);
    let whole = first + second;
    let split = then_run(first.len(), run(m, first).reply, run(run(m, first).end, second));
    let offer = xconf_decoding(first);
    assert(xconf_decoding(whole) == offer);
    let next = Framer {
        state: ReadState::ReadingHeader,
        body: Seq::empty(),
        xconf: offer,
        reconnected: true,
        ..m
    };
    assert(whole.skip(20) =~= first.skip(20) + second);
    lemma_run_extend(next, first.skip(20), second);
    assert(split.reply =~= run(m, whole).reply);
}

proof fn lemma_extend_daemon(m: Framer, first: Seq<u8>, second: Seq<u8>)
    requires
        run(m, first).outcome == Outcome::Pending,
        run(m, first).used == first.len(),
        first.len() > 0,
        m.state == ReadState::Negotiating,
        m.kind == Kind::Daemon,
    ensures
        extends(m, first, second),
    decreases first.len(), rank(m.state), 0nat,
{
    reveal(run);
    let whole = first + second;
    let split = then_run(first.len(), run(m, first).reply, run(run(m, first).end, second));
    assert(u32_at(whole, 0) == u32_at(first, 0));
    let agreed = spec_daemon_accepts(u32_at(first, 0))->Ok_0;
    let xconf = XConfVersion { version: agreed, xconf: m.xconf.xconf };
    let next = Framer { state: ReadState::ReadingHeader, body: Seq::empty(), xconf, ..m };
    assert(whole.skip(4) =~= first.skip(4) + second);
    lemma_run_extend(next, first.skip(4), second);
    assert(split.reply =~= run(m, whole).reply);
}

proof fn lemma_extend_header(m: Framer, first: Seq<u8>, second: Seq<u8>)
    requires
        run(m, first).outcome == Outcome::Pending,
        run(m, first).used == first.len(),
        first.len() > 0,
        m.state == ReadState::ReadingHeader,
    ensures
        extends(m, first, second),
    decreases first.len(), rank(m.state), 0nat,
{
    reveal(run);
    let whole = first + second;
    let split = then_run(first.len(), run(m, first).reply, run(run(m, first).end, second));
    assert(UntrustedHeader::decoding(whole) == UntrustedHeader::decoding(first));
    assert(whole.skip(12) =~= first.skip(12) + second);
    let fresh = Framer { body: Seq::empty(), ..m };
    match spec_on_header(m.kind, UntrustedHeader::decoding(first)) {
        HeaderStep::Body(header) => {
            lemma_run_extend(
                Framer { state: ReadState::ReadingBody { header }, ..fresh },
                first.skip(12),
                second,
            );
        },
        HeaderStep::Skip => {
            lemma_run_extend(fresh, first.skip(12), second);
        },
        HeaderStep::Discard(n) => {
            lemma_run_extend(
                Framer { state: ReadState::Discard(n), ..fresh },
                first.skip(12),
                second,
            );
        },
        _ => {},
    }
    assert(split.reply =~= run(m, whole).reply);
}

proof fn lemma_extend_body(m: Framer, first: Seq<u8>, second: Seq<u8>)
    requires
        run(m, first).outcome == Outcome::Pending,
        run(m, first).used == first.len(),
        first.len() > 0,
        m.state is ReadingBody,
    ensures
        extends(m, first, second),
{
    reveal(run);
    let whole = first + second;
    let split = then_run(first.len(), run(m, first).reply, run(run(m, first).end, second));
    let missing = m.state->header.spec_inner().untrusted_len - m.body.len();
    if whole.len() >= missing {
        assert(m.body + whole.take(missing) =~= (m.body + first) + second.take(
            missing - first.len(),
        ));
    } else {
        assert(m.body + whole =~= (m.body + first) + second);
    }
    assert(split.reply =~= run(m, whole).reply);
}

proof fn lemma_extend_discard(m: Framer, first: Seq<u8>, second: Seq<u8>)
    requires
        run(m, first).outcome == Outcome::Pending,
        run(m, first).used == first.len(),
        first.len() > 0,
        m.state is Discard,
    ensures
        extends(m, first, second),
    decreases first.len(), rank(m.state), 0nat,
{
    reveal(run);
    let whole = first + second;
    let split = then_run(first.len(), run(m, first).reply, run(run(m, first).end, second));
    let n = m.state->Discard_0;
    if first.len() >= n {
        assert(whole.skip(n as int) =~= first.skip(n as int) + second);
        lemma_run_extend(
            Framer { state: ReadState::ReadingHeader, ..m },
            first.skip(n as int),
            second,
        );
    } else {
        let left = (n - first.len()) as u32;
        if second.len() >= left {
            assert(whole.skip(n as int) =~= second.skip(left as int));
        }
    }
    assert(split.reply =~= run(m, whole).reply);
}

/// What an agent makes of the twenty bytes that the daemon sends first.
pub proof fn lemma_agent_step(m: Framer, piece: Seq<u8>)
    requires
        m.state == ReadState::Negotiating,
        m.kind == Kind::Agent,
        piece.len() == 20,
    ensures
        run(m, piece) == match spec_agent_accepts(xconf_decoding(piece).version) {
            Ok(()) => Run {
                end: Framer {
                    state: ReadState::ReadingHeader,
                    body: Seq::empty(),
                    xconf: xconf_decoding(piece),
                    reconnected: true,
                    ..m
                },
                used: 20,
                reply: Seq::empty(),
                outcome: Outcome::Pending,
            },
            Err(e) => failed(m, 20, e),
        },
{
    reveal(run);
    let next = Framer {
        state: ReadState::ReadingHeader,
        body: Seq::empty(),
        xconf: xconf_decoding(piece),
        reconnected: true,
        ..m
    };
    assert(piece.skip(20) =~= Seq::empty());
    lemma_run_nothing(next);
    assert(Seq::<u8>::empty() + Seq::<u8>::empty() =~= Seq::<u8>::empty());
}

/// What a daemon makes of the four bytes that the agent sends first.
pub proof fn lemma_daemon_step(m: Framer, piece: Seq<u8>)
    requires
        m.state == ReadState::Negotiating,
        m.kind == Kind::Daemon,
        piece.len() == 4,
    ensures
        run(m, piece) == match spec_daemon_accepts(u32_at(piece, 0)) {
            Ok(agreed) => Run {
                end: Framer {
                    state: ReadState::ReadingHeader,
                    body: Seq::empty(),
                    xconf: XConfVersion { version: agreed, xconf: m.xconf.xconf },
                    ..m
                },
                used: 4,
                reply: spec_daemon_reply(XConfVersion { version: agreed, xconf: m.xconf.xconf }),
                outcome: Outcome::Pending,
            },
            Err(e) => failed(m, 4, e),
        },
{
    reveal(run);
    if let Ok(agreed) = spec_daemon_accepts(u32_at(piece, 0)) {
        let xconf = XConfVersion { version: agreed, xconf: m.xconf.xconf };
        let next = Framer { state: ReadState::ReadingHeader, body: Seq::empty(), xconf, ..m };
        assert(piece.skip(4) =~= Seq::empty());
        lemma_run_nothing(next);
        assert(spec_daemon_reply(xconf) + Seq::<u8>::empty() =~= spec_daemon_reply(xconf));
    }
}

/// What a reader makes of the twelve bytes of a header.
pub proof fn lemma_header_step(m: Framer, piece: Seq<u8>)
    requires
        m.state == ReadState::ReadingHeader,
        piece.len() == 12,
    ensures
        run(m, piece) == match spec_on_header(m.kind, UntrustedHeader::decoding(piece)) {
            HeaderStep::Deliver(header) => Run {
                end: Framer { body: Seq::empty(), ..m },
                used: 12,
                reply: Seq::empty(),
                outcome: Outcome::Message(header),
            },
            HeaderStep::Body(header) => Run {
                end: Framer { state: ReadState::ReadingBody { header }, body: Seq::empty(), ..m },
                used: 12,
                reply: Seq::empty(),
                outcome: Outcome::Pending,
            },
            HeaderStep::Skip => Run {
                end: Framer { body: Seq::empty(), ..m },
                used: 12,
                reply: Seq::empty(),
                outcome: Outcome::Pending,
            },
            HeaderStep::Discard(n) => Run {
                end: Framer { state: ReadState::Discard(n), body: Seq::empty(), ..m },
                used: 12,
                reply: Seq::empty(),
                outcome: Outcome::Pending,
            },
            HeaderStep::Reject(e) => failed(m, 12, ProtocolError::BadLength(e)),
        },
        spec_on_header(m.kind, UntrustedHeader::decoding(piece)) matches HeaderStep::Body(header)
            ==> header.spec_inner().untrusted_len > 0,
        spec_on_header(m.kind, UntrustedHeader::decoding(piece)) matches HeaderStep::Discard(n)
            ==> n > 0,
{
    reveal(run);
    reveal(spec_on_header);
    let fresh = Framer { body: Seq::empty(), ..m };
    assert(piece.skip(12) =~= Seq::empty());
    assert(Seq::<u8>::empty() + Seq::<u8>::empty() =~= Seq::<u8>::empty());
    match spec_on_header(m.kind, UntrustedHeader::decoding(piece)) {
        HeaderStep::Body(header) => {
            Header::lemma_of(UntrustedHeader::decoding(piece), header);
            lemma_run_nothing(Framer { state: ReadState::ReadingBody { header }, ..fresh });
        },
        HeaderStep::Skip => {
            lemma_run_nothing(fresh);
        },
        HeaderStep::Discard(n) => {
            lemma_run_nothing(Framer { state: ReadState::Discard(n), ..fresh });
        },
        _ => {},
    }
}

/// What a reader makes of a piece of a body that is no longer than what is
/// missing.
pub proof fn lemma_body_step(m: Framer, piece: Seq<u8>)
    requires
        m.state is ReadingBody,
        m.body.len() + piece.len() <= m.state->header.spec_inner().untrusted_len,
    ensures
        run(m, piece) == (Run {
            end: Framer {
                state: if m.body.len() + piece.len() == m.state->header.spec_inner().untrusted_len {
                    ReadState::ReadingHeader
                } else {
                    m.state
                },
                body: m.body + piece,
                ..m
            },
            used: piece.len(),
            reply: Seq::empty(),
            outcome: if m.body.len() + piece.len() == m.state->header.spec_inner().untrusted_len {
                Outcome::Message(m.state->header)
            } else {
                Outcome::Pending
            },
        }),
{
    reveal(run);
    let missing = m.state->header.spec_inner().untrusted_len - m.body.len();
    if piece.len() >= missing {
        assert(piece.take(missing) =~= piece);
    }
}

/// What a reader makes of a piece that is dropped and is no longer than
/// what is still to be dropped.
pub proof fn lemma_discard_step(m: Framer, piece: Seq<u8>)
    requires
        m.state is Discard,
        piece.len() <= m.state->Discard_0,
        m.state->Discard_0 > 0,
    ensures
        run(m, piece) == (Run {
            end: Framer {
                state: if piece.len() == m.state->Discard_0 {
                    ReadState::ReadingHeader
                } else {
                    ReadState::Discard((m.state->Discard_0 - piece.len()) as u32)
                },
                ..m
            },
            used: piece.len(),
            reply: Seq::empty(),
            outcome: Outcome::Pending,
        }),
{
    reveal(run);
    let n = m.state->Discard_0;
    if piece.len() >= n {
        assert(piece.skip(n as int) =~= Seq::empty());
        lemma_run_nothing(Framer { state: ReadState::ReadingHeader, ..m });
        assert(Seq::<u8>::empty() + Seq::<u8>::empty() =~= Seq::<u8>::empty());
    }
}

/// Reading never changes the role, and a reader that has completed a
/// message reads headers next.
pub proof fn lemma_run_message(m: Framer, input: Seq<u8>)
    ensures
        run(m, input).end.kind == m.kind,
        run(m, input).outcome is Message ==> run(m, input).end.state == ReadState::ReadingHeader,
    decreases input.len(), rank(m.state),
{
    reveal(run);
    match m.state {
        ReadState::Connecting | ReadState::Error | ReadState::ReadingBody { .. } => {},
        ReadState::Negotiating => match m.kind {
            Kind::Agent => {
                if input.len() >= 20 {
                    if spec_agent_accepts(xconf_decoding(input).version) is Ok {
                        lemma_run_message(
                            Framer {
                                state: ReadState::ReadingHeader,
                                body: Seq::empty(),
                                xconf: xconf_decoding(input),
                                reconnected: true,
                                ..m
                            },
                            input.skip(20),
                        );
                    }
                }
            },
            Kind::Daemon => {
                if input.len() >= 4 {
                    if let Ok(agreed) = spec_daemon_accepts(u32_at(input, 0)) {
                        lemma_run_message(
                            Framer {
                                state: ReadState::ReadingHeader,
                                body: Seq::empty(),
                                xconf: XConfVersion { version: agreed, xconf: m.xconf.xconf },
                                ..m
                            },
                            input.skip(4),
                        );
                    }
                }
            },
        },
        ReadState::ReadingHeader => {
            if input.len() >= 12 {
                let fresh = Framer { body: Seq::empty(), ..m };
                match spec_on_header(m.kind, UntrustedHeader::decoding(input)) {
                    HeaderStep::Body(header) => {
                        lemma_run_message(
                            Framer { state: ReadState::ReadingBody { header }, ..fresh },
                            input.skip(12),
                        );
                    },
                    HeaderStep::Skip => {
                        lemma_run_message(fresh, input.skip(12));
                    },
                    HeaderStep::Discard(n) => {
                        lemma_run_message(
                            Framer { state: ReadState::Discard(n), ..fresh },
                            input.skip(12),
                        );
                    },
                    _ => {},
                }
            }
        },
        ReadState::Discard(n) => {
            if input.len() >= n {
                lemma_run_message(
                    Framer { state: ReadState::ReadingHeader, ..m },
                    input.skip(n as int),
                );
            }
        },
    }
}

/// Whether the handshake is done and nothing has failed in the state
/// `state`.
pub open spec fn past_handshake(state: ReadState) -> bool {
    state is ReadingHeader || state is ReadingBody || state is Discard
}

/// Once the handshake is done, reading answers nothing to the peer and
/// leaves the configuration and the reconnect flag alone; and unless the
/// peer breaks the protocol, the handshake stays done.
pub proof fn lemma_run_past_handshake(m: Framer, input: Seq<u8>)
    requires
        past_handshake(m.state),
    ensures
        run(m, input).reply == Seq::<u8>::empty(),
        run(m, input).end.xconf == m.xconf,
        run(m, input).end.reconnected == m.reconnected,
        run(m, input).outcome is Failed || past_handshake(run(m, input).end.state),
        run(m, input).outcome is Failed ==> run(m, input).end.state is Error,
    decreases input.len(), rank(m.state),
{
    reveal(run);
    assert(Seq::<u8>::empty() + Seq::<u8>::empty() =~= Seq::<u8>::empty());
    match m.state {
        ReadState::ReadingHeader => {
            if input.len() >= 12 {
                let fresh = Framer { body: Seq::empty(), ..m };
                match spec_on_header(m.kind, UntrustedHeader::decoding(input)) {
                    HeaderStep::Body(header) => {
                        lemma_run_past_handshake(
                            Framer { state: ReadState::ReadingBody { header }, ..fresh },
                            input.skip(12),
                        );
                    },
                    HeaderStep::Skip => {
                        lemma_run_past_handshake(fresh, input.skip(12));
                    },
                    HeaderStep::Discard(n) => {
                        lemma_run_past_handshake(
                            Framer { state: ReadState::Discard(n), ..fresh },
                            input.skip(12),
                        );
                    },
                    _ => {},
                }
            }
        },
        ReadState::Discard(n) => {
            if input.len() >= n {
                lemma_run_past_handshake(
                    Framer { state: ReadState::ReadingHeader, ..m },
                    input.skip(n as int),
                );
            }
        },
        _ => {},
    }
}

/// A reader that has found the peer wrong is in the error state.
pub proof fn lemma_run_failed(m: Framer, input: Seq<u8>)
    requires
        !(m.state is Error),
    ensures
        run(m, input).outcome is Failed ==> run(m, input).end.state is Error,
    decreases input.len(), rank(m.state),
{
    reveal(run);
    match m.state {
        ReadState::Connecting | ReadState::Error | ReadState::ReadingBody { .. } => {},
        ReadState::Negotiating => match m.kind {
            Kind::Agent => {
                if input.len() >= 20 && spec_agent_accepts(xconf_decoding(input).version) is Ok {
                    lemma_run_past_handshake(
                        Framer {
                            state: ReadState::ReadingHeader,
                            body: Seq::empty(),
                            xconf: xconf_decoding(input),
                            reconnected: true,
                            ..m
                        },
                        input.skip(20),
                    );
                }
            },
            Kind::Daemon => {
                if input.len() >= 4 {
                    if let Ok(agreed) = spec_daemon_accepts(u32_at(input, 0)) {
                        lemma_run_past_handshake(
                            Framer {
                                state: ReadState::ReadingHeader,
                                body: Seq::empty(),
                                xconf: XConfVersion { version: agreed, xconf: m.xconf.xconf },
                                ..m
                            },
                            input.skip(4),
                        );
                    }
                }
            },
        },
        _ => {
            lemma_run_past_handshake(m, input);
        },
    }
}

} // verus!
