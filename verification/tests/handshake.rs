use qubes_gui_connection::connection::{Connection, Poll};
use qubes_gui_connection::framing::{
    agent_accepts, daemon_accepts, daemon_reply, major, minor, Error, Kind, ProtocolError,
    ReadState,
};
use qubes_gui_connection::memory::{ChannelBroken, MemoryChannel};
use qubes_gui_connection::payload::{WindowSize, XConf, XConfVersion};
use qubes_gui_connection::stream::RawMessageStream;
use qubes_gui_connection::transport::Status;

const OFFER: [u8; 20] = [7, 0, 1, 0, 0, 4, 0, 0, 0, 3, 0, 0, 32, 0, 0, 0, 0, 0, 0x30, 0];

fn root() -> XConf {
    XConf { size: WindowSize { width: 1024, height: 768 }, depth: 32, mem: 3145728 }
}

fn mismatch(their_major: u32, their_minor: u32) -> ProtocolError {
    ProtocolError::VersionMismatch { their_major, their_minor, our_major: 1, our_minor: 7 }
}

#[test]
fn agent_handshake_happy_path() {
    let mut agent = Connection::agent(MemoryChannel::new(Status::Waiting, 4096));
    assert!(matches!(agent.read_message(), Poll::Pending));
    assert_eq!(agent.raw().state(), ReadState::Connecting);
    assert!(agent.raw().transport_ref().written().is_empty());

    agent.raw_mut().transport_mut().set_status(Status::Connected);
    agent.wait();
    assert!(matches!(agent.read_message(), Poll::Pending));
    assert_eq!(agent.raw().transport_ref().written(), &vec![0x07, 0x00, 0x01, 0x00]);
    assert_eq!(agent.raw().state(), ReadState::Negotiating);
    assert!(!agent.reconnected());

    assert_eq!(agent.raw_mut().transport_mut().feed(&OFFER), 20);
    assert!(matches!(agent.read_message(), Poll::Pending));
    assert_eq!(agent.raw().state(), ReadState::ReadingHeader);
    assert!(agent.reconnected());
    assert!(!agent.reconnected());
    assert_eq!(agent.xconf(), XConfVersion { version: 0x0001_0007, xconf: root() });
    assert_eq!(agent.raw().transport_ref().written().len(), 4);
}

#[test]
fn agent_waits_for_the_whole_offer() {
    let mut agent = Connection::agent(MemoryChannel::new(Status::Connected, 4096));
    assert!(matches!(agent.read_message(), Poll::Pending));
    agent.raw_mut().transport_mut().feed(&OFFER[..19]);
    assert!(matches!(agent.read_message(), Poll::Pending));
    assert_eq!(agent.raw().state(), ReadState::Negotiating);
    agent.raw_mut().transport_mut().feed(&OFFER[19..]);
    assert!(matches!(agent.read_message(), Poll::Pending));
    assert_eq!(agent.raw().state(), ReadState::ReadingHeader);
}

#[test]
fn agent_waits_for_room_to_send_its_version() {
    let mut agent = Connection::agent(MemoryChannel::new(Status::Connected, 3));
    assert!(matches!(agent.read_message(), Poll::Pending));
    assert_eq!(agent.raw().state(), ReadState::Connecting);
    assert!(agent.raw().transport_ref().written().is_empty());
    agent.raw_mut().transport_mut().set_room(4);
    assert!(matches!(agent.read_message(), Poll::Pending));
    assert_eq!(agent.raw().state(), ReadState::Negotiating);
    assert_eq!(agent.raw().transport_ref().written(), &vec![7, 0, 1, 0]);
}

#[test]
fn agent_is_refused_when_the_peer_is_gone() {
    let mut agent = Connection::agent(MemoryChannel::new(Status::Disconnected, 4096));
    assert!(agent.needs_reconnect());
    match agent.read_message() {
        Poll::Ready(Err(e)) => assert_eq!(e, Error::Protocol(ProtocolError::ConnectionRefused)),
        _ => panic!("the connection was not refused"),
    }
    assert_eq!(agent.raw().state(), ReadState::Error);
}

fn agent_offered(version: u32) -> Connection<MemoryChannel> {
    let mut agent = Connection::agent(MemoryChannel::new(Status::Connected, 4096));
    assert!(matches!(agent.read_message(), Poll::Pending));
    let mut offer = OFFER;
    offer[..4].copy_from_slice(&version.to_le_bytes());
    agent.raw_mut().transport_mut().feed(&offer);
    agent
}

#[test]
fn agent_accepts_minor_versions_four_to_seven() {
    for minor in 4..=7u32 {
        let mut agent = agent_offered(0x0001_0000 | minor);
        assert!(matches!(agent.read_message(), Poll::Pending));
        assert_eq!(agent.raw().state(), ReadState::ReadingHeader);
        assert_eq!(agent.xconf().version, 0x0001_0000 | minor);
        assert!(agent.reconnected());
    }
}

#[test]
fn agent_rejects_other_versions() {
    for (version, their_major, their_minor) in
        [(0x0001_0003, 1, 3), (0x0001_0008, 1, 8), (0x0002_0007, 2, 7), (7, 0, 7)]
    {
        let mut agent = agent_offered(version);
        match agent.read_message() {
            Poll::Ready(Err(e)) => {
                assert_eq!(e, Error::Protocol(mismatch(their_major, their_minor)))
            },
            _ => panic!("version {:#x} was not rejected", version),
        }
        assert_eq!(agent.raw().state(), ReadState::Error);
        assert!(!agent.reconnected());
        assert_eq!(agent.xconf().version, 0);
    }
}

#[test]
fn version_decisions() {
    assert_eq!(major(0x0001_0007), 1);
    assert_eq!(minor(0x0001_0007), 7);
    assert_eq!(major(0xffff_0001), 0xffff);
    assert_eq!(minor(0x0000_ffff), 0xffff);
    assert_eq!(agent_accepts(0x0001_0007), Ok(()));
    assert_eq!(agent_accepts(0x0001_0004), Ok(()));
    assert_eq!(agent_accepts(0x0001_0003), Err(mismatch(1, 3)));
    assert_eq!(agent_accepts(0x0001_0008), Err(mismatch(1, 8)));
    assert_eq!(agent_accepts(0x0000_0007), Err(mismatch(0, 7)));
    assert_eq!(daemon_accepts(0x0001_0007), Ok(7));
    assert_eq!(daemon_accepts(0x0001_0009), Ok(7));
    assert_eq!(daemon_accepts(0x0001_0002), Ok(2));
    assert_eq!(daemon_accepts(0x0001_0000), Ok(0));
    assert_eq!(daemon_accepts(0x0002_0007), Err(mismatch(2, 7)));
}

#[test]
fn daemon_reply_depends_on_the_version() {
    let full = daemon_reply(&XConfVersion { version: 4, xconf: root() });
    assert_eq!(full, vec![4, 0, 0, 0, 0, 4, 0, 0, 0, 3, 0, 0, 32, 0, 0, 0, 0, 0, 0x30, 0]);
    let legacy = daemon_reply(&XConfVersion { version: 3, xconf: root() });
    assert_eq!(legacy, vec![0, 4, 0, 0, 0, 3, 0, 0, 32, 0, 0, 0, 0, 0, 0x30, 0]);
}

#[test]
fn daemon_handshake_answers_with_the_negotiated_version() {
    let mut daemon = Connection::daemon(MemoryChannel::new(Status::Connected, 4096), root());
    assert_eq!(daemon.raw().kind(), Kind::Daemon);
    assert_eq!(daemon.raw().state(), ReadState::Negotiating);
    assert_eq!(daemon.xconf(), XConfVersion { version: 0x0001_0007, xconf: root() });
    assert!(matches!(daemon.read_message(), Poll::Pending));
    daemon.raw_mut().transport_mut().feed(&[5, 0, 1, 0]);
    assert!(matches!(daemon.read_message(), Poll::Pending));
    assert_eq!(daemon.raw().state(), ReadState::ReadingHeader);
    assert_eq!(daemon.xconf(), XConfVersion { version: 5, xconf: root() });
    assert_eq!(
        daemon.raw().transport_ref().written(),
        &vec![5, 0, 0, 0, 0, 4, 0, 0, 0, 3, 0, 0, 32, 0, 0, 0, 0, 0, 0x30, 0]
    );
    assert!(!daemon.reconnected());
}

#[test]
fn daemon_caps_the_version_at_its_own() {
    let mut daemon = Connection::daemon(MemoryChannel::new(Status::Connected, 4096), root());
    daemon.raw_mut().transport_mut().feed(&[9, 0, 1, 0]);
    assert!(matches!(daemon.read_message(), Poll::Pending));
    assert_eq!(daemon.xconf().version, 7);
    assert_eq!(daemon.raw().transport_ref().written()[..4], [7, 0, 0, 0]);
}

#[test]
fn daemon_sends_the_legacy_configuration_to_old_agents() {
    let mut daemon = Connection::daemon(MemoryChannel::new(Status::Connected, 4096), root());
    daemon.raw_mut().transport_mut().feed(&[3, 0, 1, 0]);
    assert!(matches!(daemon.read_message(), Poll::Pending));
    assert_eq!(daemon.xconf().version, 3);
    assert_eq!(
        daemon.raw().transport_ref().written(),
        &vec![0, 4, 0, 0, 0, 3, 0, 0, 32, 0, 0, 0, 0, 0, 0x30, 0]
    );
}

#[test]
fn daemon_rejects_another_major_version() {
    let mut daemon = Connection::daemon(MemoryChannel::new(Status::Connected, 4096), root());
    daemon.raw_mut().transport_mut().feed(&[7, 0, 2, 0]);
    match daemon.read_message() {
        Poll::Ready(Err(e)) => assert_eq!(e, Error::Protocol(mismatch(2, 7))),
        _ => panic!("the version was not rejected"),
    }
    assert_eq!(daemon.raw().state(), ReadState::Error);
    assert!(daemon.raw().transport_ref().written().is_empty());
}

#[test]
fn daemon_waits_for_room_for_its_answer() {
    let mut daemon = Connection::daemon(MemoryChannel::new(Status::Connected, 19), root());
    daemon.raw_mut().transport_mut().feed(&[7, 0, 1, 0]);
    assert!(matches!(daemon.read_message(), Poll::Pending));
    assert_eq!(daemon.raw().state(), ReadState::Negotiating);
    assert!(daemon.raw().transport_ref().written().is_empty());
    daemon.raw_mut().transport_mut().set_room(20);
    assert!(matches!(daemon.read_message(), Poll::Pending));
    assert_eq!(daemon.raw().state(), ReadState::ReadingHeader);
    assert_eq!(daemon.raw().transport_ref().written().len(), 20);
}

#[test]
fn reconnect_clears_state() {
    let mut agent = Connection::agent(MemoryChannel::new(Status::Connected, 4096));
    assert!(matches!(agent.read_message(), Poll::Pending));
    agent.raw_mut().transport_mut().feed(&OFFER);
    assert!(matches!(agent.read_message(), Poll::Pending));
    assert!(agent.reconnected());
    // A keypress with a bad length.
    agent.raw_mut().transport_mut().feed(&[124, 0, 0, 0, 1, 0, 0, 0, 19, 0, 0, 0]);
    assert!(matches!(agent.read_message(), Poll::Ready(Err(_))));
    assert_eq!(agent.raw().state(), ReadState::Error);

    assert_eq!(agent.reconnect(), Ok(()));
    assert_eq!(agent.raw().state(), ReadState::Connecting);
    assert_eq!(agent.raw().pending_writes(), 0);
    assert!(!agent.needs_reconnect());
    assert!(!agent.reconnected());

    assert!(matches!(agent.read_message(), Poll::Pending));
    assert_eq!(agent.raw().state(), ReadState::Connecting);
    agent.raw_mut().transport_mut().set_status(Status::Connected);
    assert!(matches!(agent.read_message(), Poll::Pending));
    assert_eq!(agent.raw().transport_ref().written(), &vec![7, 0, 1, 0]);
    agent.raw_mut().transport_mut().feed(&OFFER);
    assert!(matches!(agent.read_message(), Poll::Pending));
    assert_eq!(agent.raw().state(), ReadState::ReadingHeader);
    assert!(agent.reconnected());
    assert!(!agent.reconnected());
}

#[test]
fn reconnect_drops_what_was_queued() {
    let mut agent = Connection::agent(MemoryChannel::new(Status::Connected, 4));
    assert!(matches!(agent.read_message(), Poll::Pending));
    agent.raw_mut().transport_mut().feed(&OFFER);
    assert!(matches!(agent.read_message(), Poll::Pending));
    assert_eq!(agent.send_raw_bytes(&[1, 2, 3]), Ok(()));
    assert_eq!(agent.raw().pending_writes(), 3);
    assert_eq!(agent.reconnect(), Ok(()));
    assert_eq!(agent.raw().pending_writes(), 0);
    assert!(agent.raw().transport_ref().written().is_empty());
}

#[test]
fn daemons_do_not_reconnect() {
    let mut daemon = Connection::daemon(MemoryChannel::new(Status::Connected, 4096), root());
    assert_eq!(daemon.reconnect(), Err(Error::Protocol(ProtocolError::NotAnAgent)));
    assert_eq!(daemon.raw().state(), ReadState::Negotiating);
}

#[test]
fn failed_reconnect_is_an_error_state() {
    let mut agent = Connection::agent(MemoryChannel::new(Status::Connected, 4096));
    agent.raw_mut().transport_mut().set_broken(true);
    assert_eq!(agent.reconnect(), Err(Error::Transport(ChannelBroken)));
    assert_eq!(agent.raw().state(), ReadState::Error);
    assert!(agent.needs_reconnect());
    match agent.read_message() {
        Poll::Ready(Err(e)) => assert_eq!(e, Error::Protocol(ProtocolError::AlreadyInErrorState)),
        _ => panic!("reading went on after an error"),
    }
}

#[test]
fn streams_start_in_their_roles() {
    let agent = RawMessageStream::agent(MemoryChannel::new(Status::Waiting, 0));
    assert_eq!(agent.kind(), Kind::Agent);
    assert_eq!(agent.state(), ReadState::Connecting);
    assert_eq!(agent.xconf().version, 0);
    assert_eq!(agent.pending_writes(), 0);
    let daemon = RawMessageStream::daemon(MemoryChannel::new(Status::Connected, 0), root());
    assert_eq!(daemon.kind(), Kind::Daemon);
    assert_eq!(daemon.state(), ReadState::Negotiating);
}
