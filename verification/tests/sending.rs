use qubes_gui_connection::connection::{Connection, Poll};
use qubes_gui_connection::framing::{Error, ProtocolError, ReadState};
use qubes_gui_connection::header::WindowID;
use qubes_gui_connection::memory::{ChannelBroken, MemoryChannel};
use qubes_gui_connection::payload::{Coordinates, Cursor, Destroy, Keypress, WindowFlags};
use qubes_gui_connection::stream::{is_live, RawMessageStream};
use qubes_gui_connection::transport::{Status, Transport};

const OFFER: [u8; 20] = [7, 0, 1, 0, 0, 4, 0, 0, 0, 3, 0, 0, 32, 0, 0, 0, 0, 0, 0x30, 0];

fn agent(room: usize) -> Connection<MemoryChannel> {
    let mut agent = Connection::agent(MemoryChannel::new(Status::Connected, 4096));
    assert!(matches!(agent.read_message(), Poll::Pending));
    agent.raw_mut().transport_mut().feed(&OFFER);
    assert!(matches!(agent.read_message(), Poll::Pending));
    agent.raw_mut().transport_mut().set_room(room);
    agent
}

/// What the channel has taken since the handshake.
fn sent(connection: &Connection<MemoryChannel>) -> Vec<u8> {
    connection.raw().transport_ref().written()[4..].to_vec()
}

fn keypress() -> Keypress {
    Keypress { ty: 2, coordinates: Coordinates { x: 1, y: 2 }, state: 3, keycode: 4 }
}

const KEYPRESS_FRAME: [u8; 32] = [
    124, 0, 0, 0, 9, 0, 0, 0, 20, 0, 0, 0, 2, 0, 0, 0, 1, 0, 0, 0, 2, 0, 0, 0, 3, 0, 0, 0, 4, 0,
    0, 0,
];

#[test]
fn send_writes_header_then_body() {
    let mut agent = agent(4096);
    assert_eq!(agent.send(&keypress(), WindowID::from(9)), Ok(()));
    assert_eq!(sent(&agent), KEYPRESS_FRAME.to_vec());
    assert_eq!(agent.raw().pending_writes(), 0);
}

#[test]
fn send_backpressure() {
    let mut agent = agent(5);
    assert_eq!(agent.send(&keypress(), WindowID::from(9)), Ok(()));
    assert_eq!(sent(&agent), KEYPRESS_FRAME[..5].to_vec());
    assert_eq!(agent.raw().pending_writes(), 27);

    agent.raw_mut().transport_mut().set_room(100);
    agent.raw_mut().transport_mut().feed(&[131, 0, 0, 0, 1, 0, 0, 0, 0, 0, 0, 0]);
    match agent.read_message() {
        Poll::Ready(Ok(buffer)) => assert_eq!(buffer.hdr().ty(), 131),
        _ => panic!("no message was ready"),
    }
    assert_eq!(sent(&agent), KEYPRESS_FRAME.to_vec());
    assert_eq!(agent.raw().pending_writes(), 0);
    assert_eq!(agent.raw_mut().transport_mut().buffer_space(), 73);
}

#[test]
fn queued_bytes_leave_in_order() {
    let mut agent = agent(3);
    assert_eq!(agent.send(&Cursor { cursor: 0x105 }, WindowID::from(1)), Ok(()));
    assert_eq!(agent.send(&Destroy {}, WindowID::from(2)), Ok(()));
    assert_eq!(agent.send(&WindowFlags { set: 1, unset: 2 }, WindowID::from(3)), Ok(()));
    let mut expected = vec![148, 0, 0, 0, 1, 0, 0, 0, 4, 0, 0, 0, 5, 1, 0, 0];
    expected.extend_from_slice(&[131, 0, 0, 0, 2, 0, 0, 0, 0, 0, 0, 0]);
    expected.extend_from_slice(&[145, 0, 0, 0, 3, 0, 0, 0, 8, 0, 0, 0, 1, 0, 0, 0, 2, 0, 0, 0]);
    assert_eq!(sent(&agent), expected[..3].to_vec());
    assert_eq!(agent.raw().pending_writes(), expected.len() - 3);

    let mut room = 3;
    while agent.raw().pending_writes() > 0 {
        room += 7;
        agent.raw_mut().transport_mut().set_room(7);
        assert!(matches!(agent.read_message(), Poll::Pending));
        let so_far = sent(&agent);
        assert_eq!(so_far, expected[..so_far.len()].to_vec());
        assert!(so_far.len() == expected.len() || so_far.len() == room);
    }
    assert_eq!(sent(&agent), expected);
}

#[test]
fn new_bytes_never_pass_queued_ones() {
    let mut agent = agent(0);
    assert_eq!(agent.send_raw_bytes(&[1, 2, 3]), Ok(()));
    assert_eq!(agent.raw().pending_writes(), 3);
    agent.raw_mut().transport_mut().set_room(2);
    assert_eq!(agent.send_raw_bytes(&[4, 5]), Ok(()));
    assert_eq!(sent(&agent), vec![1, 2]);
    assert_eq!(agent.raw().pending_writes(), 3);
    agent.raw_mut().transport_mut().set_room(10);
    assert_eq!(agent.send_raw_bytes(&[6]), Ok(()));
    assert_eq!(sent(&agent), vec![1, 2, 3, 4, 5, 6]);
    assert_eq!(agent.raw().pending_writes(), 0);
}

#[test]
fn send_raw_frames_the_body() {
    let mut agent = agent(4096);
    assert_eq!(agent.send_raw(b"hello", WindowID::from(7), 140), Ok(()));
    assert_eq!(sent(&agent), vec![140, 0, 0, 0, 7, 0, 0, 0, 5, 0, 0, 0, b'h', b'e', b'l', b'l', b'o']);
    assert_eq!(agent.send_raw(&[], WindowID::from(7), 140), Ok(()));
    assert_eq!(sent(&agent).len(), 17 + 12);
}

#[test]
fn messages_before_the_handshake_are_dropped() {
    let mut agent = Connection::agent(MemoryChannel::new(Status::Waiting, 4096));
    assert_eq!(agent.send(&keypress(), WindowID::from(9)), Ok(()));
    assert_eq!(agent.raw().pending_writes(), 0);
    assert!(agent.raw().transport_ref().written().is_empty());

    agent.raw_mut().transport_mut().set_status(Status::Connected);
    assert!(matches!(agent.read_message(), Poll::Pending));
    assert_eq!(agent.raw().state(), ReadState::Negotiating);
    assert_eq!(agent.send_raw_bytes(&[1, 2, 3]), Ok(()));
    assert_eq!(agent.raw().pending_writes(), 0);
    assert_eq!(agent.raw().transport_ref().written(), &vec![7, 0, 1, 0]);

    agent.raw_mut().transport_mut().feed(&OFFER);
    assert!(matches!(agent.read_message(), Poll::Pending));
    assert_eq!(agent.raw().transport_ref().written(), &vec![7, 0, 1, 0]);
    assert_eq!(agent.send_raw_bytes(&[1, 2, 3]), Ok(()));
    assert_eq!(sent(&agent), vec![1, 2, 3]);
}

#[test]
fn nothing_is_sent_after_an_error() {
    let mut agent = agent(4096);
    agent.raw_mut().transport_mut().feed(&[124, 0, 0, 0, 1, 0, 0, 0, 19, 0, 0, 0]);
    assert!(matches!(agent.read_message(), Poll::Ready(Err(_))));
    assert_eq!(agent.send(&keypress(), WindowID::from(9)), Ok(()));
    assert_eq!(agent.send_raw_bytes(&[1, 2, 3]), Ok(()));
    assert_eq!(sent(&agent), Vec::<u8>::new());
    assert_eq!(agent.raw().pending_writes(), 0);
    match agent.read_message() {
        Poll::Ready(Err(e)) => assert_eq!(e, Error::Protocol(ProtocolError::AlreadyInErrorState)),
        _ => panic!("reading went on after an error"),
    }
}

#[test]
fn queue_is_frozen_by_an_error() {
    let mut agent = agent(1);
    assert_eq!(agent.send_raw_bytes(&[1, 2, 3]), Ok(()));
    assert_eq!(agent.raw().pending_writes(), 2);
    agent.raw_mut().transport_mut().feed(&[138, 0, 0, 0, 1, 0, 0, 0, 0, 0, 0, 0]);
    assert!(matches!(agent.read_message(), Poll::Ready(Err(_))));
    agent.raw_mut().transport_mut().set_room(100);
    assert!(matches!(agent.read_message(), Poll::Ready(Err(_))));
    assert_eq!(agent.send_raw_bytes(&[4]), Ok(()));
    assert_eq!(sent(&agent), vec![1]);
    assert_eq!(agent.raw().pending_writes(), 2);
}

#[test]
fn a_failing_channel_fails_the_send() {
    let mut agent = agent(4096);
    agent.raw_mut().transport_mut().set_broken(true);
    assert_eq!(agent.send(&keypress(), WindowID::from(9)), Err(Error::Transport(ChannelBroken)));
    assert_eq!(agent.raw().state(), ReadState::Error);
    agent.raw_mut().transport_mut().set_broken(false);
    assert_eq!(agent.send(&keypress(), WindowID::from(9)), Ok(()));
    assert_eq!(sent(&agent), Vec::<u8>::new());
}

#[test]
fn write_slice_writes_what_fits() {
    let mut channel = MemoryChannel::new(Status::Connected, 3);
    assert_eq!(RawMessageStream::write_slice(&mut channel, &[1, 2, 3, 4, 5]), Ok(3));
    assert_eq!(channel.written(), &vec![1, 2, 3]);
    assert_eq!(RawMessageStream::write_slice(&mut channel, &[4, 5]), Ok(0));
    channel.set_room(10);
    assert_eq!(RawMessageStream::write_slice(&mut channel, &[4, 5]), Ok(2));
    assert_eq!(channel.written(), &vec![1, 2, 3, 4, 5]);
    assert_eq!(channel.buffer_space(), 8);
}

#[test]
fn flush_reports_what_it_wrote() {
    let mut agent = agent(0);
    assert_eq!(agent.send_raw_bytes(&[1, 2, 3, 4]), Ok(()));
    assert_eq!(agent.raw_mut().flush_pending_writes(), Ok(0));
    agent.raw_mut().transport_mut().set_room(3);
    assert_eq!(agent.raw_mut().flush_pending_writes(), Ok(3));
    assert_eq!(agent.raw_mut().flush_pending_writes(), Ok(0));
    agent.raw_mut().transport_mut().set_room(3);
    assert_eq!(agent.raw_mut().flush_pending_writes(), Ok(1));
    assert_eq!(sent(&agent), vec![1, 2, 3, 4]);
}

#[test]
fn states_after_the_handshake_are_live() {
    assert!(is_live(ReadState::ReadingHeader));
    assert!(is_live(ReadState::Discard(3)));
    assert!(!is_live(ReadState::Connecting));
    assert!(!is_live(ReadState::Negotiating));
    assert!(!is_live(ReadState::Error));
}

#[test]
fn memory_channel_plays_the_peer() {
    let mut channel = MemoryChannel::new(Status::Waiting, 8);
    assert_eq!(channel.status(), Status::Waiting);
    assert_eq!(channel.data_ready(), 0);
    assert_eq!(channel.buffer_space(), 8);
    assert_eq!(channel.feed(&[1, 2, 3, 4, 5]), 5);
    let mut buf = vec![0xff];
    assert_eq!(channel.recv_into(&mut buf, 2), Ok(()));
    assert_eq!(buf, vec![0xff, 1, 2]);
    assert_eq!(channel.discard(2), Ok(()));
    assert_eq!(channel.data_ready(), 1);
    assert_eq!(channel.recv_into(&mut buf, 1), Ok(()));
    assert_eq!(buf, vec![0xff, 1, 2, 5]);
    assert_eq!(channel.send(&[7, 8]), Ok(()));
    assert_eq!(channel.buffer_space(), 6);
    channel.set_broken(true);
    assert_eq!(channel.send(&[9]), Err(ChannelBroken));
    assert_eq!(channel.discard(0), Err(ChannelBroken));
    assert_eq!(channel.reopen(), Err(ChannelBroken));
    assert_eq!(channel.status(), Status::Disconnected);
    channel.set_broken(false);
    assert_eq!(channel.reopen(), Ok(()));
    assert_eq!(channel.status(), Status::Waiting);
    assert!(channel.written().is_empty());
    channel.wait();
}

#[test]
fn held_messages_leave_after_the_handshake() {
    let mut agent = Connection::agent(MemoryChannel::new(Status::Waiting, 4096));
    agent.hold_early_messages(true);
    assert_eq!(agent.send(&keypress(), WindowID::from(9)), Ok(()));
    assert_eq!(agent.raw().pending_writes(), 32);
    assert!(agent.raw().transport_ref().written().is_empty());

    assert!(matches!(agent.read_message(), Poll::Pending));
    assert!(agent.raw().transport_ref().written().is_empty());

    agent.raw_mut().transport_mut().set_status(Status::Connected);
    assert!(matches!(agent.read_message(), Poll::Pending));
    assert_eq!(agent.raw().state(), ReadState::Negotiating);
    assert_eq!(agent.raw().transport_ref().written(), &vec![7, 0, 1, 0]);
    assert_eq!(agent.send_raw_bytes(&[0xee]), Ok(()));
    assert_eq!(agent.raw().pending_writes(), 33);
    assert!(matches!(agent.read_message(), Poll::Pending));
    assert_eq!(agent.raw().transport_ref().written(), &vec![7, 0, 1, 0]);

    agent.raw_mut().transport_mut().feed(&OFFER);
    assert!(matches!(agent.read_message(), Poll::Pending));
    assert_eq!(agent.raw().state(), ReadState::ReadingHeader);
    assert!(matches!(agent.read_message(), Poll::Pending));
    let mut expected = KEYPRESS_FRAME.to_vec();
    expected.push(0xee);
    assert_eq!(sent(&agent), expected);
    assert_eq!(agent.raw().pending_writes(), 0);
}

#[test]
fn held_messages_follow_the_answer_of_a_daemon() {
    let xconf = qubes_gui_connection::payload::XConf::default();
    let mut daemon = Connection::daemon(MemoryChannel::new(Status::Connected, 4096), xconf);
    daemon.hold_early_messages(true);
    assert_eq!(daemon.send_raw_bytes(&[1, 2, 3]), Ok(()));
    assert_eq!(daemon.raw().pending_writes(), 3);
    daemon.raw_mut().transport_mut().feed(&[7, 0, 1, 0]);
    assert!(matches!(daemon.read_message(), Poll::Pending));
    assert_eq!(daemon.raw().transport_ref().written().len(), 20);
    assert_eq!(daemon.send_raw_bytes(&[4]), Ok(()));
    let written = daemon.raw().transport_ref().written();
    assert_eq!(written[..4], [7, 0, 0, 0]);
    assert_eq!(written[20..], [1, 2, 3, 4]);
}

#[test]
fn an_error_freezes_held_messages() {
    let mut agent = Connection::agent(MemoryChannel::new(Status::Disconnected, 4096));
    agent.hold_early_messages(true);
    assert_eq!(agent.send_raw_bytes(&[1, 2, 3]), Ok(()));
    assert_eq!(agent.raw().pending_writes(), 3);
    assert!(matches!(agent.read_message(), Poll::Ready(Err(_))));
    assert_eq!(agent.send_raw_bytes(&[4]), Ok(()));
    assert_eq!(agent.raw().pending_writes(), 3);
    assert!(agent.raw().transport_ref().written().is_empty());
}

#[test]
fn dropping_is_the_choice_unless_told_otherwise() {
    let mut agent = Connection::agent(MemoryChannel::new(Status::Waiting, 4096));
    agent.hold_early_messages(true);
    agent.hold_early_messages(false);
    assert_eq!(agent.send_raw_bytes(&[1, 2, 3]), Ok(()));
    assert_eq!(agent.raw().pending_writes(), 0);
}

#[test]
fn flushing_nothing_does_not_touch_the_channel() {
    let mut agent = agent(4096);
    agent.raw_mut().transport_mut().set_broken(true);
    assert_eq!(agent.raw_mut().flush_pending_writes(), Ok(0));
    assert_eq!(agent.raw().state(), ReadState::ReadingHeader);
    assert_eq!(sent(&agent), Vec::<u8>::new());
}

#[test]
fn flushing_fails_only_with_something_to_write_and_room_for_it() {
    let mut agent = agent(0);
    assert_eq!(agent.send_raw_bytes(&[1, 2, 3]), Ok(()));
    agent.raw_mut().transport_mut().set_broken(true);
    assert_eq!(agent.raw_mut().flush_pending_writes(), Ok(0));
    agent.raw_mut().transport_mut().set_room(2);
    assert_eq!(agent.raw_mut().flush_pending_writes(), Err(ChannelBroken));
    assert_eq!(agent.raw().pending_writes(), 3);
    assert_eq!(agent.raw_mut().transport_mut().buffer_space(), 2);
    assert_eq!(sent(&agent), Vec::<u8>::new());
}

#[test]
fn writing_without_room_cannot_fail() {
    let mut channel = MemoryChannel::new(Status::Connected, 0);
    channel.set_broken(true);
    assert_eq!(RawMessageStream::write_slice(&mut channel, &[1, 2]), Ok(0));
    channel.set_room(1);
    assert_eq!(RawMessageStream::write_slice(&mut channel, &[1, 2]), Err(ChannelBroken));
    assert_eq!(channel.buffer_space(), 1);
    assert!(channel.written().is_empty());
}
