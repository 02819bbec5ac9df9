use std::cell::{Cell, RefCell};
use std::collections::VecDeque;

use qubes_gui_connection::connection::{Connection, Poll};
use qubes_gui_connection::framing::{Error, ReadState};
use qubes_gui_connection::metered::{Channel, Metered, MeteredError};
use qubes_gui_connection::transport::{Status, Transport};

/// A channel that does what its script says.
struct Scripted {
    status: Status,
    inbox: RefCell<VecDeque<u8>>,
    outbox: RefCell<Vec<u8>>,
    /// What `data_ready` reports, if not the truth.
    claimed_ready: Cell<Option<usize>>,
    room: Cell<usize>,
    /// How many bytes `recv_into` holds back.
    short_by: usize,
    reopened: usize,
    waits: Cell<usize>,
}

impl Scripted {
    fn new(status: Status, inbox: &[u8], room: usize) -> Self {
        Scripted {
            status,
            inbox: RefCell::new(inbox.iter().copied().collect()),
            outbox: RefCell::new(Vec::new()),
            claimed_ready: Cell::new(None),
            room: Cell::new(room),
            short_by: 0,
            reopened: 0,
            waits: Cell::new(0),
        }
    }
}

impl Channel for Scripted {
    type Error = &'static str;

    fn status(&self) -> Status {
        self.status
    }

    fn data_ready(&self) -> usize {
        self.claimed_ready.get().unwrap_or(self.inbox.borrow().len())
    }

    fn buffer_space(&self) -> usize {
        self.room.get()
    }

    fn send(&self, buf: &[u8]) -> Result<(), &'static str> {
        self.outbox.borrow_mut().extend_from_slice(buf);
        Ok(())
    }

    fn recv_into(&self, buf: &mut Vec<u8>, n: usize) -> Result<(), &'static str> {
        for _ in 0..n - self.short_by {
            buf.push(self.inbox.borrow_mut().pop_front().ok_or("empty")?);
        }
        Ok(())
    }

    fn discard(&self, n: usize) -> Result<(), &'static str> {
        for _ in 0..n {
            self.inbox.borrow_mut().pop_front().ok_or("empty")?;
        }
        Ok(())
    }

    fn wait(&self) {
        self.waits.set(self.waits.get() + 1);
    }

    fn reopen(&mut self) -> Result<(), &'static str> {
        self.reopened += 1;
        self.inbox.borrow_mut().clear();
        self.outbox.borrow_mut().clear();
        Ok(())
    }
}

#[test]
fn counts_are_what_was_reported_less_what_was_used() {
    let mut metered = Metered::new(Scripted::new(Status::Connected, &[1, 2, 3, 4, 5], 10));
    assert_eq!(metered.data_ready(), 5);
    assert_eq!(metered.buffer_space(), 10);
    let mut buf = vec![9];
    assert_eq!(metered.recv_into(&mut buf, 2), Ok(()));
    assert_eq!(buf, vec![9, 1, 2]);
    assert_eq!(metered.data_ready(), 3);
    assert_eq!(metered.discard(2), Ok(()));
    assert_eq!(metered.data_ready(), 1);
    assert_eq!(metered.send(&[7, 8, 9]), Ok(()));
    assert_eq!(*metered.channel().outbox.borrow(), vec![7, 8, 9]);
}

#[test]
fn reported_counts_never_shrink() {
    let channel = Scripted::new(Status::Connected, &[1, 2, 3, 4, 5], 10);
    channel.claimed_ready.set(Some(5));
    let mut metered = Metered::new(channel);
    assert_eq!(metered.data_ready(), 5);
    let lying = Scripted::new(Status::Connected, &[1, 2, 3, 4, 5], 4);
    lying.claimed_ready.set(Some(3));
    let mut metered = Metered::new(lying);
    assert_eq!(metered.data_ready(), 3);
    assert_eq!(metered.buffer_space(), 4);
    assert_eq!(metered.send(&[1]), Ok(()));
    // The channel still reports room for four, of which one has been used.
    assert_eq!(metered.buffer_space(), 4);
    let mut buf = Vec::new();
    assert_eq!(metered.recv_into(&mut buf, 1), Ok(()));
    // The channel still reports three bytes, of which one has been read.
    assert_eq!(metered.data_ready(), 3);
}

#[test]
fn a_short_read_is_an_error() {
    let mut channel = Scripted::new(Status::Connected, &[1, 2, 3, 4, 5], 10);
    channel.short_by = 1;
    let mut metered = Metered::new(channel);
    assert_eq!(metered.data_ready(), 5);
    let mut buf = vec![9];
    assert_eq!(metered.recv_into(&mut buf, 3), Err(MeteredError::WrongLength));
    assert_eq!(buf, vec![9]);
}

#[test]
fn errors_of_the_channel_are_passed_on() {
    let mut metered = Metered::new(Scripted::new(Status::Connected, &[1], 10));
    let lying = Scripted::new(Status::Connected, &[1], 10);
    lying.claimed_ready.set(Some(2));
    let mut metered_lying = Metered::new(lying);
    assert_eq!(metered.data_ready(), 1);
    assert_eq!(metered_lying.data_ready(), 2);
    let mut buf = Vec::new();
    assert_eq!(metered_lying.recv_into(&mut buf, 2), Err(MeteredError::Channel("empty")));
    assert!(buf.is_empty());
    assert_eq!(metered_lying.discard(1), Err(MeteredError::Channel("empty")));
}

#[test]
fn reopening_starts_the_books_over() {
    let mut metered = Metered::new(Scripted::new(Status::Connected, &[1, 2], 10));
    assert_eq!(metered.status(), Status::Connected);
    assert_eq!(metered.data_ready(), 2);
    assert_eq!(metered.reopen(), Ok(()));
    assert_eq!(metered.channel().reopened, 1);
    assert_eq!(metered.data_ready(), 0);
    metered.wait();
}

#[test]
fn a_connection_runs_over_a_metered_channel() {
    let mut inbox = vec![7, 0, 1, 0, 0, 4, 0, 0, 0, 3, 0, 0, 32, 0, 0, 0, 0, 0, 0x30, 0];
    inbox.extend_from_slice(&[0x94, 0, 0, 0, 5, 0, 0, 0, 4, 0, 0, 0, 0x05, 0x01, 0, 0]);
    let channel = Scripted::new(Status::Connected, &inbox, 64);
    let mut agent = Connection::agent(Metered::new(channel));
    match agent.read_message() {
        Poll::Ready(Ok(message)) => {
            assert_eq!(message.hdr().ty(), 148);
            assert_eq!(message.body(), &[0x05, 0x01, 0, 0]);
        },
        _ => panic!("no message was ready"),
    }
    assert_eq!(agent.raw().state(), ReadState::ReadingHeader);
    assert_eq!(*agent.raw().transport_ref().channel().outbox.borrow(), vec![7, 0, 1, 0]);
    assert_eq!(agent.xconf().version, 0x0001_0007);
}

#[test]
fn a_short_read_ends_the_connection() {
    let mut channel =
        Scripted::new(Status::Connected, &[7, 0, 1, 0, 0, 4, 0, 0, 0, 3, 0, 0, 32, 0, 0, 0, 0, 0, 0x30, 0], 64);
    channel.short_by = 2;
    let mut agent = Connection::agent(Metered::new(channel));
    match agent.read_message() {
        Poll::Ready(Err(e)) => assert_eq!(e, Error::Transport(MeteredError::WrongLength)),
        _ => panic!("the short read went unnoticed"),
    }
    assert_eq!(agent.raw().state(), ReadState::Error);
}

#[test]
fn waiting_is_handed_to_the_channel() {
    let mut metered = Metered::new(Scripted::new(Status::Connected, &[1, 2], 10));
    metered.wait();
    assert_eq!(metered.channel().waits.get(), 1);
    let mut agent = Connection::agent(metered);
    agent.wait();
    agent.raw_mut().wait();
    assert_eq!(agent.raw().transport_ref().channel().waits.get(), 3);
    assert_eq!(agent.raw().state(), ReadState::Connecting);
    assert_eq!(agent.raw().pending_writes(), 0);
    assert!(agent.raw().transport_ref().channel().outbox.borrow().is_empty());
}

#[test]
fn a_write_is_booked_as_the_channel_made_it() {
    let mut metered = Metered::new(Scripted::new(Status::Connected, &[], 10));
    assert_eq!(metered.buffer_space(), 10);
    assert_eq!(metered.book_send(Err("full"), &[1, 2, 3]), Err(MeteredError::Channel("full")));
    // The channel reports less than before, so the books decide.
    metered.channel().room.set(0);
    assert_eq!(metered.buffer_space(), 10);
    assert_eq!(metered.book_send(Ok(()), &[1, 2, 3]), Ok(()));
    assert_eq!(metered.buffer_space(), 7);
}

#[test]
fn a_read_is_booked_as_the_channel_made_it() {
    let mut metered = Metered::new(Scripted::new(Status::Connected, &[1, 2, 3, 4, 5], 10));
    assert_eq!(metered.data_ready(), 5);
    let mut buf = vec![9];
    assert_eq!(metered.recv_into(&mut buf, 2), Ok(()));
    assert_eq!(buf, vec![9, 1, 2]);
    // The channel has last handed out two bytes.
    assert_eq!(metered.book_recv(Err("gone"), &mut buf, 2), Err(MeteredError::Channel("gone")));
    assert_eq!(metered.book_recv(Ok(()), &mut buf, 3), Err(MeteredError::WrongLength));
    assert_eq!(metered.book_recv(Ok(()), &mut buf, 1), Err(MeteredError::WrongLength));
    assert_eq!(buf, vec![9, 1, 2]);
    metered.channel().claimed_ready.set(Some(0));
    assert_eq!(metered.data_ready(), 3);
    assert_eq!(metered.book_recv(Ok(()), &mut buf, 2), Ok(()));
    assert_eq!(buf, vec![9, 1, 2, 1, 2]);
    assert_eq!(metered.data_ready(), 1);
}

#[test]
fn a_discard_is_booked_as_the_channel_made_it() {
    let channel = Scripted::new(Status::Connected, &[1, 2, 3, 4, 5], 10);
    channel.claimed_ready.set(Some(5));
    let mut metered = Metered::new(channel);
    assert_eq!(metered.data_ready(), 5);
    assert_eq!(metered.book_discard(Err("gone"), 2), Err(MeteredError::Channel("gone")));
    assert_eq!(metered.data_ready(), 5);
    assert_eq!(metered.book_discard(Ok(()), 2), Ok(()));
    metered.channel().claimed_ready.set(Some(0));
    assert_eq!(metered.data_ready(), 3);
}

#[test]
fn opening_again_is_booked_as_the_channel_made_it() {
    let mut metered = Metered::new(Scripted::new(Status::Connected, &[1, 2], 10));
    assert_eq!(metered.data_ready(), 2);
    assert_eq!(metered.buffer_space(), 10);
    assert_eq!(metered.book_reopen(Err("no")), Err(MeteredError::Channel("no")));
    metered.channel().claimed_ready.set(Some(0));
    metered.channel().room.set(0);
    assert_eq!(metered.data_ready(), 2);
    assert_eq!(metered.buffer_space(), 10);
    assert_eq!(metered.book_reopen(Ok(())), Ok(()));
    assert_eq!(metered.data_ready(), 0);
    assert_eq!(metered.buffer_space(), 0);
}
