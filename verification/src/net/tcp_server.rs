//! One accepted TCP connection: what was read from it, what is still to be
//! written to it, and whether it is closed.
//!
//! The connection owns no stream. Its caller reads, writes and shuts the
//! stream down, and tells the connection how each of these went; the
//! connection keeps the queue of events, names the errors and calls the
//! visitor.

use vstd::prelude::*;
use vstd::slice::slice_to_vec;
use vstd::string::*;
use std::sync::mpsc::{Receiver, Sender};
use crate::error::AppError;
use crate::net::io::{filled, filled_bytes, IoErrorKind, IoFailure};

verus! {

/// The most bytes that one read takes from the stream.
pub const READ_BLOCK_SIZE: usize = 1024;

/// What is waiting to be done on a connection.
#[derive(Debug, PartialEq)]
pub enum ConnectionEvent {
    /// The stream is to be shut down.
    Closing,
    /// The stream has been shut down.
    Closed,
    /// These bytes are to be written to the stream.
    Write(Vec<u8>),
}

impl ConnectionEvent {
    /// A new channel on which other threads can hand events to the thread
    /// that polls the connection.
    pub fn create_channel() -> (halves: (Sender<ConnectionEvent>, Receiver<ConnectionEvent>)) {
        std::sync::mpsc::channel()
    }
}

/// Hooks that decide what a connection does with what it reads.
pub trait ConnectionVisitor: Send {
    /// The connection is set up. A visitor that does not say otherwise
    /// stays as it is and answers with success.
    fn on_connected(&mut self) -> (result: Result<(), AppError>)
        default_ensures
            result is Ok,
            &*final(self) == &*old(self),
    {
        Ok(())
    }

    /// Takes the sender on which events for the connection can be handed
    /// in. A visitor that does not say otherwise lets the sender go, stays
    /// as it is and answers with success.
    fn set_event_channel_sender(&mut self, event_channel_sender: Sender<ConnectionEvent>) -> (result:
        Result<(), AppError>)
        default_ensures
            result is Ok,
            &*final(self) == &*old(self),
    {
        Ok(())
    }

    /// Bytes were read from the connection. A visitor that does not say
    /// otherwise stays as it is and answers with success.
    fn on_connection_read(&mut self, data: &[u8]) -> (result: Result<(), AppError>)
        default_ensures
            result is Ok,
            &*final(self) == &*old(self),
    {
        Ok(())
    }

    /// A polling cycle begins. A visitor that does not say otherwise stays
    /// as it is and answers with success.
    fn on_polling_cycle(&mut self) -> (result: Result<(), AppError>)
        default_ensures
            result is Ok,
            &*final(self) == &*old(self),
    {
        Ok(())
    }

    /// The connection was shut down. A visitor that does not say otherwise
    /// stays as it is and answers with success.
    fn on_shutdown(&mut self) -> (result: Result<(), AppError>)
        default_ensures
            result is Ok,
            &*final(self) == &*old(self),
    {
        Ok(())
    }

    /// Tells the peer of an error.
    fn send_error_response(&mut self, err: &AppError);
}

/// How one read from the stream went.
pub enum ReadOutcome {
    /// These bytes were read.
    Data(Vec<u8>),
    /// The peer has closed the stream.
    Eof,
    /// Nothing to read right now.
    WouldBlock,
    /// The read failed, with the cause.
    Failed(String),
}

/// How writing a buffer to the stream went.
pub enum WriteOutcome {
    /// All of it was written.
    Written,
    /// The peer has closed the stream.
    Eof,
    /// The stream takes no bytes right now.
    WouldBlock,
    /// The write failed, with the cause.
    Failed(String),
}

/// What a read that returned `read` into `buffer` comes to: a read of no
/// bytes, like one that ended where more was expected, is the end of the
/// stream; a read of some bytes brings exactly those bytes.
pub open spec fn read_outcome_of(buffer: Seq<u8>, read: Result<usize, IoFailure>, outcome: ReadOutcome) -> bool {
    match read {
        Ok(size) => if size == 0 {
            outcome is Eof
        } else {
            outcome matches ReadOutcome::Data(chunk) && chunk@ == filled(buffer, size)
        },
        Err(failure) => match failure.kind {
            IoErrorKind::UnexpectedEof => outcome is Eof,
            IoErrorKind::WouldBlock => outcome is WouldBlock,
            IoErrorKind::Other => outcome matches ReadOutcome::Failed(cause) && cause@
                == failure.cause@,
        },
    }
}

/// What a write that returned `written` comes to.
pub open spec fn write_outcome_of(written: Result<(), IoFailure>, outcome: WriteOutcome) -> bool {
    match written {
        Ok(_) => outcome is Written,
        Err(failure) => match failure.kind {
            IoErrorKind::UnexpectedEof => outcome is Eof,
            IoErrorKind::WouldBlock => outcome is WouldBlock,
            IoErrorKind::Other => outcome matches WriteOutcome::Failed(cause) && cause@
                == failure.cause@,
        },
    }
}

impl ReadOutcome {
    /// Says how a read went, given the buffer that was read into and what
    /// the read returned: the number of bytes, or the failure.
    pub fn classify(buffer: &[u8], read: Result<usize, IoFailure>) -> (outcome: ReadOutcome)
        ensures
            read_outcome_of(buffer@, read, outcome),
    {
        match read {
            Ok(size) => if size == 0 {
                ReadOutcome::Eof
            } else {
                ReadOutcome::Data(filled_bytes(buffer, size))
            },
            Err(failure) => match failure.kind {
                IoErrorKind::UnexpectedEof => ReadOutcome::Eof,
                IoErrorKind::WouldBlock => ReadOutcome::WouldBlock,
                IoErrorKind::Other => ReadOutcome::Failed(failure.cause),
            },
        }
    }
}

impl WriteOutcome {
    /// Says how a write went, given what it returned.
    pub fn classify(written: Result<(), IoFailure>) -> (outcome: WriteOutcome)
        ensures
            write_outcome_of(written, outcome),
    {
        match written {
            Ok(_) => WriteOutcome::Written,
            Err(failure) => match failure.kind {
                IoErrorKind::UnexpectedEof => WriteOutcome::Eof,
                IoErrorKind::WouldBlock => WriteOutcome::WouldBlock,
                IoErrorKind::Other => WriteOutcome::Failed(failure.cause),
            },
        }
    }
}

/// The bytes that the visitor is shown after a read: all that was read, if
/// anything was; nothing after a failure or a read that brought no bytes.
pub fn bytes_to_show(read: &Result<Vec<u8>, AppError>) -> (shown: Option<&[u8]>)
    ensures
        match *read {
            Ok(buffer) => if buffer@.len() > 0 {
                shown matches Some(bytes) && bytes@ == buffer@
            } else {
                shown is None
            },
            Err(_) => shown is None,
        },
{
    match read {
        Ok(buffer) => if buffer.len() > 0 {
            Some(buffer.as_slice())
        } else {
            None
        },
        Err(_) => None,
    }
}

/// What the caller does next in a polling cycle.
#[derive(Debug, PartialEq)]
pub enum ConnectionAction {
    /// Write these bytes to the stream and report with `write`.
    Write(Vec<u8>),
    /// Shut both directions of the stream down and report with `shutdown`.
    Shutdown,
    /// Nothing more in this cycle: wait, then begin the next one.
    Wait,
    /// The connection is closed: stop polling.
    Done,
}

/// The state of a connection, without its visitor.
pub struct ConnectionState {
    /// The events that wait, the next one first.
    pub events: Seq<ConnectionEvent>,
    /// Whether the stream has been shut down.
    pub closed: bool,
    /// Whether a write found the stream not ready in this cycle.
    pub write_blocked: bool,
}

/// The events that wait after a connection that is closed has dropped the
/// requests to close that stand first.
pub open spec fn without_leading_closing(events: Seq<ConnectionEvent>) -> Seq<ConnectionEvent>
    decreases events.len(),
{
    if events.len() > 0 && events[0] is Closing {
        without_leading_closing(events.drop_first())
    } else {
        events
    }
}

/// What a connection in the given state does next, and the state it is in
/// then. Nothing is taken from the queue once a write was blocked in this
/// cycle. A request to close a connection that is closed is dropped. The
/// note that the stream was shut down ends the cycle.
pub open spec fn next_action(state: ConnectionState) -> (ConnectionState, ConnectionAction) {
    let idle = if state.closed {
        ConnectionAction::Done
    } else {
        ConnectionAction::Wait
    };
    if state.write_blocked {
        (state, idle)
    } else {
        let events = if state.closed {
            without_leading_closing(state.events)
        } else {
            state.events
        };
        if events.len() == 0 {
            (ConnectionState { events, ..state }, idle)
        } else {
            let rest = ConnectionState { events: events.drop_first(), ..state };
            match events[0] {
                ConnectionEvent::Write(data) => (rest, ConnectionAction::Write(data)),
                ConnectionEvent::Closing => (rest, ConnectionAction::Shutdown),
                ConnectionEvent::Closed => (rest, idle),
            }
        }
    }
}

/// A client connection that a TCP server has accepted and now serves.
pub struct Connection<V: ConnectionVisitor> {
    visitor: V,
    event_channel_sender: Sender<ConnectionEvent>,
    events: Vec<ConnectionEvent>,
    closed: bool,
    write_blocked: bool,
}

impl<V: ConnectionVisitor> Connection<V> {
    /// The state of the connection.
    pub closed spec fn view(&self) -> ConnectionState {
        ConnectionState {
            events: self.events@,
            closed: self.closed,
            write_blocked: self.write_blocked,
        }
    }

    /// Makes the connection of a visitor that was set up, given what the
    /// visitor answered when it was handed the sender and, if it was asked,
    /// when it was told that the connection stands. After a failure of
    /// either there is no connection, and the failure is returned, that of
    /// the sender first. Else the connection is open and nothing waits.
    pub fn set_up(
        visitor: V,
        event_channel_sender: Sender<ConnectionEvent>,
        sender_taken: Result<(), AppError>,
        connected: Option<Result<(), AppError>>,
    ) -> (result: Result<Self, AppError>)
        ensures
            match (sender_taken, connected) {
                (Err(err), _) => result matches Err(e) && e == err,
                (Ok(_), Some(Err(err))) => result matches Err(e) && e == err,
                (Ok(_), _) => result matches Ok(conn) && conn@ == (ConnectionState {
                    events: Seq::empty(),
                    closed: false,
                    write_blocked: false,
                }),
            },
    {
        match sender_taken {
            Err(err) => Err(err),
            Ok(_) => match connected {
                Some(Err(err)) => Err(err),
                _ => Ok(
                    Connection {
                        visitor,
                        event_channel_sender,
                        events: Vec::new(),
                        closed: false,
                        write_blocked: false,
                    },
                ),
            },
        }
    }

    /// Sets a connection up: the visitor is given a sender for events and,
    /// if it took it, told that the connection stands. What comes of the
    /// two answers is what `set_up` says: a connection that is open, with
    /// nothing waiting, unless the visitor failed.
    pub fn new(visitor: V, event_channel_sender: Sender<ConnectionEvent>) -> (result: Result<
        Self,
        AppError,
    >)
        ensures
            result matches Ok(conn) ==> conn@ == (ConnectionState {
                events: Seq::empty(),
                closed: false,
                write_blocked: false,
            }),
    {
        let mut visitor = visitor;
        let sender_taken = visitor.set_event_channel_sender(event_channel_sender.clone());
        let connected = match &sender_taken {
            Ok(_) => Some(visitor.on_connected()),
            Err(_) => None,
        };
        Self::set_up(visitor, event_channel_sender, sender_taken, connected)
    }

    /// Whether the stream has been shut down.
    pub fn is_closed(&self) -> (closed: bool)
        ensures
            closed == self@.closed,
    {
        self.closed
    }

    /// Marks the connection as closed or as open.
    pub fn set_closed(&mut self, closed: bool)
        ensures
            final(self)@ == (ConnectionState { closed, ..old(self)@ }),
    {
        self.closed = closed;
    }

    /// A sender on which events for the connection can be handed in.
    pub fn clone_event_channel_sender(&self) -> (sender: Sender<ConnectionEvent>) {
        self.event_channel_sender.clone()
    }

    /// The number of events that wait.
    pub fn pending_events(&self) -> (count: usize)
        ensures
            count == self@.events.len(),
    {
        self.events.len()
    }

    /// Puts an event at the end of the queue.
    pub fn enqueue(&mut self, event: ConnectionEvent)
        ensures
            final(self)@ == (ConnectionState {
                events: old(self)@.events.push(event),
                ..old(self)@
            }),
    {
        self.events.push(event);
    }

    /// Begins a polling cycle: writes may be tried again, and the visitor
    /// is told; what the visitor answers is returned.
    pub fn begin_cycle(&mut self) -> (result: Result<(), AppError>)
        ensures
            final(self)@ == (ConnectionState { write_blocked: false, ..old(self)@ }),
    {
        self.write_blocked = false;
        self.visitor.on_polling_cycle()
    }

    /// Says what the caller does next in this polling cycle, and takes the
    /// event that asks for it from the queue.
    pub fn poll_connection(&mut self) -> (action: ConnectionAction)
        ensures
            (final(self)@, action) == next_action(old(self)@),
    {
        let idle = if self.closed {
            ConnectionAction::Done
        } else {
            ConnectionAction::Wait
        };
        if self.write_blocked {
            return idle;
        }
        let ghost wanted = if self.closed {
            without_leading_closing(self@.events)
        } else {
            self@.events
        };
        while self.closed && self.events.len() > 0 && is_closing(&self.events[0])
            invariant
                self.closed == old(self).closed,
                self.write_blocked == old(self).write_blocked,
                self.closed ==> without_leading_closing(self@.events) == wanted,
                !self.closed ==> self@.events == wanted,
            decreases self.events.len(),
        {
            let ghost before = self@.events;
            self.events.remove(0);
            assert(self@.events =~= before.drop_first());
        }
        assert(self@.events == wanted);
        if self.events.len() == 0 {
            return idle;
        }
        let ghost before = self@.events;
        let event = self.events.remove(0);
        assert(self@.events =~= before.drop_first());
        match event {
            ConnectionEvent::Write(data) => ConnectionAction::Write(data),
            ConnectionEvent::Closing => ConnectionAction::Shutdown,
            ConnectionEvent::Closed => idle,
        }
    }

    /// Takes note of how one read from the stream went. Bytes that were
    /// read are put at the end of `buffer`, and the answer says whether to
    /// read again: after a full block, there may be more. When the peer
    /// has closed the stream, which a read of no bytes says too, a request
    /// to close waits at the end of the queue. A read that failed for
    /// another reason is an error.
    pub fn read_tcp_stream(&mut self, buffer: &mut Vec<u8>, outcome: ReadOutcome) -> (result: Result<
        bool,
        AppError,
    >)
        ensures
            match outcome {
                ReadOutcome::Data(chunk) => {
                    &&& final(buffer)@ == old(buffer)@ + chunk@
                    &&& final(self)@ == (if chunk@.len() == 0 {
                        ConnectionState {
                            events: old(self)@.events.push(ConnectionEvent::Closing),
                            ..old(self)@
                        }
                    } else {
                        old(self)@
                    })
                    &&& result == Ok::<bool, AppError>(chunk@.len() >= READ_BLOCK_SIZE)
                },
                ReadOutcome::Eof => {
                    &&& final(buffer)@ == old(buffer)@
                    &&& final(self)@ == (ConnectionState {
                        events: old(self)@.events.push(ConnectionEvent::Closing),
                        ..old(self)@
                    })
                    &&& result == Ok::<bool, AppError>(false)
                },
                ReadOutcome::WouldBlock => {
                    &&& final(buffer)@ == old(buffer)@
                    &&& final(self)@ == old(self)@
                    &&& result == Ok::<bool, AppError>(false)
                },
                ReadOutcome::Failed(cause) => {
                    &&& final(buffer)@ == old(buffer)@
                    &&& final(self)@ == old(self)@
                    &&& result matches Err(err)
                    &&& err.is_caused("Error reading from TCP connection"@, cause@)
                },
            },
    {
        match outcome {
            ReadOutcome::Data(chunk) => {
                let mut chunk = chunk;
                let again = chunk.len() >= READ_BLOCK_SIZE;
                if chunk.len() == 0 {
                    self.events.push(ConnectionEvent::Closing);
                }
                buffer.append(&mut chunk);
                Ok(again)
            },
            ReadOutcome::Eof => {
                self.events.push(ConnectionEvent::Closing);
                Ok(false)
            },
            ReadOutcome::WouldBlock => Ok(false),
            ReadOutcome::Failed(cause) => Err(
                AppError::GenWithMsgAndErr(
                    String::from_str("Error reading from TCP connection"),
                    cause,
                ),
            ),
        }
    }

    /// Ends a read, given what was read and what the visitor answered to
    /// it, if it was asked: after a failure of either a request to close
    /// waits at the end of the queue and the failure is returned; else
    /// what was read is returned.
    pub fn finish_read(
        &mut self,
        read: Result<Vec<u8>, AppError>,
        visited: Option<Result<(), AppError>>,
    ) -> (result: Result<Vec<u8>, AppError>)
        ensures
            match (read, visited) {
                (Ok(buffer), None) => result == Ok::<Vec<u8>, AppError>(buffer) && final(self)@
                    == old(self)@,
                (Ok(buffer), Some(Ok(_))) => result == Ok::<Vec<u8>, AppError>(buffer) && final(self)@ == old(self)@,
                (Ok(_), Some(Err(err))) => result == Err::<Vec<u8>, AppError>(err) && final(self)@
                    == (ConnectionState {
                    events: old(self)@.events.push(ConnectionEvent::Closing),
                    ..old(self)@
                }),
                (Err(err), _) => result == Err::<Vec<u8>, AppError>(err) && final(self)@ == (
                ConnectionState {
                    events: old(self)@.events.push(ConnectionEvent::Closing),
                    ..old(self)@
                }),
            },
    {
        let outcome = match read {
            Ok(buffer) => match visited {
                Some(Err(err)) => Err(err),
                _ => Ok(buffer),
            },
            Err(err) => Err(err),
        };
        if outcome.is_err() {
            self.events.push(ConnectionEvent::Closing);
        }
        outcome
    }

    /// Takes what was read from the stream, or the failure to read. The
    /// visitor is shown what `bytes_to_show` gives: all bytes that were
    /// read, if there are any. What `finish_read` makes of the read and of
    /// the visitor's answer is returned: after a failure of either a request
    /// to close waits at the end of the queue and the failure is returned;
    /// else what was read is returned.
    pub fn read(&mut self, read: Result<Vec<u8>, AppError>) -> (result: Result<Vec<u8>, AppError>)
        ensures
            final(self)@.closed == old(self)@.closed,
            final(self)@.write_blocked == old(self)@.write_blocked,
            match read {
                Ok(buffer) => if buffer@.len() == 0 {
                    result == Ok::<Vec<u8>, AppError>(buffer) && final(self)@ == old(self)@
                } else {
                    match result {
                        Ok(returned) => returned == buffer && final(self)@ == old(self)@,
                        Err(_) => final(self)@.events == old(self)@.events.push(
                            ConnectionEvent::Closing,
                        ),
                    }
                },
                Err(err) => result == Err::<Vec<u8>, AppError>(err) && final(self)@.events == old(self)@.events.push(ConnectionEvent::Closing),
            },
    {
        let visited = match bytes_to_show(&read) {
            Some(bytes) => Some(self.visitor.on_connection_read(bytes)),
            None => None,
        };
        self.finish_read(read, visited)
    }

    /// Takes note of how writing `buffer` to the stream went. When the peer
    /// has closed the stream a request to close waits at the end of the
    /// queue. When the stream was not ready the buffer waits at the front
    /// of the queue, before all that was to be written after it, and
    /// nothing more is written in this cycle. A write that failed for
    /// another reason is an error.
    pub fn write_tcp_stream(&mut self, buffer: &[u8], outcome: WriteOutcome) -> (result: Result<
        (),
        AppError,
    >)
        ensures
            match outcome {
                WriteOutcome::Written => result is Ok && final(self)@ == old(self)@,
                WriteOutcome::Eof => result is Ok && final(self)@ == (ConnectionState {
                    events: old(self)@.events.push(ConnectionEvent::Closing),
                    ..old(self)@
                }),
                WriteOutcome::WouldBlock => {
                    &&& result is Ok
                    &&& final(self)@.closed == old(self)@.closed
                    &&& final(self)@.write_blocked
                    &&& final(self)@.events.len() == old(self)@.events.len() + 1
                    &&& final(self)@.events[0] matches ConnectionEvent::Write(data)
                    &&& data@ == buffer@
                    &&& final(self)@.events.drop_first() == old(self)@.events
                },
                WriteOutcome::Failed(cause) => {
                    &&& final(self)@ == old(self)@
                    &&& result matches Err(err)
                    &&& err.is_caused("Error writing to TCP connection"@, cause@)
                },
            },
    {
        match outcome {
            WriteOutcome::Written => Ok(()),
            WriteOutcome::Eof => {
                self.events.push(ConnectionEvent::Closing);
                Ok(())
            },
            WriteOutcome::WouldBlock => {
                let ghost before = self@.events;
                self.events.insert(0, ConnectionEvent::Write(slice_to_vec(buffer)));
                self.write_blocked = true;
                assert(self@.events.drop_first() =~= before);
                Ok(())
            },
            WriteOutcome::Failed(cause) => Err(
                AppError::GenWithMsgAndErr(
                    String::from_str("Error writing to TCP connection"),
                    cause,
                ),
            ),
        }
    }

    /// Takes note of how writing `buffer` to the stream went, as
    /// `write_tcp_stream` does; after a failure a request to close waits at
    /// the end of the queue and the failure is returned.
    pub fn write(&mut self, buffer: &[u8], outcome: WriteOutcome) -> (result: Result<(), AppError>)
        ensures
            match outcome {
                WriteOutcome::Written => result is Ok && final(self)@ == old(self)@,
                WriteOutcome::Eof => result is Ok && final(self)@ == (ConnectionState {
                    events: old(self)@.events.push(ConnectionEvent::Closing),
                    ..old(self)@
                }),
                WriteOutcome::WouldBlock => {
                    &&& result is Ok
                    &&& final(self)@.closed == old(self)@.closed
                    &&& final(self)@.write_blocked
                    &&& final(self)@.events.len() == old(self)@.events.len() + 1
                    &&& final(self)@.events[0] matches ConnectionEvent::Write(data)
                    &&& data@ == buffer@
                    &&& final(self)@.events.drop_first() == old(self)@.events
                },
                WriteOutcome::Failed(cause) => {
                    &&& final(self)@ == (ConnectionState {
                        events: old(self)@.events.push(ConnectionEvent::Closing),
                        ..old(self)@
                    })
                    &&& result matches Err(err)
                    &&& err.is_caused("Error writing to TCP connection"@, cause@)
                },
            },
    {
        let result = self.write_tcp_stream(buffer, outcome);
        if result.is_err() {
            self.events.push(ConnectionEvent::Closing);
        }
        result
    }

    /// Takes note of how shutting the stream down went; `None` says that
    /// it was not tried. A connection that is closed stays as it is. A
    /// shutdown that failed is an error and leaves the connection open.
    /// After a shutdown the connection is closed, the note that it is
    /// waits at the end of the queue, and the visitor is told; what the
    /// visitor answers is returned.
    pub fn shutdown(&mut self, stream_shutdown: Result<(), String>) -> (result: Result<(), AppError>)
        ensures
            old(self)@.closed ==> result is Ok && final(self)@ == old(self)@,
            !old(self)@.closed ==> match stream_shutdown {
                Ok(_) => final(self)@ == (ConnectionState {
                    events: old(self)@.events.push(ConnectionEvent::Closed),
                    closed: true,
                    ..old(self)@
                }),
                Err(cause) => {
                    &&& final(self)@ == old(self)@
                    &&& result matches Err(err)
                    &&& err.is_caused("Error shutting down TCP connection"@, cause@)
                },
            },
    {
        if self.closed {
            return Ok(());
        }
        match stream_shutdown {
            Err(cause) => Err(
                AppError::GenWithMsgAndErr(
                    String::from_str("Error shutting down TCP connection"),
                    cause,
                ),
            ),
            Ok(_) => {
                self.closed = true;
                self.events.push(ConnectionEvent::Closed);
                self.visitor.on_shutdown()
            },
        }
    }
}

/// Whether the event is a request to close.
fn is_closing(event: &ConnectionEvent) -> (closing: bool)
    ensures
        closing == (*event is Closing),
{
    match event {
        ConnectionEvent::Closing => true,
        _ => false,
    }
}

} // verus!
