//! A UDP listener: it is bound, polled for datagrams, and shut down.
//!
//! The server owns no socket. Its caller binds, polls and receives, and
//! tells the server how each of these went; the server keeps the state,
//! names the errors and calls the visitor.

use vstd::prelude::*;
use vstd::string::*;
use crate::error::AppError;
use crate::net::addr::SocketAddress;
use crate::net::io::{filled, filled_bytes, IoErrorKind, IoFailure};
use crate::text::{append_decimal, decimal};

verus! {

/// How long one wait for readiness lasts, in milliseconds.
pub const POLL_DURATION_MSECS: u64 = 1000;

/// The largest datagram that is received, in bytes.
pub const RECV_BUFFER_SIZE: usize = 65536;

/// Hooks that decide what a server does with what it receives.
pub trait ServerVisitor: Send {
    /// The listener is bound. A visitor that does not say otherwise stays
    /// as it is and answers with success.
    fn on_listening(&mut self) -> (result: Result<(), AppError>)
        default_ensures
            result is Ok,
            &*final(self) == &*old(self),
    {
        Ok(())
    }

    /// A datagram came in on `local_addr` from `peer_addr`.
    fn on_message_received(
        &mut self,
        local_addr: &SocketAddress,
        peer_addr: &SocketAddress,
        data: Vec<u8>,
    ) -> (result: Result<(), AppError>);

    /// Whether the listener is asked to shut down.
    fn get_shutdown_requested(&self) -> (requested: bool);
}

/// How binding the socket went.
pub enum BindOutcome {
    /// Bound and made non-blocking; the address it is bound to.
    Bound(SocketAddress),
    /// Binding failed, with the cause.
    BindFailed(String),
    /// Bound, but it could not be made non-blocking, with the cause.
    NonBlockingFailed(String),
}

/// How setting up the readiness poller went.
pub enum PollerSetup {
    /// The poller waits on the socket.
    Ready,
    /// The socket could not be cloned, with the cause.
    SocketCloneFailed(String),
    /// The poller could not be created, with the cause.
    CreateFailed(String),
    /// The socket could not be registered with the poller, with the cause.
    RegisterFailed(String),
}

/// How one wait for readiness went.
pub enum PollOutcome {
    /// The wait ended: the socket may be readable.
    Ready,
    /// Nothing to wait for right now.
    WouldBlock,
    /// The wait failed, with the cause.
    Failed(String),
}

/// How receiving one datagram went.
pub enum RecvOutcome {
    /// A datagram from `peer`.
    Datagram { peer: SocketAddress, data: Vec<u8> },
    /// No datagram is waiting.
    WouldBlock,
    /// Receiving failed, with the cause.
    Failed(String),
}

/// What a wait for readiness that returned `polled` comes to.
pub open spec fn poll_outcome_of(polled: Result<(), IoFailure>, outcome: PollOutcome) -> bool {
    match polled {
        Ok(_) => outcome is Ready,
        Err(failure) => match failure.kind {
            IoErrorKind::WouldBlock => outcome is WouldBlock,
            _ => outcome matches PollOutcome::Failed(cause) && cause@ == failure.cause@,
        },
    }
}

/// What a receive that returned `received` into `buffer` comes to: a
/// datagram of exactly the bytes that were received, from the peer that
/// sent them.
pub open spec fn recv_outcome_of(
    buffer: Seq<u8>,
    received: Result<(usize, SocketAddress), IoFailure>,
    outcome: RecvOutcome,
) -> bool {
    match received {
        Ok((size, from)) => outcome matches RecvOutcome::Datagram { peer, data } && peer == from
            && data@ == filled(buffer, size),
        Err(failure) => match failure.kind {
            IoErrorKind::WouldBlock => outcome is WouldBlock,
            _ => outcome matches RecvOutcome::Failed(cause) && cause@ == failure.cause@,
        },
    }
}

impl PollOutcome {
    /// Says how a wait for readiness went, given what it returned.
    pub fn classify(polled: Result<(), IoFailure>) -> (outcome: PollOutcome)
        ensures
            poll_outcome_of(polled, outcome),
    {
        match polled {
            Ok(_) => PollOutcome::Ready,
            Err(failure) => match failure.kind {
                IoErrorKind::WouldBlock => PollOutcome::WouldBlock,
                _ => PollOutcome::Failed(failure.cause),
            },
        }
    }
}

impl RecvOutcome {
    /// Says how a receive went, given the buffer that was received into
    /// and what the receive returned: the size of the datagram and the
    /// peer, or the failure. The datagram is cut to its size.
    pub fn classify(buffer: &[u8], received: Result<(usize, SocketAddress), IoFailure>) -> (outcome:
        RecvOutcome)
        ensures
            recv_outcome_of(buffer@, received, outcome),
    {
        match received {
            Ok((size, from)) => RecvOutcome::Datagram {
                peer: from,
                data: filled_bytes(buffer, size),
            },
            Err(failure) => match failure.kind {
                IoErrorKind::WouldBlock => RecvOutcome::WouldBlock,
                _ => RecvOutcome::Failed(failure.cause),
            },
        }
    }
}

/// What the caller does after a wait for readiness.
#[derive(Clone, Copy, Debug, PartialEq, Eq, Structural)]
pub enum PollStep {
    /// Receive one datagram and hand the outcome to `accept_message`.
    Receive,
    /// Nothing to receive in this cycle.
    Idle,
}

/// The state of a server, without its visitor.
pub struct ServerState {
    pub server_port: u16,
    pub local_addr: Option<SocketAddress>,
    pub polling: bool,
    pub closing: bool,
    pub closed: bool,
    pub polling_error: Option<AppError>,
}

/// A UDP server that listens on `[::]` and a port.
pub struct Server<V: ServerVisitor> {
    visitor: V,
    server_port: u16,
    local_addr: Option<SocketAddress>,
    polling: bool,
    closing: bool,
    closed: bool,
    polling_error: Option<AppError>,
}

/// The text of the address `[::]` with `port`.
pub open spec fn server_addr_text(port: u16) -> Seq<char> {
    "[::]:"@ + decimal(port as nat)
}

/// The state after the poller and the listener are shut down.
pub open spec fn shut_down(state: ServerState) -> ServerState {
    ServerState { local_addr: None, polling: false, closing: true, closed: true, ..state }
}

/// The state after a shutdown is asked for: at once when nothing polls,
/// else at the end of the polling cycle.
pub open spec fn shutdown_requested(state: ServerState) -> ServerState {
    if !state.polling {
        shut_down(state)
    } else {
        ServerState { polling: false, ..state }
    }
}

/// The state after a cycle of polling, given whether the visitor asks for a shutdown.
pub open spec fn cycle_ended(state: ServerState, requested: bool) -> ServerState {
    if requested {
        ServerState { polling: false, closing: true, ..state }
    } else {
        state
    }
}

/// The state after polling has ended.
pub open spec fn polling_finished(state: ServerState) -> ServerState {
    let state = ServerState { polling_error: None, ..state };
    if state.closing {
        shut_down(state)
    } else {
        state
    }
}

/// The error for polling a server in the given state, if it cannot be polled.
pub open spec fn polling_refused(state: ServerState, err: AppError) -> bool {
    if state.local_addr is None {
        err.is_general("Gateway not listening"@)
    } else {
        state.polling && err.is_general(
            "Already polling for new messages: server_addr="@ + server_addr_text(state.server_port),
        )
    }
}

impl<V: ServerVisitor> Server<V> {
    /// The state of the server.
    pub closed spec fn view(&self) -> ServerState {
        ServerState {
            server_port: self.server_port,
            local_addr: self.local_addr,
            polling: self.polling,
            closing: self.closing,
            closed: self.closed,
            polling_error: self.polling_error,
        }
    }

    /// A server for `server_port` that is not bound yet.
    pub fn new(visitor: V, server_port: u16) -> (result: Result<Self, AppError>)
        ensures
            result is Ok,
            result->Ok_0@ == (ServerState {
                server_port,
                local_addr: None,
                polling: false,
                closing: false,
                closed: false,
                polling_error: None,
            }),
    {
        Ok(
            Server {
                visitor,
                server_port,
                local_addr: None,
                polling: false,
                closing: false,
                closed: false,
                polling_error: None,
            },
        )
    }

    /// The port the server listens on.
    pub fn server_port(&self) -> (port: u16)
        ensures
            port == self@.server_port,
    {
        self.server_port
    }

    /// The address the server binds to, as text.
    pub fn server_addr(&self) -> (text: String)
        ensures
            text@ == server_addr_text(self@.server_port),
    {
        let mut text = String::from_str("[::]:");
        append_decimal(&mut text, self.server_port as u64);
        text
    }

    /// Whether the server is bound.
    pub fn is_listening(&self) -> (listening: bool)
        ensures
            listening == self@.local_addr is Some,
    {
        self.local_addr.is_some()
    }

    /// Whether the server is being polled.
    pub fn is_polling(&self) -> (polling: bool)
        ensures
            polling == self@.polling,
    {
        self.polling
    }

    /// Whether the server has been shut down.
    pub fn is_closed(&self) -> (closed: bool)
        ensures
            closed == self@.closed,
    {
        self.closed
    }

    /// An error whose message is `prefix` followed by the server's address.
    fn addr_error(&self, prefix: &str, cause: &String) -> (err: AppError)
        ensures
            err.is_caused(prefix@ + server_addr_text(self@.server_port), cause@),
    {
        let mut message = String::from_str(prefix);
        message.append("[::]:");
        append_decimal(&mut message, self.server_port as u64);
        assert(message@ =~= prefix@ + server_addr_text(self@.server_port));
        AppError::GenWithMsgAndErr(message, cause.clone())
    }

    /// Takes note of how binding went. Once bound, the server listens and is
    /// neither polled nor closed, and the visitor is told; what the visitor
    /// answers is returned. A failure to bind leaves the server as it was.
    pub fn bind_listener(&mut self, outcome: BindOutcome) -> (result: Result<(), AppError>)
        ensures
            match outcome {
                BindOutcome::Bound(addr) => final(self)@ == (ServerState {
                    local_addr: Some(addr),
                    polling: false,
                    closing: false,
                    closed: false,
                    ..old(self)@
                }),
                BindOutcome::BindFailed(cause) => {
                    &&& final(self)@ == old(self)@
                    &&& result matches Err(err)
                    &&& err.is_caused(
                        "Error binding UDP socket: server_addr="@ + server_addr_text(
                            old(self)@.server_port,
                        ),
                        cause@,
                    )
                },
                BindOutcome::NonBlockingFailed(cause) => {
                    &&& final(self)@ == old(self)@
                    &&& result matches Err(err)
                    &&& err.is_caused(
                        "Failed making UDP server socket non-blocking: server_addr="@
                            + server_addr_text(old(self)@.server_port),
                        cause@,
                    )
                },
            },
    {
        match outcome {
            BindOutcome::BindFailed(cause) => Err(
                self.addr_error("Error binding UDP socket: server_addr=", &cause),
            ),
            BindOutcome::NonBlockingFailed(cause) => Err(
                self.addr_error(
                    "Failed making UDP server socket non-blocking: server_addr=",
                    &cause,
                ),
            ),
            BindOutcome::Bound(addr) => {
                self.local_addr = Some(addr);
                self.closing = false;
                self.closed = false;
                self.polling = false;
                self.visitor.on_listening()
            },
        }
    }

    /// Asks the poller and the listener to shut down: at once when nothing
    /// polls, else at the end of the polling cycle.
    pub fn shutdown(&mut self)
        ensures
            final(self)@ == shutdown_requested(old(self)@),
    {
        if !self.polling {
            self.perform_shutdown();
        } else {
            self.polling = false;
        }
    }

    /// Asks the poller to stop.
    pub fn stop_poller(&mut self)
        ensures
            final(self)@ == (ServerState { polling: false, ..old(self)@ }),
    {
        self.polling = false;
    }

    /// Shuts the poller and the listener down.
    fn perform_shutdown(&mut self)
        ensures
            final(self)@ == shut_down(old(self)@),
    {
        self.closing = true;
        self.closed = true;
        self.polling = false;
        self.local_addr = None;
    }

    /// Fails unless the server is bound.
    pub fn assert_listening(&self) -> (result: Result<(), AppError>)
        ensures
            result is Ok <==> self@.local_addr is Some,
            result matches Err(err) ==> err.is_general("Gateway not listening"@),
    {
        if self.local_addr.is_none() {
            return Err(AppError::general("Gateway not listening"));
        }
        Ok(())
    }

    /// Whether polling may start: the server is bound and not being polled.
    pub fn check_can_poll(&self) -> (result: Result<(), AppError>)
        ensures
            result is Ok <==> self@.local_addr is Some && !self@.polling,
            result matches Err(err) ==> polling_refused(self@, err),
    {
        self.assert_listening()?;
        if self.polling {
            let mut message = String::from_str("Already polling for new messages: server_addr=");
            message.append("[::]:");
            append_decimal(&mut message, self.server_port as u64);
            assert(message@ =~= "Already polling for new messages: server_addr="@
                + server_addr_text(self@.server_port));
            return Err(AppError::General(message));
        }
        Ok(())
    }

    /// Starts polling, given how setting up the poller went. Fails, and
    /// changes nothing, when the server cannot be polled or the poller is
    /// not ready.
    pub fn poll_new_messages(&mut self, setup: PollerSetup) -> (result: Result<(), AppError>)
        ensures
            result is Ok <==> old(self)@.local_addr is Some && !old(self)@.polling
                && setup is Ready,
            result is Ok ==> final(self)@ == (ServerState { polling: true, ..old(self)@ }),
            result is Err ==> final(self)@ == old(self)@,
            result matches Err(err) ==> {
                if !(old(self)@.local_addr is Some && !old(self)@.polling) {
                    polling_refused(old(self)@, err)
                } else {
                    match setup {
                        PollerSetup::Ready => false,
                        PollerSetup::SocketCloneFailed(cause) => err.is_caused(
                            "Failed to clone UDP server socket"@,
                            cause@,
                        ),
                        PollerSetup::CreateFailed(cause) => err.is_caused(
                            "Error creating new MIO poller"@,
                            cause@,
                        ),
                        PollerSetup::RegisterFailed(cause) => err.is_caused(
                            "Error registering udp server socket in MIO registry"@,
                            cause@,
                        ),
                    }
                }
            },
    {
        self.check_can_poll()?;
        match setup {
            PollerSetup::Ready => {
                self.polling = true;
                Ok(())
            },
            PollerSetup::SocketCloneFailed(cause) => Err(
                AppError::GenWithMsgAndErr(
                    String::from_str("Failed to clone UDP server socket"),
                    cause,
                ),
            ),
            PollerSetup::CreateFailed(cause) => Err(
                AppError::GenWithMsgAndErr(String::from_str("Error creating new MIO poller"), cause),
            ),
            PollerSetup::RegisterFailed(cause) => Err(
                AppError::GenWithMsgAndErr(
                    String::from_str("Error registering udp server socket in MIO registry"),
                    cause,
                ),
            ),
        }
    }

    /// Takes note of how one wait for readiness went, and says whether a
    /// datagram is to be received. A failed wait ends the polling and is
    /// kept for `finish_polling`.
    pub fn on_poll(&mut self, outcome: PollOutcome) -> (step: PollStep)
        ensures
            match outcome {
                PollOutcome::Ready => step == PollStep::Receive && final(self)@ == old(self)@,
                PollOutcome::WouldBlock => step == PollStep::Idle && final(self)@ == old(self)@,
                PollOutcome::Failed(cause) => {
                    &&& step == PollStep::Idle
                    &&& final(self)@ == (ServerState {
                        polling: false,
                        polling_error: final(self)@.polling_error,
                        ..old(self)@
                    })
                    &&& final(self)@.polling_error matches Some(err)
                    &&& err.is_caused("Error while polling for IO events"@, cause@)
                },
            },
    {
        match outcome {
            PollOutcome::Ready => PollStep::Receive,
            PollOutcome::WouldBlock => PollStep::Idle,
            PollOutcome::Failed(cause) => {
                self.polling_error = Some(
                    AppError::GenWithMsgAndErr(
                        String::from_str("Error while polling for IO events"),
                        cause,
                    ),
                );
                self.polling = false;
                PollStep::Idle
            },
        }
    }

    /// What the visitor is handed for what was received: the address the
    /// server is bound to, the peer, and the bytes of the datagram as they
    /// came; or the error that says why there is no datagram.
    pub fn message_for_visitor(&self, received: RecvOutcome) -> (result: Result<
        (SocketAddress, SocketAddress, Vec<u8>),
        AppError,
    >)
        requires
            self@.local_addr is Some,
        ensures
            match received {
                RecvOutcome::Datagram { peer, data } => {
                    &&& result matches Ok(message)
                    &&& message.0 == self@.local_addr->0
                    &&& message.1 == peer
                    &&& message.2 == data
                },
                RecvOutcome::WouldBlock => result == Err::<
                    (SocketAddress, SocketAddress, Vec<u8>),
                    AppError,
                >(AppError::WouldBlock),
                RecvOutcome::Failed(cause) => {
                    &&& result matches Err(err)
                    &&& err.is_caused(
                        "Error receiving message: server_addr="@ + server_addr_text(
                            self@.server_port,
                        ),
                        cause@,
                    )
                },
            },
    {
        match received {
            RecvOutcome::WouldBlock => Err(AppError::WouldBlock),
            RecvOutcome::Failed(cause) => Err(
                self.addr_error("Error receiving message: server_addr=", &cause),
            ),
            RecvOutcome::Datagram { peer, data } => Ok((self.local_addr.unwrap(), peer, data)),
        }
    }

    /// Takes what was received to the visitor: the visitor is handed what
    /// `message_for_visitor` gives for a datagram, and its answer is
    /// returned; when there is no datagram the error is returned and the
    /// visitor is not asked. The state does not change.
    pub fn accept_message(&mut self, received: RecvOutcome) -> (result: Result<(), AppError>)
        requires
            old(self)@.local_addr is Some,
        ensures
            final(self)@ == old(self)@,
            received is WouldBlock ==> result == Err::<(), AppError>(AppError::WouldBlock),
            received matches RecvOutcome::Failed(cause) ==> {
                &&& result matches Err(err)
                &&& err.is_caused(
                    "Error receiving message: server_addr="@ + server_addr_text(
                        old(self)@.server_port,
                    ),
                    cause@,
                )
            },
    {
        let (local_addr, peer_addr, data) = self.message_for_visitor(received)?;
        self.visitor.on_message_received(&local_addr, &peer_addr, data)
    }

    /// Whether a failure to accept a message is worth reporting: all but
    /// the one that says no datagram was waiting.
    pub fn is_reportable(err: &AppError) -> (reportable: bool)
        ensures
            reportable == !(err is WouldBlock),
    {
        match err {
            AppError::WouldBlock => false,
            _ => true,
        }
    }

    /// Ends one cycle of polling, given whether a shutdown is asked for:
    /// if it is, the polling stops and the server is closing. Says whether
    /// to poll again.
    pub fn end_cycle(&mut self, requested: bool) -> (again: bool)
        ensures
            final(self)@ == cycle_ended(old(self)@, requested),
            again == final(self)@.polling,
    {
        if requested {
            self.polling = false;
            self.closing = true;
        }
        self.polling
    }

    /// Ends one cycle of polling, as `end_cycle` does, after asking the
    /// visitor whether a shutdown is asked for.
    pub fn end_poll_cycle(&mut self) -> (again: bool)
        ensures
            exists|requested: bool| final(self)@ == cycle_ended(old(self)@, requested),
            again == final(self)@.polling,
    {
        let requested = self.visitor.get_shutdown_requested();
        self.end_cycle(requested)
    }

    /// Ends the polling: a server that is closing is shut down. Returns the
    /// failure that ended the polling, if one did.
    pub fn finish_polling(&mut self) -> (failure: Option<AppError>)
        ensures
            failure == old(self)@.polling_error,
            final(self)@ == polling_finished(old(self)@),
    {
        let failure = self.polling_error.take();
        if self.closing {
            self.perform_shutdown();
        }
        failure
    }
}

} // verus!
