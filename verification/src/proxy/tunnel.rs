//! One tunnel: two streams and the two pumps that copy from each to the
//! other, until both are done or the tunnel is torn down.
//!
//! The tunnel owns no stream. Its caller reads and writes, and tells the
//! tunnel how each read went; the tunnel says what to do with what was
//! read, and when to publish that it is closed.

use vstd::prelude::*;
use crate::net::io::{filled, filled_bytes, IoErrorKind, IoFailure};
use crate::proxy::event::ProxyEvent;

verus! {

/// The most bytes that a pump of a TCP tunnel reads at once.
pub const TCP_CHUNK_SIZE: usize = 1024;

/// The most bytes that a pump of a UDP tunnel reads at once.
pub const UDP_CHUNK_SIZE: usize = 65536;

/// One of the two pumps of a tunnel, by the way it copies.
#[derive(Clone, Copy, Debug, PartialEq, Eq, Structural)]
pub enum Direction {
    /// From the first stream to the second.
    Forward,
    /// From the second stream to the first.
    Backward,
}

/// How one read of a pump went.
pub enum PumpRead {
    /// These bytes were read.
    Data(Vec<u8>),
    /// The read returned no bytes: the stream has ended.
    Eof,
    /// Nothing to read right now.
    WouldBlock,
    /// The read failed.
    Failed,
}

/// What the caller does after a read.
#[derive(Debug, PartialEq)]
pub enum PumpAction {
    /// Write all of these bytes to the far stream.
    Write(Vec<u8>),
    /// Wait a moment and read again.
    Retry,
    /// Shut the writing half of the far stream down; this pump is done.
    HalfClose,
    /// Shut both streams down and publish the event: the tunnel is gone.
    Reap(ProxyEvent),
    /// Nothing: the pump is done already.
    Ignore,
}

/// The state of a tunnel.
pub struct TunnelState {
    /// The proxy key of the tunnel.
    pub proxy_key: Seq<char>,
    /// Whether the pump from the first stream to the second still runs.
    pub forward_open: bool,
    /// Whether the pump from the second stream to the first still runs.
    pub backward_open: bool,
    /// Whether the tunnel is gone.
    pub closed: bool,
}

/// What a pump or a request to close makes of a tunnel, as plain values.
pub enum Step {
    Write(Seq<u8>),
    Retry,
    HalfClose,
    Reap,
    Ignore,
}

/// Something that happens to a tunnel.
pub enum Happening {
    /// A read of the pump in this direction went this way.
    Read(Direction, ReadResult),
    /// The tunnel is asked to close.
    Close,
    /// A write to one of the streams failed.
    WriteFailed,
}

/// How a read went, as plain values.
pub enum ReadResult {
    Data(Seq<u8>),
    Eof,
    WouldBlock,
    Failed,
}

/// Whether the pump in the given direction still runs.
pub open spec fn pump_open(state: TunnelState, direction: Direction) -> bool {
    !state.closed && match direction {
        Direction::Forward => state.forward_open,
        Direction::Backward => state.backward_open,
    }
}

/// The tunnel after it is torn down.
pub open spec fn torn_down(state: TunnelState) -> TunnelState {
    TunnelState { forward_open: false, backward_open: false, closed: true, ..state }
}

/// The tunnel after something happened to it, and what the caller does.
/// A pump that is done ignores what is read. Bytes that were read are
/// written to the far stream. A stream that ended ends its pump: the far
/// stream is closed by half while the other pump runs, and the tunnel is
/// torn down when it does not. A failed read, or a request to close, tears
/// the tunnel down.
pub open spec fn step(state: TunnelState, happening: Happening) -> (TunnelState, Step) {
    match happening {
        Happening::Close | Happening::WriteFailed => if state.closed {
            (state, Step::Ignore)
        } else {
            (torn_down(state), Step::Reap)
        },
        Happening::Read(direction, read) => if !pump_open(state, direction) {
            (state, Step::Ignore)
        } else {
            match read {
                ReadResult::Data(bytes) => (state, Step::Write(bytes)),
                ReadResult::WouldBlock => (state, Step::Retry),
                ReadResult::Failed => (torn_down(state), Step::Reap),
                ReadResult::Eof => {
                    let other_open = match direction {
                        Direction::Forward => state.backward_open,
                        Direction::Backward => state.forward_open,
                    };
                    if other_open {
                        (
                            match direction {
                                Direction::Forward => TunnelState { forward_open: false, ..state },
                                Direction::Backward => TunnelState {
                                    backward_open: false,
                                    ..state
                                },
                            },
                            Step::HalfClose,
                        )
                    } else {
                        (torn_down(state), Step::Reap)
                    }
                },
            }
        },
    }
}

/// The tunnel after all of this happened to it, in order.
pub open spec fn state_after(state: TunnelState, happenings: Seq<Happening>) -> TunnelState
    decreases happenings.len(),
{
    if happenings.len() == 0 {
        state
    } else {
        step(state_after(state, happenings.drop_last()), happenings.last()).0
    }
}

/// How often the tunnel is reported closed while all of this happens to it.
pub open spec fn reaps(state: TunnelState, happenings: Seq<Happening>) -> nat
    decreases happenings.len(),
{
    if happenings.len() == 0 {
        0
    } else {
        let before = reaps(state, happenings.drop_last());
        if step(state_after(state, happenings.drop_last()), happenings.last()).1 is Reap {
            before + 1
        } else {
            before
        }
    }
}

/// What is written to the far stream of one direction while all of this
/// happens to the tunnel, in order.
pub open spec fn written(state: TunnelState, happenings: Seq<Happening>, direction: Direction) -> Seq<
    u8,
>
    decreases happenings.len(),
{
    if happenings.len() == 0 {
        Seq::empty()
    } else {
        let before = written(state, happenings.drop_last(), direction);
        match (
            happenings.last(),
            step(state_after(state, happenings.drop_last()), happenings.last()).1,
        ) {
            (Happening::Read(d, _), Step::Write(bytes)) => if d == direction {
                before + bytes
            } else {
                before
            },
            _ => before,
        }
    }
}

/// What is read from the near stream of one direction, in order.
pub open spec fn read_in(happenings: Seq<Happening>, direction: Direction) -> Seq<u8>
    decreases happenings.len(),
{
    if happenings.len() == 0 {
        Seq::empty()
    } else {
        let before = read_in(happenings.drop_last(), direction);
        match happenings.last() {
            Happening::Read(d, ReadResult::Data(bytes)) => if d == direction {
                before + bytes
            } else {
                before
            },
            _ => before,
        }
    }
}

/// The bytes of the chunks, one after the other.
pub open spec fn delivered(chunks: Seq<Seq<u8>>) -> Seq<u8>
    decreases chunks.len(),
{
    if chunks.len() == 0 {
        Seq::empty()
    } else {
        delivered(chunks.drop_last()) + chunks.last()
    }
}

/// The chunks that a stream falls into when it is cut at the given places:
/// the first chunk ends at the first cut, the last one at the end of the stream.
pub open spec fn chunks_of(stream: Seq<u8>, cuts: Seq<int>) -> Seq<Seq<u8>>
    decreases cuts.len(),
{
    if cuts.len() == 0 {
        seq![stream]
    } else {
        chunks_of(stream.subrange(0, cuts.last()), cuts.drop_last()).push(
            stream.subrange(cuts.last(), stream.len() as int),
        )
    }
}

/// Whether the cuts are places in a stream of the given length, in order.
pub open spec fn cuts_in_order(cuts: Seq<int>, len: int) -> bool {
    &&& forall|i: int| 0 <= i < cuts.len() ==> 0 <= #[trigger] cuts[i] <= len
    &&& forall|i: int, j: int| 0 <= i <= j < cuts.len() ==> cuts[i] <= cuts[j]
}

/// However a stream is cut into chunks, the chunks put together in order
/// are the stream: every byte is delivered, once, and in its place.
pub proof fn lemma_delivered_in_full(stream: Seq<u8>, cuts: Seq<int>)
    requires
        cuts_in_order(cuts, stream.len() as int),
    ensures
        delivered(chunks_of(stream, cuts)) == stream,
    decreases cuts.len(),
{
    if cuts.len() == 0 {
        let one = seq![stream];
        assert(one.drop_last() =~= Seq::<Seq<u8>>::empty());
        assert(delivered(one.drop_last()) =~= Seq::<u8>::empty());
        assert(one.last() == stream);
        assert(delivered(one) =~= delivered(one.drop_last()) + one.last());
        assert(delivered(one) =~= stream);
    } else {
        let head = stream.subrange(0, cuts.last());
        let tail = stream.subrange(cuts.last(), stream.len() as int);
        assert(cuts_in_order(cuts.drop_last(), head.len() as int)) by {
            assert forall|i: int| 0 <= i < cuts.drop_last().len() implies 0
                <= #[trigger] cuts.drop_last()[i] <= head.len() by {
                assert(cuts[i] <= cuts[cuts.len() - 1]);
            }
        }
        lemma_delivered_in_full(head, cuts.drop_last());
        let chunks = chunks_of(stream, cuts);
        assert(chunks.drop_last() =~= chunks_of(head, cuts.drop_last()));
        assert(chunks.last() == tail);
        assert(head + tail =~= stream);
    }
}

/// The reads of one pump that bring the chunks in, in order.
pub open spec fn reads_of(chunks: Seq<Seq<u8>>, direction: Direction) -> Seq<Happening> {
    Seq::new(chunks.len(), |i: int| Happening::Read(direction, ReadResult::Data(chunks[i])))
}

/// Reads that bring bytes in leave the tunnel as it is, and what is read
/// in all is the chunks put together.
pub proof fn lemma_reads_of(state: TunnelState, chunks: Seq<Seq<u8>>, direction: Direction)
    ensures
        state_after(state, reads_of(chunks, direction)) == state,
        read_in(reads_of(chunks, direction), direction) == delivered(chunks),
    decreases chunks.len(),
{
    let reads = reads_of(chunks, direction);
    if chunks.len() > 0 {
        lemma_reads_of(state, chunks.drop_last(), direction);
        assert(reads.drop_last() =~= reads_of(chunks.drop_last(), direction));
        assert(reads.last() == Happening::Read(direction, ReadResult::Data(chunks.last())));
    }
}

/// A stream that one pump of a tunnel reads while it runs is written to
/// the far stream in full and in order, however the stream falls into
/// reads.
pub proof fn lemma_stream_delivered(
    state: TunnelState,
    stream: Seq<u8>,
    cuts: Seq<int>,
    direction: Direction,
)
    requires
        pump_open(state, direction),
        cuts_in_order(cuts, stream.len() as int),
    ensures
        written(state, reads_of(chunks_of(stream, cuts), direction), direction) == stream,
{
    let chunks = chunks_of(stream, cuts);
    lemma_reads_of(state, chunks, direction);
    lemma_written_as_read(state, reads_of(chunks, direction), direction);
    lemma_delivered_in_full(stream, cuts);
}

/// Whatever happens to a tunnel, it is reported closed at most once: once
/// exactly when it ends up closed and was not before, and never when it
/// was closed to begin with. A tunnel that is closed stays closed.
pub proof fn lemma_closed_once(state: TunnelState, happenings: Seq<Happening>)
    ensures
        state.closed ==> state_after(state, happenings) == state && reaps(state, happenings) == 0,
        !state.closed ==> reaps(state, happenings) == (if state_after(state, happenings).closed {
            1nat
        } else {
            0nat
        }),
    decreases happenings.len(),
{
    if happenings.len() > 0 {
        lemma_closed_once(state, happenings.drop_last());
    }
}

/// While the pump of one direction runs, all that it reads is written to
/// the far stream, in order, whatever the other pump does and however the
/// stream falls into reads.
pub proof fn lemma_written_as_read(
    state: TunnelState,
    happenings: Seq<Happening>,
    direction: Direction,
)
    requires
        pump_open(state_after(state, happenings), direction),
    ensures
        written(state, happenings, direction) == read_in(happenings, direction),
    decreases happenings.len(),
{
    if happenings.len() > 0 {
        let before = state_after(state, happenings.drop_last());
        assert(pump_open(before, direction)) by {
            lemma_pump_stays_done(before, happenings.last(), direction);
        }
        lemma_written_as_read(state, happenings.drop_last(), direction);
    }
}

/// A pump that is done is not started again.
pub proof fn lemma_pump_stays_done(state: TunnelState, happening: Happening, direction: Direction)
    ensures
        pump_open(step(state, happening).0, direction) ==> pump_open(state, direction),
{
}

/// A tunnel between two streams, known by its proxy key.
pub struct Tunnel {
    proxy_key: String,
    forward_open: bool,
    backward_open: bool,
    closed: bool,
}

/// A read as plain values.
pub open spec fn read_view(read: PumpRead) -> ReadResult {
    match read {
        PumpRead::Data(bytes) => ReadResult::Data(bytes@),
        PumpRead::Eof => ReadResult::Eof,
        PumpRead::WouldBlock => ReadResult::WouldBlock,
        PumpRead::Failed => ReadResult::Failed,
    }
}

/// What a read that returned `read` into `buffer` comes to: a read of no
/// bytes, like one that ended where more was expected, is the end of the
/// stream; a read of some bytes brings exactly those bytes; a read that
/// would have had to wait is tried again; any other failure is a failure.
pub open spec fn pump_read_of(buffer: Seq<u8>, read: Result<usize, IoFailure>) -> ReadResult {
    match read {
        Ok(size) => if size == 0 {
            ReadResult::Eof
        } else {
            ReadResult::Data(filled(buffer, size))
        },
        Err(failure) => match failure.kind {
            IoErrorKind::UnexpectedEof => ReadResult::Eof,
            IoErrorKind::WouldBlock => ReadResult::WouldBlock,
            IoErrorKind::Other => ReadResult::Failed,
        },
    }
}

impl PumpRead {
    /// Says how a read of a pump went, given the buffer that was read into
    /// and what the read returned: the number of bytes, or the failure.
    pub fn classify(buffer: &[u8], read: Result<usize, IoFailure>) -> (outcome: PumpRead)
        ensures
            read_view(outcome) == pump_read_of(buffer@, read),
    {
        match read {
            Ok(size) => if size == 0 {
                PumpRead::Eof
            } else {
                PumpRead::Data(filled_bytes(buffer, size))
            },
            Err(failure) => match failure.kind {
                IoErrorKind::UnexpectedEof => PumpRead::Eof,
                IoErrorKind::WouldBlock => PumpRead::WouldBlock,
                IoErrorKind::Other => PumpRead::Failed,
            },
        }
    }
}

/// Whether `action` is what `step` asks for from a tunnel with the given key.
pub open spec fn action_is(action: PumpAction, step: Step, proxy_key: Seq<char>) -> bool {
    match step {
        Step::Write(bytes) => action matches PumpAction::Write(b) && b@ == bytes,
        Step::Retry => action is Retry,
        Step::HalfClose => action is HalfClose,
        Step::Reap => action matches PumpAction::Reap(ProxyEvent::Closed(key)) && key@
            == proxy_key,
        Step::Ignore => action is Ignore,
    }
}

impl Tunnel {
    /// The state of the tunnel.
    pub closed spec fn view(&self) -> TunnelState {
        TunnelState {
            proxy_key: self.proxy_key@,
            forward_open: self.forward_open,
            backward_open: self.backward_open,
            closed: self.closed,
        }
    }

    /// A new tunnel, with both pumps running.
    pub fn new(proxy_key: &str) -> (tunnel: Tunnel)
        ensures
            tunnel@ == (TunnelState {
                proxy_key: proxy_key@,
                forward_open: true,
                backward_open: true,
                closed: false,
            }),
    {
        Tunnel {
            proxy_key: String::from_str(proxy_key),
            forward_open: true,
            backward_open: true,
            closed: false,
        }
    }

    /// The proxy key of the tunnel.
    pub fn proxy_key(&self) -> (key: &str)
        ensures
            key@ == self@.proxy_key,
    {
        self.proxy_key.as_str()
    }

    /// Whether the tunnel is gone.
    pub fn is_closed(&self) -> (closed: bool)
        ensures
            closed == self@.closed,
    {
        self.closed
    }

    /// Whether the pump in the given direction still runs.
    pub fn is_pump_open(&self, direction: Direction) -> (open: bool)
        ensures
            open == pump_open(self@, direction),
    {
        !self.closed && match direction {
            Direction::Forward => self.forward_open,
            Direction::Backward => self.backward_open,
        }
    }

    /// Tears the tunnel down and gives the event that says so.
    fn reap(&mut self) -> (action: PumpAction)
        ensures
            final(self)@ == torn_down(old(self)@),
            action_is(action, Step::Reap, old(self)@.proxy_key),
    {
        self.forward_open = false;
        self.backward_open = false;
        self.closed = true;
        PumpAction::Reap(ProxyEvent::Closed(self.proxy_key.clone()))
    }

    /// Takes note of how a read of the pump in the given direction went,
    /// and says what the caller does.
    pub fn on_read(&mut self, direction: Direction, read: PumpRead) -> (action: PumpAction)
        ensures
            final(self)@ == step(old(self)@, Happening::Read(direction, read_view(read))).0,
            action_is(
                action,
                step(old(self)@, Happening::Read(direction, read_view(read))).1,
                old(self)@.proxy_key,
            ),
    {
        if !self.is_pump_open(direction) {
            return PumpAction::Ignore;
        }
        match read {
            PumpRead::Data(bytes) => PumpAction::Write(bytes),
            PumpRead::WouldBlock => PumpAction::Retry,
            PumpRead::Failed => self.reap(),
            PumpRead::Eof => {
                let other_open = match direction {
                    Direction::Forward => self.backward_open,
                    Direction::Backward => self.forward_open,
                };
                if other_open {
                    match direction {
                        Direction::Forward => {
                            self.forward_open = false;
                        },
                        Direction::Backward => {
                            self.backward_open = false;
                        },
                    }
                    PumpAction::HalfClose
                } else {
                    self.reap()
                }
            },
        }
    }

    /// Takes note that a write to one of the streams failed, and says what
    /// the caller does: the tunnel is torn down, unless it is gone already.
    pub fn on_write_failed(&mut self) -> (action: PumpAction)
        ensures
            final(self)@ == step(old(self)@, Happening::WriteFailed).0,
            action_is(action, step(old(self)@, Happening::WriteFailed).1, old(self)@.proxy_key),
    {
        if self.closed {
            PumpAction::Ignore
        } else {
            self.reap()
        }
    }

    /// Takes the request to close the tunnel, and says what the caller does.
    pub fn close(&mut self) -> (action: PumpAction)
        ensures
            final(self)@ == step(old(self)@, Happening::Close).0,
            action_is(action, step(old(self)@, Happening::Close).1, old(self)@.proxy_key),
    {
        if self.closed {
            PumpAction::Ignore
        } else {
            self.reap()
        }
    }
}

} // verus!
