//! Message-boundary inference over a byte-stream medium with no framing.
//!
//! The physical link carries no length prefix or delimiter, so the end of a
//! message is inferred from two heuristics: a read attempt that returns fewer
//! bytes than the maximum chunk size means the sender paused (end of message),
//! and a timeout with bytes already buffered means the accumulated prefix is
//! flushed as a complete message. A timeout with an empty buffer means the
//! channel should be released and the attempt repeated after a backoff, so
//! that pending writers are not starved.
//!
//! The decisions live here, verified; the surrounding loop that actually
//! touches the serial device, the channel's mutual exclusion and the backoff
//! sleep drive these functions one medium event at a time.
use vstd::prelude::*;

verus! {

/// Largest number of bytes requested from the medium in one read attempt.
pub const MAX_READ: usize = 48;

/// The transport's fatal faults. A timeout is not one of them: timeouts are
/// expected steady-state behaviour and drive the framing heuristic instead.
#[derive(Clone, Copy, Debug, PartialEq, Eq, Structural)]
pub enum TransportError {
    /// The shared channel's mutual-exclusion primitive was found corrupted
    /// (a prior holder terminated abnormally). The caller must not keep
    /// touching the medium.
    ChannelUnavailable,
    /// The medium failed a read with something other than a timeout.
    TransportReadError,
    /// The medium rejected a write, or accepted fewer bytes than requested.
    TransportWriteError,
}

impl TransportError {
    /// A short description of the fault, for reports and logs.
    pub fn message(&self) -> (r: &'static str)
        ensures
            self is ChannelUnavailable ==> r@ == "shared channel unavailable"@,
            self is TransportReadError ==> r@ == "radio read failed"@,
            self is TransportWriteError ==> r@ == "radio write failed"@,
    {
        match self {
            TransportError::ChannelUnavailable => "shared channel unavailable",
            TransportError::TransportReadError => "radio read failed",
            TransportError::TransportWriteError => "radio write failed",
        }
    }
}

/// What one primitive read attempt on the medium reported.
#[derive(Debug)]
pub enum MediumEvent {
    /// The medium produced bytes. An empty chunk counts as no new data and
    /// is handled exactly like a timeout.
    Data(Vec<u8>),
    /// The attempt timed out with no new data.
    TimedOut,
    /// The attempt failed with a non-timeout fault.
    Failed,
}

/// What the read loop must do next after one medium event.
#[derive(Clone, Copy, Debug, PartialEq, Eq, Structural)]
pub enum ReadStep {
    /// The buffer now holds one complete message: return it.
    Complete,
    /// A chunk filled the maximum read size, so more of the same message may
    /// follow at once: keep the channel and read again.
    Continue,
    /// Nothing is buffered and nothing arrived: release the channel, back
    /// off, and try again, so pending writers can take the channel.
    Yield,
    /// A hard medium fault: propagate it, never downgrade it.
    Fail(TransportError),
}

/// Advances the message assembly buffer by one medium event.
///
/// This is the whole boundary-inference rule: a short non-empty chunk ends
/// the message; a full chunk extends it and keeps reading; a timeout (or an
/// empty chunk) flushes a non-empty buffer immediately and otherwise yields
/// the channel; any other fault is surfaced as `TransportReadError`.
pub fn read_step(packet: &mut Vec<u8>, event: MediumEvent) -> (r: ReadStep)
    requires
        data_of(event).len() <= MAX_READ as nat,
    ensures
        (match event {
            MediumEvent::Data(c) => (
                if c@.len() == MAX_READ as nat {
                    r is Continue && final(packet)@ == old(packet)@ + c@
                } else if c@.len() > 0 {
                    r is Complete && final(packet)@ == old(packet)@ + c@
                } else if old(packet)@.len() > 0 {
                    r is Complete && final(packet)@ == old(packet)@
                } else {
                    r is Yield && final(packet)@ == old(packet)@
                }
            ),
            MediumEvent::TimedOut => (
                if old(packet)@.len() > 0 {
                    r is Complete && final(packet)@ == old(packet)@
                } else {
                    r is Yield && final(packet)@ == old(packet)@
                }
            ),
            MediumEvent::Failed => r == ReadStep::Fail(TransportError::TransportReadError)
                && final(packet)@ == old(packet)@,
        }),
{
    match event {
        MediumEvent::Data(chunk) => {
            let mut chunk = chunk;
            let n = chunk.len();
            if n == MAX_READ {
                packet.append(&mut chunk);
                ReadStep::Continue
            } else if n > 0 {
                packet.append(&mut chunk);
                ReadStep::Complete
            } else if packet.len() > 0 {
                ReadStep::Complete
            } else {
                ReadStep::Yield
            }
        }
        MediumEvent::TimedOut => {
            if packet.len() > 0 {
                ReadStep::Complete
            } else {
                ReadStep::Yield
            }
        }
        MediumEvent::Failed => ReadStep::Fail(TransportError::TransportReadError),
    }
}

/// Judges the medium's report of a write. The medium returns how many bytes
/// it accepted; accepting fewer than requested is a fault of that write call
/// and is not retried at this layer.
pub fn check_write(requested: usize, accepted: usize) -> (r: Result<(), TransportError>)
    ensures
        r is Ok <==> accepted >= requested,
        !(accepted >= requested) ==> r == Err::<(), TransportError>(
            TransportError::TransportWriteError,
        ),
{
    if accepted < requested {
        Err(TransportError::TransportWriteError)
    } else {
        Ok(())
    }
}

/// What one primitive write attempt on the medium reported: the number of
/// bytes it accepted, or a non-timeout fault.
#[derive(Clone, Copy, Debug, PartialEq, Eq, Structural)]
pub enum WriteEvent {
    Accepted(usize),
    Failed,
}

/// Judges one write attempt as a whole. A fault of the medium, like a short
/// write, is surfaced as `TransportWriteError` — never downgraded to
/// success, and not retried at this layer.
pub fn write_step(requested: usize, event: WriteEvent) -> (r: Result<(), TransportError>)
    ensures
        (match event {
            WriteEvent::Accepted(n) => (
                if n >= requested {
                    r is Ok
                } else {
                    r == Err::<(), TransportError>(TransportError::TransportWriteError)
                }
            ),
            WriteEvent::Failed => r == Err::<(), TransportError>(
                TransportError::TransportWriteError,
            ),
        }),
{
    match event {
        WriteEvent::Accepted(n) => check_write(requested, n),
        WriteEvent::Failed => Err(TransportError::TransportWriteError),
    }
}

/// What a whole `read` call comes to, in the model: one assembled message,
/// a propagated fault, or — only when a finite event script runs out before
/// a boundary was seen — the bytes buffered so far.
#[derive(Debug)]
pub enum ReadOutcome {
    Message(Vec<u8>),
    Fault(TransportError),
    Exhausted(Vec<u8>),
}

/// The same three outcomes over mathematical sequences, for contracts.
pub enum ReadModel {
    Message(Seq<u8>),
    Fault(TransportError),
    Exhausted(Seq<u8>),
}

/// The read loop as a function of the buffered bytes and the sequence of
/// medium events still to come. Mirrors `read_step` exactly, one event at a
/// time; a yield keeps the (empty) buffer and goes on with the next event,
/// which models releasing and re-acquiring the channel.
pub open spec fn read_loop_model(buf: Seq<u8>, events: Seq<MediumEvent>) -> ReadModel
    decreases events.len(),
{
    if events.len() == 0 {
        ReadModel::Exhausted(buf)
    } else {
        match events[0] {
            MediumEvent::Data(c) => {
                if c@.len() == MAX_READ as nat {
                    read_loop_model(buf + c@, events.drop_first())
                } else if c@.len() > 0 {
                    ReadModel::Message(buf + c@)
                } else if buf.len() > 0 {
                    ReadModel::Message(buf)
                } else {
                    read_loop_model(buf, events.drop_first())
                }
            }
            MediumEvent::TimedOut => {
                if buf.len() > 0 {
                    ReadModel::Message(buf)
                } else {
                    read_loop_model(buf, events.drop_first())
                }
            }
            MediumEvent::Failed => ReadModel::Fault(TransportError::TransportReadError),
        }
    }
}

/// Runs the read loop against a finite script of medium events, starting
/// from a drained buffer: exactly the `read` call of the transport, with the
/// medium's answers given up front instead of taken from the device.
pub fn run_read(events: Vec<MediumEvent>) -> (r: ReadOutcome)
    requires
        forall|i: int| 0 <= i < events@.len() ==> #[trigger] data_of(events@[i]).len()
            <= MAX_READ as nat,
    ensures
        (match read_loop_model(Seq::empty(), events@) {
            ReadModel::Message(m) => r matches ReadOutcome::Message(v) && v@ == m,
            ReadModel::Fault(e) => r == ReadOutcome::Fault(e),
            ReadModel::Exhausted(b) => r matches ReadOutcome::Exhausted(v) && v@ == b,
        }),
{
    let mut events = events;
    let mut packet: Vec<u8> = Vec::new();
    proof {
        assert(packet@ =~= Seq::<u8>::empty());
    }
    let ghost target = read_loop_model(packet@, events@);
    #[verifier::loop_isolation(false)]
    while events.len() > 0
        invariant
            forall|i: int| 0 <= i < events@.len() ==> #[trigger] data_of(events@[i]).len()
                <= MAX_READ as nat,
            read_loop_model(packet@, events@) == target,
        decreases events@.len(),
    {
        let ghost events_before = events@;
        let ghost packet_before = packet@;
        let ev = events.remove(0);
        proof {
            assert(events@ =~= events_before.drop_first());
            lemma_read_loop_model_step(packet_before, events_before);
        }
        match read_step(&mut packet, ev) {
            ReadStep::Complete => {
                return ReadOutcome::Message(packet);
            }
            ReadStep::Continue => {}
            ReadStep::Yield => {}
            ReadStep::Fail(e) => {
                return ReadOutcome::Fault(e);
            }
        }
    }
    ReadOutcome::Exhausted(packet)
}

/// One unfolding of `read_loop_model`, for callers that reason one event at
/// a time.
proof fn lemma_read_loop_model_step(buf: Seq<u8>, events: Seq<MediumEvent>)
    requires
        events.len() > 0,
    ensures
        read_loop_model(buf, events) == (match events[0] {
            MediumEvent::Data(c) => {
                if c@.len() == MAX_READ as nat {
                    read_loop_model(buf + c@, events.drop_first())
                } else if c@.len() > 0 {
                    ReadModel::Message(buf + c@)
                } else if buf.len() > 0 {
                    ReadModel::Message(buf)
                } else {
                    read_loop_model(buf, events.drop_first())
                }
            }
            MediumEvent::TimedOut => {
                if buf.len() > 0 {
                    ReadModel::Message(buf)
                } else {
                    read_loop_model(buf, events.drop_first())
                }
            }
            MediumEvent::Failed => ReadModel::Fault(TransportError::TransportReadError),
        }),
{
}

/// The bytes a medium event carries: the chunk of a data event, nothing
/// otherwise.
pub open spec fn data_of(event: MediumEvent) -> Seq<u8> {
    match event {
        MediumEvent::Data(c) => c@,
        _ => Seq::empty(),
    }
}

/// The concatenation of the chunks of a script of data events, in order.
pub open spec fn concat_data(events: Seq<MediumEvent>) -> Seq<u8>
    decreases events.len(),
{
    if events.len() == 0 {
        Seq::empty()
    } else {
        data_of(events[0]) + concat_data(events.drop_first())
    }
}

/// Law: a message is the concatenation of all chunks received since the
/// buffer was last drained. If, starting from a drained buffer, the medium
/// produces data chunks of which every one but the last fills `MAX_READ`
/// and the last is shorter (the sender paused), the read loop returns one
/// message equal to the concatenation of all the chunks — a chunk that
/// exactly fills the maximum read size is not itself a boundary.
pub proof fn lemma_read_assembles_concatenation(events: Seq<MediumEvent>)
    requires
        events.len() > 0,
        forall|i: int| 0 <= i < events.len() ==> (#[trigger] events[i]) is Data,
        forall|i: int| 0 <= i < events.len() - 1 ==> #[trigger] data_of(events[i]).len()
            == MAX_READ as nat,
        0 < data_of(events[events.len() - 1]).len() < MAX_READ as nat,
    ensures
        read_loop_model(Seq::empty(), events) == ReadModel::Message(concat_data(events)),
{
    lemma_read_assembles_from(Seq::empty(), events);
    assert(Seq::<u8>::empty() + concat_data(events) =~= concat_data(events));
}

/// The induction behind `lemma_read_assembles_concatenation`, generalized
/// over the bytes already buffered.
proof fn lemma_read_assembles_from(buf: Seq<u8>, events: Seq<MediumEvent>)
    requires
        events.len() > 0,
        forall|i: int| 0 <= i < events.len() ==> (#[trigger] events[i]) is Data,
        forall|i: int| 0 <= i < events.len() - 1 ==> #[trigger] data_of(events[i]).len()
            == MAX_READ as nat,
        0 < data_of(events[events.len() - 1]).len() < MAX_READ as nat,
    ensures
        read_loop_model(buf, events) == ReadModel::Message(buf + concat_data(events)),
    decreases events.len(),
{
    let c = data_of(events[0]);
    lemma_read_loop_model_step(buf, events);
    if events.len() == 1 {
        assert(concat_data(events.drop_first()) =~= Seq::<u8>::empty());
        assert(buf + concat_data(events) =~= buf + c);
    } else {
        let rest = events.drop_first();
        assert(data_of(events[0]).len() == MAX_READ as nat);
        assert(forall|i: int| 0 <= i < rest.len() ==> (#[trigger] rest[i]) is Data);
        assert(forall|i: int| 0 <= i < rest.len() - 1 ==> #[trigger] data_of(rest[i]).len()
            == MAX_READ as nat) by {
            assert(forall|i: int| 0 <= i < rest.len() - 1 ==> rest[i] == events[i + 1]);
        }
        lemma_read_assembles_from(buf + c, rest);
        assert((buf + c) + concat_data(rest) =~= buf + concat_data(events));
    }
}

/// Law: a timeout with a non-empty buffer flushes that buffer immediately
/// as the message — whatever events would have come later, the read neither
/// discards the bytes nor keeps blocking for more.
pub proof fn lemma_timeout_flushes_buffer(buf: Seq<u8>, events: Seq<MediumEvent>)
    requires
        buf.len() > 0,
        events.len() > 0,
        events[0] is TimedOut,
    ensures
        read_loop_model(buf, events) == ReadModel::Message(buf),
{
}

/// Law: a timeout with an empty buffer neither ends the read nor wedges it;
/// the loop goes on with the next attempt (in the running system: after
/// releasing the channel and sleeping), as if the timeout had not happened.
pub proof fn lemma_timeout_empty_retries(events: Seq<MediumEvent>)
    requires
        events.len() > 0,
        events[0] is TimedOut,
    ensures
        read_loop_model(Seq::empty(), events) == read_loop_model(
            Seq::empty(),
            events.drop_first(),
        ),
{
}

/// Law: a hard (non-timeout) medium fault during read is never downgraded
/// to a silent empty message or success — whatever is buffered and whatever
/// would follow, the read surfaces `TransportReadError`.
pub proof fn lemma_read_fault_surfaces(buf: Seq<u8>, events: Seq<MediumEvent>)
    requires
        events.len() > 0,
        events[0] is Failed,
    ensures
        read_loop_model(buf, events) == ReadModel::Fault(TransportError::TransportReadError),
{
}

} // verus!
