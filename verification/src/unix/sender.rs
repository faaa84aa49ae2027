//! The end of the socket that writes: it connects, sends texts, and pings the other end.

use std::path::PathBuf;
use vstd::prelude::*;
use crate::rpc::{decode, fill_buffer_with_message, Category, IoErrorKind, JsonRpc};

verus! {

/// How many seconds lie between two pings.
pub const PING_INTERVAL_SECS: u64 = 5;

/// How the sender paces its attempts to connect.
#[derive(Debug, Clone, Copy, PartialEq, Eq, Structural)]
pub struct RetryPolicy {
    /// The longest pause between two attempts, in seconds.
    pub max_interval_secs: u64,
    /// After how many seconds the sender gives up, if ever.
    pub max_elapsed_secs: Option<u64>,
}

/// What the sender does once it is connected.
#[derive(Debug, Clone, Copy, PartialEq, Eq, Structural)]
pub enum AfterConnect {
    /// It waits for something to send.
    Start,
    /// It writes what it holds once more.
    Resend(AfterWrite),
    /// It goes on reading the answer to its ping.
    Reread,
}

/// What the sender does once it has written.
#[derive(Debug, Clone, Copy, PartialEq, Eq, Structural)]
pub enum AfterWrite {
    /// It waits for something to send.
    Idle,
    /// It reads the answer to its ping.
    AwaitPong,
}

/// Why the sender broke.
#[derive(Debug, Clone, Copy, PartialEq, Eq, Structural)]
pub enum SenderFailure {
    /// It could not connect, for a reason that does not pass.
    Connect,
    /// Writing or reading failed other than by the loss of the connection.
    Stream,
    /// The answer to its ping is no message.
    Decode,
}

/// What the sender waits for.
#[derive(Debug, Clone, Copy, PartialEq, Eq, Structural)]
pub enum SenderPhase {
    /// For a connection.
    Connecting(AfterConnect),
    /// For a text, for the time of a ping, or for the signal to stop.
    Idle,
    /// For the buffer to be written.
    Writing(AfterWrite),
    /// For bytes, up to and with a line feed.
    AwaitingPong,
    /// For the buffer to be decoded.
    Decoding,
    /// For nothing: it was told to stop.
    Stopped,
    /// For nothing: it is broken.
    Failed(SenderFailure),
}

/// What happens to the sender.
#[derive(Debug, PartialEq, Eq)]
pub enum SenderEvent {
    /// An attempt to connect, and its outcome.
    Connected(Result<(), IoErrorKind>),
    /// A text came.
    Message(String),
    /// It is time for a ping.
    Tick,
    /// The program is told to stop.
    Shutdown,
    /// The buffer was written, and the outcome.
    Written(Result<(), IoErrorKind>),
    /// The bytes that were read, and the outcome.
    Read { bytes: Vec<u8>, outcome: Result<(), IoErrorKind> },
    /// What the buffer says in another spelling than that of the library, or why it says nothing.
    Decoded(Result<JsonRpc, Category>),
}

/// The sender's value: what it waits for, and what its buffer holds.
pub struct SenderModel {
    pub phase: SenderPhase,
    pub buf: Seq<u8>,
}

/// What becomes of the sender where an operation on the stream fails: it connects anew where the
/// connection is lost, and breaks otherwise.
pub open spec fn io_error_phase(kind: IoErrorKind, after: AfterConnect) -> SenderPhase {
    if kind == IoErrorKind::BrokenPipe {
        SenderPhase::Connecting(after)
    } else {
        SenderPhase::Failed(SenderFailure::Stream)
    }
}

/// What the sender waits for once it is connected.
pub open spec fn connected_phase(after: AfterConnect) -> SenderPhase {
    match after {
        AfterConnect::Start => SenderPhase::Idle,
        AfterConnect::Resend(then) => SenderPhase::Writing(then),
        AfterConnect::Reread => SenderPhase::AwaitingPong,
    }
}

/// The message that the sender takes on because of an event, if any.
pub open spec fn sender_accepts(phase: SenderPhase, event: SenderEvent) -> Option<crate::rpc::Rpc> {
    match (phase, event) {
        (SenderPhase::Idle, SenderEvent::Message(text)) => Some(
            crate::rpc::Rpc::Message { content: text@ },
        ),
        (SenderPhase::Idle, SenderEvent::Tick) => Some(crate::rpc::Rpc::Ping),
        _ => None,
    }
}

/// What becomes of the sender after an event. An event that it does not wait for changes nothing.
pub open spec fn sender_next(s: SenderModel, event: SenderEvent) -> SenderModel {
    match (s.phase, event) {
        (SenderPhase::Connecting(after), SenderEvent::Connected(Ok(_))) => SenderModel {
            phase: connected_phase(after),
            ..s
        },
        (SenderPhase::Connecting(_), SenderEvent::Connected(Err(kind))) => if kind
            == IoErrorKind::NotFound {
            s
        } else {
            SenderModel { phase: SenderPhase::Failed(SenderFailure::Connect), ..s }
        },
        (SenderPhase::Idle, SenderEvent::Message(text)) => SenderModel {
            phase: SenderPhase::Writing(AfterWrite::Idle),
            buf: crate::rpc::frame(crate::rpc::Rpc::Message { content: text@ }),
        },
        (SenderPhase::Idle, SenderEvent::Tick) => SenderModel {
            phase: SenderPhase::Writing(AfterWrite::AwaitPong),
            buf: crate::rpc::frame(crate::rpc::Rpc::Ping),
        },
        (SenderPhase::Idle, SenderEvent::Shutdown) => SenderModel {
            phase: SenderPhase::Stopped,
            ..s
        },
        (SenderPhase::Writing(AfterWrite::Idle), SenderEvent::Written(Ok(_))) => SenderModel {
            phase: SenderPhase::Idle,
            ..s
        },
        (SenderPhase::Writing(AfterWrite::AwaitPong), SenderEvent::Written(Ok(_))) => SenderModel {
            phase: SenderPhase::AwaitingPong,
            buf: seq![],
        },
        (SenderPhase::Writing(then), SenderEvent::Written(Err(kind))) => SenderModel {
            phase: io_error_phase(kind, AfterConnect::Resend(then)),
            ..s
        },
        (SenderPhase::AwaitingPong, SenderEvent::Read { bytes, outcome }) => SenderModel {
            phase: match outcome {
                Ok(_) => SenderPhase::Decoding,
                Err(kind) => io_error_phase(kind, AfterConnect::Reread),
            },
            buf: s.buf + bytes@,
        },
        (SenderPhase::Decoding, SenderEvent::Decoded(other)) => SenderModel {
            phase: match crate::rpc::meaning(s.buf, other) {
                Ok(_) => SenderPhase::Idle,
                Err(Category::Eof) => SenderPhase::Connecting(AfterConnect::Reread),
                Err(_) => SenderPhase::Failed(SenderFailure::Decode),
            },
            ..s
        },
        _ => s,
    }
}

/// Whether an attempt to connect that failed is worth another: the other end may yet come up.
pub fn is_transient(kind: IoErrorKind) -> (transient: bool)
    ensures
        transient == (kind == IoErrorKind::NotFound),
{
    kind == IoErrorKind::NotFound
}

/// What becomes of the sender where an operation on the stream fails.
pub fn handle_io_error(kind: IoErrorKind, after: AfterConnect) -> (phase: SenderPhase)
    ensures
        phase == io_error_phase(kind, after),
{
    if kind == IoErrorKind::BrokenPipe {
        SenderPhase::Connecting(after)
    } else {
        SenderPhase::Failed(SenderFailure::Stream)
    }
}

/// The end of a socket that writes.
#[derive(Debug, PartialEq, Eq)]
pub struct UnixSender {
    file: PathBuf,
    phase: SenderPhase,
    buf: Vec<u8>,
}

impl View for UnixSender {
    type V = SenderModel;

    closed spec fn view(&self) -> SenderModel {
        SenderModel { phase: self.phase, buf: self.buf@ }
    }
}

impl UnixSender {
    /// Where the socket is.
    pub closed spec fn path(&self) -> PathBuf {
        self.file
    }

    /// A sender that waits for its first connection.
    pub fn new(file: PathBuf) -> (sender: Self)
        ensures
            sender.path() == file,
            sender@ == (SenderModel {
                phase: SenderPhase::Connecting(AfterConnect::Start),
                buf: seq![],
            }),
    {
        let sender = UnixSender {
            file,
            phase: SenderPhase::Connecting(AfterConnect::Start),
            buf: Vec::new(),
        };
        assert(sender.buf@ =~= seq![]);
        sender
    }

    /// How the sender paces its attempts to connect: it never gives up.
    pub fn retry_policy() -> (policy: RetryPolicy)
        ensures
            policy == (RetryPolicy { max_interval_secs: 60, max_elapsed_secs: None }),
    {
        RetryPolicy { max_interval_secs: 60, max_elapsed_secs: None }
    }

    /// Where the socket is.
    pub fn file(&self) -> (file: &PathBuf)
        ensures
            *file == self.path(),
    {
        &self.file
    }

    /// How many texts may wait in the channel to the sender.
    pub fn capacity(&self) -> (capacity: usize)
        ensures
            capacity == 8,
    {
        crate::pipe::CHANNEL_CAPACITY
    }

    /// What the sender waits for.
    pub fn phase(&self) -> (phase: SenderPhase)
        ensures
            phase == self@.phase,
    {
        self.phase
    }

    /// What is to be written, or has been read.
    pub fn buffer(&self) -> (buf: &Vec<u8>)
        ensures
            buf@ == self@.buf,
    {
        &self.buf
    }

    /// Takes note of the outcome of writing the buffer, which is written again after a lost
    /// connection.
    fn stream_send(&mut self, then: AfterWrite, outcome: Result<(), IoErrorKind>)
        requires
            old(self)@.phase == SenderPhase::Writing(then),
        ensures
            final(self).path() == old(self).path(),
            final(self)@ == sender_next(old(self)@, SenderEvent::Written(outcome)),
    {
        match outcome {
            Ok(_) => match then {
                AfterWrite::Idle => {
                    self.phase = SenderPhase::Idle;
                },
                AfterWrite::AwaitPong => {
                    self.buf.clear();
                    self.phase = SenderPhase::AwaitingPong;
                    assert(self.buf@ =~= seq![]);
                },
            },
            Err(kind) => {
                self.phase = handle_io_error(kind, AfterConnect::Resend(then));
            },
        }
    }

    /// Takes note of what was read while the answer to a ping is awaited. What was read before
    /// a lost connection stays in the buffer.
    fn wait_for_pong(&mut self, mut bytes: Vec<u8>, outcome: Result<(), IoErrorKind>)
        requires
            old(self)@.phase == SenderPhase::AwaitingPong,
        ensures
            final(self).path() == old(self).path(),
            final(self)@ == sender_next(old(self)@, SenderEvent::Read { bytes, outcome }),
    {
        self.buf.append(&mut bytes);
        self.phase = match outcome {
            Ok(_) => SenderPhase::Decoding,
            Err(kind) => handle_io_error(kind, AfterConnect::Reread),
        };
    }

    /// Takes note of what the buffer says. Any message counts as the answer to the ping.
    fn receive_pong(&mut self, other: Result<JsonRpc, Category>)
        requires
            old(self)@.phase == SenderPhase::Decoding,
        ensures
            final(self).path() == old(self).path(),
            final(self)@ == sender_next(old(self)@, SenderEvent::Decoded(other)),
    {
        self.phase = match decode(self.buf.as_slice(), other) {
            Ok(_) => SenderPhase::Idle,
            Err(category) => if category == Category::Eof {
                SenderPhase::Connecting(AfterConnect::Reread)
            } else {
                SenderPhase::Failed(SenderFailure::Decode)
            },
        };
    }

    /// Takes note of the outcome of an attempt to connect.
    fn connect_to_stream(&mut self, after: AfterConnect, outcome: Result<(), IoErrorKind>)
        requires
            old(self)@.phase == SenderPhase::Connecting(after),
        ensures
            final(self).path() == old(self).path(),
            final(self)@ == sender_next(old(self)@, SenderEvent::Connected(outcome)),
    {
        match outcome {
            Ok(_) => {
                self.phase = match after {
                    AfterConnect::Start => SenderPhase::Idle,
                    AfterConnect::Resend(then) => SenderPhase::Writing(then),
                    AfterConnect::Reread => SenderPhase::AwaitingPong,
                };
            },
            Err(kind) => {
                if !is_transient(kind) {
                    self.phase = SenderPhase::Failed(SenderFailure::Connect);
                }
            },
        }
    }

    /// Tells the sender of an event.
    pub fn step(&mut self, event: SenderEvent)
        ensures
            final(self).path() == old(self).path(),
            final(self)@ == sender_next(old(self)@, event),
    {
        match (self.phase, event) {
            (SenderPhase::Connecting(after), SenderEvent::Connected(outcome)) => {
                self.connect_to_stream(after, outcome);
            },
            (SenderPhase::Idle, SenderEvent::Message(text)) => {
                fill_buffer_with_message(&mut self.buf, &JsonRpc::Message { content: text });
                self.phase = SenderPhase::Writing(AfterWrite::Idle);
            },
            (SenderPhase::Idle, SenderEvent::Tick) => {
                fill_buffer_with_message(&mut self.buf, &JsonRpc::Ping);
                self.phase = SenderPhase::Writing(AfterWrite::AwaitPong);
            },
            (SenderPhase::Idle, SenderEvent::Shutdown) => {
                self.phase = SenderPhase::Stopped;
            },
            (SenderPhase::Writing(then), SenderEvent::Written(outcome)) => {
                self.stream_send(then, outcome);
            },
            (SenderPhase::AwaitingPong, SenderEvent::Read { bytes, outcome }) => {
                self.wait_for_pong(bytes, outcome);
            },
            (SenderPhase::Decoding, SenderEvent::Decoded(other)) => {
                self.receive_pong(other);
            },
            _ => {},
        }
    }
}

/// What becomes of the sender after events.
pub open spec fn sender_run(s: SenderModel, events: Seq<SenderEvent>) -> SenderModel
    decreases events.len(),
{
    if events.len() == 0 {
        s
    } else {
        sender_next(sender_run(s, events.drop_last()), events.last())
    }
}

/// The messages that the sender takes on in the course of events, in their order.
pub open spec fn sender_accepted(s: SenderModel, events: Seq<SenderEvent>) -> Seq<crate::rpc::Rpc>
    decreases events.len(),
{
    if events.len() == 0 {
        seq![]
    } else {
        let before = sender_accepted(s, events.drop_last());
        match sender_accepts(sender_run(s, events.drop_last()).phase, events.last()) {
            Some(msg) => before.push(msg),
            None => before,
        }
    }
}

/// Whether an event tells that the buffer was written in full.
pub open spec fn writes_out(event: SenderEvent) -> bool {
    event matches SenderEvent::Written(Ok(_))
}

/// The bytes that are written in full in the course of events, one write after the other.
pub open spec fn sender_written(s: SenderModel, events: Seq<SenderEvent>) -> Seq<u8>
    decreases events.len(),
{
    if events.len() == 0 {
        seq![]
    } else {
        let before = sender_written(s, events.drop_last());
        let now = sender_run(s, events.drop_last());
        if now.phase is Writing && writes_out(events.last()) {
            before + now.buf
        } else {
            before
        }
    }
}

/// Whether the sender holds a message that is not written yet.
pub open spec fn in_flight(phase: SenderPhase) -> bool {
    match phase {
        SenderPhase::Writing(_) => true,
        SenderPhase::Connecting(AfterConnect::Resend(_)) => true,
        _ => false,
    }
}

/// What the sender writes in full are the messages that it takes on, each once and in their order,
/// however often the connection is lost: all of them where none is in flight, and all but the last
/// where that one is, whose bytes the buffer then holds. A sender that breaks may lose the last.
pub proof fn law_sender_delivers_in_order(s: SenderModel, events: Seq<SenderEvent>)
    requires
        !in_flight(s.phase),
    ensures
        ({
            let end = sender_run(s, events);
            let accepted = sender_accepted(s, events);
            let written = sender_written(s, events);
            if in_flight(end.phase) {
                &&& accepted.len() > 0
                &&& written == crate::rpc::stream(accepted.drop_last())
                &&& end.buf == crate::rpc::frame(accepted.last())
            } else {
                ||| written == crate::rpc::stream(accepted)
                ||| end.phase is Failed && accepted.len() > 0 && written == crate::rpc::stream(
                    accepted.drop_last(),
                )
            }
        }),
    decreases events.len(),
{
    if events.len() > 0 {
        let front = events.drop_last();
        law_sender_delivers_in_order(s, front);
        let mid = sender_run(s, front);
        let accepted = sender_accepted(s, front);
        if let Some(msg) = sender_accepts(mid.phase, events.last()) {
            assert(accepted.push(msg).drop_last() =~= accepted);
        }
        if in_flight(mid.phase) {
            crate::rpc::lemma_stream_push(accepted.drop_last(), accepted.last());
            assert(accepted =~= accepted.drop_last().push(accepted.last()));
        }
    }
}

/// A sender that has not broken and holds nothing in flight has written every message that it took
/// on, and nothing else.
pub proof fn law_idle_sender_has_delivered(s: SenderModel, events: Seq<SenderEvent>)
    requires
        !in_flight(s.phase),
        !in_flight(sender_run(s, events).phase),
        !(sender_run(s, events).phase is Failed),
    ensures
        sender_written(s, events) == crate::rpc::stream(sender_accepted(s, events)),
{
    law_sender_delivers_in_order(s, events);
}

/// Whether the sender awaits the answer to a ping.
pub open spec fn awaits_pong(phase: SenderPhase) -> bool {
    match phase {
        SenderPhase::AwaitingPong => true,
        SenderPhase::Decoding => true,
        SenderPhase::Connecting(AfterConnect::Reread) => true,
        _ => false,
    }
}

/// The bytes that are read in the course of events by a sender that awaits an answer.
pub open spec fn sender_read(s: SenderModel, events: Seq<SenderEvent>) -> Seq<u8>
    decreases events.len(),
{
    if events.len() == 0 {
        seq![]
    } else {
        let before = sender_read(s, events.drop_last());
        match (sender_run(s, events.drop_last()).phase, events.last()) {
            (SenderPhase::AwaitingPong, SenderEvent::Read { bytes, .. }) => before + bytes@,
            _ => before,
        }
    }
}

/// While the answer to a ping is awaited, the buffer gathers everything that is read, over all
/// connections.
pub proof fn law_answer_is_gathered(s: SenderModel, events: Seq<SenderEvent>)
    requires
        awaits_pong(s.phase),
        forall|n: int|
            0 <= n <= events.len() ==> awaits_pong((#[trigger] sender_run(s, events.take(n))).phase),
    ensures
        sender_run(s, events).buf == s.buf + sender_read(s, events),
    decreases events.len(),
{
    if events.len() > 0 {
        let front = events.drop_last();
        assert forall|n: int| 0 <= n <= front.len() implies awaits_pong(
            (#[trigger] sender_run(s, front.take(n))).phase,
        ) by {
            assert(front.take(n) =~= events.take(n));
        }
        assert(front.take(front.len() as int) =~= front);
        law_answer_is_gathered(s, front);
        assert(awaits_pong(sender_run(s, front).phase)) by {
            assert(sender_run(s, front.take(front.len() as int)) == sender_run(s, front));
        }
        assert(sender_run(s, events).buf =~= s.buf + sender_read(s, events));
    } else {
        assert(sender_run(s, events).buf =~= s.buf + sender_read(s, events));
    }
}

/// Whether an event ends the wait for an answer: the buffer is decoded and says a message.
pub open spec fn answers(s: SenderModel, event: SenderEvent) -> bool {
    &&& s.phase is Decoding
    &&& event matches SenderEvent::Decoded(other) && crate::rpc::meaning(s.buf, other) is Ok
}

/// A ping that is written is followed by the wait for an answer, in an empty buffer, and the next
/// text or ping is taken on only after an answer came.
pub proof fn law_ping_is_awaited(s: SenderModel, event: SenderEvent)
    ensures
        s.phase == SenderPhase::Writing(AfterWrite::AwaitPong) && writes_out(event) ==> {
            &&& sender_next(s, event).phase == SenderPhase::AwaitingPong
            &&& sender_next(s, event).buf.len() == 0
        },
        awaits_pong(s.phase) ==> {
            ||| awaits_pong(sender_next(s, event).phase)
            ||| sender_next(s, event).phase is Failed
            ||| sender_next(s, event).phase is Idle
        },
        awaits_pong(s.phase) ==> (sender_next(s, event).phase is Idle <==> answers(s, event)),
        awaits_pong(s.phase) ==> sender_accepts(s.phase, event) is None,
{
}

/// From when a ping is written until its answer is decoded, the sender takes on nothing and writes
/// nothing, whatever happens: it awaits the answer all the while, or is broken.
pub proof fn law_ping_is_awaited_throughout(
    s: SenderModel,
    written: SenderEvent,
    events: Seq<SenderEvent>,
)
    requires
        s.phase == SenderPhase::Writing(AfterWrite::AwaitPong),
        writes_out(written),
        forall|i: int|
            0 <= i < events.len() ==> !answers(
                sender_run(sender_next(s, written), events.take(i)),
                #[trigger] events[i],
            ),
    ensures
        ({
            let awaiting = sender_next(s, written);
            let end = sender_run(awaiting, events).phase;
            &&& sender_accepted(awaiting, events).len() == 0
            &&& sender_written(awaiting, events).len() == 0
            &&& awaits_pong(end) || end is Failed
        }),
    decreases events.len(),
{
    if events.len() > 0 {
        let front = events.drop_last();
        let awaiting = sender_next(s, written);
        assert forall|i: int| 0 <= i < front.len() implies !answers(
            sender_run(awaiting, front.take(i)),
            #[trigger] front[i],
        ) by {
            assert(front[i] == events[i]);
            assert(front.take(i) =~= events.take(i));
        }
        law_ping_is_awaited_throughout(s, written, front);
        assert(events.take(front.len() as int) =~= front);
        assert(!answers(sender_run(awaiting, front), events[front.len() as int]));
    }
}

/// The texts that the sender takes on in the course of events, in their order.
pub open spec fn sender_given(s: SenderModel, events: Seq<SenderEvent>) -> Seq<Seq<char>>
    decreases events.len(),
{
    if events.len() == 0 {
        seq![]
    } else {
        let before = sender_given(s, events.drop_last());
        match (sender_run(s, events.drop_last()).phase, events.last()) {
            (SenderPhase::Idle, SenderEvent::Message(text)) => before.push(text@),
            _ => before,
        }
    }
}

/// The texts among the messages that the sender takes on are those that it was given while idle.
pub(crate) proof fn lemma_given_texts(s: SenderModel, events: Seq<SenderEvent>)
    ensures
        crate::unix::receiver::sent_texts(sender_accepted(s, events)) == sender_given(s, events),
    decreases events.len(),
{
    if events.len() > 0 {
        let front = events.drop_last();
        lemma_given_texts(s, front);
        if let Some(msg) = sender_accepts(sender_run(s, front).phase, events.last()) {
            crate::unix::receiver::lemma_sent_texts_push(sender_accepted(s, front), msg);
        }
    }
}

/// A sender stops only where it is told to while it has nothing in flight and awaits nothing.
pub proof fn law_sender_stops_when_idle(s: SenderModel, event: SenderEvent)
    requires
        !(s.phase is Stopped),
    ensures
        sender_next(s, event).phase is Stopped <==> s.phase is Idle && event is Shutdown,
{
}

/// An attempt to connect is repeated for as long as the socket is not there: such failures, however
/// many, change nothing.
pub proof fn law_missing_socket_is_retried(s: SenderModel, events: Seq<SenderEvent>)
    requires
        s.phase is Connecting,
        forall|i: int|
            0 <= i < events.len() ==> #[trigger] events[i] == SenderEvent::Connected(
                Err(IoErrorKind::NotFound),
            ),
    ensures
        sender_run(s, events) == s,
    decreases events.len(),
{
    if events.len() > 0 {
        law_missing_socket_is_retried(s, events.drop_last());
        assert(events.last() == events[events.len() - 1]);
    }
}

/// What fails on the stream breaks the sender unless the connection is lost. A lost connection is
/// opened anew, and what the sender was about to do stays what it does then.
pub proof fn law_lost_connection_is_opened_anew(kind: IoErrorKind, after: AfterConnect)
    ensures
        kind is BrokenPipe <==> io_error_phase(kind, after) is Connecting,
        io_error_phase(kind, after) matches SenderPhase::Connecting(then) ==> then == after,
        !(kind is BrokenPipe) ==> io_error_phase(kind, after) == SenderPhase::Failed(
            SenderFailure::Stream,
        ),
{
}

/// The sender comes to wait for something to send when it is connected for the first time, when it
/// has written a text, and when the buffer, decoded, is an answer: it is the line of a message, or
/// another decoder reads a message in it. It waits on until there is something to send or it is
/// told to stop.
pub proof fn law_when_the_sender_is_idle(s: SenderModel, event: SenderEvent)
    ensures
        sender_next(s, event).phase is Idle <==> {
            ||| s.phase is Idle && !(event is Message || event is Tick || event is Shutdown)
            ||| s.phase == SenderPhase::Connecting(AfterConnect::Start)
                && (event matches SenderEvent::Connected(Ok(_)))
            ||| s.phase == SenderPhase::Writing(AfterWrite::Idle)
                && (event matches SenderEvent::Written(Ok(_)))
            ||| s.phase is Decoding && event is Decoded && (event->Decoded_0 is Ok || exists|
                msg: crate::rpc::Rpc,
            | #[trigger]
                crate::rpc::frame(msg) == s.buf)
        },
{
    lemma_decoding(s, event);
}

/// The sender comes to write when it has something to send, a text or a ping, and when a connection
/// that was lost over a write is open again: then it writes for the same end as before. It writes
/// on until it is told of the outcome.
pub proof fn law_when_the_sender_writes(s: SenderModel, event: SenderEvent, then: AfterWrite)
    ensures
        sender_next(s, event).phase == SenderPhase::Writing(then) <==> {
            ||| s.phase == SenderPhase::Writing(then) && !(event is Written)
            ||| s.phase is Idle && event is Message && then is Idle
            ||| s.phase is Idle && event is Tick && then is AwaitPong
            ||| s.phase == SenderPhase::Connecting(AfterConnect::Resend(then))
                && (event matches SenderEvent::Connected(Ok(_)))
        },
{
    lemma_decoding(s, event);
}

/// The sender comes to connect anew exactly where its connection is lost over a write, over a read,
/// or where what was read so far ends too early; it keeps trying for as long as the socket is not
/// there, and does not forget what for.
pub proof fn law_when_the_sender_connects(s: SenderModel, event: SenderEvent, after: AfterConnect)
    ensures
        sender_next(s, event).phase == SenderPhase::Connecting(after) <==> {
            ||| s.phase == SenderPhase::Connecting(after) && (!(event is Connected) || event
                == SenderEvent::Connected(Err(IoErrorKind::NotFound)))
            ||| s.phase is Writing && after == AfterConnect::Resend(s.phase->Writing_0) && event
                == SenderEvent::Written(Err(IoErrorKind::BrokenPipe))
            ||| s.phase is AwaitingPong && after is Reread && event is Read && event->outcome
                == Err::<(), IoErrorKind>(IoErrorKind::BrokenPipe)
            ||| s.phase is Decoding && after is Reread && event == SenderEvent::Decoded(
                Err(Category::Eof),
            ) && forall|msg: crate::rpc::Rpc| #[trigger] crate::rpc::frame(msg) != s.buf
        },
{
    lemma_decoding(s, event);
}

/// The sender comes to read an answer when a ping was written, and when a connection that was lost
/// over an answer is open again; it decodes what it read when a read succeeds. In both it goes on
/// until it is told of the outcome.
pub proof fn law_when_the_sender_reads_and_decodes(s: SenderModel, event: SenderEvent)
    ensures
        sender_next(s, event).phase is AwaitingPong <==> {
            ||| s.phase is AwaitingPong && !(event is Read)
            ||| s.phase == SenderPhase::Writing(AfterWrite::AwaitPong)
                && (event matches SenderEvent::Written(Ok(_)))
            ||| s.phase == SenderPhase::Connecting(AfterConnect::Reread)
                && (event matches SenderEvent::Connected(Ok(_)))
        },
        sender_next(s, event).phase is Decoding <==> {
            ||| s.phase is Decoding && !(event is Decoded)
            ||| s.phase is AwaitingPong && event is Read && event->outcome is Ok
        },
{
    lemma_decoding(s, event);
}

/// The sender breaks exactly where it cannot connect though the socket is there, where an operation
/// on the stream fails though the connection is not lost, and where the answer, read in full, is no
/// message, neither to the library nor to another decoder.
pub proof fn law_when_the_sender_breaks(s: SenderModel, event: SenderEvent, failure: SenderFailure)
    requires
        !(s.phase is Failed),
    ensures
        sender_next(s, event).phase == SenderPhase::Failed(failure) <==> match failure {
            SenderFailure::Connect => {
                &&& s.phase is Connecting
                &&& event is Connected
                &&& event->Connected_0 matches Err(kind) && !(kind is NotFound)
            },
            SenderFailure::Stream => {
                ||| s.phase is Writing && event is Written
                    && (event->Written_0 matches Err(kind) && !(kind is BrokenPipe))
                ||| s.phase is AwaitingPong && event is Read
                    && (event->outcome matches Err(kind) && !(kind is BrokenPipe))
            },
            SenderFailure::Decode => {
                &&& s.phase is Decoding
                &&& event is Decoded
                &&& event->Decoded_0 matches Err(category) && !(category is Eof)
                &&& forall|msg: crate::rpc::Rpc| #[trigger] crate::rpc::frame(msg) != s.buf
            },
        },
{
    lemma_decoding(s, event);
}

/// The buffer holds the line of the text, or of the ping, from when it is taken on; it is emptied
/// when a ping was written; what is read is put behind what it holds, whether or not the read
/// succeeds; and nothing else changes it.
pub proof fn law_what_the_buffer_holds(s: SenderModel, event: SenderEvent)
    ensures
        ({
            let buf = sender_next(s, event).buf;
            if s.phase is Idle && event is Message {
                buf == crate::rpc::frame(crate::rpc::Rpc::Message { content: event->Message_0@ })
            } else if s.phase is Idle && event is Tick {
                buf == crate::rpc::frame(crate::rpc::Rpc::Ping)
            } else if s.phase == SenderPhase::Writing(AfterWrite::AwaitPong) && event is Written
                && event->Written_0 is Ok {
                buf.len() == 0
            } else if s.phase is AwaitingPong && event is Read {
                buf == s.buf + event->bytes@
            } else {
                buf == s.buf
            }
        }),
{
}

/// What a sender that decodes does depends on its buffer alone where that is the line of a message,
/// and on what another decoder reads otherwise.
proof fn lemma_decoding(s: SenderModel, event: SenderEvent)
    ensures
        event matches SenderEvent::Decoded(other) ==> {
            &&& (exists|msg: crate::rpc::Rpc| #[trigger] crate::rpc::frame(msg) == s.buf)
                ==> crate::rpc::meaning(s.buf, other) is Ok
            &&& (forall|msg: crate::rpc::Rpc| #[trigger] crate::rpc::frame(msg) != s.buf) ==> {
                &&& other is Ok ==> crate::rpc::meaning(s.buf, other) is Ok
                &&& other matches Err(category) ==> crate::rpc::meaning(s.buf, other) == Err::<
                    crate::rpc::Rpc,
                    Category,
                >(category)
            }
        },
{
    if let SenderEvent::Decoded(other) = event {
        if exists|msg: crate::rpc::Rpc| #[trigger] crate::rpc::frame(msg) == s.buf {
            let msg = choose|msg: crate::rpc::Rpc| #[trigger] crate::rpc::frame(msg) == s.buf;
            crate::rpc::law_frame_says_its_message(msg, other);
        } else {
            crate::rpc::law_other_spellings_say_what_is_decoded(s.buf, other);
        }
    }
}

proof fn lemma_sender_run_concat(s: SenderModel, a: Seq<SenderEvent>, b: Seq<SenderEvent>)
    ensures
        sender_run(s, a + b) == sender_run(sender_run(s, a), b),
    decreases b.len(),
{
    if b.len() == 0 {
        assert(a + b =~= a);
    } else {
        assert((a + b).drop_last() =~= a + b.drop_last());
        lemma_sender_run_concat(s, a, b.drop_last());
    }
}

/// A connection that is lost over a write costs nothing: once it is open again, however often the
/// socket was not there in between, the sender is about to write the same bytes for the same end,
/// a text as well as a ping.
pub proof fn law_lost_write_is_repeated(
    s: SenderModel,
    misses: Seq<SenderEvent>,
    connected: SenderEvent,
)
    requires
        s.phase is Writing,
        forall|i: int|
            0 <= i < misses.len() ==> #[trigger] misses[i] == SenderEvent::Connected(
                Err(IoErrorKind::NotFound),
            ),
        connected matches SenderEvent::Connected(Ok(_)),
    ensures
        sender_run(
            s,
            seq![SenderEvent::Written(Err(IoErrorKind::BrokenPipe))] + misses + seq![connected],
        ) == s,
{
    reveal_with_fuel(sender_run, 2);
    let lost = seq![SenderEvent::Written(Err(IoErrorKind::BrokenPipe))];
    assert(lost.drop_last() =~= Seq::<SenderEvent>::empty());
    let waiting = sender_run(s, lost);
    lemma_sender_run_concat(s, lost, misses);
    law_missing_socket_is_retried(waiting, misses);
    let all = lost + misses + seq![connected];
    assert(all.drop_last() =~= lost + misses);
    assert(all.last() == connected);
}

/// A connection that is lost over an answer costs nothing either: once it is open again, the sender
/// reads on, behind what it has read so far.
pub proof fn law_lost_read_is_resumed(
    s: SenderModel,
    bytes: Vec<u8>,
    misses: Seq<SenderEvent>,
    connected: SenderEvent,
)
    requires
        s.phase is AwaitingPong,
        forall|i: int|
            0 <= i < misses.len() ==> #[trigger] misses[i] == SenderEvent::Connected(
                Err(IoErrorKind::NotFound),
            ),
        connected matches SenderEvent::Connected(Ok(_)),
    ensures
        sender_run(
            s,
            seq![SenderEvent::Read { bytes, outcome: Err(IoErrorKind::BrokenPipe) }] + misses
                + seq![connected],
        ) == (SenderModel { phase: SenderPhase::AwaitingPong, buf: s.buf + bytes@ }),
{
    reveal_with_fuel(sender_run, 2);
    let lost = seq![SenderEvent::Read { bytes, outcome: Err(IoErrorKind::BrokenPipe) }];
    assert(lost.drop_last() =~= Seq::<SenderEvent>::empty());
    let waiting = sender_run(s, lost);
    lemma_sender_run_concat(s, lost, misses);
    law_missing_socket_is_retried(waiting, misses);
    let all = lost + misses + seq![connected];
    assert(all.drop_last() =~= lost + misses);
    assert(all.last() == connected);
}

/// A sender never breaks by losing its connection: over any events in which an operation on the
/// stream fails only by the loss of the connection, an attempt to connect only because the socket
/// is not there, and every answer that is decoded is a message or ends too early, it is not broken.
/// So it has written every message that it took on, but for one that it is still about to write.
pub proof fn law_sender_survives_lost_connections(s: SenderModel, events: Seq<SenderEvent>)
    requires
        !(s.phase is Failed),
        !in_flight(s.phase),
        forall|i: int|
            0 <= i < events.len() ==> match #[trigger] events[i] {
                SenderEvent::Connected(Err(kind)) => kind is NotFound,
                SenderEvent::Written(Err(kind)) => kind is BrokenPipe,
                SenderEvent::Read { outcome: Err(kind), .. } => kind is BrokenPipe,
                SenderEvent::Decoded(Err(category)) => category is Eof || exists|
                    msg: crate::rpc::Rpc,
                | #[trigger]
                    crate::rpc::frame(msg) == sender_run(s, events.take(i)).buf,
                _ => true,
            },
    ensures
        ({
            let end = sender_run(s, events);
            let accepted = sender_accepted(s, events);
            &&& !(end.phase is Failed)
            &&& sender_written(s, events) == crate::rpc::stream(accepted) || {
                &&& end.phase is Writing || (end.phase is Connecting
                    && end.phase->Connecting_0 is Resend)
                &&& accepted.len() > 0
                &&& sender_written(s, events) == crate::rpc::stream(accepted.drop_last())
                &&& end.buf == crate::rpc::frame(accepted.last())
            }
        }),
{
    lemma_survives(s, events);
    law_sender_delivers_in_order(s, events);
}

proof fn lemma_survives(s: SenderModel, events: Seq<SenderEvent>)
    requires
        !(s.phase is Failed),
        forall|i: int|
            0 <= i < events.len() ==> match #[trigger] events[i] {
                SenderEvent::Connected(Err(kind)) => kind is NotFound,
                SenderEvent::Written(Err(kind)) => kind is BrokenPipe,
                SenderEvent::Read { outcome: Err(kind), .. } => kind is BrokenPipe,
                SenderEvent::Decoded(Err(category)) => category is Eof || exists|
                    msg: crate::rpc::Rpc,
                | #[trigger]
                    crate::rpc::frame(msg) == sender_run(s, events.take(i)).buf,
                _ => true,
            },
    ensures
        !(sender_run(s, events).phase is Failed),
    decreases events.len(),
{
    if events.len() > 0 {
        let front = events.drop_last();
        assert forall|i: int| 0 <= i < front.len() implies match #[trigger] front[i] {
            SenderEvent::Connected(Err(kind)) => kind is NotFound,
            SenderEvent::Written(Err(kind)) => kind is BrokenPipe,
            SenderEvent::Read { outcome: Err(kind), .. } => kind is BrokenPipe,
            SenderEvent::Decoded(Err(category)) => category is Eof || exists|msg: crate::rpc::Rpc|
             #[trigger]
                crate::rpc::frame(msg) == sender_run(s, front.take(i)).buf,
            _ => true,
        } by {
            assert(front[i] == events[i]);
            assert(front.take(i) =~= events.take(i));
        }
        lemma_survives(s, front);
        let mid = sender_run(s, front);
        assert(events.take(front.len() as int) =~= front);
        assert(events.last() == events[front.len() as int]);
        lemma_decoding(mid, events.last());
    }
}

/// A message is taken on exactly when it comes while there is nothing else to do: a text as it is,
/// and a ping when it is time for one.
pub proof fn law_sender_takes_on_what_comes(s: SenderModel, event: SenderEvent)
    ensures
        sender_accepts(s.phase, event) is Some <==> s.phase is Idle && (event is Message
            || event is Tick),
        s.phase is Idle && event is Message ==> sender_accepts(s.phase, event) == Some(
            crate::rpc::Rpc::Message { content: event->Message_0@ },
        ),
        s.phase is Idle && event is Tick ==> sender_accepts(s.phase, event) == Some(
            crate::rpc::Rpc::Ping,
        ),
        sender_accepts(s.phase, event) matches Some(msg) ==> {
            &&& sender_next(s, event).phase is Writing
            &&& sender_next(s, event).buf == crate::rpc::frame(msg)
        },
{
}

/// A sender that was stopped or is broken stays as it is.
pub proof fn law_sender_stays_ended(s: SenderModel, events: Seq<SenderEvent>)
    requires
        s.phase is Stopped || s.phase is Failed,
    ensures
        sender_run(s, events) == s,
        sender_accepted(s, events).len() == 0,
        sender_written(s, events).len() == 0,
    decreases events.len(),
{
    if events.len() > 0 {
        law_sender_stays_ended(s, events.drop_last());
    }
}

} // verus!
