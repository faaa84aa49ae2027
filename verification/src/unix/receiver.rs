//! The end of the socket that reads: it accepts connections, takes texts from their lines, and
//! answers pings.

use std::path::PathBuf;
use vstd::prelude::*;
use vstd::utf8::*;
use crate::rpc::{decode, fill_buffer_with_message, Category, IoErrorKind, JsonRpc};

verus! {

/// What is done about a line.
#[derive(Debug, PartialEq, Eq)]
pub enum Incoming {
    /// The connection is closed.
    Close,
    /// The next line is read.
    Continue,
    /// The text goes to the channel.
    Forward(String),
    /// The bytes go back over the connection.
    Reply(Vec<u8>),
}

/// Whether `incoming` is what is to be done about a line that says `said`: texts go to the channel,
/// pings are answered by a pong, and a line that ends too early is the end of the connection.
pub open spec fn handles(said: Result<crate::rpc::Rpc, Category>, incoming: Incoming) -> bool {
    match said {
        Ok(crate::rpc::Rpc::Message { content }) => incoming matches Incoming::Forward(text)
            && text@ == content,
        Ok(crate::rpc::Rpc::Ping) => incoming matches Incoming::Reply(bytes) && bytes@
            == crate::rpc::frame(crate::rpc::Rpc::Pong),
        Ok(crate::rpc::Rpc::Pong) => incoming is Continue,
        Err(Category::Eof) => incoming is Close,
        Err(_) => incoming is Continue,
    }
}

/// What a line says, where `other` is what another decoder makes of it.
pub open spec fn line_says(line: Seq<char>, other: Result<JsonRpc, Category>) -> Result<
    crate::rpc::Rpc,
    Category,
> {
    crate::rpc::meaning(encode_utf8(line), other)
}

/// Decides what is done about a line. `other` is what another decoder makes of it, which is heeded
/// where the line is not spelt as the library spells it.
pub fn handle_incoming_message(line: &str, other: Result<JsonRpc, Category>) -> (incoming: Incoming)
    ensures
        handles(line_says(line@, other), incoming),
{
    let msg = match decode(line.as_bytes(), other) {
        Ok(msg) => msg,
        Err(category) => {
            if category == Category::Eof {
                return Incoming::Close;
            }
            return Incoming::Continue;
        },
    };
    match msg {
        JsonRpc::Message { content } => Incoming::Forward(content),
        JsonRpc::Ping => {
            let mut buf: Vec<u8> = Vec::new();
            fill_buffer_with_message(&mut buf, &JsonRpc::Pong);
            Incoming::Reply(buf)
        },
        JsonRpc::Pong => Incoming::Continue,
    }
}

/// What a connection waits for.
#[derive(Debug, Clone, Copy, PartialEq, Eq, Structural)]
pub enum ConnectionPhase {
    /// For a line, or for the order to wind down.
    Reading,
    /// For the channel to take a text.
    Forwarding,
    /// For the answer to a ping to be written.
    Replying,
    /// For the stream to be shut down.
    ShuttingDown,
    /// For nothing: it is closed.
    Closed,
    /// For nothing: the answer to a ping was not written.
    Failed,
}

/// What happens to a connection.
#[derive(Debug, PartialEq, Eq)]
pub enum ConnectionEvent {
    /// A line was read. `other` is what it says in another spelling than that of the library, or
    /// why it says nothing.
    Line { line: String, other: Result<JsonRpc, Category> },
    /// No line was read.
    ReadFailed(IoErrorKind),
    /// The connection is to wind down.
    Cancelled,
    /// The channel was handed a text; whether it took it.
    Forwarded(bool),
    /// The answer was written; whether that succeeded.
    Replied(bool),
    /// The stream was shut down; whether that succeeded.
    ShutDown(bool),
}

/// What a connection gives out.
#[derive(Debug, PartialEq, Eq)]
pub enum Output {
    /// A text for the channel.
    Forward(String),
    /// Bytes for the other end.
    Reply(Vec<u8>),
}

/// What a connection waits for after an event. An event that it does not wait for changes nothing.
pub open spec fn connection_next(
    phase: ConnectionPhase,
    event: ConnectionEvent,
) -> ConnectionPhase {
    match (phase, event) {
        (ConnectionPhase::Reading, ConnectionEvent::Line { line, other }) => match line_says(
            line@,
            other,
        ) {
            Ok(crate::rpc::Rpc::Message { .. }) => ConnectionPhase::Forwarding,
            Ok(crate::rpc::Rpc::Ping) => ConnectionPhase::Replying,
            Ok(crate::rpc::Rpc::Pong) => ConnectionPhase::Reading,
            Err(Category::Eof) => ConnectionPhase::Closed,
            Err(_) => ConnectionPhase::Reading,
        },
        (ConnectionPhase::Reading, ConnectionEvent::ReadFailed(IoErrorKind::BrokenPipe)) =>
            ConnectionPhase::Closed,
        (ConnectionPhase::Reading, ConnectionEvent::Cancelled) => ConnectionPhase::ShuttingDown,
        (ConnectionPhase::Forwarding, ConnectionEvent::Forwarded(true)) => ConnectionPhase::Reading,
        (ConnectionPhase::Forwarding, ConnectionEvent::Forwarded(false)) => ConnectionPhase::Closed,
        (ConnectionPhase::Replying, ConnectionEvent::Replied(true)) => ConnectionPhase::Reading,
        (ConnectionPhase::Replying, ConnectionEvent::Replied(false)) => ConnectionPhase::Failed,
        (ConnectionPhase::ShuttingDown, ConnectionEvent::ShutDown(_)) => ConnectionPhase::Closed,
        _ => phase,
    }
}

/// The text that is to go to the channel because of an event.
pub open spec fn connection_forwards(
    phase: ConnectionPhase,
    event: ConnectionEvent,
) -> Option<Seq<char>> {
    match (phase, event) {
        (ConnectionPhase::Reading, ConnectionEvent::Line { line, other }) => match line_says(
            line@,
            other,
        ) {
            Ok(crate::rpc::Rpc::Message { content }) => Some(content),
            _ => None,
        },
        _ => None,
    }
}

/// Whether an event calls for the answer to a ping.
pub open spec fn connection_replies(phase: ConnectionPhase, event: ConnectionEvent) -> bool {
    match (phase, event) {
        (ConnectionPhase::Reading, ConnectionEvent::Line { line, other }) => line_says(
            line@,
            other,
        ) == Ok::<crate::rpc::Rpc, Category>(crate::rpc::Rpc::Ping),
        _ => false,
    }
}

/// Whether `output` is what a connection is to give out because of an event.
pub open spec fn connection_gives(
    phase: ConnectionPhase,
    event: ConnectionEvent,
    output: Option<Output>,
) -> bool {
    match connection_forwards(phase, event) {
        Some(text) => output matches Some(Output::Forward(given)) && given@ == text,
        None => if connection_replies(phase, event) {
            output matches Some(Output::Reply(bytes)) && bytes@ == crate::rpc::frame(
                crate::rpc::Rpc::Pong,
            )
        } else {
            output is None
        },
    }
}

/// A connection from the other end of the socket.
#[derive(Debug, PartialEq, Eq)]
pub struct Connection {
    phase: ConnectionPhase,
}

impl View for Connection {
    type V = ConnectionPhase;

    closed spec fn view(&self) -> ConnectionPhase {
        self.phase
    }
}

impl Connection {
    /// A connection that waits for its first line.
    pub fn new() -> (connection: Self)
        ensures
            connection@ == ConnectionPhase::Reading,
    {
        Connection { phase: ConnectionPhase::Reading }
    }

    /// What the connection waits for.
    pub fn phase(&self) -> (phase: ConnectionPhase)
        ensures
            phase == self@,
    {
        self.phase
    }

    /// Tells the connection of an event.
    pub fn step(&mut self, event: ConnectionEvent) -> (output: Option<Output>)
        ensures
            final(self)@ == connection_next(old(self)@, event),
            connection_gives(old(self)@, event, output),
    {
        match (self.phase, event) {
            (ConnectionPhase::Reading, ConnectionEvent::Line { line, other }) => {
                match handle_incoming_message(line.as_str(), other) {
                    Incoming::Close => {
                        self.phase = ConnectionPhase::Closed;
                        None
                    },
                    Incoming::Continue => None,
                    Incoming::Forward(text) => {
                        self.phase = ConnectionPhase::Forwarding;
                        Some(Output::Forward(text))
                    },
                    Incoming::Reply(bytes) => {
                        self.phase = ConnectionPhase::Replying;
                        Some(Output::Reply(bytes))
                    },
                }
            },
            (ConnectionPhase::Reading, ConnectionEvent::ReadFailed(kind)) => {
                if kind == IoErrorKind::BrokenPipe {
                    self.phase = ConnectionPhase::Closed;
                }
                None
            },
            (ConnectionPhase::Reading, ConnectionEvent::Cancelled) => {
                self.phase = ConnectionPhase::ShuttingDown;
                None
            },
            (ConnectionPhase::Forwarding, ConnectionEvent::Forwarded(taken)) => {
                self.phase = if taken {
                    ConnectionPhase::Reading
                } else {
                    ConnectionPhase::Closed
                };
                None
            },
            (ConnectionPhase::Replying, ConnectionEvent::Replied(written)) => {
                self.phase = if written {
                    ConnectionPhase::Reading
                } else {
                    ConnectionPhase::Failed
                };
                None
            },
            (ConnectionPhase::ShuttingDown, ConnectionEvent::ShutDown(_)) => {
                self.phase = ConnectionPhase::Closed;
                None
            },
            _ => None,
        }
    }
}

/// What the receiver waits for.
#[derive(Debug, Clone, Copy, PartialEq, Eq, Structural)]
pub enum ReceiverPhase {
    /// For its socket.
    Binding,
    /// For a connection, or for the signal to stop.
    Accepting,
    /// For the order to wind down to reach all connections.
    Cancelling,
    /// For all connections to end.
    Draining,
    /// For its socket to be removed.
    Removing,
    /// For nothing: it has stopped.
    Stopped,
    /// For nothing: there was no socket.
    Failed,
}

/// What happens to the receiver.
#[derive(Debug, Clone, Copy, PartialEq, Eq, Structural)]
pub enum ReceiverEvent {
    /// The socket was bound; whether that succeeded.
    Bound(bool),
    /// A connection was accepted; whether that succeeded.
    Accepted(bool),
    /// The program is told to stop.
    Shutdown,
    /// All connections were told to wind down.
    Cancelled,
    /// All connections have ended.
    Drained,
    /// The socket was removed; whether that succeeded.
    Removed(bool),
}

/// What the receiver waits for after an event. An event that it does not wait for changes nothing.
pub open spec fn receiver_next(phase: ReceiverPhase, event: ReceiverEvent) -> ReceiverPhase {
    match (phase, event) {
        (ReceiverPhase::Binding, ReceiverEvent::Bound(true)) => ReceiverPhase::Accepting,
        (ReceiverPhase::Binding, ReceiverEvent::Bound(false)) => ReceiverPhase::Failed,
        (ReceiverPhase::Accepting, ReceiverEvent::Shutdown) => ReceiverPhase::Cancelling,
        (ReceiverPhase::Cancelling, ReceiverEvent::Cancelled) => ReceiverPhase::Draining,
        (ReceiverPhase::Draining, ReceiverEvent::Drained) => ReceiverPhase::Removing,
        (ReceiverPhase::Removing, ReceiverEvent::Removed(_)) => ReceiverPhase::Stopped,
        _ => phase,
    }
}

/// Whether a connection is served because of an event.
pub open spec fn receiver_serves(phase: ReceiverPhase, event: ReceiverEvent) -> bool {
    phase == ReceiverPhase::Accepting && event == ReceiverEvent::Accepted(true)
}

/// The end of a socket that reads.
#[derive(Debug, PartialEq, Eq)]
pub struct UnixReceiver {
    file: PathBuf,
    phase: ReceiverPhase,
}

impl View for UnixReceiver {
    type V = ReceiverPhase;

    closed spec fn view(&self) -> ReceiverPhase {
        self.phase
    }
}

impl UnixReceiver {
    /// Where the socket is.
    pub closed spec fn path(&self) -> PathBuf {
        self.file
    }

    /// A receiver that waits for its socket.
    pub fn new(file: PathBuf) -> (receiver: Self)
        ensures
            receiver.path() == file,
            receiver@ == ReceiverPhase::Binding,
    {
        UnixReceiver { file, phase: ReceiverPhase::Binding }
    }

    /// Where the socket is.
    pub fn file(&self) -> (file: &PathBuf)
        ensures
            *file == self.path(),
    {
        &self.file
    }

    /// How many texts may wait in the channel from the receiver.
    pub fn capacity(&self) -> (capacity: usize)
        ensures
            capacity == 8,
    {
        crate::pipe::CHANNEL_CAPACITY
    }

    /// What the receiver waits for.
    pub fn phase(&self) -> (phase: ReceiverPhase)
        ensures
            phase == self@,
    {
        self.phase
    }

    /// Tells the receiver of an event. A connection that comes back is to be served.
    pub fn step(&mut self, event: ReceiverEvent) -> (connection: Option<Connection>)
        ensures
            final(self).path() == old(self).path(),
            final(self)@ == receiver_next(old(self)@, event),
            receiver_serves(old(self)@, event) <==> connection is Some,
            connection matches Some(c) ==> c@ == ConnectionPhase::Reading,
    {
        match (self.phase, event) {
            (ReceiverPhase::Binding, ReceiverEvent::Bound(bound)) => {
                self.phase = if bound {
                    ReceiverPhase::Accepting
                } else {
                    ReceiverPhase::Failed
                };
                None
            },
            (ReceiverPhase::Accepting, ReceiverEvent::Accepted(accepted)) => {
                if accepted {
                    Some(Connection::new())
                } else {
                    None
                }
            },
            (ReceiverPhase::Accepting, ReceiverEvent::Shutdown) => {
                self.phase = ReceiverPhase::Cancelling;
                None
            },
            (ReceiverPhase::Cancelling, ReceiverEvent::Cancelled) => {
                self.phase = ReceiverPhase::Draining;
                None
            },
            (ReceiverPhase::Draining, ReceiverEvent::Drained) => {
                self.phase = ReceiverPhase::Removing;
                None
            },
            (ReceiverPhase::Removing, ReceiverEvent::Removed(_)) => {
                self.phase = ReceiverPhase::Stopped;
                None
            },
            _ => None,
        }
    }
}

/// What a connection waits for after events.
pub open spec fn connection_run(
    phase: ConnectionPhase,
    events: Seq<ConnectionEvent>,
) -> ConnectionPhase
    decreases events.len(),
{
    if events.len() == 0 {
        phase
    } else {
        connection_run(connection_next(phase, events[0]), events.drop_first())
    }
}

/// The texts that go to the channel in the course of events, in their order.
pub open spec fn connection_forwarded(
    phase: ConnectionPhase,
    events: Seq<ConnectionEvent>,
) -> Seq<Seq<char>>
    decreases events.len(),
{
    if events.len() == 0 {
        seq![]
    } else {
        let rest = connection_forwarded(connection_next(phase, events[0]), events.drop_first());
        match connection_forwards(phase, events[0]) {
            Some(text) => seq![text] + rest,
            None => rest,
        }
    }
}

/// How many pings are answered in the course of events.
pub open spec fn connection_replied(phase: ConnectionPhase, events: Seq<ConnectionEvent>) -> nat
    decreases events.len(),
{
    if events.len() == 0 {
        0
    } else {
        let rest = connection_replied(connection_next(phase, events[0]), events.drop_first());
        if connection_replies(phase, events[0]) {
            rest + 1
        } else {
            rest
        }
    }
}

/// What a connection reads says, where it is a line.
pub open spec fn read_says(read: ConnectionEvent) -> Option<Result<crate::rpc::Rpc, Category>> {
    match read {
        ConnectionEvent::Line { line, other } => Some(line_says(line@, other)),
        _ => None,
    }
}

/// Whether a connection goes on reading after what it read: it does not after a line that ends too
/// early, nor where the other end is gone.
pub open spec fn keeps_open(read: ConnectionEvent) -> bool {
    match read {
        ConnectionEvent::Line { line, other } => line_says(line@, other) != Err::<
            crate::rpc::Rpc,
            Category,
        >(Category::Eof),
        ConnectionEvent::ReadFailed(kind) => kind != IoErrorKind::BrokenPipe,
        _ => false,
    }
}

/// Whether a connection ends by what it read.
pub open spec fn ends(read: ConnectionEvent) -> bool {
    match read {
        ConnectionEvent::Line { .. } => !keeps_open(read),
        ConnectionEvent::ReadFailed(_) => !keeps_open(read),
        _ => false,
    }
}

/// The events of a connection that reads `lines`, where the channel takes every text and every
/// answer is written.
pub open spec fn connection_dialogue(lines: Seq<ConnectionEvent>) -> Seq<ConnectionEvent>
    decreases lines.len(),
{
    if lines.len() == 0 {
        seq![]
    } else {
        let rest = connection_dialogue(lines.drop_first());
        match read_says(lines[0]) {
            Some(Ok(crate::rpc::Rpc::Message { .. })) => seq![
                lines[0],
                ConnectionEvent::Forwarded(true),
            ] + rest,
            Some(Ok(crate::rpc::Rpc::Ping)) => seq![
                lines[0],
                ConnectionEvent::Replied(true),
            ] + rest,
            _ => seq![lines[0]] + rest,
        }
    }
}

/// The messages that lines say.
pub open spec fn messages_of(lines: Seq<ConnectionEvent>) -> Seq<crate::rpc::Rpc>
    decreases lines.len(),
{
    if lines.len() == 0 {
        seq![]
    } else {
        let rest = messages_of(lines.drop_first());
        match read_says(lines[0]) {
            Some(Ok(msg)) => seq![msg] + rest,
            _ => rest,
        }
    }
}

/// The texts among messages.
pub open spec fn sent_texts(sent: Seq<crate::rpc::Rpc>) -> Seq<Seq<char>>
    decreases sent.len(),
{
    if sent.len() == 0 {
        seq![]
    } else {
        let rest = sent_texts(sent.drop_first());
        match sent[0] {
            crate::rpc::Rpc::Message { content } => seq![content] + rest,
            _ => rest,
        }
    }
}

/// How many messages are pings.
pub open spec fn sent_pings(sent: Seq<crate::rpc::Rpc>) -> nat
    decreases sent.len(),
{
    if sent.len() == 0 {
        0
    } else {
        let rest = sent_pings(sent.drop_first());
        if sent[0] is Ping {
            rest + 1
        } else {
            rest
        }
    }
}

/// The texts that lines hold.
pub open spec fn texts_of(lines: Seq<ConnectionEvent>) -> Seq<Seq<char>> {
    sent_texts(messages_of(lines))
}

/// How many lines are pings.
pub open spec fn pings_of(lines: Seq<ConnectionEvent>) -> nat {
    sent_pings(messages_of(lines))
}

/// A connection passes on exactly the texts of its lines, in their order, answers every ping once,
/// and goes on reading, for as long as it reads no end. A line that is no message, or that could
/// not be read though the other end is there, is passed over.
pub proof fn law_connection_forwards_texts(lines: Seq<ConnectionEvent>)
    requires
        forall|i: int| 0 <= i < lines.len() ==> keeps_open(#[trigger] lines[i]),
    ensures
        connection_forwarded(ConnectionPhase::Reading, connection_dialogue(lines)) == texts_of(
            lines,
        ),
        connection_replied(ConnectionPhase::Reading, connection_dialogue(lines)) == pings_of(lines),
        connection_run(ConnectionPhase::Reading, connection_dialogue(lines))
            == ConnectionPhase::Reading,
    decreases lines.len(),
{
    reveal_with_fuel(connection_run, 3);
    reveal_with_fuel(connection_forwarded, 3);
    reveal_with_fuel(connection_replied, 3);
    if lines.len() > 0 {
        let events = connection_dialogue(lines);
        let rest = connection_dialogue(lines.drop_first());
        assert(keeps_open(lines[0]));
        law_connection_forwards_texts(lines.drop_first());
        if let Some(Ok(msg)) = read_says(lines[0]) {
            assert(messages_of(lines).drop_first() =~= messages_of(lines.drop_first()));
        }
        match read_says(lines[0]) {
            Some(Ok(crate::rpc::Rpc::Message { .. })) => {
                assert(events.drop_first().drop_first() =~= rest);
                assert(events.drop_first()[0] == ConnectionEvent::Forwarded(true));
            },
            Some(Ok(crate::rpc::Rpc::Ping)) => {
                assert(events.drop_first().drop_first() =~= rest);
                assert(events.drop_first()[0] == ConnectionEvent::Replied(true));
            },
            _ => {
                assert(events.drop_first() =~= rest);
            },
        }
    }
}

proof fn lemma_connection_concat(
    phase: ConnectionPhase,
    a: Seq<ConnectionEvent>,
    b: Seq<ConnectionEvent>,
)
    ensures
        connection_run(phase, a + b) == connection_run(connection_run(phase, a), b),
        connection_forwarded(phase, a + b) == connection_forwarded(phase, a)
            + connection_forwarded(connection_run(phase, a), b),
        connection_replied(phase, a + b) == connection_replied(phase, a) + connection_replied(
            connection_run(phase, a),
            b,
        ),
    decreases a.len(),
{
    if a.len() == 0 {
        assert(a + b =~= b);
        assert(connection_forwarded(phase, a + b) =~= connection_forwarded(phase, a)
            + connection_forwarded(phase, b));
    } else {
        assert((a + b).drop_first() =~= a.drop_first() + b);
        lemma_connection_concat(connection_next(phase, a[0]), a.drop_first(), b);
        assert(connection_forwarded(phase, a + b) =~= connection_forwarded(phase, a)
            + connection_forwarded(connection_run(phase, a), b));
    }
}

/// A line that ends too early, or the loss of the other end, closes the connection: the texts
/// before it have been passed on and the pings before it answered, and whatever comes after it is
/// not heeded.
pub proof fn law_connection_closes_at_end(
    lines: Seq<ConnectionEvent>,
    end: ConnectionEvent,
    after: Seq<ConnectionEvent>,
)
    requires
        forall|i: int| 0 <= i < lines.len() ==> keeps_open(#[trigger] lines[i]),
        ends(end),
    ensures
        ({
            let events = connection_dialogue(lines) + (seq![end] + after);
            &&& connection_run(ConnectionPhase::Reading, events) == ConnectionPhase::Closed
            &&& connection_forwarded(ConnectionPhase::Reading, events) == texts_of(lines)
            &&& connection_replied(ConnectionPhase::Reading, events) == pings_of(lines)
        }),
{
    let tail = seq![end] + after;
    law_connection_forwards_texts(lines);
    lemma_connection_concat(ConnectionPhase::Reading, connection_dialogue(lines), tail);
    assert(tail.drop_first() =~= after);
    assert(tail[0] == end);
    law_connection_stays_ended(ConnectionPhase::Closed, after);
    assert(connection_forwarded(ConnectionPhase::Reading, connection_dialogue(lines) + tail)
        =~= texts_of(lines));
}

/// The bytes of the lines that a connection reads.
pub open spec fn lines_read(reads: Seq<ConnectionEvent>) -> Seq<Seq<u8>>
    decreases reads.len(),
{
    if reads.len() == 0 {
        seq![]
    } else {
        let rest = lines_read(reads.drop_first());
        match reads[0] {
            ConnectionEvent::Line { line, .. } => seq![encode_utf8(line@)] + rest,
            _ => rest,
        }
    }
}

/// Whether a connection read a line, or failed to though the other end is there.
pub open spec fn is_read(event: ConnectionEvent) -> bool {
    match event {
        ConnectionEvent::Line { .. } => true,
        ConnectionEvent::ReadFailed(kind) => kind != IoErrorKind::BrokenPipe,
        _ => false,
    }
}

/// A connection that reads the lines of messages, as the library writes them, understands these
/// messages and no others, whatever another decoder makes of the lines, and none of them ends it.
pub proof fn law_written_lines_are_understood(
    msgs: Seq<crate::rpc::Rpc>,
    reads: Seq<ConnectionEvent>,
)
    requires
        forall|i: int| 0 <= i < reads.len() ==> is_read(#[trigger] reads[i]),
        lines_read(reads) == crate::rpc::frames(msgs),
    ensures
        messages_of(reads) == msgs,
        forall|i: int| 0 <= i < reads.len() ==> keeps_open(#[trigger] reads[i]),
    decreases reads.len(),
{
    let frames = crate::rpc::frames(msgs);
    if reads.len() == 0 {
        assert(frames.len() == 0);
        assert(messages_of(reads) =~= msgs);
    } else {
        let rest = reads.drop_first();
        assert forall|i: int| 0 <= i < rest.len() implies is_read(#[trigger] rest[i]) by {
            assert(rest[i] == reads[i + 1]);
        }
        assert(is_read(reads[0]));
        if let ConnectionEvent::Line { line, other } = reads[0] {
            assert(lines_read(reads) =~= seq![encode_utf8(line@)] + lines_read(rest));
            assert(frames.len() == msgs.len());
            assert(frames[0] == crate::rpc::frame(msgs[0]));
            crate::rpc::law_frame_says_its_message(msgs[0], other);
            assert(lines_read(rest) =~= lines_read(reads).drop_first());
            assert(crate::rpc::frames(msgs.drop_first()) =~= frames.drop_first());
            law_written_lines_are_understood(msgs.drop_first(), rest);
            assert(msgs =~= seq![msgs[0]] + msgs.drop_first());
        } else {
            law_written_lines_are_understood(msgs, rest);
        }
        assert(keeps_open(reads[0]));
        assert forall|i: int| 0 <= i < reads.len() implies keeps_open(#[trigger] reads[i]) by {
            if i > 0 {
                assert(keeps_open(rest[i - 1]));
            }
        }
    }
}

/// The texts among messages, one more at the end.
pub(crate) proof fn lemma_sent_texts_push(sent: Seq<crate::rpc::Rpc>, msg: crate::rpc::Rpc)
    ensures
        sent_texts(sent.push(msg)) == match msg {
            crate::rpc::Rpc::Message { content } => sent_texts(sent).push(content),
            _ => sent_texts(sent),
        },
    decreases sent.len(),
{
    let all = sent.push(msg);
    if sent.len() == 0 {
        assert(all.drop_first() =~= seq![]);
        assert(sent_texts(all.drop_first()) =~= seq![]);
    } else {
        assert(all.drop_first() =~= sent.drop_first().push(msg));
        lemma_sent_texts_push(sent.drop_first(), msg);
    }
    if let crate::rpc::Rpc::Message { content } = msg {
        assert(sent_texts(all) =~= sent_texts(sent).push(content));
    } else {
        assert(sent_texts(all) =~= sent_texts(sent));
    }
}

/// A connection that is closed or broken stays so and gives out nothing more.
pub proof fn law_connection_stays_ended(phase: ConnectionPhase, events: Seq<ConnectionEvent>)
    requires
        phase is Closed || phase is Failed,
    ensures
        connection_run(phase, events) == phase,
        connection_forwarded(phase, events).len() == 0,
        connection_replied(phase, events) == 0,
    decreases events.len(),
{
    if events.len() > 0 {
        law_connection_stays_ended(phase, events.drop_first());
    }
}

/// A line that is one of the library's says the message that was written, and any other line says
/// what another decoder makes of it, whatever the line is.
pub proof fn law_what_a_line_says(
    line: Seq<char>,
    other: Result<JsonRpc, Category>,
    msg: crate::rpc::Rpc,
)
    ensures
        encode_utf8(line) == crate::rpc::frame(msg) ==> line_says(line, other) == Ok::<
            crate::rpc::Rpc,
            Category,
        >(msg),
        (forall|sent: crate::rpc::Rpc| #[trigger] crate::rpc::frame(sent) != encode_utf8(line)) ==> {
            &&& other matches Ok(JsonRpc::Message { content }) ==> line_says(line, other) == Ok::<
                crate::rpc::Rpc,
                Category,
            >(crate::rpc::Rpc::Message { content: content@ })
            &&& other matches Ok(JsonRpc::Ping) ==> line_says(line, other) == Ok::<
                crate::rpc::Rpc,
                Category,
            >(crate::rpc::Rpc::Ping)
            &&& other matches Ok(JsonRpc::Pong) ==> line_says(line, other) == Ok::<
                crate::rpc::Rpc,
                Category,
            >(crate::rpc::Rpc::Pong)
            &&& other matches Err(category) ==> line_says(line, other) == Err::<
                crate::rpc::Rpc,
                Category,
            >(category)
        },
{
    if encode_utf8(line) == crate::rpc::frame(msg) {
        crate::rpc::law_frame_says_its_message(msg, other);
    }
    if forall|sent: crate::rpc::Rpc| #[trigger] crate::rpc::frame(sent) != encode_utf8(line) {
        crate::rpc::law_other_spellings_say_what_is_decoded(encode_utf8(line), other);
    }
}

/// What is done about a line tells what it said: a text goes on exactly where the line is that text,
/// a pong goes back exactly where it is a ping, and the connection is closed exactly where the line
/// ends too early.
pub proof fn law_what_is_done_about_a_line(
    said: Result<crate::rpc::Rpc, Category>,
    incoming: Incoming,
)
    requires
        handles(said, incoming),
    ensures
        incoming is Forward <==> said is Ok && said->Ok_0 is Message,
        incoming matches Incoming::Forward(text) ==> text@ == said->Ok_0->content,
        incoming is Reply <==> said is Ok && said->Ok_0 is Ping,
        incoming matches Incoming::Reply(bytes) ==> bytes@ == seq![
            34u8,
            80,
            111,
            110,
            103,
            34,
            10,
        ],
        incoming is Close <==> said is Err && said->Err_0 is Eof,
        incoming is Continue <==> (said is Ok && said->Ok_0 is Pong) || (said is Err
            && !(said->Err_0 is Eof)),
{
    crate::rpc::law_frame_bytes(seq![]);
}

/// What a connection gives out tells what it read: a text goes to the channel exactly where the
/// connection is reading and the line is that text, and a pong goes back exactly where it is reading
/// and the line is a ping.
pub proof fn law_what_a_connection_gives_out(
    phase: ConnectionPhase,
    event: ConnectionEvent,
    output: Option<Output>,
)
    requires
        connection_gives(phase, event, output),
    ensures
        output is Some && output->0 is Forward <==> {
            &&& phase is Reading
            &&& event is Line
            &&& line_says(event->line@, event->other) is Ok
            &&& line_says(event->line@, event->other)->Ok_0 is Message
        },
        output matches Some(Output::Forward(text)) ==> text@ == line_says(
            event->line@,
            event->other,
        )->Ok_0->content,
        output is Some && output->0 is Reply <==> {
            &&& phase is Reading
            &&& event is Line
            &&& line_says(event->line@, event->other) is Ok
            &&& line_says(event->line@, event->other)->Ok_0 is Ping
        },
        output matches Some(Output::Reply(bytes)) ==> bytes@ == seq![34u8, 80, 111, 110, 103, 34, 10],
{
    crate::rpc::law_frame_bytes(seq![]);
}

/// A connection comes to hand a text on, or to answer, exactly when it reads a text or a ping, and
/// stays there until it is told of the outcome. It comes back to reading exactly when that
/// succeeded, and goes on reading over everything else that is read, unless it is an end.
pub proof fn law_when_a_connection_reads_and_gives(phase: ConnectionPhase, event: ConnectionEvent)
    ensures
        connection_next(phase, event) is Forwarding <==> {
            ||| phase is Forwarding && !(event is Forwarded)
            ||| phase is Reading && event is Line && (line_says(event->line@, event->other) matches Ok(
                msg,
            ) && msg is Message)
        },
        connection_next(phase, event) is Replying <==> {
            ||| phase is Replying && !(event is Replied)
            ||| phase is Reading && event is Line && (line_says(event->line@, event->other) matches Ok(
                msg,
            ) && msg is Ping)
        },
        connection_next(phase, event) is Reading <==> {
            ||| phase is Forwarding && event == ConnectionEvent::Forwarded(true)
            ||| phase is Replying && event == ConnectionEvent::Replied(true)
            ||| phase is Reading && !(event is Line || event is ReadFailed || event is Cancelled)
            ||| phase is Reading && event is ReadFailed && !(event->ReadFailed_0 is BrokenPipe)
            ||| phase is Reading && event is Line && (line_says(event->line@, event->other) matches Ok(
                msg,
            ) && msg is Pong)
            ||| phase is Reading && event is Line && (line_says(
                event->line@,
                event->other,
            ) matches Err(category) && !(category is Eof))
        },
{
}

/// A connection winds down exactly when it is told to while it is reading. It closes exactly when
/// it has shut down, when a line ends too early or the other end is gone, and when the channel is
/// gone. It breaks exactly when an answer is not written.
pub proof fn law_when_a_connection_ends(phase: ConnectionPhase, event: ConnectionEvent)
    ensures
        connection_next(phase, event) is ShuttingDown <==> {
            ||| phase is ShuttingDown && !(event is ShutDown)
            ||| phase is Reading && event is Cancelled
        },
        connection_next(phase, event) is Closed <==> {
            ||| phase is Closed
            ||| phase is ShuttingDown && event is ShutDown
            ||| phase is Forwarding && event == ConnectionEvent::Forwarded(false)
            ||| phase is Reading && event == ConnectionEvent::ReadFailed(IoErrorKind::BrokenPipe)
            ||| phase is Reading && event is Line && (line_says(
                event->line@,
                event->other,
            ) matches Err(category) && category is Eof)
        },
        connection_next(phase, event) is Failed <==> phase is Failed || (phase is Replying && event
            == ConnectionEvent::Replied(false)),
{
}

/// A connection that reads a line in another spelling than that of the library does with it what
/// another decoder reads in it: it passes on a text, every character of it, answers a ping, closes
/// where the line ends too early, and reads on otherwise.
pub proof fn law_other_spellings_are_served(
    line: String,
    other: Result<JsonRpc, Category>,
    output: Option<Output>,
)
    requires
        forall|sent: crate::rpc::Rpc| #[trigger] crate::rpc::frame(sent) != encode_utf8(line@),
        connection_gives(ConnectionPhase::Reading, ConnectionEvent::Line { line, other }, output),
    ensures
        ({
            let next = connection_next(
                ConnectionPhase::Reading,
                ConnectionEvent::Line { line, other },
            );
            match other {
                Ok(JsonRpc::Message { content }) => {
                    &&& output matches Some(Output::Forward(text)) && text@ == content@
                    &&& next is Forwarding
                },
                Ok(JsonRpc::Ping) => {
                    &&& output is Some && output->0 is Reply
                    &&& next is Replying
                },
                Ok(JsonRpc::Pong) => output is None && next is Reading,
                Err(Category::Eof) => output is None && next is Closed,
                Err(_) => output is None && next is Reading,
            }
        }),
{
    crate::rpc::law_other_spellings_say_what_is_decoded(encode_utf8(line@), other);
}

/// What the receiver waits for after events.
pub open spec fn receiver_run(phase: ReceiverPhase, events: Seq<ReceiverEvent>) -> ReceiverPhase
    decreases events.len(),
{
    if events.len() == 0 {
        phase
    } else {
        receiver_run(receiver_next(phase, events[0]), events.drop_first())
    }
}

/// How many connections are served in the course of events.
pub open spec fn receiver_served(phase: ReceiverPhase, events: Seq<ReceiverEvent>) -> nat
    decreases events.len(),
{
    if events.len() == 0 {
        0
    } else {
        let rest = receiver_served(receiver_next(phase, events[0]), events.drop_first());
        if receiver_serves(phase, events[0]) {
            rest + 1
        } else {
            rest
        }
    }
}

/// Whether the receiver has been told to stop.
pub open spec fn winds_down(phase: ReceiverPhase) -> bool {
    match phase {
        ReceiverPhase::Cancelling => true,
        ReceiverPhase::Draining => true,
        ReceiverPhase::Removing => true,
        ReceiverPhase::Stopped => true,
        _ => false,
    }
}

/// A receiver that was told to stop serves no more connections and never goes back to accepting
/// them.
pub proof fn law_receiver_winds_down(phase: ReceiverPhase, events: Seq<ReceiverEvent>)
    requires
        winds_down(phase),
    ensures
        winds_down(receiver_run(phase, events)),
        receiver_served(phase, events) == 0,
    decreases events.len(),
{
    if events.len() > 0 {
        law_receiver_winds_down(receiver_next(phase, events[0]), events.drop_first());
    }
}

/// The receiver stops only after its socket was to be removed, which is done only after all its
/// connections have ended, for which it waits only after they were told to wind down, which they
/// are only when it is told to stop.
pub proof fn law_receiver_winds_down_in_order(phase: ReceiverPhase, event: ReceiverEvent)
    ensures
        receiver_next(phase, event) != phase ==> match receiver_next(phase, event) {
            ReceiverPhase::Binding => false,
            ReceiverPhase::Accepting => phase is Binding && event == ReceiverEvent::Bound(true),
            ReceiverPhase::Cancelling => phase is Accepting && event is Shutdown,
            ReceiverPhase::Draining => phase is Cancelling && event is Cancelled,
            ReceiverPhase::Removing => phase is Draining && event is Drained,
            ReceiverPhase::Stopped => phase is Removing && event is Removed,
            ReceiverPhase::Failed => phase is Binding && event == ReceiverEvent::Bound(false),
        },
{
}

/// A failure to accept a connection changes nothing, and neither does an accepted one but for
/// being served: however many come, the receiver goes on accepting.
pub proof fn law_receiver_keeps_accepting(events: Seq<ReceiverEvent>)
    requires
        forall|i: int| 0 <= i < events.len() ==> (#[trigger] events[i]) is Accepted,
    ensures
        receiver_run(ReceiverPhase::Accepting, events) == ReceiverPhase::Accepting,
        receiver_served(ReceiverPhase::Accepting, events) == events.filter(
            |event: ReceiverEvent| event == ReceiverEvent::Accepted(true),
        ).len(),
    decreases events.len(),
{
    let taken = |event: ReceiverEvent| event == ReceiverEvent::Accepted(true);
    reveal_with_fuel(Seq::filter, 2);
    if events.len() > 0 {
        let rest = events.drop_first();
        assert(events[0] is Accepted);
        assert forall|i: int| 0 <= i < rest.len() implies (#[trigger] rest[i]) is Accepted by {
            assert(rest[i] == events[i + 1]);
        }
        law_receiver_keeps_accepting(rest);
        assert(events =~= seq![events[0]] + rest);
        Seq::filter_distributes_over_add(seq![events[0]], rest, taken);
        assert(seq![events[0]].drop_last() =~= seq![]);
    }
}

/// The receiver comes to each of its phases exactly by what it waits for in the one before, and
/// leaves none of them otherwise.
pub proof fn law_when_the_receiver_moves_on(phase: ReceiverPhase, event: ReceiverEvent)
    ensures
        ({
            let next = receiver_next(phase, event);
            &&& next is Binding <==> phase is Binding && !(event is Bound)
            &&& next is Accepting <==> (phase is Binding && event == ReceiverEvent::Bound(true)) || (
            phase is Accepting && !(event is Shutdown))
            &&& next is Cancelling <==> (phase is Accepting && event is Shutdown) || (
            phase is Cancelling && !(event is Cancelled))
            &&& next is Draining <==> (phase is Cancelling && event is Cancelled) || (
            phase is Draining && !(event is Drained))
            &&& next is Removing <==> (phase is Draining && event is Drained) || (phase is Removing
                && !(event is Removed))
            &&& next is Stopped <==> phase is Stopped || (phase is Removing && event is Removed)
            &&& next is Failed <==> phase is Failed || (phase is Binding && event
                == ReceiverEvent::Bound(false))
        }),
{
}

/// A connection is served exactly where one is accepted by a receiver that accepts.
pub proof fn law_when_a_connection_is_served(phase: ReceiverPhase, event: ReceiverEvent)
    ensures
        receiver_serves(phase, event) <==> phase is Accepting && event is Accepted
            && event->Accepted_0,
{
}

proof fn lemma_receiver_run_concat(
    phase: ReceiverPhase,
    a: Seq<ReceiverEvent>,
    b: Seq<ReceiverEvent>,
)
    ensures
        receiver_run(phase, a + b) == receiver_run(receiver_run(phase, a), b),
        receiver_served(phase, a + b) == receiver_served(phase, a) + receiver_served(
            receiver_run(phase, a),
            b,
        ),
    decreases a.len(),
{
    if a.len() == 0 {
        assert(a + b =~= b);
    } else {
        assert((a + b).drop_first() =~= a.drop_first() + b);
        lemma_receiver_run_concat(receiver_next(phase, a[0]), a.drop_first(), b);
    }
}

/// The receiver runs its course: once its socket is bound it serves everyone whom it accepts until
/// it is told to stop, and when its connections were told and have ended, it removes its socket and
/// stops, whether or not the socket could be removed.
pub proof fn law_receiver_runs_its_course(accepts: Seq<ReceiverEvent>, removed: bool)
    requires
        forall|i: int| 0 <= i < accepts.len() ==> (#[trigger] accepts[i]) is Accepted,
    ensures
        ({
            let events = seq![ReceiverEvent::Bound(true)] + (accepts + seq![
                ReceiverEvent::Shutdown,
                ReceiverEvent::Cancelled,
                ReceiverEvent::Drained,
                ReceiverEvent::Removed(removed),
            ]);
            &&& receiver_run(ReceiverPhase::Binding, events) == ReceiverPhase::Stopped
            &&& receiver_served(ReceiverPhase::Binding, events) == accepts.filter(
                |event: ReceiverEvent| event == ReceiverEvent::Accepted(true),
            ).len()
        }),
{
    let end = seq![
        ReceiverEvent::Shutdown,
        ReceiverEvent::Cancelled,
        ReceiverEvent::Drained,
        ReceiverEvent::Removed(removed),
    ];
    let events = seq![ReceiverEvent::Bound(true)] + (accepts + end);
    assert(events.drop_first() =~= accepts + end);
    law_receiver_keeps_accepting(accepts);
    lemma_receiver_run_concat(ReceiverPhase::Accepting, accepts, end);
    reveal_with_fuel(receiver_run, 5);
    reveal_with_fuel(receiver_served, 5);
    law_receiver_winds_down(ReceiverPhase::Cancelling, end.drop_first());
}

/// The receiver with the connections that it serves, in the order in which it took them on.
pub struct ServerModel {
    pub receiver: ReceiverPhase,
    pub clients: Seq<ConnectionPhase>,
}

/// What happens to the receiver or to one of its clients, who are numbered in the order in which
/// they are taken on.
pub enum ServerEvent {
    Receiver(ReceiverEvent),
    Client { client: nat, event: ConnectionEvent },
}

/// What becomes of the receiver and its clients after an event. What happens to a client that is
/// not there changes nothing.
pub open spec fn server_next(s: ServerModel, event: ServerEvent) -> ServerModel {
    match event {
        ServerEvent::Receiver(event) => ServerModel {
            receiver: receiver_next(s.receiver, event),
            clients: if receiver_serves(s.receiver, event) {
                s.clients.push(ConnectionPhase::Reading)
            } else {
                s.clients
            },
        },
        ServerEvent::Client { client, event } => if client < s.clients.len() {
            ServerModel {
                clients: s.clients.update(
                    client as int,
                    connection_next(s.clients[client as int], event),
                ),
                ..s
            }
        } else {
            s
        },
    }
}

/// What becomes of the receiver and its clients after events.
pub open spec fn server_run(s: ServerModel, events: Seq<ServerEvent>) -> ServerModel
    decreases events.len(),
{
    if events.len() == 0 {
        s
    } else {
        server_run(server_next(s, events[0]), events.drop_first())
    }
}

/// The texts that go to the channel in the course of events, in their order, each with the client
/// from whom it comes.
pub open spec fn server_forwarded(s: ServerModel, events: Seq<ServerEvent>) -> Seq<(nat, Seq<char>)>
    decreases events.len(),
{
    if events.len() == 0 {
        seq![]
    } else {
        let rest = server_forwarded(server_next(s, events[0]), events.drop_first());
        match events[0] {
            ServerEvent::Client { client, event } if client < s.clients.len() =>
                match connection_forwards(s.clients[client as int], event) {
                    Some(text) => seq![(client, text)] + rest,
                    None => rest,
                },
            _ => rest,
        }
    }
}

/// How many pings of one client are answered in the course of events.
pub open spec fn server_replied(s: ServerModel, events: Seq<ServerEvent>, c: nat) -> nat
    decreases events.len(),
{
    if events.len() == 0 {
        0
    } else {
        let rest = server_replied(server_next(s, events[0]), events.drop_first(), c);
        match events[0] {
            ServerEvent::Client { client, event } if client == c && c < s.clients.len()
                && connection_replies(s.clients[c as int], event) => rest + 1,
            _ => rest,
        }
    }
}

/// What happens to the receiver itself in the course of events.
pub open spec fn receiver_events(events: Seq<ServerEvent>) -> Seq<ReceiverEvent>
    decreases events.len(),
{
    if events.len() == 0 {
        seq![]
    } else {
        let rest = receiver_events(events.drop_first());
        match events[0] {
            ServerEvent::Receiver(event) => seq![event] + rest,
            _ => rest,
        }
    }
}

/// What happens to one client in the course of events, from when it is taken on.
pub open spec fn client_events(s: ServerModel, events: Seq<ServerEvent>, c: nat) -> Seq<
    ConnectionEvent,
>
    decreases events.len(),
{
    if events.len() == 0 {
        seq![]
    } else {
        let rest = client_events(server_next(s, events[0]), events.drop_first(), c);
        match events[0] {
            ServerEvent::Client { client, event } if client == c && c < s.clients.len() => seq![
                event,
            ] + rest,
            _ => rest,
        }
    }
}

/// The texts of one client among texts of several.
pub open spec fn texts_from(texts: Seq<(nat, Seq<char>)>, c: nat) -> Seq<Seq<char>>
    decreases texts.len(),
{
    if texts.len() == 0 {
        seq![]
    } else {
        let rest = texts_from(texts.drop_first(), c);
        if texts[0].0 == c {
            seq![texts[0].1] + rest
        } else {
            rest
        }
    }
}

/// What a client waits for, or will wait for first once it is taken on.
pub open spec fn client_phase(s: ServerModel, c: nat) -> ConnectionPhase {
    if c < s.clients.len() {
        s.clients[c as int]
    } else {
        ConnectionPhase::Reading
    }
}

/// Clients do not meddle with each other: the texts of a client that go to the channel, their
/// order, the answers to its pings, and what it waits for in the end depend on what happens to
/// that client alone. So the texts in the channel are an interleaving of those of the clients.
pub proof fn law_clients_are_independent(s: ServerModel, events: Seq<ServerEvent>, c: nat)
    ensures
        texts_from(server_forwarded(s, events), c) == connection_forwarded(
            client_phase(s, c),
            client_events(s, events, c),
        ),
        server_replied(s, events, c) == connection_replied(
            client_phase(s, c),
            client_events(s, events, c),
        ),
        client_phase(server_run(s, events), c) == connection_run(
            client_phase(s, c),
            client_events(s, events, c),
        ),
    decreases events.len(),
{
    if events.len() > 0 {
        let next = server_next(s, events[0]);
        let tail = events.drop_first();
        law_clients_are_independent(next, tail, c);
        let own = client_events(s, events, c);
        let rest = server_forwarded(next, tail);
        match events[0] {
            ServerEvent::Client { client, event } if client < s.clients.len() => {
                if client == c {
                    assert(own.drop_first() =~= client_events(next, tail, c));
                }
                if let Some(text) = connection_forwards(s.clients[client as int], event) {
                    assert((seq![(client, text)] + rest).drop_first() =~= rest);
                }
            },
            _ => {},
        }
    }
}

/// Every text in the channel comes from a client that was taken on.
pub proof fn law_texts_have_a_client(s: ServerModel, events: Seq<ServerEvent>, i: int)
    requires
        0 <= i < server_forwarded(s, events).len(),
    ensures
        server_forwarded(s, events)[i].0 < server_run(s, events).clients.len(),
    decreases events.len(),
{
    if events.len() > 0 {
        let next = server_next(s, events[0]);
        let tail = events.drop_first();
        let rest = server_forwarded(next, tail);
        law_receiver_is_independent(next, tail);
        if server_forwarded(s, events).len() == rest.len() {
            law_texts_have_a_client(next, tail, i);
        } else if i > 0 {
            law_texts_have_a_client(next, tail, i - 1);
        }
    }
}

/// The clients have no part in what becomes of the receiver: whether it accepts, and how many
/// clients it takes on, depend on what happens to the receiver itself alone.
pub proof fn law_receiver_is_independent(s: ServerModel, events: Seq<ServerEvent>)
    ensures
        server_run(s, events).receiver == receiver_run(s.receiver, receiver_events(events)),
        server_run(s, events).clients.len() == s.clients.len() + receiver_served(
            s.receiver,
            receiver_events(events),
        ),
    decreases events.len(),
{
    if events.len() > 0 {
        law_receiver_is_independent(server_next(s, events[0]), events.drop_first());
        if let ServerEvent::Receiver(event) = events[0] {
            assert(receiver_events(events).drop_first() =~= receiver_events(events.drop_first()));
        }
    }
}

/// A receiver that is not told to stop takes on everyone whom it accepts, whatever accepts fail and
/// whichever clients end in between, and puts into the channel the texts of each of them, in their
/// order, each once: of a client that ends, those before its end.
pub proof fn law_every_client_is_served(
    events: Seq<ServerEvent>,
    c: nat,
    lines: Seq<ConnectionEvent>,
    end: Seq<ConnectionEvent>,
)
    requires
        forall|i: int|
            0 <= i < receiver_events(events).len() ==> (#[trigger] receiver_events(
                events,
            )[i]) is Accepted,
        forall|i: int| 0 <= i < lines.len() ==> keeps_open(#[trigger] lines[i]),
        end.len() > 0 ==> ends(end[0]),
        client_events(
            ServerModel { receiver: ReceiverPhase::Accepting, clients: seq![] },
            events,
            c,
        ) == connection_dialogue(lines) + end,
    ensures
        ({
            let s = ServerModel { receiver: ReceiverPhase::Accepting, clients: seq![] };
            &&& server_run(s, events).receiver == ReceiverPhase::Accepting
            &&& server_run(s, events).clients.len() == receiver_events(events).filter(
                |event: ReceiverEvent| event == ReceiverEvent::Accepted(true),
            ).len()
            &&& texts_from(server_forwarded(s, events), c) == texts_of(lines)
            &&& server_replied(s, events, c) == pings_of(lines)
        }),
{
    let s = ServerModel { receiver: ReceiverPhase::Accepting, clients: seq![] };
    law_receiver_is_independent(s, events);
    law_receiver_keeps_accepting(receiver_events(events));
    law_clients_are_independent(s, events, c);
    if end.len() > 0 {
        assert(end =~= seq![end[0]] + end.drop_first());
        law_connection_closes_at_end(lines, end[0], end.drop_first());
    } else {
        assert(connection_dialogue(lines) + end =~= connection_dialogue(lines));
        law_connection_forwards_texts(lines);
    }
}

} // verus!
