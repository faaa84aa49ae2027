use std::path::PathBuf;

use signal_webhook::rpc::{fill_buffer_with_message, Category, IoErrorKind, JsonRpc};
use signal_webhook::unix::receiver::{
    handle_incoming_message, Connection, ConnectionEvent, ConnectionPhase, Incoming, Output,
    ReceiverEvent, ReceiverPhase, UnixReceiver,
};
use signal_webhook::unix::sender::{
    handle_io_error, is_transient, AfterConnect, AfterWrite, RetryPolicy, SenderEvent,
    SenderFailure, SenderPhase, UnixSender, PING_INTERVAL_SECS,
};

const PONG: &[u8] = b"\"Pong\"\n";

/// The line of a message, as the library writes it, with which no other decoder can do anything.
fn line_of(msg: &JsonRpc) -> ConnectionEvent {
    let mut buf: Vec<u8> = Vec::new();
    fill_buffer_with_message(&mut buf, msg);
    ConnectionEvent::Line { line: String::from_utf8(buf).unwrap(), other: Err(Category::Data) }
}

/// A line that the library would not write, and what another decoder makes of it.
fn other_line(other: Result<JsonRpc, Category>) -> ConnectionEvent {
    ConnectionEvent::Line { line: "?\n".to_string(), other }
}

fn idle() -> UnixSender {
    let mut sender = UnixSender::new(PathBuf::from("socket"));
    assert_eq!(sender.phase(), SenderPhase::Connecting(AfterConnect::Start));
    sender.step(SenderEvent::Connected(Ok(())));
    assert_eq!(sender.phase(), SenderPhase::Idle);
    sender
}

fn read(bytes: &[u8], outcome: Result<(), IoErrorKind>) -> SenderEvent {
    SenderEvent::Read { bytes: bytes.to_vec(), outcome }
}

fn awaiting() -> UnixSender {
    let mut sender = idle();
    sender.step(SenderEvent::Tick);
    sender.step(SenderEvent::Written(Ok(())));
    assert_eq!(sender.phase(), SenderPhase::AwaitingPong);
    assert!(sender.buffer().is_empty());
    sender
}

#[test]
fn sender_knows_its_socket_and_pace() {
    assert_eq!(*UnixSender::new(PathBuf::from("a/b")).file(), PathBuf::from("a/b"));
    assert_eq!(
        UnixSender::retry_policy(),
        RetryPolicy { max_interval_secs: 60, max_elapsed_secs: None }
    );
    assert_eq!(PING_INTERVAL_SECS, 5);
    assert_eq!(UnixSender::new(PathBuf::from("a")).capacity(), 8);
    assert_eq!(UnixReceiver::new(PathBuf::from("a")).capacity(), 8);
}

#[test]
fn sender_retries_while_the_socket_is_missing() {
    assert!(is_transient(IoErrorKind::NotFound));
    assert!(!is_transient(IoErrorKind::BrokenPipe));
    assert!(!is_transient(IoErrorKind::Other));
    let mut sender = UnixSender::new(PathBuf::from("socket"));
    for _ in 0..3 {
        sender.step(SenderEvent::Connected(Err(IoErrorKind::NotFound)));
        assert_eq!(sender.phase(), SenderPhase::Connecting(AfterConnect::Start));
    }
    sender.step(SenderEvent::Connected(Err(IoErrorKind::Other)));
    assert_eq!(sender.phase(), SenderPhase::Failed(SenderFailure::Connect));
}

#[test]
fn sender_connects_anew_after_a_lost_connection_only() {
    let after = AfterConnect::Reread;
    assert_eq!(handle_io_error(IoErrorKind::BrokenPipe, after), SenderPhase::Connecting(after));
    for kind in [IoErrorKind::NotFound, IoErrorKind::Other] {
        assert_eq!(
            handle_io_error(kind, after),
            SenderPhase::Failed(SenderFailure::Stream)
        );
    }
}

#[test]
fn sender_writes_a_text() {
    let mut sender = idle();
    sender.step(SenderEvent::Message("hi".to_string()));
    assert_eq!(sender.phase(), SenderPhase::Writing(AfterWrite::Idle));
    assert_eq!(sender.buffer().as_slice(), b"{\"Message\":{\"c\":\"hi\"}}\n");
    sender.step(SenderEvent::Written(Ok(())));
    assert_eq!(sender.phase(), SenderPhase::Idle);
}

#[test]
fn sender_writes_again_after_a_lost_connection() {
    let mut sender = idle();
    sender.step(SenderEvent::Message("hi".to_string()));
    for _ in 0..2 {
        sender.step(SenderEvent::Written(Err(IoErrorKind::BrokenPipe)));
        assert_eq!(
            sender.phase(),
            SenderPhase::Connecting(AfterConnect::Resend(AfterWrite::Idle))
        );
        sender.step(SenderEvent::Message("other".to_string()));
        sender.step(SenderEvent::Connected(Ok(())));
        assert_eq!(sender.phase(), SenderPhase::Writing(AfterWrite::Idle));
        assert_eq!(sender.buffer().as_slice(), b"{\"Message\":{\"c\":\"hi\"}}\n");
    }
    sender.step(SenderEvent::Written(Err(IoErrorKind::Other)));
    assert_eq!(sender.phase(), SenderPhase::Failed(SenderFailure::Stream));
}

#[test]
fn sender_delivers_in_order_over_lost_connections() {
    let mut sender = idle();
    let mut written: Vec<u8> = Vec::new();
    for (n, text) in ["a", "b", "c"].iter().enumerate() {
        sender.step(SenderEvent::Message(text.to_string()));
        for _ in 0..n {
            sender.step(SenderEvent::Written(Err(IoErrorKind::BrokenPipe)));
            sender.step(SenderEvent::Connected(Ok(())));
        }
        written.extend_from_slice(sender.buffer());
        sender.step(SenderEvent::Written(Ok(())));
    }
    assert_eq!(
        String::from_utf8(written).unwrap(),
        "{\"Message\":{\"c\":\"a\"}}\n{\"Message\":{\"c\":\"b\"}}\n{\"Message\":{\"c\":\"c\"}}\n"
    );
}

#[test]
fn sender_awaits_the_answer_to_a_ping() {
    let mut sender = idle();
    sender.step(SenderEvent::Tick);
    assert_eq!(sender.phase(), SenderPhase::Writing(AfterWrite::AwaitPong));
    assert_eq!(sender.buffer().as_slice(), b"\"Ping\"\n");
    sender.step(SenderEvent::Written(Ok(())));
    assert_eq!(sender.phase(), SenderPhase::AwaitingPong);
    sender.step(SenderEvent::Message("later".to_string()));
    assert_eq!(sender.phase(), SenderPhase::AwaitingPong);
    sender.step(read(PONG, Ok(())));
    assert_eq!(sender.phase(), SenderPhase::Decoding);
    assert_eq!(sender.buffer().as_slice(), PONG);
    sender.step(SenderEvent::Decoded(Ok(JsonRpc::Pong)));
    assert_eq!(sender.phase(), SenderPhase::Idle);
}

#[test]
fn sender_takes_any_message_for_an_answer() {
    let mut sender = awaiting();
    sender.step(read(b"\"Ping\"\n", Ok(())));
    sender.step(SenderEvent::Decoded(Ok(JsonRpc::Ping)));
    assert_eq!(sender.phase(), SenderPhase::Idle);
}

#[test]
fn sender_gathers_an_answer_over_connections() {
    let mut sender = awaiting();
    sender.step(read(b"\"Po", Ok(())));
    sender.step(SenderEvent::Decoded(Err(Category::Eof)));
    assert_eq!(sender.phase(), SenderPhase::Connecting(AfterConnect::Reread));
    sender.step(SenderEvent::Connected(Ok(())));
    assert_eq!(sender.phase(), SenderPhase::AwaitingPong);
    sender.step(read(b"n", Err(IoErrorKind::BrokenPipe)));
    assert_eq!(sender.phase(), SenderPhase::Connecting(AfterConnect::Reread));
    sender.step(SenderEvent::Connected(Ok(())));
    sender.step(read(b"g\"\n", Ok(())));
    assert_eq!(sender.buffer().as_slice(), PONG);
    assert_eq!(sender.phase(), SenderPhase::Decoding);
}

#[test]
fn sender_breaks_on_a_bad_answer() {
    for category in [Category::Io, Category::Syntax, Category::Data] {
        let mut sender = awaiting();
        sender.step(read(b"?\n", Ok(())));
        sender.step(SenderEvent::Decoded(Err(category)));
        assert_eq!(sender.phase(), SenderPhase::Failed(SenderFailure::Decode));
    }
    let mut sender = awaiting();
    sender.step(read(b"", Err(IoErrorKind::Other)));
    assert_eq!(sender.phase(), SenderPhase::Failed(SenderFailure::Stream));
}

#[test]
fn sender_stops_when_idle() {
    let mut sender = idle();
    sender.step(SenderEvent::Tick);
    sender.step(SenderEvent::Shutdown);
    assert_eq!(sender.phase(), SenderPhase::Writing(AfterWrite::AwaitPong));
    let mut sender = idle();
    sender.step(SenderEvent::Shutdown);
    assert_eq!(sender.phase(), SenderPhase::Stopped);
    sender.step(SenderEvent::Tick);
    assert_eq!(sender.phase(), SenderPhase::Stopped);
}

#[test]
fn lines_are_handled_by_what_they_say() {
    let text = JsonRpc::Message { content: "hi".to_string() };
    assert_eq!(handle_incoming_message("?", Ok(text)), Incoming::Forward("hi".to_string()));
    assert_eq!(handle_incoming_message("?", Ok(JsonRpc::Ping)), Incoming::Reply(PONG.to_vec()));
    assert_eq!(handle_incoming_message("?", Ok(JsonRpc::Pong)), Incoming::Continue);
    assert_eq!(handle_incoming_message("?", Err(Category::Eof)), Incoming::Close);
    for category in [Category::Io, Category::Syntax, Category::Data] {
        assert_eq!(handle_incoming_message("?", Err(category)), Incoming::Continue);
    }
}

#[test]
fn connection_passes_on_texts_and_answers_pings() {
    let mut connection = Connection::new();
    let mut texts: Vec<String> = Vec::new();
    for t in ["a", "b"] {
        let line = line_of(&JsonRpc::Message { content: t.to_string() });
        match connection.step(line) {
            Some(Output::Forward(text)) => texts.push(text),
            other => panic!("{:?}", other),
        }
        assert_eq!(connection.phase(), ConnectionPhase::Forwarding);
        assert_eq!(connection.step(ConnectionEvent::Forwarded(true)), None);
        assert_eq!(connection.step(other_line(Err(Category::Data))), None);
        let output = connection.step(line_of(&JsonRpc::Ping));
        assert_eq!(output, Some(Output::Reply(PONG.to_vec())));
        assert_eq!(connection.phase(), ConnectionPhase::Replying);
        assert_eq!(connection.step(ConnectionEvent::Replied(true)), None);
        assert_eq!(connection.step(line_of(&JsonRpc::Pong)), None);
        assert_eq!(connection.phase(), ConnectionPhase::Reading);
    }
    assert_eq!(texts, vec!["a", "b"]);
}

#[test]
fn connection_ends() {
    let mut connection = Connection::new();
    connection.step(other_line(Err(Category::Eof)));
    assert_eq!(connection.phase(), ConnectionPhase::Closed);
    assert_eq!(connection.step(line_of(&JsonRpc::Ping)), None);
    assert_eq!(connection.phase(), ConnectionPhase::Closed);

    let mut connection = Connection::new();
    connection.step(ConnectionEvent::ReadFailed(IoErrorKind::Other));
    assert_eq!(connection.phase(), ConnectionPhase::Reading);
    connection.step(ConnectionEvent::ReadFailed(IoErrorKind::BrokenPipe));
    assert_eq!(connection.phase(), ConnectionPhase::Closed);

    let mut connection = Connection::new();
    connection.step(line_of(&JsonRpc::Message { content: String::new() }));
    connection.step(ConnectionEvent::Forwarded(false));
    assert_eq!(connection.phase(), ConnectionPhase::Closed);

    let mut connection = Connection::new();
    connection.step(line_of(&JsonRpc::Ping));
    connection.step(ConnectionEvent::Replied(false));
    assert_eq!(connection.phase(), ConnectionPhase::Failed);
}

#[test]
fn connection_shuts_down_when_cancelled() {
    for done in [true, false] {
        let mut connection = Connection::new();
        connection.step(ConnectionEvent::Cancelled);
        assert_eq!(connection.phase(), ConnectionPhase::ShuttingDown);
        connection.step(ConnectionEvent::ShutDown(done));
        assert_eq!(connection.phase(), ConnectionPhase::Closed);
    }
}

#[test]
fn receiver_accepts_until_told_to_stop() {
    let mut receiver = UnixReceiver::new(PathBuf::from("a/b"));
    assert_eq!(*receiver.file(), PathBuf::from("a/b"));
    assert_eq!(receiver.phase(), ReceiverPhase::Binding);
    assert_eq!(receiver.step(ReceiverEvent::Bound(true)), None);
    assert_eq!(receiver.step(ReceiverEvent::Accepted(true)), Some(Connection::new()));
    assert_eq!(receiver.step(ReceiverEvent::Accepted(false)), None);
    assert_eq!(receiver.step(ReceiverEvent::Accepted(true)), Some(Connection::new()));
    assert_eq!(receiver.phase(), ReceiverPhase::Accepting);
    receiver.step(ReceiverEvent::Shutdown);
    assert_eq!(receiver.phase(), ReceiverPhase::Cancelling);
    assert_eq!(receiver.step(ReceiverEvent::Accepted(true)), None);
    receiver.step(ReceiverEvent::Removed(true));
    assert_eq!(receiver.phase(), ReceiverPhase::Cancelling);
    receiver.step(ReceiverEvent::Cancelled);
    assert_eq!(receiver.phase(), ReceiverPhase::Draining);
    receiver.step(ReceiverEvent::Drained);
    assert_eq!(receiver.phase(), ReceiverPhase::Removing);
    receiver.step(ReceiverEvent::Removed(false));
    assert_eq!(receiver.phase(), ReceiverPhase::Stopped);
}

#[test]
fn receiver_fails_without_a_socket() {
    let mut receiver = UnixReceiver::new(PathBuf::from("a"));
    receiver.step(ReceiverEvent::Bound(false));
    assert_eq!(receiver.phase(), ReceiverPhase::Failed);
    assert_eq!(receiver.step(ReceiverEvent::Accepted(true)), None);
}

#[test]
fn texts_before_the_end_are_passed_on() {
    let mut connection = Connection::new();
    let line = || line_of(&JsonRpc::Message { content: "last".to_string() });
    assert_eq!(
        connection.step(line()),
        Some(Output::Forward("last".to_string()))
    );
    connection.step(ConnectionEvent::Forwarded(true));
    assert_eq!(connection.step(other_line(Err(Category::Eof))), None);
    assert_eq!(connection.step(line()), None);
    assert_eq!(connection.phase(), ConnectionPhase::Closed);
}

#[test]
fn a_ping_is_answered_by_what_its_sender_awaits() {
    let mut sender = awaiting();
    let mut connection = Connection::new();
    let reply = match connection.step(line_of(&JsonRpc::Ping)) {
        Some(Output::Reply(bytes)) => bytes,
        other => panic!("{:?}", other),
    };
    sender.step(SenderEvent::Read { bytes: reply, outcome: Ok(()) });
    assert_eq!(sender.phase(), SenderPhase::Decoding);
    let value: serde_json::Value = serde_json::from_slice(sender.buffer()).unwrap();
    assert_eq!(value, serde_json::Value::String("Pong".to_string()));
}

#[test]
fn texts_cross_the_socket() {
    let given = ["one", "", "two\nlines", "\"quoted\" \\ \u{1}", "\u{e9}\u{1f600}"];
    let mut sender = idle();
    let mut written: Vec<u8> = Vec::new();
    for text in given {
        sender.step(SenderEvent::Message(text.to_string()));
        written.extend_from_slice(sender.buffer());
        sender.step(SenderEvent::Written(Ok(())));
        sender.step(SenderEvent::Tick);
        written.extend_from_slice(sender.buffer());
        sender.step(SenderEvent::Written(Ok(())));
        sender.step(read(PONG, Ok(())));
        sender.step(SenderEvent::Decoded(Err(Category::Data)));
        assert_eq!(sender.phase(), SenderPhase::Idle);
    }
    let mut connection = Connection::new();
    let mut texts: Vec<String> = Vec::new();
    let mut pongs: usize = 0;
    for line in written.split_inclusive(|b| *b == b'\n') {
        let line = String::from_utf8(line.to_vec()).unwrap();
        match connection.step(ConnectionEvent::Line { line, other: Err(Category::Eof) }) {
            Some(Output::Forward(text)) => {
                texts.push(text);
                connection.step(ConnectionEvent::Forwarded(true));
            }
            Some(Output::Reply(bytes)) => {
                assert_eq!(bytes, PONG.to_vec());
                pongs += 1;
                connection.step(ConnectionEvent::Replied(true));
            }
            None => panic!("a line was passed over"),
        }
    }
    assert_eq!(texts, given.to_vec());
    assert_eq!(pongs, given.len());
    assert_eq!(connection.phase(), ConnectionPhase::Reading);
}

#[test]
fn other_spellings_are_taken_from_another_decoder() {
    let mut connection = Connection::new();
    let message = Ok(JsonRpc::Message { content: "hi".to_string() });
    assert_eq!(
        connection.step(other_line(message)),
        Some(Output::Forward("hi".to_string()))
    );
    connection.step(ConnectionEvent::Forwarded(true));
    assert_eq!(
        connection.step(other_line(Ok(JsonRpc::Ping))),
        Some(Output::Reply(PONG.to_vec()))
    );
    connection.step(ConnectionEvent::Replied(true));
    assert_eq!(connection.step(other_line(Ok(JsonRpc::Pong))), None);
    assert_eq!(connection.phase(), ConnectionPhase::Reading);
    assert_eq!(
        handle_incoming_message("\"Ping\"\n", Err(Category::Eof)),
        Incoming::Reply(PONG.to_vec())
    );
}

/// Reads one line on a connection and takes what it gives out.
fn serve(connection: &mut Connection, client: usize, text: &str, out: &mut Vec<(usize, String)>) {
    let line = line_of(&JsonRpc::Message { content: text.to_string() });
    match connection.step(line) {
        Some(Output::Forward(text)) => out.push((client, text)),
        other => panic!("{:?}", other),
    }
    connection.step(ConnectionEvent::Forwarded(true));
}

#[test]
fn clients_are_served_side_by_side() {
    let mut receiver = UnixReceiver::new(PathBuf::from("socket"));
    receiver.step(ReceiverEvent::Bound(true));
    let mut out: Vec<(usize, String)> = Vec::new();
    let mut first = receiver.step(ReceiverEvent::Accepted(true)).unwrap();
    serve(&mut first, 0, "a1", &mut out);
    assert_eq!(receiver.step(ReceiverEvent::Accepted(false)), None);
    let mut second = receiver.step(ReceiverEvent::Accepted(true)).unwrap();
    serve(&mut second, 1, "b1", &mut out);
    serve(&mut first, 0, "a2", &mut out);
    first.step(other_line(Err(Category::Eof)));
    assert_eq!(first.phase(), ConnectionPhase::Closed);
    serve(&mut second, 1, "b2", &mut out);
    let mut third = receiver.step(ReceiverEvent::Accepted(true)).unwrap();
    serve(&mut third, 2, "c1", &mut out);
    let of = |client: usize| -> Vec<String> {
        out.iter().filter(|(c, _)| *c == client).map(|(_, t)| t.clone()).collect()
    };
    assert_eq!(of(0), vec!["a1", "a2"]);
    assert_eq!(of(1), vec!["b1", "b2"]);
    assert_eq!(of(2), vec!["c1"]);
}

#[test]
fn a_line_that_is_not_read_is_passed_over() {
    let mut connection = Connection::new();
    let mut out: Vec<(usize, String)> = Vec::new();
    serve(&mut connection, 0, "a", &mut out);
    for kind in [IoErrorKind::Other, IoErrorKind::NotFound] {
        assert_eq!(connection.step(ConnectionEvent::ReadFailed(kind)), None);
        assert_eq!(connection.phase(), ConnectionPhase::Reading);
    }
    serve(&mut connection, 0, "b", &mut out);
    assert_eq!(out, vec![(0, "a".to_string()), (0, "b".to_string())]);
}

#[test]
fn nothing_is_sent_while_an_answer_is_awaited() {
    let mut sender = awaiting();
    for event in [
        SenderEvent::Message("later".to_string()),
        SenderEvent::Tick,
        read(b"\"P", Ok(())),
        SenderEvent::Message("later".to_string()),
        SenderEvent::Decoded(Err(Category::Eof)),
        SenderEvent::Tick,
        SenderEvent::Connected(Ok(())),
        SenderEvent::Shutdown,
    ] {
        sender.step(event);
        assert!(!matches!(sender.phase(), SenderPhase::Writing(_)));
        assert_ne!(sender.phase(), SenderPhase::Idle);
    }
    assert_eq!(sender.phase(), SenderPhase::AwaitingPong);
    assert_eq!(sender.buffer().as_slice(), b"\"P");
}
