use std::path::PathBuf;

use signal_webhook::mode::{Mode, ModeError};
use signal_webhook::pipe::{PipeEvent, PipeFailure, PipePhase, SignalPipe};
use signal_webhook::signal::{
    timestamp, CoreEvent, CoreFailure, CorePhase, CoreSender, DataMessage,
    MigrationConflictStrategy, OnNewIdentity, Outgoing,
};

const USER: u128 = 0x67e5504410b1426f9247bb680e5fe0c8;

fn text(s: &str) -> Option<String> {
    Some(s.to_string())
}

fn path(s: &str) -> Option<PathBuf> {
    Some(PathBuf::from(s))
}

fn both(user: u128) -> Result<Mode, ModeError> {
    Ok(Mode::Both { port: 3000, signal_user: user, signal_database: PathBuf::from("db") })
}

#[test]
fn mode_reads_every_form_of_a_uuid() {
    for user in [
        "67e55044-10b1-426f-9247-bb680e5fe0c8",
        "67E55044-10B1-426F-9247-BB680E5FE0C8",
        "67e5504410b1426f9247bb680e5fe0c8",
        "{67e55044-10b1-426f-9247-bb680e5fe0c8}",
        "urn:uuid:67e55044-10b1-426f-9247-bb680e5fe0c8",
    ] {
        assert_eq!(Mode::from_env(text(user), path("db")), both(USER));
    }
    assert_eq!(
        Mode::from_env(text("00000000-0000-0000-0000-000000000000"), path("db")),
        both(0)
    );
}

#[test]
fn mode_refuses_what_is_no_uuid() {
    for user in ["", "me", "67e55044-10b1-426f-9247-bb680e5fe0c", "67e55044-10b1-426f-9247-bb680e5fe0cg"] {
        assert_eq!(Mode::from_env(text(user), path("db")), Err(ModeError::UserInvalid));
    }
}

#[test]
fn mode_needs_user_and_database() {
    assert_eq!(Mode::from_env(None, None), Err(ModeError::UserNotSet));
    assert_eq!(Mode::from_env(None, path("db")), Err(ModeError::UserNotSet));
    assert_eq!(Mode::from_env(text("me"), None), Err(ModeError::UserInvalid));
    assert_eq!(
        Mode::from_env(text("67e5504410b1426f9247bb680e5fe0c8"), None),
        Err(ModeError::DatabaseNotSet)
    );
}

#[test]
fn mode_from_parsed_user() {
    assert_eq!(Mode::from_parsed(Some(Some(7)), path("db")), both(7));
    assert_eq!(Mode::from_parsed(Some(None), path("db")), Err(ModeError::UserInvalid));
    assert_eq!(Mode::from_parsed(None, path("db")), Err(ModeError::UserNotSet));
    assert_eq!(Mode::from_parsed(Some(Some(7)), None), Err(ModeError::DatabaseNotSet));
}

#[test]
fn mode_errors_have_words() {
    assert_eq!(ModeError::UserNotSet.message(), "SIGNAL_USER_UUID env variable not set");
    assert_eq!(ModeError::UserInvalid.message(), "SIGNAL_USER_UUID is not valid UUID");
    assert_eq!(ModeError::DatabaseNotSet.message(), "DB_PATH env variable not set");
}

#[test]
fn mode_starts_its_parts() {
    let (sender, receiver, pipe) = both(USER).unwrap().start();
    assert_eq!(sender, CoreSender::new(USER, PathBuf::from("db")));
    assert_eq!(receiver.port, 3000);
    assert_eq!(pipe.phase(), PipePhase::Opening);
}

#[test]
fn pipe_hands_on_every_text_in_order() {
    let mut pipe = SignalPipe::new();
    assert_eq!(pipe.step(PipeEvent::Opened(true)), None);
    let mut handed: Vec<String> = Vec::new();
    for t in ["a", "b", "c"] {
        handed.extend(pipe.step(PipeEvent::Next(text(t))));
        assert_eq!(pipe.phase(), PipePhase::Sending);
        assert_eq!(pipe.step(PipeEvent::Sent(true)), None);
        assert_eq!(pipe.phase(), PipePhase::Receiving);
    }
    assert_eq!(pipe.step(PipeEvent::Next(None)), None);
    assert_eq!(pipe.phase(), PipePhase::Finished);
    assert_eq!(handed, vec!["a", "b", "c"]);
    assert_eq!(pipe.step(PipeEvent::Next(text("d"))), None);
    assert_eq!(pipe.phase(), PipePhase::Finished);
}

#[test]
fn pipe_breaks_without_a_stream() {
    let mut pipe = SignalPipe::new();
    pipe.step(PipeEvent::Opened(false));
    assert_eq!(pipe.phase(), PipePhase::Failed(PipeFailure::Stream));
}

#[test]
fn pipe_breaks_where_a_text_is_not_taken() {
    let mut pipe = SignalPipe::new();
    pipe.step(PipeEvent::Opened(true));
    assert_eq!(pipe.step(PipeEvent::Next(text("a"))), text("a"));
    assert_eq!(pipe.step(PipeEvent::Next(text("early"))), None);
    pipe.step(PipeEvent::Sent(false));
    assert_eq!(pipe.phase(), PipePhase::Failed(PipeFailure::Send));
    assert_eq!(pipe.step(PipeEvent::Next(text("b"))), None);
}

fn ready() -> CoreSender {
    let mut sender = CoreSender::new(USER, PathBuf::from("db"));
    assert_eq!(sender.phase(), CorePhase::Opening);
    sender.step(CoreEvent::StoreOpened(true));
    assert_eq!(sender.phase(), CorePhase::Loading);
    sender.step(CoreEvent::ManagerLoaded(true));
    assert_eq!(sender.phase(), CorePhase::Ready);
    sender
}

fn outgoing(body: &str, stamp: u64) -> Outgoing {
    Outgoing {
        recipient: USER,
        message: DataMessage { body: text(body), timestamp: Some(stamp) },
        timestamp: stamp,
    }
}

#[test]
fn session_opens_its_store() {
    let sender = CoreSender::new(USER, PathBuf::from("some/path"));
    assert_eq!(sender.capacity(), 8);
    let store = sender.store();
    assert_eq!(*store.path, PathBuf::from("some/path"));
    assert_eq!(store.passphrase, None);
    assert_eq!(store.conflict, MigrationConflictStrategy::Raise);
    assert_eq!(store.new_identity, OnNewIdentity::Reject);
}

#[test]
fn session_sends_texts_in_order() {
    let mut sender = ready();
    for (body, clock) in [("a", 1_700_000_000_123u128), ("b", 1_700_000_000_456u128)] {
        let message = sender.step(CoreEvent::Message { body: body.to_string(), clock: Some(clock) });
        assert_eq!(message, Some(outgoing(body, clock as u64)));
        assert_eq!(sender.phase(), CorePhase::Sending);
        assert_eq!(sender.step(CoreEvent::Sent(true)), None);
        assert_eq!(sender.phase(), CorePhase::Ready);
    }
}

#[test]
fn session_stops_when_interrupted() {
    let mut sender = ready();
    sender.step(CoreEvent::Interrupt);
    assert_eq!(sender.phase(), CorePhase::Stopped);
    assert_eq!(sender.step(CoreEvent::Message { body: "a".to_string(), clock: Some(1) }), None);
    assert_eq!(sender.phase(), CorePhase::Stopped);
}

#[test]
fn session_breaks() {
    let mut sender = CoreSender::new(USER, PathBuf::from("db"));
    sender.step(CoreEvent::StoreOpened(false));
    assert_eq!(sender.phase(), CorePhase::Failed(CoreFailure::Store));

    let mut sender = CoreSender::new(USER, PathBuf::from("db"));
    sender.step(CoreEvent::StoreOpened(true));
    sender.step(CoreEvent::ManagerLoaded(false));
    assert_eq!(sender.phase(), CorePhase::Failed(CoreFailure::Manager));

    let mut sender = ready();
    assert_eq!(sender.step(CoreEvent::Message { body: "a".to_string(), clock: None }), None);
    assert_eq!(sender.phase(), CorePhase::Failed(CoreFailure::Clock));

    let mut sender = ready();
    sender.step(CoreEvent::Message { body: "a".to_string(), clock: Some(1) });
    sender.step(CoreEvent::Sent(false));
    assert_eq!(sender.phase(), CorePhase::Failed(CoreFailure::Send));
}

#[test]
fn timestamps_keep_their_lowest_bits() {
    assert_eq!(timestamp(0), 0);
    assert_eq!(timestamp(1_700_000_000_123), 1_700_000_000_123);
    assert_eq!(timestamp(u64::MAX as u128), u64::MAX);
    assert_eq!(timestamp(u64::MAX as u128 + 8), 7);
}

#[test]
fn posts_reach_the_user() {
    let mut pipe = SignalPipe::new();
    pipe.step(PipeEvent::Opened(true));
    let mut sender = ready();
    for (n, content) in ["first", "second"].iter().enumerate() {
        let payload = signal_webhook::http::Payload { content: text(content), embeds: vec![] };
        let query = signal_webhook::http::Options { wait: false };
        let handled = signal_webhook::http::handler(&query, &payload);
        let body = pipe.step(PipeEvent::Next(Some(handled.message))).unwrap();
        let message = sender.step(CoreEvent::Message { body, clock: Some(n as u128) });
        assert_eq!(message, Some(outgoing(&format!("{}\n\n", content), n as u64)));
        sender.step(CoreEvent::Sent(true));
        pipe.step(PipeEvent::Sent(true));
    }
}

#[test]
fn an_interrupt_waits_for_the_message_in_flight() {
    let mut sender = ready();
    sender.step(CoreEvent::Message { body: "a".to_string(), clock: Some(1) });
    sender.step(CoreEvent::Interrupt);
    assert_eq!(sender.phase(), CorePhase::Sending);
    sender.step(CoreEvent::Sent(true));
    sender.step(CoreEvent::Interrupt);
    assert_eq!(sender.phase(), CorePhase::Stopped);
}
