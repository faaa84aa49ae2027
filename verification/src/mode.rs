//! What the program is started with.

use std::path::PathBuf;
use vstd::prelude::*;
use crate::http::HttpReceiver;
use crate::pipe::SignalPipe;
use crate::signal::CoreSender;

verus! {

/// The number of a UUID that is written as `text`, or nothing where `text` is none: what
/// `uuid::Uuid::try_parse` makes of it.
pub uninterp spec fn parsed_uuid(text: Seq<char>) -> Option<u128>;

/// Calls `uuid::Uuid::try_parse`, and `uuid::Uuid::as_u128` on what it returns.
///
/// Claimed of it: whether the text is accepted, and the number of the UUID, depend on the text
/// alone. Which texts are accepted is left unsaid.
#[verifier::external_body]
fn try_parse_uuid(text: &str) -> (id: Option<u128>)
    ensures
        id == parsed_uuid(text@),
{
    match uuid::Uuid::try_parse(text) {
        Ok(id) => Some(id.as_u128()),
        Err(_) => None,
    }
}

/// Why the program cannot be started.
#[derive(Debug, Clone, Copy, PartialEq, Eq, Structural)]
pub enum ModeError {
    /// The user is not given.
    UserNotSet,
    /// The user is not a UUID.
    UserInvalid,
    /// The database is not given.
    DatabaseNotSet,
}

impl ModeError {
    /// The reason in words.
    pub fn message(&self) -> (text: &'static str)
        ensures
            text@ == (match self {
                ModeError::UserNotSet => "SIGNAL_USER_UUID env variable not set"@,
                ModeError::UserInvalid => "SIGNAL_USER_UUID is not valid UUID"@,
                ModeError::DatabaseNotSet => "DB_PATH env variable not set"@,
            }),
    {
        match self {
            ModeError::UserNotSet => "SIGNAL_USER_UUID env variable not set",
            ModeError::UserInvalid => "SIGNAL_USER_UUID is not valid UUID",
            ModeError::DatabaseNotSet => "DB_PATH env variable not set",
        }
    }
}

/// What the program does.
#[derive(Debug, PartialEq, Eq)]
pub enum Mode {
    /// It receives over HTTP and sends over Signal.
    Both { port: u16, signal_user: u128, signal_database: PathBuf },
}

/// The mode for the user and the database that the environment gives. `user` tells whether a user
/// is given, and in that case which UUID it is, if it is one.
pub open spec fn mode_for(
    user: Option<Option<u128>>,
    database: Option<PathBuf>,
) -> Result<Mode, ModeError> {
    match (user, database) {
        (None, _) => Err(ModeError::UserNotSet),
        (Some(None), _) => Err(ModeError::UserInvalid),
        (_, None) => Err(ModeError::DatabaseNotSet),
        (Some(Some(signal_user)), Some(signal_database)) => Ok(
            Mode::Both { port: 3000, signal_user, signal_database },
        ),
    }
}

/// Which UUID the text of a user is, where a user is given.
pub open spec fn user_of(text: Option<String>) -> Option<Option<u128>> {
    match text {
        None => None,
        Some(text) => Some(parsed_uuid(text@)),
    }
}

/// Whether a session, a server and a pipe are those with which a mode starts: the session is that of
/// its user and its database, the server listens on its port, and none of them has done anything
/// yet.
pub open spec fn starts(
    mode: Mode,
    session: crate::signal::CoreModel,
    server: HttpReceiver,
    pipe: crate::pipe::PipePhase,
) -> bool {
    let Mode::Both { port, signal_user, signal_database } = mode;
    &&& session == (crate::signal::CoreModel {
        user: signal_user,
        db_path: signal_database,
        phase: crate::signal::CorePhase::Opening,
    })
    &&& server.serves(port)
    &&& pipe == crate::pipe::PipePhase::Opening
}

impl Mode {
    /// The mode for the value of `SIGNAL_USER_UUID` and the path in `DB_PATH`, where they are set.
    pub fn from_env(user: Option<String>, database: Option<PathBuf>) -> (mode: Result<
        Mode,
        ModeError,
    >)
        ensures
            mode == mode_for(user_of(user), database),
            mode matches Ok(Mode::Both { port, signal_user, signal_database }) ==> {
                &&& port == 3000
                &&& user is Some && parsed_uuid(user->0@) == Some(signal_user)
                &&& database == Some(signal_database)
            },
    {
        let user: Option<Option<u128>> = match user {
            None => None,
            Some(text) => Some(try_parse_uuid(text.as_str())),
        };
        Self::from_parsed(user, database)
    }

    /// The mode for a user whose text was read, where it is given, and a database, where it is.
    pub fn from_parsed(user: Option<Option<u128>>, database: Option<PathBuf>) -> (mode: Result<
        Mode,
        ModeError,
    >)
        ensures
            mode == mode_for(user, database),
            mode matches Ok(Mode::Both { port, signal_user, signal_database }) ==> {
                &&& port == 3000
                &&& user == Some(Some(signal_user))
                &&& database == Some(signal_database)
            },
    {
        let signal_user: u128 = match user {
            None => return Err(ModeError::UserNotSet),
            Some(None) => return Err(ModeError::UserInvalid),
            Some(Some(id)) => id,
        };
        match database {
            None => Err(ModeError::DatabaseNotSet),
            Some(signal_database) => Ok(Mode::Both { port: 3000, signal_user, signal_database }),
        }
    }

    /// The session that sends, the server that receives, and the pipe between them.
    pub fn start(self) -> (parts: (CoreSender, HttpReceiver, SignalPipe))
        ensures
            ({
                let Mode::Both { port, signal_user, signal_database } = self;
                &&& parts.0@ == (crate::signal::CoreModel {
                    user: signal_user,
                    db_path: signal_database,
                    phase: crate::signal::CorePhase::Opening,
                })
                &&& parts.1.serves(port)
                &&& parts.2@ == crate::pipe::PipePhase::Opening
            }),
            starts(self, parts.0@, parts.1, parts.2@),
    {
        match self {
            Mode::Both { port, signal_user, signal_database } => {
                let sender = CoreSender::new(signal_user, signal_database);
                let receiver = HttpReceiver::new(port);
                (sender, receiver, SignalPipe::new())
            },
        }
    }
}

/// Where the text of the user is read as a UUID and a database is given, the mode is that of this
/// UUID, bit for bit, and of this database, on port 3000.
pub proof fn law_mode_is_that_of_its_user(text: String, id: u128, database: PathBuf)
    requires
        parsed_uuid(text@) == Some(id),
    ensures
        ({
            let mode = mode_for(user_of(Some(text)), Some(database));
            &&& mode is Ok
            &&& mode->Ok_0->signal_user == id
            &&& mode->Ok_0->signal_database == database
            &&& mode->Ok_0->port == 3000
        }),
{
}

/// There is a mode exactly where the user is given and read, and the database is given; otherwise
/// the first of these that is missing is the reason. Two modes are the same only if they are of the
/// same user and the same database.
pub proof fn law_mode_needs_user_and_database(
    user: Option<Option<u128>>,
    database: Option<PathBuf>,
)
    ensures
        ({
            let mode = mode_for(user, database);
            &&& mode is Ok <==> user is Some && user->0 is Some && database is Some
            &&& mode is Ok ==> {
                &&& user == Some(Some(mode->Ok_0->signal_user))
                &&& database == Some(mode->Ok_0->signal_database)
                &&& mode->Ok_0->port == 3000
            }
            &&& mode == Err::<Mode, ModeError>(ModeError::UserNotSet) <==> user is None
            &&& mode == Err::<Mode, ModeError>(ModeError::UserInvalid) <==> user == Some(
                None::<u128>,
            )
            &&& mode == Err::<Mode, ModeError>(ModeError::DatabaseNotSet) <==> (user is Some
                && user->0 is Some && database is None)
        }),
{
}

/// Whether a user is given, and which one it is, is what the text says and nothing else: no text is
/// no user, and a text is the UUID that it is read as.
pub proof fn law_user_is_read_from_its_text(text: Option<String>)
    ensures
        user_of(text) is Some <==> text is Some,
        text matches Some(text) ==> user_of(Some(text))->0 == parsed_uuid(text@),
{
}

/// The program that starts in a mode writes to the user of the mode, keeps its store in the
/// database of the mode, and listens on the port of the mode and on no other.
pub proof fn law_start_keeps_to_the_mode(
    mode: Mode,
    session: crate::signal::CoreModel,
    server: HttpReceiver,
    pipe: crate::pipe::PipePhase,
)
    requires
        starts(mode, session, server, pipe),
    ensures
        session.user == mode->signal_user,
        session.db_path == mode->signal_database,
        session.phase is Opening,
        server.port == mode->port,
        server.serves(mode->port),
        pipe is Opening,
{
}

/// What is posted to the webhook reaches the user: where the pipe is fed the texts of payloads and
/// nothing fails, the session sends one message for each of them, in their order, which says the
/// text of the payload.
pub proof fn law_posts_reach_signal(
    user: u128,
    payloads: Seq<crate::http::Payload>,
    texts: Seq<String>,
    taken: Seq<bool>,
    clocks: Seq<u128>,
    sent: Seq<bool>,
)
    requires
        texts.len() == payloads.len(),
        taken.len() == payloads.len(),
        clocks.len() == payloads.len(),
        sent.len() == payloads.len(),
        forall|i: int|
            0 <= i < payloads.len() ==> (#[trigger] texts[i])@ == crate::http::payload_text(
                payloads[i],
            ),
        forall|i: int| 0 <= i < payloads.len() ==> #[trigger] taken[i],
        forall|i: int| 0 <= i < payloads.len() ==> #[trigger] sent[i],
    ensures
        ({
            let handed = crate::pipe::pipe_handed(
                crate::pipe::PipePhase::Receiving,
                crate::pipe::pipe_dialogue(texts, taken),
            );
            let out = crate::signal::core_sent(
                user,
                crate::signal::CorePhase::Ready,
                crate::signal::core_dialogue(handed, clocks, sent),
            );
            &&& out.len() == payloads.len()
            &&& forall|i: int|
                0 <= i < out.len() ==> {
                    &&& (#[trigger] out[i]).recipient == user
                    &&& out[i].message.body matches Some(body) && body@
                        == crate::http::payload_text(payloads[i])
                }
        }),
{
    crate::pipe::law_pipe_keeps_order(texts, taken, texts.len() as int);
    crate::signal::law_core_keeps_order(user, texts, clocks, sent, texts.len() as int);
}

} // verus!
