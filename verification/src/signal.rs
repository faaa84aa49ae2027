//! The session that sends texts to one Signal user.

use std::path::PathBuf;
use vstd::prelude::*;

verus! {

/// What the store does about a database of an older layout that it cannot carry over.
#[derive(Debug, Clone, Copy, PartialEq, Eq, Structural)]
pub enum MigrationConflictStrategy {
    BackupAndDrop,
    Drop,
    Raise,
}

/// What the store does about an identity that it has not seen before.
#[derive(Debug, Clone, Copy, PartialEq, Eq, Structural)]
pub enum OnNewIdentity {
    Reject,
    Trust,
}

/// How the store of the session is opened.
#[derive(Debug, PartialEq, Eq)]
pub struct StoreSettings<'a> {
    pub path: &'a PathBuf,
    pub passphrase: Option<String>,
    pub conflict: MigrationConflictStrategy,
    pub new_identity: OnNewIdentity,
}

/// The content of a Signal message, as far as the bridge sets it.
#[derive(Debug, PartialEq, Eq)]
pub struct DataMessage {
    pub body: Option<String>,
    pub timestamp: Option<u64>,
}

/// A message for a Signal user.
#[derive(Debug, PartialEq, Eq)]
pub struct Outgoing {
    /// The account of the user.
    pub recipient: u128,
    pub message: DataMessage,
    /// The time at which the message counts as sent.
    pub timestamp: u64,
}

/// Why the session broke.
#[derive(Debug, Clone, Copy, PartialEq, Eq, Structural)]
pub enum CoreFailure {
    /// The store was not opened.
    Store,
    /// The account was not loaded from the store.
    Manager,
    /// The clock stands before 1970.
    Clock,
    /// A message was not sent.
    Send,
}

/// What the session waits for.
#[derive(Debug, Clone, Copy, PartialEq, Eq, Structural)]
pub enum CorePhase {
    /// For the store.
    Opening,
    /// For the account in the store.
    Loading,
    /// For a text, or for the interrupt.
    Ready,
    /// For the message that it gave out to be sent.
    Sending,
    /// For nothing: it was interrupted.
    Stopped,
    /// For nothing: it is broken.
    Failed(CoreFailure),
}

/// What happens to the session.
#[derive(Debug, PartialEq, Eq)]
pub enum CoreEvent {
    /// The store was opened; whether that succeeded.
    StoreOpened(bool),
    /// The account was loaded; whether that succeeded.
    ManagerLoaded(bool),
    /// A text came, and with it the milliseconds since 1970, or nothing where the clock stands
    /// before that.
    Message { body: String, clock: Option<u128> },
    /// The message was sent; whether that succeeded.
    Sent(bool),
    /// The user interrupts the program.
    Interrupt,
}

/// Milliseconds as they are stamped on a message: their lowest 64 bits.
pub open spec fn timestamp_of(millis: u128) -> u64 {
    (millis % 0x1_0000_0000_0000_0000) as u64
}

/// The message for `user` that says `body`, stamped with the time.
pub open spec fn outgoing(user: u128, body: String, millis: u128) -> Outgoing {
    Outgoing {
        recipient: user,
        message: DataMessage { body: Some(body), timestamp: Some(timestamp_of(millis)) },
        timestamp: timestamp_of(millis),
    }
}

/// What the session waits for after an event. An event that it does not wait for changes nothing.
pub open spec fn core_next(phase: CorePhase, event: CoreEvent) -> CorePhase {
    match (phase, event) {
        (CorePhase::Opening, CoreEvent::StoreOpened(true)) => CorePhase::Loading,
        (CorePhase::Opening, CoreEvent::StoreOpened(false)) => CorePhase::Failed(
            CoreFailure::Store,
        ),
        (CorePhase::Loading, CoreEvent::ManagerLoaded(true)) => CorePhase::Ready,
        (CorePhase::Loading, CoreEvent::ManagerLoaded(false)) => CorePhase::Failed(
            CoreFailure::Manager,
        ),
        (CorePhase::Ready, CoreEvent::Message { clock: Some(_), .. }) => CorePhase::Sending,
        (CorePhase::Ready, CoreEvent::Message { clock: None, .. }) => CorePhase::Failed(
            CoreFailure::Clock,
        ),
        (CorePhase::Ready, CoreEvent::Interrupt) => CorePhase::Stopped,
        (CorePhase::Sending, CoreEvent::Sent(true)) => CorePhase::Ready,
        (CorePhase::Sending, CoreEvent::Sent(false)) => CorePhase::Failed(CoreFailure::Send),
        _ => phase,
    }
}

/// The message that is to be sent because of an event.
pub open spec fn core_sends(user: u128, phase: CorePhase, event: CoreEvent) -> Option<Outgoing> {
    match (phase, event) {
        (CorePhase::Ready, CoreEvent::Message { body, clock: Some(millis) }) => Some(
            outgoing(user, body, millis),
        ),
        _ => None,
    }
}

/// What the session waits for after events.
pub open spec fn core_run(phase: CorePhase, events: Seq<CoreEvent>) -> CorePhase
    decreases events.len(),
{
    if events.len() == 0 {
        phase
    } else {
        core_run(core_next(phase, events[0]), events.drop_first())
    }
}

/// The messages that are to be sent in the course of events, in their order.
pub open spec fn core_sent(user: u128, phase: CorePhase, events: Seq<CoreEvent>) -> Seq<Outgoing>
    decreases events.len(),
{
    if events.len() == 0 {
        seq![]
    } else {
        let rest = core_sent(user, core_next(phase, events[0]), events.drop_first());
        match core_sends(user, phase, events[0]) {
            Some(message) => seq![message] + rest,
            None => rest,
        }
    }
}

/// The events of texts that come at the times `clocks`, where `sent` tells of each whether its
/// message is sent.
pub open spec fn core_dialogue(
    bodies: Seq<String>,
    clocks: Seq<u128>,
    sent: Seq<bool>,
) -> Seq<CoreEvent>
    decreases bodies.len(),
{
    if bodies.len() == 0 {
        seq![]
    } else {
        seq![
            CoreEvent::Message { body: bodies[0], clock: Some(clocks[0]) },
            CoreEvent::Sent(sent[0]),
        ] + core_dialogue(bodies.drop_first(), clocks.drop_first(), sent.drop_first())
    }
}

/// Milliseconds as they are stamped on a message.
pub fn timestamp(millis: u128) -> (stamp: u64)
    ensures
        stamp == timestamp_of(millis),
{
    let stamp: u64 = #[verifier::truncate]
    (millis as u64);
    assert(millis as u64 == (millis % 0x1_0000_0000_0000_0000) as u64) by (bit_vector);
    stamp
}

/// The session's value: whom it writes to, where its store is, and what it waits for.
pub struct CoreModel {
    pub user: u128,
    pub db_path: PathBuf,
    pub phase: CorePhase,
}

/// What becomes of the session after an event: it may come to wait for something else, and remains
/// the session of its user.
pub open spec fn session_next(s: CoreModel, event: CoreEvent) -> CoreModel {
    CoreModel { phase: core_next(s.phase, event), ..s }
}

/// What becomes of the session after events.
pub open spec fn session_run(s: CoreModel, events: Seq<CoreEvent>) -> CoreModel
    decreases events.len(),
{
    if events.len() == 0 {
        s
    } else {
        session_run(session_next(s, events[0]), events.drop_first())
    }
}

/// A session that sends texts to one Signal user.
#[derive(Debug, PartialEq, Eq)]
pub struct CoreSender {
    user: u128,
    db_path: PathBuf,
    phase: CorePhase,
}

impl View for CoreSender {
    type V = CoreModel;

    closed spec fn view(&self) -> CoreModel {
        CoreModel { user: self.user, db_path: self.db_path, phase: self.phase }
    }
}

impl CoreSender {
    /// A session that waits for its store.
    pub fn new(user: u128, db_path: PathBuf) -> (sender: Self)
        ensures
            sender@ == (CoreModel { user, db_path, phase: CorePhase::Opening }),
    {
        CoreSender { user, db_path, phase: CorePhase::Opening }
    }

    /// How many texts may wait in the channel to the session.
    pub fn capacity(&self) -> (capacity: usize)
        ensures
            capacity == 8,
    {
        crate::pipe::CHANNEL_CAPACITY
    }

    /// What the session waits for.
    pub fn phase(&self) -> (phase: CorePhase)
        ensures
            phase == self@.phase,
    {
        self.phase
    }

    /// How the store of the session is opened.
    pub fn store(&self) -> (settings: StoreSettings<'_>)
        ensures
            *settings.path == self@.db_path,
            settings.passphrase is None,
            settings.conflict == MigrationConflictStrategy::Raise,
            settings.new_identity == OnNewIdentity::Reject,
    {
        StoreSettings {
            path: &self.db_path,
            passphrase: None,
            conflict: MigrationConflictStrategy::Raise,
            new_identity: OnNewIdentity::Reject,
        }
    }

    /// Tells the session of an event. A message that comes back is to be sent.
    pub fn step(&mut self, event: CoreEvent) -> (message: Option<Outgoing>)
        ensures
            final(self)@ == (CoreModel {
                phase: core_next(old(self)@.phase, event),
                ..old(self)@
            }),
            final(self)@ == session_next(old(self)@, event),
            message == core_sends(old(self)@.user, old(self)@.phase, event),
    {
        match (self.phase, event) {
            (CorePhase::Opening, CoreEvent::StoreOpened(opened)) => {
                self.phase = if opened {
                    CorePhase::Loading
                } else {
                    CorePhase::Failed(CoreFailure::Store)
                };
                None
            },
            (CorePhase::Loading, CoreEvent::ManagerLoaded(loaded)) => {
                self.phase = if loaded {
                    CorePhase::Ready
                } else {
                    CorePhase::Failed(CoreFailure::Manager)
                };
                None
            },
            (CorePhase::Ready, CoreEvent::Message { body, clock }) => {
                match clock {
                    Some(millis) => {
                        self.phase = CorePhase::Sending;
                        let stamp: u64 = timestamp(millis);
                        Some(
                            Outgoing {
                                recipient: self.user,
                                message: DataMessage { body: Some(body), timestamp: Some(stamp) },
                                timestamp: stamp,
                            },
                        )
                    },
                    None => {
                        self.phase = CorePhase::Failed(CoreFailure::Clock);
                        None
                    },
                }
            },
            (CorePhase::Ready, CoreEvent::Interrupt) => {
                self.phase = CorePhase::Stopped;
                None
            },
            (CorePhase::Sending, CoreEvent::Sent(sent)) => {
                self.phase = if sent {
                    CorePhase::Ready
                } else {
                    CorePhase::Failed(CoreFailure::Send)
                };
                None
            },
            _ => None,
        }
    }
}

/// The messages of texts, each stamped with its time.
pub open spec fn outgoing_all(user: u128, bodies: Seq<String>, clocks: Seq<u128>) -> Seq<Outgoing> {
    Seq::new(bodies.len(), |i: int| outgoing(user, bodies[i], clocks[i]))
}

/// Each text becomes one message to the user, in the order in which the texts come, up to and with
/// the first that is not sent. The session breaks there, and is ready again where all are sent.
pub proof fn law_core_keeps_order(
    user: u128,
    bodies: Seq<String>,
    clocks: Seq<u128>,
    sent: Seq<bool>,
    n: int,
)
    requires
        clocks.len() == bodies.len(),
        sent.len() == bodies.len(),
        0 <= n <= bodies.len(),
        forall|i: int| 0 <= i < n ==> sent[i],
        n < bodies.len() ==> !sent[n],
    ensures
        n == bodies.len() ==> {
            let events = core_dialogue(bodies, clocks, sent);
            &&& core_sent(user, CorePhase::Ready, events) == outgoing_all(user, bodies, clocks)
            &&& core_run(CorePhase::Ready, events) == CorePhase::Ready
        },
        n < bodies.len() ==> {
            let events = core_dialogue(bodies, clocks, sent);
            &&& core_sent(user, CorePhase::Ready, events) == outgoing_all(
                user,
                bodies,
                clocks,
            ).take(n + 1)
            &&& core_run(CorePhase::Ready, events) == CorePhase::Failed(CoreFailure::Send)
        },
    decreases bodies.len(),
{
    reveal_with_fuel(core_run, 3);
    reveal_with_fuel(core_sent, 3);
    let events = core_dialogue(bodies, clocks, sent);
    let all = outgoing_all(user, bodies, clocks);
    if bodies.len() == 0 {
        assert(all =~= seq![]);
    } else {
        let rest = core_dialogue(bodies.drop_first(), clocks.drop_first(), sent.drop_first());
        let all_rest = outgoing_all(user, bodies.drop_first(), clocks.drop_first());
        assert(all =~= seq![all[0]] + all_rest);
        assert(events.drop_first().drop_first() =~= rest);
        assert(events[1] == events.drop_first()[0]);
        if n == 0 {
            law_core_stays_ended(user, CorePhase::Failed(CoreFailure::Send), rest);
            assert(all.take(1) =~= seq![all[0]]);
        } else {
            assert(sent[0]);
            law_core_keeps_order(
                user,
                bodies.drop_first(),
                clocks.drop_first(),
                sent.drop_first(),
                n - 1,
            );
            if n < bodies.len() {
                assert(all.take(n + 1) =~= seq![all[0]] + all_rest.take(n));
            }
        }
    }
}

/// Every message goes to the user of the session, has a text, and bears the time at which it
/// counts as sent.
pub proof fn law_core_writes_to_its_user(
    user: u128,
    phase: CorePhase,
    events: Seq<CoreEvent>,
    i: int,
)
    requires
        0 <= i < core_sent(user, phase, events).len(),
    ensures
        ({
            let out = core_sent(user, phase, events)[i];
            &&& out.recipient == user
            &&& out.message.body is Some
            &&& out.message.timestamp == Some(out.timestamp)
        }),
    decreases events.len(),
{
    if events.len() > 0 {
        let next = core_next(phase, events[0]);
        if core_sends(user, phase, events[0]) is Some {
            if i > 0 {
                law_core_writes_to_its_user(user, next, events.drop_first(), i - 1);
            }
        } else {
            law_core_writes_to_its_user(user, next, events.drop_first(), i);
        }
    }
}

/// The stamp on a message is the time: it is off by a multiple of 2 to the 64th milliseconds only,
/// so not at all for as long as the time fits, and a millisecond later is one more.
pub proof fn law_timestamp_is_the_time(millis: u128)
    ensures
        millis <= u64::MAX ==> timestamp_of(millis) == millis,
        (millis - timestamp_of(millis)) % 0x1_0000_0000_0000_0000 == 0,
        timestamp_of(millis) <= millis,
        millis < u128::MAX && timestamp_of(millis) < u64::MAX ==> timestamp_of((millis + 1) as u128)
            == timestamp_of(millis) + 1,
{
}

/// A session that is ready gives out a message for every text that comes at a time that it can
/// tell, and at no other moment: to its own user, with that very text, and stamped twice with that
/// very time.
pub proof fn law_what_the_session_sends(user: u128, phase: CorePhase, event: CoreEvent)
    ensures
        core_sends(user, phase, event) is Some <==> phase is Ready && event is Message
            && event->clock is Some,
        core_sends(user, phase, event) matches Some(out) ==> {
            &&& out.recipient == user
            &&& out.message.body == Some(event->body)
            &&& event->clock->0 <= u64::MAX ==> out.timestamp == event->clock->0
            &&& (event->clock->0 - out.timestamp) % 0x1_0000_0000_0000_0000 == 0
            &&& out.message.timestamp == Some(out.timestamp)
        },
{
}

/// The session comes to each of its phases exactly by what it waits for in the one before, and
/// leaves none of them otherwise.
pub proof fn law_when_the_session_moves_on(phase: CorePhase, event: CoreEvent)
    ensures
        ({
            let next = core_next(phase, event);
            &&& next is Opening <==> phase is Opening && !(event is StoreOpened)
            &&& next is Loading <==> {
                ||| phase is Opening && event == CoreEvent::StoreOpened(true)
                ||| phase is Loading && !(event is ManagerLoaded)
            }
            &&& next is Ready <==> {
                ||| phase is Loading && event == CoreEvent::ManagerLoaded(true)
                ||| phase is Sending && event == CoreEvent::Sent(true)
                ||| phase is Ready && !(event is Message || event is Interrupt)
            }
            &&& next is Sending <==> {
                ||| phase is Ready && event is Message && event->clock is Some
                ||| phase is Sending && !(event is Sent)
            }
            &&& next is Stopped <==> phase is Stopped || (phase is Ready && event is Interrupt)
        }),
{
}

/// The session breaks exactly where its store is not opened, its account is not loaded, a text
/// comes at a time that it cannot tell, or a message is not sent, and for that reason.
pub proof fn law_when_the_session_breaks(phase: CorePhase, event: CoreEvent, failure: CoreFailure)
    requires
        !(phase is Failed),
    ensures
        core_next(phase, event) == CorePhase::Failed(failure) <==> match failure {
            CoreFailure::Store => phase is Opening && event == CoreEvent::StoreOpened(false),
            CoreFailure::Manager => phase is Loading && event == CoreEvent::ManagerLoaded(false),
            CoreFailure::Clock => phase is Ready && event is Message && event->clock is None,
            CoreFailure::Send => phase is Sending && event == CoreEvent::Sent(false),
        },
{
}

/// A session whose store is opened and whose account is loaded sends every text that comes, each
/// once and in their order, to its user, where every message is sent.
pub proof fn law_session_runs_its_course(
    user: u128,
    bodies: Seq<String>,
    clocks: Seq<u128>,
    sent: Seq<bool>,
)
    requires
        clocks.len() == bodies.len(),
        sent.len() == bodies.len(),
        forall|i: int| 0 <= i < bodies.len() ==> #[trigger] sent[i],
    ensures
        ({
            let events = seq![CoreEvent::StoreOpened(true), CoreEvent::ManagerLoaded(true)]
                + core_dialogue(bodies, clocks, sent);
            let out = core_sent(user, CorePhase::Opening, events);
            &&& core_run(CorePhase::Opening, events) == CorePhase::Ready
            &&& out.len() == bodies.len()
            &&& forall|i: int|
                0 <= i < out.len() ==> {
                    &&& (#[trigger] out[i]).recipient == user
                    &&& out[i].message.body == Some(bodies[i])
                    &&& clocks[i] <= u64::MAX ==> out[i].timestamp == clocks[i]
                }
        }),
{
    reveal_with_fuel(core_run, 3);
    reveal_with_fuel(core_sent, 3);
    let rest = core_dialogue(bodies, clocks, sent);
    let events = seq![CoreEvent::StoreOpened(true), CoreEvent::ManagerLoaded(true)] + rest;
    assert(events.drop_first()[0] == CoreEvent::ManagerLoaded(true));
    assert(events.drop_first().drop_first() =~= rest);
    law_core_keeps_order(user, bodies, clocks, sent, bodies.len() as int);
}

/// Whatever happens to a session, it remains that of the same user and the same store: every message
/// that it gives out in the course of events goes to the user with whom it began.
pub proof fn law_session_keeps_its_user(s: CoreModel, events: Seq<CoreEvent>, event: CoreEvent)
    ensures
        session_run(s, events).user == s.user,
        session_run(s, events).db_path == s.db_path,
        session_run(s, events).phase == core_run(s.phase, events),
        core_sends(session_run(s, events).user, session_run(s, events).phase, event) matches Some(
            out,
        ) ==> out.recipient == s.user,
    decreases events.len(),
{
    if events.len() > 0 {
        law_session_keeps_its_user(session_next(s, events[0]), events.drop_first(), event);
    }
}

/// A session stops exactly where it is interrupted while it is ready: an interrupt does not cut off
/// a message that is being sent.
pub proof fn law_core_stops_when_ready(phase: CorePhase, event: CoreEvent)
    requires
        !(phase is Stopped),
    ensures
        core_next(phase, event) is Stopped <==> phase is Ready && event is Interrupt,
{
}

/// A session that was interrupted or is broken stays so and sends nothing more.
pub proof fn law_core_stays_ended(user: u128, phase: CorePhase, events: Seq<CoreEvent>)
    requires
        phase is Stopped || phase is Failed,
    ensures
        core_run(phase, events) == phase,
        core_sent(user, phase, events).len() == 0,
    decreases events.len(),
{
    if events.len() > 0 {
        law_core_stays_ended(user, phase, events.drop_first());
    }
}

} // verus!
