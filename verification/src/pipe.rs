//! The pipe that takes texts from a receiver and hands them to a sender.

use vstd::prelude::*;

verus! {

/// How many texts may wait in a channel.
pub const CHANNEL_CAPACITY: usize = 8;

/// Why the pipe broke.
#[derive(Debug, Clone, Copy, PartialEq, Eq, Structural)]
pub enum PipeFailure {
    /// The receiver gave no stream of texts.
    Stream,
    /// The sender did not take a text.
    Send,
}

/// What the pipe waits for.
#[derive(Debug, Clone, Copy, PartialEq, Eq, Structural)]
pub enum PipePhase {
    /// For the stream of texts.
    Opening,
    /// For the next text of the stream.
    Receiving,
    /// For the sender to take the text that it was handed.
    Sending,
    /// For nothing: the stream has ended.
    Finished,
    /// For nothing: the pipe is broken.
    Failed(PipeFailure),
}

/// What happens to the pipe.
#[derive(Debug, PartialEq, Eq)]
pub enum PipeEvent {
    /// The stream was asked for; whether there is one.
    Opened(bool),
    /// The next text of the stream, or its end.
    Next(Option<String>),
    /// The sender was handed a text; whether it took it.
    Sent(bool),
}

/// What the pipe waits for after an event. An event that it does not wait for changes nothing.
pub open spec fn pipe_next(phase: PipePhase, event: PipeEvent) -> PipePhase {
    match (phase, event) {
        (PipePhase::Opening, PipeEvent::Opened(true)) => PipePhase::Receiving,
        (PipePhase::Opening, PipeEvent::Opened(false)) => PipePhase::Failed(PipeFailure::Stream),
        (PipePhase::Receiving, PipeEvent::Next(Some(_))) => PipePhase::Sending,
        (PipePhase::Receiving, PipeEvent::Next(None)) => PipePhase::Finished,
        (PipePhase::Sending, PipeEvent::Sent(true)) => PipePhase::Receiving,
        (PipePhase::Sending, PipeEvent::Sent(false)) => PipePhase::Failed(PipeFailure::Send),
        _ => phase,
    }
}

/// The text that the sender is to be handed because of an event.
pub open spec fn pipe_hands(phase: PipePhase, event: PipeEvent) -> Option<String> {
    match (phase, event) {
        (PipePhase::Receiving, PipeEvent::Next(text)) => text,
        _ => None,
    }
}

/// What the pipe waits for after events.
pub open spec fn pipe_run(phase: PipePhase, events: Seq<PipeEvent>) -> PipePhase
    decreases events.len(),
{
    if events.len() == 0 {
        phase
    } else {
        pipe_run(pipe_next(phase, events[0]), events.drop_first())
    }
}

/// The texts that the sender is handed in the course of events, in their order.
pub open spec fn pipe_handed(phase: PipePhase, events: Seq<PipeEvent>) -> Seq<String>
    decreases events.len(),
{
    if events.len() == 0 {
        seq![]
    } else {
        let rest = pipe_handed(pipe_next(phase, events[0]), events.drop_first());
        match pipe_hands(phase, events[0]) {
            Some(text) => seq![text] + rest,
            None => rest,
        }
    }
}

/// The events of a stream of `texts`, where `taken` tells of each text whether the sender takes it.
pub open spec fn pipe_dialogue(texts: Seq<String>, taken: Seq<bool>) -> Seq<PipeEvent>
    decreases texts.len(),
{
    if texts.len() == 0 {
        seq![PipeEvent::Next(None)]
    } else {
        seq![PipeEvent::Next(Some(texts[0])), PipeEvent::Sent(taken[0])] + pipe_dialogue(
            texts.drop_first(),
            taken.drop_first(),
        )
    }
}

/// A pipe from a receiver to a sender.
#[derive(Debug, PartialEq, Eq)]
pub struct SignalPipe {
    phase: PipePhase,
}

impl View for SignalPipe {
    type V = PipePhase;

    closed spec fn view(&self) -> PipePhase {
        self.phase
    }
}

impl SignalPipe {
    /// A pipe that waits for its stream.
    pub fn new() -> (pipe: Self)
        ensures
            pipe@ == PipePhase::Opening,
    {
        SignalPipe { phase: PipePhase::Opening }
    }

    /// What the pipe waits for.
    pub fn phase(&self) -> (phase: PipePhase)
        ensures
            phase == self@,
    {
        self.phase
    }

    /// Tells the pipe of an event. A text that comes back is to be handed to the sender.
    pub fn step(&mut self, event: PipeEvent) -> (text: Option<String>)
        ensures
            final(self)@ == pipe_next(old(self)@, event),
            text == pipe_hands(old(self)@, event),
    {
        match (self.phase, event) {
            (PipePhase::Opening, PipeEvent::Opened(opened)) => {
                self.phase = if opened {
                    PipePhase::Receiving
                } else {
                    PipePhase::Failed(PipeFailure::Stream)
                };
                None
            },
            (PipePhase::Receiving, PipeEvent::Next(text)) => {
                self.phase = if text.is_some() {
                    PipePhase::Sending
                } else {
                    PipePhase::Finished
                };
                text
            },
            (PipePhase::Sending, PipeEvent::Sent(sent)) => {
                self.phase = if sent {
                    PipePhase::Receiving
                } else {
                    PipePhase::Failed(PipeFailure::Send)
                };
                None
            },
            _ => None,
        }
    }
}

/// The sender is handed the texts of the stream, each once and in their order, up to and with the
/// first that it does not take. The pipe breaks there, and finishes where the sender takes all.
pub proof fn law_pipe_keeps_order(texts: Seq<String>, taken: Seq<bool>, n: int)
    requires
        taken.len() == texts.len(),
        0 <= n <= texts.len(),
        forall|i: int| 0 <= i < n ==> taken[i],
        n < texts.len() ==> !taken[n],
    ensures
        n == texts.len() ==> {
            &&& pipe_handed(PipePhase::Receiving, pipe_dialogue(texts, taken)) == texts
            &&& pipe_run(PipePhase::Receiving, pipe_dialogue(texts, taken)) == PipePhase::Finished
        },
        n < texts.len() ==> {
            &&& pipe_handed(PipePhase::Receiving, pipe_dialogue(texts, taken)) == texts.take(n + 1)
            &&& pipe_run(PipePhase::Receiving, pipe_dialogue(texts, taken)) == PipePhase::Failed(
                PipeFailure::Send,
            )
        },
    decreases texts.len(),
{
    reveal_with_fuel(pipe_run, 3);
    reveal_with_fuel(pipe_handed, 3);
    let events = pipe_dialogue(texts, taken);
    if texts.len() == 0 {
        assert(texts =~= seq![]);
        assert(events.drop_first() =~= seq![]);
    } else {
        let rest = pipe_dialogue(texts.drop_first(), taken.drop_first());
        assert(events.drop_first().drop_first() =~= rest);
        assert(events[1] == events.drop_first()[0]);
        if n == 0 {
            law_pipe_stays_ended(PipePhase::Failed(PipeFailure::Send), rest);
            assert(texts.take(1) =~= seq![texts[0]]);
        } else {
            assert(taken[0]);
            law_pipe_keeps_order(texts.drop_first(), taken.drop_first(), n - 1);
            assert(texts =~= seq![texts[0]] + texts.drop_first());
            if n < texts.len() {
                assert(texts.take(n + 1) =~= seq![texts[0]] + texts.drop_first().take(n));
            }
        }
    }
}

/// The sender is handed a text exactly where the pipe waits for the next one and it comes, and that
/// text it is.
pub proof fn law_what_the_pipe_hands_on(phase: PipePhase, event: PipeEvent)
    ensures
        pipe_hands(phase, event) is Some <==> phase is Receiving && event is Next
            && event->Next_0 is Some,
        pipe_hands(phase, event) is Some ==> pipe_hands(phase, event) == event->Next_0,
{
}

/// The pipe comes to each of its phases exactly by what it waits for in the one before, and leaves
/// none of them otherwise.
pub proof fn law_when_the_pipe_moves_on(phase: PipePhase, event: PipeEvent)
    ensures
        ({
            let next = pipe_next(phase, event);
            &&& next is Opening <==> phase is Opening && !(event is Opened)
            &&& next is Receiving <==> {
                ||| phase is Opening && event == PipeEvent::Opened(true)
                ||| phase is Sending && event == PipeEvent::Sent(true)
                ||| phase is Receiving && !(event is Next)
            }
            &&& next is Sending <==> {
                ||| phase is Receiving && event is Next && event->Next_0 is Some
                ||| phase is Sending && !(event is Sent)
            }
            &&& next is Finished <==> phase is Finished || (phase is Receiving && event is Next
                && event->Next_0 is None)
            &&& next == PipePhase::Failed(PipeFailure::Stream) <==> {
                ||| phase == PipePhase::Failed(PipeFailure::Stream)
                ||| phase is Opening && event == PipeEvent::Opened(false)
            }
            &&& next == PipePhase::Failed(PipeFailure::Send) <==> {
                ||| phase == PipePhase::Failed(PipeFailure::Send)
                ||| phase is Sending && event == PipeEvent::Sent(false)
            }
        }),
{
}

/// A pipe that gets its stream hands on every text of it, from the first to the last, where the
/// sender takes them all.
pub proof fn law_pipe_runs_its_course(texts: Seq<String>, taken: Seq<bool>)
    requires
        taken.len() == texts.len(),
        forall|i: int| 0 <= i < texts.len() ==> #[trigger] taken[i],
    ensures
        ({
            let events = seq![PipeEvent::Opened(true)] + pipe_dialogue(texts, taken);
            &&& pipe_handed(PipePhase::Opening, events) == texts
            &&& pipe_run(PipePhase::Opening, events) == PipePhase::Finished
        }),
{
    let events = seq![PipeEvent::Opened(true)] + pipe_dialogue(texts, taken);
    law_pipe_keeps_order(texts, taken, texts.len() as int);
    assert(events.drop_first() =~= pipe_dialogue(texts, taken));
}

/// A pipe that has finished or is broken stays so and hands on nothing more.
pub proof fn law_pipe_stays_ended(phase: PipePhase, events: Seq<PipeEvent>)
    requires
        phase is Finished || phase is Failed,
    ensures
        pipe_run(phase, events) == phase,
        pipe_handed(phase, events).len() == 0,
    decreases events.len(),
{
    if events.len() > 0 {
        law_pipe_stays_ended(phase, events.drop_first());
    }
}

} // verus!
