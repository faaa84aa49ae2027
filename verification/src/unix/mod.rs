//! The two ends of a socket between bridges: one takes texts and writes them to the socket, the
//! other reads them from it.

use vstd::prelude::*;
use vstd::utf8::*;

pub mod receiver;
pub mod sender;

verus! {

/// A text that is written to the socket and read back as a line goes to the channel as it was,
/// whatever another decoder makes of the line.
pub proof fn law_written_text_is_forwarded(
    content: Seq<char>,
    line: Seq<char>,
    other: Result<crate::rpc::JsonRpc, crate::rpc::Category>,
    incoming: receiver::Incoming,
)
    requires
        encode_utf8(line) == crate::rpc::frame(crate::rpc::Rpc::Message { content }),
        receiver::handles(receiver::line_says(line, other), incoming),
    ensures
        incoming matches receiver::Incoming::Forward(text) && text@ == content,
{
    crate::rpc::law_frame_says_its_message(crate::rpc::Rpc::Message { content }, other);
}

/// The texts that the sender was given come out of the connection, each once and in their order,
/// and pings and pongs in between do not: a connection that takes line after line from the bytes
/// that the sender wrote passes on the texts that the sender took on, answers every ping that it
/// sent, and goes on reading.
pub proof fn law_socket_carries_texts(
    s: sender::SenderModel,
    events: Seq<sender::SenderEvent>,
    reads: Seq<receiver::ConnectionEvent>,
)
    requires
        !sender::in_flight(s.phase),
        !sender::in_flight(sender::sender_run(s, events).phase),
        !(sender::sender_run(s, events).phase is Failed),
        forall|i: int| 0 <= i < reads.len() ==> receiver::is_read(#[trigger] reads[i]),
        receiver::lines_read(reads) == crate::rpc::lines_of(sender::sender_written(s, events)),
    ensures
        ({
            let dialogue = receiver::connection_dialogue(reads);
            let reading = receiver::ConnectionPhase::Reading;
            &&& receiver::connection_forwarded(reading, dialogue) == sender::sender_given(s, events)
            &&& receiver::connection_replied(reading, dialogue) == receiver::sent_pings(
                sender::sender_accepted(s, events),
            )
            &&& receiver::connection_run(reading, dialogue) == reading
        }),
{
    let sent = sender::sender_accepted(s, events);
    sender::law_idle_sender_has_delivered(s, events);
    crate::rpc::law_reader_splits_stream(sent);
    receiver::law_written_lines_are_understood(sent, reads);
    receiver::law_connection_forwards_texts(reads);
    sender::lemma_given_texts(s, events);
}

/// A ping that is read as a line is answered by what its sender awaits: a sender that reads the
/// answer has the bytes of a pong to decode, one line, and is idle once they are decoded, whatever
/// other decoders make of either line.
pub proof fn law_ping_is_answered(
    line: String,
    other: Result<crate::rpc::JsonRpc, crate::rpc::Category>,
    output: Option<receiver::Output>,
    s: sender::SenderModel,
    other_answer: Result<crate::rpc::JsonRpc, crate::rpc::Category>,
)
    requires
        encode_utf8(line@) == crate::rpc::frame(crate::rpc::Rpc::Ping),
        receiver::connection_gives(
            receiver::ConnectionPhase::Reading,
            receiver::ConnectionEvent::Line { line, other },
            output,
        ),
        s.phase == sender::SenderPhase::AwaitingPong,
        s.buf.len() == 0,
    ensures
        ({
            &&& output matches Some(receiver::Output::Reply(bytes))
            &&& bytes@ == crate::rpc::frame(crate::rpc::Rpc::Pong)
            &&& crate::rpc::first_line(bytes@) == bytes@
            &&& {
                let read = sender::sender_next(
                    s,
                    sender::SenderEvent::Read { bytes, outcome: Ok(()) },
                );
                &&& read.phase == sender::SenderPhase::Decoding
                &&& read.buf == bytes@
                &&& sender::sender_next(
                    read,
                    sender::SenderEvent::Decoded(other_answer),
                ).phase == sender::SenderPhase::Idle
            }
        }),
{
    let pong = crate::rpc::frame(crate::rpc::Rpc::Pong);
    crate::rpc::law_frame_says_its_message(crate::rpc::Rpc::Ping, other);
    crate::rpc::law_frame_says_its_message(crate::rpc::Rpc::Pong, other_answer);
    crate::rpc::law_reader_takes_one_frame(crate::rpc::Rpc::Pong, seq![]);
    assert(pong + Seq::<u8>::empty() =~= pong);
    assert(s.buf + pong =~= pong);
}

} // verus!
