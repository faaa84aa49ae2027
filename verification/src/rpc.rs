//! The messages that two bridges exchange over a socket, one JSON line each.

use vstd::prelude::*;
use vstd::utf8::*;

verus! {

/// A message on the socket.
#[derive(Debug, PartialEq, Eq)]
pub enum JsonRpc {
    /// A text to pass on.
    Message { content: String },
    /// A request for a sign of life.
    Ping,
    /// The answer to a ping.
    Pong,
}

/// The mathematical value of a [`JsonRpc`].
pub enum Rpc {
    Message { content: Seq<char> },
    Ping,
    Pong,
}

impl View for JsonRpc {
    type V = Rpc;

    open spec fn view(&self) -> Rpc {
        match self {
            JsonRpc::Message { content } => Rpc::Message { content: content@ },
            JsonRpc::Ping => Rpc::Ping,
            JsonRpc::Pong => Rpc::Pong,
        }
    }
}

/// Why the bytes of a line are no message, in the classes of `serde_json`.
#[derive(Debug, Clone, Copy, PartialEq, Eq, Structural)]
pub enum Category {
    /// Reading the bytes failed.
    Io,
    /// The bytes are not JSON.
    Syntax,
    /// The bytes are JSON of another shape.
    Data,
    /// The bytes end too early.
    Eof,
}

/// Why an operation on a socket failed, as far as the bridge tells the reasons apart.
#[derive(Debug, Clone, Copy, PartialEq, Eq, Structural)]
pub enum IoErrorKind {
    NotFound,
    BrokenPipe,
    Other,
}

/// The JSON text of a message.
pub open spec fn json_text(msg: Rpc) -> Seq<char> {
    match msg {
        Rpc::Message { content } => "{\"Message\":{\"c\":"@ + crate::json::json_string(content)
            + "}}"@,
        Rpc::Ping => "\"Ping\""@,
        Rpc::Pong => "\"Pong\""@,
    }
}

/// The line of a message: its JSON text and a line feed.
pub open spec fn line(msg: Rpc) -> Seq<char> {
    json_text(msg).push('\n')
}

/// The bytes of a message on the socket: its line in UTF-8.
pub open spec fn frame(msg: Rpc) -> Seq<u8> {
    encode_utf8(line(msg))
}

/// The bytes on the socket of messages sent one after the other.
pub open spec fn stream(msgs: Seq<Rpc>) -> Seq<u8>
    decreases msgs.len(),
{
    if msgs.len() == 0 {
        seq![]
    } else {
        frame(msgs[0]) + stream(msgs.drop_first())
    }
}

/// What a reader takes from `bytes` that reads up to and with the first line feed, or all of them
/// where there is none.
pub open spec fn first_line(bytes: Seq<u8>) -> Seq<u8>
    decreases bytes.len(),
{
    if bytes.len() == 0 {
        seq![]
    } else if bytes[0] == 10u8 {
        seq![10u8]
    } else {
        seq![bytes[0]] + first_line(bytes.drop_first())
    }
}

/// The lines that a reader takes from `bytes` one after the other.
pub open spec fn lines_of(bytes: Seq<u8>) -> Seq<Seq<u8>>
    decreases bytes.len(),
{
    if bytes.len() == 0 {
        seq![]
    } else {
        proof {
            lemma_first_line_len(bytes);
        }
        seq![first_line(bytes)] + lines_of(bytes.skip(first_line(bytes).len() as int))
    }
}

/// The bytes of messages on the socket, one by one.
pub open spec fn frames(msgs: Seq<Rpc>) -> Seq<Seq<u8>> {
    msgs.map_values(|msg: Rpc| frame(msg))
}

/// Whether bytes are those of a message as the library writes it.
pub open spec fn is_frame(bytes: Seq<u8>) -> bool {
    exists|msg: Rpc| #[trigger] frame(msg) == bytes
}

/// The message whose bytes these are.
pub open spec fn framed(bytes: Seq<u8>) -> Rpc {
    choose|msg: Rpc| #[trigger] frame(msg) == bytes
}

/// The value of what a decoder returned.
pub open spec fn decoded_value(decoded: Result<JsonRpc, Category>) -> Result<Rpc, Category> {
    match decoded {
        Ok(msg) => Ok(msg@),
        Err(category) => Err(category),
    }
}

/// What bytes say: the message whose bytes they are, and what `other` tells of them where they are
/// spelt in another way than the library does, or are no message.
pub open spec fn meaning(bytes: Seq<u8>, other: Result<JsonRpc, Category>) -> Result<
    Rpc,
    Category,
> {
    if is_frame(bytes) {
        Ok(framed(bytes))
    } else {
        decoded_value(other)
    }
}

/// Appends the UTF-8 bytes of `text`.
fn append_text(buf: &mut Vec<u8>, text: &str)
    ensures
        final(buf)@ == old(buf)@ + encode_utf8(text@),
{
    buf.extend_from_slice(text.as_bytes());
    assert(buf@ =~= old(buf)@ + encode_utf8(text@));
}

/// Replaces what the buffer holds by the bytes of a message on the socket.
pub fn fill_buffer_with_message(buf: &mut Vec<u8>, msg: &JsonRpc)
    ensures
        final(buf)@ == frame(msg@),
{
    buf.clear();
    match msg {
        JsonRpc::Message { content } => {
            append_text(buf, "{");
            crate::json::write_json_string(buf, "Message");
            append_text(buf, ":{");
            crate::json::write_json_string(buf, "c");
            append_text(buf, ":");
            crate::json::write_json_string(buf, content.as_str());
            append_text(buf, "}}");
            proof {
                lemma_message_text(content@);
            }
        },
        JsonRpc::Ping => {
            crate::json::write_json_string(buf, "Ping");
            proof {
                lemma_ping_text();
            }
        },
        JsonRpc::Pong => {
            crate::json::write_json_string(buf, "Pong");
            proof {
                lemma_pong_text();
            }
        },
    }
    assert(buf@ =~= encode_utf8(json_text(msg@)));
    buf.push(10u8);
    proof {
        lemma_frame(msg@);
    }
}

/// Whether two slices hold the same bytes.
fn same_bytes(a: &[u8], b: &[u8]) -> (same: bool)
    ensures
        same == (a@ == b@),
{
    if a.len() != b.len() {
        return false;
    }
    let mut i: usize = 0;
    while i < a.len()
        invariant
            i <= a.len(),
            a.len() == b.len(),
            a@.take(i as int) == b@.take(i as int),
        decreases a.len() - i,
    {
        if a[i] != b[i] {
            return false;
        }
        assert(a@.take(i + 1) =~= a@.take(i as int).push(a@[i as int]));
        assert(b@.take(i + 1) =~= b@.take(i as int).push(b@[i as int]));
        i += 1;
    }
    assert(a@.take(i as int) =~= a@);
    assert(b@.take(i as int) =~= b@);
    true
}

/// The message if its bytes are these, as the library writes them.
fn if_framed(msg: JsonRpc, bytes: &[u8]) -> (found: Option<JsonRpc>)
    ensures
        found is Some <==> frame(msg@) == bytes@,
        found is Some ==> found->0 == msg,
{
    let mut buf: Vec<u8> = Vec::new();
    fill_buffer_with_message(&mut buf, &msg);
    if same_bytes(buf.as_slice(), bytes) {
        Some(msg)
    } else {
        None
    }
}

/// The message whose bytes these are, as the library writes it, if there is one.
pub fn decode_frame(bytes: &[u8]) -> (found: Option<JsonRpc>)
    ensures
        match found {
            Some(msg) => frame(msg@) == bytes@,
            None => !is_frame(bytes@),
        },
        found is None ==> forall|msg: Rpc| #[trigger] frame(msg) != bytes@,
{
    if let Some(msg) = if_framed(JsonRpc::Ping, bytes) {
        return Some(msg);
    }
    if let Some(msg) = if_framed(JsonRpc::Pong, bytes) {
        return Some(msg);
    }
    // The literal of the content lies between `{"Message":{"c":` and the line's last three bytes.
    let head: usize = 16;
    let tail: usize = 3;
    proof {
        assert forall|msg: Rpc| #[trigger] frame(msg) == bytes@ implies {
            &&& msg is Message
            &&& bytes@.len() >= head + tail
            &&& bytes@.subrange(head as int, bytes@.len() - tail) == encode_utf8(
                crate::json::json_string(msg->content),
            )
        } by {
            if let Rpc::Message { content } = msg {
                lemma_message_layout(content);
            }
        }
    }
    if bytes.len() < head + tail {
        return None;
    }
    let literal = vstd::slice::slice_subrange(bytes, head, bytes.len() - tail);
    match crate::json::read_json_string(literal) {
        Some(content) => {
            let ghost text = content@;
            let found = if_framed(JsonRpc::Message { content }, bytes);
            assert(found is None ==> !is_frame(bytes@)) by {
                if is_frame(bytes@) {
                    let msg = framed(bytes@);
                    assert(literal@ == encode_utf8(crate::json::json_string(msg->content)));
                    assert(msg == Rpc::Message { content: text });
                }
            }
            found
        },
        None => {
            assert(!is_frame(bytes@)) by {
                if is_frame(bytes@) {
                    let msg = framed(bytes@);
                    assert(literal@ == encode_utf8(crate::json::json_string(msg->content)));
                }
            }
            None
        },
    }
}

/// What bytes say, where `other` is what another decoder makes of them: it is heeded only where
/// they are not the bytes of a message as the library writes it.
pub fn decode(bytes: &[u8], other: Result<JsonRpc, Category>) -> (said: Result<JsonRpc, Category>)
    ensures
        decoded_value(said) == meaning(bytes@, other),
        forall|msg: Rpc| #[trigger] frame(msg) == bytes@ ==> said is Ok && said->Ok_0@ == msg,
        (forall|msg: Rpc| #[trigger] frame(msg) != bytes@) ==> said == other,
{
    match decode_frame(bytes) {
        Some(msg) => {
            proof {
                law_frame_says_its_message(msg@, other);
                assert forall|sent: Rpc| #[trigger] frame(sent) == bytes@ implies sent == msg@ by {
                    law_frame_prefix_code(sent, msg@, seq![], seq![]);
                }
            }
            Ok(msg)
        },
        None => other,
    }
}

/// Where the literal of the content stands among the bytes of a text message.
proof fn lemma_message_layout(content: Seq<char>)
    ensures
        ({
            let bytes = frame(Rpc::Message { content });
            &&& bytes.len() >= 19
            &&& bytes.subrange(16, bytes.len() - 3) == encode_utf8(
                crate::json::json_string(content),
            )
        }),
{
    let head = "{\"Message\":{\"c\":"@;
    let value = crate::json::json_string(content);
    let tail = "}}"@;
    let msg = Rpc::Message { content };
    lemma_frame(msg);
    crate::json::lemma_encode_utf8_concat(head, value);
    crate::json::lemma_encode_utf8_concat(head + value, tail);
    reveal_strlit("{\"Message\":{\"c\":");
    reveal_strlit("}}");
    is_ascii_chars_encode_utf8(head);
    is_ascii_chars_encode_utf8(tail);
    let bytes = frame(msg);
    assert(bytes =~= encode_utf8(head) + encode_utf8(value) + encode_utf8(tail).push(10u8));
    assert(bytes.subrange(16, bytes.len() - 3) =~= encode_utf8(value));
}

/// A reader takes at least one byte where there is one, and no more than there are.
pub proof fn lemma_first_line_len(bytes: Seq<u8>)
    requires
        bytes.len() > 0,
    ensures
        0 < first_line(bytes).len() <= bytes.len(),
    decreases bytes.len(),
{
    reveal_with_fuel(first_line, 2);
    if bytes[0] != 10u8 && bytes.len() > 1 {
        lemma_first_line_len(bytes.drop_first());
    }
}

proof fn lemma_frame(msg: Rpc)
    ensures
        frame(msg) == encode_utf8(json_text(msg)).push(10u8),
{
    assert(line(msg) =~= json_text(msg) + seq!['\n']);
    crate::json::lemma_encode_utf8_concat(json_text(msg), seq!['\n']);
    assert(encode_utf8(seq!['\n']) =~= seq![10u8]) by {
        reveal_with_fuel(encode_utf8, 2);
        assert(seq!['\n'].drop_first() =~= Seq::<char>::empty());
        assert((10u32 & 0x7F) as u8 == 10u8) by (bit_vector);
    }
}

proof fn lemma_ping_text()
    ensures
        crate::json::json_string("Ping"@) == "\"Ping\""@,
{
    reveal_strlit("Ping");
    reveal_strlit("\"Ping\"");
    lemma_plain_json_string("Ping"@);
    assert(crate::json::json_string("Ping"@) =~= "\"Ping\""@);
}

proof fn lemma_pong_text()
    ensures
        crate::json::json_string("Pong"@) == "\"Pong\""@,
{
    reveal_strlit("Pong");
    reveal_strlit("\"Pong\"");
    lemma_plain_json_string("Pong"@);
    assert(crate::json::json_string("Pong"@) =~= "\"Pong\""@);
}

/// A text of letters and digits stands in its JSON string literal as it is.
proof fn lemma_plain_json_string(text: Seq<char>)
    requires
        forall|i: int| 0 <= i < text.len() ==> '0' <= #[trigger] text[i] <= 'z' && text[i] != '\\',
    ensures
        crate::json::escaped(text) == text,
    decreases text.len(),
{
    if text.len() > 0 {
        let c = text[0];
        assert(crate::json::escape(c) =~= seq![c]);
        lemma_plain_json_string(text.drop_first());
        assert(crate::json::escaped(text) =~= text);
    }
}

/// The pieces of which a text message is written make up its JSON text.
proof fn lemma_message_text(content: Seq<char>)
    ensures
        encode_utf8("{"@) + encode_utf8(crate::json::json_string("Message"@)) + encode_utf8(":{"@)
            + encode_utf8(crate::json::json_string("c"@)) + encode_utf8(":"@) + encode_utf8(
            crate::json::json_string(content),
        ) + encode_utf8("}}"@) == encode_utf8(json_text(Rpc::Message { content })),
{
    let tag = crate::json::json_string("Message"@);
    let key = crate::json::json_string("c"@);
    let value = crate::json::json_string(content);
    reveal_strlit("Message");
    reveal_strlit("c");
    reveal_strlit("{");
    reveal_strlit(":{");
    reveal_strlit(":");
    reveal_strlit("}}");
    reveal_strlit("{\"Message\":{\"c\":");
    lemma_plain_json_string("Message"@);
    lemma_plain_json_string("c"@);
    crate::json::lemma_encode_utf8_concat("{"@, tag);
    crate::json::lemma_encode_utf8_concat("{"@ + tag, ":{"@);
    crate::json::lemma_encode_utf8_concat("{"@ + tag + ":{"@, key);
    crate::json::lemma_encode_utf8_concat("{"@ + tag + ":{"@ + key, ":"@);
    crate::json::lemma_encode_utf8_concat("{"@ + tag + ":{"@ + key + ":"@, value);
    crate::json::lemma_encode_utf8_concat("{"@ + tag + ":{"@ + key + ":"@ + value, "}}"@);
    assert("{"@ + tag + ":{"@ + key + ":"@ =~= "{\"Message\":{\"c\":"@);
}

/// The bytes of messages, one more at the end.
pub(crate) proof fn lemma_stream_push(msgs: Seq<Rpc>, msg: Rpc)
    ensures
        stream(msgs.push(msg)) == stream(msgs) + frame(msg),
    decreases msgs.len(),
{
    let all = msgs.push(msg);
    if msgs.len() == 0 {
        assert(all.drop_first() =~= seq![]);
        assert(stream(all.drop_first()) =~= seq![]);
        assert(stream(all) =~= stream(msgs) + frame(msg));
    } else {
        assert(all.drop_first() =~= msgs.drop_first().push(msg));
        lemma_stream_push(msgs.drop_first(), msg);
        assert(stream(all) =~= stream(msgs) + frame(msg));
    }
}

/// A message takes one line: the only line feed among its bytes is the last of them.
pub proof fn law_frame_is_one_line(msg: Rpc)
    ensures
        frame(msg).len() > 0,
        frame(msg).last() == 10u8,
        forall|i: int| 0 <= i < frame(msg).len() - 1 ==> frame(msg)[i] != 10u8,
{
    let body = encode_utf8(json_text(msg));
    lemma_frame(msg);
    assert(!json_text(msg).contains('\n')) by {
        reveal_strlit("{\"Message\":{\"c\":");
        reveal_strlit("}}");
        reveal_strlit("\"Ping\"");
        reveal_strlit("\"Pong\"");
        if let Rpc::Message { content } = msg {
            crate::json::lemma_escaped_printable(content);
            let value = crate::json::json_string(content);
            assert forall|i: int| 0 <= i < value.len() implies value[i] != '\n' by {
                if 0 < i < value.len() - 1 {
                    assert(value[i] == crate::json::escaped(content)[i - 1]);
                }
            }
        }
    }
    crate::json::lemma_encode_utf8_line_feed(json_text(msg));
    assert forall|i: int| 0 <= i < frame(msg).len() - 1 implies frame(msg)[i] != 10u8 by {
        assert(body.contains(body[i]));
    }
}

/// A reader that reads up to a line feed takes from the socket exactly the bytes of the message
/// that comes first, whatever comes after it.
pub proof fn law_reader_takes_one_frame(msg: Rpc, rest: Seq<u8>)
    ensures
        first_line(frame(msg) + rest) == frame(msg),
{
    law_frame_is_one_line(msg);
    lemma_first_line(frame(msg), rest);
}

proof fn lemma_first_line(bytes: Seq<u8>, rest: Seq<u8>)
    requires
        bytes.len() > 0,
        bytes.last() == 10u8,
        forall|i: int| 0 <= i < bytes.len() - 1 ==> bytes[i] != 10u8,
    ensures
        first_line(bytes + rest) == bytes,
    decreases bytes.len(),
{
    let all = bytes + rest;
    assert(all[0] == bytes[0]);
    if bytes.len() == 1 {
        assert(bytes =~= seq![10u8]);
    } else {
        let tail = bytes.drop_first();
        assert(tail.last() == bytes.last());
        assert forall|i: int| 0 <= i < tail.len() - 1 implies tail[i] != 10u8 by {
            assert(tail[i] == bytes[i + 1]);
        }
        lemma_first_line(tail, rest);
        assert(all.drop_first() =~= tail + rest);
        assert(bytes =~= seq![bytes[0]] + tail);
    }
}

/// The bytes on the socket say where their first message ends and which one it is: no message's
/// bytes begin those of another.
pub proof fn law_frame_prefix_code(a: Rpc, b: Rpc, x: Seq<u8>, y: Seq<u8>)
    requires
        frame(a) + x == frame(b) + y,
    ensures
        a == b,
        x == y,
{
    law_reader_takes_one_frame(a, x);
    law_reader_takes_one_frame(b, y);
    assert(frame(a) == frame(b));
    assert(x =~= (frame(a) + x).skip(frame(a).len() as int));
    assert(y =~= (frame(b) + y).skip(frame(b).len() as int));
    crate::json::lemma_encode_utf8_injective(line(a), line(b));
    let l = line(a);
    assert(l == line(b));
    reveal_strlit("{\"Message\":{\"c\":");
    reveal_strlit("}}");
    reveal_strlit("\"Ping\"");
    reveal_strlit("\"Pong\"");
    match (a, b) {
        (Rpc::Message { content: s }, Rpc::Message { content: t }) => {
            let head = "{\"Message\":{\"c\":"@;
            let tail = "}}"@.push('\n');
            assert(line(a) =~= head + (crate::json::json_string(s) + tail));
            assert(line(b) =~= head + (crate::json::json_string(t) + tail));
            assert(line(a).skip(head.len() as int) =~= crate::json::json_string(s) + tail);
            assert(line(b).skip(head.len() as int) =~= crate::json::json_string(t) + tail);
            crate::json::lemma_json_string_prefix_code(s, t, tail, tail);
        },
        (Rpc::Message { .. }, _) => {
            assert(line(a)[0] == '{');
            assert(line(b)[0] == '"');
        },
        (_, Rpc::Message { .. }) => {
            assert(line(b)[0] == '{');
            assert(line(a)[0] == '"');
        },
        (Rpc::Ping, Rpc::Pong) => {
            assert(line(a)[2] == 'i');
            assert(line(b)[2] == 'o');
        },
        (Rpc::Pong, Rpc::Ping) => {
            assert(line(a)[2] == 'o');
            assert(line(b)[2] == 'i');
        },
        _ => {},
    }
}

/// What is written as a message says that message when it is read, whatever another decoder makes
/// of it.
pub proof fn law_frame_says_its_message(msg: Rpc, other: Result<JsonRpc, Category>)
    ensures
        meaning(frame(msg), other) == Ok::<Rpc, Category>(msg),
{
    let bytes = frame(msg);
    assert(is_frame(bytes));
    assert(bytes + Seq::<u8>::empty() =~= bytes);
    law_frame_prefix_code(framed(bytes), msg, seq![], seq![]);
}

/// What is not the line of any message, as the library writes them, says what another decoder makes
/// of it: the same message where that reads one, and the same reason where it reads none, whatever
/// the bytes are and however many.
pub proof fn law_other_spellings_say_what_is_decoded(
    bytes: Seq<u8>,
    other: Result<JsonRpc, Category>,
)
    requires
        forall|msg: Rpc| #[trigger] frame(msg) != bytes,
    ensures
        other matches Ok(JsonRpc::Message { content }) ==> meaning(bytes, other) == Ok::<
            Rpc,
            Category,
        >(Rpc::Message { content: content@ }),
        other matches Ok(JsonRpc::Ping) ==> meaning(bytes, other) == Ok::<Rpc, Category>(Rpc::Ping),
        other matches Ok(JsonRpc::Pong) ==> meaning(bytes, other) == Ok::<Rpc, Category>(Rpc::Pong),
        other matches Err(category) ==> meaning(bytes, other) == Err::<Rpc, Category>(category),
{
}

/// Bytes count as a message of the library exactly where they are the bytes of one, and then it is
/// that message and no other.
pub proof fn law_frames_are_told_apart(bytes: Seq<u8>, msg: Rpc)
    ensures
        frame(msg) == bytes ==> is_frame(bytes) && framed(bytes) == msg,
        is_frame(bytes) ==> frame(framed(bytes)) == bytes,
{
    if frame(msg) == bytes {
        assert(is_frame(bytes));
        law_frame_prefix_code(framed(bytes), msg, seq![], seq![]);
    }
}

/// The value of what a decoder returned keeps all of it: the kind of the message, every character
/// of its text, and the reason where there is no message.
pub proof fn law_decoded_value_keeps_all(a: Result<JsonRpc, Category>)
    ensures
        a is Ok <==> decoded_value(a) is Ok,
        a matches Err(category) ==> decoded_value(a) == Err::<Rpc, Category>(category),
        a matches Ok(msg) ==> {
            &&& msg is Message <==> decoded_value(a)->Ok_0 is Message
            &&& msg is Ping <==> decoded_value(a)->Ok_0 is Ping
            &&& msg is Pong <==> decoded_value(a)->Ok_0 is Pong
            &&& msg matches JsonRpc::Message { content } ==> decoded_value(a)->Ok_0->content
                == content@
        },
{
}

/// The bytes of a message, byte by byte: a ping and a pong are fixed, and a text stands as its JSON
/// string literal between sixteen bytes before it and three behind it, whatever it says.
pub proof fn law_frame_bytes(content: Seq<char>)
    ensures
        frame(Rpc::Ping) == seq![34u8, 80, 105, 110, 103, 34, 10],
        frame(Rpc::Pong) == seq![34u8, 80, 111, 110, 103, 34, 10],
        frame(Rpc::Message { content }) == seq![
            123u8,
            34,
            77,
            101,
            115,
            115,
            97,
            103,
            101,
            34,
            58,
            123,
            34,
            99,
            34,
            58,
        ] + encode_utf8(crate::json::json_string(content)) + seq![125u8, 125, 10],
{
    let head = "{\"Message\":{\"c\":"@;
    let value = crate::json::json_string(content);
    let tail = "}}"@;
    reveal_strlit("{\"Message\":{\"c\":");
    reveal_strlit("}}");
    reveal_strlit("\"Ping\"");
    reveal_strlit("\"Pong\"");
    lemma_frame(Rpc::Ping);
    lemma_frame(Rpc::Pong);
    lemma_frame(Rpc::Message { content });
    is_ascii_chars_encode_utf8("\"Ping\""@);
    is_ascii_chars_encode_utf8("\"Pong\""@);
    is_ascii_chars_encode_utf8(head);
    is_ascii_chars_encode_utf8(tail);
    crate::json::lemma_encode_utf8_concat(head, value);
    crate::json::lemma_encode_utf8_concat(head + value, tail);
    assert(frame(Rpc::Ping) =~= seq![34u8, 80, 105, 110, 103, 34, 10]);
    assert(frame(Rpc::Pong) =~= seq![34u8, 80, 111, 110, 103, 34, 10]);
    assert(encode_utf8(head) =~= seq![
        123u8,
        34,
        77,
        101,
        115,
        115,
        97,
        103,
        101,
        34,
        58,
        123,
        34,
        99,
        34,
        58,
    ]);
    assert(encode_utf8(tail).push(10u8) =~= seq![125u8, 125, 10]);
    assert(frame(Rpc::Message { content }) =~= encode_utf8(head) + encode_utf8(value) + encode_utf8(
        tail,
    ).push(10u8));
}

/// A reader that takes line after line from the socket takes the bytes of the messages that were
/// sent, one by one and in their order.
pub proof fn law_reader_splits_stream(msgs: Seq<Rpc>)
    ensures
        lines_of(stream(msgs)) == frames(msgs),
    decreases msgs.len(),
{
    if msgs.len() > 0 {
        let rest = stream(msgs.drop_first());
        let all = frame(msgs[0]) + rest;
        law_frame_is_one_line(msgs[0]);
        law_reader_takes_one_frame(msgs[0], rest);
        law_reader_splits_stream(msgs.drop_first());
        assert(all.skip(frame(msgs[0]).len() as int) =~= rest);
        assert(frames(msgs) =~= seq![frame(msgs[0])] + frames(msgs.drop_first()));
    } else {
        assert(frames(msgs) =~= seq![]);
    }
}

/// The bytes on the socket determine the messages that were sent, their number and their order.
pub proof fn law_stream_determines_messages(a: Seq<Rpc>, b: Seq<Rpc>)
    requires
        stream(a) == stream(b),
    ensures
        a == b,
    decreases a.len(),
{
    if a.len() > 0 {
        law_frame_is_one_line(a[0]);
        assert(stream(a).len() > 0);
    }
    if b.len() > 0 {
        law_frame_is_one_line(b[0]);
        assert(stream(b).len() > 0);
    }
    if a.len() == 0 {
        assert(a =~= b);
    } else {
        law_frame_prefix_code(a[0], b[0], stream(a.drop_first()), stream(b.drop_first()));
        law_stream_determines_messages(a.drop_first(), b.drop_first());
        assert(a =~= seq![a[0]] + a.drop_first());
        assert(b =~= seq![b[0]] + b.drop_first());
    }
}

} // verus!
