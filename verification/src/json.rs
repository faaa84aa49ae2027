//! JSON string literals, as `serde_json` writes them.

use vstd::prelude::*;
use vstd::utf8::*;

verus! {

/// The lower-case hexadecimal digit of `n`.
pub open spec fn hex_digit(n: int) -> char {
    seq!['0', '1', '2', '3', '4', '5', '6', '7', '8', '9', 'a', 'b', 'c', 'd', 'e', 'f'][n]
}

/// How one character is written inside a JSON string literal.
pub open spec fn escape(c: char) -> Seq<char> {
    if c == '"' {
        seq!['\\', '"']
    } else if c == '\\' {
        seq!['\\', '\\']
    } else if c == '\u{8}' {
        seq!['\\', 'b']
    } else if c == '\t' {
        seq!['\\', 't']
    } else if c == '\n' {
        seq!['\\', 'n']
    } else if c == '\u{c}' {
        seq!['\\', 'f']
    } else if c == '\r' {
        seq!['\\', 'r']
    } else if (c as int) < 0x20 {
        seq!['\\', 'u', '0', '0', hex_digit(c as int / 16), hex_digit(c as int % 16)]
    } else {
        seq![c]
    }
}

/// A text with each of its characters escaped.
pub open spec fn escaped(text: Seq<char>) -> Seq<char>
    decreases text.len(),
{
    if text.len() == 0 {
        seq![]
    } else {
        escape(text[0]) + escaped(text.drop_first())
    }
}

/// The JSON string literal that stands for `text`: its escaped characters between quotes.
pub open spec fn json_string(text: Seq<char>) -> Seq<char> {
    seq!['"'] + escaped(text) + seq!['"']
}

/// Calls `serde_json::to_writer` on a string slice and a byte vector.
///
/// Claimed of it: it does not fail, and it appends to the vector the UTF-8 bytes of the JSON
/// string literal of the text, in which quotes, backslashes and the control characters below
/// U+0020 are escaped and every other character stands for itself.
#[verifier::external_body]
pub(crate) fn write_json_string(buf: &mut Vec<u8>, text: &str)
    ensures
        final(buf)@ == old(buf)@ + encode_utf8(json_string(text@)),
{
    serde_json::to_writer(buf, text).expect("messages can be serialized")
}

/// The text of a JSON string literal in UTF-8, or nothing where `bytes` are no such literal: what
/// `serde_json::from_slice` makes of them.
pub uninterp spec fn parsed_json_string(bytes: Seq<u8>) -> Option<Seq<char>>;

/// Calls `serde_json::from_slice` for a `String`.
///
/// Claimed of it: what it returns depends on the bytes alone, and it gives back the text of a
/// literal as [`write_json_string`] writes it. What it makes of other bytes is left unsaid.
#[verifier::external_body]
pub(crate) fn read_json_string(bytes: &[u8]) -> (text: Option<String>)
    ensures
        parsed_json_string(bytes@) == (match text {
            Some(text) => Some(text@),
            None => None,
        }),
        forall|t: Seq<char>|
            bytes@ == encode_utf8(#[trigger] json_string(t)) ==> text is Some && text->0@ == t,
{
    match serde_json::from_slice::<String>(bytes) {
        Ok(text) => Some(text),
        Err(_) => None,
    }
}

/// The UTF-8 bytes of a concatenation are the concatenation of the UTF-8 bytes.
pub(crate) proof fn lemma_encode_utf8_concat(a: Seq<char>, b: Seq<char>)
    ensures
        encode_utf8(a + b) == encode_utf8(a) + encode_utf8(b),
    decreases a.len(),
{
    if a.len() == 0 {
        assert(a + b =~= b);
        assert(encode_utf8(a) + encode_utf8(b) =~= encode_utf8(b));
    } else {
        assert((a + b).drop_first() =~= a.drop_first() + b);
        lemma_encode_utf8_concat(a.drop_first(), b);
        assert(encode_utf8(a + b) =~= encode_utf8(a) + encode_utf8(b));
    }
}

/// Texts with the same UTF-8 bytes are the same text.
pub(crate) proof fn lemma_encode_utf8_injective(a: Seq<char>, b: Seq<char>)
    requires
        encode_utf8(a) == encode_utf8(b),
    ensures
        a == b,
{
    encode_utf8_decode_utf8(a);
    encode_utf8_decode_utf8(b);
}

/// A text without quotes, backslashes and control characters below U+0020 stands in its literal as
/// it is, however long it is.
pub proof fn law_plain_text_is_written_as_it_is(text: Seq<char>)
    requires
        forall|i: int|
            0 <= i < text.len() ==> (#[trigger] text[i]) as int >= 0x20 && text[i] != '"' && text[i]
                != '\\',
    ensures
        json_string(text) == seq!['"'] + text + seq!['"'],
{
    lemma_plain_text(text);
}

/// What is escaped of such a text is the text.
proof fn lemma_plain_text(text: Seq<char>)
    requires
        forall|i: int|
            0 <= i < text.len() ==> (#[trigger] text[i]) as int >= 0x20 && text[i] != '"' && text[i]
                != '\\',
    ensures
        escaped(text) == text,
    decreases text.len(),
{
    if text.len() > 0 {
        let c = text[0];
        assert(escape(c) =~= seq![c]);
        lemma_plain_text(text.drop_first());
        assert(escaped(text) =~= text);
    }
}

/// A text is escaped character by character: what is escaped of two texts, one after the other, is
/// what is escaped of both.
pub proof fn law_text_is_escaped_piece_by_piece(a: Seq<char>, b: Seq<char>)
    ensures
        escaped(a + b) == escaped(a) + escaped(b),
    decreases a.len(),
{
    if a.len() == 0 {
        assert(a + b =~= b);
        assert(escaped(a) + escaped(b) =~= escaped(b));
    } else {
        assert((a + b).drop_first() =~= a.drop_first() + b);
        law_text_is_escaped_piece_by_piece(a.drop_first(), b);
        assert(escaped(a + b) =~= escaped(a) + escaped(b));
    }
}

/// The byte of a line feed occurs in the UTF-8 form of a character only if it is a line feed.
proof fn lemma_encode_scalar_line_feed(c: char)
    requires
        c != '\n',
    ensures
        !encode_scalar(c as u32).contains(10u8),
{
    let v = c as u32;
    assert(v != 10u32);
    assert(v <= 0x7f && v != 10 ==> (v & 0x7F) as u8 != 10) by (bit_vector);
    assert(0xC0u8 | ((v >> 6) & 0x1F) as u8 != 10u8) by (bit_vector);
    assert(0xE0u8 | ((v >> 12) & 0x0F) as u8 != 10u8) by (bit_vector);
    assert(0xF0u8 | ((v >> 18) & 0x7) as u8 != 10u8) by (bit_vector);
    assert(0x80u8 | (v & 0x3F) as u8 != 10u8) by (bit_vector);
    assert(0x80u8 | ((v >> 6) & 0x3F) as u8 != 10u8) by (bit_vector);
    assert(0x80u8 | ((v >> 12) & 0x3F) as u8 != 10u8) by (bit_vector);
}

/// A text without a line feed has no byte of a line feed.
pub(crate) proof fn lemma_encode_utf8_line_feed(text: Seq<char>)
    requires
        !text.contains('\n'),
    ensures
        !encode_utf8(text).contains(10u8),
    decreases text.len(),
{
    if text.len() > 0 {
        assert(text.contains(text[0]));
        lemma_encode_scalar_line_feed(text[0]);
        let rest = text.drop_first();
        assert(!rest.contains('\n')) by {
            if rest.contains('\n') {
                let i = choose|i: int| 0 <= i < rest.len() && rest[i] == '\n';
                assert(text[i + 1] == '\n');
            }
        }
        lemma_encode_utf8_line_feed(rest);
        let head = encode_scalar(text[0] as u32);
        let tail = encode_utf8(rest);
        assert forall|i: int| 0 <= i < (head + tail).len() implies (head + tail)[i] != 10u8 by {
            if i < head.len() {
                assert(head.contains(head[i]));
            } else {
                assert(tail.contains(tail[i - head.len()]));
            }
        }
    }
}

proof fn lemma_escape_printable(c: char)
    ensures
        forall|i: int| 0 <= i < escape(c).len() ==> (#[trigger] escape(c)[i]) as int >= 0x20,
{
    if (c as int) < 0x20 {
        assert(0 <= c as int / 16 < 16);
        assert(0 <= c as int % 16 < 16);
    }
}

/// No escaped text holds a control character below U+0020, a line feed among them.
pub(crate) proof fn lemma_escaped_printable(text: Seq<char>)
    ensures
        forall|i: int| 0 <= i < escaped(text).len() ==> (#[trigger] escaped(text)[i]) as int >= 0x20,
    decreases text.len(),
{
    if text.len() > 0 {
        lemma_escaped_printable(text.drop_first());
        let c = text[0];
        lemma_escape_printable(c);
        assert forall|i: int| 0 <= i < escaped(text).len() implies (#[trigger] escaped(text)[i])
            as int >= 0x20 by {
            if i >= escape(c).len() {
                assert(escaped(text)[i] == escaped(text.drop_first())[i - escape(c).len()]);
            } else {
                assert(escaped(text)[i] == escape(c)[i]);
            }
        }
    }
}

/// The escaped forms of characters are a prefix code.
proof fn lemma_escape_prefix_code(a: char, b: char, x: Seq<char>, y: Seq<char>)
    requires
        escape(a) + x == escape(b) + y,
    ensures
        a == b,
        x == y,
{
    let l = escape(a) + x;
    let r = escape(b) + y;
    assert(l[0] == escape(a)[0]);
    assert(r[0] == escape(b)[0]);
    if escape(a).len() >= 2 {
        assert(l[1] == escape(a)[1]);
    }
    if escape(b).len() >= 2 {
        assert(r[1] == escape(b)[1]);
    }
    if escape(a).len() == 6 && escape(b).len() == 6 {
        assert(l[4] == escape(a)[4]);
        assert(l[5] == escape(a)[5]);
        assert(r[4] == escape(b)[4]);
        assert(r[5] == escape(b)[5]);
        assert(0 <= a as int / 16 < 16 && 0 <= a as int % 16 < 16);
        assert(0 <= b as int / 16 < 16 && 0 <= b as int % 16 < 16);
        assert(a as int == 16 * (a as int / 16) + a as int % 16);
        assert(b as int == 16 * (b as int / 16) + b as int % 16);
    }
    assert(a == b);
    assert(x =~= l.skip(escape(a).len() as int));
    assert(y =~= r.skip(escape(b).len() as int));
}

/// A JSON string literal ends where its closing quote stands, whatever follows it, and stands for
/// one text only.
pub(crate) proof fn lemma_json_string_prefix_code(a: Seq<char>, b: Seq<char>, x: Seq<char>, y: Seq<char>)
    requires
        json_string(a) + x == json_string(b) + y,
    ensures
        a == b,
        x == y,
{
    let l = json_string(a) + x;
    let r = json_string(b) + y;
    assert(l.skip(1) =~= escaped(a) + (seq!['"'] + x));
    assert(r.skip(1) =~= escaped(b) + (seq!['"'] + y));
    lemma_escaped_prefix_code(a, b, x, y);
}

proof fn lemma_escaped_prefix_code(a: Seq<char>, b: Seq<char>, x: Seq<char>, y: Seq<char>)
    requires
        escaped(a) + (seq!['"'] + x) == escaped(b) + (seq!['"'] + y),
    ensures
        a == b,
        x == y,
    decreases a.len(),
{
    let qx = seq!['"'] + x;
    let qy = seq!['"'] + y;
    let l = escaped(a) + qx;
    let r = escaped(b) + qy;
    if a.len() == 0 {
        assert(l =~= qx);
        if b.len() > 0 {
            assert(r[0] == escape(b[0])[0]);
            assert(false);
        }
        assert(r =~= qy);
        assert(x =~= qx.skip(1));
        assert(y =~= qy.skip(1));
        assert(a =~= b);
    } else {
        assert(l[0] == escape(a[0])[0]);
        if b.len() == 0 {
            assert(r[0] == '"');
            assert(false);
        }
        let ra = a.drop_first();
        let rb = b.drop_first();
        assert(l =~= escape(a[0]) + (escaped(ra) + qx));
        assert(r =~= escape(b[0]) + (escaped(rb) + qy));
        lemma_escape_prefix_code(a[0], b[0], escaped(ra) + qx, escaped(rb) + qy);
        lemma_escaped_prefix_code(ra, rb, x, y);
        assert(a =~= seq![a[0]] + ra);
        assert(b =~= seq![b[0]] + rb);
    }
}

} // verus!
