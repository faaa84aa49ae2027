use signal_webhook::rpc::{decode, decode_frame, fill_buffer_with_message, Category, JsonRpc};

fn frame(msg: &JsonRpc) -> Vec<u8> {
    let mut buf: Vec<u8> = Vec::new();
    fill_buffer_with_message(&mut buf, msg);
    buf
}

fn message(content: &str) -> JsonRpc {
    JsonRpc::Message { content: content.to_string() }
}

#[test]
fn ping_and_pong_are_tagged_strings() {
    assert_eq!(frame(&JsonRpc::Ping), b"\"Ping\"\n".to_vec());
    assert_eq!(frame(&JsonRpc::Pong), b"\"Pong\"\n".to_vec());
}

#[test]
fn message_is_a_tagged_object() {
    assert_eq!(frame(&message("hello")), b"{\"Message\":{\"c\":\"hello\"}}\n".to_vec());
    assert_eq!(frame(&message("")), b"{\"Message\":{\"c\":\"\"}}\n".to_vec());
}

#[test]
fn filling_replaces_what_the_buffer_held() {
    let mut buf: Vec<u8> = vec![1, 2, 3];
    fill_buffer_with_message(&mut buf, &JsonRpc::Ping);
    assert_eq!(buf, b"\"Ping\"\n".to_vec());
    fill_buffer_with_message(&mut buf, &JsonRpc::Pong);
    assert_eq!(buf, b"\"Pong\"\n".to_vec());
}

#[test]
fn special_characters_are_escaped() {
    assert_eq!(
        frame(&message("a\"b\\c\u{8}\t\n\u{c}\r/")),
        b"{\"Message\":{\"c\":\"a\\\"b\\\\c\\b\\t\\n\\f\\r/\"}}\n".to_vec()
    );
}

#[test]
fn control_characters_are_escaped_by_number() {
    assert_eq!(
        frame(&message("\u{0}\u{1}\u{b}\u{e}\u{1f}")),
        b"{\"Message\":{\"c\":\"\\u0000\\u0001\\u000b\\u000e\\u001f\"}}\n".to_vec()
    );
}

#[test]
fn other_characters_stand_for_themselves() {
    assert_eq!(
        frame(&message("\u{7f}\u{e9}\u{2028}\u{1f600}")),
        "{\"Message\":{\"c\":\"\u{7f}\u{e9}\u{2028}\u{1f600}\"}}\n".as_bytes().to_vec()
    );
}

#[test]
fn frames_are_json_that_gives_the_content_back() {
    let mut content = String::new();
    for n in 0u32..0x180 {
        content.push(char::from_u32(n).unwrap());
    }
    let bytes = frame(&message(&content));
    let value: serde_json::Value = serde_json::from_slice(&bytes).unwrap();
    assert_eq!(value["Message"]["c"], serde_json::Value::String(content));
    let value: serde_json::Value = serde_json::from_slice(&frame(&JsonRpc::Ping)).unwrap();
    assert_eq!(value, serde_json::Value::String("Ping".to_string()));
}

#[test]
fn a_frame_is_one_line() {
    for content in ["", "a\nb", "\n\n", "\r\n", "plain"] {
        let bytes = frame(&message(content));
        assert_eq!(bytes.iter().position(|b| *b == b'\n'), Some(bytes.len() - 1));
    }
}

#[test]
fn a_stream_splits_into_its_frames() {
    let msgs = [message("one\ntwo"), JsonRpc::Ping, message(""), JsonRpc::Pong, message("\"}}")];
    let mut stream: Vec<u8> = Vec::new();
    for msg in &msgs {
        stream.extend_from_slice(&frame(msg));
    }
    let lines: Vec<Vec<u8>> = stream.split_inclusive(|b| *b == b'\n').map(|l| l.to_vec()).collect();
    let frames: Vec<Vec<u8>> = msgs.iter().map(frame).collect();
    assert_eq!(lines, frames);
}

#[test]
fn different_messages_have_different_frames() {
    assert_ne!(frame(&message("Ping")), frame(&JsonRpc::Ping));
    assert_ne!(frame(&message("\n")), frame(&message("\\n")));
    assert_ne!(frame(&JsonRpc::Ping), frame(&JsonRpc::Pong));
}

#[test]
fn frames_are_decoded_to_their_messages() {
    let mut content = String::new();
    for n in 0u32..0x180 {
        content.push(char::from_u32(n).unwrap());
    }
    for c in ["", "hi", "a\nb", "\"}}", "\\", "\u{1f600}", content.as_str()] {
        assert_eq!(decode_frame(&frame(&message(c))), Some(message(c)));
    }
    assert_eq!(decode_frame(&frame(&JsonRpc::Ping)), Some(JsonRpc::Ping));
    assert_eq!(decode_frame(&frame(&JsonRpc::Pong)), Some(JsonRpc::Pong));
}

#[test]
fn other_spellings_are_no_frames() {
    for bytes in [
        "",
        "\n",
        "\"Ping\"",
        "\"Ping\" \n",
        "\"Pang\"\n",
        "{\"Message\":{\"c\":\"hi\"}}",
        "{\"Message\": {\"c\":\"hi\"}}\n",
        "{\"Message\":{\"c\":\"\\u0041\"}}\n",
        "{\"Message\":{\"c\":\"a\"}}\n\n",
        "{\"Massage\":{\"c\":\"a\"}}\n",
        "{\"Message\":{\"c\":12345}}\n",
    ] {
        assert_eq!(decode_frame(bytes.as_bytes()), None);
    }
    assert_eq!(decode_frame(&[0xff; 30]), None);
}

#[test]
fn another_decoder_is_heeded_for_other_spellings_only() {
    let ping = frame(&JsonRpc::Ping);
    assert_eq!(decode(&ping, Err(Category::Data)), Ok(JsonRpc::Ping));
    assert_eq!(decode(&ping, Ok(JsonRpc::Pong)), Ok(JsonRpc::Ping));
    assert_eq!(decode(b" \"Ping\"", Ok(JsonRpc::Ping)), Ok(JsonRpc::Ping));
    assert_eq!(decode(b"", Err(Category::Eof)), Err(Category::Eof));
}
