use signal_webhook::http::{
    handler, respond, Embed, EmbedField, Handled, HttpReceiver, Options, Outcome, Payload, Reply,
    Response,
};

fn field(name: &str, value: &str) -> EmbedField {
    EmbedField { name: name.to_string(), value: value.to_string() }
}

fn embed(title: Option<&str>, description: Option<&str>, fields: Vec<EmbedField>) -> Embed {
    Embed {
        title: title.map(|t| t.to_string()),
        description: description.map(|d| d.to_string()),
        fields,
    }
}

fn payload(content: Option<&str>, embeds: Vec<Embed>) -> Payload {
    Payload { content: content.map(|c| c.to_string()), embeds }
}

#[test]
fn content_is_followed_by_an_empty_line() {
    assert_eq!(payload(Some("hello"), vec![]).to_string(), "hello\n\n");
    assert_eq!(payload(Some(""), vec![]).to_string(), "\n\n");
}

#[test]
fn missing_parts_leave_no_trace() {
    assert_eq!(payload(None, vec![]).to_string(), "");
    let empty = || embed(None, None, vec![]);
    assert_eq!(payload(None, vec![empty(), empty()]).to_string(), "");
}

#[test]
fn embed_parts_come_in_order() {
    let e = embed(Some("Title"), Some("Text"), vec![field("a", "1"), field("b", "2")]);
    assert_eq!(payload(None, vec![e]).to_string(), "Title\nText\n\na: 1\nb: 2\n");
}

#[test]
fn whole_payload() {
    let p = payload(
        Some("Alert"),
        vec![
            embed(Some("First"), None, vec![field("k", "v")]),
            embed(None, Some("second"), vec![]),
        ],
    );
    assert_eq!(p.to_string(), "Alert\n\nFirst\nk: v\nsecond\n\n");
}

#[test]
fn text_of_split_payload() {
    let first = || embed(Some("x"), None, vec![]);
    let second = || embed(None, Some("y"), vec![field("n", "")]);
    let whole = payload(Some("c"), vec![first(), second()]).to_string();
    let front = payload(Some("c"), vec![first()]).to_string();
    let back = payload(None, vec![second()]).to_string();
    assert_eq!(whole, front + &back);
}

#[test]
fn text_of_split_embed() {
    let whole = payload(None, vec![embed(Some("t"), None, vec![field("a", "1"), field("b", "2")])]);
    let split = payload(
        None,
        vec![
            embed(Some("t"), None, vec![field("a", "1")]),
            embed(None, None, vec![field("b", "2")]),
        ],
    );
    assert_eq!(whole.to_string(), split.to_string());
}

#[test]
fn waiting_poster_is_told_of_a_message() {
    let handled = handler(&Options { wait: true }, &payload(Some("hi"), vec![]));
    assert_eq!(handled.message, "hi\n\n");
    assert_eq!(handled.reply, Reply::Message(Response { id: "1322948599578890240" }));
}

#[test]
fn other_posters_get_no_content() {
    let handled = handler(&Options { wait: false }, &payload(Some("hi"), vec![]));
    assert_eq!(handled.message, "hi\n\n");
    assert_eq!(handled.reply, Reply::NoContent);
}

#[test]
fn server_listens_everywhere() {
    let receiver = HttpReceiver::new(3000);
    assert_eq!(receiver.host, "0.0.0.0");
    assert_eq!(receiver.port, 3000);
    assert_eq!(receiver.method, "POST");
    assert_eq!(receiver.route, "/webhooks/:id/:token");
    assert_eq!(receiver.capacity, 8);
}

#[test]
fn any_part_gives_a_text_that_ends_a_line() {
    for p in [
        payload(Some(""), vec![]),
        payload(None, vec![embed(Some(""), None, vec![])]),
        payload(None, vec![embed(None, Some(""), vec![])]),
        payload(None, vec![embed(None, None, vec![field("", "")]), embed(None, None, vec![])]),
    ] {
        assert!(p.to_string().ends_with('\n'));
    }
}

#[test]
fn what_cannot_be_read_is_refused() {
    let good = || Ok(payload(Some("hi"), vec![]));
    let query = Ok(Options { wait: false });
    let handled = Handled { message: "hi\n\n".to_string(), reply: Reply::NoContent };
    assert_eq!(respond(query, good()), Outcome::Handled(handled));
    assert_eq!(respond(Err(400), good()), Outcome::QueryRefused(400));
    assert_eq!(respond(query, Err(422)), Outcome::PayloadRefused(422));
    assert_eq!(respond(query, Err(415)), Outcome::PayloadRefused(415));
    assert_eq!(respond(Err(400), Err(422)), Outcome::QueryRefused(400));
}
