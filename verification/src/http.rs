//! The webhook: which text a posted payload becomes, and what the poster is answered.

use vstd::prelude::*;

verus! {

/// A named value of an embed.
#[derive(Debug, PartialEq, Eq)]
pub struct EmbedField {
    pub name: String,
    pub value: String,
}

/// A block of a payload.
#[derive(Debug, PartialEq, Eq)]
pub struct Embed {
    pub title: Option<String>,
    pub description: Option<String>,
    pub fields: Vec<EmbedField>,
}

/// What is posted to the webhook.
#[derive(Debug, PartialEq, Eq)]
pub struct Payload {
    pub content: Option<String>,
    pub embeds: Vec<Embed>,
}

/// The text of one field: its name, a colon, its value.
pub open spec fn field_text(field: EmbedField) -> Seq<char> {
    field.name@ + ": "@ + field.value@ + "\n"@
}

/// The text of fields, one line after the other.
pub open spec fn fields_text(fields: Seq<EmbedField>) -> Seq<char>
    decreases fields.len(),
{
    if fields.len() == 0 {
        seq![]
    } else {
        fields_text(fields.drop_last()) + field_text(fields.last())
    }
}

/// A text that may be missing, with what is put behind it where it is there.
pub open spec fn optional_text(text: Option<String>, end: Seq<char>) -> Seq<char> {
    match text {
        Some(text) => text@ + end,
        None => seq![],
    }
}

/// The text of one embed: a line of its title, its description and an empty line, and its fields.
pub open spec fn embed_text(embed: Embed) -> Seq<char> {
    optional_text(embed.title, "\n"@) + optional_text(embed.description, "\n\n"@) + fields_text(
        embed.fields@,
    )
}

/// The text of embeds, one after the other.
pub open spec fn embeds_text(embeds: Seq<Embed>) -> Seq<char>
    decreases embeds.len(),
{
    if embeds.len() == 0 {
        seq![]
    } else {
        embeds_text(embeds.drop_last()) + embed_text(embeds.last())
    }
}

/// The text of a payload: its content and an empty line, and its embeds.
pub open spec fn payload_text(payload: Payload) -> Seq<char> {
    optional_text(payload.content, "\n\n"@) + embeds_text(payload.embeds@)
}

impl EmbedField {
    fn append_to(&self, text: &mut String)
        ensures
            final(text)@ == old(text)@ + field_text(*self),
    {
        text.append(self.name.as_str());
        text.append(": ");
        text.append(self.value.as_str());
        text.append("\n");
        assert(text@ =~= old(text)@ + field_text(*self));
    }
}

impl Embed {
    fn append_to(&self, text: &mut String)
        ensures
            final(text)@ == old(text)@ + embed_text(*self),
    {
        if let Some(title) = &self.title {
            text.append(title.as_str());
            text.append("\n");
        }
        if let Some(description) = &self.description {
            text.append(description.as_str());
            text.append("\n\n");
        }
        let ghost head = text@;
        assert(head =~= old(text)@ + (optional_text(self.title, "\n"@) + optional_text(
            self.description,
            "\n\n"@,
        )));
        let mut i: usize = 0;
        assert(self.fields@.take(0) =~= Seq::<EmbedField>::empty());
        assert(text@ =~= head + fields_text(self.fields@.take(0)));
        while i < self.fields.len()
            invariant
                i <= self.fields.len(),
                text@ == head + fields_text(self.fields@.take(i as int)),
            decreases self.fields.len() - i,
        {
            self.fields[i].append_to(text);
            let ghost done = self.fields@.take(i + 1);
            assert(done.drop_last() =~= self.fields@.take(i as int));
            assert(text@ =~= head + fields_text(done));
            i += 1;
        }
        assert(self.fields@.take(i as int) =~= self.fields@);
        assert(text@ =~= old(text)@ + embed_text(*self));
    }
}

impl Payload {
    /// The text that is sent for this payload.
    pub fn to_string(&self) -> (text: String)
        ensures
            text@ == payload_text(*self),
    {
        let mut text = String::new();
        if let Some(content) = &self.content {
            text.append(content.as_str());
            text.append("\n\n");
        }
        let ghost head = text@;
        assert(head =~= optional_text(self.content, "\n\n"@)) by {
            reveal_strlit("\n\n");
        }
        let mut i: usize = 0;
        assert(self.embeds@.take(0) =~= Seq::<Embed>::empty());
        assert(text@ =~= head + embeds_text(self.embeds@.take(0)));
        while i < self.embeds.len()
            invariant
                i <= self.embeds.len(),
                text@ == head + embeds_text(self.embeds@.take(i as int)),
            decreases self.embeds.len() - i,
        {
            self.embeds[i].append_to(&mut text);
            let ghost done = self.embeds@.take(i + 1);
            assert(done.drop_last() =~= self.embeds@.take(i as int));
            assert(text@ =~= head + embeds_text(done));
            i += 1;
        }
        assert(self.embeds@.take(i as int) =~= self.embeds@);
        text
    }
}

/// The query of a request to the webhook.
#[derive(Debug, Clone, Copy, PartialEq, Eq, Structural)]
pub struct Options {
    /// Whether the poster wants to be told of the message that came of the request.
    pub wait: bool,
}

/// The message that a waiting poster is told of.
#[derive(Debug, Clone, Copy, PartialEq, Eq)]
pub struct Response {
    pub id: &'static str,
}

/// What the poster is answered.
#[derive(Debug, Clone, Copy, PartialEq, Eq)]
pub enum Reply {
    /// Success, with the response as JSON.
    Message(Response),
    /// Success, with nothing to say.
    NoContent,
}

/// What is done about a request.
#[derive(Debug, PartialEq, Eq)]
pub struct Handled {
    /// The text that goes to the channel.
    pub message: String,
    /// The answer, whether or not the channel takes the text.
    pub reply: Reply,
}

/// The answer to a request, which depends on its query alone.
pub open spec fn reply_to(query: Options, reply: Reply) -> bool {
    match reply {
        Reply::Message(response) => query.wait && response.id@ == "1322948599578890240"@,
        Reply::NoContent => !query.wait,
    }
}

/// Handles a request to the webhook.
pub fn handler(query: &Options, payload: &Payload) -> (handled: Handled)
    ensures
        handled.message@ == payload_text(*payload),
        reply_to(*query, handled.reply),
        handled.reply is Message <==> query.wait,
        handled.reply matches Reply::Message(response) ==> response.id@ == "1322948599578890240"@,
{
    let message = payload.to_string();
    let reply = if query.wait {
        Reply::Message(Response { id: "1322948599578890240" })
    } else {
        Reply::NoContent
    };
    Handled { message, reply }
}

/// What comes of a post.
#[derive(Debug, PartialEq, Eq)]
pub enum Outcome {
    /// It is handled.
    Handled(Handled),
    /// Its query cannot be read; the poster is answered with this status.
    QueryRefused(u16),
    /// Its payload cannot be read; the poster is answered with this status.
    PayloadRefused(u16),
}

/// Whether `outcome` is what comes of a post whose query and payload are these, or cannot be read
/// and are refused with a status. The query is looked at first.
pub open spec fn answers_post(
    query: Result<Options, u16>,
    payload: Result<Payload, u16>,
    outcome: Outcome,
) -> bool {
    match (query, payload) {
        (Err(status), _) => outcome == Outcome::QueryRefused(status),
        (Ok(_), Err(status)) => outcome == Outcome::PayloadRefused(status),
        (Ok(query), Ok(payload)) => outcome matches Outcome::Handled(handled) && handled.message@
            == payload_text(payload) && reply_to(query, handled.reply),
    }
}

/// The text that goes to the channel, if any does.
pub open spec fn delivered(outcome: Outcome) -> Option<Seq<char>> {
    match outcome {
        Outcome::Handled(handled) => Some(handled.message@),
        _ => None,
    }
}

/// The status with which a post is refused, if it is.
pub open spec fn refusal(outcome: Outcome) -> Option<u16> {
    match outcome {
        Outcome::Handled(_) => None,
        Outcome::QueryRefused(status) => Some(status),
        Outcome::PayloadRefused(status) => Some(status),
    }
}

/// Answers a post whose query and payload were read, or refused with a status.
pub fn respond(query: Result<Options, u16>, payload: Result<Payload, u16>) -> (outcome: Outcome)
    ensures
        answers_post(query, payload, outcome),
        outcome is Handled <==> query is Ok && payload is Ok,
        outcome matches Outcome::Handled(handled) ==> {
            &&& handled.message@ == payload_text(payload->Ok_0)
            &&& handled.reply is Message <==> query->Ok_0.wait
        },
{
    match query {
        Err(status) => Outcome::QueryRefused(status),
        Ok(query) => match payload {
            Err(status) => Outcome::PayloadRefused(status),
            Ok(payload) => Outcome::Handled(handler(&query, &payload)),
        },
    }
}

/// The server of the webhook: where it listens, and what it serves.
#[derive(Debug, Clone, Copy, PartialEq, Eq)]
pub struct HttpReceiver {
    pub host: &'static str,
    pub port: u16,
    /// The method of the requests that are served.
    pub method: &'static str,
    /// The path of the webhook; its two parameters are not read.
    pub route: &'static str,
    /// How many texts may wait in the channel.
    pub capacity: usize,
}

impl HttpReceiver {
    /// Whether this server listens on `port` of every address and serves posts to the webhook there.
    pub open spec fn serves(&self, port: u16) -> bool {
        &&& self.host@ == "0.0.0.0"@
        &&& self.port == port
        &&& self.method@ == "POST"@
        &&& self.route@ == "/webhooks/:id/:token"@
        &&& self.capacity == 8
    }

    /// A server that listens on every address of the machine.
    pub fn new(port: u16) -> (receiver: Self)
        ensures
            receiver.serves(port),
    {
        HttpReceiver {
            host: "0.0.0.0",
            port,
            method: "POST",
            route: "/webhooks/:id/:token",
            capacity: crate::pipe::CHANNEL_CAPACITY,
        }
    }
}

proof fn lemma_embeds_text_concat(a: Seq<Embed>, b: Seq<Embed>)
    ensures
        embeds_text(a + b) == embeds_text(a) + embeds_text(b),
    decreases b.len(),
{
    if b.len() == 0 {
        assert(a + b =~= a);
        assert(embeds_text(a) + embeds_text(b) =~= embeds_text(a));
    } else {
        lemma_embeds_text_concat(a, b.drop_last());
        assert((a + b).drop_last() =~= a + b.drop_last());
        assert(embeds_text(a + b) =~= embeds_text(a) + embeds_text(b));
    }
}

proof fn lemma_fields_text_concat(a: Seq<EmbedField>, b: Seq<EmbedField>)
    ensures
        fields_text(a + b) == fields_text(a) + fields_text(b),
    decreases b.len(),
{
    if b.len() == 0 {
        assert(a + b =~= a);
        assert(fields_text(a) + fields_text(b) =~= fields_text(a));
    } else {
        lemma_fields_text_concat(a, b.drop_last());
        assert((a + b).drop_last() =~= a + b.drop_last());
        assert(fields_text(a + b) =~= fields_text(a) + fields_text(b));
    }
}

/// A payload's text is that of its parts, in their order: splitting the embeds of a payload over
/// two payloads, the second without content, splits its text.
pub proof fn law_payload_text_splits(whole: Payload, front: Payload, back: Payload)
    requires
        whole.content == front.content,
        back.content is None,
        whole.embeds@ == front.embeds@ + back.embeds@,
    ensures
        payload_text(whole) == payload_text(front) + payload_text(back),
{
    lemma_embeds_text_concat(front.embeds@, back.embeds@);
    assert(payload_text(whole) =~= payload_text(front) + payload_text(back));
}

/// An embed's text is that of its parts, in their order: splitting the fields of an embed over
/// two embeds, the second with nothing else, splits its text.
pub proof fn law_embed_text_splits(whole: Embed, front: Embed, back: Embed)
    requires
        whole.title == front.title,
        whole.description == front.description,
        back.title is None,
        back.description is None,
        whole.fields@ == front.fields@ + back.fields@,
    ensures
        embed_text(whole) == embed_text(front) + embed_text(back),
{
    lemma_fields_text_concat(front.fields@, back.fields@);
    assert(embed_text(whole) =~= embed_text(front) + embed_text(back));
}

/// The text of a payload without embeds is its content, as it is, and two line feeds; where it has
/// no content, it has no text.
pub proof fn law_content_is_kept(payload: Payload)
    requires
        payload.embeds@.len() == 0,
    ensures
        payload.content matches Some(content) ==> payload_text(payload) == content@ + seq![
            '\n',
            '\n',
        ],
        payload.content is None ==> payload_text(payload) == Seq::<char>::empty(),
{
    reveal_strlit("\n\n");
    assert("\n\n"@ =~= seq!['\n', '\n']);
    if let Some(content) = payload.content {
        assert(payload_text(payload) =~= content@ + seq!['\n', '\n']);
    } else {
        assert(payload_text(payload) =~= Seq::<char>::empty());
    }
}

/// A payload that is nothing but one embed has the text of that embed.
pub proof fn law_embed_is_kept(payload: Payload, embed: Embed)
    requires
        payload.content is None,
        payload.embeds@ == seq![embed],
    ensures
        payload_text(payload) == embed_text(embed),
{
    reveal_with_fuel(embeds_text, 2);
    assert(payload.embeds@.drop_last() =~= Seq::<Embed>::empty());
    assert(payload.embeds@.last() == embed);
    assert(payload_text(payload) =~= embed_text(embed));
}

/// The text of an embed without fields is its title and a line feed, where it has a title, followed
/// by its description and two line feeds, where it has a description, whatever they say.
pub proof fn law_title_and_description_are_kept(embed: Embed)
    requires
        embed.fields@.len() == 0,
    ensures
        match (embed.title, embed.description) {
            (Some(title), Some(description)) => embed_text(embed) == title@ + seq!['\n']
                + description@ + seq!['\n', '\n'],
            (Some(title), None) => embed_text(embed) == title@ + seq!['\n'],
            (None, Some(description)) => embed_text(embed) == description@ + seq!['\n', '\n'],
            (None, None) => embed_text(embed) == Seq::<char>::empty(),
        },
{
    reveal_strlit("\n");
    reveal_strlit("\n\n");
    assert("\n"@ =~= seq!['\n']);
    assert("\n\n"@ =~= seq!['\n', '\n']);
    match (embed.title, embed.description) {
        (Some(title), Some(description)) => {
            assert(embed_text(embed) =~= title@ + seq!['\n'] + description@ + seq!['\n', '\n']);
        },
        (Some(title), None) => {
            assert(embed_text(embed) =~= title@ + seq!['\n']);
        },
        (None, Some(description)) => {
            assert(embed_text(embed) =~= description@ + seq!['\n', '\n']);
        },
        (None, None) => {
            assert(embed_text(embed) =~= Seq::<char>::empty());
        },
    }
}

/// The title and the description of an embed come before its fields, whatever those are: taking the
/// fields away takes away the end of the text only.
pub proof fn law_title_and_description_come_first(embed: Embed, bare: Embed)
    requires
        bare.title == embed.title,
        bare.description == embed.description,
        bare.fields@.len() == 0,
    ensures
        embed_text(bare).is_prefix_of(embed_text(embed)),
        embed.title matches Some(title) ==> (title@ + seq!['\n']).is_prefix_of(embed_text(embed)),
{
    reveal_strlit("\n");
    assert("\n"@ =~= seq!['\n']);
    assert(embed_text(bare).is_prefix_of(embed_text(embed)));
    if let Some(title) = embed.title {
        assert((title@ + seq!['\n']).is_prefix_of(embed_text(embed)));
    }
}

/// The text of an embed that is nothing but one field is a line: the name, a colon and a space, the
/// value, and a line feed.
pub proof fn law_field_is_a_line(embed: Embed, field: EmbedField)
    requires
        embed.title is None,
        embed.description is None,
        embed.fields@ == seq![field],
    ensures
        embed_text(embed) == field.name@ + seq![':', ' '] + field.value@ + seq!['\n'],
{
    reveal_with_fuel(fields_text, 2);
    reveal_strlit(": ");
    reveal_strlit("\n");
    assert(": "@ =~= seq![':', ' ']);
    assert("\n"@ =~= seq!['\n']);
    assert(embed.fields@.drop_last() =~= Seq::<EmbedField>::empty());
    assert(embed.fields@.last() == field);
    assert(embed_text(embed) =~= field.name@ + seq![':', ' '] + field.value@ + seq!['\n']);
}

/// Whether an embed holds nothing.
pub open spec fn is_blank(embed: Embed) -> bool {
    embed.title is None && embed.description is None && embed.fields@.len() == 0
}

/// A payload has no text exactly where everything in it is missing.
pub proof fn law_empty_payload(payload: Payload)
    ensures
        payload_text(payload).len() == 0 <==> payload.content is None && forall|i: int|
            0 <= i < payload.embeds@.len() ==> is_blank(#[trigger] payload.embeds@[i]),
{
    reveal_strlit("\n\n");
    lemma_blank_embeds(payload.embeds@);
}

proof fn lemma_blank_embed(embed: Embed)
    ensures
        embed_text(embed).len() == 0 <==> is_blank(embed),
{
    reveal_strlit("\n");
    reveal_strlit("\n\n");
    if embed.fields@.len() > 0 {
        assert(fields_text(embed.fields@).len() >= field_text(embed.fields@.last()).len());
    }
}

proof fn lemma_blank_embeds(embeds: Seq<Embed>)
    ensures
        embeds_text(embeds).len() == 0 <==> forall|i: int|
            0 <= i < embeds.len() ==> is_blank(#[trigger] embeds[i]),
    decreases embeds.len(),
{
    if embeds.len() > 0 {
        let front = embeds.drop_last();
        lemma_blank_embeds(front);
        lemma_blank_embed(embeds.last());
        if embeds_text(embeds).len() == 0 {
            assert forall|i: int| 0 <= i < embeds.len() implies is_blank(#[trigger] embeds[i]) by {
                if i < front.len() {
                    assert(is_blank(front[i]));
                }
            }
        } else if embeds_text(front).len() > 0 {
            let i = choose|i: int| 0 <= i < front.len() && !is_blank(#[trigger] front[i]);
            assert(!is_blank(embeds[i]));
        } else {
            assert(!is_blank(embeds[embeds.len() - 1]));
        }
    }
}

/// A text that is not empty ends in a line feed.
pub proof fn law_text_ends_in_line_feed(payload: Payload)
    requires
        payload_text(payload).len() > 0,
    ensures
        payload_text(payload).last() == '\n',
{
    reveal_strlit("\n\n");
    lemma_embeds_end_in_line_feed(payload.embeds@);
}

proof fn lemma_embeds_end_in_line_feed(embeds: Seq<Embed>)
    ensures
        embeds_text(embeds).len() > 0 ==> embeds_text(embeds).last() == '\n',
    decreases embeds.len(),
{
    if embeds.len() > 0 {
        lemma_embeds_end_in_line_feed(embeds.drop_last());
        let fields = embeds.last().fields@;
        reveal_strlit("\n");
        reveal_strlit("\n\n");
        if fields.len() > 0 {
            assert(field_text(fields.last()).last() == '\n');
            assert(fields_text(fields).last() == '\n');
        }
    }
}

/// A post delivers a text exactly where its query and its payload can be read, and that text is
/// the payload's. Otherwise it delivers nothing and is refused, with the status of what cannot be
/// read, so with one of the client's faults where that is one.
pub proof fn law_refused_post_delivers_nothing(
    query: Result<Options, u16>,
    payload: Result<Payload, u16>,
    outcome: Outcome,
)
    requires
        answers_post(query, payload, outcome),
    ensures
        query is Ok && payload is Ok ==> delivered(outcome) == Some(payload_text(payload->Ok_0))
            && refusal(outcome) is None,
        query is Err || payload is Err ==> delivered(outcome) is None && refusal(outcome) is Some,
        query is Err ==> refusal(outcome) == Some(query->Err_0),
        query is Ok && payload is Err ==> refusal(outcome) == Some(payload->Err_0),
        (query is Err ==> 400 <= query->Err_0 < 500) && (payload is Err ==> 400 <= payload->Err_0
            < 500) && refusal(outcome) is Some ==> 400 <= refusal(outcome)->0 < 500,
{
}

/// A post is handled exactly where its query and its payload can be read, and refused otherwise: for
/// its query where that cannot be read, and for its payload only where the query can, each time with
/// the status that it is refused with. What is handled delivers the text of its own payload.
pub proof fn law_post_is_handled_or_refused(
    query: Result<Options, u16>,
    payload: Result<Payload, u16>,
    outcome: Outcome,
)
    requires
        answers_post(query, payload, outcome),
    ensures
        outcome is Handled <==> query is Ok && payload is Ok,
        outcome is QueryRefused <==> query is Err,
        outcome is PayloadRefused <==> query is Ok && payload is Err,
        outcome matches Outcome::QueryRefused(status) ==> query == Err::<Options, u16>(status),
        outcome matches Outcome::PayloadRefused(status) ==> payload == Err::<Payload, u16>(status),
        outcome matches Outcome::Handled(handled) ==> handled.message@ == payload_text(
            payload->Ok_0,
        ),
{
}

/// A poster whose post is handled is told of a message exactly where it asked to wait, and always of
/// the same one; otherwise the answer is empty. The payload has no part in that.
pub proof fn law_poster_is_told_where_it_waits(query: Options, payload: Payload, handled: Handled)
    requires
        answers_post(Ok(query), Ok(payload), Outcome::Handled(handled)),
    ensures
        handled.reply is Message <==> query.wait,
        handled.reply is NoContent <==> !query.wait,
        handled.reply matches Reply::Message(response) ==> response.id@ == "1322948599578890240"@,
{
}

/// A reply suits one kind of query only: a message with the one id suits a query that waits, an
/// empty answer one that does not, and nothing else suits any query.
pub proof fn law_reply_suits_one_query(reply: Reply)
    ensures
        reply_to(Options { wait: true }, reply) <==> (reply matches Reply::Message(response)
            && response.id@ == "1322948599578890240"@),
        reply_to(Options { wait: false }, reply) <==> reply is NoContent,
{
}

/// A server listens on the port that it was given and on no other, on every address, and serves
/// posts to the webhook.
pub proof fn law_server_listens_where_told(server: HttpReceiver, port: u16, other: u16)
    requires
        server.serves(port),
    ensures
        server.port == port,
        server.serves(other) <==> other == port,
        server.host@ == "0.0.0.0"@,
        server.method@ == "POST"@,
        server.route@ == "/webhooks/:id/:token"@,
        server.capacity == 8,
{
}

/// The query and the payload of a post settle what comes of it: two outcomes for the same query and
/// payload deliver the same text and give the same answer.
pub proof fn law_outcome_is_settled(
    query: Result<Options, u16>,
    payload: Result<Payload, u16>,
    a: Outcome,
    b: Outcome,
)
    requires
        answers_post(query, payload, a),
        answers_post(query, payload, b),
    ensures
        delivered(a) == delivered(b),
        refusal(a) == refusal(b),
        a matches Outcome::Handled(x) ==> (b matches Outcome::Handled(y) && {
            &&& x.reply is NoContent <==> y.reply is NoContent
            &&& x.reply is Message ==> x.reply->Message_0.id@ == y.reply->Message_0.id@
        }),
{
}

} // verus!
