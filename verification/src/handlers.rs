//! What the service decides on each request.
//!
//! A handler never waits and never touches the network or the disk. Where a
//! request needs outside work (persisting a sample, embedding a text, calling
//! the generation service) the caller does it and passes the outcome in, or
//! the handler returns what is to be done next.

use vstd::prelude::*;
use vstd::string::*;
use crate::ai::{
    candidate_text, envelope_text, error_node, prompt_text, reply_of_exchange, reply_text, Brain,
    Exchange, API_ERROR, ENDPOINT, PROMPT_HEAD, PROMPT_MIDDLE,
};
use crate::json::{is_plain, json_document, quoted, written, Json};
use crate::history::{newest_first, HISTORY_LIMIT};
use crate::hub::{lemma_disconnect_restores_count, Delivery, HubState};
use crate::shared::{ChatRequest, SystemMetric};
use crate::state::AppState;
use crate::store::{
    first_misfit, lemma_nearest_documents, nearest_documents, nearest_positions, referents,
    Document, StoreError,
};

verus! {

/// Number of documents retrieved for a question.
pub const NEIGHBOURS: usize = 3;

/// What stands between two documents in the context of a prompt.
pub const CONTEXT_DELIMITER: &'static str = "\n---\n";

/// Confirmation of a seed request.
pub const SEEDED: &'static str = "Knowledge Base Updated";

/// Diagnostic for a question whose embedding cannot be compared with the
/// stored ones.
pub const RETRIEVAL_ERROR: &'static str =
    "Error retrieving context: the embedding of the question has the wrong dimension.";

/// Takes in one sample. It is recorded if the caller could persist it, and it
/// is published to the live viewers whether it was persisted or not. Returns
/// the number of viewers it was handed to.
pub fn ingest_metric(state: &mut AppState, payload: SystemMetric, persisted: bool) -> (receivers:
    usize)
    ensures
        final(state).metrics@ == if persisted {
            old(state).metrics@.push(payload)
        } else {
            old(state).metrics@
        },
        final(state).tx@ == old(state).tx@.published(payload),
        receivers == old(state).tx@.subscriptions.len(),
        final(state).knowledge == old(state).knowledge,
        final(state).brain == old(state).brain,
{
    if persisted {
        state.metrics.record(payload.clone());
    }
    state.tx.publish(payload)
}

/// The most recent samples, newest first, [`HISTORY_LIMIT`] at most.
pub fn get_metrics(state: &AppState) -> (recent: Vec<SystemMetric>)
    ensures
        recent@ == newest_first(state.metrics@, HISTORY_LIMIT as nat),
{
    state.metrics.history(HISTORY_LIMIT)
}

/// Where a viewer's stream stands.
#[derive(Debug, PartialEq, Eq)]
pub enum Viewer {
    /// The connection is open and no subscription has been made yet.
    Connecting,
    /// The viewer holds the subscription with this ticket.
    Subscribed(u64),
    /// The stream has ended and the subscription, if there was one, is given
    /// up.
    Gone,
}

/// What the gateway does next on a viewer's connection.
#[derive(Debug, PartialEq, Eq)]
pub enum Push {
    /// Write this sample as one event.
    Event(SystemMetric),
    /// Nothing to write: wait for the next publication.
    Idle,
    /// Close the stream.
    End,
}

/// What one step of a stream does to the hub and to the viewer, and what is
/// pushed. A new viewer subscribes. A subscribed viewer is handed what waits
/// in its queue; once it is told that it missed samples, or finds its
/// subscription gone, the stream ends and the subscription is given up.
pub open spec fn stream_step(hub: HubState, viewer: Viewer) -> (HubState, Viewer, Push) {
    match viewer {
        Viewer::Connecting => if hub.issued < u64::MAX {
            (hub.subscribed(), Viewer::Subscribed(hub.issued as u64), Push::Idle)
        } else {
            (hub, Viewer::Gone, Push::End)
        },
        Viewer::Subscribed(id) => match hub.delivery(id) {
            Delivery::Metric(metric) => (hub.received(id), viewer, Push::Event(metric)),
            Delivery::Empty => (hub.received(id), viewer, Push::Idle),
            Delivery::Lagged(_) => (hub.received(id).unsubscribed(id), Viewer::Gone, Push::End),
            Delivery::Closed => (hub, Viewer::Gone, Push::End),
        },
        Viewer::Gone => (hub, viewer, Push::End),
    }
}

/// Makes one step of a viewer's stream: see [`stream_step`].
pub fn stream_metrics(state: &mut AppState, viewer: Viewer) -> (next: (Viewer, Push))
    ensures
        (final(state).tx@, next.0, next.1) == stream_step(old(state).tx@, viewer),
        final(state).metrics == old(state).metrics,
        final(state).knowledge == old(state).knowledge,
        final(state).brain == old(state).brain,
{
    match viewer {
        Viewer::Connecting => match state.tx.subscribe() {
            Some(id) => (Viewer::Subscribed(id), Push::Idle),
            None => (Viewer::Gone, Push::End),
        },
        Viewer::Subscribed(id) => match state.tx.receive(id) {
            Delivery::Metric(metric) => (Viewer::Subscribed(id), Push::Event(metric)),
            Delivery::Empty => (Viewer::Subscribed(id), Push::Idle),
            Delivery::Lagged(_) => {
                state.tx.unsubscribe(id);
                (Viewer::Gone, Push::End)
            },
            Delivery::Closed => (Viewer::Gone, Push::End),
        },
        Viewer::Gone => (Viewer::Gone, Push::End),
    }
}

/// The hub after a viewer's connection closed: its subscription, if it holds
/// one, is given up.
pub open spec fn close_step(hub: HubState, viewer: Viewer) -> HubState {
    match viewer {
        Viewer::Subscribed(id) => hub.unsubscribed(id),
        _ => hub,
    }
}

/// A viewer that connects and disconnects leaves the registry as it found
/// it, so that the next publication reaches as many subscribers as there were
/// before it came.
pub proof fn lemma_viewer_leaves_no_trace(hub: HubState, metric: SystemMetric)
    requires
        hub.well_formed(),
    ensures
        close_step(
            stream_step(hub, Viewer::Connecting).0,
            stream_step(hub, Viewer::Connecting).1,
        ).subscriptions == hub.subscriptions,
        close_step(
            stream_step(hub, Viewer::Connecting).0,
            stream_step(hub, Viewer::Connecting).1,
        ).published(metric).subscriptions.len() == hub.subscriptions.len(),
{
    if hub.issued < u64::MAX {
        lemma_disconnect_restores_count(hub, metric);
    }
}

/// Ends a viewer's stream when its connection closes: the subscription is
/// given up at once.
pub fn close_stream(state: &mut AppState, viewer: Viewer) -> (next: Viewer)
    ensures
        next == Viewer::Gone,
        final(state).tx@ == close_step(old(state).tx@, viewer),
        final(state).metrics == old(state).metrics,
        final(state).knowledge == old(state).knowledge,
        final(state).brain == old(state).brain,
{
    if let Viewer::Subscribed(id) = viewer {
        state.tx.unsubscribe(id);
    }
    Viewer::Gone
}

/// Adds documents to the knowledge base, in their order. It stops at the
/// first document whose embedding has not the store's dimension; those before
/// it stay stored.
pub fn seed_knowledge(state: &mut AppState, documents: Vec<Document>) -> (confirmed: Result<
    &'static str,
    StoreError,
>)
    ensures
        final(state).knowledge.dimension() == old(state).knowledge.dimension(),
        final(state).knowledge@ == old(state).knowledge@ + documents@.take(
            first_misfit(documents@, old(state).knowledge.dimension()),
        ),
        match confirmed {
            Ok(text) => text@ == SEEDED@ && first_misfit(
                documents@,
                old(state).knowledge.dimension(),
            ) == documents@.len(),
            Err(reason) => first_misfit(documents@, old(state).knowledge.dimension())
                < documents@.len() && reason == (StoreError::DimensionMismatch {
                expected: old(state).knowledge.dimension() as usize,
                found: documents@[first_misfit(
                    documents@,
                    old(state).knowledge.dimension(),
                )].embedding@.len() as usize,
            }),
        },
        final(state).metrics == old(state).metrics,
        final(state).tx == old(state).tx,
        final(state).brain == old(state).brain,
{
    match state.knowledge.extend(documents) {
        Ok(_) => Ok(SEEDED),
        Err(reason) => Err(reason),
    }
}

/// The texts of a list of documents.
pub open spec fn contents_of(documents: Seq<Document>) -> Seq<Seq<char>> {
    Seq::new(documents.len(), |at: int| documents[at].content@)
}

/// Texts joined into one, with [`CONTEXT_DELIMITER`] between each two.
pub open spec fn context_text(contents: Seq<Seq<char>>) -> Seq<char>
    decreases contents.len(),
{
    if contents.len() == 0 {
        Seq::empty()
    } else if contents.len() == 1 {
        contents[0]
    } else {
        context_text(contents.drop_last()) + CONTEXT_DELIMITER@ + contents.last()
    }
}

/// `part` stands somewhere in `whole`, unbroken.
pub open spec fn occurs_in(part: Seq<char>, whole: Seq<char>) -> bool {
    exists|start: int|
        0 <= start <= whole.len() - part.len() && #[trigger] whole.subrange(
            start,
            start + part.len(),
        ) == part
}

/// A text that stands in another stands in every text built around that one.
pub proof fn lemma_occurs_in_the_middle(
    part: Seq<char>,
    before: Seq<char>,
    whole: Seq<char>,
    after: Seq<char>,
)
    requires
        occurs_in(part, whole),
    ensures
        occurs_in(part, before + whole + after),
{
    let start = choose|start: int|
        0 <= start <= whole.len() - part.len() && #[trigger] whole.subrange(
            start,
            start + part.len(),
        ) == part;
    let around = before + whole + after;
    assert(around.subrange(before.len() + start, before.len() + start + part.len()) =~= part);
}

/// A context holds the text of each of its documents.
pub proof fn lemma_context_holds_each_content(contents: Seq<Seq<char>>, at: int)
    requires
        0 <= at < contents.len(),
    ensures
        occurs_in(contents[at], context_text(contents)),
    decreases contents.len(),
{
    let context = context_text(contents);
    if contents.len() == 1 {
        assert(context.subrange(0, 0int + contents[at].len()) =~= contents[at]);
    } else if at == contents.len() - 1 {
        let lead = context_text(contents.drop_last()) + CONTEXT_DELIMITER@;
        assert(context.subrange(lead.len() as int, lead.len() as int + contents[at].len())
            =~= contents[at]);
    } else {
        lemma_context_holds_each_content(contents.drop_last(), at);
        lemma_occurs_in_the_middle(
            contents[at],
            Seq::empty(),
            context_text(contents.drop_last()),
            CONTEXT_DELIMITER@ + contents.last(),
        );
        assert(Seq::<char>::empty() + context_text(contents.drop_last()) + (CONTEXT_DELIMITER@
            + contents.last()) =~= context);
    }
}

/// Joins the texts of the retrieved documents into the context of a prompt.
pub fn assemble_context(documents: &Vec<&Document>) -> (context: String)
    ensures
        context@ == context_text(contents_of(referents(documents@))),
{
    let ghost contents = contents_of(referents(documents@));
    let mut context = String::new();
    let mut at: usize = 0;
    while at < documents.len()
        invariant
            at <= documents@.len(),
            contents == contents_of(referents(documents@)),
            context@ == context_text(contents.take(at as int)),
        decreases documents@.len() - at,
    {
        proof {
            assert(contents.take(at + 1).drop_last() =~= contents.take(at as int));
        }
        if at > 0 {
            context.append(CONTEXT_DELIMITER);
        }
        context.append(documents[at].content.as_str());
        at = at + 1;
    }
    proof {
        assert(contents.take(at as int) =~= contents);
    }
    context
}

/// A stage of answering a question. The stages follow each other: the
/// question is embedded, then the generation service is called, then the
/// client is answered.
#[derive(Debug, PartialEq, Eq)]
pub enum Chat {
    /// A question arrived.
    Asked(ChatRequest),
    /// The embedding of the question is known.
    Embedded { question: String, vector: Vec<i32> },
    /// The call to the generation service has ended.
    Exchanged(Exchange),
}

/// What is to be done at a stage of answering a question.
#[derive(Debug, PartialEq, Eq)]
pub enum ChatAction {
    /// Embed this text and come back with [`Chat::Embedded`].
    Embed(String),
    /// Post `body`, which carries `prompt`, to `url` and come back with
    /// [`Chat::Exchanged`].
    Generate { url: String, prompt: String, body: String },
    /// Send this text to the client. It is either the answer of the
    /// generation service or, where `diagnostic` is set, a description of what
    /// went wrong.
    Respond { text: String, diagnostic: bool },
}

/// [`ChatAction`] over sequences of characters.
pub enum ChatActionModel {
    Embed(Seq<char>),
    Generate { url: Seq<char>, prompt: Seq<char>, body: Seq<char> },
    Respond { text: Seq<char>, diagnostic: bool },
}

impl View for ChatAction {
    type V = ChatActionModel;

    open spec fn view(&self) -> ChatActionModel {
        match self {
            ChatAction::Embed(text) => ChatActionModel::Embed(text@),
            ChatAction::Generate { url, prompt, body } => ChatActionModel::Generate {
                url: url@,
                prompt: prompt@,
                body: body@,
            },
            ChatAction::Respond { text, diagnostic } => ChatActionModel::Respond {
                text: text@,
                diagnostic: *diagnostic,
            },
        }
    }
}

/// The prompt for a question, given the knowledge base and the embedding of
/// the question: the [`NEIGHBOURS`] nearest documents make the context.
pub open spec fn question_prompt(
    knowledge: Seq<Document>,
    question: Seq<char>,
    vector: Seq<i32>,
) -> Seq<char> {
    prompt_text(
        context_text(contents_of(nearest_documents(knowledge, vector, NEIGHBOURS as nat))),
        question,
    )
}

/// The prompt for a question holds the text of every document that was
/// retrieved for it. So where the knowledge base is not empty, the generation
/// service is never called without a stored fact before it.
pub proof fn lemma_prompt_holds_what_was_retrieved(
    knowledge: Seq<Document>,
    question: Seq<char>,
    vector: Seq<i32>,
    rank: int,
)
    requires
        knowledge.len() <= usize::MAX,
        0 <= rank < nearest_documents(knowledge, vector, NEIGHBOURS as nat).len(),
    ensures
        0 < knowledge.len() ==> 0 < nearest_documents(knowledge, vector, NEIGHBOURS as nat).len(),
        nearest_positions(knowledge, vector, NEIGHBOURS as nat)[rank] < knowledge.len(),
        occurs_in(
            knowledge[nearest_positions(
                knowledge,
                vector,
                NEIGHBOURS as nat,
            )[rank] as int].content@,
            question_prompt(knowledge, question, vector),
        ),
{
    lemma_nearest_documents(knowledge, vector, NEIGHBOURS as nat);
    let retrieved = nearest_documents(knowledge, vector, NEIGHBOURS as nat);
    let contents = contents_of(retrieved);
    lemma_context_holds_each_content(contents, rank);
    lemma_occurs_in_the_middle(
        contents[rank],
        PROMPT_HEAD@,
        context_text(contents),
        PROMPT_MIDDLE@ + question,
    );
    assert(PROMPT_HEAD@ + context_text(contents) + (PROMPT_MIDDLE@ + question)
        =~= question_prompt(knowledge, question, vector));
}

/// What is to be done at each stage of answering a question. Every failure
/// ends in a text for the client.
pub open spec fn chat_step(
    knowledge: Seq<Document>,
    dimension: nat,
    key: Seq<char>,
    chat: Chat,
) -> ChatActionModel {
    match chat {
        Chat::Asked(request) => ChatActionModel::Embed(request.question@),
        Chat::Embedded { question, vector } => if vector@.len() == dimension {
            ChatActionModel::Generate {
                url: ENDPOINT@ + key,
                prompt: question_prompt(knowledge, question@, vector@),
                body: envelope_text(
                    written(Json::String(question_prompt(knowledge, question@, vector@))),
                ),
            }
        } else {
            ChatActionModel::Respond { text: RETRIEVAL_ERROR@, diagnostic: true }
        },
        Chat::Exchanged(exchange) => ChatActionModel::Respond {
            text: reply_text(reply_of_exchange(exchange)),
            diagnostic: !(reply_of_exchange(exchange) is Answer),
        },
    }
}

/// An error of the generation service reaches the client. Where the body of
/// the response is a document without a candidate text whose error message is
/// a string of characters that stand for themselves, the client is handed a
/// diagnostic that holds the message, whole and between quotation marks.
pub proof fn lemma_error_message_reaches_the_client(
    knowledge: Seq<Document>,
    dimension: nat,
    key: Seq<char>,
    body: Vec<u8>,
    document: Json,
    message: Seq<char>,
)
    requires
        json_document(body@) == Some(document),
        candidate_text(document) is None,
        error_node(document) == Some(Json::String(message)),
        is_plain(message),
    ensures
        chat_step(knowledge, dimension, key, Chat::Exchanged(Exchange::Replied(body)))
            == (ChatActionModel::Respond { text: API_ERROR@ + quoted(message), diagnostic: true }),
        occurs_in(message, API_ERROR@ + quoted(message)),
{
    let text = API_ERROR@ + quoted(message);
    let start = API_ERROR@.len() as int + 1;
    assert(text.subrange(start, start + message.len()) =~= message);
}

/// Makes one step of answering a question: see [`chat_step`].
pub fn chat_handler(state: &AppState, chat: Chat) -> (action: ChatAction)
    ensures
        action@ == chat_step(
            state.knowledge@,
            state.knowledge.dimension(),
            state.brain.key(),
            chat,
        ),
{
    match chat {
        Chat::Asked(request) => ChatAction::Embed(request.question),
        Chat::Embedded { question, vector } => match state.knowledge.nearest(&vector, NEIGHBOURS) {
            Ok(documents) => {
                let context = assemble_context(&documents);
                let prompt = Brain::prompt(context.as_str(), question.as_str());
                let body = Brain::request_body(prompt.as_str());
                ChatAction::Generate { url: state.brain.endpoint(), prompt, body }
            },
            Err(_) => ChatAction::Respond {
                text: String::from_str(RETRIEVAL_ERROR),
                diagnostic: true,
            },
        },
        Chat::Exchanged(exchange) => {
            let reply = Brain::interpret(&exchange);
            ChatAction::Respond { text: reply.text(), diagnostic: !reply.is_answer() }
        },
    }
}

} // verus!
