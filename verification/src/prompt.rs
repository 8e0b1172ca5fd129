//! Our prompt data type.

use vstd::prelude::*;
use std::marker::PhantomData;
use crate::json::{clone_members, to_serde_value, Json, JsonObject, JsonView};
use crate::text::texts_of;
use crate::schema::Schema;
use crate::text::{decimal_digits, push_decimal};

verus! {

/// Super-type of allowable prompt states. The state of a prompt is part of
/// its type, so that a rendered prompt cannot be rendered again and a template
/// cannot be sent to a driver.
pub trait PromptState {

}

/// The state for a prompt that is still a template, which needs to be rendered.
#[derive(Debug)]
pub struct Template;

impl PromptState for Template {

}

/// The state for a prompt that has been rendered.
#[derive(Debug)]
pub struct Rendered;

impl PromptState for Rendered {

}

/// A message, and optionally a response (represented as a JSON value).
#[derive(Debug)]
pub enum Message {
    /// A user message.
    User {
        /// Text provided by the user.
        text: Option<String>,
        /// Images to include with the user message, provided as URLs.
        images: Vec<String>,
    },
    /// An assistant message.
    Assistant {
        /// The assistant response. This is always a JSON value.
        json: Json,
    },
}

/// A chat completion prompt.
#[derive(Debug)]
pub struct ChatPrompt<State: PromptState = Template> {
    /// The developer (aka "system") message, if any.
    pub developer: Option<String>,
    /// Our schema.
    pub response_schema: Schema,
    /// Messages.
    pub messages: Vec<Message>,
    /// Zero-size placeholder that carries the state in the type. It is
    /// public because the contracts of the drivers read the fields of a
    /// prompt, which Verus allows outside this module only where every field
    /// is public. The way to a rendered prompt is `fill`.
    pub _phantom: PhantomData<State>,
}

/// What is wrong with the messages of a prompt.
#[derive(Debug, Clone, Copy, PartialEq, Eq, Structural)]
pub enum PromptError {
    /// The prompt has no message.
    NoMessages,
    /// The user message at `index` has neither text nor images.
    EmptyUserMessage { index: usize },
    /// The message at `index` is of the wrong kind: user and assistant
    /// messages alternate, starting with a user message.
    NotAlternating { index: usize },
    /// The last message is an assistant message.
    MustEndWithUser,
}

impl PromptError {
    /// The sentence that `message` returns.
    pub open spec fn message_spec(&self) -> Seq<char> {
        match self {
            PromptError::NoMessages => "No messages in prompt"@,
            PromptError::EmptyUserMessage { index } =>
                "User message must have either text or images, found neither in message "@
                    + decimal_digits(*index as nat),
            PromptError::NotAlternating { index } =>
                "Expected alternating user and assistant messages in prompt, found message "@
                    + decimal_digits(*index as nat),
            PromptError::MustEndWithUser => "Prompt must end with a user message"@,
        }
    }

    /// A sentence that describes the error.
    pub fn message(&self) -> (s: String)
        ensures
            s@ == self.message_spec(),
    {
        match self {
            PromptError::NoMessages => String::from_str("No messages in prompt"),
            PromptError::EmptyUserMessage { index } => {
                let mut s = String::from_str(
                    "User message must have either text or images, found neither in message ",
                );
                push_decimal(&mut s, *index as u64);
                s
            },
            PromptError::NotAlternating { index } => {
                let mut s = String::from_str(
                    "Expected alternating user and assistant messages in prompt, found message ",
                );
                push_decimal(&mut s, *index as u64);
                s
            },
            PromptError::MustEndWithUser => String::from_str("Prompt must end with a user message"),
        }
    }
}

/// Whether a message has something to say: a user message has a text or at
/// least one image; an assistant message always has its JSON value.
pub open spec fn has_content(message: Message) -> bool {
    match message {
        Message::User { text, images } => text.is_some() || images@.len() > 0,
        Message::Assistant { .. } => true,
    }
}

/// The order that a prompt must have: user and assistant messages alternate,
/// the first and the last message are user messages, and every user message
/// has a text or an image.
pub open spec fn well_ordered(messages: Seq<Message>) -> bool {
    &&& messages.len() % 2 == 1
    &&& forall|i: int|
        0 <= i < messages.len() ==> has_content(#[trigger] messages[i]) && (if i % 2 == 0 {
            messages[i] is User
        } else {
            messages[i] is Assistant
        })
}

/// What is wrong with the message `message` at `index`, if anything. An empty
/// user message is reported as such wherever it stands.
pub open spec fn message_fault(message: Message, index: int) -> Option<PromptError> {
    if !has_content(message) {
        Some(PromptError::EmptyUserMessage { index: index as usize })
    } else if (message is User) == (index % 2 == 0) {
        None
    } else {
        Some(PromptError::NotAlternating { index: index as usize })
    }
}

/// The fault of the first faulty message at or after `from`.
pub open spec fn first_fault(messages: Seq<Message>, from: int) -> Option<PromptError>
    decreases messages.len() - from,
{
    if from < 0 || from >= messages.len() {
        None
    } else {
        match message_fault(messages[from], from) {
            Some(e) => Some(e),
            None => first_fault(messages, from + 1),
        }
    }
}

/// The verdict on the messages of a prompt: the first fault found, looking
/// for an empty prompt, then at each message in turn, then at the last one.
pub open spec fn validate_spec(messages: Seq<Message>) -> Result<(), PromptError> {
    if messages.len() == 0 {
        Err(PromptError::NoMessages)
    } else {
        match first_fault(messages, 0) {
            Some(e) => Err(e),
            None => if messages.len() % 2 == 0 {
                Err(PromptError::MustEndWithUser)
            } else {
                Ok(())
            },
        }
    }
}

/// No message at or after `from` is faulty exactly where `first_fault` finds
/// none.
pub proof fn lemma_first_fault(messages: Seq<Message>, from: int)
    requires
        0 <= from,
    ensures
        first_fault(messages, from).is_none() <==> forall|i: int|
            from <= i < messages.len() ==> message_fault(#[trigger] messages[i], i).is_none(),
    decreases messages.len() - from,
{
    if from < messages.len() {
        lemma_first_fault(messages, from + 1);
        if message_fault(messages[from], from).is_none() {
            if first_fault(messages, from + 1).is_none() {
                assert forall|i: int| from <= i < messages.len() implies message_fault(
                    #[trigger] messages[i],
                    i,
                ).is_none() by {
                    if i > from {
                    }
                }
            } else {
                let w = choose|i: int|
                    from + 1 <= i < messages.len() && !message_fault(
                        #[trigger] messages[i],
                        i,
                    ).is_none();
                assert(from <= w < messages.len());
            }
        }
    }
}

/// The messages pass exactly where they are well ordered.
pub proof fn lemma_validate_well_ordered(messages: Seq<Message>)
    ensures
        validate_spec(messages) is Ok <==> well_ordered(messages),
{
    lemma_first_fault(messages, 0);
    if validate_spec(messages) is Ok {
        assert forall|i: int| 0 <= i < messages.len() implies has_content(#[trigger] messages[i])
            && (if i % 2 == 0 {
            messages[i] is User
        } else {
            messages[i] is Assistant
        }) by {
            assert(message_fault(messages[i], i).is_none());
        }
    }
    if well_ordered(messages) {
        assert forall|i: int| 0 <= i < messages.len() implies message_fault(
            #[trigger] messages[i],
            i,
        ).is_none() by {
            assert(has_content(messages[i]));
        }
    }
}

/// Check the order of `messages`.
pub fn validate_messages(messages: &Vec<Message>) -> (r: Result<(), PromptError>)
    ensures
        r == validate_spec(messages@),
        r is Ok <==> well_ordered(messages@),
{
    proof {
        lemma_validate_well_ordered(messages@);
    }
    if messages.len() == 0 {
        return Err(PromptError::NoMessages);
    }
    let mut expect_user_message = true;
    let mut i: usize = 0;
    while i < messages.len()
        invariant
            i <= messages.len(),
            expect_user_message == (i % 2 == 0),
            first_fault(messages@, 0) == first_fault(messages@, i as int),
        decreases messages.len() - i,
    {
        let is_user = match &messages[i] {
            Message::User { text, images } => {
                if text.is_none() && images.len() == 0 {
                    return Err(PromptError::EmptyUserMessage { index: i });
                }
                true
            },
            Message::Assistant { .. } => false,
        };
        if is_user != expect_user_message {
            return Err(PromptError::NotAlternating { index: i });
        }
        expect_user_message = !expect_user_message;
        i += 1;
    }
    if messages.len() % 2 == 0 {
        return Err(PromptError::MustEndWithUser);
    }
    Ok(())
}

impl<State: PromptState> ChatPrompt<State> {
    /// The messages are in the order that a driver expects.
    pub open spec fn wf(&self) -> bool {
        well_ordered(self.messages@)
    }
}

impl ChatPrompt<Template> {
    /// A prompt template made of its parts.
    pub fn new(developer: Option<String>, response_schema: Schema, messages: Vec<Message>) -> (p:
        Self)
        ensures
            p.developer == developer,
            p.response_schema == response_schema,
            p.messages == messages,
    {
        ChatPrompt { developer, response_schema, messages, _phantom: PhantomData }
    }

    /// Make sure our messages appear in the order ((user, assistant)*, user).
    pub fn validate(&self) -> (r: Result<(), PromptError>)
        ensures
            r == validate_spec(self.messages@),
            r is Ok <==> self.wf(),
    {
        validate_messages(&self.messages)
    }
}

} // verus!

verus! {

/// The template registry of the `handlebars` crate.
#[verifier::external_type_specification]
#[verifier::external_body]
pub struct ExHandlebars<'reg>(handlebars::Handlebars<'reg>);

/// Renders `template` with `Handlebars::render_template` against `bindings`;
/// an error is handed on as its text. What comes back depends on the helpers
/// of the registry, which may read files, so nothing is claimed of it.
#[verifier::external_body]
fn render_template_text(
    handlebars: &handlebars::Handlebars<'static>,
    template: &str,
    bindings: &serde_json::Value,
) -> Result<String, String> {
    handlebars.render_template(template, bindings).map_err(|err| err.to_string())
}

/// Why a prompt could not be rendered.
#[derive(Debug, PartialEq, Eq)]
pub enum RenderError {
    /// The messages of the template are not in order.
    Invalid { error: PromptError },
    /// A template of the prompt could not be rendered.
    Template { message: String },
}

impl RenderError {
    /// A sentence that describes the error.
    pub fn message(&self) -> (s: String)
        ensures
            match self {
                RenderError::Invalid { error } => s@ == error.message_spec(),
                RenderError::Template { message } => s@ == "Could not render prompt: "@ + message@,
            },
    {
        match self {
            RenderError::Invalid { error } => error.message(),
            RenderError::Template { message } => {
                let mut s = String::from_str("Could not render prompt: ");
                s.append(message.as_str());
                s
            },
        }
    }
}

/// The complaint about a template that could not be rendered: the template,
/// the names of the bindings, and what the renderer said.
pub open spec fn render_failure_text(
    template: Seq<char>,
    bindings: Seq<(String, Json)>,
    reason: Seq<char>,
) -> Seq<char> {
    "Error rendering template \""@ + template + "\" with bindings: ["@ + crate::text::join_spec(
        Seq::new(bindings.len(), |i: int| bindings[i].0@),
        ", "@,
    ) + "]: "@ + reason
}

fn render_failure(template: &str, bindings: &Vec<(String, Json)>, reason: &str) -> (e: RenderError)
    ensures
        e matches RenderError::Template { message } && message@ == render_failure_text(
            template@,
            bindings@,
            reason@,
        ),
{
    let mut keys: Vec<String> = Vec::new();
    let mut i: usize = 0;
    while i < bindings.len()
        invariant
            i <= bindings@.len(),
            keys@.len() == i,
            forall|k: int| 0 <= k < i ==> (#[trigger] keys@[k])@ == bindings@[k].0@,
        decreases bindings.len() - i,
    {
        keys.push(bindings[i].0.clone());
        i += 1;
    }
    assert(crate::text::texts_of(keys@) =~= Seq::new(bindings@.len(), |i: int| bindings@[i].0@));
    let mut message = String::from_str("Error rendering template \"");
    message.append(template);
    message.append("\" with bindings: [");
    message.append(crate::text::join_strings(&keys, ", ").as_str());
    message.append("]: ");
    message.append(reason);
    RenderError::Template { message }
}

/// Everything that rendering needs besides the template: the registry, the
/// bindings as the renderer takes them, and the bindings themselves for
/// complaints.
struct RenderContext<'a> {
    /// The registry with its helpers.
    handlebars: &'a handlebars::Handlebars<'static>,
    /// The bindings as a `serde_json` value.
    data: serde_json::Value,
    /// The bindings.
    bindings: &'a Vec<(String, Json)>,
}

fn render_text(context: &RenderContext<'_>, template: &str) -> (r: Result<String, RenderError>)
    ensures
        r matches Err(e) ==> e is Template,
        r matches Err(e) ==> (e matches RenderError::Template { message } && exists|
            reason: Seq<char>,
        |
            message@ == #[trigger] render_failure_text(template@, context.bindings@, reason)),
{
    let outcome = render_template_text(context.handlebars, template, &context.data);
    render_outcome(template, context.bindings, outcome)
}

/// What rendering a template comes to, given what the renderer handed back:
/// its text as it is, or, for a failure, the complaint that names the
/// template, the bindings and what the renderer said.
pub fn render_outcome(
    template: &str,
    bindings: &Vec<(String, Json)>,
    outcome: Result<String, String>,
) -> (r: Result<String, RenderError>)
    ensures
        match outcome {
            Ok(text) => r == Ok::<String, RenderError>(text),
            Err(reason) => r matches Err(RenderError::Template { message }) && message@
                == render_failure_text(template@, bindings@, reason@),
        },
{
    match outcome {
        Ok(text) => Ok(text),
        Err(reason) => Err(render_failure(template, bindings, reason.as_str())),
    }
}

/// The strings of a JSON value that are templates, in the order in which
/// they are rendered: every string, and the name of every member of an object
/// before the value of the member.
pub open spec fn json_templates(value: JsonView) -> Seq<Seq<char>>
    decreases value, 1int,
{
    match value {
        JsonView::Text(s) => seq![s],
        JsonView::Array(items) => items_templates(items),
        JsonView::Object(members) => members_templates(members),
        _ => Seq::empty(),
    }
}

/// The templates of the items of an array, item after item.
pub open spec fn items_templates(items: Seq<JsonView>) -> Seq<Seq<char>>
    decreases items, 0int,
{
    if items.len() == 0 {
        Seq::empty()
    } else {
        items_templates(items.drop_last()) + json_templates(items.last())
    }
}

/// The templates of the members of an object, member after member: the name
/// and then the templates of the value.
pub open spec fn members_templates(members: Seq<(Seq<char>, JsonView)>) -> Seq<Seq<char>>
    decreases members, 0int,
{
    if members.len() == 0 {
        Seq::empty()
    } else {
        members_templates(members.drop_last()) + seq![members.last().0] + json_templates(
            members.last().1,
        )
    }
}

/// The templates of a message: of a user message its text, where it has one,
/// and then its images; of an assistant message the templates of its JSON.
pub open spec fn message_templates(message: MessageView) -> Seq<Seq<char>> {
    match message {
        MessageView::User { text, images } => (match text {
            Some(t) => seq![t],
            None => Seq::empty(),
        }) + images,
        MessageView::Assistant { json } => json_templates(json),
    }
}

/// The templates of messages, message after message.
pub open spec fn messages_templates(messages: Seq<MessageView>) -> Seq<Seq<char>>
    decreases messages.len(),
{
    if messages.len() == 0 {
        Seq::empty()
    } else {
        messages_templates(messages.drop_last()) + message_templates(messages.last())
    }
}

/// Everything in a prompt that is rendered, in the order in which it is
/// rendered: the developer message, and then the templates of the messages.
pub open spec fn templates_of(prompt: PromptView) -> Seq<Seq<char>> {
    (match prompt.developer {
        Some(d) => seq![d],
        None => Seq::empty(),
    }) + messages_templates(prompt.messages)
}

/// The text that takes the place of the template at `place`: the text at
/// that place, or the template itself where there is no such text.
pub open spec fn text_at(texts: Seq<Seq<char>>, place: int, template: Seq<char>) -> Seq<char> {
    if 0 <= place < texts.len() {
        texts[place]
    } else {
        template
    }
}

/// A JSON value with its templates replaced by the texts from `from` on.
pub open spec fn filled_json(value: JsonView, texts: Seq<Seq<char>>, from: int) -> JsonView
    decreases value, 1int,
{
    match value {
        JsonView::Text(s) => JsonView::Text(text_at(texts, from, s)),
        JsonView::Array(items) => JsonView::Array(filled_items(items, texts, from)),
        JsonView::Object(members) => JsonView::Object(filled_members(members, texts, from)),
        _ => value,
    }
}

/// The items of an array with their templates replaced by the texts from
/// `from` on.
pub open spec fn filled_items(items: Seq<JsonView>, texts: Seq<Seq<char>>, from: int) -> Seq<
    JsonView,
>
    decreases items, 0int,
{
    if items.len() == 0 {
        Seq::empty()
    } else {
        filled_items(items.drop_last(), texts, from).push(
            filled_json(items.last(), texts, from + items_templates(items.drop_last()).len()),
        )
    }
}

/// The members of an object with their templates replaced by the texts from
/// `from` on.
pub open spec fn filled_members(
    members: Seq<(Seq<char>, JsonView)>,
    texts: Seq<Seq<char>>,
    from: int,
) -> Seq<(Seq<char>, JsonView)>
    decreases members, 0int,
{
    if members.len() == 0 {
        Seq::empty()
    } else {
        let place = from + members_templates(members.drop_last()).len();
        filled_members(members.drop_last(), texts, from).push(
            (
                text_at(texts, place, members.last().0),
                filled_json(members.last().1, texts, place + 1),
            ),
        )
    }
}

/// A message with its templates replaced by the texts from `from` on.
pub open spec fn filled_message(message: MessageView, texts: Seq<Seq<char>>, from: int)
    -> MessageView {
    match message {
        MessageView::User { text, images } => MessageView::User {
            text: match text {
                Some(t) => Some(text_at(texts, from, t)),
                None => None,
            },
            images: Seq::new(
                images.len(),
                |i: int|
                    text_at(
                        texts,
                        from + (if text.is_some() {
                            1int
                        } else {
                            0int
                        }) + i,
                        images[i],
                    ),
            ),
        },
        MessageView::Assistant { json } => MessageView::Assistant {
            json: filled_json(json, texts, from),
        },
    }
}

/// Messages with their templates replaced by the texts from `from` on.
pub open spec fn filled_messages(messages: Seq<MessageView>, texts: Seq<Seq<char>>, from: int)
    -> Seq<MessageView> {
    Seq::new(
        messages.len(),
        |i: int|
            filled_message(messages[i], texts, from + messages_templates(messages.take(i)).len()),
    )
}

/// A prompt with the template at each place replaced by the text at that
/// place. Nothing else changes.
pub open spec fn filled(prompt: PromptView, texts: Seq<Seq<char>>) -> PromptView {
    PromptView {
        developer: match prompt.developer {
            Some(d) => Some(text_at(texts, 0, d)),
            None => None,
        },
        response_schema: prompt.response_schema,
        messages: filled_messages(
            prompt.messages,
            texts,
            if prompt.developer.is_some() {
                1
            } else {
                0
            },
        ),
    }
}

/// The lesser of a place and the number of texts.
pub open spec fn capped_place(place: int, count: int) -> int {
    if place < count {
        place
    } else {
        count
    }
}

fn push_json_templates(json: &Json, out: &mut Vec<String>)
    ensures
        texts_of(final(out)@) == texts_of(old(out)@) + json_templates(json@),
    decreases json,
{
    let ghost start = texts_of(out@);
    match json {
        Json::Text(s) => {
            out.push(s.clone());
            assert(texts_of(out@) =~= start + seq![s@]);
        },
        Json::Array(items) => {
            let ghost views = crate::json::items_view(items@);
            proof {
                crate::json::lemma_items_view(items@);
                assert(views.take(0) =~= Seq::empty());
                assert(start + Seq::<Seq<char>>::empty() =~= start);
            }
            let mut i: usize = 0;
            while i < items.len()
                invariant
                    i <= items@.len(),
                    *json == Json::Array(*items),
                    views == crate::json::items_view(items@),
                    views.len() == items@.len(),
                    forall|k: int|
                        0 <= k < items@.len() ==> #[trigger] views[k] == crate::json::json_view(
                            items@[k],
                        ),
                    texts_of(out@) == start + items_templates(views.take(i as int)),
                decreases items.len() - i,
            {
                proof {
                    assert(decreases_to!(*json => json->Array_0));
                    assert(decreases_to!(*items => items[i as int]));
                    assert(views.take(i + 1).drop_last() =~= views.take(i as int));
                    assert(views.take(i + 1).last() == views[i as int]);
                }
                let ghost before = texts_of(out@);
                push_json_templates(&items[i], out);
                proof {
                    assert(texts_of(out@) =~= start + items_templates(views.take(i + 1)));
                }
                i += 1;
            }
            assert(views.take(items@.len() as int) =~= views);
        },
        Json::Object(members) => {
            let ghost views = crate::json::members_view(members@);
            proof {
                crate::json::lemma_members_view(members@);
                assert(views.take(0) =~= Seq::empty());
                assert(start + Seq::<Seq<char>>::empty() =~= start);
            }
            let mut i: usize = 0;
            while i < members.len()
                invariant
                    i <= members@.len(),
                    *json == Json::Object(*members),
                    views == crate::json::members_view(members@),
                    views.len() == members@.len(),
                    forall|k: int|
                        0 <= k < members@.len() ==> #[trigger] views[k] == (
                            members@[k].0@,
                            crate::json::json_view(members@[k].1),
                        ),
                    texts_of(out@) == start + members_templates(views.take(i as int)),
                decreases members.len() - i,
            {
                proof {
                    assert(decreases_to!(*json => json->Object_0));
                    assert(decreases_to!(*members => members[i as int]));
                    assert(decreases_to!(members[i as int] => members[i as int].1));
                    assert(views.take(i + 1).drop_last() =~= views.take(i as int));
                    assert(views.take(i + 1).last() == views[i as int]);
                }
                let ghost before = texts_of(out@);
                out.push(members[i].0.clone());
                assert(texts_of(out@) =~= before + seq![members@[i as int].0@]);
                push_json_templates(&members[i].1, out);
                proof {
                    assert(texts_of(out@) =~= start + members_templates(views.take(i + 1)));
                }
                i += 1;
            }
            assert(views.take(members@.len() as int) =~= views);
        },
        _ => {
            assert(start + Seq::<Seq<char>>::empty() =~= start);
        },
    }
}

fn take_text(template: &String, texts: &Vec<String>, at: usize, Ghost(from): Ghost<int>) -> (r: (
    String,
    usize,
))
    requires
        from >= 0,
        at == capped_place(from, texts@.len() as int),
    ensures
        r.0@ == text_at(texts_of(texts@), from, template@),
        r.1 == capped_place(from + 1, texts@.len() as int),
{
    if at < texts.len() {
        (texts[at].clone(), at + 1)
    } else {
        (template.clone(), at)
    }
}

fn fill_json(json: &Json, texts: &Vec<String>, at: usize, Ghost(from): Ghost<int>) -> (r: (
    Json,
    usize,
))
    requires
        from >= 0,
        at == capped_place(from, texts@.len() as int),
    ensures
        r.0@ == filled_json(json@, texts_of(texts@), from),
        r.1 == capped_place(from + json_templates(json@).len(), texts@.len() as int),
    decreases json,
{
    let ghost all = texts_of(texts@);
    match json {
        Json::Text(s) => {
            let (text, next) = take_text(s, texts, at, Ghost(from));
            (Json::Text(text), next)
        },
        Json::Array(items) => {
            let ghost views = crate::json::items_view(items@);
            proof {
                crate::json::lemma_items_view(items@);
                assert(views.take(0) =~= Seq::empty());
            }
            let mut output: Vec<Json> = Vec::new();
            let mut place = at;
            let mut i: usize = 0;
            while i < items.len()
                invariant
                    i <= items@.len(),
                    from >= 0,
                    all == texts_of(texts@),
                    *json == Json::Array(*items),
                    views == crate::json::items_view(items@),
                    views.len() == items@.len(),
                    forall|k: int|
                        0 <= k < items@.len() ==> #[trigger] views[k] == crate::json::json_view(
                            items@[k],
                        ),
                    crate::json::items_view(output@) == filled_items(
                        views.take(i as int),
                        all,
                        from,
                    ),
                    place == capped_place(
                        from + items_templates(views.take(i as int)).len(),
                        texts@.len() as int,
                    ),
                decreases items.len() - i,
            {
                proof {
                    assert(decreases_to!(*json => json->Array_0));
                    assert(decreases_to!(*items => items[i as int]));
                    assert(views.take(i + 1).drop_last() =~= views.take(i as int));
                    assert(views.take(i + 1).last() == views[i as int]);
                }
                let ghost here = from + items_templates(views.take(i as int)).len();
                let (item, next) = fill_json(&items[i], texts, place, Ghost(here));
                let ghost before = output@;
                output.push(item);
                proof {
                    assert(output@.drop_last() =~= before);
                }
                place = next;
                i += 1;
            }
            assert(views.take(items@.len() as int) =~= views);
            (Json::Array(output), place)
        },
        Json::Object(members) => {
            let ghost views = crate::json::members_view(members@);
            proof {
                crate::json::lemma_members_view(members@);
                assert(views.take(0) =~= Seq::empty());
            }
            let mut output: Vec<(String, Json)> = Vec::new();
            let mut place = at;
            let mut i: usize = 0;
            while i < members.len()
                invariant
                    i <= members@.len(),
                    from >= 0,
                    all == texts_of(texts@),
                    *json == Json::Object(*members),
                    views == crate::json::members_view(members@),
                    views.len() == members@.len(),
                    forall|k: int|
                        0 <= k < members@.len() ==> #[trigger] views[k] == (
                            members@[k].0@,
                            crate::json::json_view(members@[k].1),
                        ),
                    crate::json::members_view(output@) == filled_members(
                        views.take(i as int),
                        all,
                        from,
                    ),
                    place == capped_place(
                        from + members_templates(views.take(i as int)).len(),
                        texts@.len() as int,
                    ),
                decreases members.len() - i,
            {
                proof {
                    assert(decreases_to!(*json => json->Object_0));
                    assert(decreases_to!(*members => members[i as int]));
                    assert(decreases_to!(members[i as int] => members[i as int].1));
                    assert(views.take(i + 1).drop_last() =~= views.take(i as int));
                    assert(views.take(i + 1).last() == views[i as int]);
                }
                let ghost here = from + members_templates(views.take(i as int)).len();
                let (key, after_key) = take_text(&members[i].0, texts, place, Ghost(here));
                let (value, next) = fill_json(&members[i].1, texts, after_key, Ghost(here + 1));
                let ghost before = output@;
                output.push((key, value));
                proof {
                    assert(output@.drop_last() =~= before);
                }
                place = next;
                i += 1;
            }
            assert(views.take(members@.len() as int) =~= views);
            (Json::Object(output), place)
        },
        other => {
            assert(from + 0 == from);
            (other.clone(), at)
        },
    }
}

fn fill_message(message: &Message, texts: &Vec<String>, at: usize, Ghost(from): Ghost<int>) -> (r:
    (Message, usize))
    requires
        from >= 0,
        at == capped_place(from, texts@.len() as int),
    ensures
        r.0@ == filled_message(message@, texts_of(texts@), from),
        r.1 == capped_place(from + message_templates(message@).len(), texts@.len() as int),
        r.0 is User <==> *message is User,
        has_content(*message) ==> has_content(r.0),
{
    match message {
        Message::User { text, images } => {
            let ghost lead: int = if text.is_some() { 1 } else { 0 };
            let (filled_text, first_image) = match text {
                Some(text) => {
                    let (filled_text, next) = take_text(text, texts, at, Ghost(from));
                    (Some(filled_text), next)
                },
                None => (None, at),
            };
            let mut filled_images: Vec<String> = Vec::new();
            let mut place = first_image;
            let mut i: usize = 0;
            while i < images.len()
                invariant
                    i <= images@.len(),
                    from >= 0,
                    0 <= lead <= 1,
                    filled_images@.len() == i,
                    forall|k: int|
                        0 <= k < i ==> (#[trigger] filled_images@[k])@ == text_at(
                            texts_of(texts@),
                            from + lead + k,
                            images@[k]@,
                        ),
                    place == capped_place(from + lead + i, texts@.len() as int),
                decreases images.len() - i,
            {
                let (image, next) = take_text(&images[i], texts, place, Ghost(from + lead + i));
                filled_images.push(image);
                place = next;
                i += 1;
            }
            let filled = Message::User { text: filled_text, images: filled_images };
            proof {
                assert(filled@->User_images =~= filled_message(
                    message@,
                    texts_of(texts@),
                    from,
                )->User_images);
                assert(message_templates(message@).len() == lead + images@.len());
            }
            (filled, place)
        },
        Message::Assistant { json } => {
            let (filled_json, next) = fill_json(json, texts, at, Ghost(from));
            (Message::Assistant { json: filled_json }, next)
        },
    }
}

/// Messages of the same kinds, with content wherever the first have content,
/// are in order where the first are.
pub proof fn lemma_same_kinds_keep_order(templates: Seq<Message>, rendered: Seq<Message>)
    requires
        well_ordered(templates),
        templates.len() == rendered.len(),
        forall|i: int|
            0 <= i < templates.len() ==> ((#[trigger] rendered[i]) is User <==> templates[i] is User)
                && (has_content(templates[i]) ==> has_content(rendered[i])),
    ensures
        well_ordered(rendered),
{
    assert forall|i: int| 0 <= i < rendered.len() implies has_content(#[trigger] rendered[i]) && (
    if i % 2 == 0 {
        rendered[i] is User
    } else {
        rendered[i] is Assistant
    }) by {
        assert(has_content(templates[i]));
    }
}

/// What `render` may return after the renderer gave `outcomes` for the first
/// templates of a prompt, one after the other.
///
/// Rendering ends with the first failure: its complaint, which names the
/// template, the bindings and what the renderer said, is the error. Where
/// every template was rendered, the result is the prompt filled with what
/// the renderer gave.
pub open spec fn rendered_as(
    template: PromptView,
    bindings: Seq<(String, Json)>,
    outcomes: Seq<Result<Seq<char>, Seq<char>>>,
    r: Result<ChatPrompt<Rendered>, RenderError>,
) -> bool {
    let templates = templates_of(template);
    &&& outcomes.len() <= templates.len()
    &&& forall|k: int| 0 <= k < outcomes.len() - 1 ==> (#[trigger] outcomes[k]) is Ok
    &&& if outcomes.len() > 0 && outcomes.last() is Err {
        r matches Err(RenderError::Template { message }) && message@ == render_failure_text(
            templates[outcomes.len() - 1],
            bindings,
            outcomes.last()->Err_0,
        )
    } else {
        outcomes.len() == templates.len() && (r matches Ok(prompt) && prompt.file_view() == filled(
            template,
            Seq::new(outcomes.len(), |k: int| outcomes[k]->Ok_0),
        ))
    }
}

impl ChatPrompt<Template> {
    /// Everything in this prompt that is rendered, in the order in which it
    /// is rendered: the developer message; of each user message its text and
    /// then its images; of each assistant message every string of its JSON,
    /// the name of a member before the value of the member.
    pub fn template_texts(&self) -> (texts: Vec<String>)
        ensures
            texts_of(texts@) == templates_of(self.file_view()),
    {
        let mut texts: Vec<String> = Vec::new();
        match &self.developer {
            Some(developer) => {
                texts.push(developer.clone());
            },
            None => {},
        }
        let ghost lead = texts_of(texts@);
        let ghost views = messages_view(self.messages@);
        proof {
            assert(views.take(0) =~= Seq::empty());
            assert(lead + Seq::<Seq<char>>::empty() =~= lead);
        }
        let mut i: usize = 0;
        while i < self.messages.len()
            invariant
                i <= self.messages@.len(),
                views == messages_view(self.messages@),
                lead == (match self.developer {
                    Some(d) => seq![d@],
                    None => Seq::empty(),
                }),
                texts_of(texts@) == lead + messages_templates(views.take(i as int)),
            decreases self.messages.len() - i,
        {
            proof {
                assert(views.take(i + 1).drop_last() =~= views.take(i as int));
                assert(views.take(i + 1).last() == self.messages@[i as int]@);
            }
            let ghost before = texts_of(texts@);
            match &self.messages[i] {
                Message::User { text, images } => {
                    match text {
                        Some(text) => {
                            texts.push(text.clone());
                        },
                        None => {},
                    }
                    let ghost with_text = texts_of(texts@);
                    assert(with_text =~= before + (match *text {
                        Some(t) => seq![t@],
                        None => Seq::empty(),
                    }));
                    let mut j: usize = 0;
                    while j < images.len()
                        invariant
                            j <= images@.len(),
                            texts_of(texts@) == with_text + texts_of(images@).take(j as int),
                        decreases images.len() - j,
                    {
                        let ghost so_far = texts_of(texts@);
                        texts.push(images[j].clone());
                        proof {
                            assert(texts_of(texts@) =~= so_far + seq![images@[j as int]@]);
                            assert(texts_of(images@).take(j + 1) =~= texts_of(images@).take(
                                j as int,
                            ).push(images@[j as int]@));
                        }
                        j += 1;
                    }
                    proof {
                        assert(texts_of(images@).take(images@.len() as int) =~= texts_of(images@));
                        assert(texts_of(texts@) =~= before + message_templates(
                            self.messages@[i as int]@,
                        ));
                    }
                },
                Message::Assistant { json } => {
                    push_json_templates(json, &mut texts);
                },
            }
            proof {
                assert(texts_of(texts@) =~= lead + messages_templates(views.take(i + 1)));
            }
            i += 1;
        }
        assert(views.take(self.messages@.len() as int) =~= views);
        texts
    }

    /// Put rendered texts into the places of the templates: the text at each
    /// place of `rendered` takes the place of the template at that place of
    /// `template_texts`. A template for which there is no text stays as it is.
    ///
    /// This is the one way from a template to a rendered prompt. A template
    /// whose messages are not in order is refused; otherwise the messages of
    /// the rendered prompt are in order too.
    pub fn fill(&self, rendered: Vec<String>) -> (r: Result<ChatPrompt<Rendered>, RenderError>)
        ensures
            match validate_spec(self.messages@) {
                Err(error) => r == Err::<ChatPrompt<Rendered>, RenderError>(
                    RenderError::Invalid { error },
                ),
                Ok(_) => r matches Ok(prompt) && prompt.file_view() == filled(
                    self.file_view(),
                    texts_of(rendered@),
                ) && prompt.wf(),
            },
    {
        match self.validate() {
            Err(error) => {
                return Err(RenderError::Invalid { error });
            },
            Ok(_) => {},
        }
        let ghost all = texts_of(rendered@);
        let ghost lead: int = if self.developer.is_some() { 1 } else { 0 };
        let (developer, first) = match &self.developer {
            Some(developer) => {
                let (text, next) = take_text(developer, &rendered, 0, Ghost(0));
                (Some(text), next)
            },
            None => (None, 0),
        };
        let ghost views = messages_view(self.messages@);
        proof {
            assert(views.take(0) =~= Seq::empty());
        }
        let mut messages: Vec<Message> = Vec::new();
        let mut place = first;
        let mut i: usize = 0;
        while i < self.messages.len()
            invariant
                i <= self.messages@.len(),
                0 <= lead <= 1,
                all == texts_of(rendered@),
                views == messages_view(self.messages@),
                messages@.len() == i,
                place == capped_place(
                    lead + messages_templates(views.take(i as int)).len(),
                    rendered@.len() as int,
                ),
                forall|k: int|
                    0 <= k < i ==> (#[trigger] messages@[k])@ == filled_message(
                        views[k],
                        all,
                        lead + messages_templates(views.take(k)).len(),
                    ),
                forall|k: int|
                    0 <= k < i ==> ((#[trigger] messages@[k]) is User <==> self.messages@[k] is User)
                        && (has_content(self.messages@[k]) ==> has_content(messages@[k])),
            decreases self.messages.len() - i,
        {
            proof {
                assert(views.take(i + 1).drop_last() =~= views.take(i as int));
                assert(views.take(i + 1).last() == self.messages@[i as int]@);
            }
            let ghost here = lead + messages_templates(views.take(i as int)).len();
            let (message, next) = fill_message(&self.messages[i], &rendered, place, Ghost(here));
            messages.push(message);
            place = next;
            i += 1;
        }
        proof {
            lemma_validate_well_ordered(self.messages@);
            lemma_same_kinds_keep_order(self.messages@, messages@);
            assert(messages_view(messages@) =~= filled_messages(views, all, lead));
        }
        Ok(
            ChatPrompt {
                developer,
                response_schema: self.response_schema.clone(),
                messages,
                _phantom: PhantomData,
            },
        )
    }

    /// Render the prompt against `bindings`. This causes a state transition
    /// from [`Template`] to [`Rendered`].
    ///
    /// A template whose messages are not in order is refused before anything
    /// is rendered. Otherwise the templates of `template_texts` are handed to
    /// the renderer one after the other, each with the bindings as they are
    /// written. The first failure ends the rendering with its complaint. Where
    /// the renderer gave a text for every template, the result is the prompt
    /// filled with these texts. What the renderer gives is up to the registry
    /// and its helpers.
    pub fn render(&self, handlebars: &handlebars::Handlebars<'static>, bindings: &JsonObject) -> (r:
        Result<ChatPrompt<Rendered>, RenderError>)
        ensures
            match validate_spec(self.messages@) {
                Err(error) => r == Err::<ChatPrompt<Rendered>, RenderError>(
                    RenderError::Invalid { error },
                ),
                Ok(_) => exists|outcomes: Seq<Result<Seq<char>, Seq<char>>>| #[trigger]
                    rendered_as(self.file_view(), bindings@, outcomes, r),
            },
            r matches Ok(prompt) ==> prompt.wf() && prompt.response_schema@
                == self.response_schema@,
    {
        match self.validate() {
            Err(error) => {
                return Err(RenderError::Invalid { error });
            },
            Ok(_) => {},
        }
        let context = RenderContext {
            handlebars,
            data: to_serde_value(&Json::Object(clone_members(bindings)).written_copy()),
            bindings,
        };
        let templates = self.template_texts();
        let mut rendered: Vec<String> = Vec::new();
        let ghost mut outcomes: Seq<Result<Seq<char>, Seq<char>>> = Seq::empty();
        let mut k: usize = 0;
        while k < templates.len()
            invariant
                k <= templates@.len(),
                context.bindings@ == bindings@,
                validate_spec(self.messages@) is Ok,
                texts_of(templates@) == templates_of(self.file_view()),
                rendered@.len() == k,
                outcomes.len() == k,
                forall|j: int|
                    0 <= j < k ==> #[trigger] outcomes[j] == Ok::<Seq<char>, Seq<char>>(
                        rendered@[j]@,
                    ),
            decreases templates.len() - k,
        {
            match render_text(&context, templates[k].as_str()) {
                Ok(text) => {
                    proof {
                        outcomes = outcomes.push(Ok(text@));
                    }
                    rendered.push(text);
                },
                Err(e) => {
                    proof {
                        let message = e->Template_message;
                        let reason = choose|reason: Seq<char>|
                            message@ == #[trigger] render_failure_text(
                                templates@[k as int]@,
                                bindings@,
                                reason,
                            );
                        let ended = outcomes.push(Err(reason));
                        assert(ended.last() == Err::<Seq<char>, Seq<char>>(reason));
                        assert(texts_of(templates@)[k as int] == templates@[k as int]@);
                        assert(rendered_as(
                            self.file_view(),
                            bindings@,
                            ended,
                            Err::<ChatPrompt<Rendered>, RenderError>(e),
                        ));
                    }
                    return Err(e);
                },
            }
            k += 1;
        }
        let ghost texts = texts_of(rendered@);
        let r = self.fill(rendered);
        proof {
            assert(Seq::new(outcomes.len(), |k: int| outcomes[k]->Ok_0) =~= texts);
            assert(texts_of(templates@).len() == templates@.len());
            assert(rendered_as(self.file_view(), bindings@, outcomes, r));
            assert(r->Ok_0.file_view().response_schema == self.file_view().response_schema);
        }
        r
    }
}

} // verus!

verus! {

/// The mathematical model of a message.
pub enum MessageView {
    User { text: Option<Seq<char>>, images: Seq<Seq<char>> },
    Assistant { json: crate::json::JsonView },
}

impl View for Message {
    type V = MessageView;

    open spec fn view(&self) -> MessageView {
        match *self {
            Message::User { text, images } => MessageView::User {
                text: match text {
                    Some(t) => Some(t@),
                    None => None,
                },
                images: crate::text::texts_of(images@),
            },
            Message::Assistant { json } => MessageView::Assistant { json: json@ },
        }
    }
}

/// The models of messages, in order.
pub open spec fn messages_view(messages: Seq<Message>) -> Seq<MessageView> {
    Seq::new(messages.len(), |i: int| messages[i]@)
}

/// Why a value is no message.
#[derive(Debug, Clone, Copy, PartialEq, Eq, Structural)]
pub enum MessageParseError {
    /// A message is a table.
    NotATable,
    /// The table of a message has exactly one key.
    NotOneKey,
    /// The key is neither `user` nor `assistant`.
    UnknownRole,
    /// What stands under `user` or `assistant` is not a table.
    InvalidBody,
    /// The `text` of a user message is not a string.
    InvalidText,
    /// The `images` of a user message are not an array of strings.
    InvalidImages,
    /// A user message has neither `text` nor `images`.
    EmptyUser,
    /// An assistant message has no `json`.
    MissingJson,
    /// The table has a key that the message does not know.
    UnexpectedKey,
}

impl MessageParseError {
    /// The sentence that `message` returns.
    pub open spec fn message_spec(&self) -> Seq<char> {
        match self {
            MessageParseError::NotATable => "expected a table"@,
            MessageParseError::NotOneKey =>
                "expected a table with exactly one key ('user' or 'assistant')"@,
            MessageParseError::UnknownRole =>
                "expected a table with either a 'user' or an 'assistant' key"@,
            MessageParseError::InvalidBody => "expected a table for the message"@,
            MessageParseError::InvalidText => "expected a string for 'text'"@,
            MessageParseError::InvalidImages => "expected an array of strings for 'images'"@,
            MessageParseError::EmptyUser => "expected a user message with either 'text' or 'images'"@,
            MessageParseError::MissingJson => "missing field 'json' in table"@,
            MessageParseError::UnexpectedKey => "unexpected keys in table"@,
        }
    }

    /// A sentence that describes the error.
    pub fn message(&self) -> (s: String)
        ensures
            s@ == self.message_spec(),
    {
        match self {
            MessageParseError::NotATable => String::from_str("expected a table"),
            MessageParseError::NotOneKey => String::from_str(
                "expected a table with exactly one key ('user' or 'assistant')",
            ),
            MessageParseError::UnknownRole => String::from_str(
                "expected a table with either a 'user' or an 'assistant' key",
            ),
            MessageParseError::InvalidBody => String::from_str("expected a table for the message"),
            MessageParseError::InvalidText => String::from_str("expected a string for 'text'"),
            MessageParseError::InvalidImages => String::from_str(
                "expected an array of strings for 'images'",
            ),
            MessageParseError::EmptyUser => String::from_str(
                "expected a user message with either 'text' or 'images'",
            ),
            MessageParseError::MissingJson => String::from_str("missing field 'json' in table"),
            MessageParseError::UnexpectedKey => String::from_str("unexpected keys in table"),
        }
    }
}

/// The strings of an array, where every item is a string.
pub open spec fn strings_of(items: Seq<Json>) -> Option<Seq<Seq<char>>> {
    if forall|i: int| 0 <= i < items.len() ==> (#[trigger] items[i]) is Text {
        Some(Seq::new(items.len(), |i: int| items[i]->Text_0@))
    } else {
        None
    }
}

/// The user message that a table holds: an optional `text`, optional
/// `images`, at least one of the two, and no other key.
pub open spec fn user_message_of(body: Json) -> Result<MessageView, MessageParseError> {
    match body {
        Json::Object(table) => {
            let members = table@;
            let text_at = crate::json::member_index(members, "text"@);
            let images_at = crate::json::member_index(members, "images"@);
            if 0 <= text_at < members.len() && !(members[text_at].1 is Text) {
                Err(MessageParseError::InvalidText)
            } else if 0 <= images_at < members.len() && !(members[images_at].1 matches Json::Array(
                items,
            ) && strings_of(items@).is_some()) {
                Err(MessageParseError::InvalidImages)
            } else if exists|i: int|
                0 <= i < members.len() && (#[trigger] members[i]).0@ != "text"@ && members[i].0@
                    != "images"@ {
                Err(MessageParseError::UnexpectedKey)
            } else {
                let text = if 0 <= text_at < members.len() {
                    Some(members[text_at].1->Text_0@)
                } else {
                    None
                };
                let images = if 0 <= images_at < members.len() {
                    strings_of(members[images_at].1->Array_0@)->Some_0
                } else {
                    Seq::empty()
                };
                if text.is_none() && images.len() == 0 {
                    Err(MessageParseError::EmptyUser)
                } else {
                    Ok(MessageView::User { text, images })
                }
            }
        },
        _ => Err(MessageParseError::InvalidBody),
    }
}

/// The assistant message that a table holds: a `json` of any kind, and no
/// other key.
pub open spec fn assistant_message_of(body: Json) -> Result<MessageView, MessageParseError> {
    match body {
        Json::Object(table) => {
            let members = table@;
            let json_at = crate::json::member_index(members, "json"@);
            if !(0 <= json_at < members.len()) {
                Err(MessageParseError::MissingJson)
            } else if exists|i: int|
                0 <= i < members.len() && (#[trigger] members[i]).0@ != "json"@ {
                Err(MessageParseError::UnexpectedKey)
            } else {
                Ok(MessageView::Assistant { json: members[json_at].1@ })
            }
        },
        _ => Err(MessageParseError::InvalidBody),
    }
}

/// The message that a value holds: a table with the one key `user` or
/// `assistant`, under which the message stands.
pub open spec fn message_of(value: Json) -> Result<MessageView, MessageParseError> {
    match value {
        Json::Object(table) => if table@.len() != 1 {
            Err(MessageParseError::NotOneKey)
        } else if table@[0].0@ == "user"@ {
            user_message_of(table@[0].1)
        } else if table@[0].0@ == "assistant"@ {
            assistant_message_of(table@[0].1)
        } else {
            Err(MessageParseError::UnknownRole)
        },
        _ => Err(MessageParseError::NotATable),
    }
}

fn read_strings(items: &Vec<Json>) -> (r: Option<Vec<String>>)
    ensures
        match r {
            Some(strings) => strings_of(items@) == Some(crate::text::texts_of(strings@)),
            None => strings_of(items@).is_none(),
        },
{
    let mut strings: Vec<String> = Vec::new();
    let mut i: usize = 0;
    while i < items.len()
        invariant
            i <= items@.len(),
            strings@.len() == i,
            forall|k: int| 0 <= k < i ==> (#[trigger] items@[k]) is Text,
            forall|k: int| 0 <= k < i ==> (#[trigger] strings@[k])@ == items@[k]->Text_0@,
        decreases items.len() - i,
    {
        match &items[i] {
            Json::Text(s) => {
                strings.push(s.clone());
            },
            _ => {
                assert(!(items@[i as int] is Text));
                return None;
            },
        }
        i += 1;
    }
    assert(crate::text::texts_of(strings@) =~= Seq::new(
        items@.len(),
        |i: int| items@[i]->Text_0@,
    ));
    Some(strings)
}

fn has_other_key(members: &Vec<(String, Json)>, first: &str, second: &str) -> (b: bool)
    ensures
        b == exists|i: int|
            0 <= i < members@.len() && (#[trigger] members@[i]).0@ != first@ && members@[i].0@
                != second@,
{
    let mut i: usize = 0;
    while i < members.len()
        invariant
            i <= members@.len(),
            forall|k: int|
                0 <= k < i ==> (#[trigger] members@[k]).0@ == first@ || members@[k].0@ == second@,
        decreases members.len() - i,
    {
        let key = members[i].0.as_str();
        if !crate::text::str_eq(key, first) && !crate::text::str_eq(key, second) {
            return true;
        }
        i += 1;
    }
    false
}

impl Message {
    /// Read a message from the value of a prompt file.
    pub fn from_value(value: &Json) -> (r: Result<Message, MessageParseError>)
        ensures
            match r {
                Ok(message) => message_of(*value) == Ok::<MessageView, MessageParseError>(
                    message@,
                ),
                Err(e) => message_of(*value) == Err::<MessageView, MessageParseError>(e),
            },
    {
        let table = match value {
            Json::Object(table) => table,
            _ => {
                return Err(MessageParseError::NotATable);
            },
        };
        if table.len() != 1 {
            return Err(MessageParseError::NotOneKey);
        }
        let role = table[0].0.as_str();
        let body = &table[0].1;
        if crate::text::str_eq(role, "user") {
            let members = match body {
                Json::Object(members) => members,
                _ => {
                    return Err(MessageParseError::InvalidBody);
                },
            };
            let text_at = crate::json::find_member(members, "text");
            let images_at = crate::json::find_member(members, "images");
            let text = if text_at < members.len() {
                match &members[text_at].1 {
                    Json::Text(text) => Some(text.clone()),
                    _ => {
                        return Err(MessageParseError::InvalidText);
                    },
                }
            } else {
                None
            };
            let images = if images_at < members.len() {
                match &members[images_at].1 {
                    Json::Array(items) => match read_strings(items) {
                        Some(images) => images,
                        None => {
                            return Err(MessageParseError::InvalidImages);
                        },
                    },
                    _ => {
                        return Err(MessageParseError::InvalidImages);
                    },
                }
            } else {
                let empty: Vec<String> = Vec::new();
                assert(crate::text::texts_of(empty@) =~= Seq::<Seq<char>>::empty());
                empty
            };
            if has_other_key(members, "text", "images") {
                return Err(MessageParseError::UnexpectedKey);
            }
            if text.is_none() && images.len() == 0 {
                return Err(MessageParseError::EmptyUser);
            }
            Ok(Message::User { text, images })
        } else if crate::text::str_eq(role, "assistant") {
            let members = match body {
                Json::Object(members) => members,
                _ => {
                    return Err(MessageParseError::InvalidBody);
                },
            };
            let json_at = crate::json::find_member(members, "json");
            if json_at >= members.len() {
                return Err(MessageParseError::MissingJson);
            }
            if has_other_key(members, "json", "json") {
                return Err(MessageParseError::UnexpectedKey);
            }
            Ok(Message::Assistant { json: members[json_at].1.clone() })
        } else {
            Err(MessageParseError::UnknownRole)
        }
    }
}

/// Why a value is no prompt.
#[allow(inconsistent_fields)]
#[derive(Debug, Clone, Copy, PartialEq, Eq, Structural)]
pub enum PromptParseError {
    /// A prompt is a table.
    NotATable,
    /// The prompt has no `response_schema`.
    MissingResponseSchema,
    /// The `response_schema` is no schema.
    Schema { error: crate::schema::SchemaParseError },
    /// The prompt has no `messages`.
    MissingMessages,
    /// The `messages` are not an array.
    InvalidMessages,
    /// The message at `index` is no message.
    Message { index: usize, error: MessageParseError },
    /// The `developer` message is not a string.
    InvalidDeveloper,
    /// The table has a key that the prompt does not know.
    UnexpectedKey,
}

/// The messages that an array holds, or the first error among them with the
/// index of its message.
pub open spec fn messages_of(values: Seq<Json>) -> Result<Seq<MessageView>, PromptParseError>
    decreases values.len(),
{
    if values.len() == 0 {
        Ok(Seq::empty())
    } else {
        match messages_of(values.drop_last()) {
            Err(e) => Err(e),
            Ok(before) => match message_of(values.last()) {
                Err(error) => Err(
                    PromptParseError::Message { index: (values.len() - 1) as usize, error },
                ),
                Ok(message) => Ok(before.push(message)),
            },
        }
    }
}

/// The model of a prompt as a prompt file holds it.
pub struct PromptView {
    pub developer: Option<Seq<char>>,
    pub response_schema: crate::schema::SchemaView,
    pub messages: Seq<MessageView>,
}

/// The prompt that a value holds: a table with a `response_schema`, the
/// `messages` and an optional `developer` message, and with no other key.
pub open spec fn prompt_of(value: Json) -> Result<PromptView, PromptParseError> {
    match value {
        Json::Object(table) => {
            let members = table@;
            let schema_at = crate::json::member_index(members, "response_schema"@);
            let messages_at = crate::json::member_index(members, "messages"@);
            let developer_at = crate::json::member_index(members, "developer"@);
            if !(0 <= schema_at < members.len()) {
                Err(PromptParseError::MissingResponseSchema)
            } else {
                match crate::schema::schema_of(members[schema_at].1) {
                    Err(error) => Err(PromptParseError::Schema { error }),
                    Ok(response_schema) => if !(0 <= messages_at < members.len()) {
                        Err(PromptParseError::MissingMessages)
                    } else {
                        match members[messages_at].1 {
                            Json::Array(values) => match messages_of(values@) {
                                Err(e) => Err(e),
                                Ok(messages) => if 0 <= developer_at < members.len() && !(
                                members[developer_at].1 is Text) {
                                    Err(PromptParseError::InvalidDeveloper)
                                } else if crate::schema::has_unexpected_key(
                                    members,
                                    seq!["developer"@, "response_schema"@, "messages"@],
                                ) {
                                    Err(PromptParseError::UnexpectedKey)
                                } else {
                                    Ok(
                                        PromptView {
                                            developer: if 0 <= developer_at < members.len() {
                                                Some(members[developer_at].1->Text_0@)
                                            } else {
                                                None
                                            },
                                            response_schema,
                                            messages,
                                        },
                                    )
                                },
                            },
                            _ => Err(PromptParseError::InvalidMessages),
                        }
                    },
                }
            }
        },
        _ => Err(PromptParseError::NotATable),
    }
}

/// An error among the first `n` messages is the error of all of them.
pub proof fn lemma_messages_error(values: Seq<Json>, n: int, e: PromptParseError)
    requires
        0 <= n <= values.len(),
        messages_of(values.take(n)) == Err::<Seq<MessageView>, PromptParseError>(e),
    ensures
        messages_of(values) == Err::<Seq<MessageView>, PromptParseError>(e),
    decreases values.len() - n,
{
    if n == values.len() {
        assert(values.take(n) =~= values);
    } else {
        assert(values.take(n + 1).drop_last() =~= values.take(n));
        lemma_messages_error(values, n + 1, e);
    }
}

impl<State: PromptState> ChatPrompt<State> {
    /// The model of the prompt.
    pub open spec fn file_view(&self) -> PromptView {
        PromptView {
            developer: match self.developer {
                Some(d) => Some(d@),
                None => None,
            },
            response_schema: self.response_schema@,
            messages: messages_view(self.messages@),
        }
    }
}

impl ChatPrompt<Template> {
    /// Read a prompt template from the value of a prompt file.
    pub fn from_value(value: &Json) -> (r: Result<ChatPrompt<Template>, PromptParseError>)
        ensures
            match r {
                Ok(prompt) => prompt_of(*value) == Ok::<PromptView, PromptParseError>(
                    prompt.file_view(),
                ),
                Err(e) => prompt_of(*value) == Err::<PromptView, PromptParseError>(e),
            },
            r matches Ok(prompt) ==> prompt.response_schema.wf(),
    {
        let members = match value {
            Json::Object(members) => members,
            _ => {
                return Err(PromptParseError::NotATable);
            },
        };
        let schema_at = crate::json::find_member(members, "response_schema");
        let messages_at = crate::json::find_member(members, "messages");
        let developer_at = crate::json::find_member(members, "developer");
        if schema_at >= members.len() {
            return Err(PromptParseError::MissingResponseSchema);
        }
        let response_schema = match Schema::from_value(&members[schema_at].1) {
            Ok(schema) => schema,
            Err(error) => {
                return Err(PromptParseError::Schema { error });
            },
        };
        if messages_at >= members.len() {
            return Err(PromptParseError::MissingMessages);
        }
        let values = match &members[messages_at].1 {
            Json::Array(values) => values,
            _ => {
                return Err(PromptParseError::InvalidMessages);
            },
        };
        let mut messages: Vec<Message> = Vec::new();
        let mut i: usize = 0;
        assert(values@.take(0) =~= Seq::<Json>::empty());
        assert(messages_view(messages@) =~= Seq::<MessageView>::empty());
        while i < values.len()
            invariant
                i <= values@.len(),
                *value == Json::Object(*members),
                schema_at == crate::json::member_index(members@, "response_schema"@),
                schema_at < members@.len(),
                crate::schema::schema_of(members@[schema_at as int].1) == Ok::<
                    crate::schema::SchemaView,
                    crate::schema::SchemaParseError,
                >(response_schema@),
                messages_at == crate::json::member_index(members@, "messages"@),
                messages_at < members@.len(),
                members@[messages_at as int].1 == Json::Array(*values),
                messages_of(values@.take(i as int)) == Ok::<Seq<MessageView>, PromptParseError>(
                    messages_view(messages@),
                ),
            decreases values.len() - i,
        {
            proof {
                assert(values@.take(i + 1).drop_last() =~= values@.take(i as int));
                assert(values@.take(i + 1).last() == values@[i as int]);
            }
            match Message::from_value(&values[i]) {
                Ok(message) => {
                    let ghost before = messages_view(messages@);
                    messages.push(message);
                    assert(messages_view(messages@) =~= before.push(message@));
                },
                Err(error) => {
                    proof {
                        lemma_messages_error(
                            values@,
                            i + 1,
                            PromptParseError::Message { index: i, error },
                        );
                    }
                    return Err(PromptParseError::Message { index: i, error });
                },
            }
            i += 1;
        }
        assert(values@.take(values@.len() as int) =~= values@);
        let developer = if developer_at < members.len() {
            match &members[developer_at].1 {
                Json::Text(developer) => Some(developer.clone()),
                _ => {
                    return Err(PromptParseError::InvalidDeveloper);
                },
            }
        } else {
            None
        };
        if prompt_key_unexpected(members) {
            return Err(PromptParseError::UnexpectedKey);
        }
        Ok(ChatPrompt { developer, response_schema, messages, _phantom: PhantomData })
    }
}

fn prompt_key_unexpected(members: &Vec<(String, Json)>) -> (b: bool)
    ensures
        b == crate::schema::has_unexpected_key(
            members@,
            seq!["developer"@, "response_schema"@, "messages"@],
        ),
{
    let ghost allowed = seq!["developer"@, "response_schema"@, "messages"@];
    let mut i: usize = 0;
    while i < members.len()
        invariant
            i <= members@.len(),
            allowed == seq!["developer"@, "response_schema"@, "messages"@],
            forall|k: int| 0 <= k < i ==> allowed.contains((#[trigger] members@[k]).0@),
        decreases members.len() - i,
    {
        let key = members[i].0.as_str();
        if !(crate::text::str_eq(key, "developer") || crate::text::str_eq(key, "response_schema")
            || crate::text::str_eq(key, "messages")) {
            assert(!allowed.contains(members@[i as int].0@)) by {
                if allowed.contains(members@[i as int].0@) {
                    let w = choose|w: int|
                        0 <= w < allowed.len() && allowed[w] == members@[i as int].0@;
                    assert(w == 0 || w == 1 || w == 2);
                }
            }
            return true;
        }
        proof {
            if key@ == "developer"@ {
                assert(allowed[0] == key@);
            } else if key@ == "response_schema"@ {
                assert(allowed[1] == key@);
            } else {
                assert(allowed[2] == key@);
            }
        }
        i += 1;
    }
    false
}

impl crate::toml_utils::FromValue for Message {
    type Error = MessageParseError;

    open spec fn reads(value: Json, result: Result<Self, MessageParseError>) -> bool {
        match result {
            Ok(message) => message_of(value) == Ok::<MessageView, MessageParseError>(message@),
            Err(e) => message_of(value) == Err::<MessageView, MessageParseError>(e),
        }
    }

    fn from_value(value: &Json) -> (r: Result<Self, MessageParseError>) {
        Message::from_value(value)
    }
}

impl crate::toml_utils::FromValue for ChatPrompt<Template> {
    type Error = PromptParseError;

    open spec fn reads(value: Json, result: Result<Self, PromptParseError>) -> bool {
        match result {
            Ok(prompt) => prompt_of(value) == Ok::<PromptView, PromptParseError>(
                prompt.file_view(),
            ),
            Err(e) => prompt_of(value) == Err::<PromptView, PromptParseError>(e),
        }
    }

    fn from_value(value: &Json) -> (r: Result<Self, PromptParseError>) {
        ChatPrompt::<Template>::from_value(value)
    }
}

} // verus!

verus! {

impl PromptParseError {
    /// The sentence that `message` returns.
    pub open spec fn message_spec(&self) -> Seq<char> {
        match self {
            PromptParseError::NotATable => "expected a table"@,
            PromptParseError::MissingResponseSchema => "missing field 'response_schema' in table"@,
            PromptParseError::Schema { error } => "response_schema: "@ + error.message_spec(),
            PromptParseError::MissingMessages => "missing field 'messages' in table"@,
            PromptParseError::InvalidMessages => "expected an array for 'messages'"@,
            PromptParseError::Message { index, error } => "message "@ + decimal_digits(
                *index as nat,
            ) + ": "@ + error.message_spec(),
            PromptParseError::InvalidDeveloper => "expected a string for 'developer'"@,
            PromptParseError::UnexpectedKey => "unexpected keys in table"@,
        }
    }

    /// A sentence that describes the error.
    pub fn message(&self) -> (s: String)
        ensures
            s@ == self.message_spec(),
    {
        match self {
            PromptParseError::NotATable => String::from_str("expected a table"),
            PromptParseError::MissingResponseSchema => String::from_str(
                "missing field 'response_schema' in table",
            ),
            PromptParseError::Schema { error } => {
                let mut s = String::from_str("response_schema: ");
                s.append(error.message().as_str());
                s
            },
            PromptParseError::MissingMessages => String::from_str(
                "missing field 'messages' in table",
            ),
            PromptParseError::InvalidMessages => String::from_str(
                "expected an array for 'messages'",
            ),
            PromptParseError::Message { index, error } => {
                let mut s = String::from_str("message ");
                push_decimal(&mut s, *index as u64);
                s.append(": ");
                s.append(error.message().as_str());
                s
            },
            PromptParseError::InvalidDeveloper => String::from_str(
                "expected a string for 'developer'",
            ),
            PromptParseError::UnexpectedKey => String::from_str("unexpected keys in table"),
        }
    }
}

impl crate::toml_utils::Describe for MessageParseError {
    open spec fn description(&self) -> Seq<char> {
        self.message_spec()
    }

    fn describe(&self) -> (s: String) {
        self.message()
    }
}

impl crate::toml_utils::Describe for PromptParseError {
    open spec fn description(&self) -> Seq<char> {
        self.message_spec()
    }

    fn describe(&self) -> (s: String) {
        self.message()
    }
}

} // verus!
