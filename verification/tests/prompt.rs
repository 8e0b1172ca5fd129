use prompt_scaler::json::Json;
use prompt_scaler::prompt::{
    validate_messages, ChatPrompt, Message, MessageParseError, PromptError, PromptParseError,
};
use prompt_scaler::schema::{Schema, SchemaParseError};
use prompt_scaler::toml_utils::TomlError;

fn user(text: &str) -> Message {
    Message::User { text: Some(text.to_string()), images: vec![] }
}

fn assistant() -> Message {
    Message::Assistant { json: Json::Null }
}

fn empty_user() -> Message {
    Message::User { text: None, images: vec![] }
}

#[test]
fn well_ordered_prompts_pass() {
    assert_eq!(validate_messages(&vec![user("a")]), Ok(()));
    assert_eq!(validate_messages(&vec![user("a"), assistant(), user("b")]), Ok(()));
    let with_image = Message::User { text: None, images: vec!["data:...".to_string()] };
    assert_eq!(validate_messages(&vec![with_image]), Ok(()));
}

#[test]
fn each_fault_has_its_error() {
    assert_eq!(validate_messages(&vec![]), Err(PromptError::NoMessages));
    assert_eq!(
        validate_messages(&vec![assistant()]),
        Err(PromptError::NotAlternating { index: 0 })
    );
    assert_eq!(
        validate_messages(&vec![user("a"), user("b")]),
        Err(PromptError::NotAlternating { index: 1 })
    );
    assert_eq!(
        validate_messages(&vec![user("a"), assistant()]),
        Err(PromptError::MustEndWithUser)
    );
    assert_eq!(
        validate_messages(&vec![user("a"), assistant(), empty_user()]),
        Err(PromptError::EmptyUserMessage { index: 2 })
    );
    // An empty user message is reported as such even where an assistant message is due.
    assert_eq!(
        validate_messages(&vec![user("a"), empty_user()]),
        Err(PromptError::EmptyUserMessage { index: 1 })
    );
    // The first fault wins.
    assert_eq!(
        validate_messages(&vec![user("a"), user("b"), empty_user()]),
        Err(PromptError::NotAlternating { index: 1 })
    );
}

#[test]
fn error_messages() {
    assert_eq!(PromptError::NoMessages.message(), "No messages in prompt");
    assert_eq!(PromptError::MustEndWithUser.message(), "Prompt must end with a user message");
    assert_eq!(
        PromptError::NotAlternating { index: 12 }.message(),
        "Expected alternating user and assistant messages in prompt, found message 12"
    );
    assert_eq!(
        PromptError::EmptyUserMessage { index: 0 }.message(),
        "User message must have either text or images, found neither in message 0"
    );
}

#[test]
fn templates_are_listed_and_filled_in_order() {
    let schema = || Schema::JsonValue(Json::Object(vec![]));
    let template = ChatPrompt::new(
        Some("dev {{x}}".to_string()),
        schema(),
        vec![
            Message::User { text: Some("{{q}}".to_string()), images: vec!["i1".to_string(), "i2".to_string()] },
            Message::Assistant {
                json: Json::Object(vec![
                    ("k1".to_string(), Json::Array(vec![
                        Json::Text("a".to_string()),
                        Json::Bool(true),
                        Json::Object(vec![("k2".to_string(), Json::Text("b".to_string()))]),
                    ])),
                    ("k3".to_string(), Json::Null),
                ]),
            },
            Message::User { text: None, images: vec!["i3".to_string()] },
        ],
    );
    assert_eq!(template.validate(), Ok(()));
    let texts = template.template_texts();
    assert_eq!(texts, vec!["dev {{x}}", "{{q}}", "i1", "i2", "k1", "a", "k2", "b", "k3", "i3"]);

    let numbered: Vec<String> = (0..texts.len()).map(|k| format!("<{k}>")).collect();
    let filled = template.fill(numbered).unwrap();
    assert_eq!(filled.developer.as_deref(), Some("<0>"));
    assert_eq!(filled.response_schema, schema());
    assert_eq!(filled.messages.len(), 3);
    match &filled.messages[0] {
        Message::User { text, images } => {
            assert_eq!(text.as_deref(), Some("<1>"));
            assert_eq!(images, &vec!["<2>".to_string(), "<3>".to_string()]);
        }
        other => panic!("unexpected {other:?}"),
    }
    match &filled.messages[1] {
        Message::Assistant { json } => assert_eq!(
            json,
            &Json::Object(vec![
                ("<4>".to_string(), Json::Array(vec![
                    Json::Text("<5>".to_string()),
                    Json::Bool(true),
                    Json::Object(vec![("<6>".to_string(), Json::Text("<7>".to_string()))]),
                ])),
                ("<8>".to_string(), Json::Null),
            ])
        ),
        other => panic!("unexpected {other:?}"),
    }
    match &filled.messages[2] {
        Message::User { text, images } => {
            assert_eq!(text, &None);
            assert_eq!(images, &vec!["<9>".to_string()]);
        }
        other => panic!("unexpected {other:?}"),
    }

    // A template for which there is no text stays as it is.
    let partly = template.fill(vec!["D".to_string(), "Q".to_string()]).unwrap();
    assert_eq!(partly.developer.as_deref(), Some("D"));
    match &partly.messages[0] {
        Message::User { text, images } => {
            assert_eq!(text.as_deref(), Some("Q"));
            assert_eq!(images, &vec!["i1".to_string(), "i2".to_string()]);
        }
        other => panic!("unexpected {other:?}"),
    }
    let same = template.fill(template.template_texts()).unwrap();
    assert_eq!(same.developer.as_deref(), Some("dev {{x}}"));
}

#[test]
fn a_template_out_of_order_is_not_filled() {
    let schema = || Schema::JsonValue(Json::Object(vec![]));
    let broken = ChatPrompt::new(None, schema(), vec![]);
    assert_eq!(broken.validate(), Err(PromptError::NoMessages));
    assert_eq!(
        broken.fill(vec![]).unwrap_err(),
        prompt_scaler::prompt::RenderError::Invalid { error: PromptError::NoMessages }
    );
    let ends_wrong = ChatPrompt::new(None, schema(), vec![user("a"), assistant()]);
    assert_eq!(
        ends_wrong.fill(vec!["x".to_string()]).unwrap_err(),
        prompt_scaler::prompt::RenderError::Invalid { error: PromptError::MustEndWithUser }
    );
    assert!(ends_wrong.template_texts().len() >= 1);
}

fn registry() -> handlebars::Handlebars<'static> {
    let mut registry = handlebars::Handlebars::new();
    registry.register_escape_fn(handlebars::no_escape);
    registry
}

fn bindings() -> Vec<(String, Json)> {
    vec![
        ("q".to_string(), Json::Text("hi <there>".to_string())),
        ("lang".to_string(), Json::Text("en".to_string())),
        ("n".to_string(), Json::Number(prompt_scaler::json::JsonNumber::PosInt(2))),
        ("ratio".to_string(), Json::Number(prompt_scaler::json::JsonNumber::Real("1.5".to_string()))),
        ("nested".to_string(), Json::Object(vec![("name".to_string(), Json::Text("deep".to_string()))])),
    ]
}

#[test]
fn rendering_fills_in_the_bindings() {
    let schema = Schema::JsonValue(Json::Object(vec![]));
    let template = ChatPrompt::new(
        Some("Answer in {{lang}}.".to_string()),
        schema,
        vec![
            Message::User { text: Some("{{q}}".to_string()), images: vec!["img-{{n}}".to_string()] },
            Message::Assistant {
                json: Json::Object(vec![
                    ("key_{{n}}".to_string(), Json::Array(vec![
                        Json::Text("{{nested.name}}".to_string()),
                        Json::Bool(true),
                        Json::Null,
                    ])),
                    ("ratio".to_string(), Json::Text("{{ratio}}".to_string())),
                ]),
            },
            Message::User { text: None, images: vec!["plain".to_string()] },
        ],
    );
    let prompt = template.render(&registry(), &bindings()).unwrap();
    assert_eq!(prompt.developer.as_deref(), Some("Answer in en."));
    assert_eq!(prompt.messages.len(), 3);
    match &prompt.messages[0] {
        Message::User { text, images } => {
            assert_eq!(text.as_deref(), Some("hi <there>"));
            assert_eq!(images, &vec!["img-2".to_string()]);
        }
        other => panic!("unexpected message {:?}", other),
    }
    match &prompt.messages[1] {
        Message::Assistant { json } => assert_eq!(
            json,
            &Json::Object(vec![
                ("key_2".to_string(), Json::Array(vec![
                    Json::Text("deep".to_string()),
                    Json::Bool(true),
                    Json::Null,
                ])),
                ("ratio".to_string(), Json::Text("1.5".to_string())),
            ])
        ),
        other => panic!("unexpected message {:?}", other),
    }
    match &prompt.messages[2] {
        Message::User { text, images } => {
            assert_eq!(text, &None);
            assert_eq!(images, &vec!["plain".to_string()]);
        }
        other => panic!("unexpected message {:?}", other),
    }
}

#[test]
fn rendering_refuses_a_template_out_of_order() {
    let schema = Schema::JsonValue(Json::Null);
    let template = ChatPrompt::new(None, schema, vec![assistant()]);
    let err = template.render(&registry(), &bindings()).unwrap_err();
    assert_eq!(
        err,
        prompt_scaler::prompt::RenderError::Invalid {
            error: PromptError::NotAlternating { index: 0 }
        }
    );
    assert_eq!(
        err.message(),
        "Expected alternating user and assistant messages in prompt, found message 0"
    );
}

#[test]
fn rendering_reports_the_template_and_the_bindings() {
    let schema = Schema::JsonValue(Json::Null);
    let template = ChatPrompt::new(None, schema, vec![user("{{no-such-helper q}}")]);
    let err = template.render(&registry(), &bindings()).unwrap_err();
    match &err {
        prompt_scaler::prompt::RenderError::Template { message } => {
            assert!(
                message.starts_with(
                    "Error rendering template \"{{no-such-helper q}}\" with bindings: [q, lang, n, ratio, nested]: "
                ),
                "unexpected message {:?}",
                message
            );
            assert!(message.len() > 95, "the reason is missing in {:?}", message);
        }
        other => panic!("unexpected error {:?}", other),
    }
    assert!(err.message().starts_with("Could not render prompt: Error rendering template"));
}

#[test]
fn prompt_files() {
    let toml = r#"
developer = "You are terse."

[response_schema]
description = "Answer"

[response_schema.properties.answer]
description = "The answer"

[[messages]]
user.text = "What is {{q}}?"
user.images = ["{{image}}"]

[[messages]]
assistant.json = { answer = "42", parts = [1, true] }

[[messages]]
user.text = "And {{r}}?"
"#;
    let prompt: ChatPrompt = prompt_scaler::toml_utils::from_toml_str(toml).unwrap();
    assert_eq!(prompt.developer.as_deref(), Some("You are terse."));
    assert_eq!(prompt.validate(), Ok(()));
    assert_eq!(prompt.messages.len(), 3);
    match &prompt.messages[0] {
        Message::User { text, images } => {
            assert_eq!(text.as_deref(), Some("What is {{q}}?"));
            assert_eq!(images, &vec!["{{image}}".to_string()]);
        }
        other => panic!("unexpected message {:?}", other),
    }
    match &prompt.messages[1] {
        Message::Assistant { json } => {
            assert_eq!(json.get("answer"), Some(&Json::Text("42".to_string())));
            assert_eq!(
                json.get("parts"),
                Some(&Json::Array(vec![
                    Json::Number(prompt_scaler::json::JsonNumber::PosInt(1)),
                    Json::Bool(true)
                ]))
            );
        }
        other => panic!("unexpected message {:?}", other),
    }
    assert!(matches!(prompt.response_schema, Schema::Internal(_)));
}

#[test]
fn prompt_file_errors() {
    let fault = |toml: &str| match prompt_scaler::toml_utils::from_toml_str::<ChatPrompt>(toml) {
        Err(TomlError::Value { error }) => error,
        other => panic!("unexpected result {:?}", other.map(|_| ())),
    };
    let schema = "[response_schema]\ndescription = \"d\"\n";
    assert_eq!(fault("messages = []\n"), PromptParseError::MissingResponseSchema);
    assert_eq!(
        fault("messages = []\n[response_schema]\n"),
        PromptParseError::Schema { error: SchemaParseError::MissingDescription }
    );
    assert_eq!(fault(schema), PromptParseError::MissingMessages);
    assert_eq!(
        fault(&format!("messages = 1\n{}", schema)),
        PromptParseError::InvalidMessages
    );
    assert_eq!(
        fault(&format!("messages = []\ndeveloper = 1\n{}", schema)),
        PromptParseError::InvalidDeveloper
    );
    assert_eq!(
        fault(&format!("messages = []\nother = 1\n{}", schema)),
        PromptParseError::UnexpectedKey
    );
    let message_fault = |message: &str| {
        fault(&format!("messages = [{{ user.text = \"ok\" }}, {}]\n{}", message, schema))
    };
    let at = |error: MessageParseError| PromptParseError::Message { index: 1, error };
    assert_eq!(message_fault("1"), at(MessageParseError::NotATable));
    assert_eq!(message_fault("{}"), at(MessageParseError::NotOneKey));
    assert_eq!(message_fault("{ system.text = \"x\" }"), at(MessageParseError::UnknownRole));
    assert_eq!(message_fault("{ user = 1 }"), at(MessageParseError::InvalidBody));
    assert_eq!(message_fault("{ user.text = 1 }"), at(MessageParseError::InvalidText));
    assert_eq!(message_fault("{ user.images = [1] }"), at(MessageParseError::InvalidImages));
    assert_eq!(message_fault("{ user.images = \"x\" }"), at(MessageParseError::InvalidImages));
    assert_eq!(message_fault("{ user = {} }"), at(MessageParseError::EmptyUser));
    assert_eq!(message_fault("{ user.images = [] }"), at(MessageParseError::EmptyUser));
    assert_eq!(
        message_fault("{ user = { text = \"x\", extra = 1 } }"),
        at(MessageParseError::UnexpectedKey)
    );
    assert_eq!(message_fault("{ assistant = {} }"), at(MessageParseError::MissingJson));
    assert_eq!(
        message_fault("{ assistant = { json = 1, extra = 2 } }"),
        at(MessageParseError::UnexpectedKey)
    );
    assert_eq!(
        at(MessageParseError::EmptyUser).message(),
        "message 1: expected a user message with either 'text' or 'images'"
    );
}

#[test]
fn render_outcome_keeps_the_text_or_names_the_template() {
    let bindings = vec![
        ("name".to_string(), Json::Text("x".to_string())),
        ("age".to_string(), Json::Null),
    ];
    assert_eq!(
        prompt_scaler::prompt::render_outcome("Hi {{name}}", &bindings, Ok("Hi x".to_string())),
        Ok("Hi x".to_string())
    );
    assert_eq!(
        prompt_scaler::prompt::render_outcome("Hi {{", &bindings, Err("bad syntax".to_string())),
        Err(prompt_scaler::prompt::RenderError::Template {
            message: "Error rendering template \"Hi {{\" with bindings: [name, age]: bad syntax".to_string()
        })
    );
    assert_eq!(
        prompt_scaler::prompt::render_outcome("", &vec![], Err(String::new())),
        Err(prompt_scaler::prompt::RenderError::Template { message: "Error rendering template \"\" with bindings: []: ".to_string() })
    );
}
