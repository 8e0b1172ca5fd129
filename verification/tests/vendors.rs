use prompt_scaler::data_url::{decode_base64, read_data_url_image};
use prompt_scaler::drivers::bedrock::{
    build_converse_request, image_format_of, read_converse_response, ConverseFault,
    ConverseRequestError, InferenceOptions,
};
use prompt_scaler::drivers::native::{
    message_to_chat, prepare_schema, read_chat_response, to_chat_request, ChatMessage, ChatRole,
    ContentPart, MessageContent, MessageFault,
};
use prompt_scaler::drivers::vertex::{
    extract_assistant_text, message_to_content, read_generate_response, to_vertex_contents,
    GenerateResponse, ResponseContent, ResponseFault, UsageMetadata, VertexRequestError,
};
use prompt_scaler::drivers::TokenUsage;
use prompt_scaler::json::{Json, JsonNumber};
use prompt_scaler::prompt::{ChatPrompt, Message, PromptError, Rendered};
use prompt_scaler::retry::LlmRetryResult;
use prompt_scaler::schema::Schema;

const PNG_URL: &str = "data:image/png;base64,aGk=";

fn txt(s: &str) -> Json {
    Json::Text(s.to_string())
}

fn obj(members: Vec<(&str, Json)>) -> Json {
    Json::Object(members.into_iter().map(|(k, v)| (k.to_string(), v)).collect())
}

fn num(n: u64) -> Json {
    Json::Number(JsonNumber::PosInt(n))
}

fn user(text: Option<&str>, images: Vec<&str>) -> Message {
    Message::User {
        text: text.map(|t| t.to_string()),
        images: images.into_iter().map(|i| i.to_string()).collect(),
    }
}

fn prompt_of(developer: Option<&str>, messages: Vec<Message>) -> ChatPrompt<Rendered> {
    // Some of these prompts are out of order on purpose, so the messages are
    // put into a prompt that was filled in order.
    let template = ChatPrompt::new(None, Schema::JsonValue(Json::Null), vec![user(Some("x"), vec![])]);
    let mut prompt = template.fill(vec![]).unwrap();
    prompt.developer = developer.map(|d| d.to_string());
    prompt.messages = messages;
    prompt
}

#[test]
fn base64_text_is_decoded() {
    assert_eq!(decode_base64("aGk="), Some(b"hi".to_vec()));
    assert_eq!(decode_base64(""), Some(vec![]));
    assert_eq!(decode_base64("aGk"), None);
    assert_eq!(decode_base64("a b!"), None);
    assert_eq!(read_data_url_image(PNG_URL), Some(("image/png".to_string(), b"hi".to_vec())));
    assert_eq!(read_data_url_image("data:image/png;base64,***"), None);
    assert_eq!(read_data_url_image("https://example.com/a.png"), None);
}

#[test]
fn vertex_contents_of_a_prompt() {
    let prompt = prompt_of(
        Some("Be brief."),
        vec![
            user(Some("Look"), vec![PNG_URL]),
            Message::Assistant { json: obj(vec![("a", num(1))]) },
            user(Some("Again"), vec![]),
        ],
    );
    let contents = to_vertex_contents(&prompt).unwrap();
    assert_eq!(
        contents,
        vec![
            obj(vec![("role", txt("model")), ("parts", Json::Array(vec![obj(vec![("text", txt("Be brief."))])]))]),
            obj(vec![
                ("role", txt("user")),
                (
                    "parts",
                    Json::Array(vec![
                        obj(vec![("text", txt("Look"))]),
                        obj(vec![(
                            "inlineData",
                            obj(vec![("mimeType", txt("image/png")), ("data", txt("aGk="))])
                        )]),
                    ])
                ),
            ]),
            obj(vec![
                ("role", txt("model")),
                ("parts", Json::Array(vec![obj(vec![("text", txt("{\"a\":1}"))])]))
            ]),
            obj(vec![("role", txt("user")), ("parts", Json::Array(vec![obj(vec![("text", txt("Again"))])]))]),
        ]
    );
}

#[test]
fn vertex_refuses_what_it_cannot_send() {
    assert_eq!(
        message_to_content(&user(Some("  \n"), vec![]), 4),
        Err(VertexRequestError::EmptyText { index: 4 })
    );
    assert_eq!(
        message_to_content(&user(Some("x"), vec![PNG_URL, "https://example.com/a.png"]), 2),
        Err(VertexRequestError::NotInlineImage { index: 2 })
    );
    assert_eq!(
        message_to_content(&user(None, vec!["data:image/png;base64,@@@"]), 0),
        Err(VertexRequestError::NotInlineImage { index: 0 })
    );
    let prompt = prompt_of(None, vec![user(Some("ok"), vec![]), user(Some(""), vec![]), user(None, vec!["x"])]);
    assert_eq!(to_vertex_contents(&prompt), Err(VertexRequestError::EmptyText { index: 1 }));
    assert_eq!(
        VertexRequestError::EmptyText { index: 1 }.message(),
        "User message has empty text: message 1"
    );
    assert_eq!(
        VertexRequestError::NotInlineImage { index: 12 }.message(),
        "Only data URLs are supported for images in Vertex driver: message 12"
    );
}

fn vertex_response(role: &str, parts: Vec<Option<&str>>) -> GenerateResponse {
    GenerateResponse {
        candidates: vec![Some(ResponseContent {
            role: role.to_string(),
            parts: parts.into_iter().map(|p| p.map(|t| t.to_string())).collect(),
        })],
        usage_metadata: Some(UsageMetadata {
            prompt_token_count: 10,
            thoughts_token_count: 3,
            candidates_token_count: 4,
        }),
    }
}

#[test]
fn vertex_responses_are_read() {
    match read_generate_response(&vertex_response("model", vec![None, Some("{\"a\": [1]}"), Some("2")])) {
        LlmRetryResult::Okay { output } => {
            assert_eq!(output.response, obj(vec![("a", Json::Array(vec![num(1)]))]));
            assert_eq!(output.token_usage, Some(TokenUsage { prompt_tokens: 10, completion_tokens: 7 }));
        }
        other => panic!("unexpected {other:?}"),
    }
    match read_generate_response(&vertex_response("model", vec![Some("not json")])) {
        LlmRetryResult::Transient { .. } => {}
        other => panic!("unexpected {other:?}"),
    }
    match read_generate_response(&vertex_response("user", vec![Some("1")])) {
        LlmRetryResult::Transient { error } => {
            assert_eq!(error, "Vertex AI response content role is not 'model'")
        }
        other => panic!("unexpected {other:?}"),
    }
    match read_generate_response(&vertex_response("model", vec![None])) {
        LlmRetryResult::Transient { error } => assert_eq!(error, "No text response found in Vertex AI response"),
        other => panic!("unexpected {other:?}"),
    }
    match read_generate_response(&GenerateResponse { candidates: vec![], usage_metadata: None }) {
        LlmRetryResult::Fatal { error } => {
            assert_eq!(error, "Vertex AI response did not contain any candidates")
        }
        other => panic!("unexpected {other:?}"),
    }
    match read_generate_response(&GenerateResponse { candidates: vec![None], usage_metadata: None }) {
        LlmRetryResult::Fatal { error } => assert_eq!(error, "Vertex AI response did not contain any content"),
        other => panic!("unexpected {other:?}"),
    }
    let content = ResponseContent { role: "model".to_string(), parts: vec![None, Some("x".to_string())] };
    assert_eq!(extract_assistant_text(&content), Ok(&"x".to_string()));
    assert!(ResponseFault::NoText.is_transient());
    assert!(!ResponseFault::NoContent.is_transient());
}

#[test]
fn native_messages() {
    assert_eq!(
        message_to_chat(&user(Some("hi"), vec![])),
        Ok(ChatMessage { role: ChatRole::User, content: MessageContent::Text { text: "hi".to_string() } })
    );
    assert_eq!(
        message_to_chat(&user(Some("hi"), vec![PNG_URL])),
        Ok(ChatMessage {
            role: ChatRole::User,
            content: MessageContent::Parts {
                parts: vec![
                    ContentPart::Text { text: "hi".to_string() },
                    ContentPart::Image { content_type: "image/png".to_string(), data: "aGk=".to_string() },
                ]
            }
        })
    );
    assert_eq!(
        message_to_chat(&Message::Assistant { json: obj(vec![("b", Json::Bool(true))]) }),
        Ok(ChatMessage {
            role: ChatRole::Assistant,
            content: MessageContent::Text { text: "{\"b\":true}".to_string() }
        })
    );
    assert_eq!(message_to_chat(&user(None, vec![])), Err(MessageFault::NoContent));
    assert_eq!(message_to_chat(&user(Some("x"), vec!["a.png"])), Err(MessageFault::UnknownContentType));
    assert_eq!(MessageFault::NoContent.message(), "No text or images in user message");
    let request = to_chat_request(&prompt_of(Some("sys"), vec![user(Some("a"), vec![])])).unwrap();
    assert_eq!(request.system, Some("sys".to_string()));
    assert_eq!(request.messages.len(), 1);
    assert_eq!(
        to_chat_request(&prompt_of(None, vec![user(Some("a"), vec![]), user(None, vec![])])),
        Err(MessageFault::NoContent)
    );
}

#[test]
fn native_schema_loses_its_dialect() {
    let schema = obj(vec![
        ("$schema", txt("https://json-schema.org/draft/2020-12/schema")),
        ("type", txt("object")),
        ("title", txt("T")),
    ]);
    assert_eq!(prepare_schema(schema), Some(obj(vec![("type", txt("object")), ("title", txt("T"))])));
    assert_eq!(prepare_schema(obj(vec![])), Some(obj(vec![])));
    assert_eq!(prepare_schema(Json::Array(vec![])), None);
    assert_eq!(prepare_schema(Json::Null), None);
}

#[test]
fn native_responses_are_read() {
    match read_chat_response(Some(Some("{\"x\": 1}")), Some(5), Some(-2)) {
        LlmRetryResult::Okay { output } => {
            assert_eq!(output.response, obj(vec![("x", num(1))]));
            assert_eq!(output.token_usage, Some(TokenUsage { prompt_tokens: 5, completion_tokens: 0 }));
        }
        other => panic!("unexpected {other:?}"),
    }
    match read_chat_response(Some(Some("1")), Some(5), None) {
        LlmRetryResult::Okay { output } => assert_eq!(output.token_usage, None),
        other => panic!("unexpected {other:?}"),
    }
    match read_chat_response(Some(Some("{")), None, None) {
        LlmRetryResult::Transient { .. } => {}
        other => panic!("unexpected {other:?}"),
    }
    match read_chat_response(Some(None), None, None) {
        LlmRetryResult::Fatal { error } => assert_eq!(error, "Expected text content in response"),
        other => panic!("unexpected {other:?}"),
    }
    match read_chat_response(None, None, None) {
        LlmRetryResult::Fatal { error } => assert_eq!(error, "No content in response"),
        other => panic!("unexpected {other:?}"),
    }
}

fn no_options() -> InferenceOptions {
    InferenceOptions { max_tokens: None, temperature: None, top_p: None }
}

#[test]
fn bedrock_requests() {
    let schema = obj(vec![("type", txt("object"))]);
    let prompt = prompt_of(
        Some("Be brief."),
        vec![
            user(Some("One"), vec![PNG_URL]),
            Message::Assistant { json: obj(vec![("n", num(1))]) },
            user(Some("Two"), vec![]),
        ],
    );
    let options = InferenceOptions {
        max_tokens: Some(64),
        temperature: Some(Json::Number(JsonNumber::Real("0.25".to_string()))),
        top_p: None,
    };
    let request = build_converse_request("a-model", &prompt, schema.clone(), options).unwrap();
    let tool_result = obj(vec![(
        "toolResult",
        obj(vec![
            ("toolUseId", txt("result_1")),
            ("content", Json::Array(vec![obj(vec![("text", txt("OK"))])])),
            ("status", txt("success")),
        ]),
    )]);
    let expected = obj(vec![
        ("modelId", txt("a-model")),
        ("system", Json::Array(vec![obj(vec![("text", txt("Be brief."))])])),
        (
            "messages",
            Json::Array(vec![
                obj(vec![
                    ("role", txt("user")),
                    (
                        "content",
                        Json::Array(vec![
                            obj(vec![("text", txt("One"))]),
                            obj(vec![(
                                "image",
                                obj(vec![
                                    ("format", txt("png")),
                                    ("source", obj(vec![("bytes", txt("aGk="))])),
                                ]),
                            )]),
                        ]),
                    ),
                ]),
                obj(vec![
                    ("role", txt("assistant")),
                    (
                        "content",
                        Json::Array(vec![obj(vec![(
                            "toolUse",
                            obj(vec![
                                ("toolUseId", txt("result_1")),
                                ("name", txt("report_result")),
                                ("input", obj(vec![("n", num(1))])),
                            ]),
                        )])]),
                    ),
                ]),
                obj(vec![
                    ("role", txt("user")),
                    ("content", Json::Array(vec![tool_result, obj(vec![("text", txt("Two"))])])),
                ]),
            ]),
        ),
        (
            "inferenceConfig",
            obj(vec![("maxTokens", num(64)), ("temperature", Json::Number(JsonNumber::Real("0.25".to_string())))]),
        ),
        (
            "toolConfig",
            obj(vec![
                (
                    "tools",
                    Json::Array(vec![obj(vec![(
                        "toolSpec",
                        obj(vec![("name", txt("report_result")), ("inputSchema", obj(vec![("json", schema)]))]),
                    )])]),
                ),
                ("toolChoice", obj(vec![("tool", obj(vec![("name", txt("report_result"))]))])),
            ]),
        ),
    ]);
    assert_eq!(request, expected);
}

#[test]
fn bedrock_refuses_what_it_cannot_send() {
    let tiff = "data:image/tiff;base64,aGk=";
    let prompt = prompt_of(
        None,
        vec![
            user(Some("a"), vec![PNG_URL]),
            Message::Assistant { json: Json::Null },
            user(Some("b"), vec![PNG_URL, tiff]),
        ],
    );
    assert_eq!(
        build_converse_request("m", &prompt, Json::Null, no_options()),
        Err(ConverseRequestError::UnusableImage { index: 2 })
    );
    let remote = prompt_of(None, vec![user(None, vec!["https://example.com/a.png"])]);
    assert_eq!(
        build_converse_request("m", &remote, Json::Null, no_options()),
        Err(ConverseRequestError::UnusableImage { index: 0 })
    );
    let unordered = prompt_of(None, vec![Message::Assistant { json: Json::Null }]);
    assert!(matches!(
        build_converse_request("m", &unordered, Json::Null, no_options()),
        Err(ConverseRequestError::Prompt { .. })
    ));
    let empty = prompt_of(None, vec![]);
    assert_eq!(
        build_converse_request("m", &empty, Json::Null, no_options()),
        Err(ConverseRequestError::Prompt { error: PromptError::NoMessages })
    );
    assert_eq!(image_format_of("image/jpeg"), Some("jpeg"));
    assert_eq!(image_format_of("image/gif"), Some("gif"));
    assert_eq!(image_format_of("image/webp"), Some("webp"));
    assert_eq!(image_format_of("image/tiff"), None);
    assert_eq!(image_format_of("png"), None);
}

fn converse_response(stop_reason: &str, blocks: Vec<Json>) -> Json {
    obj(vec![
        ("stopReason", txt(stop_reason)),
        ("output", obj(vec![("message", obj(vec![("role", txt("assistant")), ("content", Json::Array(blocks))]))])),
        ("usage", obj(vec![("inputTokens", num(21)), ("outputTokens", num(8))])),
    ])
}

fn tool_use(input: Json) -> Json {
    obj(vec![("toolUse", obj(vec![("toolUseId", txt("t1")), ("name", txt("report_result")), ("input", input)]))])
}

#[test]
fn bedrock_responses_are_read() {
    let answer = obj(vec![("sum", num(3))]);
    match read_converse_response(&converse_response("tool_use", vec![tool_use(answer.clone())])) {
        LlmRetryResult::Okay { output } => {
            assert_eq!(output.response, answer);
            assert_eq!(output.token_usage, Some(TokenUsage { prompt_tokens: 21, completion_tokens: 8 }));
        }
        other => panic!("unexpected {other:?}"),
    }
    match read_converse_response(&converse_response("end_turn", vec![tool_use(answer.clone())])) {
        LlmRetryResult::Transient { error } => assert_eq!(error, "Unexpected stop reason"),
        other => panic!("unexpected {other:?}"),
    }
    match read_converse_response(&converse_response("tool_use", vec![])) {
        LlmRetryResult::Transient { error } => {
            assert_eq!(error, "Bedrock response contained 0 content blocks, expected 1")
        }
        other => panic!("unexpected {other:?}"),
    }
    match read_converse_response(&converse_response("tool_use", vec![obj(vec![("text", txt("3"))])])) {
        LlmRetryResult::Transient { error } => {
            assert_eq!(error, "Bedrock response contained unexpected content block")
        }
        other => panic!("unexpected {other:?}"),
    }
    match read_converse_response(&obj(vec![("stopReason", txt("tool_use"))])) {
        LlmRetryResult::Transient { error } => assert_eq!(error, "Bedrock response did not contain any output"),
        other => panic!("unexpected {other:?}"),
    }
    match read_converse_response(&obj(vec![("stopReason", txt("tool_use")), ("output", obj(vec![]))])) {
        LlmRetryResult::Transient { error } => assert_eq!(error, "Bedrock response did not contain a message"),
        other => panic!("unexpected {other:?}"),
    }
    assert_eq!(
        ConverseFault::BlockCount { found: 2 }.message(),
        "Bedrock response contained 2 content blocks, expected 1"
    );
}
