use prompt_scaler::drivers::echo::EchoDriver;
use prompt_scaler::drivers::{Cost, TokenUsage};
use prompt_scaler::json::{Json, JsonNumber};
use prompt_scaler::prompt::{ChatPrompt, Message};
use prompt_scaler::queues::chat::{
    begin_chat, check_response, from_resolved_result, ChatInput, ChatOutput, ChatStart,
};
use prompt_scaler::queues::ocr::engines::llm::{
    page_bindings, page_chat_input, page_output_from_chat, read_analysis, PageResponseError,
};
use prompt_scaler::queues::ocr::{ImageSource, OcrAnalysis, OcrInput, OcrOutput};
use prompt_scaler::queues::records::RecordError;
use prompt_scaler::queues::work::{WorkInput, WorkOutput, WorkStatus};
use prompt_scaler::retry::{default_jitter, resolve_attempts};
use prompt_scaler::schema::{InternalSchema, InternalSchemaDetails, ScalarType, Schema};

fn text(s: &str) -> Json {
    Json::Text(s.to_string())
}

fn number(n: u64) -> Json {
    Json::Number(JsonNumber::PosInt(n))
}

fn object(members: Vec<(&str, Json)>) -> Json {
    Json::Object(members.into_iter().map(|(k, v)| (k.to_string(), v)).collect())
}

#[test]
fn chat_input_record() {
    let record = object(vec![
        ("q", text("hi")),
        ("id", text("a")),
        ("skip_processing", Json::Bool(false)),
        ("passthrough_data", object(vec![("k", number(1))])),
        ("lang", text("en")),
    ]);
    let input = WorkInput::<ChatInput>::from_json(record).unwrap();
    assert_eq!(input.id, text("a"));
    assert_eq!(input.data.skip_processing, Some(false));
    assert_eq!(input.data.passthrough_data, Some(vec![("k".to_string(), number(1))]));
    assert_eq!(
        input.data.template_bindings,
        vec![("q".to_string(), text("hi")), ("lang".to_string(), text("en"))]
    );
}

#[test]
fn chat_input_record_with_defaults() {
    let input = WorkInput::<ChatInput>::from_json(object(vec![("id", number(7))])).unwrap();
    assert_eq!(input.id, number(7));
    assert_eq!(input.data.skip_processing, None);
    assert_eq!(input.data.passthrough_data, None);
    assert!(input.data.template_bindings.is_empty());
    let input = WorkInput::<ChatInput>::from_json(object(vec![
        ("id", Json::Null),
        ("skip_processing", Json::Null),
        ("passthrough_data", Json::Null),
    ]))
    .unwrap();
    assert_eq!(input.id, Json::Null);
    assert_eq!(input.data.skip_processing, None);
    assert_eq!(input.data.passthrough_data, None);
}

#[test]
fn chat_input_record_errors() {
    let read = |value: Json| WorkInput::<ChatInput>::from_json(value).map(|_| ()).unwrap_err();
    assert_eq!(read(Json::Array(vec![])), RecordError::NotAnObject);
    assert_eq!(read(text("x")), RecordError::NotAnObject);
    assert_eq!(read(object(vec![("q", text("hi"))])), RecordError::MissingId);
    assert_eq!(
        read(object(vec![("id", text("a")), ("skip_processing", text("true"))])),
        RecordError::InvalidSkipProcessing
    );
    assert_eq!(
        read(object(vec![("id", text("a")), ("passthrough_data", Json::Array(vec![]))])),
        RecordError::InvalidPassthroughData
    );
    assert_eq!(
        RecordError::MissingId.message(),
        "failed to deserialize input: missing field `id`"
    );
}

#[test]
fn ocr_input_record() {
    let input = WorkInput::<OcrInput>::from_json(object(vec![
        ("path", text("a.pdf")),
        ("id", text("x")),
        ("password", text("pw")),
    ]))
    .unwrap();
    assert_eq!(input.id, text("x"));
    assert_eq!(input.data.path, "a.pdf");
    assert_eq!(input.data.password.as_deref(), Some("pw"));
    let input =
        WorkInput::<OcrInput>::from_json(object(vec![("id", number(1)), ("path", text("b.png"))]))
            .unwrap();
    assert_eq!(input.data.password, None);
    let read = |value: Json| WorkInput::<OcrInput>::from_json(value).map(|_| ()).unwrap_err();
    assert_eq!(read(Json::Null), RecordError::NotAnObject);
    assert_eq!(read(object(vec![("path", text("a"))])), RecordError::MissingId);
    assert_eq!(read(object(vec![("id", text("a"))])), RecordError::MissingPath);
    assert_eq!(read(object(vec![("id", text("a")), ("path", number(1))])), RecordError::InvalidPath);
    assert_eq!(
        read(object(vec![("id", text("a")), ("path", text("p")), ("password", number(1))])),
        RecordError::InvalidPassword
    );
    assert_eq!(
        read(object(vec![("id", text("a")), ("path", text("p")), ("dpi", number(1))])),
        RecordError::UnknownField
    );
}

#[test]
fn echo_output_as_json() {
    // {"id":"a","data":{"template_bindings":{"q":"hi"}}} with the prompt "{{q}}".
    let schema = Schema::Internal(InternalSchema {
        description: "Echo".to_string(),
        details: InternalSchemaDetails::Object {
            properties: vec![(
                "echo".to_string(),
                InternalSchema {
                    description: "The echoed text".to_string(),
                    details: InternalSchemaDetails::Scalar {
                        scalar_type: ScalarType::String,
                        allowed_values: None,
                    },
                },
            )],
            title: None,
        },
    });
    let record = WorkInput::<ChatInput>::from_json(object(vec![("id", text("a")), ("q", text("hi"))]))
        .unwrap();
    let (id, bindings, passthrough) = match begin_chat(record) {
        ChatStart::Render { id, template_bindings, passthrough_data } => {
            (id, template_bindings, passthrough_data)
        }
        ChatStart::Skipped { .. } => panic!("the record was skipped"),
    };
    let rendered = match &bindings[..] {
        [(key, Json::Text(value))] if key == "q" => value.clone(),
        other => panic!("unexpected bindings {:?}", other),
    };
    let template = ChatPrompt::new(
        None,
        schema,
        vec![Message::User { text: Some("{{q}}".to_string()), images: vec![] }],
    );
    let prompt = template.fill(vec![rendered]).unwrap();
    let attempt = check_response(EchoDriver::new().chat_completion(&prompt), Ok(()));
    let outcome = resolve_attempts(&default_jitter(), vec![attempt]).unwrap();
    let out = from_resolved_result(id, None, outcome, passthrough);
    assert_eq!(
        out.to_json(),
        object(vec![
            ("id", text("a")),
            ("status", text("ok")),
            ("errors", Json::Array(vec![])),
            ("response", object(vec![("echo", text("hi"))])),
        ])
    );
}

#[test]
fn skipped_output_as_json() {
    // {"id":"s","data":{"skip_processing":true,"passthrough_data":{"k":1}}}
    let record = WorkInput::<ChatInput>::from_json(object(vec![
        ("id", text("s")),
        ("skip_processing", Json::Bool(true)),
        ("passthrough_data", object(vec![("k", number(1))])),
    ]))
    .unwrap();
    let out = match begin_chat(record) {
        ChatStart::Skipped { output } => output,
        ChatStart::Render { .. } => panic!("the record was not skipped"),
    };
    assert_eq!(
        out.to_json(),
        object(vec![
            ("id", text("s")),
            ("status", text("skipped")),
            ("errors", Json::Array(vec![])),
            ("passthrough_data", object(vec![("k", number(1))])),
        ])
    );
}

#[test]
fn chat_output_record_in_full() {
    let out = WorkOutput {
        id: number(3),
        status: WorkStatus::Okay,
        estimated_cost: Some(Cost { picodollars: 156_000_000 }),
        token_usage: Some(TokenUsage { prompt_tokens: 1000, completion_tokens: 10 }),
        errors: vec!["retried".to_string()],
        data: ChatOutput { response: Some(Json::Bool(true)), passthrough_data: None },
    };
    assert_eq!(
        out.to_json(),
        object(vec![
            ("id", number(3)),
            ("status", text("ok")),
            (
                "estimated_cost",
                Json::Number(JsonNumber::Real("0.000156000000".to_string()))
            ),
            (
                "token_usage",
                object(vec![("prompt_tokens", number(1000)), ("completion_tokens", number(10))])
            ),
            ("errors", Json::Array(vec![text("retried")])),
            ("response", Json::Bool(true)),
        ])
    );
}

#[test]
fn ocr_output_record() {
    let mut analysis = OcrAnalysis::default();
    analysis.image_source = ImageSource::PhotoOrVideo;
    analysis.contains_cutoff_text = true;
    let out = WorkOutput {
        id: text("d"),
        status: WorkStatus::Incomplete,
        estimated_cost: None,
        token_usage: None,
        errors: vec!["e".to_string()],
        data: OcrOutput {
            path: "a.pdf".to_string(),
            text: Some("t".to_string()),
            page_count: Some(2),
            analysis: Some(analysis),
        },
    };
    assert_eq!(
        out.to_json(),
        object(vec![
            ("id", text("d")),
            ("status", text("incomplete")),
            ("errors", Json::Array(vec![text("e")])),
            ("path", text("a.pdf")),
            ("text", text("t")),
            ("page_count", number(2)),
            (
                "analysis",
                object(vec![
                    ("image_source", text("PHOTO_OR_VIDEO")),
                    ("contains_handwriting", Json::Bool(false)),
                    ("contains_unreadable_or_ambiguous_text", Json::Bool(false)),
                    ("background_is_noisy", Json::Bool(false)),
                    ("contains_faint_text", Json::Bool(false)),
                    ("contains_blurred_text", Json::Bool(false)),
                    ("contains_distorted_text", Json::Bool(false)),
                    ("contains_cutoff_text", Json::Bool(true)),
                    ("glare_on_some_text", Json::Bool(false)),
                ])
            ),
        ])
    );
    let failed = WorkOutput {
        id: text("d"),
        status: WorkStatus::Failed,
        estimated_cost: None,
        token_usage: None,
        errors: vec![],
        data: OcrOutput { path: "a.pdf".to_string(), text: None, page_count: None, analysis: None },
    };
    assert_eq!(
        failed.to_json(),
        object(vec![
            ("id", text("d")),
            ("status", text("failed")),
            ("errors", Json::Array(vec![])),
            ("path", text("a.pdf")),
            ("text", Json::Null),
            ("page_count", Json::Null),
        ])
    );
}

fn analysis_json(source: &str) -> Json {
    object(vec![
        ("image_source", text(source)),
        ("contains_handwriting", Json::Bool(true)),
        ("contains_unreadable_or_ambiguous_text", Json::Bool(false)),
        ("background_is_noisy", Json::Bool(false)),
        ("contains_faint_text", Json::Bool(false)),
        ("contains_blurred_text", Json::Bool(false)),
        ("contains_distorted_text", Json::Bool(false)),
        ("contains_cutoff_text", Json::Bool(false)),
        ("glare_on_some_text", Json::Bool(true)),
    ])
}

fn chat_output(response: Option<Json>) -> WorkOutput<ChatOutput> {
    WorkOutput {
        id: Json::Array(vec![text("doc"), number(0)]),
        status: WorkStatus::Okay,
        estimated_cost: Some(Cost { picodollars: 9 }),
        token_usage: Some(TokenUsage { prompt_tokens: 1, completion_tokens: 2 }),
        errors: vec!["transient".to_string()],
        data: ChatOutput { response, passthrough_data: None },
    }
}

#[test]
fn page_answers() {
    let answer = object(vec![("full_markdown", text("# Page")), ("analysis", analysis_json("SCAN"))]);
    let page = page_output_from_chat(chat_output(Some(answer))).unwrap();
    assert_eq!(page.text.as_deref(), Some("# Page"));
    assert_eq!(page.errors, vec!["transient".to_string()]);
    assert_eq!(page.estimated_cost, Some(Cost { picodollars: 9 }));
    assert_eq!(page.token_usage, Some(TokenUsage { prompt_tokens: 1, completion_tokens: 2 }));
    let analysis = page.analysis.unwrap();
    assert_eq!(analysis.image_source, ImageSource::Scan);
    assert!(analysis.contains_handwriting && analysis.glare_on_some_text);
    assert!(!analysis.contains_faint_text);

    for empty in [None, Some(Json::Null)] {
        let page = page_output_from_chat(chat_output(empty)).unwrap();
        assert_eq!(page.text, None);
        assert_eq!(page.analysis, None);
        assert_eq!(page.errors, vec!["transient".to_string()]);
        assert_eq!(page.estimated_cost, Some(Cost { picodollars: 9 }));
    }
}

#[test]
fn malformed_page_answers() {
    let bad = [
        text("# Page"),
        object(vec![("full_markdown", text("x"))]),
        object(vec![("analysis", analysis_json("SCAN"))]),
        object(vec![("full_markdown", number(1)), ("analysis", analysis_json("SCAN"))]),
        object(vec![("full_markdown", text("x")), ("analysis", analysis_json("scan"))]),
        object(vec![("full_markdown", text("x")), ("analysis", Json::Null)]),
        object(vec![
            ("full_markdown", text("x")),
            ("analysis", analysis_json("SCAN")),
            ("extra", Json::Null),
        ]),
    ];
    for answer in bad {
        let result = page_output_from_chat(chat_output(Some(answer.clone())));
        assert_eq!(result.map(|_| ()), Err(PageResponseError::Malformed), "answer {:?}", answer);
    }
    assert_eq!(PageResponseError::Malformed.message(), "failed to parse LLM OCR response");
}

#[test]
fn analyses() {
    assert!(read_analysis(&analysis_json("DIGITAL")).is_some());
    assert!(read_analysis(&analysis_json("PHOTO_OR_VIDEO")).is_some());
    assert_eq!(read_analysis(&analysis_json("Digital")), None);
    assert_eq!(read_analysis(&Json::Null), None);
    assert_eq!(read_analysis(&object(vec![("image_source", text("SCAN"))])), None);
    let mut extended = match analysis_json("SCAN") {
        Json::Object(members) => members,
        _ => unreachable!(),
    };
    extended.push(("other".to_string(), Json::Bool(true)));
    assert_eq!(read_analysis(&Json::Object(extended)), None);
}

#[test]
fn page_requests() {
    let bindings = page_bindings("data:p".to_string(), "data:e".to_string(), "# Example".to_string());
    assert_eq!(
        bindings,
        vec![
            ("page_data_url".to_string(), text("data:p")),
            ("example_input_data_url".to_string(), text("data:e")),
            ("example_output".to_string(), text("# Example")),
        ]
    );
    let input = page_chat_input(text("doc"), 4, bindings.clone());
    assert_eq!(input.id, Json::Array(vec![text("doc"), number(4)]));
    assert_eq!(input.data.skip_processing, None);
    assert_eq!(input.data.passthrough_data, None);
    assert_eq!(input.data.template_bindings, bindings);
}

#[test]
fn json_texts_become_values() {
    let value = prompt_scaler::json::json_from_str(
        r#"{"s":"x","u":18446744073709551615,"i":-3,"r":1.5,"e":1e2,"b":false,"n":null,"a":[1,{"k":[]}]}"#,
    )
    .unwrap();
    assert_eq!(value.get("s"), Some(&text("x")));
    assert_eq!(value.get("u"), Some(&number(u64::MAX)));
    assert_eq!(value.get("i"), Some(&Json::Number(JsonNumber::NegInt(-3))));
    assert_eq!(value.get("r"), Some(&Json::Number(JsonNumber::Real("1.5".to_string()))));
    assert_eq!(value.get("e"), Some(&Json::Number(JsonNumber::Real("100.0".to_string()))));
    assert_eq!(value.get("b"), Some(&Json::Bool(false)));
    assert_eq!(value.get("n"), Some(&Json::Null));
    assert_eq!(
        value.get("a"),
        Some(&Json::Array(vec![number(1), object(vec![("k", Json::Array(vec![]))])]))
    );
    assert_eq!(value.get("missing"), None);
    assert!(prompt_scaler::json::json_from_str("{").is_err());
    assert!(prompt_scaler::json::json_from_str("").is_err());
    assert_eq!(prompt_scaler::json::json_from_str(" 7 "), Ok(number(7)));
}

#[test]
fn input_lines() {
    let input =
        WorkInput::<ChatInput>::from_json_line(r#"{"id":"a","q":"hi","skip_processing":null}"#)
            .unwrap();
    assert_eq!(input.id, text("a"));
    assert_eq!(input.data.skip_processing, None);
    assert_eq!(input.data.template_bindings, vec![("q".to_string(), text("hi"))]);
    let err = WorkInput::<ChatInput>::from_json_line(r#"{"q":"hi"}"#).map(|_| ()).unwrap_err();
    assert_eq!(err, prompt_scaler::queues::records::LineError::Record { error: RecordError::MissingId });
    let err = WorkInput::<ChatInput>::from_json_line("{not json").map(|_| ()).unwrap_err();
    assert!(matches!(err, prompt_scaler::queues::records::LineError::Syntax { .. }));
    let input =
        WorkInput::<OcrInput>::from_json_line(r#"{"id":1,"path":"a.pdf","password":"pw"}"#).unwrap();
    assert_eq!(input.id, number(1));
    assert_eq!(input.data.path, "a.pdf");
    assert_eq!(input.data.password.as_deref(), Some("pw"));
    let err = WorkInput::<OcrInput>::from_json_line("[]").map(|_| ()).unwrap_err();
    assert_eq!(err, prompt_scaler::queues::records::LineError::Record { error: RecordError::NotAnObject });
}

#[test]
fn prompts_read_from_json_too() {
    let json = r#"{
        "response_schema": {"description": "d", "properties": {"a": {"description": "x", "type": "number"}}},
        "messages": [{"user": {"text": "{{q}}"}}]
    }"#;
    let prompt: ChatPrompt =
        prompt_scaler::toml_utils::read_json_or_toml(json, true).map_err(|e| e.message()).unwrap();
    assert_eq!(prompt.developer, None);
    assert_eq!(prompt.messages.len(), 1);
    assert_eq!(
        prompt.response_schema,
        Schema::Internal(InternalSchema {
            description: "d".to_string(),
            details: InternalSchemaDetails::Object {
                properties: vec![(
                    "a".to_string(),
                    InternalSchema {
                        description: "x".to_string(),
                        details: InternalSchemaDetails::Scalar {
                            scalar_type: ScalarType::Number,
                            allowed_values: None,
                        },
                    },
                )],
                title: None,
            },
        })
    );
    let as_toml = prompt_scaler::toml_utils::read_json_or_toml::<ChatPrompt>(json, false);
    assert!(matches!(as_toml, Err(prompt_scaler::toml_utils::TomlError::Syntax { .. })));
}

#[test]
fn a_number_that_is_none_is_written_as_null() {
    let real = |t: &str| Json::Number(prompt_scaler::json::JsonNumber::Real(t.to_string()));
    assert_eq!(real("0.25").to_json_string(), "0.25");
    assert_eq!(real("1e5").to_json_string(), "100000.0");
    assert_eq!(real("abc").to_json_string(), "null");
    assert_eq!(real("true").to_json_string(), "null");
    assert_eq!(real("").to_json_string(), "null");
    let nested = Json::Object(vec![
        ("a".to_string(), Json::Array(vec![real("1.5"), real("one"), Json::Bool(true)])),
        ("b".to_string(), real("NaN")),
    ]);
    assert_eq!(nested.to_json_string(), "{\"a\":[1.5,null,true],\"b\":null}");
    assert_eq!(
        nested.written_copy(),
        Json::Object(vec![
            ("a".to_string(), Json::Array(vec![real("1.5"), Json::Null, Json::Bool(true)])),
            ("b".to_string(), Json::Null),
        ])
    );
}

#[test]
fn of_a_repeated_key_the_first_member_is_written() {
    let twice = Json::Object(vec![
        ("a".to_string(), Json::Number(JsonNumber::PosInt(1))),
        ("b".to_string(), Json::Object(vec![
            ("x".to_string(), Json::Null),
            ("x".to_string(), Json::Bool(true)),
        ])),
        ("a".to_string(), Json::Number(JsonNumber::PosInt(2))),
    ]);
    assert_eq!(twice.get("a"), Some(&Json::Number(JsonNumber::PosInt(1))));
    assert_eq!(twice.to_json_string(), "{\"a\":1,\"b\":{\"x\":null}}");
    assert_eq!(
        twice.written_copy(),
        Json::Object(vec![
            ("a".to_string(), Json::Number(JsonNumber::PosInt(1))),
            ("b".to_string(), Json::Object(vec![("x".to_string(), Json::Null)])),
        ])
    );
}
