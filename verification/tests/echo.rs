use prompt_scaler::drivers::echo::{
    extract_last_user_message, validate_schema, EchoDriver, EchoError,
};
use prompt_scaler::json::Json;
use prompt_scaler::prompt::{ChatPrompt, Message};
use prompt_scaler::retry::LlmRetryResult;
use prompt_scaler::toml_utils::from_toml_str;
use prompt_scaler::schema::{
    ExternalSchema, InternalSchema, InternalSchemaDetails, ScalarType, Schema,
};

fn scalar(description: &str, scalar_type: ScalarType) -> InternalSchema {
    InternalSchema {
        description: description.to_string(),
        details: InternalSchemaDetails::Scalar { scalar_type, allowed_values: None },
    }
}

fn object(description: &str, properties: Vec<(&str, InternalSchema)>) -> Schema {
    Schema::Internal(InternalSchema {
        description: description.to_string(),
        details: InternalSchemaDetails::Object {
            properties: properties.into_iter().map(|(k, v)| (k.to_string(), v)).collect(),
            title: None,
        },
    })
}

#[test]
fn test_validate_schema_valid() {
    let schema_toml = r#"
            description = "Echo response"

            [properties.echo]
            description = "The echoed text"
            type = "string"
        "#;
    let schema: Schema = from_toml_str(schema_toml).unwrap();
    assert!(validate_schema(&schema).is_ok());
}

#[test]
fn test_validate_schema_invalid_cases() {
    let cases = [
        (
            r#"
                    description = "Multiple properties"
                    [properties.echo]
                    description = "Echo field"
                    type = "string"
                    [properties.extra]
                    description = "Extra field"
                    type = "string"
                "#,
            "exactly one property",
        ),
        (
            r#"
                    description = "Wrong property name"
                    [properties.wrong_name]
                    description = "Wrong field"
                    type = "string"
                "#,
            "property named 'echo'",
        ),
        (
            r#"
                    description = "Wrong type"
                    [properties.echo]
                    description = "Echo as number"
                    type = "number"
                "#,
            "string type",
        ),
        (
            r#"
                    description = "Array not object"
                    [items]
                    description = "Item"
                    type = "string"
                "#,
            "internal schema of type Object",
        ),
    ];

    for (schema_toml, expected_error) in cases {
        let schema: Schema = from_toml_str(schema_toml).unwrap();
        let err = validate_schema(&schema).unwrap_err().message();
        assert!(
            err.contains(expected_error),
            "Expected error to contain '{}', but got: {}",
            expected_error,
            err
        );
    }

    // Also test JsonValue variant (can't be deserialized from TOML)
    let schema = Schema::JsonValue(Json::Object(vec![(
        "type".to_string(),
        Json::Text("object".to_string()),
    )]));
    let err = validate_schema(&schema).unwrap_err();
    assert!(err.message().contains("internal schema"));
}

#[test]
fn test_extract_last_user_message_no_user_message() {
    let messages = vec![Message::Assistant {
        json: Json::Object(vec![("echo".to_string(), Json::Text("test".to_string()))]),
    }];
    let err = extract_last_user_message(&messages).unwrap_err();
    assert!(err.message().contains("No user message"));
}

#[test]
fn schema_errors_are_told_apart() {
    let external = Schema::External(ExternalSchema { path: "schema.json".to_string() });
    assert_eq!(validate_schema(&external), Err(EchoError::NotInternalObject));
    assert_eq!(validate_schema(&object("none", vec![])), Err(EchoError::PropertyCount { found: 0 }));
    assert_eq!(
        EchoError::PropertyCount { found: 2 }.message(),
        "Echo driver requires exactly one property in the schema, found 2"
    );
    let with_enum = object(
        "enum",
        vec![(
            "echo",
            InternalSchema {
                description: "limited".to_string(),
                details: InternalSchemaDetails::Scalar {
                    scalar_type: ScalarType::String,
                    allowed_values: Some(vec![Json::Text("a".to_string())]),
                },
            },
        )],
    );
    assert_eq!(validate_schema(&with_enum), Err(EchoError::EchoNotString));
}

#[test]
fn last_user_text_skips_messages_without_text() {
    let messages = vec![
        Message::User { text: Some("first".to_string()), images: vec![] },
        Message::Assistant { json: Json::Null },
        Message::User { text: Some("second".to_string()), images: vec![] },
        Message::Assistant { json: Json::Null },
        Message::User { text: None, images: vec!["data:image/png;base64,AA==".to_string()] },
    ];
    assert_eq!(extract_last_user_message(&messages), Ok("second".to_string()));
    assert_eq!(extract_last_user_message(&[]), Err(EchoError::NoUserMessage));
}

#[test]
fn echo_answers_with_the_last_user_text() {
    let schema = object("Echo", vec![("echo", scalar("text", ScalarType::String))]);
    let messages = || {
        vec![
            Message::User { text: Some("one".to_string()), images: vec![] },
            Message::Assistant { json: Json::Null },
            Message::User { text: Some("two".to_string()), images: vec![] },
        ]
    };
    let template = ChatPrompt::new(None, schema, messages());
    let prompt = template.fill(template.template_texts()).unwrap();
    match EchoDriver::new().chat_completion(&prompt) {
        LlmRetryResult::Okay { output } => {
            assert_eq!(
                output.response,
                Json::Object(vec![("echo".to_string(), Json::Text("two".to_string()))])
            );
            assert_eq!(output.token_usage, None);
        }
        other => panic!("unexpected attempt {:?}", other),
    }
}

#[test]
fn echo_refuses_a_wrong_schema_fatally() {
    let schema = object("Echo", vec![("other", scalar("text", ScalarType::String))]);
    let messages = || vec![Message::User { text: Some("one".to_string()), images: vec![] }];
    let template = ChatPrompt::new(None, schema, messages());
    let prompt = template.fill(template.template_texts()).unwrap();
    match EchoDriver::new().chat_completion(&prompt) {
        LlmRetryResult::Fatal { error } => {
            assert_eq!(error, "Echo driver requires a property named 'echo' in the schema")
        }
        other => panic!("unexpected attempt {:?}", other),
    }
}

#[test]
fn echo_refuses_a_prompt_without_text_fatally() {
    let schema = object("Echo", vec![("echo", scalar("text", ScalarType::String))]);
    let messages = || vec![Message::User { text: None, images: vec!["u".to_string()] }];
    let template = ChatPrompt::new(None, schema, messages());
    let prompt = template.fill(template.template_texts()).unwrap();
    match EchoDriver::new().chat_completion(&prompt) {
        LlmRetryResult::Fatal { error } => assert_eq!(error, "No user message found in prompt"),
        other => panic!("unexpected attempt {:?}", other),
    }
}
