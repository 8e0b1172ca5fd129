use prompt_scaler::json::{Json, JsonNumber};
use prompt_scaler::toml_utils::{from_toml_str, toml_to_json_value, TomlError};
use prompt_scaler::schema::{
    get_schema_title, ExternalSchema, InternalSchema, InternalSchemaDetails, ScalarType, Schema,
    SchemaParseError, SchemaSource, ToJsonSchema,
};

fn text(s: &str) -> Json {
    Json::Text(s.to_string())
}

fn scalar(description: &str) -> InternalSchema {
    InternalSchema {
        description: description.to_string(),
        details: InternalSchemaDetails::Scalar {
            scalar_type: ScalarType::default(),
            allowed_values: None,
        },
    }
}

fn sign_schema() -> InternalSchema {
    InternalSchema {
        description: "Information to extract from each image.".to_string(),
        details: InternalSchemaDetails::Object {
            properties: vec![
                ("sign_text".to_string(), scalar("Text appearing on the sign in the image.")),
                (
                    "sign_holder".to_string(),
                    scalar("A one-word description of the entity holding the sign."),
                ),
            ],
            title: None,
        },
    }
}

#[test]
fn test_external_schema() {
    let schema = Json::Object(vec![(
        "path".to_string(),
        text("tests/fixtures/external_schemas/schema_ts.json"),
    )]);
    let schema = Schema::from_value(&schema).unwrap();
    let expected = Schema::External(ExternalSchema {
        path: "tests/fixtures/external_schemas/schema_ts.json".to_string(),
    });
    assert_eq!(schema, expected);
}

#[test]
fn test_internal_schema_error() {
    let schema_toml = r#"
description = "Information to extract from each image."

[properties.sign_text]
# No description.
"#;
    let result = from_toml_str::<InternalSchema>(schema_toml);
    assert!(result.is_err(), "Expected error, got: {:?}", result);
    let msg = result.unwrap_err().message();
    assert!(msg.contains("description"), "Unexpected error message: {}", msg);
}

#[test]
fn test_internal_schema() {
    let schema_toml = r#"
description = "Information to extract from each image."

[properties.sign_text]
description = "Text appearing on the sign in the image."

[properties.sign_holder]
description = "A one-word description of the entity holding the sign."
"#;
    let schema = from_toml_str::<InternalSchema>(schema_toml).unwrap();
    let mut by_hand = sign_schema();
    if let InternalSchemaDetails::Object { properties, .. } = &mut by_hand.details {
        properties.sort_by(|a, b| a.0.cmp(&b.0));
    }
    assert_eq!(schema, by_hand);
    let schema_json = schema.to_json_schema();
    assert_eq!(schema_json.get("description"), Some(&text("Information to extract from each image.")));
    assert_eq!(schema_json.get("type"), Some(&text("object")));
    assert_eq!(schema_json.get("additionalProperties"), Some(&Json::Bool(false)));
    // Sort `required` properties to compare them as a set.
    let mut required = match schema_json.get("required") {
        Some(Json::Array(items)) => {
            items.iter().map(|item| item.as_str().unwrap().to_string()).collect::<Vec<_>>()
        }
        other => panic!("unexpected `required`: {:?}", other),
    };
    required.sort();
    assert_eq!(required, vec!["sign_holder".to_string(), "sign_text".to_string()]);
    let properties = schema_json.get("properties").unwrap();
    assert_eq!(
        properties.get("sign_text"),
        Some(&Json::Object(vec![
            ("type".to_string(), text("string")),
            ("description".to_string(), text("Text appearing on the sign in the image.")),
        ]))
    );
    assert_eq!(
        properties.get("sign_holder"),
        Some(&Json::Object(vec![
            ("type".to_string(), text("string")),
            (
                "description".to_string(),
                text("A one-word description of the entity holding the sign.")
            ),
        ]))
    );
    match &schema_json {
        Json::Object(members) => assert_eq!(members.len(), 5),
        other => panic!("unexpected schema: {:?}", other),
    }
}

#[test]
fn object_schema_in_full() {
    let schema = InternalSchema {
        description: "d".to_string(),
        details: InternalSchemaDetails::Object {
            properties: vec![("a".to_string(), scalar("x"))],
            title: Some("T".to_string()),
        },
    };
    assert_eq!(
        schema.to_json_schema(),
        Json::Object(vec![
            ("type".to_string(), text("object")),
            (
                "properties".to_string(),
                Json::Object(vec![(
                    "a".to_string(),
                    Json::Object(vec![
                        ("type".to_string(), text("string")),
                        ("description".to_string(), text("x")),
                    ])
                )])
            ),
            ("additionalProperties".to_string(), Json::Bool(false)),
            ("required".to_string(), Json::Array(vec![text("a")])),
            ("title".to_string(), text("T")),
            ("description".to_string(), text("d")),
        ])
    );
    assert_eq!(get_schema_title(&schema.to_json_schema()), "T");
}

#[test]
fn array_and_enum_schemas() {
    let schema = InternalSchema {
        description: "list".to_string(),
        details: InternalSchemaDetails::Array {
            items: Box::new(InternalSchema {
                description: "level".to_string(),
                details: InternalSchemaDetails::Scalar {
                    scalar_type: ScalarType::Number,
                    allowed_values: Some(vec![
                        Json::Number(JsonNumber::PosInt(1)),
                        Json::Number(JsonNumber::PosInt(2)),
                    ]),
                },
            }),
        },
    };
    assert_eq!(
        schema.to_json_schema(),
        Json::Object(vec![
            ("type".to_string(), text("array")),
            (
                "items".to_string(),
                Json::Object(vec![
                    ("type".to_string(), text("number")),
                    (
                        "enum".to_string(),
                        Json::Array(vec![
                            Json::Number(JsonNumber::PosInt(1)),
                            Json::Number(JsonNumber::PosInt(2)),
                        ])
                    ),
                    ("description".to_string(), text("level")),
                ])
            ),
            ("description".to_string(), text("list")),
        ])
    );
}

#[test]
fn scalar_type_names() {
    assert_eq!(ScalarType::String.to_json_schema(), text("string"));
    assert_eq!(ScalarType::Number.to_json_schema(), text("number"));
    assert_eq!(ScalarType::Boolean.to_json_schema(), text("boolean"));
    assert_eq!(ScalarType::default(), ScalarType::String);
}

#[test]
fn schema_title_defaults() {
    assert_eq!(get_schema_title(&Json::Object(vec![])), "ResponseFormat");
    assert_eq!(get_schema_title(&Json::Null), "ResponseFormat");
    assert_eq!(
        get_schema_title(&Json::Object(vec![("title".to_string(), Json::Bool(true))])),
        "ResponseFormat"
    );
    assert_eq!(
        get_schema_title(&Json::Object(vec![
            ("type".to_string(), text("object")),
            ("title".to_string(), text("Answer")),
        ])),
        "Answer"
    );
}

#[test]
fn internal_schema_declares_draft_07() {
    match Schema::Internal(scalar("s")).to_json_schema() {
        SchemaSource::Ready { json } => assert_eq!(
            json,
            Json::Object(vec![
                ("type".to_string(), text("string")),
                ("description".to_string(), text("s")),
                ("$schema".to_string(), text("http://json-schema.org/draft-07/schema#")),
            ])
        ),
        other => panic!("unexpected source {:?}", other),
    }
}

#[test]
fn other_schemas_are_passed_on() {
    let value = Json::Object(vec![("type".to_string(), text("object"))]);
    match Schema::JsonValue(value.clone()).to_json_schema() {
        SchemaSource::Ready { json } => assert_eq!(json, value),
        other => panic!("unexpected source {:?}", other),
    }
    let external = Schema::External(ExternalSchema { path: "schemas/a.json".to_string() });
    match external.to_json_schema() {
        SchemaSource::File { path } => assert_eq!(path, "schemas/a.json"),
        other => panic!("unexpected source {:?}", other),
    }
}

#[test]
fn clones_are_deep_copies() {
    let schema = Schema::Internal(sign_schema());
    let copy = schema.clone();
    assert_eq!(copy, schema);
    let nested = Json::Array(vec![
        Json::Object(vec![("a".to_string(), Json::Array(vec![Json::Null, Json::Bool(true)]))]),
        text("t"),
    ]);
    assert_eq!(nested.clone(), nested);
}

#[test]
fn toml_documents_become_values() {
    let value = toml_to_json_value(
        "name = \"x\"\ncount = 3\nneg = -4\nratio = 1.5\nflag = true\nlist = [1, \"two\"]\n[table]\nb = 2\na = 1\n",
    )
    .unwrap();
    let mut members = match value {
        Json::Object(members) => members,
        other => panic!("unexpected document {:?}", other),
    };
    members.sort_by(|a, b| a.0.cmp(&b.0));
    assert_eq!(
        members,
        vec![
            ("count".to_string(), Json::Number(JsonNumber::PosInt(3))),
            ("flag".to_string(), Json::Bool(true)),
            (
                "list".to_string(),
                Json::Array(vec![Json::Number(JsonNumber::PosInt(1)), text("two")])
            ),
            ("name".to_string(), text("x")),
            ("neg".to_string(), Json::Number(JsonNumber::NegInt(-4))),
            ("ratio".to_string(), Json::Number(JsonNumber::Real("1.5".to_string()))),
            (
                "table".to_string(),
                Json::Object(vec![
                    ("a".to_string(), Json::Number(JsonNumber::PosInt(1))),
                    ("b".to_string(), Json::Number(JsonNumber::PosInt(2))),
                ])
            ),
        ]
    );
    assert!(toml_to_json_value("not toml at all [").is_err());
    assert!(matches!(
        from_toml_str::<InternalSchema>("description = "),
        Err(TomlError::Syntax { .. })
    ));
}

#[test]
fn schema_grammar() {
    let read = |toml: &str| from_toml_str::<InternalSchema>(toml);
    assert_eq!(
        read("description = \"d\"\ntype = \"boolean\"\nenum = [true]\n"),
        Ok(InternalSchema {
            description: "d".to_string(),
            details: InternalSchemaDetails::Scalar {
                scalar_type: ScalarType::Boolean,
                allowed_values: Some(vec![Json::Bool(true)]),
            },
        })
    );
    assert_eq!(
        read("description = \"d\"\n[items]\ndescription = \"i\"\n"),
        Ok(InternalSchema {
            description: "d".to_string(),
            details: InternalSchemaDetails::Array { items: Box::new(scalar("i")) },
        })
    );
    assert_eq!(
        read("description = \"d\"\ntitle = \"T\"\n[properties]\n"),
        Ok(InternalSchema {
            description: "d".to_string(),
            details: InternalSchemaDetails::Object {
                properties: vec![],
                title: Some("T".to_string()),
            },
        })
    );
    let fault = |toml: &str| match read(toml) {
        Err(TomlError::Value { error }) => error,
        other => panic!("unexpected result {:?}", other),
    };
    assert_eq!(fault("type = \"string\"\n"), SchemaParseError::MissingDescription);
    assert_eq!(fault("description = 1\n"), SchemaParseError::InvalidDescription);
    assert_eq!(fault("description = \"d\"\ntype = 1\n"), SchemaParseError::InvalidType);
    assert_eq!(
        fault("description = \"d\"\ntype = \"integer\"\n"),
        SchemaParseError::UnsupportedScalarType
    );
    assert_eq!(fault("description = \"d\"\nenum = 1\n"), SchemaParseError::InvalidEnum);
    assert_eq!(fault("description = \"d\"\nextra = 1\n"), SchemaParseError::UnexpectedKey);
    assert_eq!(fault("description = \"d\"\nproperties = 1\n"), SchemaParseError::InvalidProperties);
    assert_eq!(
        fault("description = \"d\"\ntitle = 1\n[properties]\n"),
        SchemaParseError::InvalidTitle
    );
    assert_eq!(
        fault("description = \"d\"\ntype = \"string\"\n[items]\ndescription = \"i\"\n"),
        SchemaParseError::UnexpectedKey
    );
    assert_eq!(fault("description = \"d\"\nitems = 1\n"), SchemaParseError::NotATable);
    assert_eq!(InternalSchema::from_value(&Json::Null), Err(SchemaParseError::NotATable));
    assert_eq!(
        Schema::from_value(&Json::Object(vec![("path".to_string(), Json::Bool(true))])),
        Err(SchemaParseError::InvalidPath)
    );
    assert_eq!(
        Schema::from_value(&Json::Object(vec![
            ("path".to_string(), text("a.json")),
            ("description".to_string(), text("d")),
        ])),
        Err(SchemaParseError::UnexpectedKey)
    );
}

#[test]
fn properties_are_a_map() {
    let twice = Json::Object(vec![
        ("description".to_string(), text("d")),
        (
            "properties".to_string(),
            Json::Object(vec![
                ("a".to_string(), Json::Object(vec![("description".to_string(), text("x"))])),
                ("b".to_string(), Json::Object(vec![("description".to_string(), text("y"))])),
                ("a".to_string(), Json::Object(vec![("description".to_string(), text("z"))])),
            ]),
        ),
    ]);
    assert_eq!(InternalSchema::from_value(&twice), Err(SchemaParseError::DuplicateProperty));
    assert_eq!(Schema::from_value(&twice), Err(SchemaParseError::DuplicateProperty));
    assert_eq!(SchemaParseError::DuplicateProperty.message(), "duplicate name in 'properties'");
    // An error inside a property comes before the complaint about its name.
    let broken = Json::Object(vec![
        ("description".to_string(), text("d")),
        (
            "properties".to_string(),
            Json::Object(vec![
                ("a".to_string(), Json::Object(vec![("description".to_string(), text("x"))])),
                ("a".to_string(), Json::Null),
            ]),
        ),
    ]);
    assert_eq!(InternalSchema::from_value(&broken), Err(SchemaParseError::NotATable));

    let object = |names: Vec<&str>| InternalSchema {
        description: "d".to_string(),
        details: InternalSchemaDetails::Object {
            properties: names.into_iter().map(|n| (n.to_string(), scalar("x"))).collect(),
            title: None,
        },
    };
    assert!(object(vec!["a", "b", "c"]).is_valid());
    assert!(object(vec![]).is_valid());
    assert!(!object(vec!["a", "b", "a"]).is_valid());
    assert!(scalar("x").is_valid());
    let nested = InternalSchema {
        description: "d".to_string(),
        details: InternalSchemaDetails::Array { items: Box::new(object(vec!["k", "k"])) },
    };
    assert!(!nested.is_valid());
    assert!(!Schema::Internal(nested).is_valid());
    assert!(Schema::JsonValue(Json::Null).is_valid());
    let inner_twice = InternalSchema {
        description: "d".to_string(),
        details: InternalSchemaDetails::Object {
            properties: vec![("p".to_string(), object(vec!["k", "k"])), ("q".to_string(), scalar("x"))],
            title: None,
        },
    };
    assert!(!inner_twice.is_valid());
    let valid = object(vec!["a", "b"]);
    assert!(valid.is_valid());
    assert_eq!(
        valid.to_json_schema().get("required"),
        Some(&Json::Array(vec![text("a"), text("b")]))
    );
}

#[test]
fn toml_numbers_become_json_numbers() {
    let value = toml_to_json_value("a = 1\nb = -2\nc = 1.0\nd = 0.25\ne = [3, 4.5]\n").unwrap();
    assert_eq!(value.get("a"), Some(&Json::Number(JsonNumber::PosInt(1))));
    assert_eq!(value.get("b"), Some(&Json::Number(JsonNumber::NegInt(-2))));
    assert_eq!(value.get("c"), Some(&Json::Number(JsonNumber::Real("1.0".to_string()))));
    assert_eq!(value.get("d"), Some(&Json::Number(JsonNumber::Real("0.25".to_string()))));
    assert_eq!(
        value.get("e"),
        Some(&Json::Array(vec![
            Json::Number(JsonNumber::PosInt(3)),
            Json::Number(JsonNumber::Real("4.5".to_string())),
        ]))
    );
    assert_eq!(toml_to_json_value("x = nan\n"), Err("Invalid float value".to_string()));
    assert_eq!(toml_to_json_value("t = { deep = [1.0, inf] }\n"), Err("Invalid float value".to_string()));
    let refused = from_toml_str::<prompt_scaler::toml_utils::JsonValue>("x = -inf\n");
    assert!(matches!(refused, Err(TomlError::InvalidFloat)));
    assert_eq!(TomlError::<()>::InvalidFloat.message(), "Invalid float value");
    use_items();
}

fn use_items() {
    let item = prompt_scaler::toml_utils::TomlItem::Table(vec![
        ("n".to_string(), prompt_scaler::toml_utils::TomlItem::Integer(-7)),
        ("f".to_string(), prompt_scaler::toml_utils::TomlItem::Float(None)),
    ]);
    assert_eq!(prompt_scaler::toml_utils::toml_item_to_json(&item), None);
    let item = prompt_scaler::toml_utils::TomlItem::Array(vec![
        prompt_scaler::toml_utils::TomlItem::Integer(i64::MIN),
        prompt_scaler::toml_utils::TomlItem::Integer(i64::MAX),
        prompt_scaler::toml_utils::TomlItem::Boolean(true),
        prompt_scaler::toml_utils::TomlItem::Text("t".to_string()),
    ]);
    assert_eq!(
        prompt_scaler::toml_utils::toml_item_to_json(&item),
        Some(Json::Array(vec![
            Json::Number(JsonNumber::NegInt(i64::MIN)),
            Json::Number(JsonNumber::PosInt(i64::MAX as u64)),
            Json::Bool(true),
            Json::Text("t".to_string()),
        ]))
    );
}
