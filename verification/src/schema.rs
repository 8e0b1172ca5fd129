//! Schemas of responses: a small schema language of our own, and how it is
//! written as JSON Schema.

use vstd::prelude::*;
use crate::json::{
    clone_items, items_view, json_text, json_view, lemma_items_view, lemma_member_index,
    lemma_members_view, member, member_index, members_view, Json, JsonView,
};

verus! {

/// The title of a schema without one.
pub open spec fn default_schema_title() -> Seq<char> {
    "ResponseFormat"@
}

/// The title of a JSON Schema: its member `title` where that is a string.
pub open spec fn schema_title(schema: Json) -> Seq<char> {
    match schema.member("title"@) {
        Some(Json::Text(title)) => title@,
        _ => default_schema_title(),
    }
}

/// Get the title of a JSON Schema part, or `"ResponseFormat"` if not present.
pub fn get_schema_title(schema: &Json) -> (title: String)
    ensures
        title@ == schema_title(*schema),
{
    match schema.get("title") {
        Some(value) => match value.as_str() {
            Some(s) => String::from_str(s),
            None => String::from_str("ResponseFormat"),
        },
        None => String::from_str("ResponseFormat"),
    }
}

/// Basic types we support.
#[derive(Debug, Clone, Copy, PartialEq, Eq, Structural)]
pub enum ScalarType {
    /// A string.
    String,
    /// A number.
    Number,
    /// A boolean.
    Boolean,
}

impl Default for ScalarType {
    fn default() -> (t: ScalarType)
        ensures
            t == ScalarType::String,
    {
        ScalarType::String
    }
}

impl ScalarType {
    /// The name of the type in JSON Schema.
    pub open spec fn name(self) -> Seq<char> {
        match self {
            ScalarType::String => "string"@,
            ScalarType::Number => "number"@,
            ScalarType::Boolean => "boolean"@,
        }
    }

    /// The name of the type in JSON Schema.
    pub fn as_str(self) -> (s: &'static str)
        ensures
            s@ == self.name(),
    {
        match self {
            ScalarType::String => "string",
            ScalarType::Number => "number",
            ScalarType::Boolean => "boolean",
        }
    }
}

/// A simplified version of JSON Schema, used for validation.
#[derive(Debug, PartialEq, Eq)]
pub struct InternalSchema {
    /// A description of this value.
    pub description: String,
    /// The details of this schema.
    pub details: InternalSchemaDetails,
}

/// The details of a schema.
#[derive(Debug, PartialEq, Eq)]
pub enum InternalSchemaDetails {
    /// An array.
    Array {
        /// The items in the array.
        items: Box<InternalSchema>,
    },
    /// A JSON object.
    ///
    /// All fields will be automatically marked as required, and
    /// `additionalProperties` will be set to `false`.
    Object {
        /// The properties of the object, in order.
        properties: Vec<(String, InternalSchema)>,
        /// The title of this object.
        title: Option<String>,
    },
    /// A string, a number or a boolean.
    Scalar {
        /// The type of this scalar.
        scalar_type: ScalarType,
        /// Allowed enum values.
        allowed_values: Option<Vec<Json>>,
    },
}

/// An external schema, provided as a file path.
#[derive(Debug, PartialEq, Eq)]
pub struct ExternalSchema {
    /// The path to the schema.
    pub path: String,
}

/// Either an external or an internal schema.
#[derive(Debug, PartialEq, Eq)]
pub enum Schema {
    /// An internal schema (one stored in the prompt file), using a very
    /// simplified version of JSON Schema format.
    Internal(InternalSchema),
    /// An external schema, provided as a file path.
    External(ExternalSchema),
    /// A schema provided as a JSON value by code that already has it in
    /// memory.
    JsonValue(Json),
}

/// The names of the properties as JSON strings: what an object requires.
pub open spec fn required_json(properties: Seq<(String, InternalSchema)>) -> Seq<JsonView> {
    Seq::new(properties.len(), |i: int| JsonView::Text(properties[i].0@))
}

/// The schemas of the properties under their names.
pub open spec fn properties_json(properties: Seq<(String, InternalSchema)>) -> Seq<
    (Seq<char>, JsonView),
>
    decreases properties, 0int,
{
    if properties.len() == 0 {
        Seq::empty()
    } else {
        properties_json(properties.drop_last()).push(
            (properties.last().0@, internal_schema_json(properties.last().1)),
        )
    }
}

/// The JSON Schema of an internal schema.
///
/// Every property of an object is required and no other property is
/// admitted, as strict response formats ask.
pub open spec fn internal_schema_json(schema: InternalSchema) -> JsonView
    decreases schema, 1int,
{
    let description = seq![("description"@, JsonView::Text(schema.description@))];
    match schema.details {
        InternalSchemaDetails::Array { items } => JsonView::Object(
            seq![
                ("type"@, JsonView::Text("array"@)),
                ("items"@, internal_schema_json(*items)),
            ] + description,
        ),
        InternalSchemaDetails::Object { properties, title } => JsonView::Object(
            seq![
                ("type"@, JsonView::Text("object"@)),
                ("properties"@, JsonView::Object(properties_json(properties@))),
                ("additionalProperties"@, JsonView::Bool(false)),
                ("required"@, JsonView::Array(required_json(properties@))),
            ] + (match title {
                Some(t) => seq![("title"@, JsonView::Text(t@))],
                None => Seq::empty(),
            }) + description,
        ),
        InternalSchemaDetails::Scalar { scalar_type, allowed_values } => JsonView::Object(
            seq![("type"@, JsonView::Text(scalar_type.name()))] + (match allowed_values {
                Some(values) => seq![("enum"@, JsonView::Array(items_view(values@)))],
                None => Seq::empty(),
            }) + description,
        ),
    }
}

/// What the JSON Schema of a valid object requires: the name of every
/// property, each once, in the order of the properties.
pub proof fn lemma_required_once(schema: InternalSchema)
    requires
        schema.wf(),
        schema.details is Object,
    ensures
        required_json(schema.details->Object_properties@).no_duplicates(),
        required_json(schema.details->Object_properties@).len() == properties_json(
            schema.details->Object_properties@,
        ).len(),
        forall|i: int|
            0 <= i < required_json(schema.details->Object_properties@).len() ==> (
            #[trigger] required_json(schema.details->Object_properties@)[i]) == JsonView::Text(
                properties_json(schema.details->Object_properties@)[i].0,
            ),
        forall|i: int|
            0 <= i < schema.details->Object_properties@.len() ==> (
            #[trigger] schema.details->Object_properties@[i]).1.wf(),
{
    let properties = schema.details->Object_properties@;
    lemma_properties_view(properties);
    lemma_properties_json(properties);
    let required = required_json(properties);
    assert forall|i: int, j: int| 0 <= i < required.len() && 0 <= j < required.len() && i
        != j implies required[i] != required[j] by {
        if i < j {
            assert(properties_view(properties)[i].0 != properties_view(properties)[j].0);
        } else {
            assert(properties_view(properties)[j].0 != properties_view(properties)[i].0);
        }
    }
    assert forall|i: int| 0 <= i < properties.len() implies (#[trigger] properties[i]).1.wf() by {
        assert(valid_view(properties_view(properties)[i].1));
    }
}

/// The JSON of the properties holds the name and the JSON Schema of each
/// property at its place.
pub proof fn lemma_properties_json(properties: Seq<(String, InternalSchema)>)
    ensures
        properties_json(properties).len() == properties.len(),
        forall|i: int|
            0 <= i < properties.len() ==> #[trigger] properties_json(properties)[i] == (
                properties[i].0@,
                internal_schema_json(properties[i].1),
            ),
    decreases properties.len(),
{
    if properties.len() > 0 {
        lemma_properties_json(properties.drop_last());
    }
}

/// The dialect that the JSON Schema of an internal schema declares.
pub open spec fn draft07() -> Seq<char> {
    "http://json-schema.org/draft-07/schema#"@
}

/// Convert to a JSON Schema.
pub trait ToJsonSchema {
    /// The JSON Schema of this value.
    spec fn json_schema(&self) -> JsonView;

    /// Whether this value is valid, so that it has a JSON Schema.
    spec fn valid(&self) -> bool;

    /// Convert this schema to a JSON Schema.
    fn to_json_schema(&self) -> (json: Json)
        requires
            self.valid(),
        ensures
            json@ == self.json_schema(),
    ;
}

fn internal_to_json(schema: &InternalSchema) -> (json: Json)
    ensures
        json@ == internal_schema_json(*schema),
    decreases schema,
{
    let mut members: Vec<(String, Json)> = Vec::new();
    match &schema.details {
        InternalSchemaDetails::Array { items } => {
            members.push(member("type", json_text("array")));
            let inner = internal_to_json(items);
            members.push(member("items", inner));
        },
        InternalSchemaDetails::Object { properties, title } => {
            members.push(member("type", json_text("object")));
            let mut props: Vec<(String, Json)> = Vec::new();
            let mut required: Vec<Json> = Vec::new();
            let mut i: usize = 0;
            while i < properties.len()
                invariant
                    i <= properties.len(),
                    schema.details == (InternalSchemaDetails::Object {
                        properties: *properties,
                        title: *title,
                    }),
                    members_view(props@) == properties_json(properties@.take(i as int)),
                    items_view(required@) == required_json(properties@.take(i as int)),
                decreases properties.len() - i,
            {
                proof {
                    assert(decreases_to!(*schema => schema.details));
                    assert(decreases_to!(schema.details => schema.details->Object_properties));
                    assert(decreases_to!(*properties => properties[i as int]));
                    assert(decreases_to!(properties[i as int] => properties[i as int].1));
                }
                let inner = internal_to_json(&properties[i].1);
                let ghost props_before = props@;
                let ghost required_before = required@;
                props.push((properties[i].0.clone(), inner));
                required.push(Json::Text(properties[i].0.clone()));
                proof {
                    assert(props@.drop_last() =~= props_before);
                    assert(required@.drop_last() =~= required_before);
                    assert(properties@.take(i + 1).drop_last() =~= properties@.take(i as int));
                    assert(required_json(properties@.take(i + 1)) =~= required_json(
                        properties@.take(i as int),
                    ).push(JsonView::Text(properties@[i as int].0@)));
                    assert(json_view(required@.last()) == JsonView::Text(properties@[i as int].0@));
                    assert(items_view(required@) == items_view(required@.drop_last()).push(
                        json_view(required@.last()),
                    ));
                }
                i += 1;
            }
            assert(properties@.take(properties.len() as int) =~= properties@);
            members.push(member("properties", Json::Object(props)));
            members.push(member("additionalProperties", Json::Bool(false)));
            members.push(member("required", Json::Array(required)));
            match title {
                Some(t) => {
                    members.push(member("title", Json::Text(t.clone())));
                },
                None => {},
            }
        },
        InternalSchemaDetails::Scalar { scalar_type, allowed_values } => {
            members.push(member("type", json_text(scalar_type.as_str())));
            match allowed_values {
                Some(values) => {
                    members.push(member("enum", Json::Array(clone_items(values))));
                },
                None => {},
            }
        },
    }
    members.push(member("description", Json::Text(schema.description.clone())));
    proof {
        lemma_members_view(members@);
        let expected = internal_schema_json(*schema)->Object_0;
        assert(members_view(members@) =~= expected);
    }
    Json::Object(members)
}

impl ToJsonSchema for InternalSchema {
    open spec fn json_schema(&self) -> JsonView {
        internal_schema_json(*self)
    }

    open spec fn valid(&self) -> bool {
        self.wf()
    }

    fn to_json_schema(&self) -> (json: Json) {
        internal_to_json(self)
    }
}

impl ToJsonSchema for ScalarType {
    open spec fn json_schema(&self) -> JsonView {
        JsonView::Text(self.name())
    }

    open spec fn valid(&self) -> bool {
        true
    }

    fn to_json_schema(&self) -> (json: Json) {
        json_text(self.as_str())
    }
}

/// Where the JSON Schema of a schema comes from.
#[derive(Debug, PartialEq, Eq)]
pub enum SchemaSource {
    /// The JSON Schema itself.
    Ready { json: Json },
    /// The file that holds the JSON Schema, as JSON or TOML.
    File { path: String },
}

impl Schema {
    /// Whether this schema is valid: an internal schema is where it has, at
    /// every depth, no object with two properties of one name; any other
    /// schema is.
    pub open spec fn wf(&self) -> bool {
        match self {
            Schema::Internal(schema) => schema.wf(),
            _ => true,
        }
    }

    /// Whether this schema is valid.
    pub fn is_valid(&self) -> (valid: bool)
        ensures
            valid == self.wf(),
    {
        match self {
            Schema::Internal(schema) => schema.is_valid(),
            _ => true,
        }
    }

    /// Convert to a JSON Schema, or name the file that holds it.
    ///
    /// The JSON Schema of an internal schema also declares the draft-07
    /// dialect, as its last member `$schema`.
    pub fn to_json_schema(&self) -> (source: SchemaSource)
        requires
            self.wf(),
        ensures
            match *self {
                Schema::Internal(schema) => source matches SchemaSource::Ready { json }
                    && json@ == JsonView::Object(
                    internal_schema_json(schema)->Object_0.push(
                        ("$schema"@, JsonView::Text(draft07())),
                    ),
                ),
                Schema::External(external) => source matches SchemaSource::File { path }
                    && path@ == external.path@,
                Schema::JsonValue(value) => source matches SchemaSource::Ready { json } && json@
                    == value@,
            },
    {
        match self {
            Schema::Internal(schema) => {
                let json = internal_to_json(schema);
                match json {
                    Json::Object(mut members) => {
                        let ghost before = members@;
                        members.push(
                            member("$schema", json_text("http://json-schema.org/draft-07/schema#")),
                        );
                        proof {
                            assert(members@.drop_last() =~= before);
                        }
                        SchemaSource::Ready { json: Json::Object(members) }
                    },
                    other => SchemaSource::Ready { json: other },
                }
            },
            Schema::External(external) => SchemaSource::File { path: external.path.clone() },
            Schema::JsonValue(value) => SchemaSource::Ready { json: value.clone() },
        }
    }
}

} // verus!

verus! {

/// The mathematical model of the details of an internal schema.
pub enum SchemaDetailsView {
    Array { items: Box<InternalSchemaView> },
    Object { properties: Seq<(Seq<char>, InternalSchemaView)>, title: Option<Seq<char>> },
    Scalar { scalar_type: ScalarType, allowed_values: Option<Seq<JsonView>> },
}

/// The mathematical model of an internal schema.
pub struct InternalSchemaView {
    pub description: Seq<char>,
    pub details: SchemaDetailsView,
}

/// The mathematical model of a schema.
pub enum SchemaView {
    Internal(InternalSchemaView),
    External(Seq<char>),
    JsonValue(JsonView),
}

/// The models of the properties of an object, in order.
pub open spec fn properties_view(properties: Seq<(String, InternalSchema)>) -> Seq<
    (Seq<char>, InternalSchemaView),
>
    decreases properties, 0int,
{
    if properties.len() == 0 {
        Seq::empty()
    } else {
        properties_view(properties.drop_last()).push(
            (properties.last().0@, internal_view(properties.last().1)),
        )
    }
}

/// The model of an internal schema.
pub open spec fn internal_view(schema: InternalSchema) -> InternalSchemaView
    decreases schema, 1int,
{
    InternalSchemaView {
        description: schema.description@,
        details: match schema.details {
            InternalSchemaDetails::Array { items } => SchemaDetailsView::Array {
                items: Box::new(internal_view(*items)),
            },
            InternalSchemaDetails::Object { properties, title } => SchemaDetailsView::Object {
                properties: properties_view(properties@),
                title: match title {
                    Some(t) => Some(t@),
                    None => None,
                },
            },
            InternalSchemaDetails::Scalar {
                scalar_type,
                allowed_values,
            } => SchemaDetailsView::Scalar {
                scalar_type,
                allowed_values: match allowed_values {
                    Some(values) => Some(items_view(values@)),
                    None => None,
                },
            },
        },
    }
}

/// Whether no two properties have the same name.
pub open spec fn distinct_names(properties: Seq<(Seq<char>, InternalSchemaView)>) -> bool {
    forall|i: int, j: int|
        0 <= i < j < properties.len() ==> (#[trigger] properties[i]).0 != (
        #[trigger] properties[j]).0
}

/// Whether `name` is the name of one of the properties.
pub open spec fn has_name(properties: Seq<(Seq<char>, InternalSchemaView)>, name: Seq<char>)
    -> bool {
    exists|i: int| 0 <= i < properties.len() && (#[trigger] properties[i]).0 == name
}

/// Whether a schema is valid: the properties of an object are a map from
/// names to schemas, so at every depth no object has two properties of one
/// name.
pub open spec fn valid_view(schema: InternalSchemaView) -> bool
    decreases schema,
{
    match schema.details {
        SchemaDetailsView::Array { items } => valid_view(*items),
        SchemaDetailsView::Object { properties, .. } => distinct_names(properties) && forall|
            i: int,
        |
            0 <= i < properties.len() ==> valid_view((#[trigger] properties[i]).1),
        SchemaDetailsView::Scalar { .. } => true,
    }
}

/// The model of the properties holds the name and the model of each property
/// at its place.
pub proof fn lemma_properties_view(properties: Seq<(String, InternalSchema)>)
    ensures
        properties_view(properties).len() == properties.len(),
        forall|i: int|
            0 <= i < properties.len() ==> #[trigger] properties_view(properties)[i] == (
                properties[i].0@,
                internal_view(properties[i].1),
            ),
    decreases properties.len(),
{
    if properties.len() > 0 {
        lemma_properties_view(properties.drop_last());
    }
}

impl View for InternalSchema {
    type V = InternalSchemaView;

    open spec fn view(&self) -> InternalSchemaView {
        internal_view(*self)
    }
}

impl View for Schema {
    type V = SchemaView;

    open spec fn view(&self) -> SchemaView {
        match *self {
            Schema::Internal(schema) => SchemaView::Internal(schema@),
            Schema::External(external) => SchemaView::External(external.path@),
            Schema::JsonValue(value) => SchemaView::JsonValue(value@),
        }
    }
}

impl Clone for InternalSchema {
    /// A deep copy: a schema with the same model.
    fn clone(&self) -> (copy: InternalSchema)
        ensures
            copy@ == self@,
        decreases self,
    {
        let details = match &self.details {
            InternalSchemaDetails::Array { items } => {
                let inner: InternalSchema = (**items).clone();
                InternalSchemaDetails::Array { items: Box::new(inner) }
            },
            InternalSchemaDetails::Object { properties, title } => {
                let mut copy: Vec<(String, InternalSchema)> = Vec::new();
                let mut i: usize = 0;
                while i < properties.len()
                    invariant
                        i <= properties.len(),
                        self.details == (InternalSchemaDetails::Object {
                            properties: *properties,
                            title: *title,
                        }),
                        properties_view(copy@) == properties_view(properties@.take(i as int)),
                    decreases properties.len() - i,
                {
                    proof {
                        assert(decreases_to!(*self => self.details));
                        assert(decreases_to!(self.details => self.details->Object_properties));
                        assert(decreases_to!(*properties => properties[i as int]));
                        assert(decreases_to!(properties[i as int] => properties[i as int].1));
                    }
                    let name = properties[i].0.clone();
                    let inner = properties[i].1.clone();
                    let ghost before = copy@;
                    copy.push((name, inner));
                    proof {
                        assert(copy@.drop_last() =~= before);
                        assert(properties@.take(i + 1).drop_last() =~= properties@.take(i as int));
                    }
                    i += 1;
                }
                assert(properties@.take(properties.len() as int) =~= properties@);
                InternalSchemaDetails::Object {
                    properties: copy,
                    title: match title {
                        Some(t) => Some(t.clone()),
                        None => None,
                    },
                }
            },
            InternalSchemaDetails::Scalar {
                scalar_type,
                allowed_values,
            } => InternalSchemaDetails::Scalar {
                scalar_type: *scalar_type,
                allowed_values: match allowed_values {
                    Some(values) => Some(clone_items(values)),
                    None => None,
                },
            },
        };
        InternalSchema { description: self.description.clone(), details }
    }
}

impl Clone for Schema {
    /// A deep copy: a schema with the same model.
    fn clone(&self) -> (copy: Schema)
        ensures
            copy@ == self@,
    {
        match self {
            Schema::Internal(schema) => Schema::Internal(schema.clone()),
            Schema::External(external) => Schema::External(
                ExternalSchema { path: external.path.clone() },
            ),
            Schema::JsonValue(value) => Schema::JsonValue(value.clone()),
        }
    }
}

} // verus!

verus! {

/// Why a value is no schema.
#[derive(Debug, Clone, Copy, PartialEq, Eq, Structural)]
pub enum SchemaParseError {
    /// A schema is a table.
    NotATable,
    /// The schema has no `description`.
    MissingDescription,
    /// The `description` is not a string.
    InvalidDescription,
    /// The `properties` are not a table.
    InvalidProperties,
    /// The `title` is not a string.
    InvalidTitle,
    /// The `type` is not a string.
    InvalidType,
    /// The `type` is none of `string`, `number` and `boolean`.
    UnsupportedScalarType,
    /// The `enum` is not an array.
    InvalidEnum,
    /// The `path` of an external schema is not a string.
    InvalidPath,
    /// The table has a key that the schema does not know.
    UnexpectedKey,
    /// Two properties of an object have the same name.
    DuplicateProperty,
}

impl SchemaParseError {
    /// The sentence that `message` returns.
    pub open spec fn message_spec(&self) -> Seq<char> {
        match self {
            SchemaParseError::NotATable => "expected a table"@,
            SchemaParseError::MissingDescription => "missing field 'description' in table"@,
            SchemaParseError::InvalidDescription => "expected a string for 'description'"@,
            SchemaParseError::InvalidProperties => "expected a table for 'properties'"@,
            SchemaParseError::InvalidTitle => "expected a string for 'title'"@,
            SchemaParseError::InvalidType => "Expected a string for type"@,
            SchemaParseError::UnsupportedScalarType => "Unsupported JSON Schema scalar type"@,
            SchemaParseError::InvalidEnum => "expected an array for 'enum'"@,
            SchemaParseError::InvalidPath => "expected a string for 'path'"@,
            SchemaParseError::UnexpectedKey => "unexpected keys in table"@,
            SchemaParseError::DuplicateProperty => "duplicate name in 'properties'"@,
        }
    }

    /// A sentence that describes the error.
    pub fn message(&self) -> (s: String)
        ensures
            s@ == self.message_spec(),
    {
        match self {
            SchemaParseError::NotATable => String::from_str("expected a table"),
            SchemaParseError::MissingDescription => String::from_str(
                "missing field 'description' in table",
            ),
            SchemaParseError::InvalidDescription => String::from_str(
                "expected a string for 'description'",
            ),
            SchemaParseError::InvalidProperties => String::from_str(
                "expected a table for 'properties'",
            ),
            SchemaParseError::InvalidTitle => String::from_str("expected a string for 'title'"),
            SchemaParseError::InvalidType => String::from_str("Expected a string for type"),
            SchemaParseError::UnsupportedScalarType => String::from_str(
                "Unsupported JSON Schema scalar type",
            ),
            SchemaParseError::InvalidEnum => String::from_str("expected an array for 'enum'"),
            SchemaParseError::InvalidPath => String::from_str("expected a string for 'path'"),
            SchemaParseError::UnexpectedKey => String::from_str("unexpected keys in table"),
            SchemaParseError::DuplicateProperty => String::from_str(
                "duplicate name in 'properties'",
            ),
        }
    }
}

/// Whether a table has a key that is none of `allowed`.
pub open spec fn has_unexpected_key(members: Seq<(String, Json)>, allowed: Seq<Seq<char>>) -> bool {
    exists|i: int| 0 <= i < members.len() && !allowed.contains((#[trigger] members[i]).0@)
}

/// The keys of the schema of an array.
pub open spec fn array_keys() -> Seq<Seq<char>> {
    seq!["description"@, "items"@]
}

/// The keys of the schema of an object.
pub open spec fn object_keys() -> Seq<Seq<char>> {
    seq!["description"@, "properties"@, "title"@]
}

/// The keys of the schema of a scalar.
pub open spec fn scalar_keys() -> Seq<Seq<char>> {
    seq!["description"@, "type"@, "enum"@]
}

/// The description of a schema.
pub open spec fn description_of(members: Seq<(String, Json)>) -> Result<Seq<char>, SchemaParseError> {
    let i = member_index(members, "description"@);
    if 0 <= i < members.len() {
        match members[i].1 {
            Json::Text(s) => Ok(s@),
            _ => Err(SchemaParseError::InvalidDescription),
        }
    } else {
        Err(SchemaParseError::MissingDescription)
    }
}

/// The title of the schema of an object, where it has one.
pub open spec fn title_of(members: Seq<(String, Json)>) -> Result<
    Option<Seq<char>>,
    SchemaParseError,
> {
    let i = member_index(members, "title"@);
    if 0 <= i < members.len() {
        match members[i].1 {
            Json::Text(s) => Ok(Some(s@)),
            _ => Err(SchemaParseError::InvalidTitle),
        }
    } else {
        Ok(None)
    }
}

/// The scalar type that `name` names.
pub open spec fn scalar_type_named(name: Seq<char>) -> Option<ScalarType> {
    if name == "string"@ {
        Some(ScalarType::String)
    } else if name == "number"@ {
        Some(ScalarType::Number)
    } else if name == "boolean"@ {
        Some(ScalarType::Boolean)
    } else {
        None
    }
}

/// The type of the schema of a scalar: a string where none is given.
pub open spec fn scalar_type_of(members: Seq<(String, Json)>) -> Result<
    ScalarType,
    SchemaParseError,
> {
    let i = member_index(members, "type"@);
    if 0 <= i < members.len() {
        match members[i].1 {
            Json::Text(s) => match scalar_type_named(s@) {
                Some(t) => Ok(t),
                None => Err(SchemaParseError::UnsupportedScalarType),
            },
            _ => Err(SchemaParseError::InvalidType),
        }
    } else {
        Ok(ScalarType::String)
    }
}

/// The allowed values of the schema of a scalar, where it lists any.
pub open spec fn allowed_values_of(members: Seq<(String, Json)>) -> Result<
    Option<Seq<JsonView>>,
    SchemaParseError,
> {
    let i = member_index(members, "enum"@);
    if 0 <= i < members.len() {
        match members[i].1 {
            Json::Array(values) => Ok(Some(items_view(values@))),
            _ => Err(SchemaParseError::InvalidEnum),
        }
    } else {
        Ok(None)
    }
}

/// The schemas of the properties of an object, or the first error among
/// them. A name that stands twice is an error: the properties are a map.
pub open spec fn properties_of(properties: Seq<(String, Json)>) -> Result<
    Seq<(Seq<char>, InternalSchemaView)>,
    SchemaParseError,
>
    decreases properties, 0int,
{
    if properties.len() == 0 {
        Ok(Seq::empty())
    } else {
        match properties_of(properties.drop_last()) {
            Err(e) => Err(e),
            Ok(before) => match internal_schema_of(properties.last().1) {
                Err(e) => Err(e),
                Ok(schema) => if has_name(before, properties.last().0@) {
                    Err(SchemaParseError::DuplicateProperty)
                } else {
                    Ok(before.push((properties.last().0@, schema)))
                },
            },
        }
    }
}

/// The internal schema that a value holds.
///
/// A schema is a table with a `description`. With `items` it is the schema of
/// an array. With `properties` it is the schema of an object, which may have
/// a `title`. Otherwise it is the schema of a scalar, which may have a `type`
/// and an `enum`. No other key is admitted.
pub open spec fn internal_schema_of(value: Json) -> Result<InternalSchemaView, SchemaParseError>
    decreases value, 1int,
{
    match value {
        Json::Object(table) => {
            let members = table@;
            let items_at = member_index(members, "items"@);
            let properties_at = member_index(members, "properties"@);
            if 0 <= items_at < members.len() {
                match description_of(members) {
                    Err(e) => Err(e),
                    Ok(description) => match internal_schema_of(members[items_at].1) {
                        Err(e) => Err(e),
                        Ok(items) => if has_unexpected_key(members, array_keys()) {
                            Err(SchemaParseError::UnexpectedKey)
                        } else {
                            Ok(
                                InternalSchemaView {
                                    description,
                                    details: SchemaDetailsView::Array { items: Box::new(items) },
                                },
                            )
                        },
                    },
                }
            } else if 0 <= properties_at < members.len() {
                match members[properties_at].1 {
                    Json::Object(properties) => match properties_of(properties@) {
                        Err(e) => Err(e),
                        Ok(properties) => match description_of(members) {
                            Err(e) => Err(e),
                            Ok(description) => match title_of(members) {
                                Err(e) => Err(e),
                                Ok(title) => if has_unexpected_key(members, object_keys()) {
                                    Err(SchemaParseError::UnexpectedKey)
                                } else {
                                    Ok(
                                        InternalSchemaView {
                                            description,
                                            details: SchemaDetailsView::Object { properties, title },
                                        },
                                    )
                                },
                            },
                        },
                    },
                    _ => Err(SchemaParseError::InvalidProperties),
                }
            } else {
                match description_of(members) {
                    Err(e) => Err(e),
                    Ok(description) => match scalar_type_of(members) {
                        Err(e) => Err(e),
                        Ok(scalar_type) => match allowed_values_of(members) {
                            Err(e) => Err(e),
                            Ok(allowed_values) => if has_unexpected_key(members, scalar_keys()) {
                                Err(SchemaParseError::UnexpectedKey)
                            } else {
                                Ok(
                                    InternalSchemaView {
                                        description,
                                        details: SchemaDetailsView::Scalar {
                                            scalar_type,
                                            allowed_values,
                                        },
                                    },
                                )
                            },
                        },
                    },
                }
            }
        },
        _ => Err(SchemaParseError::NotATable),
    }
}

fn keys_unexpected(members: &Vec<(String, Json)>, first: &str, second: &str, third: Option<&str>)
    -> (b: bool)
    ensures
        b == has_unexpected_key(
            members@,
            match third {
                Some(t) => seq![first@, second@, t@],
                None => seq![first@, second@],
            },
        ),
{
    let ghost allowed = match third {
        Some(t) => seq![first@, second@, t@],
        None => seq![first@, second@],
    };
    let mut i: usize = 0;
    while i < members.len()
        invariant
            i <= members@.len(),
            allowed == (match third {
                Some(t) => seq![first@, second@, t@],
                None => seq![first@, second@],
            }),
            forall|k: int| 0 <= k < i ==> allowed.contains((#[trigger] members@[k]).0@),
        decreases members.len() - i,
    {
        let key = members[i].0.as_str();
        let known = crate::text::str_eq(key, first) || crate::text::str_eq(key, second) || match third {
            Some(t) => crate::text::str_eq(key, t),
            None => false,
        };
        if !known {
            assert(!allowed.contains(members@[i as int].0@)) by {
                if allowed.contains(members@[i as int].0@) {
                    let w = choose|w: int| 0 <= w < allowed.len() && allowed[w] == members@[i as int].0@;
                    assert(w == 0 || w == 1 || w == 2);
                }
            }
            return true;
        }
        proof {
            if key@ == first@ {
                assert(allowed[0] == key@);
            } else if key@ == second@ {
                assert(allowed[1] == key@);
            } else {
                assert(allowed[2] == key@);
            }
        }
        i += 1;
    }
    false
}

fn read_description(members: &Vec<(String, Json)>) -> (r: Result<String, SchemaParseError>)
    ensures
        match r {
            Ok(s) => description_of(members@) == Ok::<Seq<char>, SchemaParseError>(s@),
            Err(e) => description_of(members@) == Err::<Seq<char>, SchemaParseError>(e),
        },
{
    let i = crate::json::find_member(members, "description");
    if i < members.len() {
        match &members[i].1 {
            Json::Text(s) => Ok(s.clone()),
            _ => Err(SchemaParseError::InvalidDescription),
        }
    } else {
        Err(SchemaParseError::MissingDescription)
    }
}

/// Whether one of the properties has the name.
fn has_property(properties: &Vec<(String, InternalSchema)>, name: &str) -> (found: bool)
    ensures
        found == has_name(properties_view(properties@), name@),
{
    proof {
        lemma_properties_view(properties@);
    }
    let mut i: usize = 0;
    while i < properties.len()
        invariant
            i <= properties@.len(),
            properties_view(properties@).len() == properties@.len(),
            forall|k: int| 0 <= k < i ==> (#[trigger] properties_view(properties@)[k]).0 != name@,
            forall|k: int|
                0 <= k < properties@.len() ==> (#[trigger] properties_view(properties@)[k]).0
                    == properties@[k].0@,
        decreases properties.len() - i,
    {
        if crate::text::str_eq(properties[i].0.as_str(), name) {
            assert(properties_view(properties@)[i as int].0 == name@);
            return true;
        }
        i += 1;
    }
    false
}

impl InternalSchema {
    /// Whether this schema is valid: at every depth, no object has two
    /// properties of one name.
    pub open spec fn wf(&self) -> bool {
        valid_view(self@)
    }

    /// Whether this schema is valid.
    pub fn is_valid(&self) -> (valid: bool)
        ensures
            valid == self.wf(),
        decreases self,
    {
        match &self.details {
            InternalSchemaDetails::Array { items } => items.is_valid(),
            InternalSchemaDetails::Object { properties, title } => {
                proof {
                    lemma_properties_view(properties@);
                }
                let mut i: usize = 0;
                while i < properties.len()
                    invariant
                        i <= properties@.len(),
                        self.details == (InternalSchemaDetails::Object {
                            properties: *properties,
                            title: *title,
                        }),
                        properties_view(properties@).len() == properties@.len(),
                        forall|k: int|
                            0 <= k < properties@.len() ==> #[trigger] properties_view(
                                properties@,
                            )[k] == (properties@[k].0@, internal_view(properties@[k].1)),
                        forall|k: int|
                            0 <= k < i ==> valid_view(
                                (#[trigger] properties_view(properties@)[k]).1,
                            ),
                        forall|a: int, b: int|
                            0 <= a < b < i ==> (#[trigger] properties_view(properties@)[a]).0 != (
                            #[trigger] properties_view(properties@)[b]).0,
                    decreases properties.len() - i,
                {
                    proof {
                        assert(decreases_to!(*self => self.details));
                        assert(decreases_to!(self.details => self.details->Object_properties));
                        assert(decreases_to!(*properties => properties[i as int]));
                        assert(decreases_to!(properties[i as int] => properties[i as int].1));
                    }
                    if !properties[i].1.is_valid() {
                        assert(!valid_view(properties_view(properties@)[i as int].1));
                        return false;
                    }
                    let mut j: usize = 0;
                    while j < i
                        invariant
                            j <= i,
                            i < properties@.len(),
                            self.details == (InternalSchemaDetails::Object {
                                properties: *properties,
                                title: *title,
                            }),
                            properties_view(properties@).len() == properties@.len(),
                            forall|k: int|
                                0 <= k < properties@.len() ==> #[trigger] properties_view(
                                    properties@,
                                )[k] == (properties@[k].0@, internal_view(properties@[k].1)),
                            forall|a: int|
                                0 <= a < j ==> (#[trigger] properties_view(properties@)[a]).0
                                    != properties_view(properties@)[i as int].0,
                        decreases i - j,
                    {
                        if crate::text::str_eq(properties[j].0.as_str(), properties[i].0.as_str()) {
                            assert(properties_view(properties@)[j as int].0 == properties_view(
                                properties@,
                            )[i as int].0);
                            assert(!distinct_names(properties_view(properties@)));
                            return false;
                        }
                        j += 1;
                    }
                    i += 1;
                }
                true
            },
            InternalSchemaDetails::Scalar { .. } => true,
        }
    }

    /// Read an internal schema from the value of a prompt file.
    pub fn from_value(value: &Json) -> (r: Result<InternalSchema, SchemaParseError>)
        ensures
            match r {
                Ok(schema) => internal_schema_of(*value) == Ok::<
                    InternalSchemaView,
                    SchemaParseError,
                >(schema@),
                Err(e) => internal_schema_of(*value) == Err::<InternalSchemaView, SchemaParseError>(
                    e,
                ),
            },
            r matches Ok(schema) ==> schema.wf(),
        decreases value,
    {
        let members = match value {
            Json::Object(members) => members,
            _ => {
                return Err(SchemaParseError::NotATable);
            },
        };
        let items_at = crate::json::find_member(members, "items");
        let properties_at = crate::json::find_member(members, "properties");
        if items_at < members.len() {
            let description = match read_description(members) {
                Ok(d) => d,
                Err(e) => {
                    return Err(e);
                },
            };
            proof {
                assert(decreases_to!(*value => value->Object_0));
                assert(decreases_to!(*members => members[items_at as int]));
                assert(decreases_to!(members[items_at as int] => members[items_at as int].1));
            }
            let items = match InternalSchema::from_value(&members[items_at].1) {
                Ok(items) => items,
                Err(e) => {
                    return Err(e);
                },
            };
            if keys_unexpected(members, "description", "items", None) {
                return Err(SchemaParseError::UnexpectedKey);
            }
            Ok(
                InternalSchema {
                    description,
                    details: InternalSchemaDetails::Array { items: Box::new(items) },
                },
            )
        } else if properties_at < members.len() {
            let table = match &members[properties_at].1 {
                Json::Object(table) => table,
                _ => {
                    return Err(SchemaParseError::InvalidProperties);
                },
            };
            let mut properties: Vec<(String, InternalSchema)> = Vec::new();
            let mut i: usize = 0;
            assert(table@.take(0) =~= Seq::<(String, Json)>::empty());
            while i < table.len()
                invariant
                    i <= table@.len(),
                    *value == Json::Object(*members),
                    items_at == member_index(members@, "items"@),
                    items_at >= members@.len(),
                    properties_at == member_index(members@, "properties"@),
                    properties_at < members@.len(),
                    members@[properties_at as int].1 == Json::Object(*table),
                    properties_of(table@.take(i as int)) == Ok::<
                        Seq<(Seq<char>, InternalSchemaView)>,
                        SchemaParseError,
                    >(properties_view(properties@)),
                    distinct_names(properties_view(properties@)),
                    forall|k: int|
                        0 <= k < properties@.len() ==> valid_view(
                            (#[trigger] properties_view(properties@)[k]).1,
                        ),
                    properties_view(properties@).len() == properties@.len(),
                decreases table.len() - i,
            {
                proof {
                    assert(decreases_to!(*value => value->Object_0));
                    assert(decreases_to!(*members => members[properties_at as int]));
                    assert(decreases_to!(members[properties_at as int] => members[properties_at as int].1));
                    assert(decreases_to!(members[properties_at as int].1 => members[properties_at as int].1->Object_0));
                    assert(decreases_to!(*table => table[i as int]));
                    assert(decreases_to!(table[i as int] => table[i as int].1));
                    assert(table@.take(i + 1).drop_last() =~= table@.take(i as int));
                    assert(table@.take(i + 1).last() == table@[i as int]);
                }
                let schema = match InternalSchema::from_value(&table[i].1) {
                    Ok(schema) => schema,
                    Err(e) => {
                        proof {
                            lemma_properties_error(table@, i + 1, e);
                        }
                        return Err(e);
                    },
                };
                if has_property(&properties, table[i].0.as_str()) {
                    proof {
                        lemma_properties_error(
                            table@,
                            i + 1,
                            SchemaParseError::DuplicateProperty,
                        );
                    }
                    return Err(SchemaParseError::DuplicateProperty);
                }
                let ghost before = properties@;
                properties.push((table[i].0.clone(), schema));
                proof {
                    assert(properties@.drop_last() =~= before);
                    lemma_properties_view(before);
                    lemma_properties_view(properties@);
                    assert forall|a: int, b: int|
                        0 <= a < b < properties@.len() implies (#[trigger] properties_view(
                        properties@,
                    )[a]).0 != (#[trigger] properties_view(properties@)[b]).0 by {
                        assert(properties_view(properties@)[a] == properties_view(before)[a]);
                        if b < before.len() {
                            assert(properties_view(properties@)[b] == properties_view(before)[b]);
                        }
                    }
                    assert forall|k: int| 0 <= k < properties@.len() implies valid_view(
                        (#[trigger] properties_view(properties@)[k]).1,
                    ) by {
                        if k < before.len() {
                            assert(properties_view(properties@)[k] == properties_view(before)[k]);
                        }
                    }
                }
                i += 1;
            }
            assert(table@.take(table@.len() as int) =~= table@);
            let description = match read_description(members) {
                Ok(d) => d,
                Err(e) => {
                    return Err(e);
                },
            };
            let title_at = crate::json::find_member(members, "title");
            let title = if title_at < members.len() {
                match &members[title_at].1 {
                    Json::Text(s) => Some(s.clone()),
                    _ => {
                        return Err(SchemaParseError::InvalidTitle);
                    },
                }
            } else {
                None
            };
            if keys_unexpected(members, "description", "properties", Some("title")) {
                return Err(SchemaParseError::UnexpectedKey);
            }
            Ok(
                InternalSchema {
                    description,
                    details: InternalSchemaDetails::Object { properties, title },
                },
            )
        } else {
            let description = match read_description(members) {
                Ok(d) => d,
                Err(e) => {
                    return Err(e);
                },
            };
            let type_at = crate::json::find_member(members, "type");
            let scalar_type = if type_at < members.len() {
                match &members[type_at].1 {
                    Json::Text(name) => {
                        if crate::text::str_eq(name.as_str(), "string") {
                            ScalarType::String
                        } else if crate::text::str_eq(name.as_str(), "number") {
                            ScalarType::Number
                        } else if crate::text::str_eq(name.as_str(), "boolean") {
                            ScalarType::Boolean
                        } else {
                            return Err(SchemaParseError::UnsupportedScalarType);
                        }
                    },
                    _ => {
                        return Err(SchemaParseError::InvalidType);
                    },
                }
            } else {
                ScalarType::String
            };
            let enum_at = crate::json::find_member(members, "enum");
            let allowed_values = if enum_at < members.len() {
                match &members[enum_at].1 {
                    Json::Array(values) => Some(clone_items(values)),
                    _ => {
                        return Err(SchemaParseError::InvalidEnum);
                    },
                }
            } else {
                None
            };
            if keys_unexpected(members, "description", "type", Some("enum")) {
                return Err(SchemaParseError::UnexpectedKey);
            }
            Ok(
                InternalSchema {
                    description,
                    details: InternalSchemaDetails::Scalar { scalar_type, allowed_values },
                },
            )
        }
    }
}

/// An error among the first `n` properties is the error of all of them.
pub proof fn lemma_properties_error(properties: Seq<(String, Json)>, n: int, e: SchemaParseError)
    requires
        0 <= n <= properties.len(),
        properties_of(properties.take(n)) == Err::<
            Seq<(Seq<char>, InternalSchemaView)>,
            SchemaParseError,
        >(e),
    ensures
        properties_of(properties) == Err::<Seq<(Seq<char>, InternalSchemaView)>, SchemaParseError>(
            e,
        ),
    decreases properties.len() - n,
{
    if n == properties.len() {
        assert(properties.take(n) =~= properties);
    } else {
        assert(properties.take(n + 1).drop_last() =~= properties.take(n));
        lemma_properties_error(properties, n + 1, e);
    }
}

/// The schema that a value holds: an external schema where the table has a
/// `path`, which is then its only key, and an internal schema otherwise.
pub open spec fn schema_of(value: Json) -> Result<SchemaView, SchemaParseError> {
    match value {
        Json::Object(table) => {
            let path_at = member_index(table@, "path"@);
            if 0 <= path_at < table@.len() {
                match table@[path_at].1 {
                    Json::Text(path) => if has_unexpected_key(table@, seq!["path"@, "path"@]) {
                        Err(SchemaParseError::UnexpectedKey)
                    } else {
                        Ok(SchemaView::External(path@))
                    },
                    _ => Err(SchemaParseError::InvalidPath),
                }
            } else {
                match internal_schema_of(value) {
                    Ok(schema) => Ok(SchemaView::Internal(schema)),
                    Err(e) => Err(e),
                }
            }
        },
        _ => Err(SchemaParseError::NotATable),
    }
}

impl Schema {
    /// Read a schema from the value of a prompt file. Whether the file of an
    /// external schema exists is not looked at.
    pub fn from_value(value: &Json) -> (r: Result<Schema, SchemaParseError>)
        ensures
            match r {
                Ok(schema) => schema_of(*value) == Ok::<SchemaView, SchemaParseError>(schema@),
                Err(e) => schema_of(*value) == Err::<SchemaView, SchemaParseError>(e),
            },
            r matches Ok(schema) ==> schema.wf(),
    {
        let members = match value {
            Json::Object(members) => members,
            _ => {
                return Err(SchemaParseError::NotATable);
            },
        };
        let path_at = crate::json::find_member(members, "path");
        if path_at < members.len() {
            match &members[path_at].1 {
                Json::Text(path) => {
                    if keys_unexpected(members, "path", "path", None) {
                        Err(SchemaParseError::UnexpectedKey)
                    } else {
                        Ok(Schema::External(ExternalSchema { path: path.clone() }))
                    }
                },
                _ => Err(SchemaParseError::InvalidPath),
            }
        } else {
            match InternalSchema::from_value(value) {
                Ok(schema) => Ok(Schema::Internal(schema)),
                Err(e) => Err(e),
            }
        }
    }
}

} // verus!

verus! {

impl crate::toml_utils::FromValue for InternalSchema {
    type Error = SchemaParseError;

    open spec fn reads(value: Json, result: Result<Self, SchemaParseError>) -> bool {
        match result {
            Ok(schema) => internal_schema_of(value) == Ok::<InternalSchemaView, SchemaParseError>(
                schema@,
            ),
            Err(e) => internal_schema_of(value) == Err::<InternalSchemaView, SchemaParseError>(e),
        }
    }

    fn from_value(value: &Json) -> (r: Result<Self, SchemaParseError>) {
        InternalSchema::from_value(value)
    }
}

impl crate::toml_utils::FromValue for Schema {
    type Error = SchemaParseError;

    open spec fn reads(value: Json, result: Result<Self, SchemaParseError>) -> bool {
        match result {
            Ok(schema) => schema_of(value) == Ok::<SchemaView, SchemaParseError>(schema@),
            Err(e) => schema_of(value) == Err::<SchemaView, SchemaParseError>(e),
        }
    }

    fn from_value(value: &Json) -> (r: Result<Self, SchemaParseError>) {
        Schema::from_value(value)
    }
}

} // verus!

verus! {

impl crate::toml_utils::Describe for SchemaParseError {
    open spec fn description(&self) -> Seq<char> {
        self.message_spec()
    }

    fn describe(&self) -> (s: String) {
        self.message()
    }
}

} // verus!
