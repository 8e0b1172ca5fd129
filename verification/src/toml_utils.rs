//! Raw JSON values in prompt files.

use vstd::prelude::*;
use crate::json::{Json, JsonNumber, JsonNumberView, JsonView};

verus! {

/// JSON value wrapper for raw JSON read from TOML.
#[derive(Debug)]
pub struct JsonValue(pub Json);

impl JsonValue {
    /// Convert to a JSON value.
    pub fn into_json(self) -> (json: Json)
        ensures
            json == self.0,
    {
        self.0
    }
}

} // verus!

verus! {

/// A value of a TOML document, as plain data.
#[derive(Debug, PartialEq, Eq)]
pub enum TomlItem {
    /// A string.
    Text(String),
    /// An integer.
    Integer(i64),
    /// A float, as the text that JSON writes for it; `None` for a float that
    /// JSON cannot write, which is one that is not finite.
    Float(Option<String>),
    /// A boolean.
    Boolean(bool),
    /// An array.
    Array(Vec<TomlItem>),
    /// A table, as its keys with their values, in the order of the keys.
    Table(Vec<(String, TomlItem)>),
}

/// The mathematical model of a TOML value.
pub enum TomlItemView {
    Text(Seq<char>),
    Integer(i64),
    Float(Option<Seq<char>>),
    Boolean(bool),
    Array(Seq<TomlItemView>),
    Table(Seq<(Seq<char>, TomlItemView)>),
}

/// The models of the items of an array, in order.
pub open spec fn toml_items_view(items: Seq<TomlItem>) -> Seq<TomlItemView>
    decreases items, 0int,
{
    if items.len() == 0 {
        Seq::empty()
    } else {
        toml_items_view(items.drop_last()).push(toml_view(items.last()))
    }
}

/// The models of the entries of a table, in order.
pub open spec fn toml_entries_view(entries: Seq<(String, TomlItem)>) -> Seq<
    (Seq<char>, TomlItemView),
>
    decreases entries, 0int,
{
    if entries.len() == 0 {
        Seq::empty()
    } else {
        toml_entries_view(entries.drop_last()).push(
            (entries.last().0@, toml_view(entries.last().1)),
        )
    }
}

/// The model of a TOML value.
pub open spec fn toml_view(item: TomlItem) -> TomlItemView
    decreases item, 1int,
{
    match item {
        TomlItem::Text(s) => TomlItemView::Text(s@),
        TomlItem::Integer(i) => TomlItemView::Integer(i),
        TomlItem::Float(text) => TomlItemView::Float(
            match text {
                Some(t) => Some(t@),
                None => None,
            },
        ),
        TomlItem::Boolean(b) => TomlItemView::Boolean(b),
        TomlItem::Array(items) => TomlItemView::Array(toml_items_view(items@)),
        TomlItem::Table(entries) => TomlItemView::Table(toml_entries_view(entries@)),
    }
}

impl View for TomlItem {
    type V = TomlItemView;

    open spec fn view(&self) -> TomlItemView {
        toml_view(*self)
    }
}

/// The model of an array holds the model of each item at its place.
pub proof fn lemma_toml_items_view(items: Seq<TomlItem>)
    ensures
        toml_items_view(items).len() == items.len(),
        forall|i: int|
            0 <= i < items.len() ==> #[trigger] toml_items_view(items)[i] == toml_view(items[i]),
    decreases items.len(),
{
    if items.len() > 0 {
        lemma_toml_items_view(items.drop_last());
    }
}

/// The model of a table holds the key and the model of each value at its
/// place.
pub proof fn lemma_toml_entries_view(entries: Seq<(String, TomlItem)>)
    ensures
        toml_entries_view(entries).len() == entries.len(),
        forall|i: int|
            0 <= i < entries.len() ==> #[trigger] toml_entries_view(entries)[i] == (
                entries[i].0@,
                toml_view(entries[i].1),
            ),
    decreases entries.len(),
{
    if entries.len() > 0 {
        lemma_toml_entries_view(entries.drop_last());
    }
}

/// The JSON values of the items of an array; `None` where one has none.
pub open spec fn json_of_items(items: Seq<TomlItemView>) -> Option<Seq<JsonView>>
    decreases items, 0int,
{
    if items.len() == 0 {
        Some(Seq::empty())
    } else {
        match (json_of(items.last()), json_of_items(items.drop_last())) {
            (Some(last), Some(before)) => Some(before.push(last)),
            _ => None,
        }
    }
}

/// The JSON members of the entries of a table; `None` where a value has no
/// JSON value.
pub open spec fn json_of_entries(entries: Seq<(Seq<char>, TomlItemView)>) -> Option<
    Seq<(Seq<char>, JsonView)>,
>
    decreases entries, 0int,
{
    if entries.len() == 0 {
        Some(Seq::empty())
    } else {
        match (json_of(entries.last().1), json_of_entries(entries.drop_last())) {
            (Some(last), Some(before)) => Some(before.push((entries.last().0, last))),
            _ => None,
        }
    }
}

/// The JSON value of a TOML value: a string as a string, an integer as a
/// whole number, a float as the number that JSON writes for it, a boolean as a
/// boolean, an array as an array and a table as an object with the keys in
/// their order. `None` where the value holds a float that is not finite:
/// JSON has no such number.
pub open spec fn json_of(item: TomlItemView) -> Option<JsonView>
    decreases item, 1int,
{
    match item {
        TomlItemView::Text(s) => Some(JsonView::Text(s)),
        TomlItemView::Integer(i) => Some(
            JsonView::Number(
                if i >= 0 {
                    JsonNumberView::PosInt(i as u64)
                } else {
                    JsonNumberView::NegInt(i)
                },
            ),
        ),
        TomlItemView::Float(Some(text)) => Some(JsonView::Number(JsonNumberView::Real(text))),
        TomlItemView::Float(None) => None,
        TomlItemView::Boolean(b) => Some(JsonView::Bool(b)),
        TomlItemView::Array(items) => match json_of_items(items) {
            Some(values) => Some(JsonView::Array(values)),
            None => None,
        },
        TomlItemView::Table(entries) => match json_of_entries(entries) {
            Some(members) => Some(JsonView::Object(members)),
            None => None,
        },
    }
}

/// A prefix of items without a JSON value leaves the whole without one.
pub proof fn lemma_json_of_items_none(items: Seq<TomlItemView>, n: int)
    requires
        0 <= n <= items.len(),
        json_of_items(items.take(n)).is_none(),
    ensures
        json_of_items(items).is_none(),
    decreases items.len() - n,
{
    if n == items.len() {
        assert(items.take(n) =~= items);
    } else {
        assert(items.take(n + 1).drop_last() =~= items.take(n));
        lemma_json_of_items_none(items, n + 1);
    }
}

/// A prefix of entries without JSON members leaves the whole without them.
pub proof fn lemma_json_of_entries_none(entries: Seq<(Seq<char>, TomlItemView)>, n: int)
    requires
        0 <= n <= entries.len(),
        json_of_entries(entries.take(n)).is_none(),
    ensures
        json_of_entries(entries).is_none(),
    decreases entries.len() - n,
{
    if n == entries.len() {
        assert(entries.take(n) =~= entries);
    } else {
        assert(entries.take(n + 1).drop_last() =~= entries.take(n));
        lemma_json_of_entries_none(entries, n + 1);
    }
}

/// The JSON value of a TOML value, or `None` where it holds a float that is
/// not finite.
pub fn toml_item_to_json(item: &TomlItem) -> (r: Option<Json>)
    ensures
        match r {
            Some(value) => json_of(item@) == Some(value@),
            None => json_of(item@).is_none(),
        },
    decreases item,
{
    match item {
        TomlItem::Text(s) => Some(Json::Text(s.clone())),
        TomlItem::Integer(i) => Some(
            Json::Number(
                if *i >= 0 {
                    JsonNumber::PosInt(*i as u64)
                } else {
                    JsonNumber::NegInt(*i)
                },
            ),
        ),
        TomlItem::Float(Some(text)) => Some(Json::Number(JsonNumber::Real(text.clone()))),
        TomlItem::Float(None) => None,
        TomlItem::Boolean(b) => Some(Json::Bool(*b)),
        TomlItem::Array(items) => {
            let ghost views = toml_items_view(items@);
            proof {
                lemma_toml_items_view(items@);
                assert(views.take(0) =~= Seq::empty());
            }
            let mut values: Vec<Json> = Vec::new();
            let mut i: usize = 0;
            while i < items.len()
                invariant
                    i <= items@.len(),
                    *item == TomlItem::Array(*items),
                    views == toml_items_view(items@),
                    views.len() == items@.len(),
                    forall|k: int|
                        0 <= k < items@.len() ==> #[trigger] views[k] == toml_view(items@[k]),
                    json_of_items(views.take(i as int)) == Some(crate::json::items_view(values@)),
                decreases items.len() - i,
            {
                proof {
                    assert(decreases_to!(*item => item->Array_0));
                    assert(decreases_to!(*items => items[i as int]));
                    assert(views.take(i + 1).drop_last() =~= views.take(i as int));
                    assert(views.take(i + 1).last() == views[i as int]);
                }
                match toml_item_to_json(&items[i]) {
                    Some(value) => {
                        let ghost before = values@;
                        values.push(value);
                        proof {
                            assert(values@.drop_last() =~= before);
                        }
                    },
                    None => {
                        proof {
                            lemma_json_of_items_none(views, i + 1);
                        }
                        return None;
                    },
                }
                i += 1;
            }
            assert(views.take(items@.len() as int) =~= views);
            Some(Json::Array(values))
        },
        TomlItem::Table(entries) => {
            let ghost views = toml_entries_view(entries@);
            proof {
                lemma_toml_entries_view(entries@);
                assert(views.take(0) =~= Seq::empty());
            }
            let mut members: Vec<(String, Json)> = Vec::new();
            let mut i: usize = 0;
            while i < entries.len()
                invariant
                    i <= entries@.len(),
                    *item == TomlItem::Table(*entries),
                    views == toml_entries_view(entries@),
                    views.len() == entries@.len(),
                    forall|k: int|
                        0 <= k < entries@.len() ==> #[trigger] views[k] == (
                            entries@[k].0@,
                            toml_view(entries@[k].1),
                        ),
                    json_of_entries(views.take(i as int)) == Some(
                        crate::json::members_view(members@),
                    ),
                decreases entries.len() - i,
            {
                proof {
                    assert(decreases_to!(*item => item->Table_0));
                    assert(decreases_to!(*entries => entries[i as int]));
                    assert(decreases_to!(entries[i as int] => entries[i as int].1));
                    assert(views.take(i + 1).drop_last() =~= views.take(i as int));
                    assert(views.take(i + 1).last() == views[i as int]);
                }
                match toml_item_to_json(&entries[i].1) {
                    Some(value) => {
                        let ghost before = members@;
                        members.push((entries[i].0.clone(), value));
                        proof {
                            assert(members@.drop_last() =~= before);
                        }
                    },
                    None => {
                        proof {
                            lemma_json_of_entries_none(views, i + 1);
                        }
                        return None;
                    },
                }
                i += 1;
            }
            assert(views.take(entries@.len() as int) =~= views);
            Some(Json::Object(members))
        },
    }
}

/// What a TOML document holds. `None` for a text that is no TOML document.
pub uninterp spec fn toml_document(text: Seq<char>) -> Option<TomlItemView>;

/// Parses `text` with `toml_span::parse`. The document is handed back as the
/// plain value that stands for it; an error is handed back as its text. The
/// result is a function of the text alone.
#[verifier::external_body]
fn parse_toml(text: &str) -> (r: Result<TomlItem, String>)
    ensures
        match r {
            Ok(value) => toml_document(text@) == Some(value@),
            Err(_) => toml_document(text@).is_none(),
        },
{
    toml_span::parse(text).map(toml_to_item).map_err(|err| err.to_string())
}

/// A value of a TOML document, of the `toml-span` crate.
#[verifier::external_type_specification]
#[verifier::external_body]
pub struct ExTomlValue<'de>(toml_span::Value<'de>);

/// Takes a `toml_span::Value` apart with `Value::take` and hands back the
/// plain value of its kind, variant by variant. A float is handed back as the
/// text of what `serde_json::Number::from_f64` makes of it, which is nothing
/// for a float that is not finite.
#[verifier::external_body]
fn toml_to_item(mut value: toml_span::Value<'_>) -> TomlItem {
    match value.take() {
        toml_span::value::ValueInner::String(s) => TomlItem::Text(s.into_owned()),
        toml_span::value::ValueInner::Integer(i) => TomlItem::Integer(i),
        toml_span::value::ValueInner::Float(x) => TomlItem::Float(
            serde_json::Number::from_f64(x).map(|n| n.to_string()),
        ),
        toml_span::value::ValueInner::Boolean(b) => TomlItem::Boolean(b),
        toml_span::value::ValueInner::Array(a) => TomlItem::Array(
            a.into_iter().map(toml_to_item).collect(),
        ),
        toml_span::value::ValueInner::Table(t) => TomlItem::Table(
            t.into_iter().map(|(k, v)| (k.name.into_owned(), toml_to_item(v))).collect(),
        ),
    }
}

/// What a TOML text gives as a JSON value: the JSON value of the document
/// that it holds. `None` for a text that is no TOML document, and for one
/// that holds a float that is not finite.
pub open spec fn toml_json(text: Seq<char>) -> Option<JsonView> {
    match toml_document(text) {
        Some(document) => json_of(document),
        None => None,
    }
}

/// The complaint about a float that JSON cannot write.
pub open spec fn invalid_float() -> Seq<char> {
    "Invalid float value"@
}

/// Read a TOML document as a JSON value.
///
/// A text that is no TOML document gives the complaint of the parser, and a
/// document with a float that is not finite gives `Invalid float value`.
pub fn toml_to_json_value(text: &str) -> (r: Result<Json, String>)
    ensures
        match toml_document(text@) {
            None => r is Err,
            Some(document) => match json_of(document) {
                Some(value) => r matches Ok(found) && found@ == value,
                None => r matches Err(message) && message@ == invalid_float(),
            },
        },
{
    match parse_toml(text) {
        Err(message) => Err(message),
        Ok(item) => match toml_item_to_json(&item) {
            Some(value) => Ok(value),
            None => Err(String::from_str("Invalid float value")),
        },
    }
}

} // verus!

verus! {

/// A type that can be read from the value of a prompt file.
pub trait FromValue: Sized {
    /// Why a value is no value of the type.
    type Error;

    /// Whether `result` is what reading `value` gives.
    spec fn reads(value: Json, result: Result<Self, Self::Error>) -> bool;

    /// Read a value of the type.
    fn from_value(value: &Json) -> (r: Result<Self, Self::Error>)
        ensures
            Self::reads(*value, r),
    ;
}

/// Why a TOML text gives no value.
#[derive(Debug, PartialEq, Eq)]
pub enum TomlError<E> {
    /// The text is no TOML document.
    Syntax { message: String },
    /// The document holds a float that is not finite.
    InvalidFloat,
    /// The document does not hold a value of the type asked for.
    Value { error: E },
}

/// Whether `r` is what reading a document as a value of the type gives: the
/// value, or what is wrong with the document.
pub open spec fn read_as<T: FromValue>(document: JsonView, r: Result<T, TomlError<T::Error>>)
    -> bool {
    exists|value: Json, read: Result<T, T::Error>|
        value@ == document && #[trigger] T::reads(value, read) && r == (match read {
            Ok(v) => Ok::<T, TomlError<T::Error>>(v),
            Err(error) => Err(TomlError::Value { error }),
        })
}

/// Deserialize a TOML string into a value of the specified type.
///
/// A text that is no TOML document gives a syntax error, and a document with
/// a float that is not finite is refused. Any other text is read as the
/// document that it holds.
pub fn from_toml_str<T: FromValue>(toml_str: &str) -> (r: Result<T, TomlError<T::Error>>)
    ensures
        match toml_document(toml_str@) {
            None => r is Err && r->Err_0 is Syntax,
            Some(item) => match json_of(item) {
                None => r is Err && r->Err_0 is InvalidFloat,
                Some(document) => read_as(document, r),
            },
        },
{
    let item = match parse_toml(toml_str) {
        Err(message) => {
            return Err(TomlError::Syntax { message });
        },
        Ok(item) => item,
    };
    match toml_item_to_json(&item) {
        None => Err(TomlError::InvalidFloat),
        Some(value) => {
            let read = T::from_value(&value);
            proof {
                assert(T::reads(value, read));
            }
            match read {
                Ok(v) => Ok(v),
                Err(error) => Err(TomlError::Value { error }),
            }
        },
    }
}

impl FromValue for JsonValue {
    type Error = ();

    /// Any value is a raw JSON value: it is taken as it is.
    open spec fn reads(value: Json, result: Result<Self, ()>) -> bool {
        result matches Ok(raw) && raw.0@ == value@
    }

    fn from_value(value: &Json) -> (r: Result<Self, ()>) {
        Ok(JsonValue(value.clone()))
    }
}

} // verus!

verus! {

/// An error that can say in a sentence what is wrong.
pub trait Describe {
    /// The sentence that `describe` returns.
    spec fn description(&self) -> Seq<char>;

    /// A sentence that describes the error.
    fn describe(&self) -> (s: String)
        ensures
            s@ == self.description(),
    ;
}

impl Describe for () {
    open spec fn description(&self) -> Seq<char> {
        Seq::empty()
    }

    fn describe(&self) -> (s: String) {
        String::new()
    }
}

impl<E: Describe> TomlError<E> {
    /// A sentence that describes the error: the text of a syntax error, or
    /// the description of what is wrong with the value.
    pub fn message(&self) -> (s: String)
        ensures
            s@ == (match self {
                TomlError::Syntax { message } => message@,
                TomlError::InvalidFloat => invalid_float(),
                TomlError::Value { error } => error.description(),
            }),
    {
        match self {
            TomlError::Syntax { message } => message.clone(),
            TomlError::InvalidFloat => String::from_str("Invalid float value"),
            TomlError::Value { error } => error.describe(),
        }
    }
}

} // verus!

verus! {

/// Deserialize a JSON string into a value of the specified type.
///
/// A text that is no JSON document gives a syntax error. Any other text is
/// read as the document that it holds.
pub fn from_json_str<T: FromValue>(json_str: &str) -> (r: Result<T, TomlError<T::Error>>)
    ensures
        match crate::json::json_document(json_str@) {
            None => r is Err && r->Err_0 is Syntax,
            Some(document) => read_as(document, r),
        },
{
    match crate::json::json_from_str(json_str) {
        Err(message) => Err(TomlError::Syntax { message }),
        Ok(value) => {
            let read = T::from_value(&value);
            proof {
                assert(T::reads(value, read));
            }
            match read {
                Ok(v) => Ok(v),
                Err(error) => Err(TomlError::Value { error }),
            }
        },
    }
}

/// Read a value from the text of a file that holds JSON where `is_json_like`
/// says so, and TOML otherwise.
pub fn read_json_or_toml<T: FromValue>(text: &str, is_json_like: bool) -> (r: Result<
    T,
    TomlError<T::Error>,
>)
    ensures
        is_json_like ==> (match crate::json::json_document(text@) {
            None => r is Err && r->Err_0 is Syntax,
            Some(document) => read_as(document, r),
        }),
        !is_json_like ==> (match toml_document(text@) {
            None => r is Err && r->Err_0 is Syntax,
            Some(item) => match json_of(item) {
                None => r is Err && r->Err_0 is InvalidFloat,
                Some(document) => read_as(document, r),
            },
        }),
{
    if is_json_like {
        from_json_str(text)
    } else {
        from_toml_str(text)
    }
}

} // verus!
