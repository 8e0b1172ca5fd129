//! A plain model of JSON values, as the records of this crate carry them.

use vstd::prelude::*;
use crate::text::str_eq;

verus! {

/// A JSON number. A number that is no integer of 64 bits is carried as its
/// JSON text, so that it passes through unchanged. A text that is no number
/// as JSON writes it is written as `null`: see `written`.
#[derive(Debug, PartialEq, Eq)]
pub enum JsonNumber {
    /// A non-negative integer.
    PosInt(u64),
    /// A negative integer.
    NegInt(i64),
    /// Any other number, as it is written in JSON.
    Real(String),
}

/// The mathematical model of a JSON number.
pub enum JsonNumberView {
    PosInt(u64),
    NegInt(i64),
    Real(Seq<char>),
}

impl View for JsonNumber {
    type V = JsonNumberView;

    open spec fn view(&self) -> JsonNumberView {
        match *self {
            JsonNumber::PosInt(n) => JsonNumberView::PosInt(n),
            JsonNumber::NegInt(n) => JsonNumberView::NegInt(n),
            JsonNumber::Real(text) => JsonNumberView::Real(text@),
        }
    }
}

impl Clone for JsonNumber {
    /// A copy: a number with the same model.
    fn clone(&self) -> (copy: JsonNumber)
        ensures
            copy@ == self@,
    {
        match self {
            JsonNumber::PosInt(n) => JsonNumber::PosInt(*n),
            JsonNumber::NegInt(n) => JsonNumber::NegInt(*n),
            JsonNumber::Real(text) => JsonNumber::Real(text.clone()),
        }
    }
}

/// A JSON value.
#[derive(Debug, PartialEq, Eq)]
pub enum Json {
    /// `null`.
    Null,
    /// `true` or `false`.
    Bool(bool),
    /// A number.
    Number(JsonNumber),
    /// A string.
    Text(String),
    /// An array.
    Array(Vec<Json>),
    /// An object, as its members in order. Where a key stands more than
    /// once, its first member counts: a lookup finds it, and it alone is
    /// written. What this library reads from a text or builds from a record
    /// has every key once.
    Object(Vec<(String, Json)>),
}

/// The members of a JSON object: keys with their values, in order.
pub type JsonObject = Vec<(String, Json)>;

/// The index of the first member of `members` whose key is `key`, or the
/// number of members where there is none.
pub open spec fn member_index(members: Seq<(String, Json)>, key: Seq<char>) -> int
    decreases members.len(),
{
    if members.len() == 0 {
        0
    } else if members[0].0@ == key {
        0
    } else {
        1 + member_index(members.skip(1), key)
    }
}

/// `member_index` is the least index whose key is `key`.
pub proof fn lemma_member_index(members: Seq<(String, Json)>, key: Seq<char>)
    ensures
        0 <= member_index(members, key) <= members.len(),
        member_index(members, key) < members.len() ==> members[member_index(members, key)].0@
            == key,
        forall|k: int| 0 <= k < member_index(members, key) ==> (#[trigger] members[k]).0@ != key,
    decreases members.len(),
{
    if members.len() > 0 && members[0].0@ != key {
        lemma_member_index(members.skip(1), key);
        let r = member_index(members.skip(1), key);
        assert forall|k: int| 0 <= k < 1 + r implies (#[trigger] members[k]).0@ != key by {
            if k > 0 {
                assert(members.skip(1)[k - 1] == members[k]);
            }
        }
    }
}

/// Any index with the properties of `lemma_member_index` is `member_index`.
pub proof fn lemma_member_index_unique(members: Seq<(String, Json)>, key: Seq<char>, r: int)
    requires
        0 <= r <= members.len(),
        r < members.len() ==> members[r].0@ == key,
        forall|k: int| 0 <= k < r ==> (#[trigger] members[k]).0@ != key,
    ensures
        r == member_index(members, key),
{
    lemma_member_index(members, key);
    let m = member_index(members, key);
    if m < r {
        assert(members[m].0@ == key);
    } else if m > r {
        assert(members[r].0@ == key);
    }
}

/// The index of the first member named `key`.
pub fn find_member(members: &Vec<(String, Json)>, key: &str) -> (i: usize)
    ensures
        i == member_index(members@, key@),
        i <= members.len(),
{
    let mut i: usize = 0;
    while i < members.len()
        invariant
            i <= members.len(),
            forall|k: int| 0 <= k < i ==> (#[trigger] members@[k]).0@ != key@,
        decreases members.len() - i,
    {
        if str_eq(members[i].0.as_str(), key) {
            proof {
                lemma_member_index_unique(members@, key@, i as int);
            }
            return i;
        }
        i += 1;
    }
    proof {
        lemma_member_index_unique(members@, key@, i as int);
    }
    i
}

/// The value that a lookup of `key` finds among `members`: that of the first
/// member of the key.
pub open spec fn member_value(members: Seq<(String, Json)>, key: Seq<char>) -> Option<Json> {
    let at = member_index(members, key);
    if at < members.len() {
        Some(members[at].1)
    } else {
        None
    }
}

/// Whether no two members have the same key. The objects that this library
/// reads from a text or builds from a record are such; in any other, a lookup
/// finds the first member of a key.
pub open spec fn distinct_keys(members: Seq<(String, Json)>) -> bool {
    forall|i: int, j: int|
        0 <= i < j < members.len() ==> (#[trigger] members[i]).0@ != (#[trigger] members[j]).0@
}

/// The members after `value` is put under `key`: in the place of the first
/// member of that key, or else as a new last member.
pub open spec fn with_member(members: Seq<(String, Json)>, key: String, value: Json) -> Seq<
    (String, Json),
> {
    let at = member_index(members, key@);
    if at < members.len() {
        members.update(at, (key, value))
    } else {
        members.push((key, value))
    }
}

/// Putting a value under a key keeps the keys distinct, makes the value the
/// one that a lookup of the key finds, and changes no lookup of another key.
pub proof fn lemma_with_member(members: Seq<(String, Json)>, key: String, value: Json)
    ensures
        distinct_keys(members) ==> distinct_keys(with_member(members, key, value)),
        member_index(with_member(members, key, value), key@) == member_index(members, key@),
        member_index(members, key@) < with_member(members, key, value).len(),
        with_member(members, key, value)[member_index(members, key@)].1 == value,
        forall|other: Seq<char>|
            other != key@ ==> {
                &&& (#[trigger] member_index(with_member(members, key, value), other)
                    < with_member(members, key, value).len()) == (member_index(members, other)
                    < members.len())
                &&& member_index(members, other) < members.len() ==> with_member(
                    members,
                    key,
                    value,
                )[member_index(with_member(members, key, value), other)].1
                    == members[member_index(members, other)].1
            },
{
    let at = member_index(members, key@);
    let after = with_member(members, key, value);
    lemma_member_index(members, key@);
    assert forall|k: int| 0 <= k < after.len() implies ((#[trigger] after[k]).0@ == (if k
        < members.len() {
        members[k].0@
    } else {
        key@
    })) by {}
    lemma_member_index_unique(after, key@, at);
    if distinct_keys(members) {
        assert forall|i: int, j: int| 0 <= i < j < after.len() implies (#[trigger] after[i]).0@ != (
        #[trigger] after[j]).0@ by {
            if j < members.len() {
                assert(members[i].0@ != members[j].0@);
            } else {
                assert(members[i].0@ != key@);
            }
        }
    }
    assert forall|other: Seq<char>| other != key@ implies {
        &&& (#[trigger] member_index(after, other) < after.len()) == (member_index(members, other)
            < members.len())
        &&& member_index(members, other) < members.len() ==> after[member_index(after, other)].1
            == members[member_index(members, other)].1
    } by {
        let m = member_index(members, other);
        lemma_member_index(members, other);
        if m < members.len() {
            assert forall|k: int| 0 <= k < m implies (#[trigger] after[k]).0@ != other by {
                assert(members[k].0@ != other);
            }
            lemma_member_index_unique(after, other, m);
        } else {
            assert forall|k: int| 0 <= k < after.len() implies (#[trigger] after[k]).0@ != other by {
                if k < members.len() {
                    assert(members[k].0@ != other);
                }
            }
            lemma_member_index_unique(after, other, after.len() as int);
        }
    }
}

/// Put `value` under `key`, as a map does: in the place of the member of that
/// key where there is one, and as a new last member otherwise.
pub fn set_member(members: &mut Vec<(String, Json)>, key: String, value: Json)
    ensures
        final(members)@ == with_member(old(members)@, key, value),
{
    let at = find_member(members, key.as_str());
    if at < members.len() {
        members.set(at, (key, value));
    } else {
        members.push((key, value));
    }
}

impl Json {
    /// The value of the first member named `key`, where this is an object that
    /// has one.
    pub open spec fn member(&self, key: Seq<char>) -> Option<Json> {
        match self {
            Json::Object(members) => {
                let i = member_index(members@, key);
                if i < members@.len() {
                    Some(members@[i].1)
                } else {
                    None
                }
            },
            _ => None,
        }
    }

    /// The characters of this value, where it is a string.
    pub open spec fn text(&self) -> Option<Seq<char>> {
        match self {
            Json::Text(s) => Some(s@),
            _ => None,
        }
    }

    /// Look up a member of an object by its key.
    pub fn get(&self, key: &str) -> (r: Option<&Json>)
        ensures
            match r {
                Some(v) => self.member(key@) == Some(*v),
                None => self.member(key@).is_none(),
            },
    {
        match self {
            Json::Object(members) => {
                let i = find_member(members, key);
                if i < members.len() {
                    Some(&members[i].1)
                } else {
                    None
                }
            },
            _ => None,
        }
    }

    /// The string that this value holds, if it is one.
    pub fn as_str(&self) -> (r: Option<&str>)
        ensures
            match r {
                Some(s) => self.text() == Some(s@),
                None => self.text().is_none(),
            },
    {
        match self {
            Json::Text(s) => Some(s.as_str()),
            _ => None,
        }
    }
}


} // verus!

verus! {

/// The mathematical model of a JSON value.
pub enum JsonView {
    Null,
    Bool(bool),
    Number(JsonNumberView),
    Text(Seq<char>),
    Array(Seq<JsonView>),
    Object(Seq<(Seq<char>, JsonView)>),
}

/// The models of the items of an array, in order.
pub open spec fn items_view(items: Seq<Json>) -> Seq<JsonView>
    decreases items, 0int,
{
    if items.len() == 0 {
        Seq::empty()
    } else {
        items_view(items.drop_last()).push(json_view(items.last()))
    }
}

/// The models of the members of an object, in order.
pub open spec fn members_view(members: Seq<(String, Json)>) -> Seq<(Seq<char>, JsonView)>
    decreases members, 0int,
{
    if members.len() == 0 {
        Seq::empty()
    } else {
        members_view(members.drop_last()).push((members.last().0@, json_view(members.last().1)))
    }
}

/// The model of a JSON value.
pub open spec fn json_view(value: Json) -> JsonView
    decreases value, 1int,
{
    match value {
        Json::Null => JsonView::Null,
        Json::Bool(b) => JsonView::Bool(b),
        Json::Number(n) => JsonView::Number(n@),
        Json::Text(s) => JsonView::Text(s@),
        Json::Array(items) => JsonView::Array(items_view(items@)),
        Json::Object(members) => JsonView::Object(members_view(members@)),
    }
}

impl View for Json {
    type V = JsonView;

    open spec fn view(&self) -> JsonView {
        json_view(*self)
    }
}

/// The model of an array holds the model of each item at its place.
pub proof fn lemma_items_view(items: Seq<Json>)
    ensures
        items_view(items).len() == items.len(),
        forall|i: int| 0 <= i < items.len() ==> #[trigger] items_view(items)[i] == json_view(items[i]),
    decreases items.len(),
{
    if items.len() > 0 {
        lemma_items_view(items.drop_last());
    }
}

/// The model of an object holds the key and the model of each member at its
/// place.
pub proof fn lemma_members_view(members: Seq<(String, Json)>)
    ensures
        members_view(members).len() == members.len(),
        forall|i: int|
            0 <= i < members.len() ==> #[trigger] members_view(members)[i] == (
                members[i].0@,
                json_view(members[i].1),
            ),
    decreases members.len(),
{
    if members.len() > 0 {
        lemma_members_view(members.drop_last());
    }
}

impl Clone for Json {
    /// A deep copy: a value with the same model.
    fn clone(&self) -> (copy: Json)
        ensures
            copy@ == self@,
        decreases self,
    {
        match self {
            Json::Null => Json::Null,
            Json::Bool(b) => Json::Bool(*b),
            Json::Number(n) => Json::Number(n.clone()),
            Json::Text(s) => Json::Text(s.clone()),
            Json::Array(items) => {
                let mut copy: Vec<Json> = Vec::new();
                let mut i: usize = 0;
                while i < items.len()
                    invariant
                        i <= items.len(),
                        *self == Json::Array(*items),
                        items_view(copy@) == items_view(items@.take(i as int)),
                    decreases items.len() - i,
                {
                    proof {
                        assert(decreases_to!(*self => self->Array_0));
                        assert(decreases_to!(*items => items[i as int]));
                    }
                    let item = items[i].clone();
                    let ghost before = copy@;
                    copy.push(item);
                    proof {
                        assert(copy@.drop_last() =~= before);
                        assert(items@.take(i + 1).drop_last() =~= items@.take(i as int));
                    }
                    i += 1;
                }
                assert(items@.take(items.len() as int) =~= items@);
                Json::Array(copy)
            },
            Json::Object(members) => {
                let mut copy: Vec<(String, Json)> = Vec::new();
                let mut i: usize = 0;
                while i < members.len()
                    invariant
                        i <= members.len(),
                        *self == Json::Object(*members),
                        members_view(copy@) == members_view(members@.take(i as int)),
                    decreases members.len() - i,
                {
                    proof {
                        assert(decreases_to!(*self => self->Object_0));
                        assert(decreases_to!(*members => members[i as int]));
                        assert(decreases_to!(members[i as int] => members[i as int].1));
                    }
                    let key = members[i].0.clone();
                    let value = members[i].1.clone();
                    let ghost before = copy@;
                    copy.push((key, value));
                    proof {
                        assert(copy@.drop_last() =~= before);
                        assert(members@.take(i + 1).drop_last() =~= members@.take(i as int));
                    }
                    i += 1;
                }
                assert(members@.take(members.len() as int) =~= members@);
                Json::Object(copy)
            },
        }
    }
}

} // verus!

verus! {

/// A deep copy of the items of an array.
pub fn clone_items(items: &Vec<Json>) -> (copy: Vec<Json>)
    ensures
        items_view(copy@) == items_view(items@),
{
    let mut copy: Vec<Json> = Vec::new();
    let mut i: usize = 0;
    while i < items.len()
        invariant
            i <= items.len(),
            items_view(copy@) == items_view(items@.take(i as int)),
        decreases items.len() - i,
    {
        let item = items[i].clone();
        let ghost before = copy@;
        copy.push(item);
        proof {
            assert(copy@.drop_last() =~= before);
            assert(items@.take(i + 1).drop_last() =~= items@.take(i as int));
        }
        i += 1;
    }
    assert(items@.take(items.len() as int) =~= items@);
    copy
}

/// A deep copy of the members of an object.
pub fn clone_members(members: &Vec<(String, Json)>) -> (copy: Vec<(String, Json)>)
    ensures
        members_view(copy@) == members_view(members@),
{
    let mut copy: Vec<(String, Json)> = Vec::new();
    let mut i: usize = 0;
    while i < members.len()
        invariant
            i <= members.len(),
            members_view(copy@) == members_view(members@.take(i as int)),
        decreases members.len() - i,
    {
        let key = members[i].0.clone();
        let value = members[i].1.clone();
        let ghost before = copy@;
        copy.push((key, value));
        proof {
            assert(copy@.drop_last() =~= before);
            assert(members@.take(i + 1).drop_last() =~= members@.take(i as int));
        }
        i += 1;
    }
    assert(members@.take(members.len() as int) =~= members@);
    copy
}

/// A JSON string with the characters of `s`.
pub fn json_text(s: &str) -> (j: Json)
    ensures
        j@ == JsonView::Text(s@),
{
    Json::Text(String::from_str(s))
}

/// A member of a JSON object.
pub fn member(key: &str, value: Json) -> (m: (String, Json))
    ensures
        m.0@ == key@,
        m.1 == value,
{
    (String::from_str(key), value)
}

} // verus!

verus! {

/// The value type of the `serde_json` crate.
#[verifier::external_type_specification]
#[verifier::external_body]
pub struct ExValue(serde_json::Value);

/// Whether a text is a number as JSON writes it, by the judgement of
/// `serde_json`.
pub uninterp spec fn json_number_text(text: Seq<char>) -> bool;

/// Reads `text` with `serde_json::from_str` as a `serde_json::Number` and
/// says whether that succeeded. The result is a function of the text alone.
#[verifier::external_body]
fn parses_as_number(text: &str) -> (b: bool)
    ensures
        b == json_number_text(text@),
{
    serde_json::from_str::<serde_json::Number>(text).is_ok()
}

/// Whether every number of a value that is carried as a text is written as
/// JSON writes numbers.
pub open spec fn well_written(value: JsonView) -> bool
    decreases value,
{
    match value {
        JsonView::Number(JsonNumberView::Real(text)) => json_number_text(text),
        JsonView::Array(items) => forall|i: int|
            0 <= i < items.len() ==> well_written(#[trigger] items[i]),
        JsonView::Object(members) => distinct_names(members) && forall|i: int|
            0 <= i < members.len() ==> well_written((#[trigger] members[i]).1),
        _ => true,
    }
}

/// Whether no two members have the same key.
pub open spec fn distinct_names(members: Seq<(Seq<char>, JsonView)>) -> bool {
    forall|i: int, j: int|
        0 <= i < j < members.len() ==> (#[trigger] members[i]).0 != (#[trigger] members[j]).0
}

/// Whether one of the members has the key.
pub open spec fn has_name(members: Seq<(Seq<char>, JsonView)>, key: Seq<char>) -> bool {
    exists|i: int| 0 <= i < members.len() && (#[trigger] members[i]).0 == key
}

/// The items of an array as they are written.
pub open spec fn written_items(items: Seq<JsonView>) -> Seq<JsonView>
    decreases items, 0int,
{
    if items.len() == 0 {
        Seq::empty()
    } else {
        written_items(items.drop_last()).push(written(items.last()))
    }
}

/// The members of an object as they are written: of the members of one key
/// the first, as a lookup finds it.
pub open spec fn written_members(members: Seq<(Seq<char>, JsonView)>) -> Seq<
    (Seq<char>, JsonView),
>
    decreases members, 0int,
{
    if members.len() == 0 {
        Seq::empty()
    } else if has_name(members.drop_last(), members.last().0) {
        written_members(members.drop_last())
    } else {
        written_members(members.drop_last()).push((members.last().0, written(members.last().1)))
    }
}

/// A value as it is written: with `null` in the place of every number that
/// is carried as a text and is not written as JSON writes numbers, with the
/// first member only of every key of an object, and otherwise unchanged.
pub open spec fn written(value: JsonView) -> JsonView
    decreases value, 1int,
{
    match value {
        JsonView::Number(JsonNumberView::Real(text)) => if json_number_text(text) {
            value
        } else {
            JsonView::Null
        },
        JsonView::Array(items) => JsonView::Array(written_items(items)),
        JsonView::Object(members) => JsonView::Object(written_members(members)),
        _ => value,
    }
}

/// What is written holds the written form of each item at its place.
pub proof fn lemma_written_items(items: Seq<JsonView>)
    ensures
        written_items(items).len() == items.len(),
        forall|i: int| 0 <= i < items.len() ==> #[trigger] written_items(items)[i] == written(items[i]),
    decreases items.len(),
{
    if items.len() > 0 {
        lemma_written_items(items.drop_last());
    }
}

/// What is written of an object holds each key of the object, once.
pub proof fn lemma_written_members(members: Seq<(Seq<char>, JsonView)>)
    ensures
        distinct_names(written_members(members)),
        forall|key: Seq<char>| #[trigger]
            has_name(written_members(members), key) == has_name(members, key),
    decreases members.len(),
{
    let after = written_members(members);
    if members.len() > 0 {
        let before = members.drop_last();
        let last = members.last();
        lemma_written_members(before);
        assert forall|key: Seq<char>| #[trigger] has_name(after, key) == has_name(members, key) by {
            if has_name(members, key) {
                let i = choose|i: int| 0 <= i < members.len() && (#[trigger] members[i]).0 == key;
                if i < before.len() {
                    assert(before[i].0 == key);
                    assert(has_name(before, key));
                    assert(has_name(written_members(before), key));
                    let k = choose|k: int|
                        0 <= k < written_members(before).len() && (#[trigger] written_members(
                            before,
                        )[k]).0 == key;
                    assert(after[k].0 == key);
                } else if has_name(before, last.0) {
                    assert(has_name(written_members(before), key));
                } else {
                    assert(after[after.len() - 1].0 == key);
                }
            }
            if has_name(after, key) {
                let k = choose|k: int| 0 <= k < after.len() && (#[trigger] after[k]).0 == key;
                if k < written_members(before).len() {
                    assert(written_members(before)[k].0 == key);
                    assert(has_name(written_members(before), key));
                    assert(has_name(before, key));
                    let i = choose|i: int| 0 <= i < before.len() && (#[trigger] before[i]).0 == key;
                    assert(members[i].0 == key);
                } else {
                    assert(members[members.len() - 1].0 == key);
                }
            }
        }
        if !has_name(before, last.0) {
            assert forall|i: int, j: int| 0 <= i < j < after.len() implies (#[trigger] after[i]).0
                != (#[trigger] after[j]).0 by {
                if j < written_members(before).len() {
                    assert(written_members(before)[i].0 != written_members(before)[j].0);
                } else {
                    if after[i].0 == last.0 {
                        assert(written_members(before)[i].0 == last.0);
                        assert(has_name(written_members(before), last.0));
                    }
                }
            }
        }
    }
}

impl Json {
    /// A copy of this value as it is written: with `null` in the place of
    /// every number that is no number as JSON writes it.
    pub fn written_copy(&self) -> (copy: Json)
        ensures
            copy@ == written(self@),
            well_written(copy@),
        decreases self,
    {
        match self {
            Json::Null => Json::Null,
            Json::Bool(b) => Json::Bool(*b),
            Json::Number(JsonNumber::PosInt(n)) => Json::Number(JsonNumber::PosInt(*n)),
            Json::Number(JsonNumber::NegInt(n)) => Json::Number(JsonNumber::NegInt(*n)),
            Json::Number(JsonNumber::Real(text)) => if parses_as_number(text.as_str()) {
                Json::Number(JsonNumber::Real(text.clone()))
            } else {
                Json::Null
            },
            Json::Text(s) => Json::Text(s.clone()),
            Json::Array(items) => {
                let mut copies: Vec<Json> = Vec::new();
                let mut i: usize = 0;
                proof {
                    lemma_items_view(items@);
                    lemma_written_items(items_view(items@));
                }
                while i < items.len()
                    invariant
                        i <= items@.len(),
                        *self == Json::Array(*items),
                        copies@.len() == i,
                        forall|k: int|
                            0 <= k < i ==> json_view(#[trigger] copies@[k]) == written(
                                json_view(items@[k]),
                            ) && well_written(json_view(copies@[k])),
                    decreases items.len() - i,
                {
                    proof {
                        assert(decreases_to!(*self => self->Array_0));
                        assert(decreases_to!(*items => items[i as int]));
                    }
                    copies.push(items[i].written_copy());
                    i += 1;
                }
                proof {
                    lemma_items_view(copies@);
                    assert(items_view(copies@) =~= written_items(items_view(items@)));
                }
                Json::Array(copies)
            },
            Json::Object(members) => {
                let mut copies: Vec<(String, Json)> = Vec::new();
                let mut i: usize = 0;
                let ghost views = members_view(members@);
                proof {
                    lemma_members_view(members@);
                    assert(views.take(0) =~= Seq::empty());
                }
                while i < members.len()
                    invariant
                        i <= members@.len(),
                        *self == Json::Object(*members),
                        views == members_view(members@),
                        views.len() == members@.len(),
                        forall|k: int|
                            0 <= k < members@.len() ==> #[trigger] views[k] == (
                                members@[k].0@,
                                json_view(members@[k].1),
                            ),
                        members_view(copies@) == written_members(views.take(i as int)),
                        forall|k: int|
                            0 <= k < copies@.len() ==> well_written(
                                json_view((#[trigger] copies@[k]).1),
                            ),
                    decreases members.len() - i,
                {
                    proof {
                        assert(decreases_to!(*self => self->Object_0));
                        assert(decreases_to!(*members => members[i as int]));
                        assert(decreases_to!(members[i as int] => members[i as int].1));
                        assert(views.take(i + 1).drop_last() =~= views.take(i as int));
                        assert(views.take(i + 1).last() == views[i as int]);
                        lemma_written_members(views.take(i as int));
                        lemma_members_view(copies@);
                        lemma_member_index(copies@, members@[i as int].0@);
                    }
                    let at = find_member(&copies, members[i].0.as_str());
                    if at == copies.len() {
                        proof {
                            if has_name(members_view(copies@), members@[i as int].0@) {
                                let k = choose|k: int|
                                    0 <= k < copies@.len() && (#[trigger] members_view(
                                        copies@,
                                    )[k]).0 == members@[i as int].0@;
                                assert(copies@[k].0@ == members@[i as int].0@);
                            }
                        }
                        let ghost before = copies@;
                        copies.push((members[i].0.clone(), members[i].1.written_copy()));
                        proof {
                            assert(copies@.drop_last() =~= before);
                        }
                    } else {
                        proof {
                            assert(members_view(copies@)[at as int].0 == members@[i as int].0@);
                            assert(has_name(members_view(copies@), members@[i as int].0@));
                        }
                    }
                    i += 1;
                }
                proof {
                    assert(views.take(members@.len() as int) =~= views);
                    lemma_written_members(views);
                    lemma_members_view(copies@);
                }
                Json::Object(copies)
            },
        }
    }
}

/// Builds the `serde_json::Value` that stands for `value`, variant by
/// variant: `Value::Null`, `Value::Bool`, `Value::from` for a whole number,
/// what `serde_json::from_str` reads for the text of any other number,
/// `Value::String`, `Value::Array` and `Value::Object`. The precondition
/// leaves out the texts that `serde_json` does not read as a number, so the
/// reading gives a number. Nothing is claimed of the value that comes back.
#[verifier::external_body]
pub(crate) fn to_serde_value(value: &Json) -> serde_json::Value
    requires
        well_written(value@),
{
    match value {
        Json::Null => serde_json::Value::Null,
        Json::Bool(b) => serde_json::Value::Bool(*b),
        Json::Number(JsonNumber::PosInt(n)) => serde_json::Value::from(*n),
        Json::Number(JsonNumber::NegInt(n)) => serde_json::Value::from(*n),
        Json::Number(JsonNumber::Real(t)) => serde_json::from_str(t).unwrap_or_default(),
        Json::Text(s) => serde_json::Value::String(s.clone()),
        Json::Array(items) => serde_json::Value::Array(items.iter().map(to_serde_value).collect()),
        Json::Object(members) => serde_json::Value::Object(
            members.iter().map(|(k, v)| (k.clone(), to_serde_value(v))).collect(),
        ),
    }
}

} // verus!

verus! {

/// What a JSON text holds. `None` for a text that is no JSON document.
pub uninterp spec fn json_document(text: Seq<char>) -> Option<JsonView>;

/// Takes a `serde_json::Value` apart, variant by variant, and builds the
/// value of this library that stands for it. A number is a whole number where
/// `Number::as_u64` or `Number::as_i64` gives one, and otherwise its text.
#[verifier::external_body]
fn from_serde_value(value: serde_json::Value) -> Json {
    match value {
        serde_json::Value::Null => Json::Null,
        serde_json::Value::Bool(b) => Json::Bool(b),
        serde_json::Value::Number(n) => Json::Number(
            n.as_u64().map(JsonNumber::PosInt).or(n.as_i64().map(JsonNumber::NegInt)).unwrap_or(
                JsonNumber::Real(n.to_string()),
            ),
        ),
        serde_json::Value::String(s) => Json::Text(s),
        serde_json::Value::Array(a) => Json::Array(a.into_iter().map(from_serde_value).collect()),
        serde_json::Value::Object(o) => Json::Object(
            o.into_iter().map(|(k, v)| (k, from_serde_value(v))).collect(),
        ),
    }
}

/// Parses `text` with `serde_json::from_str`. The document is handed back as
/// the value of this library that stands for it; an error is handed back as
/// its text. The result is a function of the text alone.
#[verifier::external_body]
fn parse_json(text: &str) -> (r: Result<Json, String>)
    ensures
        match r {
            Ok(value) => json_document(text@) == Some(value@),
            Err(_) => json_document(text@).is_none(),
        },
{
    serde_json::from_str(text).map(from_serde_value).map_err(|err| err.to_string())
}

/// Read a JSON text as a value.
pub fn json_from_str(text: &str) -> (r: Result<Json, String>)
    ensures
        match r {
            Ok(value) => json_document(text@) == Some(value@),
            Err(_) => json_document(text@).is_none(),
        },
{
    parse_json(text)
}

} // verus!

verus! {

/// The compact JSON text of a value, as `serde_json` writes it.
pub uninterp spec fn serialized(value: JsonView) -> Seq<char>;

/// The compact JSON text of a value: that of the value as it is written.
pub open spec fn compact_json(value: JsonView) -> Seq<char> {
    serialized(written(value))
}

/// Builds the `serde_json::Value` that stands for `value` and writes it with
/// its `Display`, which gives the compact JSON text. The result is a function
/// of the value alone.
#[verifier::external_body]
fn json_to_string(value: &Json) -> (text: String)
    requires
        well_written(value@),
    ensures
        text@ == serialized(value@),
{
    to_serde_value(value).to_string()
}

impl Json {
    /// The compact JSON text of this value.
    pub fn to_json_string(&self) -> (text: String)
        ensures
            text@ == compact_json(self@),
    {
        json_to_string(&self.written_copy())
    }
}

} // verus!

verus! {

/// An object with one member.
pub fn object_of_one(key: &str, value: Json) -> (j: Json)
    ensures
        j@ == JsonView::Object(seq![(key@, value@)]),
{
    let mut members: Vec<(String, Json)> = Vec::new();
    members.push(member(key, value));
    proof {
        lemma_members_view(members@);
        assert(members_view(members@) =~= seq![(key@, value@)]);
    }
    Json::Object(members)
}

/// An object with two members, in the order given.
pub fn object_of_two(first_key: &str, first: Json, second_key: &str, second: Json) -> (j: Json)
    ensures
        j@ == JsonView::Object(seq![(first_key@, first@), (second_key@, second@)]),
{
    let mut members: Vec<(String, Json)> = Vec::new();
    members.push(member(first_key, first));
    members.push(member(second_key, second));
    proof {
        lemma_members_view(members@);
        assert(members_view(members@) =~= seq![(first_key@, first@), (second_key@, second@)]);
    }
    Json::Object(members)
}

/// An object with three members, in the order given.
pub fn object_of_three(
    first_key: &str,
    first: Json,
    second_key: &str,
    second: Json,
    third_key: &str,
    third: Json,
) -> (j: Json)
    ensures
        j@ == JsonView::Object(
            seq![(first_key@, first@), (second_key@, second@), (third_key@, third@)],
        ),
{
    let mut members: Vec<(String, Json)> = Vec::new();
    members.push(member(first_key, first));
    members.push(member(second_key, second));
    members.push(member(third_key, third));
    proof {
        lemma_members_view(members@);
        assert(members_view(members@) =~= seq![
            (first_key@, first@),
            (second_key@, second@),
            (third_key@, third@),
        ]);
    }
    Json::Object(members)
}

/// An array with one item.
pub fn array_of_one(item: Json) -> (j: Json)
    ensures
        j@ == JsonView::Array(seq![item@]),
{
    let mut items: Vec<Json> = Vec::new();
    items.push(item);
    proof {
        lemma_items_view(items@);
        assert(items_view(items@) =~= seq![item@]);
    }
    Json::Array(items)
}

/// An array of the items given, in order.
pub fn array_of(items: Vec<Json>) -> (j: Json)
    ensures
        j@ == JsonView::Array(items_view(items@)),
        items_view(items@).len() == items@.len(),
        forall|i: int| 0 <= i < items@.len() ==> #[trigger] items_view(items@)[i] == items@[i]@,
{
    proof {
        lemma_items_view(items@);
    }
    Json::Array(items)
}

} // verus!
