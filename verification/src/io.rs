//! What the readers of input files decide: which format a file has, and how a
//! CSV record becomes a JSON object.

use vstd::prelude::*;
use crate::json::{
    distinct_keys, lemma_with_member, member_value, set_member, with_member, Json, JsonObject,
};
use crate::text::str_eq;

verus! {

/// Whether a file with this extension holds JSON or JSON lines.
pub open spec fn json_like_extension(extension: Seq<char>) -> bool {
    extension == "json"@ || extension == "jsonl"@
}

/// Whether a file with this extension holds JSON or JSON lines, and not CSV
/// or TOML.
pub fn is_json_like_extension(extension: &str) -> (b: bool)
    ensures
        b == json_like_extension(extension@),
{
    str_eq(extension, "json") || str_eq(extension, "jsonl")
}

/// Whether an input that starts with this byte holds JSON lines: it does
/// where the byte opens an object.
pub fn is_json_like_start(first_byte: u8) -> (b: bool)
    ensures
        b == (first_byte == 0x7b),
{
    first_byte == 0x7b
}

/// The object of the first `n` columns of a CSV record: each value is put as
/// a string under the header of its column, column after column, so that of
/// two columns with one header the later gives the value.
pub open spec fn record_object(headers: Seq<String>, record: Seq<String>, n: int) -> Seq<
    (String, Json),
>
    decreases n,
{
    if n <= 0 {
        Seq::empty()
    } else {
        with_member(record_object(headers, record, n - 1), headers[n - 1], Json::Text(record[n - 1]))
    }
}

/// The number of columns that have both a header and a value.
pub open spec fn column_count(headers: Seq<String>, record: Seq<String>) -> int {
    if headers.len() <= record.len() {
        headers.len() as int
    } else {
        record.len() as int
    }
}

/// The object of a record has each header once, and under each header the
/// value of the last column of that header.
pub proof fn lemma_record_object(headers: Seq<String>, record: Seq<String>, n: int, column: int)
    requires
        0 <= column < n <= headers.len(),
        n <= record.len(),
        forall|later: int| column < later < n ==> (#[trigger] headers[later])@ != headers[column]@,
    ensures
        distinct_keys(record_object(headers, record, n)),
        member_value(record_object(headers, record, n), headers[column]@) == Some(
            Json::Text(record[column]),
        ),
    decreases n,
{
    lemma_distinct_record(headers, record, n);
    let before = record_object(headers, record, n - 1);
    lemma_with_member(before, headers[n - 1], Json::Text(record[n - 1]));
    if column < n - 1 {
        lemma_record_object(headers, record, n - 1, column);
        assert(headers[n - 1]@ != headers[column]@);
    }
}

/// The object of a record has each header once.
pub proof fn lemma_distinct_record(headers: Seq<String>, record: Seq<String>, n: int)
    ensures
        distinct_keys(record_object(headers, record, n)),
    decreases n,
{
    if n > 0 {
        lemma_distinct_record(headers, record, n - 1);
        lemma_with_member(
            record_object(headers, record, n - 1),
            headers[n - 1],
            Json::Text(record[n - 1]),
        );
    }
}

/// The object of a CSV record: each value as a string under the header of its
/// column. Columns without a header and headers without a value are left out.
/// A header stands once in the object, where its first column stands; where
/// several columns have one header, the last of them gives the value.
pub fn csv_record_to_object(headers: &Vec<String>, record: &Vec<String>) -> (object: JsonObject)
    ensures
        object@ == record_object(headers@, record@, column_count(headers@, record@)),
        distinct_keys(object@),
{
    let n = if headers.len() <= record.len() { headers.len() } else { record.len() };
    let mut object: Vec<(String, Json)> = Vec::new();
    let mut i: usize = 0;
    while i < n
        invariant
            i <= n,
            n <= headers@.len(),
            n <= record@.len(),
            object@ == record_object(headers@, record@, i as int),
        decreases n - i,
    {
        set_member(&mut object, headers[i].clone(), Json::Text(record[i].clone()));
        i += 1;
    }
    proof {
        lemma_distinct_record(headers@, record@, n as int);
    }
    object
}

} // verus!
