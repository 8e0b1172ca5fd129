//! Converting binary data to a `data:` URL and reading one back.

use vstd::prelude::*;
use base64::Engine;
use base64::prelude::BASE64_STANDARD;
use crate::text::{
    chars_to_string, contains_char_from, find_char, has_prefix_at, has_prefix_at_spec,
    index_of_char, str_to_chars,
};

verus! {

/// The text that the standard Base64 alphabet with padding (RFC 4648,
/// section 4) gives for `data`.
pub uninterp spec fn base64_standard(data: Seq<u8>) -> Seq<char>;

/// Encodes through `Engine::encode` of `base64::prelude::BASE64_STANDARD`. The
/// result is a function of the bytes alone. The call panics where the length
/// of the output does not fit a `usize`, which the precondition excludes.
#[verifier::external_body]
fn base64_encode(data: &[u8]) -> (encoded: String)
    requires
        (data@.len() / 3 + 1) * 4 <= usize::MAX,
    ensures
        encoded@ == base64_standard(data@),
{
    BASE64_STANDARD.encode(data)
}

/// The `data:` URL of a MIME type and a Base64 text.
pub open spec fn data_url_spec(mime_type: Seq<char>, encoded: Seq<char>) -> Seq<char> {
    "data:"@ + mime_type + ";base64,"@ + encoded
}

/// Put a MIME type and data that is already Base64 text into a `data:` URL.
///
/// The Base64 text is not percent-encoded: in practice models reject that.
pub fn data_url_from_encoded(mime_type: &str, encoded: &str) -> (url: String)
    ensures
        url@ == data_url_spec(mime_type@, encoded@),
{
    let mut url = String::from_str("data:");
    url.append(mime_type);
    url.append(";base64,");
    url.append(encoded);
    url
}

/// Whether `data` is short enough for its Base64 text to fit in memory.
pub open spec fn encodable(data: Seq<u8>) -> bool {
    (data.len() / 3 + 1) * 4 <= usize::MAX
}

/// Convert binary data to a `data:` URL.
pub fn data_url(mime_type: &str, data: &[u8]) -> (url: String)
    requires
        encodable(data@),
    ensures
        url@ == data_url_spec(mime_type@, base64_standard(data@)),
{
    let encoded = base64_encode(data);
    data_url_from_encoded(mime_type, encoded.as_str())
}

/// The MIME type and the Base64 text of a `data:` URL.
///
/// A `data:` URL is `data:`, a MIME type of at least one character without a
/// `;`, the marker `;base64,`, and at least one character of data without a
/// line feed.
pub open spec fn parse_data_url_spec(url: Seq<char>) -> Option<(Seq<char>, Seq<char>)> {
    let scheme = "data:"@;
    let marker = ";base64,"@;
    if has_prefix_at_spec(url, 0, scheme) {
        let rest = url.skip(scheme.len() as int);
        let cut = index_of_char(rest, ';');
        let data = rest.skip(cut + marker.len());
        if cut > 0 && has_prefix_at_spec(rest, cut, marker) && data.len() > 0 && !data.contains(
            '\n',
        ) {
            Some((rest.take(cut), data))
        } else {
            None
        }
    } else {
        None
    }
}

/// Parse a `data:` URL into a MIME type and Base64-encoded data.
pub fn parse_data_url(data_url: &str) -> (r: Option<(String, String)>)
    ensures
        match r {
            Some((mime_type, data)) => parse_data_url_spec(data_url@) == Some(
                (mime_type@, data@),
            ),
            None => parse_data_url_spec(data_url@).is_none(),
        },
{
    let chars = str_to_chars(data_url);
    let scheme = str_to_chars("data:");
    let marker = str_to_chars(";base64,");
    if !has_prefix_at(&chars, 0, &scheme) {
        return None;
    }
    let start = scheme.len();
    let cut = find_char(&chars, start, ';');
    let ghost rest = chars@.skip(start as int);
    if cut == 0 {
        return None;
    }
    if !has_prefix_at(&chars, start + cut, &marker) {
        assert(!has_prefix_at_spec(rest, cut as int, marker@)) by {
            if has_prefix_at_spec(rest, cut as int, marker@) {
                assert(rest.subrange(cut as int, cut + marker@.len()) =~= chars@.subrange(
                    start + cut,
                    start + cut + marker@.len(),
                ));
            }
        }
        return None;
    }
    assert(has_prefix_at_spec(rest, cut as int, marker@)) by {
        assert(rest.subrange(cut as int, cut + marker@.len()) =~= chars@.subrange(
            start + cut,
            start + cut + marker@.len(),
        ));
    }
    let data_start = start + cut + marker.len();
    assert(rest.skip(cut + marker@.len()) =~= chars@.skip(data_start as int));
    if data_start == chars.len() {
        return None;
    }
    if contains_char_from(&chars, data_start, '\n') {
        return None;
    }
    let mime_type = chars_to_string(&chars, start, start + cut);
    let data = chars_to_string(&chars, data_start, chars.len());
    assert(rest.take(cut as int) =~= chars@.subrange(start as int, start + cut));
    assert(chars@.skip(data_start as int) =~= chars@.subrange(
        data_start as int,
        chars@.len() as int,
    ));
    Some((mime_type, data))
}

} // verus!

verus! {

/// Whether `data` is short enough for its Base64 text to fit in memory.
pub fn can_encode(data: &[u8]) -> (b: bool)
    ensures
        b == encodable(data@),
{
    data.len() / 3 < usize::MAX / 4
}

/// Convert binary data to a `data:` URL where the data is short enough for
/// its Base64 text to fit in memory, which any data of this machine is.
pub fn try_data_url(mime_type: &str, data: &[u8]) -> (url: Option<String>)
    ensures
        match url {
            Some(url) => encodable(data@) && url@ == data_url_spec(
                mime_type@,
                base64_standard(data@),
            ),
            None => !encodable(data@),
        },
{
    if can_encode(data) {
        Some(data_url(mime_type, data))
    } else {
        None
    }
}

} // verus!

verus! {

/// The bytes that a Base64 text in the standard alphabet with padding stands
/// for. `None` for a text that is no such Base64 text.
pub uninterp spec fn base64_decoded(text: Seq<char>) -> Option<Seq<u8>>;

/// Decodes through `Engine::decode` of `base64::prelude::BASE64_STANDARD`; an
/// error becomes `None`. The result is a function of the text alone.
#[verifier::external_body]
fn base64_decode(text: &str) -> (r: Option<Vec<u8>>)
    ensures
        match r {
            Some(bytes) => base64_decoded(text@) == Some(bytes@),
            None => base64_decoded(text@).is_none(),
        },
{
    BASE64_STANDARD.decode(text).ok()
}

/// The bytes of a Base64 text; `None` where the text is no Base64.
pub fn decode_base64(text: &str) -> (r: Option<Vec<u8>>)
    ensures
        match r {
            Some(bytes) => base64_decoded(text@) == Some(bytes@),
            None => base64_decoded(text@).is_none(),
        },
{
    base64_decode(text)
}

/// The image that a `data:` URL holds: its MIME type and its bytes. `None`
/// where the text is no `data:` URL or its data is no Base64.
pub open spec fn data_url_image(url: Seq<char>) -> Option<(Seq<char>, Seq<u8>)> {
    match parse_data_url_spec(url) {
        Some((mime_type, data)) => match base64_decoded(data) {
            Some(bytes) => Some((mime_type, bytes)),
            None => None,
        },
        None => None,
    }
}

/// Read the image that a `data:` URL holds.
pub fn read_data_url_image(url: &str) -> (r: Option<(String, Vec<u8>)>)
    ensures
        match r {
            Some((mime_type, bytes)) => data_url_image(url@) == Some((mime_type@, bytes@)),
            None => data_url_image(url@).is_none(),
        },
{
    match parse_data_url(url) {
        Some((mime_type, data)) => match decode_base64(data.as_str()) {
            Some(bytes) => Some((mime_type, bytes)),
            None => None,
        },
        None => None,
    }
}

} // verus!
