use prompt_scaler::data_url::{data_url, data_url_from_encoded, parse_data_url};
use prompt_scaler::page_iter::Page;

#[test]
fn data_urls_hold_base64() {
    assert_eq!(data_url("image/png", b"hello"), "data:image/png;base64,aGVsbG8=");
    assert_eq!(data_url("application/pdf", &[0xff, 0xfe, 0xfd]), "data:application/pdf;base64,//79");
    assert_eq!(data_url("image/gif", b""), "data:image/gif;base64,");
    assert_eq!(data_url("text/plain", b"ab"), "data:text/plain;base64,YWI=");
    assert_eq!(data_url("text/plain", b"a"), "data:text/plain;base64,YQ==");
}

#[test]
fn encoded_data_is_not_escaped() {
    assert_eq!(data_url_from_encoded("image/png", "a+b/c=="), "data:image/png;base64,a+b/c==");
}

#[test]
fn page_to_data_url() {
    let page = Page { mime_type: "image/jpeg".to_string(), data: vec![1, 2, 3, 4] };
    assert_eq!(page.to_data_url(), "data:image/jpeg;base64,AQIDBA==");
}

#[test]
fn parsing_reads_type_and_data() {
    assert_eq!(
        parse_data_url("data:image/png;base64,aGVsbG8="),
        Some(("image/png".to_string(), "aGVsbG8=".to_string()))
    );
    assert_eq!(
        parse_data_url(&data_url("image/webp", &[0, 1, 2])),
        Some(("image/webp".to_string(), "AAEC".to_string()))
    );
    // The data may hold anything but a line feed, the marker too.
    assert_eq!(
        parse_data_url("data:a;base64,x;base64,y"),
        Some(("a".to_string(), "x;base64,y".to_string()))
    );
    assert_eq!(
        parse_data_url("data:a\nb;base64,x"),
        Some(("a\nb".to_string(), "x".to_string()))
    );
}

#[test]
fn parsing_rejects_what_is_no_data_url() {
    for text in [
        "",
        "data:",
        "data:;base64,AAAA",
        "data:image/png;base64,",
        "data:image/png;base64",
        "data:image/png,AAAA",
        "data:image/png;charset=utf-8;base64,AAAA",
        "Data:image/png;base64,AAAA",
        " data:image/png;base64,AAAA",
        "data:image/png;base64,AA\nAA",
        "data:image/png;base64,AAAA\n",
        "https://example.com/a.png",
    ] {
        assert_eq!(parse_data_url(text), None, "parsing {:?}", text);
    }
}
