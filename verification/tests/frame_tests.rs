use controlplane::frame::FrameReader;
use controlplane::ovsdb::extract_uuid_from_response;

const RESPONSE: &str = "{\"error\":null,\"id\":1,\"result\":[{\"uuid\":[\"uuid\",\
                        \"b19bc163-1325-4036-9dfc-f8155518e41e\"]},{}]}";

#[test]
fn whole_document_in_one_read() {
    let mut r = FrameReader::new();
    assert!(r.push(RESPONSE.as_bytes()));
    assert!(!r.is_bad());
    assert_eq!(r.document(), RESPONSE.as_bytes());
}

#[test]
fn document_truncated_across_two_reads_still_parses() {
    let bytes = RESPONSE.as_bytes();
    let (first, second) = bytes.split_at(bytes.len() / 2);
    let mut r = FrameReader::new();
    assert!(!r.push(first));
    assert!(!r.is_bad());
    assert!(r.push(second));
    let doc = std::str::from_utf8(r.document()).unwrap();
    assert_eq!(doc, RESPONSE);
    assert_eq!(
        extract_uuid_from_response(doc).unwrap(),
        "b19bc163-1325-4036-9dfc-f8155518e41e"
    );
}

#[test]
fn byte_by_byte_reads_reach_the_same_document() {
    let mut r = FrameReader::new();
    let mut complete = false;
    for b in RESPONSE.as_bytes() {
        complete = r.push(&[*b]);
    }
    assert!(complete);
    assert_eq!(r.document(), RESPONSE.as_bytes());
}

#[test]
fn garbage_before_document_is_structural_error() {
    let mut r = FrameReader::new();
    assert!(!r.push(b"xyz"));
    assert!(r.is_bad());
}

#[test]
fn stray_closing_brace_is_structural_error() {
    let mut r = FrameReader::new();
    assert!(!r.push(b"}"));
    assert!(r.is_bad());
}

#[test]
fn leading_whitespace_is_allowed() {
    let mut r = FrameReader::new();
    assert!(r.push(b"  \r\n {\"a\":1}"));
    assert!(!r.is_bad());
    assert_eq!(r.document(), b"  \r\n {\"a\":1}");
}

#[test]
fn braces_inside_strings_do_not_close_the_document() {
    let mut r = FrameReader::new();
    assert!(!r.push(b"{\"a\":\"}"));
    assert!(r.push(b"\"}"));
    assert_eq!(r.document(), b"{\"a\":\"}\"}");
}

#[test]
fn escaped_quote_inside_string_is_not_a_terminator() {
    let mut r = FrameReader::new();
    assert!(r.push(b"{\"a\":\"x\\\"}\"}"));
    assert_eq!(r.document(), b"{\"a\":\"x\\\"}\"}");
}

#[test]
fn incomplete_document_keeps_asking_for_more() {
    let mut r = FrameReader::new();
    assert!(!r.push(b"{\"a\":[1,2,"));
    assert!(!r.is_bad());
    assert!(!r.push(b"3]"));
    assert!(r.push(b"}"));
}
