use price_feed::util::{decode_base64, decode_gzip, member_text, parse_json_str};
use std::io::Write;

fn gzip(bytes: &[u8]) -> Vec<u8> {
    let mut encoder = flate2::write::GzEncoder::new(Vec::new(), flate2::Compression::default());
    encoder.write_all(bytes).unwrap();
    encoder.finish().unwrap()
}

#[test]
fn base64_is_decoded() {
    assert_eq!(decode_base64("aGVsbG8="), Some(b"hello".to_vec()));
    assert_eq!(decode_base64(""), Some(Vec::new()));
    assert_eq!(decode_base64("AAEC/w=="), Some(vec![0, 1, 2, 255]));
}

#[test]
fn what_is_not_base64_is_refused() {
    assert_eq!(decode_base64("!!!"), None);
    assert_eq!(decode_base64("aGVsbG8"), None);
    assert_eq!(decode_base64("aGVs bG8="), None);
}

#[test]
fn gzip_is_inflated() {
    assert_eq!(decode_gzip(&gzip(b"hello hello hello")), Some(b"hello hello hello".to_vec()));
    assert_eq!(decode_gzip(&gzip(b"")), Some(Vec::new()));
}

#[test]
fn what_is_not_gzip_is_refused() {
    assert_eq!(decode_gzip(b"hello"), None);
    assert_eq!(decode_gzip(b""), None);
    let whole = gzip(b"hello hello hello");
    assert_eq!(decode_gzip(&whole[..whole.len() - 4]), None);
}

fn member(text: &str, name: &str) -> Option<String> {
    member_text(&parse_json_str(text)?, name)
}

#[test]
fn json_is_parsed() {
    let parsed = parse_json_str("{\"a\": [1, \"two\", null]}").unwrap();
    assert_eq!(parsed.to_string(), "{\"a\":[1,\"two\",null]}");
    assert!(parse_json_str("").is_none());
    assert!(parse_json_str("{\"type\":").is_none());
    assert!(parse_json_str("{} {}").is_none());
}

#[test]
fn a_member_of_a_json_object_is_read() {
    let text = "{\"type\":\"SKELETON_HORSE\",\"tier\":\"LEGENDARY\",\"exp\":12.5}";
    assert_eq!(member(text, "type"), Some("SKELETON_HORSE".to_string()));
    assert_eq!(member(text, "tier"), Some("LEGENDARY".to_string()));
}

#[test]
fn a_member_that_is_no_text_is_not_read() {
    let text = "{\"type\":\"SKELETON_HORSE\",\"exp\":12.5,\"held\":null}";
    assert_eq!(member(text, "exp"), None);
    assert_eq!(member(text, "held"), None);
    assert_eq!(member(text, "tier"), None);
}

#[test]
fn what_is_no_json_object_has_no_members() {
    assert_eq!(member("[\"type\"]", "type"), None);
    assert_eq!(member("\"type\"", "type"), None);
    assert_eq!(member("7", "type"), None);
    assert_eq!(member("{}", ""), None);
}
