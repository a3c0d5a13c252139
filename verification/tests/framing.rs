use price_feed::framing::{is_framed, is_modified_utf8, MAX_DEPTH};

fn named(kind: u8, name: &str, payload: &[u8]) -> Vec<u8> {
    let mut bytes = vec![kind];
    bytes.extend_from_slice(&(name.len() as u16).to_be_bytes());
    bytes.extend_from_slice(name.as_bytes());
    bytes.extend_from_slice(payload);
    bytes
}

fn text(value: &[u8]) -> Vec<u8> {
    let mut bytes = (value.len() as u16).to_be_bytes().to_vec();
    bytes.extend_from_slice(value);
    bytes
}

#[test]
fn nothing_is_a_document() {
    assert!(is_framed(&[]));
    assert!(is_framed(&[0]));
    assert!(is_framed(&[0, 1, 2, 3]));
}

#[test]
fn scalars_need_all_their_bytes() {
    assert!(is_framed(&named(1, "b", &[7])));
    assert!(!is_framed(&named(1, "b", &[])));
    assert!(is_framed(&named(2, "s", &[0, 7])));
    assert!(!is_framed(&named(2, "s", &[0])));
    assert!(is_framed(&named(3, "i", &[0, 0, 0, 7])));
    assert!(!is_framed(&named(3, "i", &[0, 0, 0])));
    assert!(is_framed(&named(4, "l", &[0; 8])));
    assert!(!is_framed(&named(4, "l", &[0; 7])));
    assert!(is_framed(&named(5, "f", &[0; 4])));
    assert!(!is_framed(&named(5, "f", &[0; 3])));
    assert!(is_framed(&named(6, "d", &[0; 8])));
    assert!(!is_framed(&named(6, "d", &[0; 7])));
}

#[test]
fn a_name_needs_all_its_bytes() {
    assert!(!is_framed(&[1]));
    assert!(!is_framed(&[1, 0]));
    assert!(!is_framed(&[1, 0, 2, b'a']));
    assert!(is_framed(&[1, 0, 2, b'a', b'b', 9]));
}

#[test]
fn an_unknown_kind_is_not_framed() {
    assert!(!is_framed(&named(13, "x", &[0; 16])));
    assert!(!is_framed(&named(255, "x", &[0; 16])));
}

#[test]
fn arrays_need_their_count_of_elements() {
    assert!(is_framed(&named(7, "a", &[0, 0, 0, 2, 1, 2])));
    assert!(!is_framed(&named(7, "a", &[0, 0, 0, 3, 1, 2])));
    assert!(is_framed(&named(11, "a", &[0, 0, 0, 1, 0, 0, 0, 9])));
    assert!(!is_framed(&named(11, "a", &[0, 0, 0, 2, 0, 0, 0, 9])));
    assert!(is_framed(&named(12, "a", &[0, 0, 0, 1, 0, 0, 0, 0, 0, 0, 0, 9])));
    assert!(!is_framed(&named(12, "a", &[0, 0, 0, 1, 0, 0, 0, 9])));
    assert!(is_framed(&named(12, "a", &[0, 0, 0, 0])));
}

#[test]
fn a_negative_count_is_not_framed() {
    assert!(!is_framed(&named(7, "a", &[0xFF, 0xFF, 0xFF, 0xFF])));
    assert!(!is_framed(&named(11, "a", &[0x80, 0, 0, 0])));
    assert!(!is_framed(&named(9, "l", &[1, 0xFF, 0xFF, 0xFF, 0xFF])));
}

#[test]
fn a_count_beyond_the_bytes_is_not_framed() {
    assert!(!is_framed(&named(7, "a", &[0x7F, 0xFF, 0xFF, 0xFF, 1, 2])));
    assert!(!is_framed(&named(12, "a", &[0x7F, 0xFF, 0xFF, 0xFF, 1, 2])));
    assert!(!is_framed(&named(9, "l", &[1, 0x7F, 0xFF, 0xFF, 0xFF, 1, 2])));
}

#[test]
fn a_list_needs_all_its_items() {
    assert!(is_framed(&named(9, "l", &[3, 0, 0, 0, 2, 0, 0, 0, 1, 0, 0, 0, 2])));
    assert!(!is_framed(&named(9, "l", &[3, 0, 0, 0, 2, 0, 0, 0, 1, 0, 0, 0])));
    assert!(is_framed(&named(9, "l", &[0, 0, 0, 0, 0])));
    assert!(is_framed(&named(9, "l", &[99, 0, 0, 0, 0])));
    assert!(!is_framed(&named(9, "l", &[0, 0, 0, 0, 1])));
    assert!(!is_framed(&named(9, "l", &[99, 0, 0, 0, 1, 0])));
}

#[test]
fn an_inner_compound_needs_its_end() {
    let inner = named(1, "b", &[7]);
    let mut closed = inner.clone();
    closed.push(0);
    assert!(is_framed(&named(10, "c", &closed)));
    assert!(!is_framed(&named(10, "c", &inner)));
    assert!(is_framed(&named(10, "c", &[0])));
    assert!(!is_framed(&named(10, "c", &[])));
}

#[test]
fn a_list_of_compounds_without_end_is_not_framed() {
    assert!(!is_framed(&named(9, "l", &[10, 0x7F, 0xFF, 0xFF, 0xFF])));
    assert!(is_framed(&named(9, "l", &[10, 0, 0, 0, 2, 0, 0])));
    assert!(!is_framed(&named(9, "l", &[10, 0, 0, 0, 2, 0])));
}

#[test]
fn texts_are_modified_utf8() {
    assert!(is_framed(&named(8, "t", &text(b"plain"))));
    assert!(is_framed(&named(8, "t", &text("\u{a7}6Gold \u{272a}".as_bytes()))));
    assert!(is_framed(&named(8, "t", &text(&[0xC0, 0x80]))));
    assert!(is_framed(&named(8, "t", &text(&[0xED, 0xA0, 0xBD, 0xED, 0xB8, 0x80]))));
    assert!(!is_framed(&named(8, "t", &text(&[0]))));
    assert!(!is_framed(&named(8, "t", &text(&[0xFF]))));
    assert!(!is_framed(&named(8, "t", &text(&[0xC3]))));
    assert!(!is_framed(&named(8, "t", &text("\u{1F600}".as_bytes()))));
    assert!(!is_framed(&named(8, "t", &[0, 9, b'x'])));
}

#[test]
fn names_are_modified_utf8() {
    assert!(is_framed(&named(1, "\u{e9}t\u{e9}", &[7])));
    let mut bytes = vec![1, 0, 1, 0xFF, 7];
    assert!(!is_framed(&bytes));
    bytes[3] = b'x';
    assert!(is_framed(&bytes));
}

#[test]
fn modified_utf8_by_cases() {
    assert!(is_modified_utf8(b"", 0, 0));
    assert!(is_modified_utf8(b"abc", 0, 3));
    assert!(is_modified_utf8(b"abc", 1, 2));
    assert!(is_modified_utf8(&[0xC2, 0x80], 0, 2));
    assert!(is_modified_utf8(&[0xDF, 0xBF], 0, 2));
    assert!(!is_modified_utf8(&[0xC1, 0x80], 0, 2));
    assert!(!is_modified_utf8(&[0xC0, 0x81], 0, 2));
    assert!(!is_modified_utf8(&[0xC2, 0x7F], 0, 2));
    assert!(!is_modified_utf8(&[0xC2, 0xC0], 0, 2));
    assert!(!is_modified_utf8(&[0xC2, 0x80], 0, 1));
    assert!(is_modified_utf8(&[0xE0, 0xA0, 0x80], 0, 3));
    assert!(!is_modified_utf8(&[0xE0, 0x9F, 0x80], 0, 3));
    assert!(is_modified_utf8(&[0xEC, 0x80, 0x80], 0, 3));
    assert!(is_modified_utf8(&[0xED, 0x9F, 0xBF], 0, 3));
    assert!(is_modified_utf8(&[0xEE, 0x80, 0x80], 0, 3));
    assert!(is_modified_utf8(&[0xEF, 0xBF, 0xBF], 0, 3));
    assert!(!is_modified_utf8(&[0xE1, 0x80], 0, 2));
    assert!(!is_modified_utf8(&[0xE1, 0x80, 0x7F], 0, 3));
    assert!(!is_modified_utf8(&[0xF0, 0x9F, 0x98, 0x80], 0, 4));
    assert!(!is_modified_utf8(&[0x80], 0, 1));
}

#[test]
fn a_range_outside_the_bytes_is_no_text() {
    assert!(!is_modified_utf8(b"abc", 2, 1));
    assert!(!is_modified_utf8(b"abc", 0, 4));
    assert!(!is_modified_utf8(b"abc", 4, 4));
    assert!(is_modified_utf8(b"abc", 3, 3));
}

#[test]
fn surrogates_come_in_pairs() {
    assert!(is_modified_utf8(&[0xED, 0xA0, 0x80, 0xED, 0xB0, 0x80], 0, 6));
    assert!(is_modified_utf8(&[0xED, 0xAF, 0xBF, 0xED, 0xBF, 0xBF], 0, 6));
    assert!(!is_modified_utf8(&[0xED, 0xA0, 0x80], 0, 3));
    assert!(!is_modified_utf8(&[0xED, 0xA0, 0x80, 0xED, 0xAF, 0x80], 0, 6));
    assert!(!is_modified_utf8(&[0xED, 0xA0, 0x80, 0xEE, 0xB0, 0x80], 0, 6));
    assert!(!is_modified_utf8(&[0xED, 0xB0, 0x80], 0, 3));
    assert!(!is_modified_utf8(&[0xED, 0xA0, 0x80, 0xED, 0xB0], 0, 5));
    assert!(!is_modified_utf8(&[0xED, 0xA0, 0x80, 0xED, 0xB0, 0x7F], 0, 6));
}

fn nested_lists(depth: usize) -> Vec<u8> {
    let mut bytes = vec![9, 0, 1, b'l'];
    for _ in 1..depth {
        bytes.extend_from_slice(&[9, 0, 0, 0, 1]);
    }
    bytes.extend_from_slice(&[1, 0, 0, 0, 0]);
    bytes
}

#[test]
fn nesting_is_bounded() {
    assert!(is_framed(&nested_lists(1)));
    assert!(is_framed(&nested_lists(MAX_DEPTH)));
    assert!(!is_framed(&nested_lists(MAX_DEPTH + 1)));
    assert!(!is_framed(&nested_lists(100_000)));
}

#[test]
fn what_follows_the_end_is_not_looked_at() {
    let mut bytes = named(1, "b", &[7]);
    bytes.push(0);
    bytes.extend_from_slice(&[13, 13, 13]);
    assert!(is_framed(&bytes));
}
