use axum::http::header::{HeaderMap, HeaderName, HeaderValue, ACCEPT, HOST};
use client_ip::headers::{bytes_to_text, lookup};

fn text(s: &str) -> Option<String> {
    Some(s.to_string())
}

#[test]
fn bytes_to_text_of_ascii_is_the_text() {
    assert_eq!(bytes_to_text(b""), "");
    assert_eq!(bytes_to_text(b"curl/8.2.1"), "curl/8.2.1");
    assert_eq!(bytes_to_text(b" a\tb~ "), " a\tb~ ");
    assert_eq!(bytes_to_text("[2001:db8::1]:80, 1.2.3.4".as_bytes()), "[2001:db8::1]:80, 1.2.3.4");
}

#[test]
fn bytes_to_text_gives_one_character_for_each_byte() {
    assert_eq!(bytes_to_text(b"\x00\x7f\x80\xff"), "\u{0}\u{7f}\u{80}\u{ff}");
    assert_eq!(bytes_to_text(b"caf\xe9"), "caf\u{e9}");
    let all: Vec<u8> = (0u8..=255).collect();
    let read = bytes_to_text(&all);
    assert_eq!(read.chars().count(), 256);
    for (byte, c) in all.iter().zip(read.chars()) {
        assert_eq!(u32::from(*byte), u32::from(c));
    }
}

#[test]
fn lookup_in_an_empty_collection_finds_nothing() {
    let headers = HeaderMap::new();
    assert_eq!(lookup(&headers, "host"), None);
    assert_eq!(lookup(&headers, "x-forwarded-for"), None);
}

#[test]
fn lookup_finds_text() {
    let mut headers = HeaderMap::new();
    headers.insert(HOST, HeaderValue::from_static("example.com"));
    headers.insert(ACCEPT, HeaderValue::from_static("text/html, */*;q=0.8"));
    assert_eq!(lookup(&headers, "host"), text("example.com"));
    assert_eq!(lookup(&headers, "accept"), text("text/html, */*;q=0.8"));
    assert_eq!(lookup(&headers, "accept-language"), None);
}

#[test]
fn lookup_finds_a_name_written_in_capitals() {
    let mut headers = HeaderMap::new();
    headers.insert(
        HeaderName::from_bytes(b"X-Request-ID2").unwrap(),
        HeaderValue::from_static("abc"),
    );
    assert_eq!(lookup(&headers, "x-request-id2"), text("abc"));
    assert_eq!(lookup(&headers, "x-request-id"), None);
}

#[test]
fn lookup_keeps_spaces_and_tabs() {
    let mut headers = HeaderMap::new();
    headers.insert("x-note", HeaderValue::from_bytes(b"a \tb~").unwrap());
    assert_eq!(lookup(&headers, "x-note"), text("a \tb~"));
}

#[test]
fn lookup_of_an_empty_value_is_empty_text() {
    let mut headers = HeaderMap::new();
    headers.insert("x-note", HeaderValue::from_static(""));
    assert_eq!(lookup(&headers, "x-note"), text(""));
}

#[test]
fn lookup_reads_any_bytes() {
    let mut headers = HeaderMap::new();
    headers.insert("x-note", HeaderValue::from_bytes(b"\x80").unwrap());
    assert_eq!(lookup(&headers, "x-note"), text("\u{80}"));
    headers.insert("x-note", HeaderValue::from_bytes(b"abc\xff").unwrap());
    assert_eq!(lookup(&headers, "x-note"), text("abc\u{ff}"));
    headers.insert("x-note", HeaderValue::from_bytes(b"\xc3\xa9t\xc3\xa9").unwrap());
    assert_eq!(lookup(&headers, "x-note"), text("\u{c3}\u{a9}t\u{c3}\u{a9}"));
}

#[test]
fn lookup_shows_the_first_of_several_values() {
    let mut headers = HeaderMap::new();
    headers.append("via", HeaderValue::from_static("1.1 first"));
    headers.append("via", HeaderValue::from_static("1.1 second"));
    headers.append("via", HeaderValue::from_bytes(b"\xff").unwrap());
    assert_eq!(lookup(&headers, "via"), text("1.1 first"));
}

#[test]
fn lookup_of_a_name_of_64_characters() {
    let name = "a123456789-b123456789-c123456789-d123456789-e123456789-f12345678";
    assert_eq!(name.len(), 64);
    let mut headers = HeaderMap::new();
    headers.insert(
        HeaderName::from_bytes(name.to_uppercase().as_bytes()).unwrap(),
        HeaderValue::from_static("long"),
    );
    assert_eq!(lookup(&headers, name), text("long"));
}
