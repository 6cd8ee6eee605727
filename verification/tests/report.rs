use axum::http::header::{HeaderMap, HeaderValue, USER_AGENT};
use client_ip::{connection_data, greeting, ip, plain_answer, user_agent, Data};

#[test]
fn greeting_names_the_address() {
    assert_eq!(greeting("1.2.3.4"), "Hello, 1.2.3.4");
    assert_eq!(greeting("2001:db8::1"), "Hello, 2001:db8::1");
    assert_eq!(greeting(""), "Hello, ");
}

#[test]
fn plain_answer_to_a_direct_connection() {
    assert_eq!(plain_answer("1.2.3.4", &HeaderMap::new()), "Hello, 1.2.3.4");
    assert_eq!(
        plain_answer("2001:db8:85a3:8d3:1319:8a2e:370:7348", &HeaderMap::new()),
        "Hello, 2001:db8:85a3:8d3:1319:8a2e:370:7348"
    );
}

#[test]
fn plain_answer_knows_the_forwarding_header() {
    let mut headers = HeaderMap::new();
    headers.insert(
        "X-Forwarded-For",
        HeaderValue::from_static("1.2.3.4:4567, 10.0.0.1"),
    );
    assert_eq!(plain_answer("10.0.0.1", &headers), "Hello, 1.2.3.4");

    let mut headers = HeaderMap::new();
    headers.insert("x-forwarded-for", HeaderValue::from_bytes(b"\xff").unwrap());
    assert_eq!(plain_answer("10.0.0.1", &headers), "Hello, \u{ff}");
}

#[test]
fn record_of_a_direct_connection() {
    let data = connection_data("1.2.3.4", 50123, &HeaderMap::new());
    assert_eq!(
        data,
        Data {
            ip: "1.2.3.4".to_string(),
            port: 50123,
            user_agent: String::new(),
        }
    );
}

#[test]
fn record_of_a_forwarded_connection() {
    let mut headers = HeaderMap::new();
    headers.insert(
        "x-forwarded-for",
        HeaderValue::from_static("[2001:db8::1a2b:3c4d]:41237, 198.51.100.100:26321"),
    );
    headers.insert(USER_AGENT, HeaderValue::from_static("curl/8.2.1"));
    let data = connection_data("198.51.100.100", 26321, &headers);
    assert_eq!(
        data,
        Data {
            ip: "2001:db8::1a2b:3c4d".to_string(),
            port: 26321,
            user_agent: "curl/8.2.1".to_string(),
        }
    );
}

#[test]
fn record_holds_what_ip_and_user_agent_answer() {
    let mut headers = HeaderMap::new();
    headers.insert("x-forwarded-for", HeaderValue::from_static("1.2.3.4:80, 10.0.0.1"));
    headers.insert(USER_AGENT, HeaderValue::from_bytes(b"caf\xe9").unwrap());
    let data = connection_data("10.0.0.1", 443, &headers);
    assert_eq!(data.ip, ip("10.0.0.1", &headers));
    assert_eq!(data.user_agent, user_agent(&headers));
    assert_eq!(data.port, 443);
}

#[test]
fn port_is_the_connections_own() {
    let mut headers = HeaderMap::new();
    headers.insert("x-forwarded-for", HeaderValue::from_static("1.2.3.4:4567"));
    for port in [0u16, 1, 80, 4567, 65535] {
        let data = connection_data("10.0.0.1", port, &headers);
        assert_eq!(data.port, port);
        assert_eq!(data.ip, "1.2.3.4");
    }
}

#[test]
fn no_header_changes_the_port() {
    let plain = HeaderMap::new();
    let mut forwarded = HeaderMap::new();
    forwarded.insert("x-forwarded-for", HeaderValue::from_static("[::1]:9999"));
    let mut odd = HeaderMap::new();
    odd.insert("x-forwarded-for", HeaderValue::from_bytes(b"\xff:1").unwrap());
    odd.insert(USER_AGENT, HeaderValue::from_bytes(b"\x80").unwrap());
    odd.insert("x-forwarded-port", HeaderValue::from_static("1"));
    for headers in [&plain, &forwarded, &odd] {
        assert_eq!(connection_data("10.0.0.1", 4242, headers).port, 4242);
    }
}

#[test]
fn record_is_made_whatever_the_headers_hold() {
    let mut headers = HeaderMap::new();
    headers.insert("x-forwarded-for", HeaderValue::from_bytes(b"\xff").unwrap());
    headers.insert(USER_AGENT, HeaderValue::from_bytes("\u{e9}".as_bytes()).unwrap());
    assert_eq!(
        connection_data("10.0.0.1", 7, &headers),
        Data {
            ip: "\u{ff}".to_string(),
            port: 7,
            user_agent: "\u{c3}\u{a9}".to_string(),
        }
    );
}
