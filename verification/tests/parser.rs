//! HTTP heads.
use portail::parser::{
    extract_headers, parse_http_headers_fast, parse_http_response_headers,
    parse_http_status_line, response_error_message, ConnectionType, HttpResponseInfo, ParseError,
    ParserType,
};

/// A parsed request head whose parts are text.
type Head<'a> = (&'a str, &'a str, Option<&'a str>, ConnectionType);

fn head(request: &[u8]) -> Result<Head<'_>, ParseError> {
    let text = |b| std::str::from_utf8(b).unwrap();
    parse_http_headers_fast(request).map(|(m, p, h, c)| (text(m), text(p), h.map(text), c))
}

#[test]
fn request_head_is_parsed() {
    let r = b"GET /v1/users?x=1 HTTP/1.1\r\nUser-Agent: t\r\nHost: api.example.com:8080 \r\n\
              Connection: Keep-Alive\r\n\r\n";
    assert_eq!(
        head(r),
        Ok(("GET", "/v1/users?x=1", Some("api.example.com:8080"), ConnectionType::KeepAlive))
    );
    let r = b"POST / http/1.0\r\nhOsT:\tx\t\r\nCONNECTION: CLOSE\r\n\r\nbody";
    assert_eq!(head(r), Ok(("POST", "/", Some("x"), ConnectionType::Close)));
    let r = b"GET / HTTP/1.1\r\n\r\n";
    assert_eq!(head(r), Ok(("GET", "/", None, ConnectionType::Default)));
}

#[test]
fn request_errors() {
    let e = |r: &[u8]| parse_http_headers_fast(r).unwrap_err();
    assert_eq!(e(b"GET / HTTP/1.1"), ParseError::RequestTooShort);
    assert_eq!(e(b"GETGETGETGETGETGET"), ParseError::NoSpaceAfterMethod);
    assert_eq!(e(b"GET /aaaaaaaaaaaaaaaaaa"), ParseError::NoSpaceAfterPath);
    assert_eq!(e(b"GET /aaaaaaaaaa \r\n\r\n"), ParseError::MissingHttpVersion);
    assert_eq!(e(b"GET /aaaa HTTP/1\r\n\r\n"), ParseError::MalformedHttpVersion);
    assert_eq!(e(b"GET /aaaa HTTQ/1.1\r\n\r\n"), ParseError::MalformedHttpVersion);
    assert_eq!(e(b"GET /aaaaaa HTTP/1.1\rX"), ParseError::MissingCrlf);
    assert_eq!(e(b"GET /aaaaaa HTTP/1.1"), ParseError::MissingCrlf);
}

#[test]
fn request_parts_are_slices_of_any_bytes() {
    let r = b"G\xffT /\xff\xfe HTTP/1.1\r\nHost: \xfe.org\r\n\r\n";
    let (method, path, host, connection) = parse_http_headers_fast(r).unwrap();
    assert_eq!(method, b"G\xffT");
    assert_eq!(path, b"/\xff\xfe");
    assert_eq!(host, Some(&b"\xfe.org"[..]));
    assert_eq!(connection, ConnectionType::Default);
    let info = extract_headers(b"Host: \xff\r\n", ParserType::Request).unwrap();
    assert_eq!(info.host, Some(&b"\xff"[..]));
}

#[test]
fn error_messages() {
    assert_eq!(ParseError::RequestTooShort.message(), "Request too short");
    assert_eq!(
        ParseError::NoSpaceAfterMethod.message(),
        "Invalid request line: no space after method"
    );
    assert_eq!(ParseError::ResponseTooShort(7).message(), "Response too short: 7 bytes");
    assert_eq!(
        ParseError::StatusCodeTooShort(2).message(),
        "Failed to parse status line: Status code section too short: 2 bytes remaining"
    );
    assert_eq!(
        ParseError::InvalidStatusCode(50, 48, 88).message(),
        "Failed to parse status line: Invalid status code characters: [50, 48, 88]"
    );
}

#[test]
fn first_host_counts() {
    let h = b"Host:  \r\nHost: a\r\nHost: b\r\n\r\n";
    let info = extract_headers(h, ParserType::Request).unwrap();
    assert_eq!(info.host, Some(&b"a"[..]));
    assert_eq!(info.content_length, None);
    // A header of another name that only starts alike is no Host header.
    let info = extract_headers(b"Hosts: a\r\nX-Host: b\r\n", ParserType::Request).unwrap();
    assert_eq!(info.host, None);
    assert_eq!(extract_headers(b"", ParserType::Request).unwrap().host, None);
}

#[test]
fn header_scan_ends() {
    // A last line that lacks its line end counts without its last byte.
    let h = b"Connection: close\r\nHost: a.comX";
    let info = extract_headers(h, ParserType::Request).unwrap();
    assert_eq!(info.host, Some(&b"a.com"[..]));
    assert_eq!(info.connection_type, ConnectionType::Close);
    let h = b"Connection: close\r\nHost: a \tX";
    assert_eq!(extract_headers(h, ParserType::Request).unwrap().host, Some(&b"a"[..]));
    let h = b"Connection: close\r\nContent-Length: 42\r";
    assert_eq!(extract_headers(h, ParserType::Response).unwrap().content_length, Some(42));
    let h = b"Connection: close\r\nHost: x";
    assert_eq!(extract_headers(h, ParserType::Request).unwrap().host, None);
    // An empty line ends the section.
    let info = extract_headers(b"X: y\r\n\r\nHost: other\r\n", ParserType::Request).unwrap();
    assert_eq!(info.host, None);
    assert_eq!(info.connection_type, ConnectionType::Default);
    assert_eq!(info.content_length, None);
    let info = extract_headers(b"\r\nHost: other\r\n", ParserType::Request).unwrap();
    assert_eq!(info.host, None);
}

#[test]
fn bodies_are_no_headers() {
    let r = b"POST / HTTP/1.1\r\nX: y\r\n\r\nHost: other\r\nConnection: close\r\n";
    assert_eq!(head(r), Ok(("POST", "/", None, ConnectionType::Default)));
    let r = b"HTTP/1.1 200 OK\r\nX: y\r\n\r\nContent-Length: 99\r\nConnection: close\r\n";
    let info = parse_http_response_headers(r).unwrap();
    assert_eq!((info.content_length, info.is_complete), (None, true));
    assert_eq!(info.connection_type, ConnectionType::Default);
    // The same with no header at all.
    let r = b"HTTP/1.1 200 OK\r\n\r\nContent-Length: 99\r\n";
    let info = parse_http_response_headers(r).unwrap();
    assert_eq!((info.content_length, info.is_complete), (None, true));
}

#[test]
fn status_lines() {
    assert_eq!(parse_http_status_line(b"HTTP/1.1 200"), Ok(200));
    assert_eq!(parse_http_status_line(b"HTTP/1.1 999 X"), Ok(999));
    let e = parse_http_status_line(b"HTTP/1.1 20").unwrap_err();
    assert_eq!(e, ParseError::StatusLineTooShort(11));
    assert_eq!(e.message(), "Failed to parse status line: Status line too short: 11 bytes");
    assert_eq!(parse_http_status_line(b""), Err(ParseError::StatusLineTooShort(0)));
}

#[test]
fn response_head_is_parsed() {
    let r = b"HTTP/1.1 200 OK\r\nContent-Length: 5\r\nConnection: close\r\n\r\nhello";
    assert_eq!(
        parse_http_response_headers(r),
        Ok(HttpResponseInfo {
            status_code: 200,
            connection_type: ConnectionType::Close,
            content_length: Some(5),
            is_complete: true,
        })
    );
    let r = b"HTTP/1.1 404 Not Found\r\ncontent-length: 6\r\n\r\nhello";
    let info = parse_http_response_headers(r).unwrap();
    assert_eq!((info.status_code, info.content_length, info.is_complete), (404, Some(6), false));
    let r = b"HTTP/1.1 204 No Content\r\nX: y\r\n\r\n";
    let info = parse_http_response_headers(r).unwrap();
    assert_eq!((info.content_length, info.is_complete), (None, true));
    // No headers at all.
    let info = parse_http_response_headers(b"HTTP/1.1 200\r\n").unwrap();
    assert_eq!(info.connection_type, ConnectionType::Default);
    assert!(info.is_complete);
    // Not even a line end.
    assert!(parse_http_response_headers(b"HTTP/1.1 200 OK").unwrap().is_complete);
}

#[test]
fn content_lengths() {
    let of = |v: &str| {
        let r = format!("HTTP/1.1 200 OK\r\nContent-Length: {v}\r\nX: y\r\n\r\n");
        parse_http_response_headers(r.as_bytes()).unwrap().content_length
    };
    assert_eq!(of("0"), Some(0));
    assert_eq!(of("+12"), Some(12));
    assert_eq!(of("12x"), None);
    assert_eq!(of("-1"), None);
    assert_eq!(of("99999999999999999999999"), None);
    assert_eq!(of("\u{a0}7"), Some(7));
    // One that says nothing leaves the next to count.
    let r = b"HTTP/1.1 200 OK\r\nContent-Length: x\r\nContent-Length: 3\r\n\r\nabc";
    assert_eq!(parse_http_response_headers(r).unwrap().content_length, Some(3));
    let r = b"HTTP/1.1 200 OK\r\nContent-Length: \xff\r\nContent-Length: 3\r\n\r\nabc";
    assert_eq!(parse_http_response_headers(r).unwrap().content_length, Some(3));
}

#[test]
fn response_errors() {
    let e = |r: &[u8]| parse_http_response_headers(r).unwrap_err();
    assert_eq!(e(b"HTTP/1.1 20"), ParseError::ResponseTooShort(11));
    assert_eq!(e(b"http/1.1 200 OK\r\n"), ParseError::InvalidVersionPrefix);
    assert_eq!(e(b"HTTP/1.1-200-OK\r\n"), ParseError::NoSpaceAfterVersion);
    assert_eq!(e(b"HTTP/1.1.1.1 20"), ParseError::StatusCodeTooShort(2));
    assert_eq!(e(b"HTTP/1.1 20X OK\r\n"), ParseError::InvalidStatusCode(50, 48, 88));
}

#[test]
fn response_error_messages_show_the_response() {
    let message = |r: &[u8]| response_error_message(&parse_http_response_headers(r).unwrap_err(), r);
    assert_eq!(message(b"HTTP/1.1"), "Response too short: 8 bytes");
    assert_eq!(
        message(b"HTTP/1.1 20X \"OK\"\r\n"),
        "Failed to parse status line: Invalid status code characters: [50, 48, 88] \
         (preview: \"HTTP/1.1 20X \\\"OK\\\"\\r\\n\")"
    );
    // Bytes that are not UTF-8 are replaced.
    assert_eq!(
        message(b"ICY \xff 200 OK\r\n"),
        "Failed to parse status line: Invalid HTTP version prefix \
         (preview: \"ICY \u{fffd} 200 OK\\r\\n\")"
    );
    // No more than the start is shown.
    let long = [b'x'; 300];
    assert!(message(&long).ends_with(&format!("(preview: \"{}\")", "x".repeat(100))));
}
