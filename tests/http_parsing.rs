use http_line::http::{
    respond, HttpMethod, HttpParseError, HttpParserHeaderStatus, HttpReader, HttpRequest,
    HttpResponse, ReadStep, RequestLineError,
};
use http_line::text::{split_once_no_error, trim_str};

fn parse_line(line: &str) -> (Result<(), RequestLineError>, HttpRequest) {
    let mut request = HttpRequest::new();
    let result = request.parse_request_line(line);
    (result, request)
}

/// Feeds `input` to a reader line by line, each line with its LF, as a
/// buffered reader hands them out.
fn read_all(input: &str) -> Result<HttpRequest, String> {
    let mut reader = HttpReader::new();
    for line in input.split_inclusive('\n') {
        match reader.feed(line) {
            ReadStep::ReadLine => continue,
            ReadStep::Complete => return Ok(reader.request),
            ReadStep::BadRequestLine(e) => return Err(e.message()),
            ReadStep::BadHeader(e) => return Err(e.message()),
        }
    }
    Err(String::from("input ended"))
}

#[test]
fn supported_methods_parse() {
    for (token, method) in [
        ("GET", HttpMethod::Get),
        ("POST", HttpMethod::Post),
        ("PUT", HttpMethod::Put),
        ("DELETE", HttpMethod::Delete),
    ] {
        let (result, request) = parse_line(&format!("{token} /x HTTP/1.1"));
        assert!(result.is_ok());
        assert_eq!(request.method, method);
        assert_eq!(request.path, "/x");
        assert_eq!(request.ver, "HTTP/1.1");
    }
}

#[test]
fn request_line_keeps_terminator_in_version() {
    let (result, request) = parse_line("GET /x HTTP/1.1\r\n");
    assert!(result.is_ok());
    assert_eq!(request.method, HttpMethod::Get);
    assert_eq!(request.path, "/x");
    assert_eq!(request.ver, "HTTP/1.1\r\n");
}

#[test]
fn version_keeps_later_spaces() {
    let (result, request) = parse_line("PUT /a b c");
    assert!(result.is_ok());
    assert_eq!(request.path, "/a");
    assert_eq!(request.ver, "b c");
}

#[test]
fn unsupported_methods_fail() {
    for line in [" / HTTP/1.1", "get / HTTP/1.1", "HEAD / HTTP/1.1", "OPTIONS / HTTP/1.1", "GETX / HTTP/1.1"] {
        let (result, request) = parse_line(line);
        assert_eq!(result, Err(RequestLineError::MethodNotFound));
        assert_eq!(request.method, HttpMethod::Unset);
        assert_eq!(request.path, "");
    }
}

#[test]
fn missing_separator_fails() {
    for line in ["", "GET", "GET/HTTP/1.1", "HEAD"] {
        let (result, request) = parse_line(line);
        assert_eq!(result, Err(RequestLineError::Malformed));
        assert_eq!(request.method, HttpMethod::Unset);
    }
    let (result, request) = parse_line("GET /x");
    assert_eq!(result, Err(RequestLineError::Malformed));
    assert_eq!(request.method, HttpMethod::Get);
    assert_eq!(request.path, "");
}

#[test]
fn request_line_error_messages() {
    assert_eq!(RequestLineError::Malformed.message(), "malformed request line");
    assert_eq!(RequestLineError::MethodNotFound.message(), "HttpMethod not found");
}

#[test]
fn blank_line_ends_headers() {
    let mut request = HttpRequest::new();
    assert!(matches!(request.parse_header("Host: a\r\n"), Ok(HttpParserHeaderStatus::Continue)));
    assert!(matches!(request.parse_header("\r\n"), Ok(HttpParserHeaderStatus::Ended)));
    assert_eq!(request.host, "a");
}

#[test]
fn blank_line_completes_reader() {
    let mut reader = HttpReader::new();
    assert!(matches!(reader.feed("GET / HTTP/1.1\r\n"), ReadStep::ReadLine));
    assert!(reader.in_headers);
    assert!(matches!(reader.feed("X-One: 1\r\n"), ReadStep::ReadLine));
    assert!(matches!(reader.feed("\r\n"), ReadStep::Complete));
}

#[test]
fn unterminated_header_is_incomplete() {
    let mut request = HttpRequest::new();
    assert!(matches!(request.parse_header("Host: x"), Err(HttpParseError::HeaderIncomplete("Host: x"))));
    assert!(matches!(request.parse_header("Host: x\n"), Err(HttpParseError::HeaderIncomplete(_))));
    assert!(matches!(request.parse_header(""), Err(HttpParseError::HeaderIncomplete(""))));
    assert_eq!(request.host, "");
}

#[test]
fn header_without_colon() {
    let mut request = HttpRequest::new();
    assert!(matches!(
        request.parse_header("garbage\r\n"),
        Err(HttpParseError::HeaderNoKeyValuePair("garbage\r\n"))
    ));
}

#[test]
fn header_with_empty_key() {
    let mut request = HttpRequest::new();
    assert!(matches!(request.parse_header(": value\r\n"), Err(HttpParseError::HeaderMalformed(_))));
}

#[test]
fn unknown_header_key() {
    let mut request = HttpRequest::new();
    let result = request.parse_header("X-Custom: 1\r\n");
    assert!(matches!(result, Err(HttpParseError::HeaderKeyUnknown("X-Custom: 1\r\n"))));
    assert!(!result.unwrap_err().is_fatal());
    assert_eq!(request.host, "");
    assert_eq!(request.user_agent, "");
    assert_eq!(request.accepts, "");
}

#[test]
fn reader_skips_unknown_and_stops_on_fatal() {
    let mut reader = HttpReader::new();
    assert!(matches!(reader.feed("GET / HTTP/1.1\r\n"), ReadStep::ReadLine));
    assert!(matches!(reader.feed("X-Custom: 1\r\n"), ReadStep::ReadLine));
    assert!(matches!(reader.feed("Accept: */*\r\n"), ReadStep::ReadLine));
    assert_eq!(reader.request.accepts, "*/*");
    assert!(matches!(reader.feed("garbage\r\n"), ReadStep::BadHeader(HttpParseError::HeaderNoKeyValuePair(_))));
}

#[test]
fn reader_refuses_bad_request_line() {
    let mut reader = HttpReader::new();
    assert!(matches!(
        reader.feed("HEAD / HTTP/1.1\r\n"),
        ReadStep::BadRequestLine(RequestLineError::MethodNotFound)
    ));
    assert!(!reader.in_headers);
}

#[test]
fn recognized_headers_are_trimmed() {
    let mut request = HttpRequest::new();
    assert!(request.parse_header("Host:   localhost:4221  \r\n").is_ok());
    assert!(request.parse_header("User-Agent:\tcurl/7.64.1\r\n").is_ok());
    assert!(request.parse_header("Accept: text/html, */*\r\n").is_ok());
    assert_eq!(request.host, "localhost:4221");
    assert_eq!(request.user_agent, "curl/7.64.1");
    assert_eq!(request.accepts, "text/html, */*");
}

#[test]
fn repeated_header_last_wins() {
    let mut request = HttpRequest::new();
    assert!(request.parse_header("Host: a\r\n").is_ok());
    assert!(request.parse_header("Host: b\r\n").is_ok());
    assert_eq!(request.host, "b");
}

#[test]
fn header_value_keeps_inner_space_and_unicode_space_trimmed() {
    let mut request = HttpRequest::new();
    assert!(request.parse_header("Host:\u{a0}a  b\u{2003}\r\n").is_ok());
    assert_eq!(request.host, "a  b");
    assert!(request.parse_header("Host:\r\n").is_ok());
    assert_eq!(request.host, "");
}

#[test]
fn trim_removes_surrounding_white_space() {
    assert_eq!(trim_str("  x y \t\r\n"), "x y");
    assert_eq!(trim_str(" \u{3000} "), "");
    assert_eq!(trim_str("z"), "z");
}

#[test]
fn end_to_end_root_is_ok() {
    let request =
        read_all("GET / HTTP/1.1\r\nHost: localhost:4221\r\nUser-Agent: curl/7.64.1\r\n\r\n").unwrap();
    assert_eq!(request.path, "/");
    assert_eq!(request.host, "localhost:4221");
    assert_eq!(request.user_agent, "curl/7.64.1");
    assert_eq!(respond(&request).response.as_bytes(), b"HTTP/1.1 200 OK\r\n\r\n");
}

#[test]
fn end_to_end_other_path_is_not_found() {
    let request = read_all("GET /missing HTTP/1.1\r\nHost: x\r\n\r\n").unwrap();
    assert_eq!(request.path, "/missing");
    assert_eq!(respond(&request).response.as_bytes(), b"HTTP/1.1 404 Not Found\r\n\r\n");
}

#[test]
fn end_to_end_truncated_input_fails() {
    let error = read_all("GET / HTTP/1.1\r\nHost: x").unwrap_err();
    assert_eq!(error, "HttpHeaderIncomplete: Host: x");
}

#[test]
fn header_ok_twice_equals_once() {
    let mut once = HttpResponse::new();
    once.push_header("X: y");
    once.header_ok();
    let mut twice = HttpResponse::new();
    twice.header_ok();
    twice.header_ok();
    assert_eq!(once.response, "HTTP/1.1 200 OK\r\n");
    assert_eq!(twice.response, once.response);
}

#[test]
fn push_header_adds_terminator_once() {
    let mut response = HttpResponse::new();
    assert_eq!(response.response, "");
    response.push_header("A: 1");
    response.push_header("B: 2\r\n");
    response.push_header("\r\n");
    response.push_header("");
    assert_eq!(response.response, "A: 1\r\nB: 2\r\n\r\n\r\n");
}

#[test]
fn error_messages_cut_and_escape_the_line() {
    assert_eq!(
        HttpParseError::HeaderIncomplete("Host: x").message(),
        "HttpHeaderIncomplete: Host: x"
    );
    assert_eq!(
        HttpParseError::HeaderMalformed(": v\r\nmore").message(),
        "ttpMalformedHeader: : v"
    );
    assert_eq!(
        HttpParseError::HeaderNoKeyValuePair("garbage\r\n").message(),
        "HttpHeaderNoKeyValuePair: \"garbage\""
    );
    assert_eq!(
        HttpParseError::HeaderKeyUnknown("X-\"q\": a\tb\u{1}\u{e9}\\\n").message(),
        "HttpHeaderKeyUnknown: \"X-\\\"q\\\": a\\tb\\u{1}\\u{e9}\\\\\\n\""
    );
    assert_eq!(
        HttpParseError::HeaderIncomplete("'\r\u{10ffff}").message(),
        "HttpHeaderIncomplete: \\'\\r\\u{10ffff}"
    );
}

#[test]
fn escape_agrees_with_std() {
    let line = "a\tb\u{7f}\u{1f600}~ \"'\\\u{0}";
    let error = HttpParseError::HeaderIncomplete(line);
    assert_eq!(error.message(), format!("HttpHeaderIncomplete: {}", line.escape_default()));
}

#[test]
fn split_once_no_error_cuts_at_first_delimiter() {
    assert_eq!(split_once_no_error("a\r\nb\r\n", "\r\n"), "a");
    assert_eq!(split_once_no_error("abc", "\r\n"), "abc");
    assert_eq!(split_once_no_error("a\rb\n", "\r\n"), "a\rb\n");
    assert_eq!(split_once_no_error("xyz", ""), "");
}

#[test]
fn recognized_header_keeps_colons_in_value() {
    let mut request = HttpRequest::new();
    assert!(matches!(
        request.parse_header("Host: localhost:4221:x \r\n"),
        Ok(HttpParserHeaderStatus::Continue)
    ));
    assert_eq!(request.host, "localhost:4221:x");
    assert_eq!(request.method, HttpMethod::Unset);
    assert_eq!(request.user_agent, "");
}

#[test]
fn nothing_after_blank_line_is_parsed() {
    let request = read_all("GET / HTTP/1.1\r\nHost: a\r\n\r\nHost: late\r\ngarbage").unwrap();
    assert_eq!(request.host, "a");
    assert_eq!(respond(&request).response, "HTTP/1.1 200 OK\r\n\r\n");
}

#[test]
fn white_space_agrees_with_std_trim() {
    for code in (0u32..0x3100).chain([0xfeff, 0x180e, 0x10ffff]) {
        if let Some(c) = char::from_u32(code) {
            let text = format!("{c}x{c}");
            assert_eq!(trim_str(&text), text.trim(), "code {code:#x}");
        }
    }
}
