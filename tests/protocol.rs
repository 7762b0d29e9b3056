use simple_http::error::HttpError;
use simple_http::headers::HeaderMap;
use simple_http::request::{parse_header_line, HttpRequest, ReadStep, RequestMethod, RequestReader};
use simple_http::response::HttpResponse;
use simple_http::server::{
    file_work, handle_request, serve_file, serve_file_headers, uri_path, FileLookup, FileWork,
    ServerContext,
};
use simple_http::status::HttpStatus;
use simple_http::text::{is_blank, parse_decimal, trim_str};

fn read_all(lines: &[&str], body: &[u8]) -> HttpRequest {
    let mut reader = RequestReader::start(lines[0]).expect("request line");
    let mut i = 1;
    loop {
        match reader.next_step() {
            ReadStep::Line => {
                let line = if i < lines.len() { lines[i] } else { "" };
                i += 1;
                reader.push_line(line);
            }
            ReadStep::Body(n) => {
                assert_eq!(n, body.len());
                reader.push_body(body.to_vec());
            }
            ReadStep::Done => return reader.finish(),
        }
    }
}

fn context() -> ServerContext {
    let mut headers = HeaderMap::new();
    headers.insert("Server".to_string(), "SimpleHttp/0.1".to_string());
    ServerContext::new(".".to_string(), headers)
}

fn text(bytes: &[u8]) -> String {
    String::from_utf8(bytes.to_vec()).unwrap()
}

#[test]
fn status_codes_and_names() {
    let all = [
        (HttpStatus::OK, 200, "Ok"),
        (HttpStatus::Created, 201, "Created"),
        (HttpStatus::Accepted, 202, "Accepted"),
        (HttpStatus::NoContent, 204, "No Content"),
        (HttpStatus::MovedPermanently, 301, "Moved Permanently"),
        (HttpStatus::MovedTemporarily, 302, "Moved Temporarily"),
        (HttpStatus::NotModified, 304, "Not Modified"),
        (HttpStatus::BadRequest, 400, "Bad Request"),
        (HttpStatus::Unauthorized, 401, "Unauthorized"),
        (HttpStatus::Forbidden, 403, "Forbidden"),
        (HttpStatus::NotFound, 404, "Not Found"),
        (HttpStatus::InternalError, 500, "Internal Server Error"),
        (HttpStatus::NotImplemented, 501, "Not Implemented"),
        (HttpStatus::BadGateway, 502, "Bad Gateway"),
        (HttpStatus::ServiceUnavailable, 503, "Service Unavailable"),
    ];
    for (status, code, name) in all {
        assert_eq!(status.code(), code);
        assert_eq!(status.name(), name);
        assert_eq!(status.code_text(), code.to_string());
    }
}

#[test]
fn default_status_is_ok() {
    assert_eq!(HttpStatus::default(), HttpStatus::OK);
    let r = HttpResponse::default();
    assert_eq!(r.status, HttpStatus::OK);
    assert!(r.headers.is_empty());
    assert!(r.body.is_empty());
}

#[test]
fn request_line_round_trip() {
    for m in [RequestMethod::Get, RequestMethod::Head, RequestMethod::Post] {
        let line = format!("{} /some/page.html HTTP/1.0\r\n", m.to_string());
        let (pm, uri, version) = HttpRequest::parse_request_line(&line).unwrap();
        assert_eq!(pm, m);
        assert_eq!(uri, "/some/page.html");
        assert_eq!(version, "HTTP/1.0");
    }
}

#[test]
fn method_names() {
    assert_eq!(RequestMethod::Get.to_string(), "GET");
    assert_eq!(RequestMethod::Head.to_string(), "HEAD");
    assert_eq!(RequestMethod::Post.to_string(), "POST");
}

#[test]
fn method_matching_ignores_case() {
    assert_eq!(RequestMethod::from_str("get"), Ok(RequestMethod::Get));
    assert_eq!(RequestMethod::from_str("HeAd"), Ok(RequestMethod::Head));
    assert_eq!(RequestMethod::from_str("post"), Ok(RequestMethod::Post));
    assert_eq!(RequestMethod::from_str("PATCH"), Err("PATCH".to_string()));
    assert_eq!(RequestMethod::from_str("GETS"), Err("GETS".to_string()));
}

#[test]
fn response_wire_splits_at_blank_line() {
    let mut r = HttpResponse::new(HttpStatus::NotFound);
    r.headers.insert("Server".to_string(), "x".to_string());
    r.body = b"hello\r\n\r\nworld".to_vec();
    let mut out = Vec::new();
    r.write(&mut out);
    let pos = out.windows(4).position(|w| w == b"\r\n\r\n").unwrap();
    assert_eq!(text(&out[..pos + 4]), "HTTP/1.0 404 Not Found\r\nServer: x\r\n\r\n");
    assert_eq!(&out[pos + 4..], b"hello\r\n\r\nworld");
}

#[test]
fn response_without_headers_or_body() {
    let r = HttpResponse::new(HttpStatus::NoContent);
    let mut out = b"prefix".to_vec();
    r.write(&mut out);
    assert_eq!(text(&out), "prefixHTTP/1.0 204 No Content\r\n\r\n");
}

#[test]
fn response_writes_each_field_once() {
    let mut r = HttpResponse::new(HttpStatus::OK);
    r.headers.insert("A".to_string(), "1".to_string());
    r.headers.insert("B".to_string(), "2".to_string());
    r.headers.insert("A".to_string(), "3".to_string());
    let mut out = Vec::new();
    r.write(&mut out);
    assert_eq!(text(&out), "HTTP/1.0 200 Ok\r\nB: 2\r\nA: 3\r\n\r\n");
}

#[test]
fn content_length_reads_body() {
    let req = read_all(&["POST /x HTTP/1.0\r\n", "Content-Length: 5\r\n", "\r\n"], b"abcde");
    assert_eq!(req.body(), &Some(b"abcde".to_vec()));
}

#[test]
fn content_length_step() {
    let mut reader = RequestReader::start("GET / HTTP/1.0\r\n").unwrap();
    assert_eq!(reader.next_step(), ReadStep::Line);
    reader.push_line("Content-Length: 5\r\n");
    assert_eq!(reader.next_step(), ReadStep::Line);
    reader.push_line("\r\n");
    assert_eq!(reader.next_step(), ReadStep::Body(5));
    reader.push_body(b"12345".to_vec());
    assert_eq!(reader.next_step(), ReadStep::Done);
    assert_eq!(reader.finish().body(), &Some(b"12345".to_vec()));
}

#[test]
fn unparseable_content_length_gives_empty_body() {
    let req = read_all(&["GET / HTTP/1.0\r\n", "Content-Length: abc\r\n", "\r\n"], b"");
    assert_eq!(req.body(), &Some(Vec::new()));
}

#[test]
fn absent_content_length_gives_no_body() {
    let req = read_all(&["GET / HTTP/1.0\r\n", "Host: example\r\n", "\r\n"], b"");
    assert_eq!(req.body(), &None);
    let lower = read_all(&["GET / HTTP/1.0\r\n", "content-length: 3\r\n", "\r\n"], b"");
    assert_eq!(lower.body(), &None);
}

#[test]
fn end_of_stream_ends_headers() {
    let mut reader = RequestReader::start("GET / HTTP/1.0\r\n").unwrap();
    reader.push_line("");
    assert_eq!(reader.next_step(), ReadStep::Done);
}

#[test]
fn simple_get_request() {
    let req = read_all(&["GET /index.html HTTP/1.0\r\n", "\r\n"], b"");
    assert_eq!(req.method(), &RequestMethod::Get);
    assert_eq!(req.uri(), "/index.html");
    assert_eq!(req.http_version(), "HTTP/1.0");
    assert!(req.headers().is_empty());
    assert_eq!(req.body(), &None);
}

#[test]
fn unsupported_method_is_bad_request() {
    let err = HttpRequest::parse_request_line("PATCH /x HTTP/1.0\r\n").unwrap_err();
    match &err {
        HttpError::InvalidRequest(msg) => assert_eq!(msg, "unrecognized http method: PATCH"),
        other => panic!("unexpected error {other:?}"),
    }
    assert!(RequestReader::start("PATCH /x HTTP/1.0\r\n").is_err());
    let resp = err.into_response();
    assert_eq!(resp.status.code(), 400);
    assert_eq!(text(&resp.body), "400: unrecognized http method: PATCH");
    assert!(resp.headers.is_empty());
}

#[test]
fn missing_request_line_parts() {
    let cases = [
        ("GET\r\n", "missing uri"),
        ("GET /\r\n", "missing http version"),
        ("\r\n", "unrecognized http method: "),
        ("", "unrecognized http method: "),
    ];
    for (line, expected) in cases {
        match HttpRequest::parse_request_line(line) {
            Err(HttpError::InvalidRequest(msg)) => assert_eq!(msg, expected),
            other => panic!("unexpected result {other:?}"),
        }
    }
}

#[test]
fn request_line_extra_tokens_ignored() {
    let (m, uri, version) = HttpRequest::parse_request_line("head /a HTTP/1.0 extra\n").unwrap();
    assert_eq!(m, RequestMethod::Head);
    assert_eq!(uri, "/a");
    assert_eq!(version, "HTTP/1.0");
}

#[test]
fn missing_file_is_not_found() {
    let ctx = context();
    let req = read_all(&["GET /nope.html HTTP/1.0\r\n", "\r\n"], b"");
    let resp = handle_request(&ctx, &req, FileLookup::Missing);
    assert_eq!(resp.status, HttpStatus::NotFound);
    assert_eq!(resp.status.code(), 404);
    assert_eq!(text(&resp.body), "404: /nope.html not found");
    assert!(matches!(
        serve_file(&ctx, &req, FileLookup::Missing),
        Err(HttpError::NotFound(uri)) if uri == "/nope.html"
    ));
}

#[test]
fn post_is_not_implemented() {
    let ctx = context();
    let req = read_all(&["POST /form HTTP/1.0\r\n", "Content-Length: 2\r\n", "\r\n"], b"hi");
    assert!(matches!(file_work(&req), FileWork::Nothing));
    let resp = handle_request(&ctx, &req, FileLookup::Missing);
    assert_eq!(resp.status.code(), 501);
    assert_eq!(text(&resp.body), "501: resource or method not implemented");
}

#[test]
fn header_whitespace_trimmed() {
    assert_eq!(
        parse_header_line("Foo:  bar  \r\n"),
        Some(("Foo".to_string(), "bar".to_string()))
    );
    assert_eq!(
        parse_header_line(" Key : a: b\r\n"),
        Some(("Key".to_string(), "a: b".to_string()))
    );
    assert_eq!(parse_header_line("no colon here\r\n"), None);
}

#[test]
fn malformed_header_skipped() {
    let mut reader = RequestReader::start("GET / HTTP/1.0\r\n").unwrap();
    assert!(!reader.push_line("Foo:  bar  \r\n"));
    assert!(reader.push_line("garbage line\r\n"));
    assert!(!reader.push_line("Baz: qux\r\n"));
    assert!(!reader.push_line("\r\n"));
    let req = reader.finish();
    assert_eq!(req.headers().get("Foo"), Some(&"bar".to_string()));
    assert_eq!(req.headers().get("Baz"), Some(&"qux".to_string()));
    assert_eq!(req.headers().len(), 2);
}

#[test]
fn duplicate_header_last_wins() {
    let req = read_all(&["GET / HTTP/1.0\r\n", "X: 1\r\n", "X: 2\r\n", "x: 3\r\n", "\r\n"], b"");
    assert_eq!(req.headers().get("X"), Some(&"2".to_string()));
    assert_eq!(req.headers().get("x"), Some(&"3".to_string()));
    assert_eq!(req.headers().get("Y"), None);
}

#[test]
fn io_error_messages() {
    let plain = HttpError::from_io(std::io::Error::new(std::io::ErrorKind::Other, "disk gone"));
    assert_eq!(plain.status(), HttpStatus::InternalError);
    assert_eq!(plain.render_message("disk gone"), "500: disk gone");
    assert_eq!(plain.message(), "500: disk gone");
    let with_context = HttpError::IoError {
        inner: std::io::Error::new(std::io::ErrorKind::Other, "boom"),
        context: "reading file".to_string(),
    };
    assert_eq!(with_context.render_message("boom"), "500: reading file:\r\nboom");
    assert_eq!(with_context.message(), "500: reading file:\r\nboom");
    let resp = with_context.into_response();
    assert_eq!(resp.status.code(), 500);
    assert_eq!(text(&resp.body), "500: reading file:\r\nboom");
}

#[test]
fn error_statuses() {
    assert_eq!(HttpError::InvalidRequest("x".to_string()).status(), HttpStatus::BadRequest);
    assert_eq!(HttpError::NotFound("/x".to_string()).status(), HttpStatus::NotFound);
    assert_eq!(HttpError::NotImplemented.status(), HttpStatus::NotImplemented);
    assert_eq!(HttpError::NotFound("/x".to_string()).message(), "404: /x not found");
    assert_eq!(
        HttpError::NotImplemented.message(),
        "501: resource or method not implemented"
    );
}

#[test]
fn uri_paths() {
    assert_eq!(uri_path("/"), "index.html");
    assert_eq!(uri_path("/a/b.html"), "a/b.html");
    assert_eq!(uri_path("//etc/passwd"), "etc/passwd");
    assert_eq!(uri_path("plain"), "plain");
    assert_eq!(uri_path(""), "");
}

#[test]
fn file_work_by_method() {
    let get = read_all(&["GET / HTTP/1.0\r\n", "\r\n"], b"");
    assert!(matches!(file_work(&get), FileWork::Read(p) if p == "index.html"));
    let head = read_all(&["HEAD /a.txt HTTP/1.0\r\n", "\r\n"], b"");
    assert!(matches!(file_work(&head), FileWork::Check(p) if p == "a.txt"));
}

#[test]
fn found_files_are_served() {
    let ctx = context();
    let get = read_all(&["GET /a.txt HTTP/1.0\r\n", "\r\n"], b"");
    let resp = handle_request(&ctx, &get, FileLookup::Found(b"contents".to_vec()));
    assert_eq!(resp.status, HttpStatus::OK);
    assert_eq!(resp.body, b"contents".to_vec());
    assert_eq!(resp.headers.get("Server"), Some(&"SimpleHttp/0.1".to_string()));
    let head = read_all(&["HEAD /a.txt HTTP/1.0\r\n", "\r\n"], b"");
    let resp = handle_request(&ctx, &head, FileLookup::Found(b"contents".to_vec()));
    assert_eq!(resp.status, HttpStatus::OK);
    assert!(resp.body.is_empty());
    assert_eq!(resp.headers.len(), 1);
    let resp = serve_file_headers(&ctx, &head, FileLookup::Missing);
    assert!(matches!(resp, Err(HttpError::NotFound(_))));
}

#[test]
fn failed_lookup_is_internal_error() {
    let ctx = context();
    let get = read_all(&["GET /a.txt HTTP/1.0\r\n", "\r\n"], b"");
    let failure = std::io::Error::new(std::io::ErrorKind::PermissionDenied, "denied");
    let resp = handle_request(&ctx, &get, FileLookup::Failed(failure));
    assert_eq!(resp.status.code(), 500);
    assert!(text(&resp.body).starts_with("500: "));
}

#[test]
fn context_accessors() {
    let ctx = context();
    assert_eq!(ctx.root_dir(), ".");
    assert_eq!(ctx.default_headers().len(), 1);
}

#[test]
fn decimal_lengths() {
    assert_eq!(parse_decimal("42"), Some(42));
    assert_eq!(parse_decimal("+42"), Some(42));
    assert_eq!(parse_decimal("0"), Some(0));
    assert_eq!(parse_decimal(""), None);
    assert_eq!(parse_decimal("+"), None);
    assert_eq!(parse_decimal("-1"), None);
    assert_eq!(parse_decimal("4x"), None);
    assert_eq!(parse_decimal(&usize::MAX.to_string()), Some(usize::MAX));
    assert_eq!(parse_decimal("99999999999999999999999"), None);
}

#[test]
fn unicode_whitespace() {
    assert_eq!(trim_str("\u{a0}\t x \u{3000}\r\n"), "x");
    assert!(is_blank(" \t\r\n"));
    assert!(is_blank(""));
    assert!(!is_blank(" a "));
}

#[test]
fn header_map_basics() {
    let mut h = HeaderMap::new();
    assert!(h.is_empty());
    h.insert("A".to_string(), "1".to_string());
    h.insert("A".to_string(), "2".to_string());
    assert_eq!(h.len(), 1);
    assert_eq!(h.get("A"), Some(&"2".to_string()));
    let copy = h.clone();
    assert_eq!(copy.entries(), &vec![("A".to_string(), "2".to_string())]);
}

#[test]
fn method_matching_uses_unicode_upper_case() {
    assert_eq!(RequestMethod::from_str("po\u{17f}t"), Ok(RequestMethod::Post));
    assert_eq!(RequestMethod::from_str("patch"), Err("PATCH".to_string()));
    assert_eq!(RequestMethod::from_upper("HEAD"), Some(RequestMethod::Head));
    assert_eq!(RequestMethod::from_upper("head"), None);
    let (m, uri, version) = HttpRequest::parse_request_line("po\u{17f}t /x y\r\n").unwrap();
    assert_eq!(m, RequestMethod::Post);
    assert_eq!(uri, "/x");
    assert_eq!(version, "y");
}

#[test]
fn unrecognized_method_keeps_token_as_received() {
    match HttpRequest::parse_request_line("patch /x HTTP/1.0\r\n") {
        Err(HttpError::InvalidRequest(msg)) => assert_eq!(msg, "unrecognized http method: patch"),
        other => panic!("unexpected result {other:?}"),
    }
}

#[test]
fn split_with_given_upper_case() {
    let (m, uri, version) = HttpRequest::split_request_line("xyz / HTTP/1.0\r\n", "GET").unwrap();
    assert_eq!(m, RequestMethod::Get);
    assert_eq!(uri, "/");
    assert_eq!(version, "HTTP/1.0");
    match HttpRequest::split_request_line("get / HTTP/1.0\r\n", "get") {
        Err(HttpError::InvalidRequest(msg)) => assert_eq!(msg, "unrecognized http method: get"),
        other => panic!("unexpected result {other:?}"),
    }
}

#[test]
fn single_header_counted_once() {
    let req = read_all(&["GET / HTTP/1.0\r\n", "Foo:  bar  \r\n", "\r\n"], b"");
    assert_eq!(req.headers().len(), 1);
    assert_eq!(req.headers().get("Foo"), Some(&"bar".to_string()));
    let req = read_all(&["GET / HTTP/1.0\r\n", "no colon here\r\n", "Foo: bar\r\n", "\r\n"], b"");
    assert_eq!(req.headers().len(), 1);
    assert_eq!(req.headers().get("Foo"), Some(&"bar".to_string()));
}
