//! Protocol-level scenarios: framing a request off chunked reads, routing,
//! and the exact bytes of every response.
use rusty_calc::framer::Frame;
use rusty_calc::framer::Framer;
use rusty_calc::headers::content_length;
use rusty_calc::headers::parse_header_entries;
use rusty_calc::method::parse_method;
use rusty_calc::method::HTTPMethod;
use rusty_calc::method::ParseHTTPMethodError;
use rusty_calc::reqline::parse_request_line;
use rusty_calc::response::build_not_found;
use rusty_calc::response::build_ok_html;
use rusty_calc::router::route;
use rusty_calc::router::Action;

/// Feeds a byte stream to a framer in chunks of the given size, stopping as
/// the framer directs, and returns the frame plus how many bytes were
/// consumed.
fn frame_stream(stream: &[u8], chunk: usize) -> (Frame, usize) {
    let mut framer = Framer::new();
    let mut used = 0;
    while framer.needs_more() && used < stream.len() {
        let hi = stream.len().min(used + chunk);
        framer.push(&stream[used..hi]);
        used = hi;
    }
    (framer.result(), used)
}

fn expected_ok_html(body: &str) -> Vec<u8> {
    format!(
        "HTTP/1.1 200 OK\r\nContent-Type: text/html; charset=UTF-8\r\nContent-Length: {}\r\n\r\n{}",
        body.len(),
        body
    )
    .into_bytes()
}

#[test]
fn framer_clean_disconnect_is_empty() {
    let (frame, _) = frame_stream(b"", 512);
    assert!(matches!(frame, Frame::Empty));
}

#[test]
fn framer_incomplete_header_on_early_close() {
    let (frame, _) = frame_stream(b"GET / HT", 512);
    assert!(matches!(frame, Frame::Incomplete));
}

#[test]
fn framer_splits_header_and_body() {
    let req = b"POST /calc HTTP/1.1\r\nContent-Length: 5\r\n\r\nhello";
    let (frame, used) = frame_stream(req, 512);
    assert_eq!(used, req.len());
    match frame {
        Frame::Request { head, body } => {
            assert_eq!(head, b"POST /calc HTTP/1.1\r\nContent-Length: 5\r\n\r\n");
            assert_eq!(body, b"hello");
        }
        _ => panic!("expected a framed request"),
    }
}

#[test]
fn framer_handles_tiny_chunks() {
    // the body arrives split across many partial reads far below 512 bytes
    let req = b"POST /calc HTTP/1.1\r\nContent-Length: 11\r\n\r\nhello world";
    for chunk in [1, 2, 3, 7] {
        let (frame, used) = frame_stream(req, chunk);
        assert_eq!(used, req.len());
        match frame {
            Frame::Request { head, body } => {
                assert_eq!(head, b"POST /calc HTTP/1.1\r\nContent-Length: 11\r\n\r\n");
                assert_eq!(body, b"hello world");
            }
            _ => panic!("expected a framed request"),
        }
    }
}

#[test]
fn framer_terminator_split_across_chunks() {
    // the \r\n\r\n boundary itself straddles chunk boundaries
    let req = b"GET / HTTP/1.1\r\n\r\n";
    let (frame, _) = frame_stream(req, 1);
    assert!(matches!(frame, Frame::Request { .. }));
}

#[test]
fn framer_tolerates_truncated_body() {
    // the peer closes before Content-Length bytes arrive: kept as-is
    let req = b"POST /calc HTTP/1.1\r\nContent-Length: 99\r\n\r\nshort";
    let (frame, _) = frame_stream(req, 512);
    match frame {
        Frame::Request { head: _, body } => assert_eq!(body, b"short"),
        _ => panic!("expected a framed request"),
    }
}

#[test]
fn framer_without_content_length_takes_empty_body() {
    let req = b"GET / HTTP/1.1\r\nHost: localhost\r\n\r\n";
    let (frame, _) = frame_stream(req, 512);
    match frame {
        Frame::Request { head, body } => {
            assert_eq!(head.as_slice(), req.as_slice());
            assert!(body.is_empty());
        }
        _ => panic!("expected a framed request"),
    }
}

#[test]
fn content_length_is_case_insensitive_and_trimmed() {
    let head = b"POST /calc HTTP/1.1\r\ncOnTeNt-LeNgTh:  42 \r\n\r\n";
    assert_eq!(content_length(head), 42);
}

#[test]
fn content_length_defaults_to_zero() {
    assert_eq!(content_length(b"GET / HTTP/1.1\r\n\r\n"), 0);
    assert_eq!(content_length(b"GET / HTTP/1.1\r\nContent-Length: x9\r\n\r\n"), 0);
    assert_eq!(
        content_length(b"GET / HTTP/1.1\r\nContent-Length: 99999999999999999999999\r\n\r\n"),
        0
    );
}

#[test]
fn duplicate_headers_take_the_last_value() {
    let head = b"POST / HTTP/1.1\r\nContent-Length: 7\r\nContent-Length: 3\r\n\r\n";
    assert_eq!(content_length(head), 3);
    let entries = parse_header_entries(head);
    assert_eq!(entries.len(), 2);
    assert_eq!(entries[0].0, b"content-length");
    assert_eq!(entries[0].1, b"7");
    assert_eq!(entries[1].1, b"3");
}

#[test]
fn method_parser_is_case_insensitive() {
    assert_eq!(parse_method(b"GET"), Ok(HTTPMethod::GET));
    assert_eq!(parse_method(b"get"), Ok(HTTPMethod::GET));
    assert_eq!(parse_method(b"PoSt"), Ok(HTTPMethod::POST));
    assert_eq!(parse_method(b"PUT"), Err(ParseHTTPMethodError));
    assert_eq!(parse_method(b""), Err(ParseHTTPMethodError));
    assert_eq!(ParseHTTPMethodError.message(), "unsupported HTTP method");
}

#[test]
fn request_line_tokens_and_default_path() {
    let (m, p) = parse_request_line(b"GET /calc HTTP/1.1\r\nHost: x\r\n\r\n");
    assert_eq!(m, b"GET");
    assert_eq!(p, b"/calc");
    let (m, p) = parse_request_line(b"GET\r\n\r\n");
    assert_eq!(m, b"GET");
    assert_eq!(p, b"/");
}

#[test]
fn get_root_asks_for_the_page() {
    let action = route(b"GET / HTTP/1.1\r\n\r\n", b"");
    assert!(matches!(action, Action::ServePage));
}

#[test]
fn page_response_carries_exact_bytes() {
    let page = "<html><body>hi</body></html>";
    let resp = build_ok_html(page.as_bytes());
    assert_eq!(resp, expected_ok_html(page));
}

#[test]
fn get_other_path_is_not_found() {
    // a 404 with an empty body and Content-Length: 0
    let action = route(b"GET /missing HTTP/1.1\r\n\r\n", b"");
    match action {
        Action::Respond(v) => {
            assert_eq!(v, b"HTTP/1.1 404 Not Found\r\nContent-Length: 0\r\n\r\n");
        }
        _ => panic!("expected a response"),
    }
}

#[test]
fn post_other_path_is_not_found() {
    let action = route(b"POST /elsewhere HTTP/1.1\r\n\r\n", b"{}");
    match action {
        Action::Respond(v) => {
            assert_eq!(v, b"HTTP/1.1 404 Not Found\r\nContent-Length: 0\r\n\r\n");
        }
        _ => panic!("expected a response"),
    }
}

#[test]
fn unsupported_method_closes_without_response() {
    let action = route(b"PUT / HTTP/1.1\r\n\r\n", b"");
    assert!(matches!(action, Action::CloseUnsupported));
    let action = route(b"DELETE /calc HTTP/1.1\r\n\r\n", b"");
    assert!(matches!(action, Action::CloseUnsupported));
}

#[test]
fn not_found_response_declares_zero_length() {
    assert_eq!(
        build_not_found(),
        b"HTTP/1.1 404 Not Found\r\nContent-Length: 0\r\n\r\n"
    );
}

#[test]
fn sequential_requests_get_one_response_each_in_order() {
    // two requests issued on one connection, each framed and answered before
    // the next is read, with no cross-talk
    let page = "<html>home</html>";
    let req1 = b"GET / HTTP/1.1\r\n\r\n".to_vec();
    let req2 = b"GET /nowhere HTTP/1.1\r\n\r\n".to_vec();
    let mut responses: Vec<Vec<u8>> = Vec::new();
    for req in [req1, req2] {
        let (frame, used) = frame_stream(&req, 16);
        assert_eq!(used, req.len());
        match frame {
            Frame::Request { head, body } => match route(&head, &body) {
                Action::ServePage => responses.push(build_ok_html(page.as_bytes())),
                Action::Respond(v) => responses.push(v),
                _ => panic!("unexpected action"),
            },
            _ => panic!("expected a framed request"),
        }
    }
    assert_eq!(responses.len(), 2);
    assert_eq!(responses[0], expected_ok_html(page));
    assert_eq!(
        responses[1],
        b"HTTP/1.1 404 Not Found\r\nContent-Length: 0\r\n\r\n".to_vec()
    );
}

#[test]
fn response_content_length_matches_body_byte_count() {
    // writing then re-parsing a response recovers the identical body length
    for page in ["", "x", "a longer body with several bytes in it"] {
        let resp = build_ok_html(page.as_bytes());
        let text = String::from_utf8(resp.clone()).unwrap();
        let head_end = text.find("\r\n\r\n").unwrap() + 4;
        let declared = content_length(&resp[..head_end]);
        assert_eq!(declared, resp.len() - head_end);
        assert_eq!(&resp[head_end..], page.as_bytes());
    }
}

#[test]
fn header_names_are_trimmed_before_matching() {
    let head = b"POST / HTTP/1.1\r\n  Content-Length  :  7  \r\n\r\n";
    assert_eq!(content_length(head), 7);
}

#[test]
fn content_length_accepts_a_leading_plus() {
    let head = b"POST / HTTP/1.1\r\nContent-Length: +12\r\n\r\n";
    assert_eq!(content_length(head), 12);
}

#[test]
fn missing_path_defaults_to_the_root() {
    let action = route(b"GET\r\n\r\n", b"");
    assert!(matches!(action, Action::ServePage));
}

#[test]
fn empty_request_line_is_an_unsupported_method() {
    let action = route(b"\r\nHost: x\r\n\r\n", b"");
    assert!(matches!(action, Action::CloseUnsupported));
}
