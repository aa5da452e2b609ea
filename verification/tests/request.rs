use hashbench::request::{
    generate_response, next_line, parse_request, push_decimal, request_is_complete,
    respond_to_request,
};

fn fnv(bytes: &[u8]) -> u64 {
    let mut hasher = fnv::FnvHasher::default();
    std::hash::Hasher::write(&mut hasher, bytes);
    std::hash::Hasher::finish(&hasher)
}

fn lines_like_std(text: &str) {
    let expected: Vec<&str> = text.lines().collect();
    let mut got: Vec<&str> = Vec::new();
    let mut rest = text;
    while !rest.is_empty() {
        let (line, tail) = next_line(rest);
        got.push(line);
        rest = tail;
    }
    assert_eq!(got, expected, "lines of {:?}", text);
}

#[test]
fn next_line_agrees_with_str_lines() {
    lines_like_std("a");
    lines_like_std("a\n");
    lines_like_std("a\r\nb");
    lines_like_std("\n\n\n");
    lines_like_std("foo\r\nbar\n\nbaz\r");
    lines_like_std("x\r\r\ny");
    lines_like_std("\r\n");
    lines_like_std("héllo\nwörld\n✓");
}

#[test]
fn parse_request_takes_second_and_fourth_lines() {
    let req = b"GET / HTTP/1.1\r\nHost: someplace:80\r\n\r\nthe body";
    let (host, body) = parse_request(req);
    assert_eq!(host, "Host: someplace:80");
    assert_eq!(body, "the body");
}

#[test]
fn parsed_lines_hold_no_line_feed() {
    let (host, body) = parse_request(b"\n\r\n\n\r\n\n");
    assert_eq!(host, "");
    assert_eq!(body, "");
    let (host, body) = parse_request(b"a\r\nb\r\r\nc\r\nd\r\ne");
    assert!(!host.contains('\n') && !body.contains('\n'));
    assert_eq!(host, "b\r");
    assert_eq!(body, "d");
}

#[test]
fn response_to_request_parses_back() {
    let req = b"GET / HTTP/1.1\r\nHost: 1.2.3.4:9\r\n\r\nsome body";
    let response = respond_to_request(req);
    let (host, body) = parse_request(response.as_bytes());
    assert_eq!(host, "Host: 1.2.3.4:9");
    assert_eq!(body, fnv(b"some body").to_string());
}

#[test]
fn parse_request_ignores_lines_after_body() {
    let (host, body) = parse_request(b"a\nb\nc\nd\ne\n");
    assert_eq!(host, "b");
    assert_eq!(body, "d");
}

#[test]
fn parse_request_keeps_bare_carriage_return_of_last_line() {
    let (host, body) = parse_request(b"a\nb\r\nc\nd\r");
    assert_eq!(host, "b");
    assert_eq!(body, "d\r");
}

#[test]
fn request_completeness() {
    assert!(request_is_complete(b"a\nb\nc\nd"));
    assert!(request_is_complete(b"\n\n\n\n"));
    assert!(!request_is_complete(b"a\nb\nc\n"));
    assert!(!request_is_complete(b"a\nb\nc"));
    assert!(!request_is_complete(b""));
    assert!(!request_is_complete(b"a\nb\nc\n\xff"));
    assert!(!request_is_complete(&[0xc3, b'\n', b'b', b'\n', b'c', b'\n', b'd']));
}

#[test]
fn decimal_matches_display() {
    for n in [0u64, 7, 10, 99, 100, 12345, u64::MAX] {
        let mut s = String::from("x");
        push_decimal(&mut s, n);
        assert_eq!(s, format!("x{}", n));
    }
}

#[test]
fn generate_response_format() {
    assert_eq!(
        generate_response("Host: a:1", 42),
        "HTTP/1.1 200 OK\r\nHost: a:1\r\n\r\n42"
    );
    assert_eq!(
        generate_response("", u64::MAX),
        format!("HTTP/1.1 200 OK\r\n\r\n\r\n{}", u64::MAX)
    );
}

#[test]
fn respond_hashes_body_line() {
    let req = "GET / HTTP/1.1\r\nHost: 10.0.0.1:5000\r\n\r\nhello";
    let response = respond_to_request(req.as_bytes());
    assert_eq!(
        response,
        format!("HTTP/1.1 200 OK\r\nHost: 10.0.0.1:5000\r\n\r\n{}", fnv(b"hello"))
    );
}

#[test]
fn response_parses_back() {
    let response = generate_response("Host: h:1\r", 0x85944171f73967e8);
    assert!(request_is_complete(response.as_bytes()));
    let (host, body) = parse_request(response.as_bytes());
    assert_eq!(host, "Host: h:1\r");
    assert_eq!(body, "9625390261332436968");
}
