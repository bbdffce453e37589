use http_server::{
    echo_handler, parse_to_request, write_response, Demand, Method, ParseError, Parser, Request,
    Response, Status, BODY_LIMIT,
};

fn lines(text: &[&str]) -> Vec<String> {
    text.iter().map(|line| line.to_string()).collect()
}

fn parse(text: &[&str], body: &[u8]) -> Result<Request, ParseError> {
    parse_to_request(&lines(text), body)
}

fn error_of(text: &[&str], body: &[u8]) -> ParseError {
    match parse(text, body) {
        Ok(_) => panic!("the request was to be refused"),
        Err(error) => error,
    }
}

fn wire(response: Response) -> String {
    let mut stream = Vec::new();
    write_response(response, &mut stream);
    String::from_utf8(stream).unwrap()
}

#[test]
fn request_line_and_empty_line_complete_a_request() {
    let parser = Parser::new();
    assert_eq!(parser.demand(), Demand::Line);
    let parser = parser.line("GET /echo/abc HTTP/1.1\r\n");
    assert_eq!(parser.demand(), Demand::Line);
    let parser = parser.line("\r\n");
    assert_eq!(parser.demand(), Demand::Nothing);
    let request = parser.outcome().unwrap();
    assert_eq!(request.method, Method::Get);
    assert_eq!(request.path, "/echo/abc");
    assert_eq!(request.version, "HTTP/1.1");
    assert_eq!(request.headers.len(), 0);
    assert_eq!(request.body, "");
}

#[test]
fn no_body_is_asked_for_when_none_is_announced() {
    for head in [
        vec!["POST /echo HTTP/1.1\r\n", "\r\n"],
        vec!["POST /echo HTTP/1.1\r\n", "Content-Length: 0\r\n", "\r\n"],
        vec!["POST /echo HTTP/1.1\r\n", "Content-Length: many\r\n", "\r\n"],
        vec!["POST /echo HTTP/1.1\r\n", "Content-Length: -1\r\n", "\r\n"],
        vec!["POST /echo HTTP/1.1\r\n", "content-length: 5\r\n", "\r\n"],
        vec!["DELETE /files/a HTTP/1.1\r\n", "Host: localhost:4221\r\n", "\r\n"],
    ] {
        let mut parser = Parser::new();
        for line in head {
            assert_eq!(parser.demand(), Demand::Line);
            parser = parser.line(line);
        }
        assert_eq!(parser.demand(), Demand::Nothing);
        let request = parser.outcome().unwrap();
        assert_eq!(request.body, "");
    }
}

#[test]
fn announced_body_is_asked_for_once() {
    let parser = Parser::new()
        .line("POST /echo HTTP/1.1\r\n")
        .line("Content-Length: 3\r\n")
        .line("\r\n");
    assert_eq!(parser.demand(), Demand::Bytes(BODY_LIMIT));
    assert_eq!(BODY_LIMIT, 1024);
    let parser = parser.bytes(b"abc");
    assert_eq!(parser.demand(), Demand::Nothing);
    let request = parser.outcome().unwrap();
    assert_eq!(request.method, Method::Post);
    assert_eq!(request.path, "/echo");
    assert_eq!(request.body, "abc");
    assert_eq!(request.headers.get("Content-Length"), Some(&"3".to_owned()));
}

#[test]
fn body_is_cut_to_the_announced_length() {
    let request = parse(
        &["POST /echo HTTP/1.1\r\n", "Content-Length: 5\r\n", "\r\n"],
        b"hello world",
    )
    .unwrap();
    assert_eq!(request.body, "hello");
}

#[test]
fn body_is_what_arrived_when_less_arrived() {
    let request = parse(
        &["POST /echo HTTP/1.1\r\n", "Content-Length: 5\r\n", "\r\n"],
        b"abc",
    )
    .unwrap();
    assert_eq!(request.body, "abc");

    let request = parse(
        &["POST /echo HTTP/1.1\r\n", "Content-Length: 5\r\n", "\r\n"],
        b"",
    )
    .unwrap();
    assert_eq!(request.body, "");
}

#[test]
fn body_bytes_become_characters_one_for_one() {
    let request = parse(
        &["POST /echo HTTP/1.1\r\n", "Content-Length: 4\r\n", "\r\n"],
        &[0x41, 0xe9, 0x00, 0xff],
    )
    .unwrap();
    assert_eq!(request.body, "A\u{e9}\u{0}\u{ff}");
}

#[test]
fn body_limit_is_1024_bytes() {
    let body = vec![b'x'; 2000];
    let request = parse(
        &["POST /echo HTTP/1.1\r\n", "Content-Length: 1024\r\n", "\r\n"],
        &body,
    )
    .unwrap();
    assert_eq!(request.body.len(), 1024);

    assert_eq!(
        error_of(
            &["POST /echo HTTP/1.1\r\n", "Content-Length: 1025\r\n", "\r\n"],
            &body
        ),
        ParseError::BodyTooLarge
    );
    assert_eq!(
        error_of(
            &[
                "POST /echo HTTP/1.1\r\n",
                "Content-Length: 99999999999999999999999999999999\r\n",
                "\r\n"
            ],
            &body
        ),
        ParseError::BodyTooLarge
    );
}

#[test]
fn announced_length_may_carry_a_plus_sign_and_zeros() {
    let request = parse(
        &["POST /echo HTTP/1.1\r\n", "Content-Length: +003\r\n", "\r\n"],
        b"abcdef",
    )
    .unwrap();
    assert_eq!(request.body, "abc");
}

#[test]
fn header_fields_are_collected() {
    let request = parse(
        &[
            "GET /user-agent HTTP/1.1\r\n",
            "Host: localhost:4221\r\n",
            "User-Agent: curl/7.64.1\r\n",
            "Accept: */*\r\n",
            "\r\n",
        ],
        b"",
    )
    .unwrap();
    assert_eq!(request.headers.len(), 3);
    assert_eq!(request.headers.get("Host"), Some(&"localhost:4221".to_owned()));
    assert_eq!(request.headers.get("User-Agent"), Some(&"curl/7.64.1".to_owned()));
    assert_eq!(request.headers.get("Accept"), Some(&"*/*".to_owned()));
    assert_eq!(request.headers.get("host"), None);
    assert_eq!(request.headers.name(0), "Host");
    assert_eq!(request.headers.value(2), "*/*");
}

#[test]
fn repeated_header_takes_the_last_value() {
    let request = parse(
        &[
            "GET / HTTP/1.1\r\n",
            "Accept: text/html\r\n",
            "Host: a\r\n",
            "Accept: */*\r\n",
            "\r\n",
        ],
        b"",
    )
    .unwrap();
    assert_eq!(request.headers.len(), 2);
    assert_eq!(request.headers.get("Accept"), Some(&"*/*".to_owned()));
    assert_eq!(request.headers.name(0), "Accept");
    assert_eq!(request.headers.name(1), "Host");
}

#[test]
fn header_value_may_be_empty_and_name_too() {
    let request = parse(&["GET / HTTP/1.1\r\n", "X-Empty: \r\n", ": v\r\n", "\r\n"], b"").unwrap();
    assert_eq!(request.headers.get("X-Empty"), Some(&"".to_owned()));
    assert_eq!(request.headers.get(""), Some(&"v".to_owned()));
}

#[test]
fn malformed_request_lines_are_refused() {
    for line in [
        "",
        "\r\n",
        "GET\r\n",
        "GET /\r\n",
        "GET / HTTP/1.1 extra\r\n",
        "GET  / HTTP/1.1\r\n",
        " GET / HTTP/1.1\r\n",
        "GET / HTTP/1.1 \r\n",
        "FOO\r\n",
    ] {
        assert_eq!(error_of(&[line, "\r\n"], b""), ParseError::MalformedRequestLine);
    }
}

#[test]
fn unknown_methods_are_refused() {
    for line in [
        "PATCH / HTTP/1.1\r\n",
        "get / HTTP/1.1\r\n",
        "GETS / HTTP/1.1\r\n",
        "GE / HTTP/1.1\r\n",
        " / HTTP/1.1\r\n",
        "HEAD / HTTP/1.0\r\n",
    ] {
        assert_eq!(error_of(&[line, "\r\n"], b""), ParseError::UnsupportedMethod);
    }
}

#[test]
fn other_versions_are_refused() {
    for line in [
        "GET / HTTP/1.0\r\n",
        "GET / HTTP/2\r\n",
        "GET / http/1.1\r\n",
        "GET / \r\n",
        "GET / HTTP/1.1\t\r\n",
    ] {
        assert_eq!(error_of(&[line, "\r\n"], b""), ParseError::UnsupportedVersion);
    }
}

#[test]
fn all_four_methods_are_read() {
    for (token, method) in [
        ("GET", Method::Get),
        ("POST", Method::Post),
        ("PUT", Method::Put),
        ("DELETE", Method::Delete),
    ] {
        let line = format!("{} /x HTTP/1.1\r\n", token);
        let request = parse(&[&line, "\r\n"], b"").unwrap();
        assert_eq!(request.method, method);
        assert_eq!(request.method.as_str(), token);
        assert_eq!(request.path, "/x");
    }
}

#[test]
fn path_may_be_empty() {
    let request = parse(&["GET  HTTP/1.1\r\n", "\r\n"], b"").unwrap();
    assert_eq!(request.path, "");
}

#[test]
fn malformed_headers_are_refused() {
    for line in [
        "Host\r\n",
        "Host:localhost\r\n",
        "Host :localhost\r\n",
        "Host: a: b\r\n",
        "a: : b\r\n",
        " \r\n",
        ":\r\n",
    ] {
        assert_eq!(
            error_of(&["GET / HTTP/1.1\r\n", line, "\r\n"], b""),
            ParseError::MalformedHeader
        );
    }
}

#[test]
fn header_is_cut_at_its_separator_only() {
    let request = parse(
        &["GET / HTTP/1.1\r\n", "Host : localhost\r\n", "Time: 12:30:00\r\n", "\r\n"],
        b"",
    )
    .unwrap();
    assert_eq!(request.headers.get("Host "), Some(&"localhost".to_owned()));
    assert_eq!(request.headers.get("Host"), None);
    assert_eq!(request.headers.get("Time"), Some(&"12:30:00".to_owned()));
}

#[test]
fn line_ends_are_stripped_whatever_their_form() {
    let request = parse(&["GET / HTTP/1.1\n", "Host: a\r\r\n", "\n"], b"").unwrap();
    assert_eq!(request.path, "/");
    assert_eq!(request.headers.get("Host"), Some(&"a".to_owned()));

    let request = parse(&["GET / HTTP/1.1", "Host: a", ""], b"").unwrap();
    assert_eq!(request.headers.get("Host"), Some(&"a".to_owned()));
}

#[test]
fn end_of_connection_ends_the_header() {
    let request = parse(&["GET / HTTP/1.1\r\n", "Host: a\r\n"], b"").unwrap();
    assert_eq!(request.headers.get("Host"), Some(&"a".to_owned()));

    assert_eq!(error_of(&[], b""), ParseError::MalformedRequestLine);
}

#[test]
fn lines_after_the_header_are_ignored() {
    let request = parse(
        &["GET / HTTP/1.1\r\n", "\r\n", "garbage without separator\r\n"],
        b"ignored",
    )
    .unwrap();
    assert_eq!(request.headers.len(), 0);
    assert_eq!(request.body, "");
}

#[test]
fn first_failure_is_kept() {
    let parser = Parser::new().line("GET /\r\n").line("Host: a\r\n").line("\r\n");
    assert_eq!(parser.demand(), Demand::Nothing);
    assert_eq!(parser.outcome().err(), Some(ParseError::MalformedRequestLine));
}

#[test]
fn interruption_fails_an_unfinished_request() {
    let parser = Parser::new().interrupted();
    assert_eq!(parser.demand(), Demand::Nothing);
    assert_eq!(parser.outcome().err(), Some(ParseError::Interrupted));

    let parser = Parser::new().line("GET / HTTP/1.1\r\n").interrupted();
    assert_eq!(parser.outcome().err(), Some(ParseError::Interrupted));

    let parser = Parser::new()
        .line("POST / HTTP/1.1\r\n")
        .line("Content-Length: 3\r\n")
        .line("\r\n")
        .interrupted();
    assert_eq!(parser.outcome().err(), Some(ParseError::Interrupted));
}

#[test]
fn interruption_keeps_a_finished_request() {
    let parser = Parser::new().line("GET / HTTP/1.1\r\n").line("\r\n").interrupted();
    assert_eq!(parser.outcome().unwrap().path, "/");

    let parser = Parser::new().line("BAD\r\n").interrupted();
    assert_eq!(parser.outcome().err(), Some(ParseError::MalformedRequestLine));
}

#[test]
fn unfinished_parser_has_no_request() {
    assert_eq!(Parser::new().outcome().err(), Some(ParseError::Interrupted));
    let parser = Parser::new().line("GET / HTTP/1.1\r\n");
    assert_eq!(parser.outcome().err(), Some(ParseError::Interrupted));
}

#[test]
fn bytes_are_ignored_unless_asked_for() {
    let parser = Parser::new().bytes(b"GET / HTTP/1.1\r\n");
    assert_eq!(parser.demand(), Demand::Line);
    let parser = parser.line("GET / HTTP/1.1\r\n").bytes(b"abc").line("\r\n");
    assert_eq!(parser.outcome().unwrap().body, "");
}

#[test]
fn response_is_written_as_status_line_headers_empty_line_body() {
    let response = Response::new(Status::Http200)
        .with_body("Hello World")
        .with_content_type_and_current_length("text/plain");
    assert_eq!(
        wire(response),
        "HTTP/1.1 200 OK\r\nContent-Type: text/plain\r\nContent-Length: 11\r\n\r\nHello World"
    );
}

#[test]
fn response_without_headers_or_body_is_two_lines() {
    assert_eq!(wire(Response::new(Status::Http404)), "HTTP/1.1 404 Not Found\r\n\r\n");
    assert_eq!(wire(Response::new(Status::Http201)), "HTTP/1.1 201 Created\r\n\r\n");
}

#[test]
fn every_status_has_its_reason_phrase() {
    for (status, text) in [
        (Status::Http200, "200 OK"),
        (Status::Http201, "201 Created"),
        (Status::Http400, "400 Bad Request"),
        (Status::Http404, "404 Not Found"),
        (Status::Http405, "405 Method Not Allowed"),
        (Status::Http409, "409 Conflict"),
        (Status::Http500, "500 Internal Server Error"),
    ] {
        assert_eq!(status.as_str(), text);
        assert_eq!(wire(Response::new(status)), format!("HTTP/1.1 {}\r\n\r\n", text));
    }
}

#[test]
fn writing_appends_to_the_stream() {
    let mut stream = b"before".to_vec();
    write_response(Response::new(Status::Http409), &mut stream);
    assert_eq!(stream, b"beforeHTTP/1.1 409 Conflict\r\n\r\n".to_vec());
}

#[test]
fn response_header_set_twice_is_written_once() {
    let response = Response::new(Status::Http200)
        .with_header("X-A", "1")
        .with_header("X-B", "2")
        .with_header("X-A", "3");
    assert_eq!(wire(response), "HTTP/1.1 200 OK\r\nX-A: 3\r\nX-B: 2\r\n\r\n");
}

#[test]
fn written_body_has_the_announced_number_of_bytes() {
    for body in ["", "abc", "h\u{e9}llo", "\u{20ac}\u{1f600}", "line\r\nline"] {
        let response = echo_handler(Request::new(Method::Post, "/echo").with_body(body));
        let announced: usize = response
            .headers
            .get("Content-Length")
            .unwrap()
            .parse()
            .unwrap();
        assert_eq!(announced, body.len());
        let mut stream = Vec::new();
        write_response(response, &mut stream);
        let end = stream.len();
        assert_eq!(&stream[end - announced..], body.as_bytes());
        let head = &stream[..end - announced];
        assert!(head.ends_with(b"\r\n\r\n"));
    }
}

#[test]
fn announced_length_is_read_back_by_the_parser() {
    let body = "h\u{e9}llo w\u{f6}rld";
    let response = echo_handler(Request::new(Method::Post, "/echo").with_body(body));
    let length = response.headers.get("Content-Length").unwrap().clone();
    let header = format!("Content-Length: {}\r\n", length);
    let parser = Parser::new()
        .line("POST /echo HTTP/1.1\r\n")
        .line(&header)
        .line("\r\n");
    assert_eq!(parser.demand(), Demand::Bytes(BODY_LIMIT));
    let request = parser.bytes(&vec![b'x'; 100]).outcome().unwrap();
    assert_eq!(request.body.len(), body.len());
}

#[test]
fn request_is_shown_as_it_is_written() {
    let request = Request::new(Method::Post, "/echo")
        .with_header("Host", "localhost:4221")
        .with_header("Content-Length", "3")
        .with_body("abc");
    assert_eq!(
        request.to_string(),
        "POST /echo HTTP/1.1\r\nHost: localhost:4221\r\nContent-Length: 3\r\n\r\nabc"
    );
    assert_eq!(
        Request::new(Method::Delete, "/files/a").to_string(),
        "DELETE /files/a HTTP/1.1\r\n\r\n"
    );
}

#[test]
fn shown_request_is_read_back() {
    let request = Request::new(Method::Post, "/echo")
        .with_header("User-Agent", "curl/7.64.1")
        .with_header("Content-Length", "3")
        .with_body("abc");
    let text = request.to_string();
    let (head, body) = text.split_at(text.len() - 3);
    let lines: Vec<String> = head.split_inclusive('\n').map(|line| line.to_owned()).collect();
    let read = parse_to_request(&lines, body.as_bytes()).unwrap();
    assert_eq!(read.method, Method::Post);
    assert_eq!(read.path, "/echo");
    assert_eq!(read.version, "HTTP/1.1");
    assert_eq!(read.headers.len(), 2);
    assert_eq!(read.headers.get("User-Agent"), Some(&"curl/7.64.1".to_owned()));
    assert_eq!(read.body, "abc");
}
