use http_server::get_subpath;
use http_server::message::{Headers, Method, Request, Response, Status};
use http_server::text::{
    byte_len, chars_of, cut, decode_latin1, find, format_decimal, parse_decimal, same_text,
    spells, starts_with, text_of, trim_line_end,
};

fn chars(text: &str) -> Vec<char> {
    text.chars().collect()
}

#[test]
fn subpath_is_what_follows_the_second_slash() {
    assert_eq!(get_subpath("/echo/abc"), "abc");
    assert_eq!(get_subpath("/echo"), "");
    assert_eq!(get_subpath("/echo/"), "");
    assert_eq!(get_subpath("/files/a/b"), "a/b");
    assert_eq!(get_subpath("/files/../secret.toml"), "../secret.toml");
    assert_eq!(get_subpath("//x"), "x");
    assert_eq!(get_subpath("a/b/c"), "c");
    assert_eq!(get_subpath("/"), "");
    assert_eq!(get_subpath(""), "");
    assert_eq!(get_subpath("none"), "");
    assert_eq!(get_subpath("/echo/h\u{e9}llo/w\u{f6}rld"), "h\u{e9}llo/w\u{f6}rld");
    assert_eq!(get_subpath("/\u{20ac}/\u{1f600}x"), "\u{1f600}x");
}

#[test]
fn decimal_is_written_without_sign_or_leading_zeros() {
    assert_eq!(format_decimal(0), "0");
    assert_eq!(format_decimal(7), "7");
    assert_eq!(format_decimal(10), "10");
    assert_eq!(format_decimal(11), "11");
    assert_eq!(format_decimal(1024), "1024");
    assert_eq!(format_decimal(90210), "90210");
    assert_eq!(format_decimal(usize::MAX), usize::MAX.to_string());
}

#[test]
fn decimal_is_read_with_optional_plus() {
    assert_eq!(parse_decimal(&chars("0")), Some(0));
    assert_eq!(parse_decimal(&chars("5")), Some(5));
    assert_eq!(parse_decimal(&chars("+5")), Some(5));
    assert_eq!(parse_decimal(&chars("007")), Some(7));
    assert_eq!(parse_decimal(&chars("1024")), Some(1024));
    assert_eq!(parse_decimal(&chars("1025")), Some(1025));
    assert_eq!(parse_decimal(&chars(&usize::MAX.to_string())), Some(usize::MAX));
}

#[test]
fn decimal_too_large_is_held_at_the_maximum() {
    assert_eq!(parse_decimal(&chars("99999999999999999999999999999")), Some(usize::MAX));
    let mut above = usize::MAX.to_string();
    above.push('0');
    assert_eq!(parse_decimal(&chars(&above)), Some(usize::MAX));
}

#[test]
fn other_text_is_no_decimal() {
    for text in ["", "+", "-1", "++1", "1+", "12a", "a12", " 1", "1 ", "1.0", "0x10", "\u{663}"] {
        assert_eq!(parse_decimal(&chars(text)), None);
    }
    assert_eq!(parse_decimal(&chars("99999999999999999999999999999x")), None);
}

#[test]
fn written_decimal_is_read_back() {
    for n in [0usize, 1, 9, 10, 99, 100, 1023, 1024, 1025, 65535, usize::MAX] {
        assert_eq!(parse_decimal(&chars(&format_decimal(n))), Some(n));
    }
}

#[test]
fn find_gives_the_first_occurrence() {
    assert_eq!(find(&chars("a: b: c"), ": "), Some(1));
    assert_eq!(find(&chars("abc"), ": "), None);
    assert_eq!(find(&chars("abc:"), ": "), None);
    assert_eq!(find(&chars("abc: "), ": "), Some(3));
    assert_eq!(find(&chars(""), "/"), None);
    assert_eq!(find(&chars("/"), "/"), Some(0));
    assert_eq!(find(&chars("abc"), ""), Some(0));
    assert_eq!(find(&chars(""), ""), Some(0));
    assert_eq!(find(&chars("aab"), "ab"), Some(1));
    assert_eq!(find(&chars("h\u{e9}llo/x"), "/"), Some(5));
}

#[test]
fn cut_splits_at_the_first_occurrence() {
    let text = chars("GET /a b HTTP/1.1");
    let (before, after) = cut(&text, " ").unwrap();
    assert_eq!(text_of(before), "GET");
    assert_eq!(text_of(after), "/a b HTTP/1.1");

    let text = chars("name: ");
    let (before, after) = cut(&text, ": ").unwrap();
    assert_eq!(text_of(before), "name");
    assert_eq!(text_of(after), "");

    assert!(cut(&chars("name"), ": ").is_none());
}

#[test]
fn prefix_and_equality_compare_letter_for_letter() {
    assert!(starts_with(&chars("/echo/abc"), "/echo/"));
    assert!(starts_with(&chars("/echo/"), "/echo/"));
    assert!(!starts_with(&chars("/echo"), "/echo/"));
    assert!(!starts_with(&chars("/Echo/abc"), "/echo/"));
    assert!(starts_with(&chars("anything"), ""));
    assert!(starts_with(&chars("..x"), ".."));
    assert!(!starts_with(&chars(".x."), ".."));

    assert!(spells(&chars("GET"), "GET"));
    assert!(!spells(&chars("GETS"), "GET"));
    assert!(!spells(&chars("GE"), "GET"));
    assert!(!spells(&chars("get"), "GET"));
    assert!(spells(&chars(""), ""));

    assert!(same_text("abc", "abc"));
    assert!(same_text("", ""));
    assert!(!same_text("abc", "abd"));
    assert!(!same_text("abc", "ab"));
    assert!(!same_text("h\u{e9}", "he"));
    assert!(same_text("h\u{e9}", "h\u{e9}"));
}

#[test]
fn line_end_is_trimmed() {
    assert_eq!(text_of(trim_line_end(&chars("abc\r\n"))), "abc");
    assert_eq!(text_of(trim_line_end(&chars("abc\n"))), "abc");
    assert_eq!(text_of(trim_line_end(&chars("abc\r\r\n\n"))), "abc");
    assert_eq!(text_of(trim_line_end(&chars("abc"))), "abc");
    assert_eq!(text_of(trim_line_end(&chars("abc \r\n"))), "abc ");
    assert_eq!(text_of(trim_line_end(&chars("a\rb\r\n"))), "a\rb");
    assert_eq!(text_of(trim_line_end(&chars("\r\n"))), "");
    assert_eq!(text_of(trim_line_end(&chars(""))), "");
}

#[test]
fn characters_and_text_convert_both_ways() {
    assert_eq!(chars_of("h\u{e9}llo"), vec!['h', '\u{e9}', 'l', 'l', 'o']);
    assert_eq!(chars_of(""), Vec::<char>::new());
    assert_eq!(text_of(&['a', '\u{20ac}', 'b']), "a\u{20ac}b");
    assert_eq!(text_of(&[]), "");
}

#[test]
fn bytes_are_decoded_one_character_each() {
    assert_eq!(decode_latin1(b"abc"), "abc");
    assert_eq!(decode_latin1(&[0xe9, 0x80, 0xff]), "\u{e9}\u{80}\u{ff}");
    assert_eq!(decode_latin1(&[]), "");
}

#[test]
fn byte_length_is_that_of_utf8() {
    assert_eq!(byte_len(""), 0);
    assert_eq!(byte_len("abc"), 3);
    assert_eq!(byte_len("\u{e9}"), 2);
    assert_eq!(byte_len("\u{20ac}"), 3);
    assert_eq!(byte_len("\u{1f600}"), 4);
}

#[test]
fn headers_keep_order_and_last_value() {
    let mut headers = Headers::new();
    assert_eq!(headers.len(), 0);
    assert_eq!(headers.get("A"), None);
    headers.insert("A".to_owned(), "1".to_owned());
    headers.insert("B".to_owned(), "2".to_owned());
    headers.insert("A".to_owned(), "3".to_owned());
    headers.insert("a".to_owned(), "4".to_owned());
    assert_eq!(headers.len(), 3);
    assert_eq!(headers.name(0), "A");
    assert_eq!(headers.value(0), "3");
    assert_eq!(headers.name(1), "B");
    assert_eq!(headers.value(1), "2");
    assert_eq!(headers.name(2), "a");
    assert_eq!(headers.value(2), "4");
    assert_eq!(headers.get("A"), Some(&"3".to_owned()));
    assert_eq!(headers.get("B"), Some(&"2".to_owned()));
    assert_eq!(headers.get("a"), Some(&"4".to_owned()));
    assert_eq!(headers.get("b"), None);
}

#[test]
fn builders_set_what_they_name() {
    let request = Request::new(Method::Put, "/x");
    assert_eq!(request.method, Method::Put);
    assert_eq!(request.path, "/x");
    assert_eq!(request.version, "HTTP/1.1");
    assert_eq!(request.headers.len(), 0);
    assert_eq!(request.body, "");

    let request = request.with_header("A", "1").with_body("abc").with_header("A", "2");
    assert_eq!(request.headers.len(), 1);
    assert_eq!(request.headers.get("A"), Some(&"2".to_owned()));
    assert_eq!(request.body, "abc");
    assert_eq!(request.path, "/x");

    let response = Response::new(Status::Http500);
    assert_eq!(response.status, Status::Http500);
    assert_eq!(response.headers.len(), 0);
    assert_eq!(response.body, "");

    let response = response.with_body("abc").with_header("A", "1");
    assert_eq!(response.status, Status::Http500);
    assert_eq!(response.body, "abc");
    assert_eq!(response.headers.get("A"), Some(&"1".to_owned()));
}

#[test]
fn current_length_is_that_of_the_body_at_the_time() {
    let response = Response::new(Status::Http200)
        .with_body("abc")
        .with_content_type_and_current_length("text/plain")
        .with_body("abcdef");
    assert_eq!(response.headers.get("Content-Length"), Some(&"3".to_owned()));
    assert_eq!(response.headers.get("Content-Type"), Some(&"text/plain".to_owned()));
    assert_eq!(response.headers.name(0), "Content-Type");
    assert_eq!(response.headers.name(1), "Content-Length");

    let response = response.with_content_type_and_current_length("text/html");
    assert_eq!(response.headers.len(), 2);
    assert_eq!(response.headers.get("Content-Length"), Some(&"6".to_owned()));
    assert_eq!(response.headers.get("Content-Type"), Some(&"text/html".to_owned()));
}

#[test]
fn method_tokens_are_upper_case() {
    assert_eq!(Method::Get.as_str(), "GET");
    assert_eq!(Method::Post.as_str(), "POST");
    assert_eq!(Method::Put.as_str(), "PUT");
    assert_eq!(Method::Delete.as_str(), "DELETE");
    assert_eq!(Method::from_token(&chars("DELETE")), Some(Method::Delete));
    assert_eq!(Method::from_token(&chars("delete")), None);
    assert_eq!(Method::from_token(&chars("")), None);
}
