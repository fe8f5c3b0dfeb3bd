use tinyhttp::request::{parse_request, ParseError};

#[test]
fn parses_simple_get() {
    let req = parse_request(b"GET / HTTP/1.1\r\n\r\n").unwrap();
    assert_eq!(req.method, b"GET".to_vec());
    assert_eq!(req.segments, vec![b"".to_vec()]);
    assert!(req.body.is_none());
    assert!(req.headers.is_empty());
}

#[test]
fn splits_path_segments() {
    let req = parse_request(b"GET /echo/abc HTTP/1.1\r\n\r\n").unwrap();
    assert_eq!(req.segments, vec![b"echo".to_vec(), b"abc".to_vec()]);
}

#[test]
fn parses_headers_trimmed() {
    let req = parse_request(b"GET / HTTP/1.1\r\nHost:  example \r\nUser-Agent: curl/7.64\r\n\r\n")
        .unwrap();
    assert_eq!(
        req.headers,
        vec![
            (b"Host".to_vec(), b"example".to_vec()),
            (b"User-Agent".to_vec(), b"curl/7.64".to_vec()),
        ]
    );
}

#[test]
fn skips_header_line_without_colon() {
    let req = parse_request(b"GET / HTTP/1.1\r\nnocolonhere\r\nA: 1\r\n\r\n").unwrap();
    assert_eq!(req.headers, vec![(b"A".to_vec(), b"1".to_vec())]);
}

#[test]
fn reads_declared_body() {
    let req = parse_request(b"POST /files/x HTTP/1.1\r\nContent-Length: 3\r\n\r\nabcdef").unwrap();
    assert_eq!(req.body, Some(b"abc".to_vec()));
}

#[test]
fn content_length_is_case_insensitive() {
    let req = parse_request(b"POST /files/x HTTP/1.1\r\ncOnTeNt-LeNgTh: 4\r\n\r\nwxyz").unwrap();
    assert_eq!(req.body, Some(b"wxyz".to_vec()));
}

#[test]
fn last_duplicate_header_wins() {
    let req = parse_request(b"POST /x HTTP/1.1\r\nContent-Length: 9\r\nContent-Length: 2\r\n\r\nab")
        .unwrap();
    assert_eq!(req.body, Some(b"ab".to_vec()));
}

#[test]
fn single_token_request_line_fails_cleanly() {
    let r = parse_request(b"GET\r\n\r\n");
    assert_eq!(r.unwrap_err(), ParseError::MalformedRequestLine);
}

#[test]
fn empty_input_is_malformed() {
    assert_eq!(parse_request(b"").unwrap_err(), ParseError::MalformedRequestLine);
}

#[test]
fn missing_crlf_is_malformed() {
    assert_eq!(
        parse_request(b"GET / HTTP/1.1").unwrap_err(),
        ParseError::MalformedRequestLine
    );
}

#[test]
fn non_numeric_content_length_is_malformed_header() {
    let r = parse_request(b"POST /files/x HTTP/1.1\r\nContent-Length: abc\r\n\r\n");
    assert_eq!(r.unwrap_err(), ParseError::MalformedHeader);
}

#[test]
fn short_body_is_truncated() {
    let r = parse_request(b"POST /files/x HTTP/1.1\r\nContent-Length: 10\r\n\r\nabc");
    assert_eq!(r.unwrap_err(), ParseError::TruncatedBody);
}

#[test]
fn decimal_parse_exact_values() {
    assert_eq!(tinyhttp::bytes::parse_dec(b"0"), Some(0));
    assert_eq!(tinyhttp::bytes::parse_dec(b"123"), Some(123));
    assert_eq!(tinyhttp::bytes::parse_dec(b"007"), Some(7));
    assert_eq!(tinyhttp::bytes::parse_dec(b""), None);
    assert_eq!(tinyhttp::bytes::parse_dec(b"12a"), None);
    assert_eq!(
        tinyhttp::bytes::parse_dec(b"99999999999999999999999999999999"),
        None
    );
}

#[test]
fn decimal_render_exact_values() {
    assert_eq!(tinyhttp::bytes::usize_to_dec(0), b"0".to_vec());
    assert_eq!(tinyhttp::bytes::usize_to_dec(9), b"9".to_vec());
    assert_eq!(tinyhttp::bytes::usize_to_dec(404), b"404".to_vec());
    assert_eq!(tinyhttp::bytes::usize_to_dec(1000), b"1000".to_vec());
}
