use std::io::Read;
use tinyhttp::handler::{
    file_read_response, file_write_response, handle_bytes, route, ConnectionStep, RouteAction,
};
use tinyhttp::request::parse_request;
use tinyhttp::response::serialize_response;

fn routed(input: &[u8]) -> RouteAction {
    let req = parse_request(input).unwrap();
    route(&req)
}

fn done_response(input: &[u8]) -> tinyhttp::response::Response {
    match routed(input) {
        RouteAction::Done(resp) => resp,
        _ => panic!("expected a finished response"),
    }
}

fn header<'a>(
    resp: &'a tinyhttp::response::Response,
    name: &[u8],
) -> Option<&'a Vec<u8>> {
    resp.headers
        .iter()
        .find(|(k, _)| k.as_slice() == name)
        .map(|(_, v)| v)
}

#[test]
fn root_returns_200_no_body() {
    let resp = done_response(b"GET / HTTP/1.1\r\n\r\n");
    assert_eq!(resp.code, 200);
    assert!(resp.headers.is_empty());
    assert!(resp.body.is_empty());
    let bytes = serialize_response(&resp);
    assert_eq!(bytes, b"HTTP/1.1 200 OK\r\n\r\n".to_vec());
}

#[test]
fn unmatched_path_returns_404() {
    let resp = done_response(b"GET /foo/bar/baz HTTP/1.1\r\n\r\n");
    assert_eq!(resp.code, 404);
    assert!(resp.body.is_empty());
    let bytes = serialize_response(&resp);
    assert_eq!(bytes, b"HTTP/1.1 404 Not Found\r\n\r\n".to_vec());
}

#[test]
fn echo_returns_segment_verbatim() {
    let resp = done_response(b"GET /echo/abc HTTP/1.1\r\n\r\n");
    assert_eq!(resp.code, 200);
    assert_eq!(resp.body, b"abc".to_vec());
    let bytes = serialize_response(&resp);
    assert_eq!(
        bytes,
        b"HTTP/1.1 200 OK\r\nContent-Type: text/plain\r\nContent-Length: 3\r\n\r\nabc".to_vec()
    );
}

#[test]
fn echo_without_gzip_token_is_uncompressed() {
    let resp = done_response(b"GET /echo/abc HTTP/1.1\r\nAccept-Encoding: deflate\r\n\r\n");
    assert_eq!(resp.body, b"abc".to_vec());
    assert!(header(&resp, b"Content-Encoding").is_none());
}

#[test]
fn echo_with_gzip_round_trips() {
    let resp = done_response(b"GET /echo/hello HTTP/1.1\r\nAccept-Encoding: gzip\r\n\r\n");
    assert_eq!(resp.code, 200);
    assert_eq!(header(&resp, b"Content-Encoding"), Some(&b"gzip".to_vec()));
    let expected_len = format!("{}", resp.body.len()).into_bytes();
    assert_eq!(header(&resp, b"Content-Length"), Some(&expected_len));
    let mut dec = flate2::read::GzDecoder::new(resp.body.as_slice());
    let mut out = Vec::new();
    dec.read_to_end(&mut out).unwrap();
    assert_eq!(out, b"hello".to_vec());
}

#[test]
fn user_agent_value_is_echoed() {
    let resp = done_response(b"GET /user-agent HTTP/1.1\r\nUser-Agent: curl/7.64\r\n\r\n");
    assert_eq!(resp.code, 200);
    assert_eq!(resp.body, b"curl/7.64".to_vec());
    assert_eq!(header(&resp, b"Content-Length"), Some(&b"9".to_vec()));
    let bytes = serialize_response(&resp);
    assert_eq!(
        bytes,
        b"HTTP/1.1 200 OK\r\nContent-Type: text/plain\r\nContent-Length: 9\r\n\r\ncurl/7.64"
            .to_vec()
    );
}

#[test]
fn missing_user_agent_returns_400() {
    let resp = done_response(b"GET /user-agent HTTP/1.1\r\n\r\n");
    assert_eq!(resp.code, 400);
    assert!(resp.body.is_empty());
    let bytes = serialize_response(&resp);
    assert_eq!(bytes, b"HTTP/1.1 400 Bad Request\r\n\r\n".to_vec());
}

#[test]
fn files_get_asks_for_a_read() {
    match routed(b"GET /files/notes.txt HTTP/1.1\r\n\r\n") {
        RouteAction::FileRead(name) => assert_eq!(name, b"notes.txt".to_vec()),
        _ => panic!("expected a file read"),
    }
}

#[test]
fn files_post_asks_for_a_write() {
    match routed(b"POST /files/out HTTP/1.1\r\nContent-Length: 4\r\n\r\ndata") {
        RouteAction::FileWrite(name, body) => {
            assert_eq!(name, b"out".to_vec());
            assert_eq!(body, b"data".to_vec());
        },
        _ => panic!("expected a file write"),
    }
}

#[test]
fn files_post_without_body_returns_400() {
    let resp = done_response(b"POST /files/out HTTP/1.1\r\n\r\n");
    assert_eq!(resp.code, 400);
}

#[test]
fn files_other_method_returns_404() {
    let resp = done_response(b"DELETE /files/out HTTP/1.1\r\n\r\n");
    assert_eq!(resp.code, 404);
}

#[test]
fn write_then_read_round_trip() {
    let written = match routed(b"POST /files/f HTTP/1.1\r\nContent-Length: 5\r\n\r\nhello") {
        RouteAction::FileWrite(name, body) => {
            assert_eq!(name, b"f".to_vec());
            body
        },
        _ => panic!("expected a file write"),
    };
    assert_eq!(file_write_response(true).code, 201);
    match routed(b"GET /files/f HTTP/1.1\r\n\r\n") {
        RouteAction::FileRead(name) => assert_eq!(name, b"f".to_vec()),
        _ => panic!("expected a file read"),
    }
    let resp = file_read_response(Some(written));
    assert_eq!(resp.code, 200);
    assert_eq!(resp.body, b"hello".to_vec());
    assert_eq!(header(&resp, b"Content-Length"), Some(&b"5".to_vec()));
    assert_eq!(
        header(&resp, b"Content-Type"),
        Some(&b"application/octet-stream".to_vec())
    );
}

#[test]
fn missing_file_returns_404_empty_body() {
    let resp = file_read_response(None);
    assert_eq!(resp.code, 404);
    assert!(resp.body.is_empty());
    assert!(resp.headers.is_empty());
}

#[test]
fn failed_write_returns_404() {
    assert_eq!(file_write_response(false).code, 404);
}

#[test]
fn content_length_matches_multibyte_body() {
    // "héllo" in the echo segment: 6 bytes of UTF-8 for 5 characters.
    let resp = done_response(b"GET /echo/h\xc3\xa9llo HTTP/1.1\r\n\r\n");
    assert_eq!(resp.body.len(), 6);
    assert_eq!(header(&resp, b"Content-Length"), Some(&b"6".to_vec()));
}

#[test]
fn driver_serializes_finished_routes() {
    match handle_bytes(b"GET / HTTP/1.1\r\n\r\n").unwrap() {
        ConnectionStep::Reply(bytes) => {
            assert_eq!(bytes, b"HTTP/1.1 200 OK\r\n\r\n".to_vec())
        },
        _ => panic!("expected a reply"),
    }
}

#[test]
fn driver_hands_file_steps_back() {
    match handle_bytes(b"GET /files/a HTTP/1.1\r\n\r\n").unwrap() {
        ConnectionStep::FileRead(name) => assert_eq!(name, b"a".to_vec()),
        _ => panic!("expected a file read"),
    }
    match handle_bytes(b"POST /files/a HTTP/1.1\r\nContent-Length: 2\r\n\r\nhi").unwrap() {
        ConnectionStep::FileWrite(name, body) => {
            assert_eq!(name, b"a".to_vec());
            assert_eq!(body, b"hi".to_vec());
        },
        _ => panic!("expected a file write"),
    }
}

#[test]
fn driver_reports_parse_errors() {
    assert!(handle_bytes(b"GET\r\n\r\n").is_err());
}
