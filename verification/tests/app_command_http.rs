use denon_avr_remote::app_command_http::{
    body_framing, build_request, BodyFraming, decode_chunked_body, expected_response_length, find_header_end,
    parse_app_command_exchange, parse_http_response, HttpErrorKind, RawHttpResponse,
};
use denon_avr_remote::protocol::app_command::APP_COMMAND_0300_PATH;

#[test]
fn builds_a_bounded_read_only_request() {
    let request = build_request("receiver", 8080, APP_COMMAND_0300_PATH, "<tx/>");
    assert!(request.starts_with("POST /goform/AppCommand0300.xml HTTP/1.1\r\n"));
    assert!(request.contains("Host: receiver:8080\r\n"));
    assert!(request.contains("Accept: */*\r\n"));
    assert!(request.contains("Content-Type: text/xml; charset=utf-8\r\n"));
    assert!(request.contains("Content-Length: 5\r\n"));
    assert!(request.contains("Connection: close\r\n"));
}

#[test]
fn brackets_ipv6_host_header() {
    let request = build_request("2001:db8::1", 8080, APP_COMMAND_0300_PATH, "<tx/>");
    assert!(request.contains("Host: [2001:db8::1]:8080\r\n"));
}

#[test]
fn parses_status_and_body_without_network() {
    let response =
        parse_http_response(b"HTTP/1.1 200 OK\r\nContent-Length: 9\r\n\r\n<p>ok</p>").unwrap();
    assert_eq!(response.status_code, 200);
    assert_eq!(response.body, "<p>ok</p>");
}

#[test]
fn parses_live_http_1_0_close_delimited_shape() {
    let response =
        parse_http_response(b"HTTP/1.0 200 OK\r\nContent-Type: application/xml\r\n\r\n<rx></rx>")
            .unwrap();
    assert_eq!(response.status_code, 200);
    assert_eq!(response.body, "<rx></rx>");
}

#[test]
fn computes_complete_response_length() {
    let response = b"HTTP/1.1 200 OK\r\nContent-Length: 9\r\n\r\n<p>ok</p>";
    assert_eq!(expected_response_length(response).unwrap(), Some(response.len()));
}

#[test]
fn rejects_incomplete_content_length_body() {
    let incomplete = b"HTTP/1.1 200 OK\r\nContent-Length: 7\r\n\r\nshort";
    assert_eq!(parse_http_response(incomplete).unwrap_err().kind, HttpErrorKind::UnexpectedEof);
}

#[test]
fn decodes_chunked_response_and_detects_its_end() {
    let response = b"HTTP/1.1 200 OK\r\nTransfer-Encoding: chunked\r\n\r\n4\r\n<rx>\r\n6\r\nok</rx\r\n1\r\n>\r\n0\r\n\r\nignored";
    let expected_length = response.len() - "ignored".len();
    assert_eq!(expected_response_length(response).unwrap(), Some(expected_length));
    assert_eq!(parse_http_response(&response[..expected_length]).unwrap().body, "<rx>ok</rx>");
}

#[test]
fn rejects_conflicting_content_length_and_chunked_headers() {
    let response =
        b"HTTP/1.1 200 OK\r\nContent-Length: 0\r\nTransfer-Encoding: chunked\r\n\r\n0\r\n\r\n";
    assert_eq!(expected_response_length(response).unwrap_err().kind, HttpErrorKind::InvalidData);
}

#[test]
fn rejects_unsupported_transfer_encoding() {
    let response = b"HTTP/1.1 200 OK\r\nTransfer-Encoding: gzip\r\n\r\nbody";
    assert_eq!(expected_response_length(response).unwrap_err().kind, HttpErrorKind::InvalidData);
}

#[test]
fn rejects_overflowing_content_length() {
    let response = format!("HTTP/1.1 200 OK\r\nContent-Length: {}\r\n\r\n", usize::MAX);
    assert_eq!(
        expected_response_length(response.as_bytes()).unwrap_err().kind,
        HttpErrorKind::InvalidData
    );
}

#[test]
fn parsed_exchange_requires_success_status() {
    let error = parse_app_command_exchange(RawHttpResponse {
        status_line: "HTTP/1.0 404 Not Found".to_owned(),
        status_code: 404,
        body: "<rx></rx>".to_owned(),
    })
    .unwrap_err();
    assert_eq!(error.kind, HttpErrorKind::Other);
}

#[test]
fn rejects_invalid_http_status() {
    let error = parse_http_response(b"not-http\r\n\r\nbody").unwrap_err();
    assert_eq!(error.kind, HttpErrorKind::InvalidData);
    let error = parse_http_response(b"HTTP/2 200 OK\r\n\r\nbody").unwrap_err();
    assert_eq!(error.kind, HttpErrorKind::InvalidData);
}

#[test]
fn header_end_is_the_first_blank_line() {
    assert_eq!(find_header_end(b"A: b\r\n\r\nbody\r\n\r\n"), Some(4));
    assert_eq!(find_header_end(b"A: b\r\n"), None);
}

#[test]
fn chunked_body_waits_for_the_final_chunk() {
    assert_eq!(decode_chunked_body(b"4\r\nabcd\r\n").unwrap(), None);
    let (body, used) = decode_chunked_body(b"4\r\nabcd\r\n0\r\n\r\nrest").unwrap().unwrap();
    assert_eq!(body, b"abcd".to_vec());
    assert_eq!(used, 14);
    assert_eq!(decode_chunked_body(b"zz\r\n").unwrap_err().kind, HttpErrorKind::InvalidData);
}

#[test]
fn missing_header_end_is_incomplete() {
    assert_eq!(expected_response_length(b"HTTP/1.1 200 OK\r\n").unwrap(), None);
}

#[test]
fn one_chunk_in_any_hex_spelling_decodes_to_its_body() {
    for size in ["a", "A", "0a", "000A"] {
        let mut encoded = Vec::new();
        encoded.extend_from_slice(size.as_bytes());
        encoded.extend_from_slice(b"\r\n0123456789\r\n0\r\n\r\n");
        let (body, used) = decode_chunked_body(&encoded).unwrap().unwrap();
        assert_eq!(body, b"0123456789".to_vec());
        assert_eq!(used, encoded.len());
    }
}

#[test]
fn headers_decide_how_a_body_is_framed() {
    let status = "HTTP/1.1 200 OK\r\n";
    assert_eq!(body_framing(&format!("{status}Server: x\r\ncontent-length:  12 ")), Ok(BodyFraming::ContentLength(12)));
    assert_eq!(body_framing(&format!("{status}Transfer-Encoding: CHUNKED")), Ok(BodyFraming::Chunked));
    assert_eq!(body_framing(&format!("{status}Server: x\r\nno colon here")), Ok(BodyFraming::CloseDelimited));
    for headers in [
        format!("{status}Transfer-Encoding: chunked\r\nContent-Length: 3"),
        format!("{status}Content-Length: 3\r\nContent-Length: 3"),
        format!("{status}Transfer-Encoding: chunked\r\ntransfer-encoding: chunked"),
        format!("{status}Transfer-Encoding: gzip"),
        format!("{status}Content-Length: three"),
    ] {
        assert_eq!(body_framing(&headers).unwrap_err().kind, HttpErrorKind::InvalidData);
    }
}
