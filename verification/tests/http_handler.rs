use http::{HeaderMap, HeaderName, HeaderValue};
use ninoverse::http_handler::error::NinoverseHttpHandlerError;
use ninoverse::http_handler::request::{
    extract_uri_pieces_vector, finish_request, parse_request, parse_request_line,
    read_request_line, HttpVersion, ParsedRequest,
};
use ninoverse::http_handler::response::{response_to_string, write_response};

fn info(error: NinoverseHttpHandlerError) -> (String, String) {
    let message = error.message();
    let additional = match error {
        NinoverseHttpHandlerError::BufferError { additional_info } => additional_info,
        NinoverseHttpHandlerError::StreamError { additional_info } => additional_info,
        NinoverseHttpHandlerError::ParsingError { additional_info } => additional_info,
        NinoverseHttpHandlerError::RequestStructError { additional_info } => additional_info,
        NinoverseHttpHandlerError::ResponseStructError { additional_info } => additional_info,
    };
    (message, additional)
}

fn read(text: &str) -> ParsedRequest {
    match parse_request(text.as_bytes()) {
        Ok(request) => request,
        Err(error) => panic!("{:?}", error),
    }
}

fn refused(bytes: &[u8]) -> (String, String) {
    match parse_request(bytes) {
        Ok(_) => panic!("accepted"),
        Err(error) => info(error),
    }
}

#[test]
fn post_request_is_read_in_full() {
    let request = read(
        "POST /api/v1/things?x=1 HTTP/1.1\r\nHost: a.b\r\nX-Tag: one\r\nx-tag: two: three\r\n\r\n {\"a\":1}\0\0\r\nrest",
    );
    assert_eq!(request.line.method, "POST");
    assert_eq!(request.line.uri, "/api/v1/things?x=1");
    assert_eq!(request.line.path, "/api/v1/things");
    assert_eq!(request.line.version, HttpVersion::Http11);
    assert_eq!(request.headers.get("host").unwrap(), "a.b");
    let tags: Vec<&str> = request
        .headers
        .get_all("x-tag")
        .iter()
        .map(|value| value.to_str().unwrap())
        .collect();
    assert_eq!(tags, vec!["one", "two: three"]);
    assert_eq!(request.headers.len(), 3);
    assert_eq!(request.body.as_deref(), Some("{\"a\":1}"));
    assert_eq!(
        extract_uri_pieces_vector(&request),
        vec!["api", "v1", "things"]
    );
}

#[test]
fn only_a_post_has_a_body() {
    let request = read("GET http://host HTTP/1.0\r\nA: \r\n\r\nignored");
    assert_eq!(request.line.version, HttpVersion::Http10);
    assert_eq!(request.line.path, "/");
    assert_eq!(request.headers.get("a").unwrap(), "");
    assert_eq!(request.body, None);
    assert_eq!(extract_uri_pieces_vector(&request), vec![""]);
    let empty = read("POST / HTTP/1.1\r\n\r\n");
    assert_eq!(empty.body.as_deref(), Some(""));
    let none = read("POST / HTTP/1.1\r\nA: b");
    assert_eq!(none.body, None);
}

#[test]
fn bad_requests_are_refused() {
    let parsing = "TCP_LISTENER: Error parsing a response.".to_string();
    let stream = "TCP_LISTENER: Error handling the TcpStream.".to_string();
    assert_eq!(refused(&[0xff]), (parsing.clone(), "Parsing URI.".to_string()));
    assert_eq!(
        refused(b""),
        (parsing.clone(), "Parsing response method.".to_string())
    );
    assert_eq!(
        refused(b"G(T / HTTP/1.1"),
        (parsing.clone(), "Parsing response method.".to_string())
    );
    assert_eq!(
        refused(b"GET"),
        (parsing.clone(), "Parsing URI.".to_string())
    );
    assert_eq!(
        refused(b"GET / HTTP/2"),
        (stream, "Reading stream.".to_string())
    );
    assert_eq!(
        refused(b"GET / HTTP/1.1\r\nbad name: x\r\n"),
        (parsing.clone(), "Parsing header name.".to_string())
    );
    assert_eq!(
        refused(b"GET / HTTP/1.1\r\n: x"),
        (parsing.clone(), "Parsing header name.".to_string())
    );
    assert_eq!(
        refused(b"GET / HTTP/1.1\r\na: x\x01y"),
        (parsing, "Parsing header value.".to_string())
    );
}

#[test]
fn request_line_takes_the_path_of_its_uri() {
    let line = read_request_line("  PATCH\t/x   HTTP/1.1 more", Some("/p".to_string()))
        .ok()
        .unwrap();
    assert_eq!(line.method, "PATCH");
    assert_eq!(line.uri, "/x");
    assert_eq!(line.path, "/p");
    assert!(read_request_line("GET /x HTTP/1.1", None).is_err());
    assert_eq!(
        parse_request_line("GET /x/y#z HTTP/1.1").ok().unwrap().path,
        "/x/y"
    );
    let lines = vec!["ignored".to_string(), "A: b".to_string()];
    let request = finish_request(&lines, Ok(line)).ok().unwrap();
    assert_eq!(request.headers.len(), 1);
}

#[test]
fn tokens_and_values_agree_with_the_http_crate() {
    for byte in 0u8..=255 {
        let c = byte as char;
        let name = format!("a{}b", c);
        let line = format!("{} / HTTP/1.1", name);
        if !c.is_whitespace() {
            assert_eq!(
                parse_request(line.as_bytes()).is_ok(),
                name.parse::<http::Method>().is_ok(),
                "method {:?}",
                c
            );
        }
        if c != ':' && c != '\r' {
            let headers = format!("GET / HTTP/1.1\r\n{}: v", name);
            assert_eq!(
                parse_request(headers.as_bytes()).is_ok(),
                name.parse::<HeaderName>().is_ok(),
                "name {:?}",
                c
            );
        }
        let value = format!("GET / HTTP/1.1\r\nn: x{}y", c);
        if c != '\r' {
            assert_eq!(
                parse_request(value.as_bytes()).is_ok(),
                format!("x{}y", c).parse::<HeaderValue>().is_ok(),
                "value {:?}",
                c
            );
        }
    }
}

#[test]
fn response_is_written_line_by_line() {
    let list = vec![
        ("a".to_string(), b"1".to_vec()),
        ("b".to_string(), b"x\ty".to_vec()),
    ];
    assert_eq!(
        write_response(200, &list, Some("{}".to_string())).ok().as_deref(),
        Some("HTTP/1.1 200\r\na: 1\r\nb: x\ty\r\n\r\n{}")
    );
    let odd = vec![("a".to_string(), vec![0x80])];
    match write_response(200, &odd, Some("{}".to_string())) {
        Err(error) => assert_eq!(
            info(error),
            (
                "TCP_LISTENER: Error writing in buffer.".to_string(),
                "Converting header value to &str.".to_string()
            )
        ),
        Ok(text) => panic!("{}", text),
    }
    match write_response(200, &list, None) {
        Err(error) => assert_eq!(info(error).1, "Serializing body with serde_json."),
        Ok(text) => panic!("{}", text),
    }
}

#[test]
fn response_holds_the_headers_of_the_map() {
    let mut headers = HeaderMap::new();
    headers.append("X-One", HeaderValue::from_static("1"));
    headers.append("x-one", HeaderValue::from_static("2"));
    assert_eq!(
        response_to_string(404, &headers, Some("null".to_string())).ok().as_deref(),
        Some("HTTP/1.1 404\r\nx-one: 1\r\nx-one: 2\r\n\r\nnull")
    );
    headers.append("y", HeaderValue::from_static("3"));
    let text = response_to_string(404, &headers, Some("null".to_string())).ok().unwrap();
    assert!(text.contains("\r\ny: 3\r\n"));
    let first = text.find("x-one: 1").unwrap();
    assert!(first < text.find("x-one: 2").unwrap());
}

#[test]
fn handler_errors_describe_themselves() {
    let additional_info = String::new();
    assert_eq!(
        NinoverseHttpHandlerError::RequestStructError { additional_info }.message(),
        "TCP_LISTENER: Error building the request struct."
    );
    let additional_info = String::new();
    assert_eq!(
        NinoverseHttpHandlerError::ResponseStructError { additional_info }.message(),
        "TCP_LISTENER: Error building the response struct."
    );
}

#[test]
fn many_headers_fit() {
    let mut text = "GET / HTTP/1.1\r\n".to_string();
    for i in 0..6554 {
        text.push_str(&format!("name-{}: {}\r\n", i, i));
    }
    let request = read(&text);
    assert_eq!(request.headers.keys_len(), 6554);
}
