use http_wire::{
    Body, Cause, CommonHeaders, Context, Error, ErrorKind, Method, Protocol, Request,
    RequestStatus,
};

#[test]
fn test_parse_request() -> Result<(), Box<dyn std::error::Error>> {
    let mut req_str = String::new();

    req_str.push_str("GET / HTTP/1.0");
    req_str.push_str("\r\n");
    req_str.push_str("Host: www.rust-lang.org");
    req_str.push_str("\r\n");
    req_str.push_str("Connection: close");
    req_str.push_str("\r\n");
    req_str.push_str("\r\n");

    let req_utf_8 = req_str.as_bytes();

    match Request::parse(req_utf_8) {
        Ok(req) => {
            assert_eq!(req.method, Method::GET);
            assert_eq!(req.path, "/");
            assert_eq!(req.version, "HTTP/1.0");
        }
        Err(e) => panic!("Error: {:?}", e),
    }

    Ok(())
}

#[test]
fn end_to_end_example() {
    let input = b"GET / HTTP/1.0\r\nHost: www.example.org\r\nConnection: close\r\n\r\n";
    let req = Request::parse(input).unwrap();
    assert_eq!(req.method, Method::GET);
    assert_eq!(req.path, "/");
    assert_eq!(req.version, "HTTP/1.0");
    assert_eq!(req.headers.len(), 2);
    assert_eq!(req.headers.get("HOST"), Some(&String::from("WWW.EXAMPLE.ORG")));
    assert_eq!(req.headers.get("CONNECTION"), Some(&String::from("CLOSE")));
    assert!(req.body.is_none());
    assert_eq!(req.protocol, Protocol::HTTP);
    assert_eq!(req.host, None);
    assert_eq!(req.port, None);
}

#[test]
fn exact_framing_leaves_the_rest() {
    let input = b"POST /x HTTP/1.1\r\nCONTENT-LENGTH: 5\r\n\r\nhelloXXXXX";
    let (rest, req) = Request::parse_prefix(input).unwrap();
    assert_eq!(rest, b"XXXXX");
    match req.body {
        Some(Body::Single(body)) => assert_eq!(body.as_bytes(), b"hello"),
        other => panic!("unexpected body {:?}", other),
    }
}

#[test]
fn content_length_is_found_whatever_its_case() {
    let input = b"POST /x HTTP/1.1\r\nContent-Length: 2\r\n\r\nhiZ";
    let (rest, req) = Request::parse_prefix(input).unwrap();
    assert_eq!(rest, b"Z");
    assert_eq!(req.body.unwrap().as_bytes(), b"hi");
}

#[test]
fn missing_length_means_no_body() {
    let input = b"POST /x HTTP/1.1\r\nHost: a\r\n\r\nhello";
    let (rest, req) = Request::parse_prefix(input).unwrap();
    assert!(req.body.is_none());
    assert_eq!(rest, b"hello");
}

#[test]
fn zero_length_body_is_present_and_empty() {
    let input = b"POST /x HTTP/1.1\r\nContent-Length: 0\r\n\r\nrest";
    let (rest, req) = Request::parse_prefix(input).unwrap();
    assert_eq!(req.body.unwrap().as_bytes(), b"");
    assert_eq!(rest, b"rest");
}

#[test]
fn short_body_is_incomplete() {
    let input = b"POST /x HTTP/1.1\r\nContent-Length: 5\r\n\r\nhell";
    assert_eq!(Request::parse(input).unwrap_err(), Error::Incomplete);
}

#[test]
fn invalid_content_length_is_malformed() {
    for value in ["abc", "-1", "", "5 ", "1.5", "99999999999999999999999999"] {
        let input = format!("POST /x HTTP/1.1\r\nContent-Length: {}\r\n\r\nhello", value);
        assert_eq!(
            Request::parse(input.as_bytes()).unwrap_err(),
            Error::Malformed(
                Cause::InvalidContentLength,
                vec![Context::Body, Context::Request]
            ),
            "value {:?}",
            value
        );
    }
}

#[test]
fn incremental_resumption() {
    let mut buffer = b"GET / HTTP/1.0\r\nHost: a".to_vec();
    assert_eq!(Request::parse(&buffer).unwrap_err(), Error::Incomplete);
    assert!(Request::parse(&buffer).unwrap_err().is_recoverable());
    buffer.extend_from_slice(b"\r\n\r\n");
    let req = Request::parse(&buffer).unwrap();
    assert_eq!(req.method, Method::GET);
    assert_eq!(req.path, "/");
    assert_eq!(req.version, "HTTP/1.0");
    assert_eq!(req.headers.get("HOST"), Some(&String::from("A")));
}

#[test]
fn every_proper_prefix_is_incomplete() {
    let input = b"PUT /a/b HTTP/1.1\r\nHost: x\r\nContent-Length: 3\r\n\r\nabc";
    for n in 0..input.len() {
        assert_eq!(
            Request::parse(&input[..n]).unwrap_err(),
            Error::Incomplete,
            "prefix of {} bytes",
            n
        );
    }
    assert!(Request::parse(input).is_ok());
}

#[test]
fn unknown_method_is_rejected() {
    let err = Request::parse(b"BREW /pot HTTP/1.1\r\n\r\n").unwrap_err();
    assert_eq!(
        err,
        Error::Malformed(Cause::UnknownMethod, vec![Context::Method, Context::Request])
    );
    assert_eq!(err.kind(), ErrorKind::UnsupportedFeature);
    assert!(!err.is_recoverable());
}

#[test]
fn method_tokens_are_case_sensitive() {
    let err = Request::parse(b"get / HTTP/1.1\r\n\r\n").unwrap_err();
    assert_eq!(
        err,
        Error::Malformed(Cause::UnknownMethod, vec![Context::Method, Context::Request])
    );
}

#[test]
fn request_line_needs_a_blank_after_the_method() {
    let err = Request::parse(b"GET/ HTTP/1.1\r\n\r\n").unwrap_err();
    assert_eq!(err, Error::Malformed(Cause::UnexpectedByte, vec![Context::Request]));
    assert_eq!(err.kind(), ErrorKind::Malformed);
}

#[test]
fn carriage_return_must_be_followed_by_line_feed() {
    let err = Request::parse(b"GET / HTTP/1.1\rX\r\n").unwrap_err();
    assert_eq!(err, Error::Malformed(Cause::UnexpectedByte, vec![Context::Request]));
}

#[test]
fn blanks_between_fields_may_repeat() {
    let req = Request::parse(b"GET  \t /index.html \t HTTP/1.1\r\n\r\n").unwrap();
    assert_eq!(req.method, Method::GET);
    assert_eq!(req.path, "/index.html");
    assert_eq!(req.version, "HTTP/1.1");
}

#[test]
fn malformed_header_carries_its_trail() {
    let err = Request::parse(b"GET / HTTP/1.1\r\nHost:a\r\n\r\n").unwrap_err();
    assert_eq!(
        err,
        Error::Malformed(
            Cause::UnexpectedByte,
            vec![Context::Header, Context::Headers, Context::Request]
        )
    );
}

#[test]
fn invalid_utf8_in_path_is_an_encoding_error() {
    let err = Request::parse(b"GET /\xff HTTP/1.1\r\n\r\n").unwrap_err();
    assert_eq!(err, Error::EncodingError(vec![Context::Request]));
    assert_eq!(err.kind(), ErrorKind::EncodingError);
}

#[test]
fn invalid_utf8_in_version_is_an_encoding_error() {
    let err = Request::parse(b"GET / HTTP\xc3/1.1\r\n\r\n").unwrap_err();
    assert_eq!(err, Error::EncodingError(vec![Context::Request]));
}

#[test]
fn invalid_utf8_in_header_is_an_encoding_error() {
    let err = Request::parse(b"GET / HTTP/1.1\r\nHo\xffst: a\r\n\r\n").unwrap_err();
    assert_eq!(
        err,
        Error::EncodingError(vec![Context::Header, Context::Headers, Context::Request])
    );
}

#[test]
fn text_is_checked_after_the_structure() {
    // A broken header is reported before the invalid text of the path.
    let err = Request::parse(b"GET /\xff HTTP/1.1\r\nHost:a\r\n\r\n").unwrap_err();
    assert_eq!(
        err,
        Error::Malformed(
            Cause::UnexpectedByte,
            vec![Context::Header, Context::Headers, Context::Request]
        )
    );
    assert_eq!(Request::parse(b"GET /\xff HTTP/1.1\r\nHost: a").unwrap_err(), Error::Incomplete);
}

#[test]
fn request_status_reads_the_start_line() {
    let (rest, status) = RequestStatus::parse(b"DELETE /items/7 HTTP/1.1\r\nHost: a\r\n").unwrap();
    assert_eq!(
        status,
        RequestStatus { method: Method::DELETE, path: "/items/7", version: "HTTP/1.1" }
    );
    assert_eq!(rest, b"Host: a\r\n");
    assert_eq!(
        RequestStatus::parse(b"DELETE /\xff HTTP/1.1\r\n").unwrap_err(),
        Error::EncodingError(vec![])
    );
    assert_eq!(RequestStatus::parse(b"DELETE /items").unwrap_err(), Error::Incomplete);
}

#[test]
fn default_request() {
    let req = Request::default();
    assert_eq!(req.method, Method::GET);
    assert_eq!(req.path, "/");
    assert_eq!(req.protocol, Protocol::HTTP);
    assert_eq!(req.host, None);
    assert_eq!(req.port, Some(80));
    assert_eq!(req.version, "HTTP/1.1");
    assert_eq!(req.headers.len(), 0);
    assert!(req.body.is_none());
    assert_eq!(req.serialize(), b"GET / HTTP/1.1\r\n\r\n");
}

#[test]
fn builder_sets_each_field() {
    let mut req = Request::default();
    req.method(Method::POST)
        .path("/submit")
        .host("example.org")
        .port(8080)
        .header("ACCEPT", "*/*")
        .keep_alive()
        .basic_auth("user", "secret")
        .body(b"a=1");
    assert_eq!(req.method, Method::POST);
    assert_eq!(req.path, "/submit");
    assert_eq!(req.host, Some("example.org"));
    assert_eq!(req.port, Some(8080));
    assert_eq!(req.headers.get("HOST"), Some(&String::from("example.org")));
    assert_eq!(req.headers.get("ACCEPT"), Some(&String::from("*/*")));
    assert_eq!(req.headers.get("CONNECTION"), Some(&String::from("keep-alive")));
    assert_eq!(req.headers.get("user"), Some(&String::from("secret")));
    assert_eq!(req.body.as_ref().unwrap().as_bytes(), b"a=1");
    assert_eq!(
        req.serialize(),
        b"POST /submit HTTP/1.1\r\nHOST: example.org\r\nACCEPT: */*\r\nCONNECTION: keep-alive\r\nuser: secret\r\n\r\na=1"
            .to_vec()
    );
}

#[test]
fn https_selects_tls_and_its_port() {
    let mut req = Request::default();
    req.https();
    assert_eq!(req.protocol, Protocol::HTTPS);
    assert_eq!(req.port, Some(443));
}

#[test]
fn header_overwrites_in_place() {
    let mut req = Request::default();
    req.header("A", "1").header("B", "2").header("A", "3");
    assert_eq!(req.headers.len(), 2);
    assert_eq!(req.serialize(), b"GET / HTTP/1.1\r\nA: 3\r\nB: 2\r\n\r\n".to_vec());
}

#[test]
fn destination_defaults() {
    let mut req = Request::default();
    assert_eq!(req.destination(), None);
    req.host("example.org");
    assert_eq!(req.destination(), Some(("example.org", 80)));
    req.https();
    assert_eq!(req.destination(), Some(("example.org", 443)));
    req.port(8443);
    assert_eq!(req.destination(), Some(("example.org", 8443)));
}

#[test]
fn destination_of_a_parsed_request_comes_from_the_host_header() {
    let req = Request::parse(b"GET / HTTP/1.1\r\nHost: Example.org\r\n\r\n").unwrap();
    assert_eq!(req.destination(), Some(("EXAMPLE.ORG", 80)));
    let mut tls = Request::parse(b"GET / HTTP/1.1\r\nHost: Example.org\r\n\r\n").unwrap();
    tls.protocol = Protocol::HTTPS;
    assert_eq!(tls.destination(), Some(("EXAMPLE.ORG", 443)));
    let none = Request::parse(b"GET / HTTP/1.1\r\n\r\n").unwrap();
    assert_eq!(none.destination(), None);
}

#[test]
fn round_trip_for_every_method() {
    let methods = [
        Method::OPTIONS,
        Method::GET,
        Method::HEAD,
        Method::POST,
        Method::PUT,
        Method::DELETE,
        Method::TRACE,
        Method::CONNECT,
    ];
    for method in methods {
        let mut req = Request::default();
        req.method(method).path("/a/b?c=d").host("example.org");
        let wire = req.serialize();
        let back = Request::parse(&wire).unwrap();
        assert_eq!(back.method, method);
        assert_eq!(back.path, "/a/b?c=d");
        assert_eq!(back.version, "HTTP/1.1");
        assert_eq!(back.headers.get("HOST"), Some(&String::from("EXAMPLE.ORG")));
        assert!(back.body.is_none());
    }
}

#[test]
fn round_trip_with_a_body() {
    let mut req = Request::default();
    req.method(Method::PUT).header("CONTENT-LENGTH", "4").body(b"data");
    let wire = req.serialize();
    assert_eq!(wire, b"PUT / HTTP/1.1\r\nCONTENT-LENGTH: 4\r\n\r\ndata".to_vec());
    let back = Request::parse(&wire).unwrap();
    assert_eq!(back.method, Method::PUT);
    assert_eq!(back.body.unwrap().as_bytes(), b"data");
}

#[test]
fn common_header_names() {
    assert_eq!(CommonHeaders::Host.to_string(), "HOST");
    assert_eq!(CommonHeaders::Connection.to_string(), "CONNECTION");
    assert_eq!(CommonHeaders::Accept.to_string(), "ACCEPT");
    assert_eq!(CommonHeaders::AcceptEncoding.to_string(), "ACCEPT-ENCODING");
    assert_eq!(CommonHeaders::ContentType.to_string(), "CONTENT-TYPE");
    assert_eq!(CommonHeaders::ContentLength.to_string(), "CONTENT-LENGTH");
    assert_eq!(CommonHeaders::ContentEncoding.as_str(), "CONTENT-ENCODING");
}

#[test]
fn settled_results_survive_more_bytes() {
    let message = b"PUT /a HTTP/1.1\r\nContent-Length: 3\r\n\r\nabc";
    let rejected = b"PUT /a HTTP/1.1\r\nContent-Length: x\r\n\r\n";
    for extra in [&b""[..], b"d", b"\r\n", b"GET / HTTP/1.1\r\n\r\n"] {
        let mut longer = message.to_vec();
        longer.extend_from_slice(extra);
        let (rest, request) = Request::parse_prefix(&longer).unwrap();
        assert_eq!(rest, extra);
        assert_eq!(request.method, Method::PUT);
        assert_eq!(request.path, "/a");
        assert_eq!(request.body.unwrap().as_bytes(), b"abc");

        let mut longer = rejected.to_vec();
        longer.extend_from_slice(extra);
        assert_eq!(
            Request::parse(&longer).unwrap_err(),
            Error::Malformed(Cause::InvalidContentLength, vec![Context::Body, Context::Request])
        );
    }
}

#[test]
fn protocol_default_ports() {
    assert_eq!(Protocol::HTTP.default_port(), 80);
    assert_eq!(Protocol::HTTPS.default_port(), 443);
}

#[test]
fn texts_with_delimiters_do_not_round_trip() {
    // A space in the path ends the path on the way back.
    let mut spaced = Request::default();
    spaced.method(Method::POST).path("/a b");
    let wire = spaced.serialize();
    let back = Request::parse(&wire).unwrap();
    assert_eq!(back.method, Method::POST);
    assert_eq!(back.path, "/a");
    assert_eq!(back.version, "b HTTP/1.1");

    // An empty path lets the version be read as the path, which then waits for the
    // space that ends it.
    let mut empty = Request::default();
    empty.method(Method::POST).path("");
    let wire = empty.serialize();
    assert_eq!(wire, b"POST  HTTP/1.1\r\n\r\n".to_vec());
    assert_eq!(Request::parse(&wire).unwrap_err(), Error::Incomplete);

    // A body without a length is written but not read back.
    let mut unframed = Request::default();
    unframed.body(b"data");
    let wire = unframed.serialize();
    let (rest, back) = Request::parse_prefix(&wire).unwrap();
    assert!(back.body.is_none());
    assert_eq!(rest, b"data");
}
