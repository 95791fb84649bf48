use http_wire::{Cause, Context, Error, Header, Headers};

#[test]
fn header_lookup_ignores_wire_case() {
    let (rest, headers) = Headers::parse(b"Host: example.com\r\n\r\n").unwrap();
    assert_eq!(rest, b"");
    assert_eq!(headers.get("HOST"), Some(&String::from("EXAMPLE.COM")));
    assert!(headers.contains_key("HOST"));
    assert_eq!(headers.get("Host"), None);
    assert!(!headers.contains_key("host"));
}

#[test]
fn header_parse_normalizes_key_and_value() {
    let (rest, header) = Header::parse(b"Content-Type: text/html\r\nnext").unwrap();
    assert_eq!(header.key, "CONTENT-TYPE");
    assert_eq!(header.value, "TEXT/HTML");
    assert_eq!(rest, b"next");
}

#[test]
fn header_parse_uppercases_beyond_ascii() {
    let (_, header) = Header::parse("x-name: stra\u{df}e \u{e9}\r\n".as_bytes()).unwrap();
    assert_eq!(header.key, "X-NAME");
    assert_eq!(header.value, "STRASSE \u{c9}");
}

#[test]
fn header_value_may_be_empty_and_hold_colons() {
    let (_, header) = Header::parse(b"a: \r\n").unwrap();
    assert_eq!(header.key, "A");
    assert_eq!(header.value, "");
    let (_, header) = Header::parse(b"Host: a:80\r\n").unwrap();
    assert_eq!(header.value, "A:80");
    let (_, header) = Header::parse(b": v\r\n").unwrap();
    assert_eq!(header.key, "");
}

#[test]
fn header_failures() {
    assert_eq!(Header::parse(b"").unwrap_err(), Error::Incomplete);
    assert_eq!(Header::parse(b"Host").unwrap_err(), Error::Incomplete);
    assert_eq!(Header::parse(b"Host:").unwrap_err(), Error::Incomplete);
    assert_eq!(Header::parse(b"Host: a").unwrap_err(), Error::Incomplete);
    assert_eq!(Header::parse(b"Host: a\r").unwrap_err(), Error::Incomplete);
    assert_eq!(
        Header::parse(b"Host:a\r\n").unwrap_err(),
        Error::Malformed(Cause::UnexpectedByte, vec![Context::Header])
    );
    assert_eq!(
        Header::parse(b"Host: a\rb\r\n").unwrap_err(),
        Error::Malformed(Cause::UnexpectedByte, vec![Context::Header])
    );
    assert_eq!(
        Header::parse(b"Host: \xc3\x28\r\n").unwrap_err(),
        Error::EncodingError(vec![Context::Header])
    );
}

#[test]
fn empty_block_is_valid() {
    let (rest, headers) = Headers::parse(b"\r\nbody").unwrap();
    assert_eq!(headers.len(), 0);
    assert_eq!(rest, b"body");
    assert_eq!(headers.get("HOST"), None);
}

#[test]
fn later_header_overwrites_earlier() {
    let (_, headers) = Headers::parse(b"Accept: a\r\nHost: h\r\naccept: b\r\n\r\n").unwrap();
    assert_eq!(headers.len(), 2);
    assert_eq!(headers.get("ACCEPT"), Some(&String::from("B")));
    assert_eq!(headers.get("HOST"), Some(&String::from("H")));
    let mut out = Vec::new();
    headers.serialize(&mut out);
    assert_eq!(out, b"ACCEPT: B\r\nHOST: H\r\n".to_vec());
}

#[test]
fn block_failures() {
    assert_eq!(Headers::parse(b"").unwrap_err(), Error::Incomplete);
    assert_eq!(Headers::parse(b"\r").unwrap_err(), Error::Incomplete);
    assert_eq!(Headers::parse(b"Host: a\r\n").unwrap_err(), Error::Incomplete);
    assert_eq!(Headers::parse(b"Host: a\r\n\r").unwrap_err(), Error::Incomplete);
    // A line without a colon may still get one: the key runs to the first colon.
    assert_eq!(Headers::parse(b"Host: a\r\nbroken\r\n\r\n").unwrap_err(), Error::Incomplete);
    assert_eq!(Headers::parse(b"\rX").unwrap_err(), Error::Incomplete);
    assert_eq!(
        Headers::parse(b"Host: a\r\nbro:ken\r\n\r\n").unwrap_err(),
        Error::Malformed(Cause::UnexpectedByte, vec![Context::Header, Context::Headers])
    );
    assert_eq!(
        Headers::parse(b"\rX:y").unwrap_err(),
        Error::Malformed(Cause::UnexpectedByte, vec![Context::Header, Context::Headers])
    );
}

#[test]
fn insert_keeps_text_as_given() {
    let mut headers = Headers::new();
    assert_eq!(headers.len(), 0);
    headers.insert("Host", "example.com");
    assert_eq!(headers.get("Host"), Some(&String::from("example.com")));
    assert_eq!(headers.get("HOST"), None);
    assert!(headers.contains_key("Host"));
    assert!(!headers.contains_key("Hos"));
}

#[test]
fn insert_overwrites() {
    let mut headers = Headers::new();
    headers.insert("A", "1");
    headers.insert("B", "2");
    headers.insert("A", "3");
    assert_eq!(headers.len(), 2);
    assert_eq!(headers.get("A"), Some(&String::from("3")));
    assert_eq!(headers.get("B"), Some(&String::from("2")));
}

#[test]
fn serialize_appends_lines() {
    let mut headers = Headers::new();
    headers.insert("X", "y");
    headers.insert("K\u{e9}", "v");
    let mut out = b">".to_vec();
    headers.serialize(&mut out);
    assert_eq!(out, ">X: y\r\nK\u{e9}: v\r\n".as_bytes().to_vec());
}
