use std::io::Write;

use http_wire::{
    content_length, parse_decimal, Body, Cause, Context, Encoding, Error, ErrorKind, Feature,
    Headers, SinglePartBody,
};

const PLAIN: &[u8] = b"{\"gzipped\": true, \"method\": \"GET\"}";

const GZIP: [u8; 51] = [
    0x1f, 0x8b, 0x08, 0x00, 0x00, 0x00, 0x00, 0x00, 0x02, 0x03, 0xab, 0x56, 0x4a, 0xaf, 0xca, 0x2c,
    0x28, 0x48, 0x4d, 0x51, 0xb2, 0x52, 0x28, 0x29, 0x2a, 0x4d, 0xd5, 0x51, 0x50, 0xca, 0x4d, 0x2d,
    0xc9, 0xc8, 0x07, 0xf1, 0x95, 0xdc, 0x5d, 0x43, 0x94, 0x6a, 0x01, 0x37, 0xa1, 0xb8, 0x43, 0x22,
    0x00, 0x00, 0x00,
];

const ZLIB: [u8; 39] = [
    0x78, 0x9c, 0xab, 0x56, 0x4a, 0xaf, 0xca, 0x2c, 0x28, 0x48, 0x4d, 0x51, 0xb2, 0x52, 0x28, 0x29,
    0x2a, 0x4d, 0xd5, 0x51, 0x50, 0xca, 0x4d, 0x2d, 0xc9, 0xc8, 0x07, 0xf1, 0x95, 0xdc, 0x5d, 0x43,
    0x94, 0x6a, 0x01, 0xc9, 0xb8, 0x0a, 0xd9,
];

const DEFLATE: [u8; 33] = [
    0xab, 0x56, 0x4a, 0xaf, 0xca, 0x2c, 0x28, 0x48, 0x4d, 0x51, 0xb2, 0x52, 0x28, 0x29, 0x2a, 0x4d,
    0xd5, 0x51, 0x50, 0xca, 0x4d, 0x2d, 0xc9, 0xc8, 0x07, 0xf1, 0x95, 0xdc, 0x5d, 0x43, 0x94, 0x6a,
    0x01,
];

fn body_of(bytes: &[u8]) -> SinglePartBody {
    let (_, body) = SinglePartBody::parse(bytes, None).unwrap();
    body
}

fn headers_with(key: &str, value: &str) -> Headers {
    let mut headers = Headers::new();
    headers.insert(key, value);
    headers
}

#[test]
fn decimal_values() {
    assert_eq!(parse_decimal(b"0"), Some(0));
    assert_eq!(parse_decimal(b"5"), Some(5));
    assert_eq!(parse_decimal(b"007"), Some(7));
    assert_eq!(parse_decimal(b"1234567890"), Some(1234567890));
    assert_eq!(parse_decimal(b"+42"), Some(42));
    assert_eq!(parse_decimal(usize::MAX.to_string().as_bytes()), Some(usize::MAX));
}

#[test]
fn decimal_rejects() {
    assert_eq!(parse_decimal(b""), None);
    assert_eq!(parse_decimal(b"+"), None);
    assert_eq!(parse_decimal(b"-1"), None);
    assert_eq!(parse_decimal(b"-0"), None);
    assert_eq!(parse_decimal(b" 1"), None);
    assert_eq!(parse_decimal(b"1 "), None);
    assert_eq!(parse_decimal(b"1_000"), None);
    assert_eq!(parse_decimal(b"0x10"), None);
    assert_eq!(parse_decimal(b"++1"), None);
    assert_eq!(parse_decimal(b"1+"), None);
    let mut too_big = usize::MAX.to_string();
    too_big.push('0');
    assert_eq!(parse_decimal(too_big.as_bytes()), None);
    let last = (usize::MAX % 10) as u8;
    let mut next = usize::MAX.to_string().into_bytes();
    let end = next.len() - 1;
    next[end] = b'0' + last + 1;
    if last < 9 {
        assert_eq!(parse_decimal(&next), None);
    }
}

#[test]
fn decimal_agrees_with_std() {
    for text in ["0", "1", "+1", "10", "00", "4294967295", "4294967296", "18446744073709551615",
        "18446744073709551616", "", "+", "a", "1a", "-5", "٣"]
    {
        assert_eq!(parse_decimal(text.as_bytes()), text.parse::<usize>().ok(), "{:?}", text);
    }
}

#[test]
fn content_length_header() {
    assert_eq!(content_length(&Headers::new()), Ok(None));
    assert_eq!(content_length(&headers_with("CONTENT-LENGTH", "12")), Ok(Some(12)));
    assert_eq!(content_length(&headers_with("Content-Length", "12")), Ok(None));
    assert_eq!(
        content_length(&headers_with("CONTENT-LENGTH", "twelve")),
        Err(Error::Malformed(Cause::InvalidContentLength, vec![Context::Body]))
    );
    assert_eq!(
        content_length(&headers_with("CONTENT-LENGTH", "")),
        Err(Error::Malformed(Cause::InvalidContentLength, vec![Context::Body]))
    );
}

#[test]
fn body_parse_takes_exactly_len() {
    let (rest, body) = Body::parse(b"helloXXXXX", Some(5)).unwrap();
    assert_eq!(body.as_bytes(), b"hello");
    assert_eq!(rest, b"XXXXX");
    let (rest, body) = SinglePartBody::parse(b"hello", Some(5)).unwrap();
    assert_eq!(body.as_bytes(), b"hello");
    assert_eq!(rest, b"");
    let (rest, body) = SinglePartBody::parse(b"hello", Some(0)).unwrap();
    assert_eq!(body.as_bytes(), b"");
    assert_eq!(rest, b"hello");
}

#[test]
fn body_parse_without_len_takes_all() {
    let (rest, body) = Body::parse(b"everything", None).unwrap();
    assert_eq!(body.as_bytes(), b"everything");
    assert_eq!(rest, b"");
}

#[test]
fn body_parse_short_input_is_incomplete() {
    assert_eq!(Body::parse(b"hell", Some(5)).unwrap_err(), Error::Incomplete);
    assert_eq!(SinglePartBody::parse(b"", Some(1)).unwrap_err(), Error::Incomplete);
}

#[test]
fn frame_follows_the_headers() {
    let sized = headers_with("CONTENT-LENGTH", "3");
    let (rest, body) = Body::frame(b"abcdef", &sized, false).unwrap();
    assert_eq!(body.unwrap().as_bytes(), b"abc");
    assert_eq!(rest, b"def");
    let (rest, body) = Body::frame(b"abcdef", &sized, true).unwrap();
    assert_eq!(body.unwrap().as_bytes(), b"abc");
    assert_eq!(rest, b"def");
    let unsized_ = Headers::new();
    let (rest, body) = Body::frame(b"abcdef", &unsized_, false).unwrap();
    assert!(body.is_none());
    assert_eq!(rest, b"abcdef");
    let (rest, body) = Body::frame(b"abcdef", &unsized_, true).unwrap();
    assert_eq!(body.unwrap().as_bytes(), b"abcdef");
    assert_eq!(rest, b"");
    assert_eq!(Body::frame(b"ab", &sized, true).unwrap_err(), Error::Incomplete);
}

#[test]
fn body_text_is_checked() {
    assert_eq!(body_of("gr\u{fc}n".as_bytes()).text(), Ok("gr\u{fc}n"));
    assert_eq!(body_of(b"\xff\xfe").text(), Err(Error::EncodingError(vec![])));
}

#[test]
fn gzip_fixture_decodes_to_its_plaintext() {
    let mut wire = b"POST / HTTP/1.1\r\nContent-Encoding: gzip\r\nContent-Length: 51\r\n\r\n".to_vec();
    wire.extend_from_slice(&GZIP);
    let req = http_wire::Request::parse(&wire).unwrap();
    match req.body {
        Some(Body::Single(mut body)) => {
            assert_eq!(body.as_bytes(), &GZIP[..]);
            assert!(body.decompress(&req.headers).is_ok());
            assert_eq!(body.as_bytes(), PLAIN);
        }
        other => panic!("unexpected body {:?}", other),
    }
}

#[test]
fn each_encoding_decodes() {
    let mut body = body_of(&GZIP);
    assert!(body.decompress(&headers_with("CONTENT-ENCODING", "GZIP")).is_ok());
    assert_eq!(body.as_bytes(), PLAIN);
    let mut body = body_of(&DEFLATE);
    assert!(body.decompress(&headers_with("CONTENT-ENCODING", "DEFLATE")).is_ok());
    assert_eq!(body.as_bytes(), PLAIN);
    let mut body = body_of(&ZLIB);
    assert!(body.decompress(&headers_with("CONTENT-ENCODING", "ZLIB")).is_ok());
    assert_eq!(body.as_bytes(), PLAIN);
}

#[test]
fn decode_is_not_the_identity() {
    assert_eq!(Encoding::Gzip.decode(&GZIP), Some(PLAIN.to_vec()));
    assert_eq!(Encoding::Deflate.decode(&DEFLATE), Some(PLAIN.to_vec()));
    assert_eq!(Encoding::Zlib.decode(&ZLIB), Some(PLAIN.to_vec()));
    assert_ne!(Encoding::Gzip.decode(&GZIP), Some(GZIP.to_vec()));
    assert_eq!(Encoding::Gzip.decode(&ZLIB), None);
    assert_eq!(Encoding::Zlib.decode(&GZIP), None);
    assert_eq!(Encoding::Gzip.decode(b""), None);
}

#[test]
fn unsupported_encoding() {
    let mut body = body_of(&GZIP);
    let err = body.decompress(&headers_with("CONTENT-ENCODING", "BROTLI")).unwrap_err();
    assert_eq!(err, Error::UnsupportedFeature(Feature::UnknownEncoding));
    assert_eq!(err.kind(), ErrorKind::UnsupportedFeature);
    assert_eq!(body.as_bytes(), &GZIP[..]);
}

#[test]
fn unsupported_encoding_on_a_parsed_message() {
    let res = http_wire::Response::parse(
        b"HTTP/1.1 200 OK\r\nContent-Encoding: brotli\r\nContent-Length: 3\r\n\r\nabc",
    )
    .unwrap();
    match res.body {
        Some(Body::Single(mut body)) => {
            assert_eq!(
                body.decompress(&res.headers),
                Err(Error::UnsupportedFeature(Feature::UnknownEncoding))
            );
            assert_eq!(body.as_bytes(), b"abc");
        }
        other => panic!("unexpected body {:?}", other),
    }
}

#[test]
fn encoding_names_are_matched_in_uppercase() {
    assert_eq!(Encoding::from_value("GZIP"), Ok(Some(Encoding::Gzip)));
    assert_eq!(Encoding::from_value("DEFLATE"), Ok(Some(Encoding::Deflate)));
    assert_eq!(Encoding::from_value("ZLIB"), Ok(Some(Encoding::Zlib)));
    assert_eq!(Encoding::from_value(""), Ok(None));
    assert_eq!(
        Encoding::from_value("gzip"),
        Err(Error::UnsupportedFeature(Feature::UnknownEncoding))
    );
    assert_eq!(
        Encoding::from_value("IDENTITY"),
        Err(Error::UnsupportedFeature(Feature::UnknownEncoding))
    );
}

#[test]
fn absent_or_empty_encoding_leaves_the_body() {
    let mut body = body_of(b"plain");
    assert!(body.decompress(&Headers::new()).is_ok());
    assert_eq!(body.as_bytes(), b"plain");
    assert!(body.decompress(&headers_with("CONTENT-ENCODING", "")).is_ok());
    assert_eq!(body.as_bytes(), b"plain");
    assert!(body.decompress(&headers_with("Content-Encoding", "GZIP")).is_ok());
    assert_eq!(body.as_bytes(), b"plain");
}

#[test]
fn corrupt_body_is_malformed_and_kept() {
    let mut body = body_of(b"this is not gzip");
    let err = body.decompress(&headers_with("CONTENT-ENCODING", "GZIP")).unwrap_err();
    assert_eq!(err, Error::Malformed(Cause::CorruptBody, vec![]));
    assert_eq!(err.kind(), ErrorKind::Malformed);
    assert_eq!(body.as_bytes(), b"this is not gzip");
    let mut body = body_of(&GZIP[..20]);
    assert_eq!(
        body.decompress(&headers_with("CONTENT-ENCODING", "GZIP")),
        Err(Error::Malformed(Cause::CorruptBody, vec![]))
    );
    assert_eq!(body.as_bytes(), &GZIP[..20]);
}

#[test]
fn decoding_twice_fails() {
    let headers = headers_with("CONTENT-ENCODING", "GZIP");
    let mut body = body_of(&GZIP);
    assert!(body.decompress(&headers).is_ok());
    assert_eq!(body.decompress(&headers), Err(Error::Malformed(Cause::CorruptBody, vec![])));
    assert_eq!(body.as_bytes(), PLAIN);
}

#[test]
fn replace_installs_or_reports() {
    let mut body = body_of(b"old");
    assert_eq!(body.replace(Some(b"new".to_vec())), Ok(()));
    assert_eq!(body.as_bytes(), b"new");
    assert_eq!(body.replace(None), Err(Error::Malformed(Cause::CorruptBody, vec![])));
    assert_eq!(body.as_bytes(), b"new");
}

#[test]
fn decompress_hands_back_the_decoded_body() {
    let mut body = body_of(&ZLIB);
    let headers = headers_with("CONTENT-ENCODING", "ZLIB");
    let decoded = body.decompress(&headers).unwrap();
    assert_eq!(decoded.as_bytes(), PLAIN);
}

fn payloads() -> Vec<Vec<u8>> {
    let mut large = Vec::new();
    for i in 0..200_000u32 {
        large.push((i.wrapping_mul(2654435761) >> 24) as u8);
    }
    vec![Vec::new(), b"a".to_vec(), PLAIN.to_vec(), vec![0u8; 70_000], large]
}

#[test]
fn decodes_what_the_encoders_write() {
    for payload in payloads() {
        let mut gz = flate2::write::GzEncoder::new(Vec::new(), flate2::Compression::default());
        gz.write_all(&payload).unwrap();
        assert_eq!(Encoding::Gzip.decode(&gz.finish().unwrap()), Some(payload.clone()));

        let mut zl = flate2::write::ZlibEncoder::new(Vec::new(), flate2::Compression::best());
        zl.write_all(&payload).unwrap();
        assert_eq!(Encoding::Zlib.decode(&zl.finish().unwrap()), Some(payload.clone()));

        let mut df = flate2::write::DeflateEncoder::new(Vec::new(), flate2::Compression::fast());
        df.write_all(&payload).unwrap();
        assert_eq!(Encoding::Deflate.decode(&df.finish().unwrap()), Some(payload.clone()));
    }
}

#[test]
fn gzip_reads_one_member_and_checks_its_trailer() {
    // Bytes after the member are not part of the content.
    let mut followed = GZIP.to_vec();
    followed.extend_from_slice(b"trailing");
    assert_eq!(Encoding::Gzip.decode(&followed), Some(PLAIN.to_vec()));
    // A wrong checksum is a failure.
    let mut damaged = GZIP.to_vec();
    let at = damaged.len() - 8;
    damaged[at] ^= 0xff;
    assert_eq!(Encoding::Gzip.decode(&damaged), None);
}
