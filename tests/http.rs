use key_enroller::error::BootError;
use key_enroller::http::{
    content_length, is_content_length_header, parse_usize, Download, HTTP_STATUS_OK, MAX_CHUNKS,
};

fn headers(pairs: &[(&str, &str)]) -> Vec<(String, String)> {
    pairs.iter().map(|(n, v)| (n.to_string(), v.to_string())).collect()
}

fn start(declared: &str, first: usize) -> Download {
    Download::start(HTTP_STATUS_OK, &headers(&[("Content-Length", declared)]), vec![7u8; first]).unwrap()
}

#[test]
fn chunks_reach_declared_length() {
    let mut d = start("100", 40);
    d.on_chunk(Ok(vec![1u8; 40]));
    assert!(!d.is_finished());
    d.on_chunk(Ok(vec![2u8; 20]));
    assert!(d.is_finished());
    assert_eq!(d.chunk_count(), 3);
    let r = d.finish().unwrap();
    assert_eq!(r.body.len(), 100);
    assert_eq!(r.declared_length, Some(100));
    assert!(!r.incomplete);
}

#[test]
fn short_body_after_not_found_is_incomplete() {
    let mut d = start("100", 40);
    d.on_chunk(Err(BootError::NotFound));
    assert!(d.is_finished());
    let r = d.finish().unwrap();
    assert_eq!(r.body.len(), 40);
    assert!(r.incomplete);
}

#[test]
fn short_body_after_empty_chunk_is_incomplete() {
    let mut d = start("100", 40);
    d.on_chunk(Ok(vec![]));
    assert!(d.is_finished());
    let r = d.finish().unwrap();
    assert_eq!(r.body.len(), 40);
    assert!(r.incomplete);
}

#[test]
fn other_error_keeps_collected_data() {
    let mut d = start("100", 10);
    d.on_chunk(Ok(vec![1u8; 5]));
    d.on_chunk(Err(BootError::Service(7)));
    assert!(d.is_finished());
    assert_eq!(d.body().len(), 15);
}

#[test]
fn chunk_cap_stops_loop() {
    let mut d = start("1000000", 1);
    let mut calls = 0;
    while !d.is_finished() && calls < 200 {
        d.on_chunk(Ok(vec![3u8; 1]));
        calls += 1;
    }
    assert_eq!(calls, MAX_CHUNKS);
    assert_eq!(d.chunk_count(), MAX_CHUNKS + 1);
    let r = d.finish().unwrap();
    assert_eq!(r.body.len(), 51);
    assert!(r.incomplete);
}

#[test]
fn finished_download_ignores_more_chunks() {
    let mut d = start("4", 2);
    d.on_chunk(Ok(vec![0u8; 2]));
    assert!(d.is_finished());
    d.on_chunk(Ok(vec![0u8; 9]));
    assert_eq!(d.body().len(), 4);
    assert_eq!(d.chunk_count(), 2);
}

#[test]
fn non_ok_status_is_protocol_error() {
    let r = Download::start(4, &headers(&[]), vec![1]);
    assert!(matches!(r, Err(BootError::ProtocolError)));
}

#[test]
fn empty_body_is_no_response() {
    let mut d = Download::start(HTTP_STATUS_OK, &headers(&[]), vec![]).unwrap();
    d.on_chunk(Err(BootError::NotFound));
    assert!(matches!(d.finish(), Err(BootError::NoResponse)));
}

#[test]
fn no_declared_length_is_never_incomplete() {
    let mut d = Download::start(HTTP_STATUS_OK, &headers(&[("Server", "x")]), vec![1, 2]).unwrap();
    d.on_chunk(Ok(vec![3]));
    assert!(!d.is_finished());
    d.on_chunk(Err(BootError::NotFound));
    let r = d.finish().unwrap();
    assert_eq!(r.body, vec![1, 2, 3]);
    assert_eq!(r.declared_length, None);
    assert!(!r.incomplete);
}

#[test]
fn content_length_header_matching() {
    assert!(is_content_length_header("content-length"));
    assert!(is_content_length_header("CONTENT-LENGTH"));
    assert!(is_content_length_header("Content-Length"));
    assert!(!is_content_length_header("Content-Lengths"));
    assert!(!is_content_length_header("Content_Length"));
}

#[test]
fn content_length_last_number_wins() {
    let h = headers(&[("Content-Length", "10"), ("content-length", "20"), ("CONTENT-LENGTH", "abc")]);
    assert_eq!(content_length(&h), Some(20));
    assert_eq!(content_length(&headers(&[("Date", "5")])), None);
}

#[test]
fn parse_usize_like_str_parse() {
    assert_eq!(parse_usize("0"), Some(0));
    assert_eq!(parse_usize("007"), Some(7));
    assert_eq!(parse_usize("+12"), Some(12));
    assert_eq!(parse_usize(""), None);
    assert_eq!(parse_usize("+"), None);
    assert_eq!(parse_usize("-1"), None);
    assert_eq!(parse_usize(" 1"), None);
    assert_eq!(parse_usize("1a"), None);
    assert_eq!(parse_usize(&usize::MAX.to_string()), Some(usize::MAX));
    assert_eq!(parse_usize(&format!("{}0", usize::MAX)), None);
    for s in ["42", "+9", "", "x", "18446744073709551615", "18446744073709551616"] {
        assert_eq!(parse_usize(s), s.parse::<usize>().ok());
    }
}
