use ollama::framer::{all_hex_digits, trim_line, LineFramer};
use ollama::raw_http::{build_raw_request, HeadReader};
use ollama::OllamaError;

fn feed_in_pieces(input: &[u8], sizes: &[usize]) -> Vec<Vec<u8>> {
    let mut framer = LineFramer::new();
    let mut out = Vec::new();
    let mut at = 0;
    let mut k = 0;
    while at < input.len() {
        let size = sizes[k % sizes.len()].max(1);
        let end = (at + size).min(input.len());
        out.extend(framer.feed(&input[at..end]));
        at = end;
        k += 1;
    }
    out
}

const BODY: &str = "1a3\r\n{\"model\":\"llama3.2\",\"done\":false}\r\n\r\n  {\"a\":\"é ü\"}  \n2f\n\n{\"done\":true}\npartial";

#[test]
fn split_feeds_match_single_feed() {
    let input = BODY.as_bytes();
    let mut whole = LineFramer::new();
    let expected = whole.feed(input);
    assert_eq!(
        expected,
        vec![
            b"{\"model\":\"llama3.2\",\"done\":false}".to_vec(),
            "{\"a\":\"é ü\"}".as_bytes().to_vec(),
            b"{\"done\":true}".to_vec(),
        ]
    );
    for sizes in [&[1usize][..], &[2], &[3, 7], &[5, 1, 11], &[64]] {
        assert_eq!(feed_in_pieces(input, sizes), expected);
    }
}

#[test]
fn pending_line_is_kept_until_newline() {
    let mut framer = LineFramer::new();
    assert!(framer.feed(b"{\"x\":").is_empty());
    assert_eq!(framer.pending(), b"{\"x\":");
    assert_eq!(framer.feed(b"1}\n{\"y"), vec![b"{\"x\":1}".to_vec()]);
    assert_eq!(framer.pending(), b"{\"y");
}

#[test]
fn hex_only_lines_are_never_forwarded() {
    let mut framer = LineFramer::new();
    let out = framer.feed(b"1a3f\nFFFF\r\n0\n  deadBEEF \n");
    assert!(out.is_empty());
    let out = framer.feed(b"1a3g\n");
    assert_eq!(out, vec![b"1a3g".to_vec()]);
}

#[test]
fn blank_lines_are_skipped() {
    let mut framer = LineFramer::new();
    assert!(framer.feed(b"\n\r\n \t \n").is_empty());
}

#[test]
fn trim_and_hex_helpers() {
    assert_eq!(trim_line(b" \t{\"a\":1}\r"), b"{\"a\":1}".to_vec());
    assert_eq!(trim_line(b"   "), Vec::<u8>::new());
    assert!(all_hex_digits(b"09afAF"));
    assert!(!all_hex_digits(b"09afAG"));
    assert!(all_hex_digits(b""));
}

#[test]
fn raw_request_has_headers_and_byte_length() {
    let body = "{\"model\":\"é\"}";
    let r = build_raw_request("localhost", body);
    assert_eq!(
        r,
        "POST /api/chat HTTP/1.1\r\nHost: localhost\r\nContent-Type: application/json\r\nContent-Length: 14\r\n\r\n{\"model\":\"é\"}"
    );
}

#[test]
fn head_reader_finds_body_across_reads() {
    let mut head = HeadReader::new();
    assert_eq!(head.push(b"HTTP/1.1 200 OK\r\nContent-Type: application/x-ndjson\r"), None);
    assert_eq!(head.push(b"\n\r"), None);
    assert_eq!(head.push(b"\n{\"done\":false}\n"), Some(b"{\"done\":false}\n".to_vec()));
}

#[test]
fn head_reader_body_may_start_empty() {
    let mut head = HeadReader::new();
    assert_eq!(head.push(b"HTTP/1.1 200 OK\r\n\r\n"), Some(Vec::new()));
}

#[test]
fn head_reader_reports_early_close() {
    let head = HeadReader::new();
    assert!(matches!(head.end_of_input(), OllamaError::ProtocolFraming(_)));
}
