use solomon_reader::parse_usize;
use solomon_reader::split_lines;
use solomon_reader::split_ws;

#[test]
fn split_ws_separates_tokens() {
    let line = b"  25  \t 200\r".to_vec();
    let toks = split_ws(&line);
    assert_eq!(toks, vec![b"25".to_vec(), b"200".to_vec()]);
}

#[test]
fn split_ws_of_blank_line_is_empty() {
    let line = b" \t \r".to_vec();
    assert_eq!(split_ws(&line).len(), 0);
    let empty = Vec::new();
    assert_eq!(split_ws(&empty).len(), 0);
}

#[test]
fn split_lines_separates_on_line_feeds() {
    let content = b"a\nbb\n\nc";
    let lines = split_lines(content);
    assert_eq!(
        lines,
        vec![b"a".to_vec(), b"bb".to_vec(), b"".to_vec(), b"c".to_vec()]
    );
}

#[test]
fn split_lines_drops_nothing_but_a_trailing_newline() {
    assert_eq!(split_lines(b"a\n"), vec![b"a".to_vec()]);
    assert_eq!(split_lines(b"\n"), vec![b"".to_vec()]);
    assert_eq!(split_lines(b"").len(), 0);
}

#[test]
fn parse_usize_reads_decimal_numerals() {
    assert_eq!(parse_usize(b"0"), Some(0));
    assert_eq!(parse_usize(b"42"), Some(42));
    assert_eq!(parse_usize(b"007"), Some(7));
    assert_eq!(parse_usize(b"+1236"), Some(1236));
}

#[test]
fn parse_usize_rejects_non_numerals() {
    assert_eq!(parse_usize(b""), None);
    assert_eq!(parse_usize(b"+"), None);
    assert_eq!(parse_usize(b"a"), None);
    assert_eq!(parse_usize(b"12a"), None);
    assert_eq!(parse_usize(b"-3"), None);
    assert_eq!(parse_usize(b"1 2"), None);
    assert_eq!(parse_usize(b"1.5"), None);
}

#[test]
fn parse_usize_rejects_overflow() {
    assert_eq!(parse_usize(b"99999999999999999999999999999999"), None);
    let max = usize::MAX.to_string();
    assert_eq!(parse_usize(max.as_bytes()), Some(usize::MAX));
}
