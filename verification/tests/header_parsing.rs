use retch_cli::headers::{parse_header, process_headers, try_process_headers, HeaderMap};

#[test]
fn parse_header_plain() {
    let r = parse_header("X-A: 1").unwrap();
    assert_eq!(r.0, "X-A");
    assert_eq!(r.1, "1");
}

#[test]
fn parse_header_trims_both_sides() {
    let r = parse_header(" x-b :  2 ").unwrap();
    assert_eq!(r.0, "x-b");
    assert_eq!(r.1, "2");
}

#[test]
fn parse_header_trims_tabs_and_newlines() {
    let r = parse_header("\tName\t:\n value \r\n").unwrap();
    assert_eq!(r.0, "Name");
    assert_eq!(r.1, "value");
}

#[test]
fn parse_header_without_colon_is_rejected() {
    assert!(parse_header("no-colon-here").is_none());
    assert!(parse_header("").is_none());
    assert!(parse_header("   ").is_none());
}

#[test]
fn parse_header_splits_at_first_colon_only() {
    let r = parse_header("a: b:c").unwrap();
    assert_eq!(r.0, "a");
    assert_eq!(r.1, "b:c");
}

#[test]
fn parse_header_accepts_empty_field_name() {
    let r = parse_header(": v").unwrap();
    assert_eq!(r.0, "");
    assert_eq!(r.1, "v");
}

#[test]
fn parse_header_accepts_empty_value() {
    let r = parse_header("k:").unwrap();
    assert_eq!(r.0, "k");
    assert_eq!(r.1, "");
}

#[test]
fn parse_header_reparse_is_stable() {
    let (k, v) = parse_header("  Accept :  text/html ; q=0.9  ").unwrap();
    let rendered = format!("{}: {}", k, v);
    let (k2, v2) = parse_header(&rendered).unwrap();
    assert_eq!(k, k2);
    assert_eq!(v, v2);
}

#[test]
fn header_map_insert_and_get() {
    let mut m = HeaderMap::new();
    m.insert(String::from("Accept"), String::from("*/*"));
    assert_eq!(m.get("Accept"), Some(&String::from("*/*")));
    assert_eq!(m.get("accept"), None);
    assert_eq!(m.get("Host"), None);
}

#[test]
fn header_map_duplicate_keys_last_wins() {
    let mut m = HeaderMap::new();
    m.insert(String::from("A"), String::from("1"));
    m.insert(String::from("A"), String::from("2"));
    assert_eq!(m.len(), 1);
    assert_eq!(m.get("A"), Some(&String::from("2")));
    assert_eq!(m.entries(), &vec![(String::from("A"), String::from("2"))]);
}

#[test]
fn process_headers_normalises() {
    let m = process_headers(vec![String::from("X-A: 1"), String::from(" x-b :  2 ")]);
    assert_eq!(m.len(), 2);
    assert_eq!(m.get("X-A"), Some(&String::from("1")));
    assert_eq!(m.get("x-b"), Some(&String::from("2")));
    assert_eq!(m.get(" x-b "), None);
}

#[test]
fn process_headers_duplicates_overwrite() {
    let m = process_headers(vec![
        String::from("A: 1"),
        String::from("B: x"),
        String::from("A: 2"),
    ]);
    assert_eq!(m.len(), 2);
    assert_eq!(m.get("A"), Some(&String::from("2")));
    assert_eq!(m.get("B"), Some(&String::from("x")));
}

#[test]
fn try_process_headers_accepts_well_formed() {
    let m = try_process_headers(&vec![String::from("K: v")]).unwrap();
    assert_eq!(m.get("K"), Some(&String::from("v")));
}

#[test]
fn try_process_headers_rejects_missing_colon() {
    let r = try_process_headers(&vec![String::from("K: v"), String::from("no-colon-here")]);
    assert!(r.is_none());
}

#[test]
fn try_process_headers_empty_input() {
    let m = try_process_headers(&Vec::new()).unwrap();
    assert_eq!(m.len(), 0);
    assert_eq!(m.get("Anything"), None);
}
