use std::collections::HashSet;

use paste_service::identifier::{
    alphanumeric, generate_identifier, is_valid_identifier, IDENTIFIER_LENGTH,
};
use paste_service::ingest::frame;
use paste_service::paste::{place, place_under, reply_line, PasteError};
use paste_service::retrieval::{respond, sanitize_identifier, ReadOutcome};

#[test]
fn identifier_has_sixteen_alphanumeric_characters() {
    for _ in 0..200 {
        let id = generate_identifier();
        assert_eq!(id.len(), 16);
        assert_eq!(id.chars().count(), IDENTIFIER_LENGTH);
        assert!(id.chars().all(|c| c.is_ascii_alphanumeric()));
        assert!(is_valid_identifier(&id));
    }
}

#[test]
fn ten_thousand_identifiers_are_distinct() {
    let mut seen = HashSet::new();
    for _ in 0..10_000 {
        assert!(seen.insert(generate_identifier()));
    }
    assert_eq!(seen.len(), 10_000);
}

#[test]
fn identifier_form_is_checked() {
    assert!(is_valid_identifier("0123456789abcdEF"));
    assert!(is_valid_identifier("zzzzzzzzzzzzzzzZ"));
    assert!(!is_valid_identifier("0123456789abcdE"));
    assert!(!is_valid_identifier("0123456789abcdEFG"));
    assert!(!is_valid_identifier("0123456789abcd/F"));
    assert!(!is_valid_identifier("0123456789abcdé1"));
    assert!(!is_valid_identifier("0123456789 bcdEF"));
    assert!(!is_valid_identifier(""));
}

#[test]
fn alphanumeric_agrees_with_the_standard_library() {
    let mut n: u32 = 0;
    while n < 0x3000 {
        if let Some(c) = char::from_u32(n) {
            assert_eq!(alphanumeric(c), c.is_ascii_alphanumeric());
        }
        n += 1;
    }
}

#[test]
fn identifier_is_its_own_file_name() {
    for _ in 0..100 {
        let id = generate_identifier();
        assert_eq!(sanitize_identifier(&id), id);
    }
}

#[test]
fn placement_joins_identifier_onto_base() {
    let placed = place(b"data".to_vec(), "http://localhost:3000").unwrap();
    assert!(is_valid_identifier(&placed.file_name));
    assert_eq!(placed.data, b"data".to_vec());
    assert_eq!(placed.url, format!("http://localhost:3000/{}", placed.file_name));
    assert_ne!(placed.url, "http://localhost:3000");
}

#[test]
fn placement_replaces_last_segment_of_base_without_trailing_slash() {
    let placed = place(Vec::new(), "https://example.net/a/b.html").unwrap();
    assert_eq!(placed.url, format!("https://example.net/a/{}", placed.file_name));
    let placed = place(Vec::new(), "https://example.net/a/b/").unwrap();
    assert_eq!(placed.url, format!("https://example.net/a/b/{}", placed.file_name));
}

#[test]
fn placement_fails_on_base_that_cannot_be_joined() {
    let placed = place(b"data".to_vec(), "mailto:someone@example.net");
    assert!(matches!(placed, Err(PasteError::Url(_))));
    let line = reply_line(&placed.map(|p| p.url));
    assert_eq!(line, "err: relative URL with a cannot-be-a-base base");
}

#[test]
fn placement_fails_on_base_that_is_no_url() {
    let placed = place(b"data".to_vec(), "not a url");
    match placed {
        Err(PasteError::Url(text)) => assert_eq!(text, "relative URL without a base"),
        other => panic!("unexpected: {:?}", other),
    }
}

#[test]
fn place_under_keeps_what_it_is_given() {
    let placed = place_under(
        vec![1, 2, 3],
        String::from("aaaaaaaaaaaaaaaa"),
        Ok(String::from("http://h/aaaaaaaaaaaaaaaa")),
    )
    .unwrap();
    assert_eq!(placed.file_name, "aaaaaaaaaaaaaaaa");
    assert_eq!(placed.data, vec![1, 2, 3]);
    assert_eq!(placed.url, "http://h/aaaaaaaaaaaaaaaa");
}

#[test]
fn place_under_passes_the_join_error_on() {
    let placed = place_under(vec![1], String::from("aaaaaaaaaaaaaaaa"), Err(String::from("empty host")));
    match placed {
        Err(PasteError::Url(text)) => assert_eq!(text, "empty host"),
        other => panic!("unexpected: {:?}", other),
    }
}

#[test]
fn reply_is_url_and_line_feed() {
    let line = reply_line(&Ok(String::from("http://localhost:3000/abcDEF0123456789")));
    assert_eq!(line, "http://localhost:3000/abcDEF0123456789\n");
}

#[test]
fn reply_to_failure_is_err_and_description() {
    assert_eq!(reply_line(&Err(PasteError::Read(String::from("connection reset")))), "err: connection reset");
    assert_eq!(reply_line(&Err(PasteError::Write(String::from("disk full")))), "err: disk full");
    assert_eq!(reply_line(&Err(PasteError::Url(String::from("empty host")))), "err: empty host");
}

#[test]
fn error_message_is_its_description() {
    assert_eq!(PasteError::Read(String::from("a")).message(), "a");
    assert_eq!(PasteError::Url(String::from("b")).message(), "b");
    assert_eq!(PasteError::Write(String::from("c")).message(), "c");
}

#[test]
fn paste_comes_back_as_it_was_sent() {
    let sent = b"line one\nline two".to_vec();
    let stored = frame(&vec![sent.clone()]);
    let placed = place(stored, "http://localhost:3000/").unwrap();
    let requested = placed.url.rsplit('/').next().unwrap().to_string();
    assert_eq!(sanitize_identifier(&requested), placed.file_name);
    let response = respond(ReadOutcome::Found(placed.data));
    assert_eq!(response.status, 200);
    assert_eq!(response.body, sent);
}

#[test]
fn empty_paste_gets_a_url_and_comes_back_empty() {
    let stored = frame(&Vec::new());
    let placed = place(stored, "http://localhost:3000").unwrap();
    assert!(placed.data.is_empty());
    assert!(placed.url.starts_with("http://localhost:3000/"));
    assert_eq!(placed.url.len(), "http://localhost:3000/".len() + 16);
    let response = respond(ReadOutcome::Found(placed.data));
    assert_eq!(response.status, 200);
    assert!(response.body.is_empty());
}
