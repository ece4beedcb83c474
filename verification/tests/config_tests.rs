use paste_service::config::{
    default_url, number_text, parse_port, read_values, resolve, ConfigError, Values,
};

#[test]
fn empty_configuration_gives_the_defaults() {
    let values = read_values("").unwrap();
    assert_eq!(values.dir, "./files");
    assert_eq!(values.port, "9999");
    assert_eq!(values.http_port, "3000");
    assert_eq!(values.url, None);
    let settings = resolve(values).unwrap();
    assert_eq!(settings.dir, "./files");
    assert_eq!(settings.port, 9999);
    assert_eq!(settings.http_port, 3000);
    assert_eq!(settings.url, "http://localhost:3000/");
}

#[test]
fn configured_values_are_read() {
    let text = "dir=/var/pastes\nport=1234\nhttp_port=8080\nurl=https://paste.example.org/p/\n";
    let values = read_values(text).unwrap();
    assert_eq!(values.dir, "/var/pastes");
    assert_eq!(values.port, "1234");
    assert_eq!(values.http_port, "8080");
    assert_eq!(values.url, Some(String::from("https://paste.example.org/p/")));
    let settings = resolve(values).unwrap();
    assert_eq!(settings.dir, "/var/pastes");
    assert_eq!(settings.port, 1234);
    assert_eq!(settings.http_port, 8080);
    assert_eq!(settings.url, "https://paste.example.org/p/");
}

#[test]
fn default_url_follows_the_http_port() {
    let values = read_values("http_port = 8081\n").unwrap();
    assert_eq!(values.http_port, "8081");
    let settings = resolve(values).unwrap();
    assert_eq!(settings.port, 9999);
    assert_eq!(settings.http_port, 8081);
    assert_eq!(settings.url, "http://localhost:8081/");
}

#[test]
fn keys_under_a_section_header_are_not_read() {
    let values = read_values("port=1\n[other]\nport=2\ndir=/elsewhere\n").unwrap();
    assert_eq!(values.port, "1");
    assert_eq!(values.dir, "./files");
}

#[test]
fn first_value_of_a_repeated_key_is_read() {
    let values = read_values("port=1\nport=2\n").unwrap();
    assert_eq!(values.port, "1");
}

#[test]
fn text_that_is_no_ini_is_a_syntax_error() {
    assert!(matches!(read_values("[broken"), Err(ConfigError::Syntax(_))));
}

#[test]
fn defaults_fill_what_is_left_out() {
    let values = Values::with_defaults(None, Some(String::from("7")), None, None);
    assert_eq!(values.dir, "./files");
    assert_eq!(values.port, "7");
    assert_eq!(values.http_port, "3000");
    assert_eq!(values.url, None);
    let values = Values::with_defaults(
        Some(String::from("d")),
        None,
        Some(String::from("8")),
        Some(String::from("u")),
    );
    assert_eq!(values.dir, "d");
    assert_eq!(values.port, "9999");
    assert_eq!(values.http_port, "8");
    assert_eq!(values.url, Some(String::from("u")));
}

#[test]
fn port_is_read_as_decimal_digits() {
    assert_eq!(parse_port("9999"), Some(9999));
    assert_eq!(parse_port("3000"), Some(3000));
    assert_eq!(parse_port("0"), Some(0));
    assert_eq!(parse_port("+80"), Some(80));
    assert_eq!(parse_port("0080"), Some(80));
    assert_eq!(parse_port(""), None);
    assert_eq!(parse_port("+"), None);
    assert_eq!(parse_port("++1"), None);
    assert_eq!(parse_port("-1"), None);
    assert_eq!(parse_port("-0"), None);
    assert_eq!(parse_port(" 80"), None);
    assert_eq!(parse_port("80 "), None);
    assert_eq!(parse_port("0x50"), None);
    assert_eq!(parse_port("8o"), None);
    assert_eq!(parse_port("\u{663}"), None);
}

#[test]
fn port_that_overflows_is_none() {
    let max = usize::MAX.to_string();
    assert_eq!(parse_port(&max), Some(usize::MAX));
    assert_eq!(parse_port(&format!("000{}", max)), Some(usize::MAX));
    assert_eq!(parse_port(&format!("{}0", max)), None);
    assert_eq!(parse_port("18446744073709551616"), "18446744073709551616".parse::<usize>().ok());
    assert_eq!(parse_port("99999999999999999999999999"), None);
}

#[test]
fn port_reading_agrees_with_the_standard_library() {
    let samples = [
        "1", "65535", "65536", "+0", "+", "-", "", "12a", "a12", "1_000", "1.0", "１２", "007",
        "18446744073709551615", "18446744073709551614", "18446744073709551620", "+9999",
    ];
    for sample in samples {
        assert_eq!(parse_port(sample), sample.parse::<usize>().ok());
    }
}

#[test]
fn number_is_written_in_decimal() {
    assert_eq!(number_text(0), "0");
    assert_eq!(number_text(7), "7");
    assert_eq!(number_text(10), "10");
    assert_eq!(number_text(3000), "3000");
    assert_eq!(number_text(9081726354), "9081726354");
    assert_eq!(number_text(usize::MAX), usize::MAX.to_string());
}

#[test]
fn default_url_names_this_machine() {
    assert_eq!(default_url(3000), "http://localhost:3000");
    assert_eq!(default_url(80), "http://localhost:80");
}

#[test]
fn url_is_kept_in_serialized_form() {
    let values = Values::with_defaults(None, None, None, Some(String::from("HTTP://Example.ORG")));
    let settings = resolve(values).unwrap();
    assert_eq!(settings.url, "http://example.org/");
}

#[test]
fn bad_ingest_port_is_reported_first() {
    let values = Values::with_defaults(
        None,
        Some(String::from("abc")),
        Some(String::from("def")),
        Some(String::from("not a url")),
    );
    assert!(matches!(resolve(values), Err(ConfigError::Port)));
}

#[test]
fn bad_http_port_is_reported() {
    let values = Values::with_defaults(None, None, Some(String::from("")), None);
    assert!(matches!(resolve(values), Err(ConfigError::HttpPort)));
}

#[test]
fn bad_url_is_reported_with_its_description() {
    let values = Values::with_defaults(None, None, None, Some(String::from("not a url")));
    match resolve(values) {
        Err(ConfigError::Url(text)) => assert_eq!(text, "relative URL without a base"),
        other => panic!("unexpected: {:?}", other),
    }
}
