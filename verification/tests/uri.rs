use std::str::FromStr;

use krun_status::number::decimal_text;
use krun_status::uri::{parse_tcp_input, Ipv4Addr, RestfulUri, UriError, UriScheme};

#[test]
fn parse_valid_unix_scheme() {
    assert_eq!(
        RestfulUri::Unix("/tmp/path".to_string()),
        RestfulUri::from_str("unix:///tmp/path").unwrap()
    );
}

#[test]
fn parse_unix_scheme_missing_path() {
    assert_eq!(
        "empty unix socket path".to_string(),
        RestfulUri::from_str("unix://").err().unwrap().to_string()
    );
}

#[test]
fn parse_unix_scheme_missing_slashes() {
    assert_eq!(
        "invalid scheme input".to_string(),
        RestfulUri::from_str("unix:").err().unwrap().to_string()
    );
}

#[test]
fn parse_unix_scheme_misspelling() {
    assert_eq!(
        "invalid scheme input".to_string(),
        RestfulUri::from_str("uni://path").err().unwrap().to_string()
    );
}

#[test]
fn parse_valid_tcp_scheme() {
    assert_eq!(
        RestfulUri::Tcp(Ipv4Addr::new(127, 0, 0, 1), 8080),
        RestfulUri::from_str("tcp://localhost:8080").unwrap(),
    );
}

#[test]
fn parse_tcp_scheme_missing_port() {
    assert_eq!(
        "restful URI formatted incorrectly".to_string(),
        RestfulUri::from_str("tcp://localhost").err().unwrap().to_string()
    );
}

#[test]
fn parse_tcp_scheme_with_unix_path() {
    assert_eq!(
        "restful URI formatted incorrectly".to_string(),
        RestfulUri::from_str("tcp:///tmp/path").err().unwrap().to_string(),
    );
}

#[test]
fn parse_valid_none_scheme() {
    assert_eq!(RestfulUri::Disabled, RestfulUri::from_str("none://").unwrap());
}

#[test]
fn parse_none_scheme_missing_postfix() {
    assert_eq!(
        "invalid scheme input".to_string(),
        RestfulUri::from_str("none").err().unwrap().to_string(),
    );
}

#[test]
fn parse_random_string_scheme() {
    assert_eq!(
        "invalid scheme input".to_string(),
        RestfulUri::from_str("foobar").err().unwrap().to_string(),
    );
}

#[test]
fn schemes_by_name() {
    assert_eq!(UriScheme::from_str("tcp"), Ok(UriScheme::Tcp));
    assert_eq!(UriScheme::from_str("unix"), Ok(UriScheme::Unix));
    assert_eq!(UriScheme::from_str("none"), Ok(UriScheme::Disabled));
    assert_eq!(UriScheme::from_str("TCP"), Err(UriError::Scheme));
    assert_eq!(UriScheme::from_str("").err().unwrap().to_string(), "invalid scheme");
    assert_eq!(UriScheme::default(), UriScheme::Disabled);
    assert_eq!(RestfulUri::default(), RestfulUri::Disabled);
}

#[test]
fn address_and_port() {
    assert_eq!(parse_tcp_input("192.168.0.255:0"), Ok((Ipv4Addr::new(192, 168, 0, 255), 0)));
    assert_eq!(parse_tcp_input("1.2.3.4:+65535"), Ok((Ipv4Addr::new(1, 2, 3, 4), 65535)));
    assert_eq!(parse_tcp_input("1.2.3.4:00080"), Ok((Ipv4Addr::new(1, 2, 3, 4), 80)));
    assert_eq!(parse_tcp_input("1.2.3.4:65536"), Err(UriError::Port));
    assert_eq!(parse_tcp_input("1.2.3.4:-1"), Err(UriError::Port));
    assert_eq!(parse_tcp_input("1.2.3.4:"), Err(UriError::Port));
    assert_eq!(parse_tcp_input("1.2.3.4:80:"), Err(UriError::Format));
    assert_eq!(parse_tcp_input(""), Err(UriError::Format));
    assert_eq!(parse_tcp_input(":x"), Err(UriError::Address));
    assert_eq!(parse_tcp_input("Localhost:80"), Err(UriError::Address));
    assert_eq!(
        UriError::Address.to_string(),
        "restful URI IP address formatted incorrectly"
    );
    assert_eq!(UriError::Port.to_string(), "restful URI port number formatted incorrectly");
}

#[test]
fn addresses_are_four_octets_without_leading_zeros() {
    assert_eq!(parse_tcp_input("0.0.0.0:1"), Ok((Ipv4Addr::new(0, 0, 0, 0), 1)));
    assert_eq!(parse_tcp_input("255.255.255.255:1"), Ok((Ipv4Addr::new(255, 255, 255, 255), 1)));
    for text in [
        "256.0.0.1", "01.2.3.4", "00.0.0.0", "1.2.3", "1.2.3.4.5", "1..3.4", "1.2.3.+4",
        " 1.2.3.4", "1.2.3.4 ", "1.2.3.1000", "a.b.c.d", "", "1.2.3.004",
    ] {
        assert_eq!(parse_tcp_input(&format!("{text}:1")), Err(UriError::Address), "{text}");
    }
}

#[test]
fn addresses_read_back() {
    for octet in 0..=255u8 {
        assert_eq!(
            RestfulUri::from_str(&format!("tcp://{octet}.0.{octet}.7:{octet}")),
            Ok(RestfulUri::Tcp(Ipv4Addr::new(octet, 0, octet, 7), octet as u16))
        );
    }
}

#[test]
fn only_the_first_line_counts() {
    assert_eq!(
        RestfulUri::from_str("unix://a\r\nb").unwrap(),
        RestfulUri::Unix("a\r".to_string())
    );
    assert_eq!(RestfulUri::from_str("unix://\nb"), Err(UriError::EmptyPath));
    assert_eq!(RestfulUri::from_str("unix:\n//b"), Err(UriError::SchemeInput));
    assert_eq!(RestfulUri::from_str("none://any\u{e9}thing"), Ok(RestfulUri::Disabled));
    assert_eq!(
        RestfulUri::from_str("unix://\u{e9}\u{20ac}").unwrap(),
        RestfulUri::Unix("\u{e9}\u{20ac}".to_string())
    );
    assert_eq!(RestfulUri::from_str(" unix://a"), Err(UriError::SchemeInput));
}

#[test]
fn copies_are_equal() {
    let uri = RestfulUri::Unix("/tmp/s".to_string());
    assert_eq!(uri.clone(), uri);
}

#[test]
fn decimal_texts() {
    assert_eq!(decimal_text(0), "0");
    assert_eq!(decimal_text(10), "10");
    assert_eq!(decimal_text(1234567890), "1234567890");
    assert_eq!(decimal_text(usize::MAX), format!("{}", usize::MAX));
}
