use control::protocol::{parse_decimal, parse_pidfile, parse_request, pidfile_contents, reply, request_line, Request};

#[test]
fn requests() {
    assert!(matches!(parse_request("start web"), Request::Start(n) if n == "web"));
    assert!(matches!(parse_request("stop db extra"), Request::Stop(n) if n == "db"));
    assert!(matches!(parse_request("start"), Request::Start(n) if n.is_empty()));
    assert!(matches!(parse_request("status web"), Request::Other));
    assert!(matches!(parse_request(""), Request::Other));
    assert_eq!(request_line("start", "web"), "start web");
}

#[test]
fn replies() {
    assert_eq!(reply(0), b"0".to_vec());
    assert_eq!(reply(1234), b"1234".to_vec());
    assert_eq!(reply(-7), b"-7".to_vec());
    assert_eq!(reply(i32::MIN), b"-2147483648".to_vec());
    assert_eq!(pidfile_contents(42), b"42\n".to_vec());
}

#[test]
fn decimals() {
    assert_eq!(parse_decimal(b"1234"), Some(1234));
    assert_eq!(parse_decimal(b"+5"), Some(5));
    assert_eq!(parse_decimal(b"-2147483648"), Some(i32::MIN));
    assert_eq!(parse_decimal(b"2147483647"), Some(i32::MAX));
    assert_eq!(parse_decimal(b"2147483648"), None);
    assert_eq!(parse_decimal(b"99999999999999999999"), None);
    assert_eq!(parse_decimal(b""), None);
    assert_eq!(parse_decimal(b"-"), None);
    assert_eq!(parse_decimal(b"12a"), None);
    assert_eq!(parse_decimal(b"007"), Some(7));
    for v in [0, 1, -1, 99, 4096, i32::MAX, i32::MIN] {
        assert_eq!(parse_decimal(&reply(v)), Some(v));
    }
}

#[test]
fn pidfiles() {
    assert_eq!(parse_pidfile(b"42\n"), Some(42));
    assert_eq!(parse_pidfile(b"42 \t\r\n"), Some(42));
    assert_eq!(parse_pidfile(b" 42"), None);
    assert_eq!(parse_pidfile(b""), None);
    assert_eq!(parse_pidfile(b"junk\n"), None);
    assert_eq!(parse_pidfile(&pidfile_contents(31337)), Some(31337));
}
