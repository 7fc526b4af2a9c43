use user_service::config::{Config, parse_port};

#[test]
fn port_parsing_accepts_decimal() {
    assert_eq!(parse_port("8080"), Some(8080));
    assert_eq!(parse_port("+123"), Some(123));
    assert_eq!(parse_port("0"), Some(0));
    assert_eq!(parse_port("65535"), Some(65535));
}

#[test]
fn port_parsing_rejects_everything_else() {
    assert_eq!(parse_port(""), None);
    assert_eq!(parse_port("+"), None);
    assert_eq!(parse_port("80a"), None);
    assert_eq!(parse_port("-1"), None);
    assert_eq!(parse_port("65536"), None);
    assert_eq!(parse_port(" 80"), None);
}

#[test]
fn defaults_apply_when_values_are_missing_or_bad() {
    let c = Config::from_parts("postgres://db/app".to_string(), None, None);
    assert_eq!(c.database_url, "postgres://db/app");
    assert_eq!(c.server_host, "0.0.0.0");
    assert_eq!(c.server_port, 3000);

    let c = Config::from_parts(
        "postgres://db/app".to_string(),
        Some("127.0.0.1".to_string()),
        Some("not-a-port".to_string()),
    );
    assert_eq!(c.server_host, "127.0.0.1");
    assert_eq!(c.server_port, 3000);

    let c = Config::from_parts(
        "postgres://db/app".to_string(),
        Some("127.0.0.1".to_string()),
        Some("8080".to_string()),
    );
    assert_eq!(c.server_port, 8080);
}

#[test]
fn server_addr_joins_host_and_port() {
    let c = Config::from_parts(
        "postgres://db/app".to_string(),
        Some("127.0.0.1".to_string()),
        Some("8080".to_string()),
    );
    assert_eq!(c.server_addr(), "127.0.0.1:8080");

    let c = Config::from_parts("postgres://db/app".to_string(), None, None);
    assert_eq!(c.server_addr(), "0.0.0.0:3000");
}
