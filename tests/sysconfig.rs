use proxy_cfg::sysconfig::{get_proxy_config_from_contents, lookup_value, read_key_value_pairs, strip_after_quote};
use proxy_cfg::Error;

#[test]
fn test_read_key_value_pairs_from_file() {
    let map = read_key_value_pairs("\nfoo=\"bar\"\nbaz=\"quux\"\n\nspam=\"eggs\"\n\n").unwrap();
    assert!(lookup_value(&map, "foo").unwrap() == "bar");
    assert!(lookup_value(&map, "baz").unwrap() == "quux");
    assert!(lookup_value(&map, "spam").unwrap() == "eggs");

    assert!(read_key_value_pairs("\nfoo=\"bar\"\nbaz \"quux\"\n\nspam=\"eggs\"\n\n").is_err());
}

#[test]
fn test_get_proxy_config() {
    let file = "HTTP_PROXY=\"http://1.2.3.4\"\nHTTPS_PROXY=\"https://1.2.3.4:8000\"";
    assert!(get_proxy_config_from_contents(file).is_err());

    let file = "HTTP_PROXY=\"http://1.2.3.4\"\nHTTPS_PROXY=\"https://1.2.3.4:8000\"\nPROXY_ENABLED=\"no\"";
    assert!(get_proxy_config_from_contents(file).is_ok());

    let file = "HTTP_PROXY=\"http://1.2.3.4\"\nHTTPS_PROXY=\"https://1.2.3.4:8000\"\nPROXY_ENABLED=\"yes\"";
    let config = get_proxy_config_from_contents(file).unwrap();
    assert_eq!(config.proxy("http").unwrap(), "http://1.2.3.4");
    assert_eq!(config.proxy("https").unwrap(), "https://1.2.3.4:8000");
}

#[test]
fn test_whitelist() {
    let file = "HTTP_PROXY=\"http://1.2.3.4\"\nHTTPS_PROXY=\"https://1.2.3.4:8000\"\nNO_PROXY=\"localhost,1.2.3.4,5.6.7.8\"\nPROXY_ENABLED=\"yes\"";
    let config = get_proxy_config_from_contents(file).unwrap();
    for no_proxy in ["localhost", "1.2.3.4", "5.6.7.8"] {
        assert!(config.whitelist_contains(no_proxy), "Expecting no proxy element to be one of \"localhost\", \"1.2.3.4\" or \"5.6.7.8\"");
    }
    assert!(!config.whitelist_contains("localhost,1.2.3.4,5.6.7.8"));
}

#[test]
fn test_unquote() {
    assert_eq!(strip_after_quote("foo"), "foo");
    assert_eq!(strip_after_quote("\"foo\""), "");
    assert_eq!(strip_after_quote("\"foo bar"), "");
    assert_eq!(strip_after_quote("foo\"bar"), "foo");
}

#[test]
fn test_with_example_from_specification() {
    let file = "\nPROXY_ENABLED=\"yes\"\n\nHTTP_PROXY=\"http://192.168.0.1\"\nHTTPS_PROXY=\"http://192.168.0.1\"\nFTP_PROXY=\"http://192.168.0.1\"\nNO_PROXY=\"localhost, 127.0.0.1\"\n";
    let config = get_proxy_config_from_contents(file).unwrap();
    assert_eq!(config.proxy("http").unwrap(), "http://192.168.0.1");
    assert_eq!(config.proxy("https").unwrap(), "http://192.168.0.1");
    assert_eq!(config.proxy("ftp").unwrap(), "http://192.168.0.1");
    assert!(config.whitelist_contains("localhost"));
    assert!(config.whitelist_contains("127.0.0.1"));
}

#[test]
fn test_file_without_quoting() {
    let file = "PROXY_ENABLED=\"yes\"\nHTTP_PROXY=http://localhost";
    match get_proxy_config_from_contents(file) {
        Err(_) => (),
        _ => assert!(false),
    }
}

#[test]
fn sysconfig_end_to_end() {
    let file = "PROXY_ENABLED=\"yes\"\nHTTP_PROXY=\"http://192.168.0.1\"\nNO_PROXY=\"localhost, 127.0.0.1\"";
    let config = get_proxy_config_from_contents(file).unwrap();
    assert_eq!(config.proxy("http").unwrap(), "http://192.168.0.1");
    assert_eq!(config.proxy("https"), None);
    assert!(config.whitelist_contains("localhost"));
    assert!(config.whitelist_contains("127.0.0.1"));
    assert!(!config.whitelist_contains(" 127.0.0.1"));
}

#[test]
fn malformed_files_are_invalid() {
    assert_eq!(get_proxy_config_from_contents("HTTP_PROXY=\"x\"").unwrap_err(), Error::InvalidConfig);
    assert_eq!(get_proxy_config_from_contents("PROXY_ENABLED=\"yes\"\nnonsense").unwrap_err(), Error::InvalidConfig);
    assert_eq!(get_proxy_config_from_contents("PROXY_ENABLED=\"maybe\"").unwrap_err(), Error::InvalidConfig);
}

#[test]
fn disabled_file_gives_empty_config() {
    let config = get_proxy_config_from_contents("PROXY_ENABLED=\"no\"\nHTTP_PROXY=\"http://a\"").unwrap();
    assert_eq!(config.proxy("http"), None);
    assert!(!config.exclude_simple());
}

#[test]
fn crlf_lines_and_later_keys() {
    let file = "PROXY_ENABLED=\"yes\"\r\n\r\nHTTP_PROXY=\"http://a\"\r\nHTTP_PROXY=\"http://b\" trailing\r\nNO_PROXY=\"Example.COM,,\"\r\n";
    let config = get_proxy_config_from_contents(file).unwrap();
    assert_eq!(config.proxy("http").unwrap(), "http://b");
    assert!(config.whitelist_contains("example.com"));
    assert!(config.whitelist_contains(""));
}
