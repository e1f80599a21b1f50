use proxy_cfg::{parse_addr_default_scheme, Error, ProxyConfig, ProxyDecision, UrlParts};

fn url(s: &str) -> UrlParts {
    UrlParts::parse(s).unwrap()
}

fn config_with(whitelist: &[&str], exclude_simple: bool) -> ProxyConfig {
    let mut c = ProxyConfig::new();
    c.insert_proxy("http".to_string(), "1.1.1.1".to_string());
    c.insert_proxy("https".to_string(), "2.2.2.2".to_string());
    for w in whitelist {
        c.insert_whitelist(w.to_string());
    }
    c.set_exclude_simple(exclude_simple);
    c
}

#[test]
fn test_get_proxy_for_url() {
    let proxy_config = config_with(&["www.devolutions.net", "*.microsoft.com", "*apple.com"], true);

    assert_eq!(proxy_config.get_proxy_for_url(&url("http://simpledomain")), None);
    assert_eq!(proxy_config.get_proxy_for_url(&url("http://simple.domain")), Some("1.1.1.1".into()));
    assert_eq!(proxy_config.get_proxy_for_url(&url("http://www.devolutions.net")), None);
    assert_eq!(proxy_config.get_proxy_for_url(&url("http://www.microsoft.com")), None);
    assert_eq!(proxy_config.get_proxy_for_url(&url("http://www.microsoft.com.fun")), Some("1.1.1.1".into()));
    assert_eq!(proxy_config.get_proxy_for_url(&url("http://test.apple.com")), None);
    assert_eq!(proxy_config.get_proxy_for_url(&url("https://test.apple.net")), Some("2.2.2.2".into()));
}

#[test]
fn simple_host_whitelisted_whatever_the_list() {
    let c = config_with(&[], true);
    assert!(c.is_whitelisted("intranet"));
    assert!(c.is_whitelisted(""));
    assert!(!c.is_whitelisted("intranet.local"));
    let d = config_with(&[], false);
    assert!(!d.is_whitelisted("intranet"));
}

#[test]
fn listed_host_whitelisted() {
    let c = config_with(&["example.org"], false);
    assert!(c.is_whitelisted("example.org"));
    assert!(!c.is_whitelisted("www.example.org"));
}

#[test]
fn wildcard_suffix_needs_the_dot() {
    let c = config_with(&["*.example.com"], false);
    assert!(c.is_whitelisted("a.b.example.com"));
    assert!(!c.is_whitelisted("example.com"));
}

#[test]
fn wildcard_suffix_ignores_label_boundaries() {
    let c = config_with(&["*apple.com"], false);
    assert!(c.is_whitelisted("pineapple.com"));
}

#[test]
fn only_text_after_last_star_counts() {
    let c = config_with(&["foo*bar*.net", "*"], false);
    assert!(c.is_whitelisted("anything.net"));
    assert!(!c.is_whitelisted("anything.org"));
}

#[test]
fn host_is_lowered_before_matching() {
    let c = config_with(&["www.devolutions.net"], false);
    assert_eq!(c.get_proxy_for_url(&url("http://WWW.Devolutions.NET")), None);
    assert!(!c.is_whitelisted("WWW.Devolutions.NET"));
}

#[test]
fn proxy_address_is_lowered() {
    let mut c = ProxyConfig::new();
    c.insert_proxy("http".to_string(), "Proxy.Example.COM:3128".to_string());
    assert_eq!(c.get_proxy_for_url(&url("http://a.b")), Some("proxy.example.com:3128".to_string()));
    assert_eq!(c.proxy("http"), Some("Proxy.Example.COM:3128".to_string()));
}

#[test]
fn decisions_are_told_apart() {
    let c = config_with(&["skip.me"], false);
    assert_eq!(c.decide(&url("ftp://files.example.com")), ProxyDecision::NoProxyForScheme);
    assert_eq!(c.decide(&url("http://skip.me")), ProxyDecision::NoProxyNeeded);
    assert_eq!(c.decide(&url("http://go.example.com")), ProxyDecision::UseProxy("1.1.1.1".to_string()));
    assert_eq!(c.decide(&url("data:text/plain,hello")), ProxyDecision::NoProxyNeeded);
    assert_eq!(c.get_proxy_for_url(&url("ftp://files.example.com")), None);
}

#[test]
fn decide_for_host_takes_lowered_host() {
    let c = config_with(&["skip.me"], false);
    assert_eq!(c.decide_for_host("http", None), ProxyDecision::NoProxyNeeded);
    assert_eq!(c.decide_for_host("http", Some("skip.me")), ProxyDecision::NoProxyNeeded);
    assert_eq!(c.decide_for_host("https", Some("other.me")), ProxyDecision::UseProxy("2.2.2.2".to_string()));
    assert_eq!(c.decide_for_host("gopher", Some("other.me")), ProxyDecision::NoProxyForScheme);
}

#[test]
fn later_proxy_replaces_earlier() {
    let mut c = ProxyConfig::new();
    c.insert_proxy("http".to_string(), "a:1".to_string());
    c.insert_proxy("http".to_string(), "b:2".to_string());
    assert_eq!(c.proxy("http"), Some("b:2".to_string()));
    assert_eq!(c.proxy("https"), None);
}

#[test]
fn normalize_adds_default_scheme() {
    let u = parse_addr_default_scheme("http", "1.2.3.4:8080").unwrap();
    assert_eq!(u.scheme, "http");
    assert_eq!(u.host, Some("1.2.3.4".to_string()));
    assert_eq!(u.port, Some(8080));
    assert_eq!(u.text, "http://1.2.3.4:8080/");
}

#[test]
fn normalize_keeps_explicit_scheme() {
    let u = parse_addr_default_scheme("http", "socks5://1.2.3.4").unwrap();
    assert_eq!(u.scheme, "socks5");
    assert_eq!(u.host, Some("1.2.3.4".to_string()));
}

#[test]
fn normalize_rejects_two_separators() {
    assert_eq!(parse_addr_default_scheme("http", "a://b://c").unwrap_err(), Error::InvalidConfig);
}

#[test]
fn normalize_rejects_unparsable() {
    assert_eq!(parse_addr_default_scheme("http", "[::1").unwrap_err(), Error::InvalidConfig);
    assert_eq!(UrlParts::parse("no scheme here").unwrap_err(), Error::InvalidConfig);
}

#[test]
fn error_messages() {
    assert_eq!(Error::InvalidConfig.message(), "invalid proxy configuration");
    assert_eq!(Error::NoProxyConfigured.message(), "no proxy configured");
}
