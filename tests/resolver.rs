use proxy_cfg::{get_proxy_config, Error, ProxyConfig};

fn config(scheme: &str, addr: &str) -> ProxyConfig {
    let mut c = ProxyConfig::new();
    c.insert_proxy(scheme.to_string(), addr.to_string());
    c
}

#[test]
fn smoke_test_get_proxies() {
    let _ = get_proxy_config(vec![]);
}

#[test]
fn no_source_is_platform_not_supported() {
    assert_eq!(get_proxy_config(vec![]).unwrap_err(), Error::PlatformNotSupported);
}

#[test]
fn first_success_wins() {
    let r = get_proxy_config(vec![Ok(config("http", "env:1")), Ok(config("http", "file:2"))]).unwrap();
    assert_eq!(r.proxy("http"), Some("env:1".to_string()));
}

#[test]
fn falls_back_after_failure() {
    let r = get_proxy_config(vec![Err(Error::NoProxyConfigured), Ok(config("http", "file:2"))]).unwrap();
    assert_eq!(r.proxy("http"), Some("file:2".to_string()));
}

#[test]
fn exhaustion_reports_last_error() {
    let r = get_proxy_config(vec![Err(Error::NoProxyConfigured), Err(Error::Os), Err(Error::InvalidConfig)]);
    assert_eq!(r.unwrap_err(), Error::InvalidConfig);
}

#[test]
fn smoke_test_get_proxy_for_url() {
    let proxy_config = get_proxy_config(vec![Err(Error::NoProxyConfigured), Ok(ProxyConfig::new())]).unwrap();
    let _ = proxy_config.get_proxy_for_url(&proxy_cfg::UrlParts::parse("https://google.com").unwrap());
}
