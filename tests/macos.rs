use proxy_cfg::macos::{get_proxy_config_from_settings, MacProxyEntry, MacProxySettings};

#[test]
fn get_proxy_config_test() {
    let _ = get_proxy_config_from_settings(&MacProxySettings::default());
}

#[test]
fn mac_settings_to_config() {
    let settings = MacProxySettings {
        http: MacProxyEntry { enable: Some(1), proxy: Some("proxy.local".to_string()), port: Some(3128) },
        https: MacProxyEntry { enable: Some(0), proxy: Some("x".to_string()), port: None },
        ftp: MacProxyEntry { enable: Some(1), proxy: None, port: Some(-21) },
        exclude_simple: Some(1),
        exceptions: Some(vec!["*.Local".to_string(), "169.254/16".to_string()]),
    };
    let c = get_proxy_config_from_settings(&settings);
    assert_eq!(c.proxy("http").unwrap(), "proxy.local:3128");
    assert_eq!(c.proxy("https"), None);
    assert_eq!(c.proxy("ftp").unwrap(), ":-21");
    assert!(c.exclude_simple());
    assert!(c.whitelist_contains("*.local"));
    assert!(c.whitelist_contains("169.254/16"));
}
