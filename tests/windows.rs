use proxy_cfg::windows::{
    autoconfig_type, choose_windows_config, parse_bypass_list, parse_proxy_list, win_http_proxy_config,
    win_inet_is_per_user, win_inet_proxy_config, win_inet_scope_config,
};
use proxy_cfg::{AutoconfigKind, ProxyConfig};

fn get<'a>(pairs: &'a [(String, String)], key: &str) -> Option<&'a String> {
    pairs.iter().find(|p| p.0 == key).map(|p| &p.1)
}

#[test]
fn parse_exceptions_test() {
    let bypass_list = "  <local>;.microsoft.com  ;  192.168.*.* 172.16.10.*";
    let parsed = parse_bypass_list(bypass_list);
    assert_eq!(parsed, vec!["<local>", ".microsoft.com", "192.168.*.*", "172.16.10.*"])
}

#[test]
fn parse_proxies_test() {
    let hm = parse_proxy_list("http=1.2.3.4:80");
    assert_eq!(1, hm.len());
    assert_eq!("1.2.3.4:80", get(&hm, "http").unwrap());

    let hm = parse_proxy_list("1.2.3.4;https=http://8.8.8.8");
    assert_eq!(2, hm.len());
    assert_eq!("1.2.3.4", get(&hm, "http").unwrap());
    assert_eq!("http://8.8.8.8", get(&hm, "https").unwrap());

    let hm = parse_proxy_list("http://1.2.3.4;https=8.8.8.8   http=9.8.7.6:123");
    assert_eq!(2, hm.len());
    assert_eq!("9.8.7.6:123", get(&hm, "http").unwrap());
}

#[test]
fn entries_with_two_equals_are_ignored() {
    let hm = parse_proxy_list("a=b=c; ;\t;ftp=f:21");
    assert_eq!(hm, vec![("ftp".to_string(), "f:21".to_string())]);
}

#[test]
fn bypass_list_is_lowered() {
    assert_eq!(parse_bypass_list("Intranet.CORP;;"), vec!["intranet.corp"]);
}

#[test]
fn autoconfig_bits() {
    let mut bytes = vec![0u8; 9];
    assert_eq!(autoconfig_type(&bytes), None);
    bytes[8] = 0x05;
    assert_eq!(autoconfig_type(&bytes), Some(AutoconfigKind::Pac));
    bytes[8] = 0x09;
    assert_eq!(autoconfig_type(&bytes), Some(AutoconfigKind::Wpad));
    bytes[8] = 0x0D;
    assert_eq!(autoconfig_type(&bytes), Some(AutoconfigKind::Pac));
    assert_eq!(autoconfig_type(&vec![0xFFu8; 8]), None);
}

#[test]
fn win_inet_scope_values() {
    assert!(win_inet_proxy_config(Some(0), Some("1.2.3.4:80"), None).is_none());
    assert!(win_inet_proxy_config(Some(1), None, None).is_none());
    assert!(win_inet_proxy_config(Some(1), Some(" ; "), None).is_none());
    let c = win_inet_proxy_config(Some(1), Some("1.2.3.4:80"), Some("<local>;*.corp")).unwrap();
    assert_eq!(c.proxy("http").unwrap(), "1.2.3.4:80");
    assert!(c.exclude_simple());
    assert!(c.whitelist_contains("*.corp"));
    assert!(c.is_whitelisted("printer"));
}

#[test]
fn autoconfig_disables_scope() {
    let pac = vec![0u8, 0, 0, 0, 0, 0, 0, 0, 0x05];
    assert!(win_inet_scope_config(Some(&pac), Some(1), Some("1.2.3.4:80"), None).is_none());
    let plain = vec![0u8, 0, 0, 0, 0, 0, 0, 0, 0x03];
    assert!(win_inet_scope_config(Some(&plain), Some(1), Some("1.2.3.4:80"), None).is_some());
    assert!(win_inet_scope_config(None, Some(1), Some("1.2.3.4:80"), None).is_some());
}

#[test]
fn win_http_default() {
    assert!(win_http_proxy_config(false, Some("1.2.3.4"), None).is_none());
    assert!(win_http_proxy_config(true, None, None).is_none());
    let c = win_http_proxy_config(true, Some("https=5.6.7.8:443"), Some("<local>")).unwrap();
    assert_eq!(c.proxy("https").unwrap(), "5.6.7.8:443");
    assert!(c.exclude_simple());
}

#[test]
fn scope_precedence() {
    let cfg = |a: &str| {
        let mut c = ProxyConfig::new();
        c.insert_proxy("http".to_string(), a.to_string());
        c
    };
    assert!(win_inet_is_per_user(None));
    assert!(win_inet_is_per_user(Some(1)));
    assert!(!win_inet_is_per_user(Some(0)));
    let r = choose_windows_config(Some(cfg("user")), true, Some(cfg("machine")), Some(cfg("http")));
    assert_eq!(r.proxy("http").unwrap(), "user");
    let r = choose_windows_config(Some(cfg("user")), false, Some(cfg("machine")), None);
    assert_eq!(r.proxy("http").unwrap(), "machine");
    let r = choose_windows_config(None, true, Some(cfg("machine")), None);
    assert_eq!(r.proxy("http").unwrap(), "machine");
    let r = choose_windows_config(None, true, None, Some(cfg("http")));
    assert_eq!(r.proxy("http").unwrap(), "http");
    let r = choose_windows_config(None, true, None, None);
    assert_eq!(r.proxy("http"), None);
}

#[test]
fn proxy_list_schemes_are_lowered() {
    let hm = parse_proxy_list("HTTPS=Secure.Example:443");
    assert_eq!(hm, vec![("https".to_string(), "Secure.Example:443".to_string())]);
}
