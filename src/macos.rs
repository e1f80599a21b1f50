//! macOS proxy settings, as the System Configuration proxy dictionary
//! holds them.

use vstd::prelude::*;
use vstd::string::*;
use crate::config::{ProxyConfig, ProxyConfigView};
use crate::text::{lower_of, lowercase, views_of};

verus! {

/// The settings of one scheme: its `Enable` flag, `Proxy` host and `Port`.
#[derive(Debug, Clone, Default)]
pub struct MacProxyEntry {
    pub enable: Option<i32>,
    pub proxy: Option<String>,
    pub port: Option<i32>,
}

/// The values of the proxy dictionary that decide the configuration.
#[derive(Debug, Clone, Default)]
pub struct MacProxySettings {
    pub http: MacProxyEntry,
    pub https: MacProxyEntry,
    pub ftp: MacProxyEntry,
    /// `ExcludeSimpleHostnames`.
    pub exclude_simple: Option<i32>,
    /// `ExceptionsList`.
    pub exceptions: Option<Vec<String>>,
}

/// The decimal digit for `d`.
pub open spec fn digit_char(d: nat) -> char {
    if d == 0 {
        '0'
    } else if d == 1 {
        '1'
    } else if d == 2 {
        '2'
    } else if d == 3 {
        '3'
    } else if d == 4 {
        '4'
    } else if d == 5 {
        '5'
    } else if d == 6 {
        '6'
    } else if d == 7 {
        '7'
    } else if d == 8 {
        '8'
    } else {
        '9'
    }
}

/// The decimal digits of `n`, without leading zeros.
pub open spec fn digits(n: nat) -> Seq<char>
    decreases n,
{
    if n < 10 {
        seq![digit_char(n)]
    } else {
        digits(n / 10).push(digit_char(n % 10))
    }
}

/// `n` written in decimal, with a `-` before a negative number.
pub open spec fn decimal_text(n: int) -> Seq<char> {
    if n < 0 {
        seq!['-'] + digits((-n) as nat)
    } else {
        digits(n as nat)
    }
}

/// Relies on `i32`'s `Display`, through `to_string`: the number in decimal,
/// with a leading `-` where it is negative.
#[verifier::external_body]
fn port_text(n: i32) -> (r: String)
    ensures
        r@ == decimal_text(n as int),
{
    n.to_string()
}

/// The address of an entry: its host, then `:` and its port where it has one.
pub open spec fn entry_address(e: MacProxyEntry) -> Seq<char> {
    let host = match e.proxy {
        Some(h) => h@,
        None => Seq::<char>::empty(),
    };
    match e.port {
        Some(p) => host + seq![':'] + decimal_text(p as int),
        None => host,
    }
}

/// `m` with the entry's address for `scheme` where the entry is enabled.
pub open spec fn with_entry(m: Map<Seq<char>, Seq<char>>, scheme: Seq<char>, e: MacProxyEntry) -> Map<Seq<char>, Seq<char>> {
    if e.enable == Some(1i32) {
        m.insert(scheme, entry_address(e))
    } else {
        m
    }
}

/// The configuration that the settings give.
pub open spec fn mac_config(s: MacProxySettings) -> ProxyConfigView {
    ProxyConfigView {
        proxies: with_entry(
            with_entry(with_entry(Map::empty(), "http"@, s.http), "https"@, s.https),
            "ftp"@,
            s.ftp,
        ),
        whitelist: match s.exceptions {
            Some(v) => views_of(v@).map_values(|x: Seq<char>| lower_of(x)).to_set(),
            None => Set::empty(),
        },
        exclude_simple: s.exclude_simple == Some(1i32),
    }
}

/// The address of an entry.
fn address_of(e: &MacProxyEntry) -> (r: String)
    ensures
        r@ == entry_address(*e),
{
    let mut addr = match &e.proxy {
        Some(h) => h.clone(),
        None => String::new(),
    };
    if let Some(p) = e.port {
        let colon = ":";
        proof {
            reveal_strlit(":");
        }
        addr.append(colon);
        let digits = port_text(p);
        addr.append(digits.as_str());
        assert(addr@ =~= entry_address(*e));
    }
    addr
}

/// Every entry of `v`, lowered.
fn lowered_all(v: &Vec<String>) -> (r: Vec<String>)
    ensures
        views_of(r@) == views_of(v@).map_values(|x: Seq<char>| lower_of(x)),
{
    let mut out: Vec<String> = Vec::new();
    let mut i: usize = 0;
    while i < v.len()
        invariant
            i <= v@.len(),
            views_of(out@) == views_of(v@).subrange(0, i as int).map_values(|x: Seq<char>| lower_of(x)),
        decreases v@.len() - i,
    {
        let ghost before = views_of(out@);
        out.push(lowercase(v[i].as_str()));
        assert(views_of(out@) =~= before.push(lower_of(v@[i as int]@)));
        assert(views_of(v@).subrange(0, i + 1).map_values(|x: Seq<char>| lower_of(x)) =~= views_of(v@).subrange(0, i as int).map_values(|x: Seq<char>| lower_of(x)).push(lower_of(v@[i as int]@)));
        i = i + 1;
    }
    assert(views_of(v@).subrange(0, v@.len() as int) =~= views_of(v@));
    out
}

/// The proxy configuration that the macOS proxy settings give.
///
/// Each of `http`, `https` and `ftp` whose `Enable` flag is 1 gets its
/// host, with `:port` after it where a port is set. `ExcludeSimpleHostnames`
/// set to 1 excludes simple hosts, and the exceptions, lowered, form the
/// whitelist.
pub fn get_proxy_config_from_settings(settings: &MacProxySettings) -> (r: ProxyConfig)
    ensures
        r@ == mac_config(*settings),
{
    let mut config = ProxyConfig::new();
    if settings.http.enable == Some(1i32) {
        config.insert_proxy("http".to_owned(), address_of(&settings.http));
    }
    if settings.https.enable == Some(1i32) {
        config.insert_proxy("https".to_owned(), address_of(&settings.https));
    }
    if settings.ftp.enable == Some(1i32) {
        config.insert_proxy("ftp".to_owned(), address_of(&settings.ftp));
    }
    if settings.exclude_simple == Some(1i32) {
        config.set_exclude_simple(true);
    }
    if let Some(list) = &settings.exceptions {
        config.extend_whitelist(lowered_all(list));
    }
    let ghost want = mac_config(*settings);
    assert(config@.proxies =~= want.proxies);
    assert(config@.whitelist =~= want.whitelist);
    config
}

} // verus!
