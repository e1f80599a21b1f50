//! Windows proxy settings: the WinINet registry values of one scope and the
//! WinHTTP default, and the precedence between them.

use vstd::prelude::*;
use vstd::string::*;
use crate::config::{lookup_last, proxy_map, ProxyConfig, ProxyConfigView};
use crate::errors::AutoconfigKind;
use crate::text::{lemma_split_seq_nonempty, cleaned, list_entries, lower_of, lowercase, same_text, split_seq, split_text, trim, trim_of, views_of};

verus! {

/// The characters that delimit entries of a proxy or bypass list.
pub open spec fn list_separators() -> Seq<char> {
    seq![' ', ';']
}

/// The entries of a bypass list, trimmed and lowered, empty ones dropped.
pub open spec fn bypass_entries(list: Seq<char>) -> Seq<Seq<char>> {
    cleaned(split_seq(list, list_separators()), true)
}

/// Splits a bypass list at spaces and semicolons; each entry is trimmed and
/// lowered, and empty ones are dropped. `<local>` stands for every simple host.
pub fn parse_bypass_list(list: &str) -> (r: Vec<String>)
    ensures
        views_of(r@) == bypass_entries(list@),
{
    let seps = vec![' ', ';'];
    assert(seps@ =~= list_separators());
    list_entries(list, &seps, true)
}

/// The scheme and address that one proxy list entry gives: a bare address
/// is for `http`, `scheme=address` for its scheme, lowered, and an entry
/// with more than one `=` gives nothing.
pub open spec fn proxy_entry(entry: Seq<char>) -> Option<(Seq<char>, Seq<char>)> {
    let parts = split_seq(entry, seq!['=']);
    if parts.len() == 1 {
        Some(("http"@, parts[0]))
    } else if parts.len() == 2 {
        Some((lower_of(parts[0]), parts[1]))
    } else {
        None
    }
}

/// The scheme-to-address map of a list's pieces, later entries winning.
pub open spec fn proxy_list_map(pieces: Seq<Seq<char>>) -> Map<Seq<char>, Seq<char>>
    decreases pieces.len(),
{
    if pieces.len() == 0 {
        Map::empty()
    } else {
        let m = proxy_list_map(pieces.drop_last());
        let t = trim_of(pieces.last());
        if t.len() == 0 {
            m
        } else {
            match proxy_entry(t) {
                Some(kv) => m.insert(kv.0, kv.1),
                None => m,
            }
        }
    }
}

/// The scheme-to-address map of a proxy list.
pub open spec fn proxy_list(list: Seq<char>) -> Map<Seq<char>, Seq<char>> {
    proxy_list_map(split_seq(list, list_separators()))
}

/// No two pairs share a scheme.
pub open spec fn keys_unique(v: Seq<(String, String)>) -> bool {
    forall|i: int, j: int| 0 <= i < j < v.len() ==> v[i].0@ != v[j].0@
}

/// With distinct schemes, the address of a scheme is the one beside it.
proof fn lemma_lookup_unique(v: Seq<(String, String)>, k: Seq<char>)
    requires
        keys_unique(v),
    ensures
        forall|j: int| 0 <= j < v.len() && v[j].0@ == k ==> lookup_last(v, k) == Some(v[j].1@),
        (forall|j: int| 0 <= j < v.len() ==> v[j].0@ != k) ==> lookup_last(v, k) is None,
    decreases v.len(),
{
    if v.len() > 0 {
        let init = v.drop_last();
        assert(keys_unique(init));
        lemma_lookup_unique(init, k);
        assert forall|j: int| 0 <= j < v.len() && v[j].0@ == k implies lookup_last(v, k) == Some(v[j].1@) by {
            if j < v.len() - 1 {
                assert(init[j] == v[j]);
            }
        }
        if forall|j: int| 0 <= j < v.len() ==> v[j].0@ != k {
            assert(v.last().0@ != k);
            assert forall|j: int| 0 <= j < init.len() implies init[j].0@ != k by {
                assert(init[j] == v[j]);
            }
        }
    }
}

/// Sets `addr` for `scheme`, replacing the pair of that scheme if there is one.
fn upsert(v: &mut Vec<(String, String)>, scheme: String, addr: String)
    requires
        keys_unique(old(v)@),
    ensures
        keys_unique(final(v)@),
        proxy_map(final(v)@) == proxy_map(old(v)@).insert(scheme@, addr@),
{
    let ghost s = scheme@;
    let ghost a = addr@;
    let ghost before = v@;
    let mut j: usize = 0;
    while j < v.len() && !same_text(v[j].0.as_str(), scheme.as_str())
        invariant
            v@ == before,
            scheme@ == s,
            j <= v@.len(),
            forall|i: int| 0 <= i < j ==> v@[i].0@ != s,
        decreases v@.len() - j,
    {
        j = j + 1;
    }
    proof {
        lemma_lookup_unique(before, s);
    }
    if j < v.len() {
        v[j] = (scheme, addr);
    } else {
        v.push((scheme, addr));
    }
    let ghost after = v@;
    assert(keys_unique(after)) by {
        assert forall|p: int, q: int| 0 <= p < q < after.len() implies after[p].0@ != after[q].0@ by {
            if p != j && q != j {
                assert(after[p] == before[p] && after[q] == before[q]);
            } else if p == j {
                assert(after[q] == before[q]);
            } else {
                assert(after[p] == before[p]);
            }
        }
    }
    assert forall|k: Seq<char>| #[trigger] lookup_last(after, k) == proxy_map(before).insert(s, a).get(k) by {
        lemma_lookup_unique(after, k);
        lemma_lookup_unique(before, k);
        if k == s {
            assert(after[j as int].0@ == s);
        } else {
            if exists|i: int| 0 <= i < before.len() && before[i].0@ == k {
                let i = choose|i: int| 0 <= i < before.len() && before[i].0@ == k;
                assert(after[i] == before[i]);
            } else {
                assert forall|i: int| 0 <= i < after.len() implies after[i].0@ != k by {
                    if i != j {
                        assert(after[i] == before[i]);
                    }
                }
            }
        }
    }
    assert(proxy_map(after) =~= proxy_map(before).insert(s, a));
}

/// Splits a proxy list at spaces and semicolons into scheme and address
/// pairs, one per scheme.
///
/// Each trimmed, non-empty entry is `address` (for `http`) or
/// `scheme=address`, whose scheme is lowered; an entry with more than one `=` is ignored, and a
/// later entry for a scheme replaces an earlier one.
pub fn parse_proxy_list(list: &str) -> (r: Vec<(String, String)>)
    ensures
        keys_unique(r@),
        proxy_map(r@) == proxy_list(list@),
{
    let seps = vec![' ', ';'];
    assert(seps@ =~= list_separators());
    let eq = vec!['='];
    assert(eq@ =~= seq!['=']);
    let pieces = split_text(list, &seps);
    let ghost pv = views_of(pieces@);
    let mut out: Vec<(String, String)> = Vec::new();
    let mut i: usize = 0;
    assert(pv.subrange(0, 0) =~= Seq::<Seq<char>>::empty());
    assert(proxy_map(out@) =~= Map::<Seq<char>, Seq<char>>::empty());
    while i < pieces.len()
        invariant
            i <= pieces@.len(),
            pv == views_of(pieces@),
            pv == split_seq(list@, list_separators()),
            eq@ == seq!['='],
            keys_unique(out@),
            proxy_map(out@) == proxy_list_map(pv.subrange(0, i as int)),
        decreases pieces@.len() - i,
    {
        assert(pv.subrange(0, i + 1).drop_last() =~= pv.subrange(0, i as int));
        assert(pv.subrange(0, i + 1).last() == pieces@[i as int]@);
        let t = trim(pieces[i].as_str());
        if t.unicode_len() > 0 {
            let parts = split_text(t, &eq);
            proof {
                lemma_split_seq_nonempty(t@, seq!['=']);
            }
            assert(views_of(parts@)[0] == parts@[0]@);
            if parts.len() == 1 {
                upsert(&mut out, "http".to_owned(), parts[0].clone());
            } else if parts.len() == 2 {
                assert(views_of(parts@)[1] == parts@[1]@);
                upsert(&mut out, lowercase(parts[0].as_str()), parts[1].clone());
            }
        }
        i = i + 1;
    }
    assert(pv.subrange(0, pieces@.len() as int) =~= pv);
    out
}

/// The script-driven configuration that `DefaultConnectionSettings` marks
/// as active: byte 9 has bit 2 set for a script, bit 3 for discovery.
pub open spec fn autoconfig_of(settings: Seq<u8>) -> Option<AutoconfigKind> {
    if settings.len() > 8 {
        if settings[8] & 4u8 == 4u8 {
            Some(AutoconfigKind::Pac)
        } else if settings[8] & 8u8 == 8u8 {
            Some(AutoconfigKind::Wpad)
        } else {
            None
        }
    } else {
        None
    }
}

/// Reads which script-driven configuration, if any, the bytes of
/// `DefaultConnectionSettings` mark as active.
pub fn autoconfig_type(settings: &Vec<u8>) -> (r: Option<AutoconfigKind>)
    ensures
        r == autoconfig_of(settings@),
{
    if settings.len() > 8 {
        let b = settings[8];
        if b & 4u8 == 4u8 {
            Some(AutoconfigKind::Pac)
        } else if b & 8u8 == 8u8 {
            Some(AutoconfigKind::Wpad)
        } else {
            None
        }
    } else {
        None
    }
}

/// The configuration of a proxy list and a bypass list: none where the
/// proxy list names no proxy. `<local>` in the bypass list excludes simple
/// hosts.
pub open spec fn lists_config(server: Seq<char>, bypass: Option<Seq<char>>) -> Option<ProxyConfigView> {
    if proxy_list(server) == Map::<Seq<char>, Seq<char>>::empty() {
        None
    } else {
        let whitelist = match bypass {
            Some(b) => bypass_entries(b).to_set(),
            None => Set::<Seq<char>>::empty(),
        };
        Some(
            ProxyConfigView {
                proxies: proxy_list(server),
                whitelist: whitelist,
                exclude_simple: whitelist.contains("<local>"@),
            },
        )
    }
}

/// The view of an optional configuration.
pub open spec fn opt_view(c: Option<ProxyConfig>) -> Option<ProxyConfigView> {
    match c {
        Some(x) => Some(x@),
        None => None,
    }
}

/// The text of an optional string.
pub open spec fn text_opt(s: Option<&str>) -> Option<Seq<char>> {
    match s {
        Some(x) => Some(x@),
        None => None,
    }
}

/// The configuration of one WinINet scope's values.
pub open spec fn win_inet_config(enable: Option<u32>, server: Option<Seq<char>>, bypass: Option<Seq<char>>) -> Option<ProxyConfigView> {
    if enable == Some(1u32) {
        match server {
            Some(s) => lists_config(s, bypass),
            None => None,
        }
    } else {
        None
    }
}

/// The configuration of a proxy list and an optional bypass list.
pub fn config_from_lists(server: &str, bypass: Option<&str>) -> (r: Option<ProxyConfig>)
    ensures
        opt_view(r) == lists_config(server@, text_opt(bypass)),
{
    let pairs = parse_proxy_list(server);
    if pairs.len() == 0 {
        assert(proxy_map(pairs@) =~= Map::<Seq<char>, Seq<char>>::empty());
        return None;
    }
    proof {
        lemma_lookup_unique(pairs@, pairs@[0].0@);
        assert(proxy_map(pairs@).contains_key(pairs@[0].0@));
    }
    let mut config = ProxyConfig::from_proxies(pairs);
    match bypass {
        Some(b) => {
            config.extend_whitelist(parse_bypass_list(b));
            assert(config@.whitelist =~= bypass_entries(b@).to_set());
        },
        None => {},
    }
    let local = config.whitelist_contains("<local>");
    config.set_exclude_simple(local);
    Some(config)
}

/// The configuration of one WinINet registry scope, from its values
/// `ProxyEnable`, `ProxyServer` and `ProxyOverride`: none unless
/// `ProxyEnable` is 1 and `ProxyServer` names a proxy.
pub fn win_inet_proxy_config(enable: Option<u32>, server: Option<&str>, bypass: Option<&str>) -> (r: Option<ProxyConfig>)
    ensures
        opt_view(r) == win_inet_config(enable, text_opt(server), text_opt(bypass)),
{
    if enable != Some(1u32) {
        return None;
    }
    match server {
        Some(s) => config_from_lists(s, bypass),
        None => None,
    }
}

/// The configuration of one WinINet registry scope: none where its
/// `DefaultConnectionSettings` mark a script or discovery as active, for
/// static resolution cannot follow them; else that of its values.
pub fn win_inet_scope_config(
    connection_settings: Option<&Vec<u8>>,
    enable: Option<u32>,
    server: Option<&str>,
    bypass: Option<&str>,
) -> (r: Option<ProxyConfig>)
    ensures
        match connection_settings {
            Some(b) => autoconfig_of(b@) is Some,
            None => false,
        } ==> r is None,
        !match connection_settings {
            Some(b) => autoconfig_of(b@) is Some,
            None => false,
        } ==> opt_view(r) == win_inet_config(enable, text_opt(server), text_opt(bypass)),
{
    match connection_settings {
        Some(b) => {
            if autoconfig_type(b).is_some() {
                return None;
            }
        },
        None => {},
    }
    win_inet_proxy_config(enable, server, bypass)
}

/// The configuration of the WinHTTP default proxy: none unless it is a
/// named proxy whose list names a proxy.
pub fn win_http_proxy_config(named_proxy: bool, proxy: Option<&str>, bypass: Option<&str>) -> (r: Option<ProxyConfig>)
    ensures
        opt_view(r) == if named_proxy {
            match proxy {
                Some(p) => lists_config(p@, text_opt(bypass)),
                None => None,
            }
        } else {
            None
        },
{
    if !named_proxy {
        return None;
    }
    match proxy {
        Some(p) => config_from_lists(p, bypass),
        None => None,
    }
}

/// Whether the per-user WinINet settings apply, given the policy value
/// `ProxySettingsPerUser`: they do unless it is 0.
pub fn win_inet_is_per_user(policy: Option<u32>) -> (r: bool)
    ensures
        r == (policy != Some(0u32)),
{
    policy != Some(0u32)
}

/// Chooses among the Windows sources.
///
/// The machine scope is used where the policy makes settings machine-wide
/// or the user scope has none; otherwise the user scope; then the WinHTTP
/// default; and where none has a configuration, the empty one.
pub fn choose_windows_config(
    user: Option<ProxyConfig>,
    per_user: bool,
    machine: Option<ProxyConfig>,
    win_http: Option<ProxyConfig>,
) -> (r: ProxyConfig)
    ensures
        (!per_user || user is None) && machine is Some ==> r == machine->Some_0,
        !((!per_user || user is None) && machine is Some) && user is Some ==> r == user->Some_0,
        !((!per_user || user is None) && machine is Some) && user is None && win_http is Some ==> r
            == win_http->Some_0,
        !((!per_user || user is None) && machine is Some) && user is None && win_http is None ==> r@
            == (ProxyConfigView {
            proxies: Map::empty(),
            whitelist: Set::empty(),
            exclude_simple: false,
        }),
{
    if !per_user || user.is_none() {
        if let Some(c) = machine {
            return c;
        }
    }
    if let Some(c) = user {
        return c;
    }
    if let Some(c) = win_http {
        return c;
    }
    ProxyConfig::new()
}

} // verus!
