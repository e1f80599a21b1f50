//! The platform-neutral proxy configuration and the decision for a target URL.

use vstd::prelude::*;
use vstd::string::*;
use crate::text::{chars_of, chars_end_with, ends_with, has_char, lower_of, lowercase, same_chars, views_of};
use crate::url_parts::UrlParts;

verus! {

/// Proxy settings as one configuration source reports them.
///
/// Scheme names map to proxy addresses (a later setting for a scheme
/// replaces an earlier one), the whitelist holds bypass patterns, and
/// `exclude_simple` sends hosts without a dot around the proxy.
#[derive(Debug, Clone)]
pub struct ProxyConfig {
    proxies: Vec<(String, String)>,
    whitelist: Vec<String>,
    exclude_simple: bool,
}

/// The mathematical model of a [`ProxyConfig`].
pub struct ProxyConfigView {
    pub proxies: Map<Seq<char>, Seq<char>>,
    pub whitelist: Set<Seq<char>>,
    pub exclude_simple: bool,
}

/// The address stored last for `scheme` among `pairs`.
pub open spec fn lookup_last(pairs: Seq<(String, String)>, scheme: Seq<char>) -> Option<Seq<char>>
    decreases pairs.len(),
{
    if pairs.len() == 0 {
        None
    } else if pairs.last().0@ == scheme {
        Some(pairs.last().1@)
    } else {
        lookup_last(pairs.drop_last(), scheme)
    }
}

/// The scheme-to-address map that `pairs` describe, later pairs winning.
pub open spec fn proxy_map(pairs: Seq<(String, String)>) -> Map<Seq<char>, Seq<char>> {
    Map::new(|k: Seq<char>| lookup_last(pairs, k) is Some, |k: Seq<char>| lookup_last(pairs, k)->Some_0)
}

/// The set of texts held in `entries`.
pub open spec fn text_set(entries: Seq<String>) -> Set<Seq<char>> {
    Set::new(|e: Seq<char>| exists|i: int| 0 <= i < entries.len() && entries[i]@ == e)
}

impl View for ProxyConfig {
    type V = ProxyConfigView;

    closed spec fn view(&self) -> ProxyConfigView {
        ProxyConfigView {
            proxies: proxy_map(self.proxies@),
            whitelist: text_set(self.whitelist@),
            exclude_simple: self.exclude_simple,
        }
    }
}

/// A host without a dot: an unqualified name, taken to be local.
pub open spec fn is_simple_host(host: Seq<char>) -> bool {
    !host.contains('.')
}

/// The whitelist entry `entry` has a last `*` at `i`.
pub open spec fn last_star_at(entry: Seq<char>, i: int) -> bool {
    &&& 0 <= i < entry.len()
    &&& entry[i] == '*'
    &&& forall|j: int| i < j < entry.len() ==> entry[j] != '*'
}

/// The text after the last `*` of `entry` is not empty and ends `host`.
pub open spec fn wildcard_matches(entry: Seq<char>, host: Seq<char>) -> bool {
    exists|i: int|
        last_star_at(entry, i) && i + 1 < entry.len() && ends_with(
            host,
            entry.subrange(i + 1, entry.len() as int),
        )
}

/// `host` (already lowered) is never sent through a proxy.
pub open spec fn host_whitelisted(host: Seq<char>, whitelist: Set<Seq<char>>, exclude_simple: bool) -> bool {
    ||| exclude_simple && is_simple_host(host)
    ||| whitelist.contains(host)
    ||| exists|e: Seq<char>| whitelist.contains(e) && wildcard_matches(e, host)
}

/// A host without a dot bypasses the proxy whenever simple hosts are
/// excluded, whatever the whitelist holds.
pub proof fn lemma_simple_host_whitelisted(host: Seq<char>, whitelist: Set<Seq<char>>)
    requires
        is_simple_host(host),
    ensures
        host_whitelisted(host, whitelist, true),
{
}

/// A host that equals a whitelist entry bypasses the proxy, whether or not
/// simple hosts are excluded.
pub proof fn lemma_listed_host_whitelisted(host: Seq<char>, whitelist: Set<Seq<char>>, exclude_simple: bool)
    requires
        whitelist.contains(host),
    ensures
        host_whitelisted(host, whitelist, exclude_simple),
{
}

/// The proxy for a request of scheme `scheme` to `host`, given as the URL
/// holds it: none where there is no host, where the lowered host is
/// whitelisted, or where no proxy is set for the scheme; else the address
/// set for the scheme, lowered.
pub open spec fn proxy_for(c: ProxyConfigView, scheme: Seq<char>, host: Option<Seq<char>>) -> Option<Seq<char>> {
    match host {
        None => None,
        Some(h) => if host_whitelisted(lower_of(h), c.whitelist, c.exclude_simple) || !c.proxies.contains_key(scheme) {
            None
        } else {
            Some(lower_of(c.proxies[scheme]))
        },
    }
}

/// A request to a host whose lowered form is a whitelist entry goes direct,
/// whatever the case of the host and whatever the scheme.
pub proof fn lemma_listed_host_not_proxied(c: ProxyConfigView, scheme: Seq<char>, host: Seq<char>)
    requires
        c.whitelist.contains(lower_of(host)),
    ensures
        proxy_for(c, scheme, Some(host)) is None,
{
}

/// What to do with a request to a URL.
#[derive(Debug, Clone, PartialEq, Eq)]
pub enum ProxyDecision {
    /// Connect directly: the URL has no host, or its host is whitelisted.
    NoProxyNeeded,
    /// No proxy is set for the URL's scheme; callers usually connect directly.
    NoProxyForScheme,
    /// Send the request through this proxy address.
    UseProxy(String),
}

/// Whether `entry` matches `host` through its last `*`.
pub fn wildcard_match(entry: &Vec<char>, host: &Vec<char>) -> (r: bool)
    ensures
        r == wildcard_matches(entry@, host@),
{
    let mut i: usize = entry.len();
    while i > 0 && entry[i - 1] != '*'
        invariant
            i <= entry@.len(),
            forall|j: int| i <= j < entry@.len() ==> entry@[j] != '*',
        decreases i,
    {
        i = i - 1;
    }
    if i == 0 {
        assert forall|k: int| !last_star_at(entry@, k) by {
            if 0 <= k < entry@.len() {
                assert(entry@[k] != '*');
            }
        }
        return false;
    }
    let star = i - 1;
    assert(last_star_at(entry@, star as int));
    assert forall|k: int| last_star_at(entry@, k) implies k == star by {
        if k < star {
            assert(entry@[star as int] == '*');
        }
        if k > star {
            assert(entry@[k] == '*');
        }
    }
    if i == entry.len() {
        return false;
    }
    let mut suffix: Vec<char> = Vec::new();
    let mut j: usize = i;
    while j < entry.len()
        invariant
            i <= j <= entry@.len(),
            suffix@ == entry@.subrange(i as int, j as int),
        decreases entry@.len() - j,
    {
        suffix.push(entry[j]);
        j = j + 1;
        assert(suffix@ =~= entry@.subrange(i as int, j as int));
    }
    let r = chars_end_with(host, &suffix);
    if r {
        assert(last_star_at(entry@, star as int) && star + 1 < entry@.len());
    }
    r
}

impl ProxyConfig {
    /// A configuration with no proxy, no whitelist and simple hosts proxied.
    pub fn new() -> (r: ProxyConfig)
        ensures
            r@.proxies == Map::<Seq<char>, Seq<char>>::empty(),
            r@.whitelist == Set::<Seq<char>>::empty(),
            !r@.exclude_simple,
    {
        let r = ProxyConfig { proxies: Vec::new(), whitelist: Vec::new(), exclude_simple: false };
        assert(r@.proxies =~= Map::<Seq<char>, Seq<char>>::empty());
        assert(r@.whitelist =~= Set::<Seq<char>>::empty());
        r
    }

    /// A configuration with the proxies of `pairs`, later pairs winning,
    /// no whitelist and simple hosts proxied.
    pub fn from_proxies(pairs: Vec<(String, String)>) -> (r: ProxyConfig)
        ensures
            r@.proxies == proxy_map(pairs@),
            r@.whitelist == Set::<Seq<char>>::empty(),
            !r@.exclude_simple,
    {
        let r = ProxyConfig { proxies: pairs, whitelist: Vec::new(), exclude_simple: false };
        assert(r@.whitelist =~= Set::<Seq<char>>::empty());
        r
    }

    /// Sets the proxy address for `scheme`, replacing any earlier one.
    pub fn insert_proxy(&mut self, scheme: String, addr: String)
        ensures
            final(self)@.proxies == old(self)@.proxies.insert(scheme@, addr@),
            final(self)@.whitelist == old(self)@.whitelist,
            final(self)@.exclude_simple == old(self)@.exclude_simple,
    {
        let ghost s = scheme@;
        let ghost a = addr@;
        let ghost before = self.proxies@;
        self.proxies.push((scheme, addr));
        assert(self.proxies@.drop_last() =~= before);
        assert(self@.proxies =~= old(self)@.proxies.insert(s, a));
        assert(self@.whitelist =~= old(self)@.whitelist);
    }

    /// Adds `entry` to the whitelist.
    pub fn insert_whitelist(&mut self, entry: String)
        ensures
            final(self)@.whitelist == old(self)@.whitelist.insert(entry@),
            final(self)@.proxies == old(self)@.proxies,
            final(self)@.exclude_simple == old(self)@.exclude_simple,
    {
        let ghost e = entry@;
        let ghost before = self.whitelist@;
        self.whitelist.push(entry);
        assert forall|x: Seq<char>| #[trigger] self@.whitelist.contains(x) implies old(self)@.whitelist.insert(e).contains(x) by {
            let i = choose|i: int| 0 <= i < self.whitelist@.len() && self.whitelist@[i]@ == x;
            if i < before.len() {
                assert(before[i]@ == x);
            }
        }
        assert forall|x: Seq<char>| #[trigger] old(self)@.whitelist.insert(e).contains(x) implies self@.whitelist.contains(x) by {
            if x == e {
                assert(self.whitelist@[before.len() as int]@ == x);
            } else {
                let i = choose|i: int| 0 <= i < before.len() && before[i]@ == x;
                assert(self.whitelist@[i]@ == x);
            }
        }
        assert(self@.whitelist =~= old(self)@.whitelist.insert(e));
        assert(self@.proxies =~= old(self)@.proxies);
    }

    /// Adds every entry of `entries` to the whitelist.
    pub fn extend_whitelist(&mut self, entries: Vec<String>)
        ensures
            final(self)@.whitelist == old(self)@.whitelist.union(views_of(entries@).to_set()),
            final(self)@.proxies == old(self)@.proxies,
            final(self)@.exclude_simple == old(self)@.exclude_simple,
    {
        let ghost start = self@;
        let ghost all = views_of(entries@);
        let mut i: usize = 0;
        assert(start.whitelist.union(all.subrange(0, 0).to_set()) =~= start.whitelist);
        while i < entries.len()
            invariant
                i <= entries@.len(),
                all == views_of(entries@),
                self@.whitelist == start.whitelist.union(all.subrange(0, i as int).to_set()),
                self@.proxies == start.proxies,
                self@.exclude_simple == start.exclude_simple,
            decreases entries@.len() - i,
        {
            let ghost before = self@.whitelist;
            self.insert_whitelist(entries[i].clone());
            assert(all.subrange(0, i + 1) =~= all.subrange(0, i as int).push(all[i as int]));
            proof {
                all.subrange(0, i as int).lemma_push_to_set_commute(all[i as int]);
            }
            assert(self@.whitelist =~= start.whitelist.union(all.subrange(0, i + 1).to_set()));
            i = i + 1;
        }
        assert(all.subrange(0, i as int) =~= all);
    }

    /// Sets whether hosts without a dot bypass the proxy.
    pub fn set_exclude_simple(&mut self, exclude_simple: bool)
        ensures
            final(self)@.exclude_simple == exclude_simple,
            final(self)@.proxies == old(self)@.proxies,
            final(self)@.whitelist == old(self)@.whitelist,
    {
        self.exclude_simple = exclude_simple;
    }

    /// Whether hosts without a dot bypass the proxy.
    pub fn exclude_simple(&self) -> (r: bool)
        ensures
            r == self@.exclude_simple,
    {
        self.exclude_simple
    }

    /// The proxy address set for `scheme`, if any.
    pub fn proxy(&self, scheme: &str) -> (r: Option<String>)
        ensures
            r is Some <==> self@.proxies.contains_key(scheme@),
            r matches Some(a) ==> a@ == self@.proxies[scheme@],
    {
        let key = chars_of(scheme);
        let mut i: usize = self.proxies.len();
        assert(self.proxies@.subrange(0, i as int) =~= self.proxies@);
        while i > 0
            invariant
                i <= self.proxies@.len(),
                key@ == scheme@,
                lookup_last(self.proxies@, scheme@) == lookup_last(self.proxies@.subrange(0, i as int), scheme@),
            decreases i,
        {
            let ghost prefix = self.proxies@.subrange(0, i as int);
            assert(prefix.drop_last() =~= self.proxies@.subrange(0, i - 1));
            if same_chars(&chars_of(self.proxies[i - 1].0.as_str()), &key) {
                return Some(self.proxies[i - 1].1.clone());
            }
            i = i - 1;
        }
        assert(self.proxies@.subrange(0, 0) =~= Seq::<(String, String)>::empty());
        None
    }

    /// Whether `entry` is in the whitelist.
    pub fn whitelist_contains(&self, entry: &str) -> (r: bool)
        ensures
            r == self@.whitelist.contains(entry@),
    {
        let key = chars_of(entry);
        let mut i: usize = 0;
        while i < self.whitelist.len()
            invariant
                i <= self.whitelist@.len(),
                key@ == entry@,
                forall|k: int| 0 <= k < i ==> self.whitelist@[k]@ != entry@,
            decreases self.whitelist@.len() - i,
        {
            if same_chars(&chars_of(self.whitelist[i].as_str()), &key) {
                return true;
            }
            i = i + 1;
        }
        false
    }

    /// Whether `host`, already lowered, bypasses the proxy.
    ///
    /// It does when it is a simple host and simple hosts are excluded, when
    /// it equals a whitelist entry, or when the text after the last `*` of
    /// an entry is not empty and ends it.
    pub fn is_whitelisted(&self, host: &str) -> (r: bool)
        ensures
            r == host_whitelisted(host@, self@.whitelist, self@.exclude_simple),
    {
        let h = chars_of(host);
        if self.exclude_simple && !has_char(&h, '.') {
            return true;
        }
        let mut i: usize = 0;
        while i < self.whitelist.len()
            invariant
                i <= self.whitelist@.len(),
                h@ == host@,
                !(self.exclude_simple && is_simple_host(host@)),
                forall|k: int|
                    0 <= k < i ==> self.whitelist@[k]@ != host@ && !wildcard_matches(
                        #[trigger] self.whitelist@[k]@,
                        host@,
                    ),
            decreases self.whitelist@.len() - i,
        {
            let e = chars_of(self.whitelist[i].as_str());
            if same_chars(&e, &h) {
                assert(self@.whitelist.contains(host@));
                return true;
            }
            if wildcard_match(&e, &h) {
                assert(self@.whitelist.contains(e@));
                return true;
            }
            i = i + 1;
        }
        assert(!self@.whitelist.contains(host@));
        assert forall|e: Seq<char>| self@.whitelist.contains(e) implies !wildcard_matches(e, host@) by {
            let k = choose|k: int| 0 <= k < self.whitelist@.len() && self.whitelist@[k]@ == e;
            assert(!wildcard_matches(self.whitelist@[k]@, host@));
        }
        false
    }

    /// The decision for a request of scheme `scheme` to `host`, already lowered.
    ///
    /// A missing host or a whitelisted one needs no proxy; otherwise the
    /// address stored for the scheme is used, as stored.
    pub fn decide_for_host(&self, scheme: &str, host: Option<&str>) -> (r: ProxyDecision)
        ensures
            r is NoProxyNeeded <==> match host {
                None => true,
                Some(h) => host_whitelisted(h@, self@.whitelist, self@.exclude_simple),
            },
            r is NoProxyForScheme <==> match host {
                None => false,
                Some(h) => !host_whitelisted(h@, self@.whitelist, self@.exclude_simple)
                    && !self@.proxies.contains_key(scheme@),
            },
            r matches ProxyDecision::UseProxy(a) ==> a@ == self@.proxies[scheme@],
    {
        match host {
            None => ProxyDecision::NoProxyNeeded,
            Some(h) => {
                if self.is_whitelisted(h) {
                    ProxyDecision::NoProxyNeeded
                } else {
                    match self.proxy(scheme) {
                        Some(a) => ProxyDecision::UseProxy(a),
                        None => ProxyDecision::NoProxyForScheme,
                    }
                }
            },
        }
    }

    /// The decision for a request to `url`.
    ///
    /// The host is lowered before it is matched, and a proxy address is
    /// returned lowered.
    pub fn decide(&self, url: &UrlParts) -> (r: ProxyDecision)
        ensures
            r is NoProxyNeeded <==> match url.host {
                None => true,
                Some(h) => host_whitelisted(lower_of(h@), self@.whitelist, self@.exclude_simple),
            },
            r is NoProxyForScheme <==> match url.host {
                None => false,
                Some(h) => !host_whitelisted(lower_of(h@), self@.whitelist, self@.exclude_simple)
                    && !self@.proxies.contains_key(url.scheme@),
            },
            r matches ProxyDecision::UseProxy(a) ==> a@ == lower_of(self@.proxies[url.scheme@]),
    {
        match &url.host {
            None => self.decide_for_host(url.scheme.as_str(), None),
            Some(h) => {
                let lowered = lowercase(h.as_str());
                match self.decide_for_host(url.scheme.as_str(), Some(lowered.as_str())) {
                    ProxyDecision::UseProxy(a) => ProxyDecision::UseProxy(lowercase(a.as_str())),
                    other => other,
                }
            },
        }
    }

    /// The proxy to use for `url`, or `None` where the request goes direct.
    ///
    /// `None` covers both a bypassed host and a scheme without a proxy; use
    /// [`ProxyConfig::decide`] to tell them apart.
    pub fn get_proxy_for_url(&self, url: &UrlParts) -> (r: Option<String>)
        ensures
            match r {
                Some(a) => proxy_for(self@, url@.scheme, url@.host) == Some(a@),
                None => proxy_for(self@, url@.scheme, url@.host) is None,
            },
    {
        match self.decide(url) {
            ProxyDecision::UseProxy(a) => Some(a),
            _ => None,
        }
    }
}

} // verus!
