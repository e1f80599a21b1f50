//! Proxy settings given by `*_PROXY` environment variables.

use vstd::prelude::*;
use vstd::string::*;
use crate::config::{ProxyConfig, ProxyConfigView};
use crate::errors::Error;
use crate::text::{chars_end_with, chars_of, cleaned, ends_with, list_entries, lower_of, lowercase, same_text, split_seq, views_of};

verus! {

/// The texts of a list of variables.
pub open spec fn var_views(v: Seq<(String, String)>) -> Seq<(Seq<char>, Seq<char>)> {
    v.map_values(|p: (String, String)| (p.0@, p.1@))
}

/// `c` after the variable `name` = `value` is read.
///
/// A variable counts where its lowered name ends in `_proxy`. The part
/// before names a scheme, whose proxy is `value` as given; the scheme `no`
/// gives instead a comma-separated whitelist, whose entries are trimmed and
/// lowered, empty ones dropped.
pub open spec fn env_step(c: ProxyConfigView, name: Seq<char>, value: Seq<char>) -> ProxyConfigView {
    let key = lower_of(name);
    if ends_with(key, "_proxy"@) {
        let scheme = key.subrange(0, key.len() - "_proxy"@.len());
        if scheme == "no"@ {
            ProxyConfigView {
                proxies: c.proxies,
                whitelist: c.whitelist.union(cleaned(split_seq(value, seq![',']), true).to_set()),
                exclude_simple: c.exclude_simple,
            }
        } else {
            ProxyConfigView {
                proxies: c.proxies.insert(scheme, value),
                whitelist: c.whitelist,
                exclude_simple: c.exclude_simple,
            }
        }
    } else {
        c
    }
}

/// The configuration that the variables `vars`, read in order, give.
pub open spec fn env_config(vars: Seq<(Seq<char>, Seq<char>)>) -> ProxyConfigView
    decreases vars.len(),
{
    if vars.len() == 0 {
        ProxyConfigView { proxies: Map::empty(), whitelist: Set::empty(), exclude_simple: false }
    } else {
        env_step(env_config(vars.drop_last()), vars.last().0, vars.last().1)
    }
}

/// What the environment gives: its configuration, or `NoProxyConfigured`
/// where no variable names a proxy (a whitelist alone does not count).
pub open spec fn env_result(vars: Seq<(Seq<char>, Seq<char>)>) -> Result<ProxyConfigView, Error> {
    if env_config(vars).proxies == Map::<Seq<char>, Seq<char>>::empty() {
        Err(Error::NoProxyConfigured)
    } else {
        Ok(env_config(vars))
    }
}

/// The proxy configuration that the environment variables `vars` give.
pub fn get_proxy_config_from_vars(vars: &Vec<(String, String)>) -> (r: Result<ProxyConfig, Error>)
    ensures
        match r {
            Ok(c) => env_result(var_views(vars@)) == Ok::<ProxyConfigView, Error>(c@),
            Err(e) => env_result(var_views(vars@)) == Err::<ProxyConfigView, Error>(e),
        },
{
    let ghost all = var_views(vars@);
    let mut config = ProxyConfig::new();
    let mut found = false;
    let suffix = chars_of("_proxy");
    let seps = vec![','];
    assert(seps@ =~= seq![',']);
    let mut i: usize = 0;
    assert(all.subrange(0, 0) =~= Seq::<(Seq<char>, Seq<char>)>::empty());
    assert(config@ == env_config(all.subrange(0, 0)));
    while i < vars.len()
        invariant
            i <= vars@.len(),
            all == var_views(vars@),
            suffix@ == "_proxy"@,
            seps@ == seq![','],
            config@ == env_config(all.subrange(0, i as int)),
            !found ==> config@.proxies == Map::<Seq<char>, Seq<char>>::empty(),
            found ==> exists|k: Seq<char>| config@.proxies.contains_key(k),
        decreases vars@.len() - i,
    {
        assert(all.subrange(0, i + 1).drop_last() =~= all.subrange(0, i as int));
        assert(all.subrange(0, i + 1).last() == (vars@[i as int].0@, vars@[i as int].1@));
        let key = lowercase(vars[i].0.as_str());
        let key_chars = chars_of(key.as_str());
        if chars_end_with(&key_chars, &suffix) {
            let scheme = key.as_str().substring_char(0, key_chars.len() - suffix.len());
            if same_text(scheme, "no") {
                let entries = list_entries(vars[i].1.as_str(), &seps, true);
                config.extend_whitelist(entries);
            } else {
                config.insert_proxy(scheme.to_owned(), vars[i].1.clone());
                found = true;
                assert(config@.proxies.contains_key(scheme@));
            }
        }
        i = i + 1;
    }
    assert(all.subrange(0, vars@.len() as int) =~= all);
    if found {
        Ok(config)
    } else {
        Err(Error::NoProxyConfigured)
    }
}

} // verus!
