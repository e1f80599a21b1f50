//! The `/etc/sysconfig/proxy` format: lines of `KEY="value"`, one pair per
//! line, blank lines allowed, and a `PROXY_ENABLED` switch.

use vstd::prelude::*;
use vstd::string::*;
use crate::config::{ProxyConfig, ProxyConfigView};
use crate::errors::Error;
use crate::text::{chars_of, cleaned, list_entries, same_text, split_seq, split_text, views_of};

verus! {

/// The first `"` in `s` at or after `i`, or -1.
pub open spec fn quote_from(s: Seq<char>, i: int) -> int
    decreases s.len() - i,
{
    if i < 0 || i >= s.len() {
        -1
    } else if s[i] == '"' {
        i
    } else {
        quote_from(s, i + 1)
    }
}

/// `s` up to its first `"`, or the whole of `s` where it has none.
pub open spec fn before_quote(s: Seq<char>) -> Seq<char> {
    if quote_from(s, 0) >= 0 {
        s.subrange(0, quote_from(s, 0))
    } else {
        s
    }
}

/// The first `="` in `s` at or after `i`, or -1.
pub open spec fn eq_quote_from(s: Seq<char>, i: int) -> int
    decreases s.len() - i,
{
    if i < 0 || i + 1 >= s.len() {
        -1
    } else if s[i] == '=' && s[i + 1] == '"' {
        i
    } else {
        eq_quote_from(s, i + 1)
    }
}

/// A line without the carriage return that may end it.
pub open spec fn without_cr(line: Seq<char>) -> Seq<char> {
    if line.len() > 0 && line.last() == '\r' {
        line.drop_last()
    } else {
        line
    }
}

/// One line read: `None` where it is malformed, `Some(None)` where it is
/// blank, else its key and unquoted value.
pub open spec fn parse_line(raw: Seq<char>) -> Option<Option<(Seq<char>, Seq<char>)>> {
    let line = without_cr(raw);
    if line.len() == 0 {
        Some(None)
    } else if eq_quote_from(line, 0) < 0 {
        None
    } else {
        let p = eq_quote_from(line, 0);
        Some(Some((line.subrange(0, p), before_quote(line.subrange(p + 2, line.len() as int)))))
    }
}

/// The pairs of `lines` in order, or `None` where one line is malformed.
pub open spec fn parse_lines(lines: Seq<Seq<char>>) -> Option<Seq<(Seq<char>, Seq<char>)>>
    decreases lines.len(),
{
    if lines.len() == 0 {
        Some(Seq::<(Seq<char>, Seq<char>)>::empty())
    } else {
        match parse_lines(lines.drop_last()) {
            None => None,
            Some(init) => match parse_line(lines.last()) {
                None => None,
                Some(None) => Some(init),
                Some(Some(kv)) => Some(init.push(kv)),
            },
        }
    }
}

/// The pairs of a whole file, or `None` where it is malformed.
pub open spec fn key_values(text: Seq<char>) -> Option<Seq<(Seq<char>, Seq<char>)>> {
    parse_lines(split_seq(text, seq!['\n']))
}

/// The texts of a list of pairs.
pub open spec fn pair_views(v: Seq<(String, String)>) -> Seq<(Seq<char>, Seq<char>)> {
    v.map_values(|p: (String, String)| (p.0@, p.1@))
}

/// The value set last for `key`.
pub open spec fn value_of(pairs: Seq<(Seq<char>, Seq<char>)>, key: Seq<char>) -> Option<Seq<char>>
    decreases pairs.len(),
{
    if pairs.len() == 0 {
        None
    } else if pairs.last().0 == key {
        Some(pairs.last().1)
    } else {
        value_of(pairs.drop_last(), key)
    }
}

/// `m` with `scheme` mapped to `addr`, where there is one.
pub open spec fn with_proxy(m: Map<Seq<char>, Seq<char>>, scheme: Seq<char>, addr: Option<Seq<char>>) -> Map<Seq<char>, Seq<char>> {
    match addr {
        Some(a) => m.insert(scheme, a),
        None => m,
    }
}

/// The configuration that a file with `pairs` and proxies enabled gives.
pub open spec fn enabled_config(pairs: Seq<(Seq<char>, Seq<char>)>) -> ProxyConfigView {
    ProxyConfigView {
        proxies: with_proxy(
            with_proxy(
                with_proxy(Map::empty(), "http"@, value_of(pairs, "HTTP_PROXY"@)),
                "https"@,
                value_of(pairs, "HTTPS_PROXY"@),
            ),
            "ftp"@,
            value_of(pairs, "FTP_PROXY"@),
        ),
        whitelist: match value_of(pairs, "NO_PROXY"@) {
            Some(list) => cleaned(split_seq(list, seq![',']), false).to_set(),
            None => Set::empty(),
        },
        exclude_simple: false,
    }
}

/// The configuration that a file holding `text` gives.
pub open spec fn sysconfig_config(text: Seq<char>) -> Result<ProxyConfigView, Error> {
    match key_values(text) {
        None => Err(Error::InvalidConfig),
        Some(pairs) => match value_of(pairs, "PROXY_ENABLED"@) {
            None => Err(Error::InvalidConfig),
            Some(v) => if v == "no"@ {
                Ok(
                    ProxyConfigView {
                        proxies: Map::empty(),
                        whitelist: Set::empty(),
                        exclude_simple: false,
                    },
                )
            } else if v == "yes"@ {
                Ok(enabled_config(pairs))
            } else {
                Err(Error::InvalidConfig)
            },
        },
    }
}

/// `s` up to its first double quote; all of `s` where it has none.
pub fn strip_after_quote(s: &str) -> (r: &str)
    ensures
        r@ == before_quote(s@),
{
    let cs = chars_of(s);
    let mut i: usize = 0;
    while i < cs.len() && cs[i] != '"'
        invariant
            cs@ == s@,
            i <= cs@.len(),
            quote_from(s@, 0) == quote_from(s@, i as int),
        decreases cs@.len() - i,
    {
        i = i + 1;
    }
    if i < cs.len() {
        s.substring_char(0, i)
    } else {
        s
    }
}

/// Reads one line: `None` where it is malformed, `Some(None)` where it is
/// blank, else its key and unquoted value.
fn read_line(raw: &str) -> (r: Option<Option<(String, String)>>)
    ensures
        match r {
            None => parse_line(raw@) is None,
            Some(None) => parse_line(raw@) == Some(None::<(Seq<char>, Seq<char>)>),
            Some(Some(kv)) => parse_line(raw@) == Some(Some((kv.0@, kv.1@))),
        },
{
    let cs = chars_of(raw);
    let mut n: usize = cs.len();
    if n > 0 && cs[n - 1] == '\r' {
        n = n - 1;
    }
    let ghost line = without_cr(raw@);
    assert(line =~= raw@.subrange(0, n as int));
    if n == 0 {
        return Some(None);
    }
    let mut i: usize = 0;
    while n - i > 1 && !(cs[i] == '=' && cs[i + 1] == '"')
        invariant
            cs@ == raw@,
            n <= cs@.len(),
            i < n,
            line == raw@.subrange(0, n as int),
            eq_quote_from(line, 0) == eq_quote_from(line, i as int),
        decreases n - i,
    {
        i = i + 1;
    }
    if n - i <= 1 {
        return None;
    }
    let key = raw.substring_char(0, i).to_owned();
    let rest = raw.substring_char(i + 2, n);
    assert(rest@ =~= line.subrange(i + 2, line.len() as int));
    assert(key@ =~= line.subrange(0, i as int));
    let value = strip_after_quote(rest).to_owned();
    Some(Some((key, value)))
}

/// Reads the `KEY="value"` pairs of a file's text, in order.
///
/// Blank lines are skipped; a line without `="` makes the whole text
/// `InvalidConfig`. A value ends at its first `"`, or at the end of the
/// line where none closes it.
pub fn read_key_value_pairs(contents: &str) -> (r: Result<Vec<(String, String)>, Error>)
    ensures
        match r {
            Ok(v) => key_values(contents@) == Some(pair_views(v@)),
            Err(e) => key_values(contents@) is None && e == Error::InvalidConfig,
        },
{
    let seps = vec!['\n'];
    let lines = split_text(contents, &seps);
    let ghost lv = views_of(lines@);
    assert(seps@ =~= seq!['\n']);
    let mut out: Vec<(String, String)> = Vec::new();
    let mut i: usize = 0;
    assert(lv.subrange(0, 0) =~= Seq::<Seq<char>>::empty());
    assert(pair_views(out@) =~= Seq::<(Seq<char>, Seq<char>)>::empty());
    while i < lines.len()
        invariant
            i <= lines@.len(),
            lv == views_of(lines@),
            lv == split_seq(contents@, seq!['\n']),
            parse_lines(lv.subrange(0, i as int)) == Some(pair_views(out@)),
        decreases lines@.len() - i,
    {
        assert(lv.subrange(0, i + 1).drop_last() =~= lv.subrange(0, i as int));
        assert(lv.subrange(0, i + 1).last() == lines@[i as int]@);
        match read_line(lines[i].as_str()) {
            None => {
                proof {
                    lemma_malformed_stays(lv, i as int + 1);
                }
                assert(lv.subrange(0, lines@.len() as int) =~= lv);
                return Err(Error::InvalidConfig);
            },
            Some(None) => {},
            Some(Some(kv)) => {
                let ghost before = pair_views(out@);
                out.push(kv);
                assert(pair_views(out@) =~= before.push((kv.0@, kv.1@)));
            },
        }
        i = i + 1;
    }
    assert(lv.subrange(0, lines@.len() as int) =~= lv);
    Ok(out)
}

/// Once a prefix of the lines is malformed, every longer one is.
proof fn lemma_malformed_stays(lines: Seq<Seq<char>>, i: int)
    requires
        0 <= i <= lines.len(),
        parse_lines(lines.subrange(0, i)) is None,
    ensures
        parse_lines(lines) is None,
    decreases lines.len() - i,
{
    if i < lines.len() {
        assert(lines.subrange(0, i + 1).drop_last() =~= lines.subrange(0, i));
        lemma_malformed_stays(lines, i + 1);
    } else {
        assert(lines.subrange(0, i) =~= lines);
    }
}

/// Where `eq_quote_from` finds something, `="` stands there.
proof fn lemma_eq_quote_found(s: Seq<char>, i: int)
    requires
        eq_quote_from(s, i) >= 0,
    ensures
        0 <= eq_quote_from(s, i) && eq_quote_from(s, i) + 1 < s.len(),
        s[eq_quote_from(s, i)] == '=' && s[eq_quote_from(s, i) + 1] == '"',
    decreases s.len() - i,
{
    if !(s[i] == '=' && s[i + 1] == '"') {
        lemma_eq_quote_found(s, i + 1);
    }
}

/// A file with a line that is not blank and holds no `="` is
/// `InvalidConfig`, whatever the other lines hold.
pub proof fn lemma_line_without_separator_invalid(text: Seq<char>, i: int)
    requires
        0 <= i < split_seq(text, seq!['\n']).len(),
        without_cr(split_seq(text, seq!['\n'])[i]).len() > 0,
        forall|j: int|
            0 <= j < without_cr(split_seq(text, seq!['\n'])[i]).len() - 1 ==> !(
            #[trigger] without_cr(split_seq(text, seq!['\n'])[i])[j] == '=' && without_cr(
                split_seq(text, seq!['\n'])[i],
            )[j + 1] == '"'),
    ensures
        sysconfig_config(text) == Err::<ProxyConfigView, Error>(Error::InvalidConfig),
{
    let lines = split_seq(text, seq!['\n']);
    let line = without_cr(lines[i]);
    if eq_quote_from(line, 0) >= 0 {
        lemma_eq_quote_found(line, 0);
        let j = eq_quote_from(line, 0);
        assert(line[j] == '=' && line[j + 1] == '"');
    }
    assert(parse_line(lines[i]) is None);
    assert(lines.subrange(0, i + 1).drop_last() =~= lines.subrange(0, i));
    assert(lines.subrange(0, i + 1).last() == lines[i]);
    lemma_malformed_stays(lines, i + 1);
}

/// A well-formed file without a `PROXY_ENABLED` line is `InvalidConfig`.
pub proof fn lemma_missing_switch_invalid(text: Seq<char>)
    requires
        key_values(text) is Some,
        value_of(key_values(text)->Some_0, "PROXY_ENABLED"@) is None,
    ensures
        sysconfig_config(text) == Err::<ProxyConfigView, Error>(Error::InvalidConfig),
{
}

/// The value set last for `key` among `pairs`.
pub fn lookup_value(pairs: &Vec<(String, String)>, key: &str) -> (r: Option<String>)
    ensures
        match r {
            None => value_of(pair_views(pairs@), key@) is None,
            Some(v) => value_of(pair_views(pairs@), key@) == Some(v@),
        },
{
    let ghost all = pair_views(pairs@);
    let mut i: usize = pairs.len();
    assert(all.subrange(0, i as int) =~= all);
    while i > 0
        invariant
            i <= pairs@.len(),
            all == pair_views(pairs@),
            value_of(all, key@) == value_of(all.subrange(0, i as int), key@),
        decreases i,
    {
        assert(all.subrange(0, i as int).drop_last() =~= all.subrange(0, i - 1));
        if same_text(pairs[i - 1].0.as_str(), key) {
            return Some(pairs[i - 1].1.clone());
        }
        i = i - 1;
    }
    None
}

/// The proxy configuration that a sysconfig file holding `contents` gives.
///
/// `PROXY_ENABLED` must be `"yes"` or `"no"`; where it is missing or holds
/// anything else, or where a line is malformed, the result is
/// `InvalidConfig`. With `"no"` the configuration is empty. With `"yes"`,
/// `HTTP_PROXY`, `HTTPS_PROXY` and `FTP_PROXY` give the proxies of their
/// schemes, and each comma-separated entry of `NO_PROXY`, trimmed and
/// lowered, joins the whitelist.
pub fn get_proxy_config_from_contents(contents: &str) -> (r: Result<ProxyConfig, Error>)
    ensures
        match r {
            Ok(c) => sysconfig_config(contents@) == Ok::<ProxyConfigView, Error>(c@),
            Err(e) => sysconfig_config(contents@) == Err::<ProxyConfigView, Error>(e),
        },
{
    let pairs = match read_key_value_pairs(contents) {
        Ok(p) => p,
        Err(e) => return Err(e),
    };
    let ghost pv = pair_views(pairs@);
    let mut config = ProxyConfig::new();
    match lookup_value(&pairs, "PROXY_ENABLED") {
        None => return Err(Error::InvalidConfig),
        Some(v) => {
            if same_text(v.as_str(), "no") {
                assert(config@ == sysconfig_config(contents@)->Ok_0);
                return Ok(config);
            } else if !same_text(v.as_str(), "yes") {
                return Err(Error::InvalidConfig);
            }
        },
    }
    if let Some(a) = lookup_value(&pairs, "HTTP_PROXY") {
        config.insert_proxy("http".to_owned(), a);
    }
    if let Some(a) = lookup_value(&pairs, "HTTPS_PROXY") {
        config.insert_proxy("https".to_owned(), a);
    }
    if let Some(a) = lookup_value(&pairs, "FTP_PROXY") {
        config.insert_proxy("ftp".to_owned(), a);
    }
    if let Some(list) = lookup_value(&pairs, "NO_PROXY") {
        let seps = vec![','];
        assert(seps@ =~= seq![',']);
        let entries = list_entries(list.as_str(), &seps, false);
        config.extend_whitelist(entries);
    }
    let ghost want = enabled_config(pv);
    assert(config@.proxies =~= want.proxies);
    assert(config@.whitelist =~= want.whitelist);
    Ok(config)
}

} // verus!
