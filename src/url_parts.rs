//! Parsed URLs, as the `url` crate reads them, and proxy address normalization.

use vstd::prelude::*;
use crate::errors::Error;
use crate::text::chars_of;

verus! {

/// The parts of a parsed URL that proxy decisions read.
#[derive(Debug, Clone)]
pub struct UrlParts {
    /// The scheme, lowered by the parser.
    pub scheme: String,
    /// The host, if the URL has one.
    pub host: Option<String>,
    /// The port, if the URL names one other than its scheme's default.
    pub port: Option<u16>,
    /// The whole URL, serialized.
    pub text: String,
}

/// The mathematical model of a [`UrlParts`].
pub struct UrlPartsView {
    pub scheme: Seq<char>,
    pub host: Option<Seq<char>>,
    pub port: Option<u16>,
    pub text: Seq<char>,
}

impl View for UrlParts {
    type V = UrlPartsView;

    open spec fn view(&self) -> UrlPartsView {
        UrlPartsView {
            scheme: self.scheme@,
            host: match self.host {
                Some(h) => Some(h@),
                None => None,
            },
            port: self.port,
            text: self.text@,
        }
    }
}

/// What the `url` crate makes of `s`: its parts, or nothing where it fails.
pub uninterp spec fn url_parse(s: Seq<char>) -> Option<UrlPartsView>;

#[verifier::external_type_specification]
#[verifier::external_body]
pub struct ExParseError(url::ParseError);

/// Relies on `url::Url::parse`, and on the accessors `scheme`, `host_str`,
/// `port` and `as_str` of the URL it returns: the result depends on `s` alone.
#[verifier::external_body]
fn parse_url(s: &str) -> (r: Result<UrlParts, url::ParseError>)
    ensures
        r is Ok <==> url_parse(s@) is Some,
        r matches Ok(u) ==> url_parse(s@) == Some(u@),
{
    let u = url::Url::parse(s)?;
    Ok(UrlParts {
        scheme: u.scheme().to_string(),
        host: u.host_str().map(|h| h.to_string()),
        port: u.port(),
        text: u.as_str().to_string(),
    })
}

impl From<url::ParseError> for Error {
    fn from(_e: url::ParseError) -> (r: Error)
        ensures
            r == Error::InvalidConfig,
    {
        Error::InvalidConfig
    }
}

impl vstd::std_specs::convert::FromSpecImpl<url::ParseError> for Error {
    open spec fn obeys_from_spec() -> bool {
        true
    }

    open spec fn from_spec(v: url::ParseError) -> Error {
        Error::InvalidConfig
    }
}

/// `url_parse` as seen by a caller: the parts, or `InvalidConfig`.
pub open spec fn parse_result(s: Seq<char>) -> Result<UrlPartsView, Error> {
    match url_parse(s) {
        Some(v) => Ok(v),
        None => Err(Error::InvalidConfig),
    }
}

impl UrlParts {
    /// Parses `s` as an absolute URL.
    pub fn parse(s: &str) -> (r: Result<UrlParts, Error>)
        ensures
            r is Ok <==> url_parse(s@) is Some,
            r matches Ok(u) ==> parse_result(s@) == Ok::<UrlPartsView, Error>(u@),
            r matches Err(e) ==> e == Error::InvalidConfig,
    {
        match parse_url(s) {
            Ok(u) => Ok(u),
            Err(e) => Err(Error::from(e)),
        }
    }
}

/// The scheme separator `://` starts at `i` in `s`.
pub open spec fn separator_at(s: Seq<char>, i: int) -> bool {
    0 <= i && i + 3 <= s.len() && s[i] == ':' && s[i + 1] == '/' && s[i + 2] == '/'
}

/// How many scheme separators start before `n` in `s`.
pub open spec fn separators_before(s: Seq<char>, n: int) -> nat
    decreases n,
{
    if n <= 0 {
        0
    } else {
        separators_before(s, n - 1) + if separator_at(s, n - 1) {
            1nat
        } else {
            0nat
        }
    }
}

/// How many scheme separators `s` holds.
pub open spec fn separator_count(s: Seq<char>) -> nat {
    separators_before(s, s.len() as int)
}

/// What [`parse_addr_default_scheme`] makes of `addr`, in terms of the parser.
pub open spec fn normalized(scheme: Seq<char>, addr: Seq<char>) -> Result<UrlPartsView, Error> {
    if separator_count(addr) == 0 {
        parse_result(scheme + seq![':', '/', '/'] + addr)
    } else if separator_count(addr) == 1 {
        parse_result(addr)
    } else {
        Err(Error::InvalidConfig)
    }
}

/// Counts the scheme separators in `s`.
fn count_separators(s: &Vec<char>) -> (r: usize)
    ensures
        r == separator_count(s@),
{
    let mut n: usize = 0;
    let mut i: usize = 0;
    while i < s.len()
        invariant
            i <= s@.len(),
            n == separators_before(s@, i as int),
            n <= i,
        decreases s@.len() - i,
    {
        if s.len() - i >= 3 && s[i] == ':' && s[i + 1] == '/' && s[i + 2] == '/' {
            n = n + 1;
        }
        i = i + 1;
    }
    n
}

/// Turns a proxy address into a URL, prepending `scheme://` where the
/// address names no scheme of its own.
///
/// An address with one `://` is parsed as it is; one with none is parsed
/// after the default scheme; one with more is `InvalidConfig`, as is any
/// text that does not parse.
pub fn parse_addr_default_scheme(scheme: &str, addr: &str) -> (r: Result<UrlParts, Error>)
    ensures
        match r {
            Ok(u) => normalized(scheme@, addr@) == Ok::<UrlPartsView, Error>(u@),
            Err(e) => normalized(scheme@, addr@) == Err::<UrlPartsView, Error>(e),
        },
{
    let count = count_separators(&chars_of(addr));
    if count == 1 {
        UrlParts::parse(addr)
    } else if count == 0 {
        let mut full = scheme.to_owned();
        let sep = "://";
        proof {
            reveal_strlit("://");
        }
        full.append(sep);
        full.append(addr);
        assert(full@ == scheme@ + seq![':', '/', '/'] + addr@);
        UrlParts::parse(full.as_str())
    } else {
        Err(Error::InvalidConfig)
    }
}

} // verus!
