//! Proxy configuration discovery and per-URL proxy decisions.
//!
//! The library holds the pure logic: the platform-neutral [`ProxyConfig`],
//! the bypass rules, the decision for a target URL, the fallback order over
//! configuration sources, and the parsers of each source's raw settings.
//! Reading the settings from the operating system is left to the caller.

use vstd::prelude::*;

pub mod text;
pub mod errors;
pub mod config;
pub mod url_parts;
pub mod sysconfig;
pub mod environment;
pub mod windows;
pub mod macos;

pub use errors::{AutoconfigKind, Error};
pub use config::{ProxyConfig, ProxyDecision};
pub use url_parts::{parse_addr_default_scheme, UrlParts};

verus! {

/// The outcome of trying the sources in order: the first configuration one
/// of them produced, or else the error of the last one tried (`last` where
/// none is left).
pub open spec fn resolution(outcomes: Seq<Result<ProxyConfig, Error>>, last: Error) -> Result<ProxyConfig, Error>
    decreases outcomes.len(),
{
    if outcomes.len() == 0 {
        Err(last)
    } else {
        match outcomes[0] {
            Ok(c) => Ok(c),
            Err(e) => resolution(outcomes.drop_first(), e),
        }
    }
}

/// Picks the configuration to use from the outcomes of the configuration
/// sources, given in order of precedence.
///
/// The first success wins, unchanged. Where every source failed, the error
/// of the last one is returned; where there is no source at all,
/// `PlatformNotSupported`.
pub fn get_proxy_config(outcomes: Vec<Result<ProxyConfig, Error>>) -> (r: Result<ProxyConfig, Error>)
    ensures
        r == resolution(outcomes@, Error::PlatformNotSupported),
{
    let ghost all = outcomes@;
    let mut rest = outcomes;
    let mut last = Error::PlatformNotSupported;
    while rest.len() > 0
        invariant
            all == outcomes@,
            resolution(all, Error::PlatformNotSupported) == resolution(rest@, last),
        decreases rest@.len(),
    {
        let ghost before = rest@;
        let outcome = rest.remove(0);
        assert(rest@ =~= before.drop_first());
        assert(outcome == before[0]);
        match outcome {
            Ok(c) => {
                assert(resolution(before, last) == Ok::<ProxyConfig, Error>(c));
                return Ok(c);
            },
            Err(e) => {
                last = e;
            },
        }
    }
    Err(last)
}

/// A source that succeeds wins over every source after it, whatever they
/// report: its configuration comes back unchanged.
pub proof fn lemma_first_source_wins(outcomes: Seq<Result<ProxyConfig, Error>>, last: Error)
    requires
        outcomes.len() > 0,
        outcomes[0] is Ok,
    ensures
        resolution(outcomes, last) == outcomes[0],
{
}

/// Sources that fail are passed over: the first source that succeeds after
/// them gives the configuration.
pub proof fn lemma_falls_back_past_failures(outcomes: Seq<Result<ProxyConfig, Error>>, i: int, last: Error)
    requires
        0 <= i < outcomes.len(),
        forall|j: int| 0 <= j < i ==> outcomes[j] is Err,
        outcomes[i] is Ok,
    ensures
        resolution(outcomes, last) == outcomes[i],
    decreases i,
{
    if i > 0 {
        let e = outcomes[0]->Err_0;
        assert forall|j: int| 0 <= j < i - 1 implies outcomes.drop_first()[j] is Err by {
            assert(outcomes[j + 1] is Err);
        }
        lemma_falls_back_past_failures(outcomes.drop_first(), i - 1, e);
    }
}

/// Where every source fails, the error of the last one is returned, not
/// that of the first.
pub proof fn lemma_last_failure_reported(outcomes: Seq<Result<ProxyConfig, Error>>, last: Error)
    requires
        outcomes.len() > 0,
        forall|j: int| 0 <= j < outcomes.len() ==> outcomes[j] is Err,
    ensures
        resolution(outcomes, last) == outcomes.last(),
    decreases outcomes.len(),
{
    if outcomes.len() > 1 {
        let e = outcomes[0]->Err_0;
        assert forall|j: int| 0 <= j < outcomes.len() - 1 implies outcomes.drop_first()[j] is Err by {
            assert(outcomes[j + 1] is Err);
        }
        lemma_last_failure_reported(outcomes.drop_first(), e);
        assert(outcomes.drop_first().last() == outcomes.last());
    } else {
        let e = outcomes[0]->Err_0;
        assert(resolution(outcomes.drop_first(), e) == Err::<ProxyConfig, Error>(e));
    }
}

} // verus!
