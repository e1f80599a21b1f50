use vstd::prelude::*;

verus! {

/// A script-driven way of choosing a proxy, which static resolution cannot follow.
#[derive(Debug, Clone, Copy, PartialEq, Eq, Structural)]
pub enum AutoconfigKind {
    /// A proxy auto-configuration script.
    Pac,
    /// Web proxy auto-discovery.
    Wpad,
}

/// Why a proxy configuration could not be had.
#[derive(Debug, Clone, Copy, PartialEq, Eq, Structural)]
pub enum Error {
    /// A configuration source holds a malformed value.
    InvalidConfig,
    /// The operating system facility could not be read.
    Os,
    /// No configuration source exists for this platform.
    PlatformNotSupported,
    /// The source was read but names no proxy.
    NoProxyConfigured,
    /// A script-driven configuration is active.
    AutoconfigNotSupported(AutoconfigKind),
}

/// The text that describes an error.
pub open spec fn error_message(e: Error) -> Seq<char> {
    match e {
        Error::InvalidConfig => "invalid proxy configuration"@,
        Error::Os => "error getting proxy configuration from the Operating System"@,
        Error::PlatformNotSupported => "can not read proxy configuration on this platform"@,
        Error::NoProxyConfigured => "no proxy configured"@,
        Error::AutoconfigNotSupported(AutoconfigKind::Pac) => "proxy auto-configuration scripts are not supported"@,
        Error::AutoconfigNotSupported(AutoconfigKind::Wpad) => "web proxy auto-discovery is not supported"@,
    }
}

impl Error {
    /// A sentence that describes the error.
    pub fn message(&self) -> (r: &'static str)
        ensures
            r@ == error_message(*self),
    {
        match self {
            Error::InvalidConfig => "invalid proxy configuration",
            Error::Os => "error getting proxy configuration from the Operating System",
            Error::PlatformNotSupported => "can not read proxy configuration on this platform",
            Error::NoProxyConfigured => "no proxy configured",
            Error::AutoconfigNotSupported(AutoconfigKind::Pac) => "proxy auto-configuration scripts are not supported",
            Error::AutoconfigNotSupported(AutoconfigKind::Wpad) => "web proxy auto-discovery is not supported",
        }
    }
}

} // verus!
