//! The run configuration, as it arrives from the command line.

use vstd::prelude::*;

verus! {

/// Everything a run is configured with. The two name lists are mutually
/// exclusive; whatever parses the command line rejects setting both.
#[derive(Debug, Clone)]
pub struct Args {
    /// Block until at least these interfaces have appeared.
    pub interface: Option<Vec<String>>,
    /// Don't take these interfaces into account.
    ///
    /// By default only loopback interfaces are ignored.
    pub ignore: Option<Vec<String>>,
    /// Requires at least one IPv4 address.
    pub ipv4: bool,
    /// Requires at least one IPv6 address.
    pub ipv6: bool,
    /// Wait until at least one of the interfaces is online.
    ///
    /// If this option is specified with an interface allowlist, then wait
    /// until at least one of the specified interfaces becomes online.
    pub any: bool,
    /// Maximum time to wait for network connectivity, in seconds.
    ///
    /// A timeout of 0 disables the timeout.
    pub timeout: u64,
    /// Time between checks, in milliseconds.
    pub interval: u64,
}

/// The mathematical view of [`Args`]: the name lists as sequences of
/// character sequences, the rest as it stands.
pub ghost struct ArgsModel {
    pub interface: Option<Seq<Seq<char>>>,
    pub ignore: Option<Seq<Seq<char>>>,
    pub ipv4: bool,
    pub ipv6: bool,
    pub any: bool,
    pub timeout: u64,
    pub interval: u64,
}

impl View for Args {
    type V = ArgsModel;

    open spec fn view(&self) -> ArgsModel {
        ArgsModel {
            interface: self.interface.deep_view(),
            ignore: self.ignore.deep_view(),
            ipv4: self.ipv4,
            ipv6: self.ipv6,
            any: self.any,
            timeout: self.timeout,
            interval: self.interval,
        }
    }
}

impl Args {
    /// Time between checks unless one is given, in milliseconds.
    pub const DEFAULT_INTERVAL: u64 = 500;

    /// Maximum time to wait unless one is given, in seconds.
    pub const DEFAULT_TIMEOUT: u64 = 120;

    /// The configuration with no filters, no family requirement, and the
    /// default timing.
    pub fn new() -> (r: Self)
        ensures
            r@ == default_args_model(),
    {
        Self {
            interface: None,
            ignore: None,
            timeout: Self::DEFAULT_TIMEOUT,
            interval: Self::DEFAULT_INTERVAL,
            ipv4: false,
            ipv6: false,
            any: false,
        }
    }

    /// Sets the allowlist, clearing any denylist.
    pub fn interface(self, interface: Vec<String>) -> (r: Self)
        ensures
            r@ == (ArgsModel {
                interface: Some(interface.deep_view()),
                ignore: None::<Seq<Seq<char>>>,
                ..self@
            }),
    {
        let mut r = self;
        r.ignore = None;
        r.interface = Some(interface);
        r
    }

    /// Sets the denylist, clearing any allowlist.
    pub fn ignore(self, ignore: Vec<String>) -> (r: Self)
        ensures
            r@ == (ArgsModel {
                interface: None::<Seq<Seq<char>>>,
                ignore: Some(ignore.deep_view()),
                ..self@
            }),
    {
        let mut r = self;
        r.interface = None;
        r.ignore = Some(ignore);
        r
    }

    /// Sets the time between checks.
    pub fn interval(self, interval: u64) -> (r: Self)
        ensures
            r@ == (ArgsModel { interval, ..self@ }),
    {
        let mut r = self;
        r.interval = interval;
        r
    }

    /// Sets whether at least one IPv4 address is required.
    pub fn ipv4(self, ipv4: bool) -> (r: Self)
        ensures
            r@ == (ArgsModel { ipv4, ..self@ }),
    {
        let mut r = self;
        r.ipv4 = ipv4;
        r
    }

    /// Sets whether at least one IPv6 address is required.
    pub fn ipv6(self, ipv6: bool) -> (r: Self)
        ensures
            r@ == (ArgsModel { ipv6, ..self@ }),
    {
        let mut r = self;
        r.ipv6 = ipv6;
        r
    }

    /// Sets whether a single online interface suffices.
    pub fn any(self, any: bool) -> (r: Self)
        ensures
            r@ == (ArgsModel { any, ..self@ }),
    {
        let mut r = self;
        r.any = any;
        r
    }
}

/// What [`Args::new`] returns.
pub open spec fn default_args_model() -> ArgsModel {
    ArgsModel {
        interface: None,
        ignore: None,
        ipv4: false,
        ipv6: false,
        any: false,
        timeout: Args::DEFAULT_TIMEOUT,
        interval: Args::DEFAULT_INTERVAL,
    }
}

impl Default for Args {
    /// The same configuration as [`Args::new`].
    fn default() -> (r: Self)
        ensures
            r@ == default_args_model(),
    {
        Self::new()
    }
}

} // verus!
