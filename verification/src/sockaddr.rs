//! Address families and the address-family requirement.
//!
//! The kernel reports, for each interface record, at most one socket address.
//! Only the address family of that address matters for readiness: the engine
//! distinguishes IPv4, IPv6, and "some other family". A record may also carry
//! no address at all.

use vstd::prelude::*;

verus! {

/// The address family of the socket address attached to an interface record.
///
/// Families other than IPv4 and IPv6 (packet, unix, ...) are collapsed into
/// `Other`: the readiness rules never tell them apart.
#[derive(Debug, Clone, Copy, PartialEq, Eq, Structural)]
pub enum AddressFamily {
    /// An IPv4 address.
    Inet,
    /// An IPv6 address.
    Inet6,
    /// Any other recognized address family.
    Other,
}

/// The address-family requirement of a policy: at least one of `ipv4` and
/// `ipv6` is set whenever the requirement is present at all.
#[derive(Debug, Clone, Copy, PartialEq, Eq, Structural)]
pub struct InterfacesFamilyTypeArgument {
    pub ipv4: bool,
    pub ipv6: bool,
}

impl InterfacesFamilyTypeArgument {
    /// Builds the requirement from the two flags; both false means that no
    /// requirement was asked for.
    pub fn from_args(ipv4: bool, ipv6: bool) -> (r: Option<Self>)
        ensures
            r == family_requirement_spec(ipv4, ipv6),
    {
        match (ipv4, ipv6) {
            (false, false) => None,
            (ipv4, ipv6) => Some(Self { ipv4, ipv6 }),
        }
    }
}

/// What `InterfacesFamilyTypeArgument::from_args` returns.
pub open spec fn family_requirement_spec(ipv4: bool, ipv6: bool) -> Option<
    InterfacesFamilyTypeArgument,
> {
    if !ipv4 && !ipv6 {
        None
    } else {
        Some(InterfacesFamilyTypeArgument { ipv4, ipv6 })
    }
}

/// Whether a single record's address family satisfies the requirement on its
/// own. With no requirement present, any recognized family counts; with one
/// present, only a matching IPv4 or IPv6 address does.
pub open spec fn family_matches(
    family_type: Option<InterfacesFamilyTypeArgument>,
    family: Option<AddressFamily>,
) -> bool {
    match family_type {
        None => family is Some,
        Some(f) => match family {
            Some(AddressFamily::Inet) => f.ipv4,
            Some(AddressFamily::Inet6) => f.ipv6,
            _ => false,
        },
    }
}

/// Whether the families seen for one interface name (`h4` for IPv4, `h6` for
/// IPv6, each taken over all of the name's records) cover the requirement:
/// both if both were required, the required one if exactly one was, and at
/// least one of the two if none was specified.
pub open spec fn family_sat(
    family_type: Option<InterfacesFamilyTypeArgument>,
    h4: bool,
    h6: bool,
) -> bool {
    match family_type {
        None => h4 || h6,
        Some(f) => (h4 && h6) || ((f.ipv4 != f.ipv6) && ((f.ipv4 && h4) || (f.ipv6 && h6))),
    }
}

/// Whether a record with the given address family is one the requirement asks
/// to wait for: an IPv4 address when IPv4 is required, an IPv6 address when
/// IPv6 is required; records of other families are of no interest.
pub fn check_family_type(
    family: Option<AddressFamily>,
    family_argument: &InterfacesFamilyTypeArgument,
) -> (r: bool)
    ensures
        r == check_family_type_spec(family, *family_argument),
{
    match family {
        Some(AddressFamily::Inet) => family_argument.ipv4,
        Some(AddressFamily::Inet6) => family_argument.ipv6,
        _ => true,
    }
}

/// What `check_family_type` returns.
pub open spec fn check_family_type_spec(
    family: Option<AddressFamily>,
    family_argument: InterfacesFamilyTypeArgument,
) -> bool {
    match family {
        Some(AddressFamily::Inet) => family_argument.ipv4,
        Some(AddressFamily::Inet6) => family_argument.ipv6,
        _ => true,
    }
}

} // verus!
