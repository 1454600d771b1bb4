//! Interface records and the name-based require/ignore filter.
//!
//! A snapshot of the kernel's interface list is a sequence of records. Each
//! record is one observation: one interface name together with its link flags
//! and the family of one of its addresses, so a dual-stack interface shows up
//! once per address. The records are plain values: whatever enumerates the
//! interfaces copies name, flags and family out of the kernel structures
//! before the engine ever sees them.

use vstd::prelude::*;

use crate::sockaddr::AddressFamily;

verus! {

/// One observation of a network interface.
#[derive(Debug, Clone)]
pub struct InterfaceRecord {
    /// The interface name; several records may share it.
    pub name: String,
    /// Whether the loopback flag is set.
    pub loopback: bool,
    /// Whether the link layer reports connectivity (the lower-layer-up flag),
    /// the engine's definition of "up".
    pub lower_up: bool,
    /// The family of the record's address, or `None` when the record carries
    /// no address (or one of a family the enumeration does not recognize).
    pub family: Option<AddressFamily>,
}

/// The mathematical view of an [`InterfaceRecord`]: the name as a sequence of
/// characters, the rest as it stands.
pub ghost struct RecordModel {
    pub name: Seq<char>,
    pub loopback: bool,
    pub lower_up: bool,
    pub family: Option<AddressFamily>,
}

impl View for InterfaceRecord {
    type V = RecordModel;

    open spec fn view(&self) -> RecordModel {
        RecordModel {
            name: self.name@,
            loopback: self.loopback,
            lower_up: self.lower_up,
            family: self.family,
        }
    }
}

impl DeepView for InterfaceRecord {
    type V = RecordModel;

    open spec fn deep_view(&self) -> RecordModel {
        self.view()
    }
}

/// The up/down verdict of a single record, with loopback records excluded
/// from consideration entirely: they are neither up nor down.
pub open spec fn is_up_spec(r: RecordModel) -> Option<bool> {
    if r.loopback {
        None
    } else {
        Some(r.lower_up)
    }
}

/// Checks if an interface is up; loopback interfaces return `None`.
///
/// An interface counts as up when the link layer reports connectivity, which
/// matches the operational state `UP` rather than `LOWERLAYERDOWN`.
pub fn is_interface_up(ifaddr: &InterfaceRecord) -> (r: Option<bool>)
    ensures
        r == is_up_spec(ifaddr@),
{
    if ifaddr.loopback {
        None
    } else {
        Some(ifaddr.lower_up)
    }
}

/// Whether `name` occurs in `names`.
pub open spec fn name_in(names: Seq<Seq<char>>, name: Seq<char>) -> bool {
    exists|i: int| 0 <= i < names.len() && names[i] == name
}

/// Whether `name` occurs in `interfaces`.
pub fn contains_name(interfaces: &Vec<String>, name: &String) -> (r: bool)
    ensures
        r == name_in(interfaces.deep_view(), name@),
{
    let mut j: usize = 0;
    while j < interfaces.len()
        invariant
            0 <= j <= interfaces.len(),
            forall|k: int| 0 <= k < j ==> interfaces.deep_view()[k] != name@,
        decreases interfaces.len() - j,
    {
        if interfaces[j] == *name {
            assert(interfaces.deep_view()[j as int] == name@);
            return true;
        }
        j += 1;
    }
    false
}

/// Whether a name filter is an allowlist or a denylist.
#[derive(Debug, Clone, Copy, PartialEq, Eq, Structural)]
pub enum InterfacesActionArgument {
    /// The listed interfaces are left out of the readiness computation.
    Ignore,
    /// Only the listed interfaces take part, and each of them must appear.
    Require,
}

/// A name filter: the listed interface names together with the action taken
/// on them.
#[derive(Debug, Clone)]
pub struct InterfacesRequireOrIgnoreArgument {
    pub interfaces: Vec<String>,
    pub action: InterfacesActionArgument,
}

/// The mathematical view of an [`InterfacesRequireOrIgnoreArgument`].
pub ghost struct RequireOrIgnoreModel {
    pub interfaces: Seq<Seq<char>>,
    pub action: InterfacesActionArgument,
}

impl View for InterfacesRequireOrIgnoreArgument {
    type V = RequireOrIgnoreModel;

    open spec fn view(&self) -> RequireOrIgnoreModel {
        RequireOrIgnoreModel { interfaces: self.interfaces.deep_view(), action: self.action }
    }
}

impl DeepView for InterfacesRequireOrIgnoreArgument {
    type V = RequireOrIgnoreModel;

    open spec fn deep_view(&self) -> RequireOrIgnoreModel {
        self.view()
    }
}

/// Whether a name passes the filter: a required name passes when it is
/// listed, an ignored name passes when it is not.
pub open spec fn passes_filter_spec(ri: RequireOrIgnoreModel, name: Seq<char>) -> bool {
    (ri.action == InterfacesActionArgument::Ignore) != name_in(ri.interfaces, name)
}

/// Checks whether the interface named `name` takes part in the readiness
/// computation under the given filter: listed names under `Require`, unlisted
/// names under `Ignore`.
pub fn check_require_or_ignore(
    name: &String,
    require_or_ignore_argument: &InterfacesRequireOrIgnoreArgument,
) -> (r: bool)
    ensures
        r == passes_filter_spec(require_or_ignore_argument@, name@),
{
    let in_interface = contains_name(&require_or_ignore_argument.interfaces, name);
    (require_or_ignore_argument.action == InterfacesActionArgument::Ignore) != in_interface
}

impl InterfacesRequireOrIgnoreArgument {
    /// Packs a name list and an action into a filter.
    pub fn new(interfaces: Vec<String>, action: InterfacesActionArgument) -> (r: Self)
        ensures
            r@.interfaces == interfaces.deep_view(),
            r@.action == action,
    {
        Self { interfaces, action }
    }

    /// Builds the filter from the two command-line lists; see [`Self::parse_args`].
    pub fn from_args(interface: Option<Vec<String>>, ignore: Option<Vec<String>>) -> (r: Option<
        Self,
    >)
        requires
            !(interface is Some && ignore is Some),
        ensures
            match r {
                Some(a) => Some(a@) == parse_args_model(interface.deep_view(), ignore.deep_view()),
                None => parse_args_model(interface.deep_view(), ignore.deep_view()) is None,
            },
    {
        match Self::parse_args(interface, ignore) {
            Some((interfaces, action)) => Some(Self::new(interfaces, action)),
            None => None,
        }
    }

    /// Turns the two mutually exclusive command-line lists into a single
    /// filter value: an allowlist becomes `Require`, a denylist `Ignore`, and
    /// neither means no filter at all. The two lists are never both set;
    /// whatever parses the command line rejects that combination up front.
    pub fn parse_args(interface: Option<Vec<String>>, ignore: Option<Vec<String>>) -> (r: Option<
        (Vec<String>, InterfacesActionArgument),
    >)
        requires
            !(interface is Some && ignore is Some),
        ensures
            match r {
                Some(p) => Some(RequireOrIgnoreModel { interfaces: p.0.deep_view(), action: p.1 })
                    == parse_args_model(interface.deep_view(), ignore.deep_view()),
                None => parse_args_model(interface.deep_view(), ignore.deep_view()) is None,
            },
    {
        match (interface, ignore) {
            (None, None) => None,
            (Some(interfaces), None) => Some((interfaces, InterfacesActionArgument::Require)),
            (None, Some(interfaces)) => Some((interfaces, InterfacesActionArgument::Ignore)),
            // ruled out by the precondition: the lists are never both set
            (Some(interfaces), Some(_)) => Some((interfaces, InterfacesActionArgument::Require)),
        }
    }
}

/// The filter that the two command-line lists denote, on the views of the
/// lists: the allowlist wins when present, then the denylist, then none.
pub open spec fn parse_args_model(
    interface: Option<Seq<Seq<char>>>,
    ignore: Option<Seq<Seq<char>>>,
) -> Option<RequireOrIgnoreModel> {
    match (interface, ignore) {
        (Some(interfaces), _) => Some(
            RequireOrIgnoreModel { interfaces, action: InterfacesActionArgument::Require },
        ),
        (None, Some(interfaces)) => Some(
            RequireOrIgnoreModel { interfaces, action: InterfacesActionArgument::Ignore },
        ),
        (None, None) => None,
    }
}

} // verus!
