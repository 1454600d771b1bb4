//! A readiness predicate over snapshots of the host's network interfaces.
//!
//! A snapshot is a sequence of [`InterfaceRecord`]s, one per interface
//! address observation. [`network_online`] evaluates a policy — all or any,
//! an optional require/ignore name filter, an optional address-family
//! requirement — over one snapshot and answers whether the network counts as
//! ready. The contracts state the verdict over
//! [`network_online_spec`], a direct mathematical reading of the policy, and
//! the laws at the bottom of this file record the properties the predicate
//! keeps.

use vstd::prelude::*;

pub mod arguments;
pub mod ifaddrs;
pub mod operstate;
pub mod poll;
pub mod sockaddr;

use arguments::Args;
use arguments::ArgsModel;
use ifaddrs::InterfaceRecord;
use ifaddrs::InterfacesActionArgument;
use ifaddrs::InterfacesRequireOrIgnoreArgument;
use ifaddrs::RecordModel;
use ifaddrs::RequireOrIgnoreModel;
use ifaddrs::check_require_or_ignore;
use ifaddrs::contains_name;
use ifaddrs::is_interface_up;
use ifaddrs::name_in;
use ifaddrs::parse_args_model;
use ifaddrs::passes_filter_spec;
use sockaddr::AddressFamily;
use sockaddr::InterfacesFamilyTypeArgument;
use sockaddr::family_matches;
use sockaddr::family_requirement_spec;
use sockaddr::family_sat;

verus! {

// ---------------------------------------------------------------------------
// Policy values
// ---------------------------------------------------------------------------
/// The two filters a policy may carry: a require/ignore name filter and an
/// address-family requirement. Both are optional, and at least one is present
/// whenever this struct is built from a configuration at all.
#[derive(Debug, Clone)]
pub struct InterfacesArgument {
    pub require_or_ignore: Option<InterfacesRequireOrIgnoreArgument>,
    pub family_type: Option<InterfacesFamilyTypeArgument>,
}

/// The mathematical view of an [`InterfacesArgument`].
pub ghost struct InterfacesModel {
    pub require_or_ignore: Option<RequireOrIgnoreModel>,
    pub family_type: Option<InterfacesFamilyTypeArgument>,
}

impl View for InterfacesArgument {
    type V = InterfacesModel;

    open spec fn view(&self) -> InterfacesModel {
        InterfacesModel {
            require_or_ignore: self.require_or_ignore.deep_view(),
            family_type: self.family_type,
        }
    }
}

impl DeepView for InterfacesArgument {
    type V = InterfacesModel;

    open spec fn deep_view(&self) -> InterfacesModel {
        self.view()
    }
}

/// The whole evaluation policy: the filters, the evaluation mode (`exact`
/// aggregates per interface name, lazy short-circuits per record), and
/// whether a single online interface suffices (`any`).
#[derive(Debug, Clone)]
pub struct NetworkArgument {
    pub interfaces_argument: Option<InterfacesArgument>,
    pub exact: bool,
    pub any: bool,
}

/// The mathematical view of a [`NetworkArgument`].
pub ghost struct NetworkModel {
    pub interfaces_argument: Option<InterfacesModel>,
    pub exact: bool,
    pub any: bool,
}

impl View for NetworkArgument {
    type V = NetworkModel;

    open spec fn view(&self) -> NetworkModel {
        NetworkModel {
            interfaces_argument: self.interfaces_argument.deep_view(),
            exact: self.exact,
            any: self.any,
        }
    }
}

// ---------------------------------------------------------------------------
// The all/any combinators
// ---------------------------------------------------------------------------
/// Whether every element of `s` is true (vacuously so when `s` is empty).
pub open spec fn all_true(s: Seq<bool>) -> bool {
    forall|i: int| 0 <= i < s.len() ==> s[i]
}

/// What [`InterfacesChecker::all`] returns: at least one element, and every
/// element true. An empty sequence is never ready.
pub open spec fn seq_all(s: Seq<bool>) -> bool {
    s.len() > 0 && all_true(s)
}

/// What [`InterfacesChecker::any`] returns: at least one true element.
pub open spec fn seq_any(s: Seq<bool>) -> bool {
    exists|i: int| 0 <= i < s.len() && s[i]
}

/// How one appended verdict changes the two combinators.
proof fn lemma_checker_push(s: Seq<bool>, b: bool)
    ensures
        all_true(s.push(b)) == (all_true(s) && b),
        seq_any(s.push(b)) == (seq_any(s) || b),
{
    assert(s.push(b)[s.len() as int] == b);
    if all_true(s) && b {
        assert forall|k: int| 0 <= k < s.push(b).len() implies s.push(b)[k] by {
            if k < s.len() {
                assert(s.push(b)[k] == s[k]);
            }
        }
    }
    if all_true(s.push(b)) {
        assert forall|k: int| 0 <= k < s.len() implies s[k] by {
            assert(s.push(b)[k]);
            assert(s.push(b)[k] == s[k]);
        }
    }
    if seq_any(s) {
        let k = choose|k: int| 0 <= k < s.len() && s[k];
        assert(s.push(b)[k] == s[k]);
        assert(seq_any(s.push(b)));
    }
    if seq_any(s.push(b)) && !b {
        let k = choose|k: int| 0 <= k < s.push(b).len() && s.push(b)[k];
        assert(k < s.len());
        assert(s[k] == s.push(b)[k]);
        assert(seq_any(s));
    }
}

/// The two readiness combinators over a sequence of per-record verdicts.
pub struct InterfacesChecker;

impl InterfacesChecker {
    /// Checks if `results` has _at least 1_ element and if _any_ element is
    /// true.
    pub fn any(results: &Vec<bool>) -> (r: bool)
        ensures
            r == seq_any(results@),
    {
        let mut i: usize = 0;
        while i < results.len()
            invariant
                0 <= i <= results.len(),
                forall|k: int| 0 <= k < i ==> !results@[k],
            decreases results.len() - i,
        {
            if results[i] {
                return true;
            }
            i += 1;
        }
        false
    }

    /// Checks if `results` has _at least 1_ element and if _all_ elements are
    /// true.
    pub fn all(results: &Vec<bool>) -> (r: bool)
        ensures
            r == seq_all(results@),
    {
        if results.len() == 0 {
            return false;
        }
        let mut i: usize = 0;
        while i < results.len()
            invariant
                0 <= i <= results.len(),
                forall|k: int| 0 <= k < i ==> results@[k],
            decreases results.len() - i,
        {
            if !results[i] {
                return false;
            }
            i += 1;
        }
        true
    }
}

// ---------------------------------------------------------------------------
// The readiness predicate, mathematically
// ---------------------------------------------------------------------------
/// Whether a name passes an optional filter; no filter lets every name pass.
pub open spec fn passes_filter(ri: Option<RequireOrIgnoreModel>, name: Seq<char>) -> bool {
    match ri {
        None => true,
        Some(f) => passes_filter_spec(f, name),
    }
}

/// The per-record verdict of the lazy mode: loopback records are out, and a
/// record does not block readiness when it is up or when the name filter says
/// its interface is to be disregarded.
pub open spec fn lazy_online_spec(r: RecordModel, ia: InterfacesModel) -> Option<bool> {
    if r.loopback {
        None
    } else {
        Some(r.lower_up || !passes_filter(ia.require_or_ignore, r.name))
    }
}

/// Whether a record takes part in the exact mode at all: not loopback, name
/// passing the filter, address family satisfying the requirement on its own.
pub open spec fn exact_counts(r: RecordModel, ia: InterfacesModel) -> bool {
    &&& !r.loopback
    &&& passes_filter(ia.require_or_ignore, r.name)
    &&& family_matches(ia.family_type, r.family)
}

/// The per-record verdict of the exact mode: the up flag of every record that
/// takes part.
pub open spec fn exact_online_spec(r: RecordModel, ia: InterfacesModel) -> Option<bool> {
    if exact_counts(r, ia) {
        Some(r.lower_up)
    } else {
        None
    }
}

/// The names fixed in advance by a `Require` filter, if there is one.
pub open spec fn require_filter(ia: InterfacesModel) -> Option<Seq<Seq<char>>> {
    match ia.require_or_ignore {
        Some(f) => if f.action == InterfacesActionArgument::Require {
            Some(f.interfaces)
        } else {
            None
        },
        None => None,
    }
}

/// Whether a record feeds the family coverage of the interface named `name`.
/// Under a `Require` filter every record of a required name does — loopback
/// records included: a required loopback interface is still checked for
/// address-family presence, only its link flag stays out of consideration.
/// Otherwise the non-loopback records whose name passes the filter do.
pub open spec fn contributes(r: RecordModel, ia: InterfacesModel, name: Seq<char>) -> bool {
    r.name == name && match require_filter(ia) {
        Some(required) => name_in(required, name),
        None => !r.loopback && passes_filter(ia.require_or_ignore, name),
    }
}

/// Whether any record of the snapshot feeds the coverage of `name`.
pub open spec fn observed(records: Seq<RecordModel>, ia: InterfacesModel, name: Seq<char>) -> bool {
    exists|i: int| 0 <= i < records.len() && contributes(records[i], ia, name)
}

/// Whether some record of the snapshot shows the family `fam` for `name`.
pub open spec fn family_seen(
    records: Seq<RecordModel>,
    ia: InterfacesModel,
    name: Seq<char>,
    fam: AddressFamily,
) -> bool {
    exists|i: int|
        0 <= i < records.len() && contributes(records[i], ia, name) && records[i].family == Some(
            fam,
        )
}

/// The family coverage of `name` over the whole snapshot: nothing when no
/// record fed it, otherwise which of IPv4 and IPv6 were seen, as the union
/// across all of the name's records.
pub open spec fn coverage_spec(
    records: Seq<RecordModel>,
    ia: InterfacesModel,
    name: Seq<char>,
) -> Option<(bool, bool)> {
    if observed(records, ia, name) {
        Some(
            (
                family_seen(records, ia, name, AddressFamily::Inet),
                family_seen(records, ia, name, AddressFamily::Inet6),
            ),
        )
    } else {
        None
    }
}

/// The interface names the exact mode aggregates over: the required names
/// when a `Require` filter is present (so a name never observed stays
/// detectable as missing), otherwise the names the snapshot itself shows.
pub open spec fn in_domain(records: Seq<RecordModel>, ia: InterfacesModel, name: Seq<char>) -> bool {
    match require_filter(ia) {
        Some(required) => name_in(required, name),
        None => observed(records, ia, name),
    }
}

/// Whether the interface named `name` was observed with family coverage that
/// satisfies the requirement.
pub open spec fn name_ok(records: Seq<RecordModel>, ia: InterfacesModel, name: Seq<char>) -> bool {
    observed(records, ia, name) && family_sat(
        ia.family_type,
        family_seen(records, ia, name, AddressFamily::Inet),
        family_seen(records, ia, name, AddressFamily::Inet6),
    )
}

/// Whether every aggregated interface name is present with satisfying family
/// coverage.
pub open spec fn all_present(records: Seq<RecordModel>, ia: InterfacesModel) -> bool {
    forall|name: Seq<char>|
        #[trigger] in_domain(records, ia, name) ==> name_ok(records, ia, name)
}

/// The `all` combinator over the exact per-record verdicts: at least one
/// record takes part, and every record that takes part is up.
pub open spec fn exact_all_up(records: Seq<RecordModel>, ia: InterfacesModel) -> bool {
    &&& exists|i: int| 0 <= i < records.len() && #[trigger] exact_counts(records[i], ia)
    &&& forall|i: int|
        0 <= i < records.len() && #[trigger] exact_counts(records[i], ia) ==> records[i].lower_up
}

/// The exact mode under `All`: every participating record up, and every
/// aggregated name covered.
pub open spec fn exact_all_ready(records: Seq<RecordModel>, ia: InterfacesModel) -> bool {
    exact_all_up(records, ia) && all_present(records, ia)
}

/// The exact mode under `Any`: some record is a positive witness — up, name
/// passing the filter, family matching the requirement.
pub open spec fn exact_any_ready(records: Seq<RecordModel>, ia: InterfacesModel) -> bool {
    exists|i: int|
        0 <= i < records.len() && #[trigger] exact_counts(records[i], ia) && records[i].lower_up
}

/// The lazy mode (always combined with `all`): at least one non-loopback
/// record, and none of them blocking.
pub open spec fn lazy_ready(records: Seq<RecordModel>, ia: InterfacesModel) -> bool {
    &&& exists|i: int| 0 <= i < records.len() && !(#[trigger] records[i]).loopback
    &&& forall|i: int|
        0 <= i < records.len() && !(#[trigger] records[i]).loopback ==> records[i].lower_up
            || !passes_filter(ia.require_or_ignore, records[i].name)
}

/// No filters, `All`: at least one non-loopback record, all of them up.
pub open spec fn unfiltered_all_ready(records: Seq<RecordModel>) -> bool {
    &&& exists|i: int| 0 <= i < records.len() && !(#[trigger] records[i]).loopback
    &&& forall|i: int|
        0 <= i < records.len() && !(#[trigger] records[i]).loopback ==> records[i].lower_up
}

/// No filters, `Any`: at least one non-loopback record up.
pub open spec fn unfiltered_any_ready(records: Seq<RecordModel>) -> bool {
    exists|i: int| 0 <= i < records.len() && !(#[trigger] records[i]).loopback && records[i].lower_up
}

/// What [`network_online`] returns: the readiness verdict of one snapshot
/// under one policy.
pub open spec fn network_online_spec(records: Seq<RecordModel>, arg: NetworkModel) -> bool {
    match arg.interfaces_argument {
        None => if arg.any {
            unfiltered_any_ready(records)
        } else {
            unfiltered_all_ready(records)
        },
        Some(ia) => if arg.exact {
            if arg.any {
                exact_any_ready(records, ia)
            } else {
                exact_all_ready(records, ia)
            }
        } else {
            lazy_ready(records, ia)
        },
    }
}

// ---------------------------------------------------------------------------
// Per-record verdicts, executable
// ---------------------------------------------------------------------------
/// Computes [`lazy_online_spec`] for one record: nothing for a loopback
/// record, and for any other whether it leaves readiness unblocked, being up
/// or disregarded by the filter.
fn is_interface_online_lazy(
    ifaddr: &InterfaceRecord,
    interfaces_argument: &InterfacesArgument,
) -> (r: Option<bool>)
    ensures
        r == lazy_online_spec(ifaddr@, interfaces_argument@),
{
    if ifaddr.loopback {
        return None;
    }
    let skip = match &interfaces_argument.require_or_ignore {
        None => false,
        Some(f) => !check_require_or_ignore(&ifaddr.name, f),
    };
    Some(ifaddr.lower_up || skip)
}

/// Computes [`exact_online_spec`] for one record: nothing for a loopback
/// record and for a record whose name or family keeps it out, and for any
/// other its up flag.
fn is_interface_online_exact(
    ifaddr: &InterfaceRecord,
    interface_argument: &InterfacesArgument,
) -> (r: Option<bool>)
    ensures
        r == exact_online_spec(ifaddr@, interface_argument@),
{
    if ifaddr.loopback {
        return None;
    }
    let correct_family = match &interface_argument.family_type {
        None => ifaddr.family.is_some(),
        Some(f) => match ifaddr.family {
            Some(AddressFamily::Inet) => f.ipv4,
            Some(AddressFamily::Inet6) => f.ipv6,
            _ => false,
        },
    };
    let correct_name = match &interface_argument.require_or_ignore {
        None => true,
        Some(f) => check_require_or_ignore(&ifaddr.name, f),
    };
    if correct_family && correct_name {
        Some(ifaddr.lower_up)
    } else {
        None
    }
}

// ---------------------------------------------------------------------------
// Verdict sequences
// ---------------------------------------------------------------------------
/// The up/down verdicts of a snapshot with no filters, loopback records left
/// out.
fn up_verdicts(ifaddrs: &Vec<InterfaceRecord>) -> (v: Vec<bool>)
    ensures
        seq_all(v@) == unfiltered_all_ready(ifaddrs.deep_view()),
        seq_any(v@) == unfiltered_any_ready(ifaddrs.deep_view()),
{
    let ghost dv = ifaddrs.deep_view();
    let mut v: Vec<bool> = Vec::new();
    let mut i: usize = 0;
    while i < ifaddrs.len()
        invariant
            0 <= i <= ifaddrs.len(),
            dv == ifaddrs.deep_view(),
            (v@.len() > 0) == (exists|j: int| 0 <= j < i && !(#[trigger] dv[j]).loopback),
            all_true(v@) == (forall|j: int|
                0 <= j < i && !(#[trigger] dv[j]).loopback ==> dv[j].lower_up),
            seq_any(v@) == (exists|j: int|
                0 <= j < i && !(#[trigger] dv[j]).loopback && dv[j].lower_up),
        decreases ifaddrs.len() - i,
    {
        let record = &ifaddrs[i];
        proof {
            assert(record.deep_view() == dv[i as int]);
        }
        match is_interface_up(record) {
            Some(b) => {
                proof {
                    lemma_checker_push(v@, b);
                }
                v.push(b);
            },
            None => {},
        }
        i += 1;
    }
    v
}

/// The lazy verdicts of a snapshot, loopback records left out.
fn lazy_verdicts(ifaddrs: &Vec<InterfaceRecord>, interface_argument: &InterfacesArgument) -> (v:
    Vec<bool>)
    ensures
        seq_all(v@) == lazy_ready(ifaddrs.deep_view(), interface_argument@),
{
    let ghost dv = ifaddrs.deep_view();
    let ghost iam = interface_argument@;
    let mut v: Vec<bool> = Vec::new();
    let mut i: usize = 0;
    while i < ifaddrs.len()
        invariant
            0 <= i <= ifaddrs.len(),
            dv == ifaddrs.deep_view(),
            iam == interface_argument@,
            (v@.len() > 0) == (exists|j: int| 0 <= j < i && !(#[trigger] dv[j]).loopback),
            all_true(v@) == (forall|j: int|
                0 <= j < i && !(#[trigger] dv[j]).loopback ==> dv[j].lower_up || !passes_filter(
                    iam.require_or_ignore,
                    dv[j].name,
                )),
        decreases ifaddrs.len() - i,
    {
        let record = &ifaddrs[i];
        proof {
            assert(record.deep_view() == dv[i as int]);
        }
        match is_interface_online_lazy(record, interface_argument) {
            Some(b) => {
                proof {
                    lemma_checker_push(v@, b);
                }
                v.push(b);
            },
            None => {},
        }
        i += 1;
    }
    v
}

/// The exact verdicts of a snapshot: one entry per participating record.
fn exact_verdicts(ifaddrs: &Vec<InterfaceRecord>, interface_argument: &InterfacesArgument) -> (v:
    Vec<bool>)
    ensures
        seq_all(v@) == exact_all_up(ifaddrs.deep_view(), interface_argument@),
        seq_any(v@) == exact_any_ready(ifaddrs.deep_view(), interface_argument@),
{
    let ghost dv = ifaddrs.deep_view();
    let ghost iam = interface_argument@;
    let mut v: Vec<bool> = Vec::new();
    let mut i: usize = 0;
    while i < ifaddrs.len()
        invariant
            0 <= i <= ifaddrs.len(),
            dv == ifaddrs.deep_view(),
            iam == interface_argument@,
            (v@.len() > 0) == (exists|j: int| 0 <= j < i && #[trigger] exact_counts(dv[j], iam)),
            all_true(v@) == (forall|j: int|
                0 <= j < i && #[trigger] exact_counts(dv[j], iam) ==> dv[j].lower_up),
            seq_any(v@) == (exists|j: int|
                0 <= j < i && #[trigger] exact_counts(dv[j], iam) && dv[j].lower_up),
        decreases ifaddrs.len() - i,
    {
        let record = &ifaddrs[i];
        proof {
            assert(record.deep_view() == dv[i as int]);
        }
        match is_interface_online_exact(record, interface_argument) {
            Some(b) => {
                proof {
                    lemma_checker_push(v@, b);
                }
                v.push(b);
            },
            None => {},
        }
        i += 1;
    }
    v
}

// ---------------------------------------------------------------------------
// The aggregation map of the exact mode
// ---------------------------------------------------------------------------
/// One aggregation entry: an interface name together with the family
/// coverage seen for it so far, or nothing when the name was pre-seeded by a
/// `Require` filter and never observed.
struct AggEntry {
    name: String,
    seen: Option<(bool, bool)>,
}

/// The mathematical view of an [`AggEntry`].
ghost struct AggEntryModel {
    name: Seq<char>,
    seen: Option<(bool, bool)>,
}

impl View for AggEntry {
    type V = AggEntryModel;

    closed spec fn view(&self) -> AggEntryModel {
        AggEntryModel { name: self.name@, seen: self.seen }
    }
}

impl DeepView for AggEntry {
    type V = AggEntryModel;

    closed spec fn deep_view(&self) -> AggEntryModel {
        self.view()
    }
}

/// No two entries share a name.
spec fn names_unique(entries: Seq<AggEntryModel>) -> bool {
    forall|k1: int, k2: int|
        0 <= k1 < k2 < entries.len() ==> (#[trigger] entries[k1]).name != (
        #[trigger] entries[k2]).name
}

/// Whether some entry is named `name`.
spec fn has_entry(entries: Seq<AggEntryModel>, name: Seq<char>) -> bool {
    exists|k: int| 0 <= k < entries.len() && (#[trigger] entries[k]).name == name
}

/// A family can only have been seen for a name that was observed at all.
proof fn lemma_family_seen_observed(records: Seq<RecordModel>, ia: InterfacesModel, name: Seq<char>)
    ensures
        family_seen(records, ia, name, AddressFamily::Inet) ==> observed(records, ia, name),
        family_seen(records, ia, name, AddressFamily::Inet6) ==> observed(records, ia, name),
{
    if family_seen(records, ia, name, AddressFamily::Inet) {
        let i = choose|i: int|
            0 <= i < records.len() && contributes(records[i], ia, name) && records[i].family
                == Some(AddressFamily::Inet);
        assert(observed(records, ia, name));
    }
    if family_seen(records, ia, name, AddressFamily::Inet6) {
        let i = choose|i: int|
            0 <= i < records.len() && contributes(records[i], ia, name) && records[i].family
                == Some(AddressFamily::Inet6);
        assert(observed(records, ia, name));
    }
}


/// The index of the entry named `name`, if there is one.
fn find_entry(entries: &Vec<AggEntry>, name: &String) -> (r: Option<usize>)
    ensures
        match r {
            Some(j) => 0 <= j < entries.deep_view().len() && entries.deep_view()[j as int].name
                == name@,
            None => forall|k: int|
                0 <= k < entries.deep_view().len() ==> (#[trigger] entries.deep_view()[k]).name
                    != name@,
        },
{
    let mut j: usize = 0;
    while j < entries.len()
        invariant
            0 <= j <= entries.len(),
            forall|k: int| 0 <= k < j ==> (#[trigger] entries.deep_view()[k]).name != name@,
        decreases entries.len() - j,
    {
        if entries[j].name == *name {
            return Some(j);
        }
        j += 1;
    }
    None
}

/// How one appended record changes the coverage quantifiers.
proof fn lemma_coverage_push(
    records: Seq<RecordModel>,
    r: RecordModel,
    ia: InterfacesModel,
    name: Seq<char>,
)
    ensures
        observed(records.push(r), ia, name) == (observed(records, ia, name) || contributes(
            r,
            ia,
            name,
        )),
        family_seen(records.push(r), ia, name, AddressFamily::Inet) == (family_seen(
            records,
            ia,
            name,
            AddressFamily::Inet,
        ) || (contributes(r, ia, name) && r.family == Some(AddressFamily::Inet))),
        family_seen(records.push(r), ia, name, AddressFamily::Inet6) == (family_seen(
            records,
            ia,
            name,
            AddressFamily::Inet6,
        ) || (contributes(r, ia, name) && r.family == Some(AddressFamily::Inet6))),
{
    let p = records.push(r);
    assert(p[records.len() as int] == r);
    assert forall|i: int| 0 <= i < records.len() implies p[i] == records[i] by {}
    if observed(p, ia, name) {
        let i = choose|i: int| 0 <= i < p.len() && contributes(p[i], ia, name);
        if i < records.len() {
            assert(observed(records, ia, name));
        }
    }
    if observed(records, ia, name) {
        let i = choose|i: int| 0 <= i < records.len() && contributes(records[i], ia, name);
        assert(contributes(p[i], ia, name));
        assert(observed(p, ia, name));
    }
    if family_seen(p, ia, name, AddressFamily::Inet) {
        let i = choose|i: int|
            0 <= i < p.len() && contributes(p[i], ia, name) && p[i].family == Some(
                AddressFamily::Inet,
            );
        if i < records.len() {
            assert(family_seen(records, ia, name, AddressFamily::Inet));
        }
    }
    if family_seen(records, ia, name, AddressFamily::Inet) {
        let i = choose|i: int|
            0 <= i < records.len() && contributes(records[i], ia, name) && records[i].family
                == Some(AddressFamily::Inet);
        assert(contributes(p[i], ia, name) && p[i].family == Some(AddressFamily::Inet));
        assert(family_seen(p, ia, name, AddressFamily::Inet));
    }
    if family_seen(p, ia, name, AddressFamily::Inet6) {
        let i = choose|i: int|
            0 <= i < p.len() && contributes(p[i], ia, name) && p[i].family == Some(
                AddressFamily::Inet6,
            );
        if i < records.len() {
            assert(family_seen(records, ia, name, AddressFamily::Inet6));
        }
    }
    if family_seen(records, ia, name, AddressFamily::Inet6) {
        let i = choose|i: int|
            0 <= i < records.len() && contributes(records[i], ia, name) && records[i].family
                == Some(AddressFamily::Inet6);
        assert(contributes(p[i], ia, name) && p[i].family == Some(AddressFamily::Inet6));
        assert(family_seen(p, ia, name, AddressFamily::Inet6));
    }
}

/// The aggregation map of one snapshot: an entry for every aggregated name,
/// each carrying the family coverage the whole snapshot shows for it.
fn build_coverage(ifaddrs: &Vec<InterfaceRecord>, interface_argument: &InterfacesArgument) -> (m:
    Vec<AggEntry>)
    ensures
        forall|k: int|
            0 <= k < m.deep_view().len() ==> in_domain(
                ifaddrs.deep_view(),
                interface_argument@,
                (#[trigger] m.deep_view()[k]).name,
            ),
        forall|k: int|
            0 <= k < m.deep_view().len() ==> (#[trigger] m.deep_view()[k]).seen == coverage_spec(
                ifaddrs.deep_view(),
                interface_argument@,
                m.deep_view()[k].name,
            ),
        forall|n: Seq<char>|
            #[trigger] in_domain(ifaddrs.deep_view(), interface_argument@, n) ==> has_entry(
                m.deep_view(),
                n,
            ),
{
    let ghost dv = ifaddrs.deep_view();
    let ghost iam = interface_argument@;
    let mut m: Vec<AggEntry> = Vec::new();

    // Pre-seed the map with the required names, so that a required interface
    // never observed in the snapshot stays detectable as missing.
    let required = match &interface_argument.require_or_ignore {
        Some(f) => if f.action == InterfacesActionArgument::Require {
            Some(&f.interfaces)
        } else {
            None
        },
        None => None,
    };
    if let Some(names) = required {
        let ghost nv = names.deep_view();
        let mut j: usize = 0;
        while j < names.len()
            invariant
                0 <= j <= names.len(),
                nv == names.deep_view(),
                names_unique(m.deep_view()),
                forall|k: int|
                    0 <= k < m.deep_view().len() ==> (#[trigger] m.deep_view()[k]).seen is None
                        && name_in(nv, m.deep_view()[k].name),
                forall|jj: int| 0 <= jj < j ==> #[trigger] has_entry(m.deep_view(), nv[jj]),
            decreases names.len() - j,
        {
            let nm = &names[j];
            let ghost old_m = m.deep_view();
            match find_entry(&m, nm) {
                Some(_) => {
                    assert(has_entry(m.deep_view(), nm@));
                },
                None => {
                    m.push(AggEntry { name: nm.clone(), seen: None });
                    proof {
                        assert forall|k: int| 0 <= k < old_m.len() implies #[trigger] m.deep_view()[k]
                            == old_m[k] by {}
                        assert(m.deep_view()[old_m.len() as int].name == nm@);
                        assert(has_entry(m.deep_view(), nm@));
                        assert(nv[j as int] == nm@);
                        assert(name_in(nv, nm@));
                        assert forall|n: Seq<char>| has_entry(old_m, n) implies #[trigger] has_entry(
                            m.deep_view(),
                            n,
                        ) by {
                            let k = choose|k: int|
                                0 <= k < old_m.len() && (#[trigger] old_m[k]).name == n;
                            assert(m.deep_view()[k].name == n);
                        }
                    }
                },
            }
            j += 1;
        }
    }
    proof {
        assert(dv.take(0) =~= Seq::<RecordModel>::empty());
    }

    // Fold every record of the snapshot into the map.
    let mut i: usize = 0;
    while i < ifaddrs.len()
        invariant
            0 <= i <= ifaddrs.len(),
            dv == ifaddrs.deep_view(),
            iam == interface_argument@,
            names_unique(m.deep_view()),
            forall|k: int|
                0 <= k < m.deep_view().len() ==> in_domain(
                    dv,
                    iam,
                    (#[trigger] m.deep_view()[k]).name,
                ),
            forall|k: int|
                0 <= k < m.deep_view().len() ==> (#[trigger] m.deep_view()[k]).seen
                    == coverage_spec(dv.take(i as int), iam, m.deep_view()[k].name),
            forall|n: Seq<char>|
                #[trigger] in_domain(dv.take(i as int), iam, n) ==> has_entry(m.deep_view(), n),
        decreases ifaddrs.len() - i,
    {
        let ghost prefix = dv.take(i as int);
        let record = &ifaddrs[i];
        let ghost rm = dv[i as int];
        proof {
            assert(rm == record.deep_view());
            assert(dv.take(i + 1) =~= prefix.push(rm));
        }
        let contributes_now = match &interface_argument.require_or_ignore {
            None => !record.loopback,
            Some(f) => {
                if f.action == InterfacesActionArgument::Require {
                    contains_name(&f.interfaces, &record.name)
                } else {
                    !record.loopback && !contains_name(&f.interfaces, &record.name)
                }
            },
        };
        assert(contributes_now == contributes(rm, iam, rm.name));
        let ghost old_m = m.deep_view();
        if contributes_now {
            let current: (bool, bool) = match record.family {
                Some(AddressFamily::Inet) => (true, false),
                Some(AddressFamily::Inet6) => (false, true),
                _ => (false, false),
            };
            proof {
                assert(current.0 == (rm.family == Some(AddressFamily::Inet)));
                assert(current.1 == (rm.family == Some(AddressFamily::Inet6)));
            }
            match find_entry(&m, &record.name) {
                Some(j) => {
                    let updated: (bool, bool) = match m[j].seen {
                        Some(prev) => (prev.0 || current.0, prev.1 || current.1),
                        None => current,
                    };
                    m[j].seen = Some(updated);
                    proof {
                        let new_m = m.deep_view();
                        assert(new_m.len() == old_m.len());
                        assert forall|k: int| 0 <= k < old_m.len() && k != j implies #[trigger] new_m[k]
                            == old_m[k] by {}
                        assert(new_m[j as int].name == old_m[j as int].name);
                        assert(new_m[j as int].seen == Some(updated));
                        assert(old_m[j as int].name == rm.name);
                        assert forall|n: Seq<char>| has_entry(old_m, n) implies #[trigger] has_entry(
                            new_m,
                            n,
                        ) by {
                            let k = choose|k: int|
                                0 <= k < old_m.len() && (#[trigger] old_m[k]).name == n;
                            assert(new_m[k].name == n);
                        }
                        assert forall|k: int| 0 <= k < new_m.len() implies (#[trigger] new_m[k]).seen
                            == coverage_spec(dv.take(i + 1), iam, new_m[k].name) by {
                            let n = new_m[k].name;
                            lemma_coverage_push(prefix, rm, iam, n);
                            lemma_family_seen_observed(prefix, iam, n);
                            if k != j {
                                assert(old_m[k].name != rm.name);
                                assert(!contributes(rm, iam, n));
                            }
                        }
                        assert forall|n: Seq<char>| #[trigger]
                            in_domain(dv.take(i + 1), iam, n) implies has_entry(new_m, n) by {
                            lemma_coverage_push(prefix, rm, iam, n);
                            if in_domain(prefix, iam, n) {
                                assert(has_entry(old_m, n));
                            } else {
                                assert(contributes(rm, iam, n));
                                assert(n == rm.name);
                                assert(new_m[j as int].name == n);
                            }
                        }
                    }
                },
                None => {
                    // A newly discovered interface; under a `Require` filter
                    // every contributing name is already seeded, so this only
                    // happens while discovering is allowed.
                    m.push(AggEntry { name: record.name.clone(), seen: Some(current) });
                    proof {
                        let new_m = m.deep_view();
                        assert forall|k: int| 0 <= k < old_m.len() implies #[trigger] new_m[k]
                            == old_m[k] by {}
                        assert(new_m[old_m.len() as int].name == rm.name);
                        assert(new_m[old_m.len() as int].seen == Some(current));
                        assert forall|n: Seq<char>| has_entry(old_m, n) implies #[trigger] has_entry(
                            new_m,
                            n,
                        ) by {
                            let k = choose|k: int|
                                0 <= k < old_m.len() && (#[trigger] old_m[k]).name == n;
                            assert(new_m[k].name == n);
                        }
                        // under a `Require` filter this branch cannot run
                        if require_filter(iam) is Some {
                            assert(in_domain(prefix, iam, rm.name));
                            assert(has_entry(old_m, rm.name));
                            let k = choose|k: int|
                                0 <= k < old_m.len() && (#[trigger] old_m[k]).name == rm.name;
                            assert(false);
                        }
                        assert(observed(dv, iam, rm.name));
                        assert(in_domain(dv, iam, rm.name));
                        assert(!observed(prefix, iam, rm.name)) by {
                            if observed(prefix, iam, rm.name) {
                                assert(in_domain(prefix, iam, rm.name));
                                assert(has_entry(old_m, rm.name));
                                let k = choose|k: int|
                                    0 <= k < old_m.len() && (#[trigger] old_m[k]).name == rm.name;
                            }
                        }
                        assert forall|k: int| 0 <= k < new_m.len() implies (#[trigger] new_m[k]).seen
                            == coverage_spec(dv.take(i + 1), iam, new_m[k].name) by {
                            let n = new_m[k].name;
                            lemma_coverage_push(prefix, rm, iam, n);
                            lemma_family_seen_observed(prefix, iam, n);
                            if k < old_m.len() {
                                assert(old_m[k].name != rm.name);
                                assert(!contributes(rm, iam, n));
                            }
                        }
                        assert forall|n: Seq<char>| #[trigger]
                            in_domain(dv.take(i + 1), iam, n) implies has_entry(new_m, n) by {
                            lemma_coverage_push(prefix, rm, iam, n);
                            if in_domain(prefix, iam, n) {
                                assert(has_entry(old_m, n));
                            } else {
                                assert(contributes(rm, iam, n));
                                assert(n == rm.name);
                                assert(new_m[old_m.len() as int].name == n);
                            }
                        }
                    }
                },
            }
        } else {
            proof {
                assert forall|k: int| 0 <= k < old_m.len() implies (#[trigger] old_m[k]).seen
                    == coverage_spec(dv.take(i + 1), iam, old_m[k].name) by {
                    let n = old_m[k].name;
                    lemma_coverage_push(prefix, rm, iam, n);
                    assert(!contributes(rm, iam, n));
                }
                assert forall|n: Seq<char>| #[trigger]
                    in_domain(dv.take(i + 1), iam, n) implies has_entry(old_m, n) by {
                    lemma_coverage_push(prefix, rm, iam, n);
                    if !in_domain(prefix, iam, n) {
                        assert(contributes(rm, iam, n));
                        assert(n == rm.name);
                        assert(false);
                    }
                }
            }
        }
        i += 1;
    }
    proof {
        assert(dv.take(dv.len() as int) =~= dv);
    }
    m
}

/// Whether one aggregation entry satisfies the family requirement: a
/// pre-seeded name never observed does not, an observed one does when the
/// families seen for it cover the requirement.
spec fn entry_sat(e: AggEntryModel, family_type: Option<InterfacesFamilyTypeArgument>) -> bool {
    match e.seen {
        None => false,
        Some(seen) => family_sat(family_type, seen.0, seen.1),
    }
}

/// Checks every entry of the aggregation map against the family requirement.
fn coverage_ok(entries: &Vec<AggEntry>, family_type: &Option<InterfacesFamilyTypeArgument>) -> (r:
    bool)
    ensures
        r == (forall|k: int|
            0 <= k < entries.deep_view().len() ==> entry_sat(
                #[trigger] entries.deep_view()[k],
                *family_type,
            )),
{
    let mut k: usize = 0;
    while k < entries.len()
        invariant
            0 <= k <= entries.len(),
            forall|kk: int|
                0 <= kk < k ==> entry_sat(#[trigger] entries.deep_view()[kk], *family_type),
        decreases entries.len() - k,
    {
        let e = &entries[k];
        let ok = match e.seen {
            None => false,
            Some((has_ipv4, has_ipv6)) => match family_type {
                None => has_ipv4 || has_ipv6,
                Some(f) => (has_ipv4 && has_ipv6) || ((f.ipv4 != f.ipv6) && ((f.ipv4 && has_ipv4)
                    || (f.ipv6 && has_ipv6))),
            },
        };
        proof {
            assert(e.deep_view() == entries.deep_view()[k as int]);
            assert(ok == entry_sat(entries.deep_view()[k as int], *family_type));
        }
        if !ok {
            return false;
        }
        k += 1;
    }
    true
}

// ---------------------------------------------------------------------------
// The readiness predicate, executable
// ---------------------------------------------------------------------------
/// The lazy mode: per-record short-circuit verdicts, combined with `all`.
fn network_online_lazy(
    ifaddrs: &Vec<InterfaceRecord>,
    interface_argument: &InterfacesArgument,
) -> (r: bool)
    ensures
        r == lazy_ready(ifaddrs.deep_view(), interface_argument@),
{
    let online = lazy_verdicts(ifaddrs, interface_argument);
    InterfacesChecker::all(&online)
}

/// The exact mode: under `Any` a single positive witness decides; under
/// `All` every participating record must be up and every aggregated name
/// must be present with satisfying family coverage.
fn network_online_exact(
    ifaddrs: &Vec<InterfaceRecord>,
    any: bool,
    interface_argument: &InterfacesArgument,
) -> (r: bool)
    ensures
        r == (if any {
            exact_any_ready(ifaddrs.deep_view(), interface_argument@)
        } else {
            exact_all_ready(ifaddrs.deep_view(), interface_argument@)
        }),
{
    let ghost dv = ifaddrs.deep_view();
    let ghost iam = interface_argument@;
    let verdicts = exact_verdicts(ifaddrs, interface_argument);
    if any {
        return InterfacesChecker::any(&verdicts);
    }

    let all_up = InterfacesChecker::all(&verdicts);

    let coverage = build_coverage(ifaddrs, interface_argument);
    let present = coverage_ok(&coverage, &interface_argument.family_type);
    proof {
        let mdv = coverage.deep_view();
        if present {
            assert forall|n: Seq<char>| #[trigger]
                in_domain(dv, iam, n) implies name_ok(dv, iam, n) by {
                let k = choose|k: int| 0 <= k < mdv.len() && (#[trigger] mdv[k]).name == n;
                assert(entry_sat(mdv[k], iam.family_type));
            }
            assert(all_present(dv, iam));
        } else {
            let k = choose|k: int|
                0 <= k < mdv.len() && !entry_sat(#[trigger] mdv[k], iam.family_type);
            assert(in_domain(dv, iam, mdv[k].name));
            assert(!name_ok(dv, iam, mdv[k].name));
            assert(!all_present(dv, iam));
        }
    }
    all_up && present
}

/// Checks if the network is online for one snapshot, given the requirements
/// provided by `network_argument`.
pub fn network_online(ifaddrs: &Vec<InterfaceRecord>, network_argument: &NetworkArgument) -> (r:
    bool)
    ensures
        r == network_online_spec(ifaddrs.deep_view(), network_argument@),
{
    match (network_argument.exact, network_argument.any, &network_argument.interfaces_argument) {
        (_, false, None) => {
            let results = up_verdicts(ifaddrs);
            InterfacesChecker::all(&results)
        },
        (_, true, None) => {
            let results = up_verdicts(ifaddrs);
            InterfacesChecker::any(&results)
        },
        (true, any, Some(interface_argument)) => network_online_exact(
            ifaddrs,
            any,
            interface_argument,
        ),
        (false, _, Some(interface_argument)) => network_online_lazy(ifaddrs, interface_argument),
    }
}

// ---------------------------------------------------------------------------
// Deriving the policy from a configuration
// ---------------------------------------------------------------------------
/// The mode and filters that a configuration denotes: no filters at all means
/// the plain mode; a name filter alone, under `All`, selects the exact mode
/// exactly for `Require` (whose aggregation must notice missing names); any
/// family requirement, and any filter under `Any`, selects the exact mode.
pub open spec fn interfaces_from_args_model(a: ArgsModel) -> (bool, Option<InterfacesModel>) {
    let require_or_ignore = parse_args_model(a.interface, a.ignore);
    let family_type = family_requirement_spec(a.ipv4, a.ipv6);
    match (require_or_ignore, family_type) {
        (None, None) => (false, None),
        (Some(f), None) => if !a.any {
            (
                f.action == InterfacesActionArgument::Require,
                Some(InterfacesModel { require_or_ignore: Some(f), family_type: None }),
            )
        } else {
            (true, Some(InterfacesModel { require_or_ignore: Some(f), family_type: None }))
        },
        (ri, ft) => (true, Some(InterfacesModel { require_or_ignore: ri, family_type: ft })),
    }
}

/// The policy that a configuration denotes.
pub open spec fn network_from_args_model(a: ArgsModel) -> NetworkModel {
    let (exact, interfaces_argument) = interfaces_from_args_model(a);
    NetworkModel { interfaces_argument, exact, any: a.any }
}

/// A copy of a name list.
fn clone_names(names: &Vec<String>) -> (r: Vec<String>)
    ensures
        r.deep_view() == names.deep_view(),
{
    let mut r: Vec<String> = Vec::new();
    let mut i: usize = 0;
    while i < names.len()
        invariant
            0 <= i <= names.len(),
            r@.len() == i,
            forall|k: int| 0 <= k < i ==> r.deep_view()[k] == names.deep_view()[k],
        decreases names.len() - i,
    {
        r.push(names[i].clone());
        i += 1;
    }
    proof {
        assert(r.deep_view() =~= names.deep_view());
    }
    r
}

impl InterfacesArgument {
    /// Derives the evaluation mode and the filters from a configuration; see
    /// [`interfaces_from_args_model`].
    pub fn from_args(args: &Args) -> (r: (bool, Option<InterfacesArgument>))
        requires
            !(args.interface is Some && args.ignore is Some),
        ensures
            r.0 == interfaces_from_args_model(args@).0,
            r.1.deep_view() == interfaces_from_args_model(args@).1,
    {
        let interface = match &args.interface {
            Some(v) => Some(clone_names(v)),
            None => None,
        };
        let ignore = match &args.ignore {
            Some(v) => Some(clone_names(v)),
            None => None,
        };
        let require_or_ignore = InterfacesRequireOrIgnoreArgument::parse_args(interface, ignore);
        let family_type = InterfacesFamilyTypeArgument::from_args(args.ipv4, args.ipv6);

        match (require_or_ignore, family_type, args.any) {
            (None, None, _) => (false, None),
            (Some((interfaces, action)), None, false) => (
                action == InterfacesActionArgument::Require,
                Some(
                    InterfacesArgument {
                        require_or_ignore: Some(
                            InterfacesRequireOrIgnoreArgument::new(interfaces, action),
                        ),
                        family_type: None,
                    },
                ),
            ),
            (require_or_ignore, family_type, _) => (
                true,
                Some(
                    InterfacesArgument {
                        require_or_ignore: match require_or_ignore {
                            Some((interfaces, action)) => Some(
                                InterfacesRequireOrIgnoreArgument::new(interfaces, action),
                            ),
                            None => None,
                        },
                        family_type,
                    },
                ),
            ),
        }
    }
}

impl NetworkArgument {
    /// The policy that a configuration denotes; see
    /// [`interfaces_from_args_model`].
    pub fn from(args: &Args) -> (r: Self)
        requires
            !(args.interface is Some && args.ignore is Some),
        ensures
            r@ == network_from_args_model(args@),
    {
        let (exact, interfaces_argument) = InterfacesArgument::from_args(args);
        Self { interfaces_argument, exact, any: args.any }
    }
}

impl Default for NetworkArgument {
    /// The policy with no filters: all non-loopback interfaces must be up.
    fn default() -> (r: Self)
        ensures
            r@ == (NetworkModel {
                interfaces_argument: None::<InterfacesModel>,
                exact: false,
                any: false,
            }),
    {
        Self { interfaces_argument: None, exact: false, any: false }
    }
}

// ---------------------------------------------------------------------------
// Laws
// ---------------------------------------------------------------------------
/// An empty snapshot is never ready, whatever the policy: neither `All` nor
/// `Any` is vacuously true over zero interfaces.
pub proof fn lemma_empty_snapshot_not_ready(arg: NetworkModel)
    ensures
        !network_online_spec(Seq::<RecordModel>::empty(), arg),
{
}

/// A snapshot holding only loopback records, under a policy with no filters,
/// is never ready — whatever the records' flags, and under `All` as under
/// `Any`.
pub proof fn lemma_only_loopback_not_ready(records: Seq<RecordModel>, arg: NetworkModel)
    requires
        arg.interfaces_argument is None,
        forall|i: int| 0 <= i < records.len() ==> (#[trigger] records[i]).loopback,
    ensures
        !network_online_spec(records, arg),
{
    if unfiltered_any_ready(records) {
        let i = choose|i: int|
            0 <= i < records.len() && !(#[trigger] records[i]).loopback && records[i].lower_up;
        assert(records[i].loopback);
    }
    if unfiltered_all_ready(records) {
        let i = choose|i: int| 0 <= i < records.len() && !(#[trigger] records[i]).loopback;
        assert(records[i].loopback);
    }
}

/// Under a policy with no filters a loopback record is invisible: it is
/// never a positive witness toward `Any`, and it never blocks `All`.
pub proof fn lemma_loopback_invisible_unfiltered(
    records: Seq<RecordModel>,
    r: RecordModel,
    arg: NetworkModel,
)
    requires
        arg.interfaces_argument is None,
        r.loopback,
    ensures
        network_online_spec(records.push(r), arg) == network_online_spec(records, arg),
{
    let p = records.push(r);
    assert(p[records.len() as int] == r);
    assert forall|i: int| 0 <= i < records.len() implies p[i] == records[i] by {}
    if unfiltered_any_ready(p) {
        let i = choose|i: int| 0 <= i < p.len() && !(#[trigger] p[i]).loopback && p[i].lower_up;
        assert(i < records.len());
        assert(unfiltered_any_ready(records));
    }
    if unfiltered_any_ready(records) {
        let i = choose|i: int|
            0 <= i < records.len() && !(#[trigger] records[i]).loopback && records[i].lower_up;
        assert(!p[i].loopback && p[i].lower_up);
        assert(unfiltered_any_ready(p));
    }
    if exists|i: int| 0 <= i < p.len() && !(#[trigger] p[i]).loopback {
        let i = choose|i: int| 0 <= i < p.len() && !(#[trigger] p[i]).loopback;
        assert(i < records.len());
        assert(!records[i].loopback);
    }
    if exists|i: int| 0 <= i < records.len() && !(#[trigger] records[i]).loopback {
        let i = choose|i: int| 0 <= i < records.len() && !(#[trigger] records[i]).loopback;
        assert(!p[i].loopback);
    }
    assert forall|i: int|
        0 <= i < records.len() && !(#[trigger] records[i]).loopback implies records[i] == p[i] by {}
}

/// Under a `Require` filter in the exact `All` mode, a required name that no
/// record of the snapshot carries makes the verdict not-ready, regardless of
/// everything else in the snapshot.
pub proof fn lemma_missing_required_not_ready(
    records: Seq<RecordModel>,
    arg: NetworkModel,
    ia: InterfacesModel,
    required: Seq<Seq<char>>,
    name: Seq<char>,
)
    requires
        arg.interfaces_argument == Some(ia),
        arg.exact,
        !arg.any,
        require_filter(ia) == Some(required),
        name_in(required, name),
        forall|i: int| 0 <= i < records.len() ==> (#[trigger] records[i]).name != name,
    ensures
        !network_online_spec(records, arg),
{
    assert(in_domain(records, ia, name));
    if observed(records, ia, name) {
        let i = choose|i: int| 0 <= i < records.len() && contributes(records[i], ia, name);
        assert(records[i].name == name);
    }
    assert(!name_ok(records, ia, name));
    assert(!all_present(records, ia));
}

/// Under an `Ignore` filter in the lazy mode, an ignored non-loopback record
/// neither blocks readiness (even when it is down) nor helps beyond keeping
/// the snapshot non-empty: adding it leaves the verdict as it was, except
/// that over a snapshot of loopback records only it supplies the one
/// non-blocking record that `All` needs.
pub proof fn lemma_ignored_record_does_not_block(
    records: Seq<RecordModel>,
    r: RecordModel,
    arg: NetworkModel,
    ia: InterfacesModel,
    f: RequireOrIgnoreModel,
)
    requires
        arg.interfaces_argument == Some(ia),
        !arg.exact,
        ia.require_or_ignore == Some(f),
        f.action == InterfacesActionArgument::Ignore,
        name_in(f.interfaces, r.name),
        !r.loopback,
    ensures
        network_online_spec(records.push(r), arg) == (network_online_spec(records, arg) || (
        forall|i: int| 0 <= i < records.len() ==> (#[trigger] records[i]).loopback)),
{
    let p = records.push(r);
    assert(p[records.len() as int] == r);
    assert forall|i: int| 0 <= i < records.len() implies p[i] == records[i] by {}
    assert(!passes_filter(ia.require_or_ignore, r.name));
    assert(exists|i: int| 0 <= i < p.len() && !(#[trigger] p[i]).loopback);
    if forall|i: int|
        0 <= i < records.len() && !(#[trigger] records[i]).loopback ==> records[i].lower_up
            || !passes_filter(ia.require_or_ignore, records[i].name) {
        assert forall|i: int| 0 <= i < p.len() && !(#[trigger] p[i]).loopback implies p[i].lower_up
            || !passes_filter(ia.require_or_ignore, p[i].name) by {
            if i < records.len() {
                assert(p[i] == records[i]);
            }
        }
    }
    if forall|i: int|
        0 <= i < p.len() && !(#[trigger] p[i]).loopback ==> p[i].lower_up || !passes_filter(
            ia.require_or_ignore,
            p[i].name,
        ) {
        assert forall|i: int|
            0 <= i < records.len() && !(#[trigger] records[i]).loopback implies records[i].lower_up
                || !passes_filter(ia.require_or_ignore, records[i].name) by {
            assert(p[i] == records[i]);
        }
    }
    if exists|i: int| 0 <= i < records.len() && !(#[trigger] records[i]).loopback {
    } else {
        assert forall|i: int| 0 <= i < records.len() implies (#[trigger] records[i]).loopback by {
            if !records[i].loopback {
                assert(exists|j: int| 0 <= j < records.len() && !(#[trigger] records[j]).loopback);
            }
        }
    }
}

/// Under an `Ignore` filter in the exact `Any` mode, an ignored record is
/// never a positive witness: adding it changes nothing.
pub proof fn lemma_ignored_record_no_witness(
    records: Seq<RecordModel>,
    r: RecordModel,
    arg: NetworkModel,
    ia: InterfacesModel,
    f: RequireOrIgnoreModel,
)
    requires
        arg.interfaces_argument == Some(ia),
        arg.exact,
        arg.any,
        ia.require_or_ignore == Some(f),
        f.action == InterfacesActionArgument::Ignore,
        name_in(f.interfaces, r.name),
    ensures
        network_online_spec(records.push(r), arg) == network_online_spec(records, arg),
{
    let p = records.push(r);
    assert(p[records.len() as int] == r);
    assert forall|i: int| 0 <= i < records.len() implies p[i] == records[i] by {}
    assert(!passes_filter(ia.require_or_ignore, r.name));
    assert(!exact_counts(r, ia));
    if exact_any_ready(p, ia) {
        let i = choose|i: int|
            0 <= i < p.len() && #[trigger] exact_counts(p[i], ia) && p[i].lower_up;
        assert(i < records.len());
        assert(exact_counts(records[i], ia) && records[i].lower_up);
    }
    if exact_any_ready(records, ia) {
        let i = choose|i: int|
            0 <= i < records.len() && #[trigger] exact_counts(records[i], ia)
                && records[i].lower_up;
        assert(exact_counts(p[i], ia) && p[i].lower_up);
    }
}

/// Dual-stack aggregation: when both families are required and a name is
/// required, a ready verdict in the exact `All` mode means that both an IPv4
/// and an IPv6 observation of that name exist somewhere among its records,
/// and that every record taking part in the up-check is up.
pub proof fn lemma_dual_stack_requires_both(
    records: Seq<RecordModel>,
    arg: NetworkModel,
    ia: InterfacesModel,
    required: Seq<Seq<char>>,
    ft: InterfacesFamilyTypeArgument,
    name: Seq<char>,
)
    requires
        arg.interfaces_argument == Some(ia),
        arg.exact,
        !arg.any,
        require_filter(ia) == Some(required),
        ia.family_type == Some(ft),
        ft.ipv4,
        ft.ipv6,
        name_in(required, name),
        network_online_spec(records, arg),
    ensures
        family_seen(records, ia, name, AddressFamily::Inet),
        family_seen(records, ia, name, AddressFamily::Inet6),
        forall|i: int|
            0 <= i < records.len() && #[trigger] exact_counts(records[i], ia)
                ==> records[i].lower_up,
{
    assert(in_domain(records, ia, name));
    assert(name_ok(records, ia, name));
}

/// Two snapshots holding equal records are ready under exactly the same
/// policies: nothing besides the records and the policy enters the
/// evaluation.
pub proof fn lemma_idempotent(a: Seq<RecordModel>, b: Seq<RecordModel>, arg: NetworkModel)
    requires
        a =~= b,
    ensures
        network_online_spec(a, arg) == network_online_spec(b, arg),
{
    assert(a == b);
}

} // verus!
