use wait_online::arguments::Args;
use wait_online::ifaddrs::InterfaceRecord;
use wait_online::sockaddr::AddressFamily;
use wait_online::{network_online, NetworkArgument};

/// One mock observation. The kernel enumeration attaches an address record
/// to every interface it lists, so even interfaces without a real address
/// show up with some non-IP family; `family` here is therefore `Some(...)`
/// throughout, with `AddressFamily::Other` standing in for the non-IP
/// families.
fn rec(name: &str, loopback: bool, lower_up: bool, family: AddressFamily) -> InterfaceRecord {
    InterfaceRecord { name: name.to_string(), loopback, lower_up, family: Some(family) }
}

fn loopback_up(name: &str) -> InterfaceRecord {
    rec(name, true, true, AddressFamily::Other)
}

fn up(name: &str) -> InterfaceRecord {
    rec(name, false, true, AddressFamily::Other)
}

fn lower_layer_down(name: &str) -> InterfaceRecord {
    rec(name, false, false, AddressFamily::Other)
}

#[test]
fn basic() {
    let n_args = NetworkArgument::default();

    let mut v = vec![loopback_up("lo"), up("eth0")];
    assert!(network_online(&v, &n_args));

    v.push(lower_layer_down("eth1"));
    assert!(!network_online(&v, &n_args));

    v.pop();
    v.push(up("eth2"));
    assert!(network_online(&v, &n_args));
}

#[test]
fn only_loopback() {
    let n_args = NetworkArgument::default();

    let mut v = vec![loopback_up("lo")];
    assert!(!network_online(&v, &n_args));

    let args = Args::new().ipv4(true);
    let n_args = NetworkArgument::from(&args);
    assert!(!network_online(&v, &n_args));

    v.push(rec("eth0", false, true, AddressFamily::Inet));
    assert!(network_online(&v, &n_args));
}

#[test]
fn implicit_ignore_loopback() {
    let mut args = Args::new();
    args.ipv4 = true;
    let n_args = NetworkArgument::from(&args);

    let v = vec![loopback_up("lo"), rec("eth0", false, true, AddressFamily::Inet)];
    assert!(network_online(&v, &n_args));
}

#[test]
fn require_loopback() {
    let mut args = Args::new();
    args.ipv4 = true;
    args.interface = Some(vec!["lo".into()]);
    let n_args = NetworkArgument::from(&args);

    let mut v = vec![rec("lo", true, true, AddressFamily::Other)];
    assert!(!network_online(&v, &n_args));

    v.push(rec("lo", true, true, AddressFamily::Inet));
    assert!(!network_online(&v, &n_args));
}

#[test]
fn family_type_v4() {
    let mut args = Args::new();
    args.ipv4 = true;
    let n_args = NetworkArgument::from(&args);

    let mut v = vec![rec("eth0", false, true, AddressFamily::Inet)];
    assert!(network_online(&v, &n_args));

    v.push(rec("eth1", false, false, AddressFamily::Inet));
    assert!(!network_online(&v, &n_args));

    v.pop();
    v.push(rec("eth2", false, false, AddressFamily::Inet6));
    assert!(!network_online(&v, &n_args));

    v.push(rec("eth2", false, true, AddressFamily::Inet));
    assert!(network_online(&v, &n_args));
}

#[test]
fn family_type_v6() {
    let mut args = Args::new();
    args.ipv6 = true;
    let n_args = NetworkArgument::from(&args);

    let mut v = vec![rec("eth0", false, true, AddressFamily::Inet6)];
    assert!(network_online(&v, &n_args));

    v.push(rec("eth1", false, false, AddressFamily::Inet6));
    assert!(!network_online(&v, &n_args));

    v.pop();
    v.push(rec("eth2", false, false, AddressFamily::Inet));
    assert!(!network_online(&v, &n_args));

    v.push(rec("eth2", false, true, AddressFamily::Inet6));
    assert!(network_online(&v, &n_args));
}

#[test]
fn require_single() {
    let mut args = Args::new();
    args.interface = Some(vec!["eth1".into()]);
    let n_args = NetworkArgument::from(&args);

    let mut v = vec![loopback_up("lo"), up("eth0"), lower_layer_down("eth1")];

    assert!(!network_online(&v, &n_args));

    v.pop();
    v.push(up("eth1"));
    assert!(!network_online(&v, &n_args));
}

#[test]
fn require_missing() {
    let mut args = Args::new();
    args.interface = Some(vec!["eth999999".into()]);
    let n_args = NetworkArgument::from(&args);

    let v = vec![loopback_up("lo"), up("eth0")];
    assert!(!network_online(&v, &n_args));
}

#[test]
fn require_multi() {
    let mut args = Args::new();
    args.interface = Some(vec!["eth1".into(), "eth2".into()]);
    let n_args = NetworkArgument::from(&args);

    let mut v = vec![
        rec("eth0", false, true, AddressFamily::Inet),
        rec("eth1", false, false, AddressFamily::Inet),
        rec("eth2", false, false, AddressFamily::Inet),
    ];

    assert!(!network_online(&v, &n_args));

    v[0] = rec("eth0", false, false, AddressFamily::Inet);
    assert!(!network_online(&v, &n_args));

    v[1] = rec("eth1", false, true, AddressFamily::Inet);
    assert!(!network_online(&v, &n_args));

    v[1] = rec("eth1", false, false, AddressFamily::Inet);
    v[2] = rec("eth2", false, true, AddressFamily::Inet);
    assert!(!network_online(&v, &n_args));

    v[1] = rec("eth1", false, true, AddressFamily::Inet);
    assert!(network_online(&v, &n_args));

    v[0] = rec("eth0", false, false, AddressFamily::Inet);
    assert!(network_online(&v, &n_args));
}

#[test]
fn ignore_single() {
    let mut args = Args::new();
    args.ignore = Some(vec!["eth0".into()]);
    let n_args = NetworkArgument::from(&args);

    let mut v = vec![
        rec("lo", true, true, AddressFamily::Inet6),
        rec("eth0", false, false, AddressFamily::Inet),
        rec("eth1", false, true, AddressFamily::Inet6),
    ];

    assert!(network_online(&v, &n_args));

    v[1] = rec("eth0", false, true, AddressFamily::Inet);
    v[2] = rec("eth1", false, false, AddressFamily::Inet6);
    assert!(!network_online(&v, &n_args));
}

#[test]
fn ignore_multi() {
    let mut args = Args::new();
    args.ignore = Some(vec!["eth1".into(), "eth2".to_string()]);
    let n_args = NetworkArgument::from(&args);

    let mut v = vec![
        rec("eth0", false, false, AddressFamily::Inet6),
        rec("eth1", false, false, AddressFamily::Inet6),
        rec("eth2", false, false, AddressFamily::Inet6),
    ];

    assert!(!network_online(&v, &n_args));

    v[0] = rec("eth0", false, true, AddressFamily::Inet6);
    assert!(network_online(&v, &n_args));

    v[1] = rec("eth1", false, true, AddressFamily::Inet6);
    assert!(network_online(&v, &n_args));

    v[1] = rec("eth1", false, false, AddressFamily::Inet6);
    v[2] = rec("eth2", false, true, AddressFamily::Inet6);
    assert!(network_online(&v, &n_args));

    v[1] = rec("eth1", false, true, AddressFamily::Inet6);
    assert!(network_online(&v, &n_args));
}

#[test]
fn any() {
    let mut args = Args::new();
    args.any = true;
    let n_args = NetworkArgument::from(&args);

    let mut v = vec![rec("eth0", false, false, AddressFamily::Inet6)];

    assert!(!network_online(&v, &n_args));

    v.push(rec("eth1", false, true, AddressFamily::Inet6));
    assert!(network_online(&v, &n_args));

    args.ipv4 = true;
    let n_args = NetworkArgument::from(&args);
    assert!(!network_online(&v, &n_args));

    v.push(rec("eth2", false, true, AddressFamily::Inet));
    assert!(network_online(&v, &n_args));

    v.push(rec("eth2", false, true, AddressFamily::Other));
    assert!(network_online(&v, &n_args));
}

#[test]
fn loopback_never_a_witness() {
    // An up loopback interface is no positive witness toward `Any`, and it
    // never blocks `All` either.
    let args = Args::new().any(true);
    let any_policy = NetworkArgument::from(&args);

    let mut v = vec![loopback_up("lo")];
    assert!(!network_online(&v, &any_policy));

    v.push(up("eth0"));
    assert!(network_online(&v, &any_policy));

    let all_policy = NetworkArgument::default();
    assert!(network_online(&v, &all_policy));
}

#[test]
fn empty_snapshot_never_ready() {
    let v: Vec<InterfaceRecord> = Vec::new();

    let all = NetworkArgument::default();
    assert!(!network_online(&v, &all));

    let args = Args::new().any(true);
    let any = NetworkArgument::from(&args);
    assert!(!network_online(&v, &any));

    let args = Args::new().interface(vec!["eth0".into()]);
    let require = NetworkArgument::from(&args);
    assert!(!network_online(&v, &require));

    let args = Args::new().ignore(vec!["eth0".into()]);
    let ignore = NetworkArgument::from(&args);
    assert!(!network_online(&v, &ignore));
}

#[test]
fn dual_stack_aggregation() {
    // A required interface under a both-families requirement: the families
    // are collected across all of its records, and every counted record must
    // also be up.
    let mut args = Args::new();
    args.interface = Some(vec!["eth0".into()]);
    args.ipv4 = true;
    args.ipv6 = true;
    let n_args = NetworkArgument::from(&args);

    let mut v = vec![
        rec("eth0", false, false, AddressFamily::Inet),
        rec("eth0", false, true, AddressFamily::Inet6),
    ];
    // Both families seen, but the IPv4 record is down.
    assert!(!network_online(&v, &n_args));

    v[0] = rec("eth0", false, true, AddressFamily::Inet);
    assert!(network_online(&v, &n_args));

    // Only one family seen, however often, is not enough.
    let v = vec![
        rec("eth0", false, true, AddressFamily::Inet6),
        rec("eth0", false, true, AddressFamily::Inet6),
    ];
    assert!(!network_online(&v, &n_args));
}

#[test]
fn require_two_interfaces_all() {
    let mut args = Args::new();
    args.interface = Some(vec!["eth1".into(), "eth2".into()]);
    let n_args = NetworkArgument::from(&args);

    let mut v = vec![
        rec("eth1", false, true, AddressFamily::Inet),
        rec("eth2", false, false, AddressFamily::Inet),
    ];
    assert!(!network_online(&v, &n_args));

    v[1] = rec("eth2", false, true, AddressFamily::Inet);
    assert!(network_online(&v, &n_args));
}

#[test]
fn family_v4_any() {
    let mut args = Args::new();
    args.ipv4 = true;
    args.any = true;
    let n_args = NetworkArgument::from(&args);

    let mut v = vec![rec("eth0", false, false, AddressFamily::Inet6)];
    assert!(!network_online(&v, &n_args));

    v.push(rec("eth1", false, true, AddressFamily::Inet));
    assert!(network_online(&v, &n_args));
}

#[test]
fn verdict_is_stable_across_snapshots() {
    // Two snapshots of an unchanged interface state yield the same verdict.
    let n_args = NetworkArgument::default();
    let first = vec![loopback_up("lo"), up("eth0")];
    let second = vec![loopback_up("lo"), up("eth0")];
    assert_eq!(network_online(&first, &n_args), network_online(&second, &n_args));

    let mut args = Args::new();
    args.interface = Some(vec!["eth0".into()]);
    args.ipv6 = true;
    let n_args = NetworkArgument::from(&args);
    let first = vec![rec("eth0", false, true, AddressFamily::Inet6)];
    let second = vec![rec("eth0", false, true, AddressFamily::Inet6)];
    assert_eq!(network_online(&first, &n_args), network_online(&second, &n_args));
}

#[test]
fn record_without_address_counts_for_no_family() {
    // A record whose address the enumeration did not recognize at all: in the
    // exact mode it neither matches a family requirement nor counts toward
    // the up-check without one.
    let mut args = Args::new();
    args.interface = Some(vec!["eth0".into()]);
    let n_args = NetworkArgument::from(&args);

    let v = vec![InterfaceRecord {
        name: "eth0".to_string(),
        loopback: false,
        lower_up: true,
        family: None,
    }];
    assert!(!network_online(&v, &n_args));
}
