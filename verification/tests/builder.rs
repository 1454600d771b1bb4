use wait_online::arguments::Args;

#[test]
fn new_has_the_documented_defaults() {
    let args = Args::new();
    assert!(args.interface.is_none());
    assert!(args.ignore.is_none());
    assert!(!args.ipv4);
    assert!(!args.ipv6);
    assert!(!args.any);
    assert_eq!(args.timeout, Args::DEFAULT_TIMEOUT);
    assert_eq!(args.interval, Args::DEFAULT_INTERVAL);
}

#[test]
fn default_matches_new() {
    let args = Args::default();
    assert!(args.interface.is_none());
    assert!(args.ignore.is_none());
    assert_eq!(args.timeout, 120);
    assert_eq!(args.interval, 500);
}

#[test]
fn interface_and_ignore_displace_each_other() {
    let args = Args::new().ignore(vec!["eth9".into()]).interface(vec!["eth0".into()]);
    assert_eq!(args.interface, Some(vec!["eth0".to_string()]));
    assert!(args.ignore.is_none());

    let args = Args::new().interface(vec!["eth0".into()]).ignore(vec!["eth9".into()]);
    assert!(args.interface.is_none());
    assert_eq!(args.ignore, Some(vec!["eth9".to_string()]));
}

#[test]
fn builders_set_their_fields() {
    let args = Args::new().interval(10).ipv4(true).ipv6(true).any(true);
    assert_eq!(args.interval, 10);
    assert!(args.ipv4);
    assert!(args.ipv6);
    assert!(args.any);
}
