use wait_online::InterfacesChecker;

#[test]
fn interfaces_checker_all() {
    assert!(!InterfacesChecker::all(&vec![]));
    assert!(!InterfacesChecker::all(&vec![false]));
    assert!(InterfacesChecker::all(&vec![true]));
    assert!(!InterfacesChecker::all(&vec![false, false]));
    assert!(!InterfacesChecker::all(&vec![false, true]));
    assert!(!InterfacesChecker::all(&vec![true, false]));
    assert!(InterfacesChecker::all(&vec![true, true]));
}

#[test]
fn interfaces_checker_any() {
    assert!(!InterfacesChecker::any(&vec![]));
    assert!(!InterfacesChecker::any(&vec![false]));
    assert!(InterfacesChecker::any(&vec![true]));
    assert!(!InterfacesChecker::any(&vec![false, false]));
    assert!(InterfacesChecker::any(&vec![false, true]));
    assert!(InterfacesChecker::any(&vec![true, false]));
    assert!(InterfacesChecker::any(&vec![true, true]));
}
