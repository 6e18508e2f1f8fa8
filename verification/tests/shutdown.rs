use logscout::shutdown::ShutdownSignal;

#[test]
fn signal_starts_unset() {
    assert!(!ShutdownSignal::new().is_set());
}

#[test]
fn only_the_first_interrupt_is_announced() {
    let mut signal = ShutdownSignal::new();
    assert!(signal.interrupt());
    assert!(signal.is_set());
    assert!(!signal.interrupt());
    assert!(!signal.interrupt());
    assert!(signal.is_set());
}

#[test]
fn observed_signal_is_as_it_was_found() {
    assert!(!ShutdownSignal::observed(false).is_set());
    assert!(ShutdownSignal::observed(true).is_set());
    assert!(ShutdownSignal::observed(false).interrupt());
    assert!(!ShutdownSignal::observed(true).interrupt());
}
