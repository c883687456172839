use embrio::protocol::WakeHandle;

#[test]
fn wake_handle_starts_clear() {
    let mut wake = WakeHandle::new();
    assert!(!wake.signalled());
    assert!(!wake.take());
}

#[test]
fn wake_signals_collapse_into_one() {
    let mut wake = WakeHandle::new();
    wake.wake();
    wake.wake();
    wake.wake();
    assert!(wake.signalled());
    assert!(wake.take());
    assert!(!wake.signalled());
    assert!(!wake.take());
}
