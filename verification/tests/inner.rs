use event_listener::{Inner, Listener, State, Task};
use std::sync::atomic::{AtomicBool, Ordering};
use std::sync::Arc;

#[test]
fn uncontended_inner() {
    let mut inner = Inner::new();

    // Register two listeners.
    let (mut listener1, mut listener2, mut listener3) = (None, None, None);
    inner.insert(&mut listener1);
    inner.insert(&mut listener2);
    inner.insert(&mut listener3);

    assert_eq!(listener1, Some(Listener::HasNode(1)));
    assert_eq!(listener2, Some(Listener::HasNode(2)));

    // Register a waker in the second listener.
    let woken = Arc::new(AtomicBool::new(false));
    let waker = waker_fn::waker_fn({
        let woken = woken.clone();
        move || woken.store(true, Ordering::SeqCst)
    });
    assert_eq!(
        inner.register(&mut listener2, Task::Waker(waker.clone())),
        Some(false)
    );

    // Notify the first listener.
    inner.notify(1, false);
    assert!(!woken.load(Ordering::SeqCst));

    // Another notify should do nothing.
    inner.notify(1, false);
    assert!(!woken.load(Ordering::SeqCst));

    // Receive the notification.
    assert_eq!(
        inner.register(&mut listener1, Task::Waker(waker.clone())),
        Some(true)
    );

    // First listener is already removed.
    assert!(listener1.is_none());

    // Notify the second listener.
    inner.notify(1, false);
    assert!(woken.load(Ordering::SeqCst));

    // Remove the second listener and propogate the notification.
    assert_eq!(
        inner.remove(&mut listener2, true),
        Some(State::Notified(false))
    );

    // Second listener is already removed.
    assert!(listener2.is_none());

    // Third listener should be notified.
    assert_eq!(
        inner.register(&mut listener3, Task::Waker(waker.clone())),
        Some(true)
    );
}
