use event_listener::Mutex;

#[test]
fn smoke_mutex() {
    let mut mutex = Mutex::new(0);

    {
        let mut guard = mutex.try_lock().unwrap();
        *guard.get_mut() += 1;
        mutex.unlock(guard);
    }

    {
        let mut guard = mutex.try_lock().unwrap();
        *guard.get_mut() += 1;
        mutex.unlock(guard);
    }

    let guard = mutex.try_lock().unwrap();
    assert_eq!(*guard.get(), 2);
}

#[test]
fn busy_mutex_gives_up() {
    let mut mutex = Mutex::new(7);
    let guard = mutex.try_lock().unwrap();

    // The value is away: neither path gets the lock.
    assert!(mutex.try_lock().is_none());
    assert!(mutex.try_lock_slow().is_none());

    mutex.unlock(guard);
    let guard = mutex.try_lock_slow().unwrap();
    assert_eq!(*guard.get(), 7);
}
