use event_listener::{Inner, Listener, State, Task, TaskWaiting};
use std::sync::{Arc, Mutex};

fn logging_task(log: &Arc<Mutex<Vec<usize>>>, id: usize) -> Task {
    let log = log.clone();
    Task::Waker(waker_fn::waker_fn(move || log.lock().unwrap().push(id)))
}

fn ticket_of(handle: &Option<Listener>) -> TaskWaiting {
    match handle {
        Some(Listener::Queued(ticket)) => *ticket,
        other => panic!("no ticket in {:?}", other),
    }
}

#[test]
fn new_inner_is_free_and_empty() {
    let mut inner = Inner::new();
    assert_eq!(inner.notified(), usize::MAX);
    let guard = inner.try_lock().unwrap();
    assert_eq!(guard.get().len(), 0);
    assert_eq!(guard.get().slots(), 1);
    assert!(inner.try_lock().is_none());
    guard.release(&mut inner);
    assert!(inner.try_lock().is_some());
}

#[test]
fn queued_insert_gets_its_key_at_release() {
    let mut inner = Inner::new();
    let mut first = None;
    inner.insert(&mut first);
    assert_eq!(first, Some(Listener::HasNode(1)));

    // The lock is held: the insertion is queued.
    let mut guard = inner.try_lock().unwrap();
    let mut queued = None;
    inner.insert(&mut queued);
    let ticket = ticket_of(&queued);
    assert_eq!(inner.status(&ticket), None);

    // The holder inserts a listener of its own before it lets go.
    let held = guard.get_mut().insert(State::Created);
    assert_eq!(held, 2);
    assert_eq!(inner.status(&ticket), None);

    guard.release(&mut inner);
    assert_eq!(inner.status(&ticket), Some(3));

    let guard = inner.try_lock().unwrap();
    assert_eq!(guard.get().len(), 3);
    assert_eq!(guard.get().head(), Some(1));
    assert_eq!(guard.get().entry(1).next(), Some(2));
    assert_eq!(guard.get().entry(2).next(), Some(3));
    assert_eq!(guard.get().tail(), Some(3));
    guard.release(&mut inner);
}

#[test]
fn insert_on_a_filled_handle_does_nothing() {
    let mut inner = Inner::new();
    let mut handle = None;
    inner.insert(&mut handle);
    inner.insert(&mut handle);
    assert_eq!(handle, Some(Listener::HasNode(1)));
    let guard = inner.try_lock().unwrap();
    assert_eq!(guard.get().len(), 1);

    let mut queued = None;
    inner.insert(&mut queued);
    let ticket = ticket_of(&queued);
    inner.insert(&mut queued);
    assert_eq!(queued, Some(Listener::Queued(ticket)));
    guard.release(&mut inner);

    let guard = inner.try_lock().unwrap();
    assert_eq!(guard.get().len(), 2);
    guard.release(&mut inner);
}

#[test]
fn queued_operations_are_applied_last_first() {
    let mut inner = Inner::new();
    let mut first = None;
    inner.insert(&mut first);

    let guard = inner.try_lock().unwrap();
    let mut queued = None;
    inner.insert(&mut queued);
    inner.notify(5, false);
    guard.release(&mut inner);

    // The notification came before the insertion.
    assert_eq!(inner.status(&ticket_of(&queued)), Some(2));
    assert_eq!(inner.notified(), 1);
    let guard = inner.try_lock().unwrap();
    assert_eq!(*guard.get().entry(1).state(), State::Notified(false));
    assert_eq!(*guard.get().entry(2).state(), State::Created);
    guard.release(&mut inner);
}

#[test]
fn task_left_with_a_ticket_is_woken_at_release() {
    let log = Arc::new(Mutex::new(Vec::new()));
    let mut inner = Inner::new();
    let guard = inner.try_lock().unwrap();

    let mut queued = None;
    inner.insert(&mut queued);
    assert_eq!(inner.register(&mut queued, logging_task(&log, 1)), None);
    // A later task takes the place of the first.
    assert_eq!(inner.register(&mut queued, logging_task(&log, 2)), None);
    assert!(matches!(queued, Some(Listener::Queued(_))));
    assert!(log.lock().unwrap().is_empty());

    guard.release(&mut inner);
    assert_eq!(*log.lock().unwrap(), vec![2]);

    // Woken, the caller registers again and is given its key.
    assert_eq!(
        inner.register(&mut queued, logging_task(&log, 3)),
        Some(false)
    );
    assert_eq!(queued, Some(Listener::HasNode(1)));
    inner.notify(1, false);
    assert_eq!(*log.lock().unwrap(), vec![2, 3]);
    assert_eq!(inner.register(&mut queued, logging_task(&log, 4)), Some(true));
    assert_eq!(queued, None);
}

#[test]
fn register_without_the_lock_asks_to_be_woken() {
    let log = Arc::new(Mutex::new(Vec::new()));
    let mut inner = Inner::new();
    let mut handle = None;
    inner.insert(&mut handle);

    let guard = inner.try_lock().unwrap();
    assert_eq!(
        inner.register(&mut handle, logging_task(&log, 1)),
        Some(false)
    );
    assert_eq!(handle, Some(Listener::HasNode(1)));
    assert!(log.lock().unwrap().is_empty());
    guard.release(&mut inner);
    assert_eq!(*log.lock().unwrap(), vec![1]);

    // The task was not put in the listener.
    let guard = inner.try_lock().unwrap();
    assert_eq!(*guard.get().entry(1).state(), State::Created);
    guard.release(&mut inner);
}

#[test]
fn remove_without_the_lock_is_deferred() {
    let mut inner = Inner::new();
    let (mut first, mut second) = (None, None);
    inner.insert(&mut first);
    inner.insert(&mut second);
    inner.notify(1, false);
    assert_eq!(inner.notified(), 1);

    let guard = inner.try_lock().unwrap();
    assert_eq!(inner.remove(&mut first, true), None);
    assert_eq!(first, None);
    assert_eq!(guard.get().len(), 2);
    guard.release(&mut inner);

    // The removal was applied and the notification passed on.
    assert_eq!(inner.notified(), usize::MAX);
    assert_eq!(inner.remove(&mut second, false), Some(State::Notified(false)));
    assert_eq!(inner.remove(&mut second, false), None);
}

#[test]
fn removing_a_queued_handle_gives_it_up() {
    let mut inner = Inner::new();
    let guard = inner.try_lock().unwrap();
    let mut queued = None;
    inner.insert(&mut queued);
    let ticket = ticket_of(&queued);
    assert_eq!(inner.remove(&mut queued, true), None);
    assert_eq!(queued, None);
    guard.release(&mut inner);

    // The insertion was applied all the same.
    assert_eq!(inner.status(&ticket), Some(1));
    let guard = inner.try_lock().unwrap();
    assert_eq!(guard.get().len(), 1);
    guard.release(&mut inner);
}

#[test]
fn published_count_follows_each_release() {
    let mut inner = Inner::new();
    let (mut first, mut second, mut third) = (None, None, None);
    inner.insert(&mut first);
    assert_eq!(inner.notified(), 0);
    inner.insert(&mut second);
    inner.insert(&mut third);
    inner.notify(2, false);
    assert_eq!(inner.notified(), 2);
    inner.notify(1, true);
    assert_eq!(inner.notified(), usize::MAX);
    assert_eq!(inner.remove(&mut first, false), Some(State::Notified(false)));
    assert_eq!(inner.notified(), usize::MAX);

    let mut fourth = None;
    inner.insert(&mut fourth);
    assert_eq!(fourth, Some(Listener::HasNode(1)));
    assert_eq!(inner.notified(), 2);

    // While the lock is held the published number stands still.
    let mut guard = inner.try_lock().unwrap();
    guard.get_mut().notify(1, true);
    assert_eq!(inner.notified(), 2);
    guard.release(&mut inner);
    assert_eq!(inner.notified(), usize::MAX);
}

#[test]
fn register_with_an_empty_handle_does_nothing() {
    let log = Arc::new(Mutex::new(Vec::new()));
    let mut inner = Inner::new();
    let mut handle = None;
    assert_eq!(inner.register(&mut handle, logging_task(&log, 1)), None);
    assert_eq!(inner.remove(&mut handle, true), None);
    assert_eq!(handle, None);
    let guard = inner.try_lock().unwrap();
    assert_eq!(guard.get().len(), 0);
    guard.release(&mut inner);
}

#[test]
fn notifications_survive_listeners_that_leave() {
    let log = Arc::new(Mutex::new(Vec::new()));
    let mut inner = Inner::new();
    let mut handles = Vec::new();
    for id in 0..5 {
        let mut handle = None;
        inner.insert(&mut handle);
        assert_eq!(
            inner.register(&mut handle, logging_task(&log, id)),
            Some(false)
        );
        handles.push(handle);
    }

    // Two notifications are asked for while the lock is held, and the two
    // oldest listeners leave at once, passing theirs on.
    let guard = inner.try_lock().unwrap();
    inner.notify(2, true);
    guard.release(&mut inner);
    assert_eq!(*log.lock().unwrap(), vec![0, 1]);

    let guard = inner.try_lock().unwrap();
    assert_eq!(inner.remove(&mut handles[0], true), None);
    assert_eq!(inner.remove(&mut handles[1], true), None);
    guard.release(&mut inner);

    // Two others have been notified in their place.
    assert_eq!(*log.lock().unwrap(), vec![0, 1, 2, 3]);
    assert_eq!(inner.notified(), 2);
    assert_eq!(
        inner.register(&mut handles[2], logging_task(&log, 9)),
        Some(true)
    );
    assert_eq!(
        inner.register(&mut handles[3], logging_task(&log, 9)),
        Some(true)
    );
    assert_eq!(
        inner.register(&mut handles[4], logging_task(&log, 4)),
        Some(false)
    );
}

#[test]
fn handles_can_be_tested_before_use() {
    let mut inner = Inner::new();
    let mut handle = None;
    inner.insert(&mut handle);
    let guard = inner.try_lock().unwrap();
    assert!(guard.get().holds(1));
    assert!(!guard.get().holds(0));
    assert!(!guard.get().holds(2));
    assert!(!guard.get().holds(usize::MAX));

    assert!(!inner.knows(&TaskWaiting { ticket: 0 }));
    let mut queued = None;
    inner.insert(&mut queued);
    assert!(inner.knows(&ticket_of(&queued)));
    assert!(!inner.knows(&TaskWaiting { ticket: 1 }));
    guard.release(&mut inner);

    let mut guard = inner.try_lock().unwrap();
    assert!(guard.get().holds(2));
    guard.get_mut().remove(1, false);
    assert!(!guard.get().holds(1));
    guard.release(&mut inner);
}
