use event_listener::waiting::WaitingList;
use event_listener::{Entry, ListenerSlab, Node, Queue, State, Task};
use std::sync::{Arc, Mutex};

fn logging_task(log: &Arc<Mutex<Vec<usize>>>, id: usize) -> Task {
    let log = log.clone();
    Task::Waker(waker_fn::waker_fn(move || log.lock().unwrap().push(id)))
}

#[test]
fn notified_states() {
    let log = Arc::new(Mutex::new(Vec::new()));
    assert!(!State::Created.is_notified());
    assert!(!State::Task(logging_task(&log, 1)).is_notified());
    assert!(State::Notified(false).is_notified());
    assert!(State::Notified(true).is_notified());
    assert!(State::NotifiedTaken.is_notified());
}

#[test]
fn states_compare_by_variant_flag_and_task() {
    let log = Arc::new(Mutex::new(Vec::new()));
    let waker = waker_fn::waker_fn(|| ());
    assert_eq!(State::Created, State::Created);
    assert_eq!(State::NotifiedTaken, State::NotifiedTaken);
    assert_eq!(State::Notified(true), State::Notified(true));
    assert_ne!(State::Notified(true), State::Notified(false));
    assert_ne!(State::Notified(true), State::NotifiedTaken);
    assert_ne!(State::Created, State::Notified(false));
    assert_eq!(
        State::Task(Task::Waker(waker.clone())),
        State::Task(Task::Waker(waker.clone()))
    );
    assert_ne!(
        State::Task(Task::Waker(waker)),
        State::Task(logging_task(&log, 1))
    );
    assert_ne!(State::Task(logging_task(&log, 1)), State::Created);
}

#[test]
fn tasks_wake_what_they_hold() {
    let log = Arc::new(Mutex::new(Vec::new()));
    let task = logging_task(&log, 5);
    let other = logging_task(&log, 6);
    assert!(!task.will_wake(&other));
    assert!(task.will_wake(&task));
    task.wake();
    event_listener::task::wake_all(vec![other, logging_task(&log, 7)]);
    assert_eq!(*log.lock().unwrap(), vec![5, 6, 7]);
}

#[test]
fn entries_give_their_fields() {
    let entry = Entry::Listener {
        state: State::Notified(true),
        prev: Some(3),
        next: None,
    };
    assert_eq!(*entry.state(), State::Notified(true));
    assert_eq!(entry.prev(), Some(3));
    assert_eq!(entry.next(), None);
}

#[test]
fn entries_compare_field_by_field() {
    let listener = |state, prev, next| Entry::Listener { state, prev, next };
    assert_eq!(Entry::Sentinel, Entry::Sentinel);
    assert_eq!(Entry::Empty(4), Entry::Empty(4));
    assert_ne!(Entry::Empty(4), Entry::Empty(5));
    assert_ne!(Entry::Empty(4), Entry::Sentinel);
    assert_eq!(
        listener(State::Created, None, Some(2)),
        listener(State::Created, None, Some(2))
    );
    assert_ne!(
        listener(State::Created, None, Some(2)),
        listener(State::Created, None, Some(3))
    );
    assert_ne!(
        listener(State::Created, Some(1), Some(2)),
        listener(State::Created, None, Some(2))
    );
    assert_ne!(
        listener(State::Created, None, None),
        listener(State::NotifiedTaken, None, None)
    );
    assert_ne!(listener(State::Created, None, None), Entry::Sentinel);
    assert!(!listener(State::Created, None, None).same(&Entry::Empty(1)));
}

#[test]
fn queue_gives_back_the_last_first() {
    let mut queue = Queue::new();
    assert!(queue.pop().is_none());
    queue.push(Node::Notify {
        count: 1,
        additional: false,
    });
    queue.push(Node::RemoveListener {
        listener: 2,
        propagate: true,
    });
    queue.push(Node::Notify {
        count: 3,
        additional: true,
    });
    assert!(matches!(
        queue.pop(),
        Some(Node::Notify {
            count: 3,
            additional: true
        })
    ));
    assert!(matches!(
        queue.pop(),
        Some(Node::RemoveListener {
            listener: 2,
            propagate: true
        })
    ));
    assert!(matches!(
        queue.pop(),
        Some(Node::Notify {
            count: 1,
            additional: false
        })
    ));
    assert!(queue.pop().is_none());
}

#[test]
fn records_keep_key_and_task() {
    let log = Arc::new(Mutex::new(Vec::new()));
    let mut waiting = WaitingList::new();
    let first = waiting.open();
    let second = waiting.open();
    assert_eq!(first.ticket, 0);
    assert_eq!(second.ticket, 1);
    assert_eq!(waiting.status(&first), None);

    assert!(waiting.register(&second, logging_task(&log, 1)));
    assert!(waiting.register(&second, logging_task(&log, 2)));
    assert!(waiting.publish(&first, 9).is_none());
    assert_eq!(waiting.status(&first), Some(9));
    assert_eq!(waiting.status(&second), None);

    let task = waiting.publish(&second, 4).unwrap();
    task.wake();
    assert_eq!(*log.lock().unwrap(), vec![2]);
    assert_eq!(waiting.status(&second), Some(4));

    // Nothing is left with a record whose key is known.
    assert!(!waiting.register(&second, logging_task(&log, 3)));
    assert!(waiting.publish(&second, 4).is_none());
}

#[test]
fn nodes_apply_to_the_slab() {
    let log = Arc::new(Mutex::new(Vec::new()));
    let mut slab = ListenerSlab::new();
    let mut waiting = WaitingList::new();

    let (node, ticket) = Node::listener(&mut waiting);
    assert!(matches!(node, Node::Insert(t) if t == ticket));
    waiting.register(&ticket, logging_task(&log, 1));
    let task = node.apply(&mut slab, &mut waiting).unwrap();
    assert_eq!(waiting.status(&ticket), Some(1));
    assert_eq!(slab.len(), 1);
    assert_eq!(*slab.entry(1).state(), State::Created);
    task.wake();
    assert_eq!(*log.lock().unwrap(), vec![1]);

    let (node, ticket) = Node::listener(&mut waiting);
    assert!(node.apply(&mut slab, &mut waiting).is_none());
    assert_eq!(waiting.status(&ticket), Some(2));

    let node = Node::Notify {
        count: 1,
        additional: true,
    };
    assert!(node.apply(&mut slab, &mut waiting).is_none());
    assert_eq!(slab.notified(), 1);

    let node = Node::RemoveListener {
        listener: 1,
        propagate: true,
    };
    assert!(node.apply(&mut slab, &mut waiting).is_none());
    assert_eq!(slab.len(), 1);
    assert_eq!(*slab.entry(2).state(), State::Notified(true));

    let node = Node::Waiting(logging_task(&log, 2));
    let task = node.apply(&mut slab, &mut waiting).unwrap();
    assert_eq!(slab.len(), 1);
    task.wake();
    assert_eq!(*log.lock().unwrap(), vec![1, 2]);
}
