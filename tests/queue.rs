use plugin_core::{PluginPayload, PrioritizedMessage, Priority, PriorityQueue, WindowPluginMessage};

fn payload(priority: Priority, index: usize) -> PrioritizedMessage {
    PrioritizedMessage {
        content: PluginPayload::Window(WindowPluginMessage::MinimizeWindow(index)),
        priority,
    }
}

fn index_of(m: &PrioritizedMessage) -> usize {
    match m.content {
        PluginPayload::Window(WindowPluginMessage::MinimizeWindow(i)) => i,
        _ => panic!("unexpected payload"),
    }
}

#[test]
fn pops_in_non_increasing_priority() {
    let mut q = PriorityQueue::new(16);
    let order = [
        Priority::Low,
        Priority::Critical,
        Priority::Normal,
        Priority::Medium,
        Priority::High,
        Priority::Low,
        Priority::Critical,
    ];
    for (i, p) in order.iter().enumerate() {
        assert!(q.push(payload(*p, i)).is_ok());
    }
    let mut last = Priority::Critical;
    let mut count = 0;
    while let Some(m) = q.pop() {
        assert!(m.priority <= last);
        last = m.priority;
        count += 1;
    }
    assert_eq!(count, order.len());
    assert!(q.is_empty());
}

#[test]
fn equal_priorities_leave_in_arrival_order() {
    let mut q = PriorityQueue::new(8);
    q.push(payload(Priority::Normal, 0)).unwrap();
    q.push(payload(Priority::High, 1)).unwrap();
    q.push(payload(Priority::Normal, 2)).unwrap();
    q.push(payload(Priority::High, 3)).unwrap();
    let got: Vec<usize> = q.drain().iter().map(index_of).collect();
    assert_eq!(got, vec![1, 3, 0, 2]);
}

#[test]
fn full_queue_refuses_without_growing() {
    let mut q = PriorityQueue::new(3);
    for i in 0..10 {
        let r = q.push(payload(Priority::Medium, i));
        if i < 3 {
            assert!(r.is_ok());
        } else {
            let back = r.unwrap_err();
            assert_eq!(index_of(&back), i);
        }
        assert!(q.len() <= q.capacity());
    }
    assert_eq!(q.len(), 3);
}

#[test]
fn capacity_two_three_critical_pushes() {
    let mut q = PriorityQueue::new(2);
    let results: Vec<bool> = (0..3).map(|i| q.push(payload(Priority::Critical, i)).is_ok()).collect();
    assert_eq!(results.iter().filter(|ok| !**ok).count(), 1);
    assert_eq!(q.len(), 2);
    let first = q.pop().unwrap();
    let second = q.pop().unwrap();
    assert_eq!(first.priority, Priority::Critical);
    assert_eq!(second.priority, Priority::Critical);
    assert!(q.pop().is_none());
}

#[test]
fn critical_entries_leave_before_lower_ones() {
    let mut q = PriorityQueue::new(2);
    q.push(payload(Priority::Low, 9)).unwrap();
    q.push(payload(Priority::Critical, 1)).unwrap();
    assert!(q.push(payload(Priority::Critical, 2)).is_err());
    assert_eq!(q.pop().unwrap().priority, Priority::Critical);
    assert_eq!(q.pop().unwrap().priority, Priority::Low);
}

#[test]
fn empty_queue_pops_nothing() {
    let mut q = PriorityQueue::new(1);
    assert!(q.pop().is_none());
    assert_eq!(q.len(), 0);
    assert!(q.drain().is_empty());
}

#[test]
fn priority_scale_is_ascending() {
    assert!(Priority::Low < Priority::Medium);
    assert!(Priority::Medium < Priority::Normal);
    assert!(Priority::Normal < Priority::High);
    assert!(Priority::High < Priority::Critical);
    assert_eq!(Priority::Low.rank(), 0);
    assert_eq!(Priority::Critical.rank(), 4);
    assert!(Priority::High.at_least(&Priority::Normal));
    assert!(!Priority::Normal.at_least(&Priority::High));
}
