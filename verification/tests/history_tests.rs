use taskman::history::Queue;

#[test]
fn queue_keeps_insertion_order() {
    let mut q: Queue<u32> = Queue::new(4);
    q.push(1);
    q.push(2);
    q.push(3);
    assert_eq!(q.clone_elements(), vec![1, 2, 3]);
}

#[test]
fn queue_evicts_oldest_on_overflow() {
    let mut q: Queue<u32> = Queue::new(3);
    for n in 1..=5u32 {
        q.push(n);
    }
    // Five pushes through capacity three: only the last three remain.
    assert_eq!(q.clone_elements(), vec![3, 4, 5]);
}

#[test]
fn queue_exact_capacity_keeps_everything() {
    let mut q: Queue<String> = Queue::new(2);
    q.push("a".to_string());
    q.push("b".to_string());
    assert_eq!(q.clone_elements(), vec!["a".to_string(), "b".to_string()]);
    q.push("c".to_string());
    assert_eq!(q.clone_elements(), vec!["b".to_string(), "c".to_string()]);
}

#[test]
fn queue_capacity_one() {
    let mut q: Queue<u32> = Queue::new(1);
    q.push(10);
    q.push(20);
    assert_eq!(q.clone_elements(), vec![20]);
}
