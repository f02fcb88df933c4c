use execute::{TaskIdGenerator, TaskStatus, TaskStatusTracker};

#[test]
fn task_id_generator_generates_unique_ids() {
    let mut generator = TaskIdGenerator::new();
    let id1 = generator.next_id();
    let id2 = generator.next_id();
    let id3 = generator.next_id();

    assert_eq!(id1, 1);
    assert_eq!(id2, 2);
    assert_eq!(id3, 3);
}

#[test]
fn task_status_tracker_registers_and_updates() {
    let mut tracker = TaskStatusTracker::new();

    tracker.register(1);
    assert_eq!(tracker.get(1), Some(TaskStatus::Pending));

    tracker.update(1, TaskStatus::Running);
    assert_eq!(tracker.get(1), Some(TaskStatus::Running));

    tracker.update(1, TaskStatus::Completed);
    assert_eq!(tracker.get(1), Some(TaskStatus::Completed));
}

#[test]
fn task_status_tracker_counts_by_status() {
    let mut tracker = TaskStatusTracker::new();

    tracker.register(1);
    tracker.register(2);
    tracker.register(3);
    tracker.update(2, TaskStatus::Running);
    tracker.update(3, TaskStatus::Completed);

    assert_eq!(tracker.count_by_status(TaskStatus::Pending), 1);
    assert_eq!(tracker.count_by_status(TaskStatus::Running), 1);
    assert_eq!(tracker.count_by_status(TaskStatus::Completed), 1);
    assert_eq!(tracker.count_by_status(TaskStatus::Failed), 0);
}

#[test]
fn task_status_display() {
    assert_eq!(TaskStatus::Pending.to_string(), "pending");
    assert_eq!(TaskStatus::Running.to_string(), "running");
    assert_eq!(TaskStatus::Completed.to_string(), "completed");
    assert_eq!(TaskStatus::Failed.to_string(), "failed");
}

#[test]
fn task_status_as_str() {
    assert_eq!(TaskStatus::Pending.as_str(), "pending");
    assert_eq!(TaskStatus::Failed.as_str(), "failed");
}

#[test]
fn task_ids_count_up_from_one_and_differ() {
    let mut generator = TaskIdGenerator::default();
    let mut seen = Vec::new();
    for expected in 1..=50u64 {
        let id = generator.next_id();
        assert_eq!(id, expected);
        assert!(!seen.contains(&id));
        seen.push(id);
    }
}

#[test]
fn tracker_forgets_what_is_removed() {
    let mut tracker = TaskStatusTracker::new();
    assert_eq!(tracker.get(7), None);
    assert_eq!(tracker.remove(7), None);

    tracker.register(7);
    tracker.update(8, TaskStatus::Failed);
    assert_eq!(tracker.get(8), Some(TaskStatus::Failed));
    assert_eq!(tracker.remove(7), Some(TaskStatus::Pending));
    assert_eq!(tracker.get(7), None);
    assert_eq!(tracker.count_by_status(TaskStatus::Pending), 0);
    assert_eq!(tracker.count_by_status(TaskStatus::Failed), 1);
}

#[test]
fn tracker_copy_and_clear() {
    let mut tracker = TaskStatusTracker::default();
    tracker.register(1);
    tracker.update(2, TaskStatus::Running);

    let all = tracker.get_all();
    assert_eq!(all.len(), 2);
    assert_eq!(all.get(&1), Some(&TaskStatus::Pending));
    assert_eq!(all.get(&2), Some(&TaskStatus::Running));

    tracker.clear();
    assert_eq!(tracker.get(1), None);
    assert_eq!(tracker.get(2), None);
    assert!(tracker.get_all().is_empty());
    assert_eq!(tracker.count_by_status(TaskStatus::Pending), 0);
    assert_eq!(tracker.count_by_status(TaskStatus::Running), 0);
    assert_eq!(all.len(), 2);
}

#[test]
fn tracker_counts_many_tasks_of_one_status() {
    let mut tracker = TaskStatusTracker::new();
    for id in 0..40u64 {
        tracker.register(id);
    }
    for id in 0..10u64 {
        tracker.update(id, TaskStatus::Completed);
    }
    tracker.register(3);
    assert_eq!(tracker.count_by_status(TaskStatus::Pending), 31);
    assert_eq!(tracker.count_by_status(TaskStatus::Completed), 9);
    assert_eq!(tracker.count_by_status(TaskStatus::Running), 0);
}
