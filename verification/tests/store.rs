use planit::notification::{Notification, TimeUnit};
use planit::object_id::ObjectId;
use planit::repository::TaskRepository;
use planit::task::{Status, Task};

const NOW: i64 = 1_704_102_270_000;

fn oid(n: u64) -> ObjectId {
    ObjectId { timestamp: 7, suffix: n }
}

fn reminder(n: u64, due: i64, sent: bool) -> Notification {
    Notification {
        id: oid(1000 + n),
        time_unit: TimeUnit::Minute,
        time_value: 15,
        scheduled_time: due,
        sent,
    }
}

fn task(n: u64, owner: u64, notification: Option<Notification>) -> Task {
    Task {
        id: Some(oid(n)),
        title: format!("task {}", n),
        description: String::new(),
        start_date: NOW + 900_000,
        end_date: NOW + 1_800_000,
        status: Status::Executada,
        user_id: oid(owner),
        category_id: Some(oid(50)),
        notification,
    }
}

fn ids(tasks: &Vec<Task>) -> Vec<ObjectId> {
    let mut out = Vec::new();
    for t in tasks {
        out.push(t.id.unwrap());
    }
    out
}

fn store(tasks: Vec<Task>) -> TaskRepository {
    let mut repository = TaskRepository::new();
    for t in tasks {
        assert!(repository.create_task(t).is_some());
    }
    repository
}

#[test]
fn empty_store() {
    let repository = TaskRepository::new();
    assert_eq!(repository.len(), 0);
    assert!(repository.get_all_not_sent_notifications(i64::MIN, i64::MAX).is_empty());
    assert!(!repository.contains(&oid(1)));
    assert!(repository.get_task_by_id(&oid(1)).is_none());
}

#[test]
fn create_keeps_the_identifier() {
    let mut repository = TaskRepository::new();
    assert_eq!(repository.create_task(task(1, 9, None)), Some(oid(1)));
    assert_eq!(repository.len(), 1);
    assert!(repository.contains(&oid(1)));
    let found = repository.get_task_by_id(&oid(1)).unwrap();
    assert_eq!(found.id, Some(oid(1)));
    assert_eq!(found.title, "task 1");
}

#[test]
fn create_refuses_a_taken_identifier() {
    let mut repository = store(vec![task(1, 9, None)]);
    let mut other = task(1, 9, None);
    other.title = String::from("other");
    assert_eq!(repository.create_task(other), None);
    assert_eq!(repository.len(), 1);
    assert_eq!(repository.get_task_by_id(&oid(1)).unwrap().title, "task 1");
}

#[test]
fn create_gives_an_identifier_where_there_is_none() {
    let mut repository = store(vec![task(1, 9, None)]);
    let mut fresh = task(2, 9, None);
    fresh.id = None;
    let id = repository.create_task(fresh).unwrap();
    assert_ne!(id, oid(1));
    assert_eq!(repository.len(), 2);
    let found = repository.get_task_by_id(&id).unwrap();
    assert_eq!(found.id, Some(id));
    assert_eq!(found.title, "task 2");
}

#[test]
fn delete_removes_one_task() {
    let mut repository = store(vec![task(1, 9, None), task(2, 9, None), task(3, 9, None)]);
    assert!(repository.delete_task(&oid(2)));
    assert_eq!(repository.len(), 2);
    assert!(!repository.contains(&oid(2)));
    assert!(!repository.delete_task(&oid(2)));
    assert_eq!(ids(&repository.get_all_user_tasks(&oid(9))), vec![oid(1), oid(3)]);
}

#[test]
fn tasks_of_one_user() {
    let repository = store(vec![task(1, 9, None), task(2, 8, None), task(3, 9, None)]);
    assert_eq!(ids(&repository.get_all_user_tasks(&oid(9))), vec![oid(1), oid(3)]);
    assert_eq!(ids(&repository.get_all_user_tasks(&oid(8))), vec![oid(2)]);
    assert!(repository.get_all_user_tasks(&oid(7)).is_empty());
}

#[test]
fn window_correctness() {
    let repository = store(vec![
        task(1, 9, Some(reminder(1, NOW + 30_000, false))),
        task(2, 9, Some(reminder(2, NOW + 61_000, false))),
    ]);
    let found = repository.get_all_not_sent_notifications(NOW, NOW + 60_000);
    assert_eq!(ids(&found), vec![oid(1)]);
}

#[test]
fn window_leaves_out_what_is_due_before_it() {
    let repository = store(vec![
        task(1, 9, Some(reminder(1, NOW - 1_000, false))),
        task(2, 9, Some(reminder(2, NOW + 30_000, false))),
        task(3, 9, Some(reminder(3, NOW + 61_000, false))),
    ]);
    let found = repository.get_all_not_sent_notifications(NOW, NOW + 60_000);
    assert_eq!(ids(&found), vec![oid(2)]);
}

#[test]
fn window_includes_both_ends() {
    let repository = store(vec![
        task(1, 9, Some(reminder(1, NOW - 1, false))),
        task(2, 9, Some(reminder(2, NOW, false))),
        task(3, 9, Some(reminder(3, NOW + 60_000, false))),
        task(4, 9, Some(reminder(4, NOW + 60_001, false))),
    ]);
    let found = repository.get_all_not_sent_notifications(NOW, NOW + 60_000);
    assert_eq!(ids(&found), vec![oid(2), oid(3)]);
}

#[test]
fn empty_window_returns_nothing() {
    let repository = store(vec![task(1, 9, Some(reminder(1, NOW, false)))]);
    assert!(repository.get_all_not_sent_notifications(NOW + 1, NOW - 1).is_empty());
}

#[test]
fn unsent_only_filter() {
    let repository = store(vec![
        task(1, 9, Some(reminder(1, NOW + 30_000, true))),
        task(2, 9, Some(reminder(2, NOW + 30_000, false))),
        task(3, 9, None),
    ]);
    let found = repository.get_all_not_sent_notifications(NOW, NOW + 60_000);
    assert_eq!(ids(&found), vec![oid(2)]);
    assert!(!found[0].notification.unwrap().sent);
}

#[test]
fn scan_returns_whole_tasks_in_stored_order() {
    let repository = store(vec![
        task(3, 9, Some(reminder(3, NOW + 3, false))),
        task(1, 8, Some(reminder(1, NOW + 1, false))),
        task(2, 9, Some(reminder(2, NOW + 2, false))),
    ]);
    let found = repository.get_all_not_sent_notifications(NOW, NOW + 60_000);
    assert_eq!(ids(&found), vec![oid(3), oid(1), oid(2)]);
    assert_eq!(found[1].title, "task 1");
    assert_eq!(found[1].user_id, oid(8));
    assert_eq!(found[1].notification, Some(reminder(1, NOW + 1, false)));
}

#[test]
fn idempotent_marking() {
    let mut repository = store(vec![
        task(1, 9, Some(reminder(1, NOW + 30_000, false))),
        task(2, 9, Some(reminder(2, NOW + 30_000, false))),
    ]);
    assert!(repository.mark_notification_as_sent(&oid(1)));
    assert!(repository.get_task_by_id(&oid(1)).unwrap().notification.unwrap().sent);
    assert!(!repository.mark_notification_as_sent(&oid(1)));
    assert!(repository.get_task_by_id(&oid(1)).unwrap().notification.unwrap().sent);
    // The other task is untouched.
    assert_eq!(
        repository.get_task_by_id(&oid(2)).unwrap().notification,
        Some(reminder(2, NOW + 30_000, false))
    );
    assert_eq!(repository.len(), 2);
}

#[test]
fn marking_changes_the_flag_only() {
    let mut repository = store(vec![task(1, 9, Some(reminder(1, NOW + 30_000, false)))]);
    assert!(repository.mark_notification_as_sent(&oid(1)));
    let after = repository.get_task_by_id(&oid(1)).unwrap();
    assert_eq!(after.notification, Some(reminder(1, NOW + 30_000, true)));
    assert_eq!(after.title, "task 1");
    assert_eq!(after.user_id, oid(9));
    assert_eq!(after.start_date, NOW + 900_000);
}

#[test]
fn marking_what_is_not_there_changes_nothing() {
    let mut repository = store(vec![task(1, 9, None)]);
    // No task under the identifier.
    assert!(!repository.mark_notification_as_sent(&oid(5)));
    // A task without a reminder.
    assert!(!repository.mark_notification_as_sent(&oid(1)));
    assert_eq!(repository.len(), 1);
    assert_eq!(repository.get_task_by_id(&oid(1)).unwrap().notification, None);
}

#[test]
fn marked_task_is_not_returned_again() {
    let mut repository = store(vec![task(1, 9, Some(reminder(1, NOW + 30_000, false)))]);
    assert_eq!(repository.get_all_not_sent_notifications(NOW, NOW + 60_000).len(), 1);
    assert!(repository.mark_notification_as_sent(&oid(1)));
    assert!(repository.get_all_not_sent_notifications(NOW, NOW + 60_000).is_empty());
    assert!(repository.get_all_not_sent_notifications(i64::MIN, i64::MAX).is_empty());
}

#[test]
fn notifications_of_one_user() {
    let repository = store(vec![
        task(1, 9, Some(reminder(1, NOW, true))),
        task(2, 9, None),
        task(3, 8, Some(reminder(3, NOW, false))),
        task(4, 9, Some(reminder(4, NOW + 5, false))),
    ]);
    assert_eq!(ids(&repository.get_all_with_notifications(&oid(9))), vec![oid(1), oid(4)]);
    assert_eq!(ids(&repository.get_all_with_notifications(&oid(8))), vec![oid(3)]);
    assert!(repository.get_all_with_notifications(&oid(7)).is_empty());
}
