use planit::notification::{Notification, TimeUnit};
use planit::object_id::ObjectId;
use planit::repository::TaskRepository;
use planit::task::{Status, Task};
use planit::task_service::{
    create_task_for_user, delete_user_task, update_user_task, CreateTaskRequest, TaskServiceError,
    UpdateTaskRequest,
};

const TEN_O_CLOCK: i64 = 1_704_103_200_000;

fn oid(n: u64) -> ObjectId {
    ObjectId { timestamp: 7, suffix: n }
}

fn request(title: &str, unit: Option<TimeUnit>, value: Option<u16>) -> CreateTaskRequest {
    CreateTaskRequest {
        title: title.to_string(),
        description: String::from("about"),
        start_date: TEN_O_CLOCK,
        end_date: TEN_O_CLOCK + 3_600_000,
        status: Status::ParcialmenteExecutada,
        category_id: oid(50),
        notification_time_unit: unit,
        notification_time_value: value,
    }
}

fn no_changes() -> UpdateTaskRequest {
    UpdateTaskRequest {
        title: None,
        description: None,
        start_date: None,
        end_date: None,
        status: None,
        category_id: None,
        notification_time_unit: None,
        notification_time_value: None,
    }
}

fn stored(n: u64, title: &str) -> Task {
    Task {
        id: Some(oid(n)),
        title: title.to_string(),
        description: String::from("old"),
        start_date: TEN_O_CLOCK,
        end_date: TEN_O_CLOCK + 1,
        status: Status::Adiada,
        user_id: oid(9),
        category_id: Some(oid(50)),
        notification: Some(Notification {
            id: oid(1000 + n),
            time_unit: TimeUnit::Minute,
            time_value: 15,
            scheduled_time: TEN_O_CLOCK - 900_000,
            sent: true,
        }),
    }
}

#[test]
fn error_messages() {
    assert_eq!(TaskServiceError::TaskAlreadyExists.message(), "Task already exists");
    assert_eq!(TaskServiceError::TaskNotFound.message(), "Task not found");
    assert_eq!(
        TaskServiceError::NotificationOutOfRange.message(),
        "Notification time out of range"
    );
}

#[test]
fn create_with_reminder() {
    let task =
        create_task_for_user(None, &oid(9), request("Dentist", Some(TimeUnit::Minute), Some(15)))
            .unwrap();
    assert_eq!(task.id, None);
    assert_eq!(task.title, "Dentist");
    assert_eq!(task.description, "about");
    assert_eq!(task.start_date, TEN_O_CLOCK);
    assert_eq!(task.end_date, TEN_O_CLOCK + 3_600_000);
    assert_eq!(task.status, Status::ParcialmenteExecutada);
    assert_eq!(task.user_id, oid(9));
    assert_eq!(task.category_id, Some(oid(50)));
    let n = task.notification.unwrap();
    assert_eq!(n.time_unit, TimeUnit::Minute);
    assert_eq!(n.time_value, 15);
    assert_eq!(n.scheduled_time, 1_704_102_300_000);
    assert!(!n.sent);
}

#[test]
fn create_with_hours() {
    let task =
        create_task_for_user(None, &oid(9), request("Dentist", Some(TimeUnit::Hour), Some(3)))
            .unwrap();
    assert_eq!(task.notification.unwrap().scheduled_time, TEN_O_CLOCK - 10_800_000);
}

#[test]
fn create_without_reminder() {
    let none = create_task_for_user(None, &oid(9), request("a", None, None)).unwrap();
    assert_eq!(none.notification, None);
    let unit_only =
        create_task_for_user(None, &oid(9), request("a", Some(TimeUnit::Hour), None)).unwrap();
    assert_eq!(unit_only.notification, None);
    let value_only = create_task_for_user(None, &oid(9), request("a", None, Some(5))).unwrap();
    assert_eq!(value_only.notification, None);
}

#[test]
fn create_refuses_a_taken_title() {
    let other = stored(1, "Dentist");
    let planned =
        create_task_for_user(Some(&other), &oid(9), request("Dentist", None, None));
    assert_eq!(planned.unwrap_err(), TaskServiceError::TaskAlreadyExists);
}

#[test]
fn create_refuses_a_reminder_out_of_range() {
    let mut data = request("Dentist", Some(TimeUnit::Hour), Some(1));
    data.start_date = i64::MIN + 3_599_999;
    assert_eq!(
        create_task_for_user(None, &oid(9), data).unwrap_err(),
        TaskServiceError::NotificationOutOfRange
    );
    let mut data = request("Dentist", Some(TimeUnit::Hour), Some(1));
    data.start_date = i64::MIN + 3_600_000;
    assert_eq!(
        create_task_for_user(None, &oid(9), data).unwrap().notification.unwrap().scheduled_time,
        i64::MIN
    );
    // Without a reminder the start may be any time.
    let mut data = request("Dentist", None, Some(1));
    data.start_date = i64::MIN;
    assert!(create_task_for_user(None, &oid(9), data).is_ok());
}

#[test]
fn update_of_a_missing_task() {
    let planned = update_user_task(None, None, &oid(1), no_changes());
    assert_eq!(planned.unwrap_err(), TaskServiceError::TaskNotFound);
}

#[test]
fn update_to_a_title_of_another_task() {
    let old = stored(1, "Dentist");
    let other = stored(2, "Doctor");
    let mut data = no_changes();
    data.title = Some(String::from("Doctor"));
    let planned = update_user_task(Some(&old), Some(&other), &oid(1), data);
    assert_eq!(planned.unwrap_err(), TaskServiceError::TaskAlreadyExists);
}

#[test]
fn update_may_keep_its_own_title() {
    let old = stored(1, "Dentist");
    let mut data = no_changes();
    data.title = Some(String::from("Dentist"));
    let changes = update_user_task(Some(&old), Some(&old), &oid(1), data).unwrap();
    assert_eq!(changes.title, Some(String::from("Dentist")));
    assert_eq!(changes.notification, None);
}

#[test]
fn update_passes_the_fields_on() {
    let old = stored(1, "Dentist");
    let data = UpdateTaskRequest {
        title: Some(String::from("Doctor")),
        description: Some(String::from("new")),
        start_date: Some(5),
        end_date: Some(6),
        status: Some(Status::Executada),
        category_id: Some(oid(51)),
        notification_time_unit: None,
        notification_time_value: None,
    };
    let changes = update_user_task(Some(&old), None, &oid(1), data).unwrap();
    assert_eq!(changes.title, Some(String::from("Doctor")));
    assert_eq!(changes.description, Some(String::from("new")));
    assert_eq!(changes.start_date, Some(5));
    assert_eq!(changes.end_date, Some(6));
    assert_eq!(changes.status, Some(Status::Executada));
    assert_eq!(changes.category_id, Some(oid(51)));
    assert_eq!(changes.notification, None);
}

#[test]
fn update_replaces_the_reminder() {
    let old = stored(1, "Dentist");
    let mut data = no_changes();
    data.notification_time_unit = Some(Some(TimeUnit::Hour));
    data.notification_time_value = Some(Some(2));
    let changes = update_user_task(Some(&old), None, &oid(1), data).unwrap();
    let n = changes.notification.unwrap().unwrap();
    assert_eq!(n.time_unit, TimeUnit::Hour);
    assert_eq!(n.time_value, 2);
    // Due before the old start, as no new one is given.
    assert_eq!(n.scheduled_time, TEN_O_CLOCK - 7_200_000);
    assert!(!n.sent);
    assert_ne!(n.id, old.notification.unwrap().id);
}

#[test]
fn update_schedules_before_the_new_start() {
    let old = stored(1, "Dentist");
    let mut data = no_changes();
    data.start_date = Some(TEN_O_CLOCK + 86_400_000);
    data.notification_time_unit = Some(Some(TimeUnit::Minute));
    data.notification_time_value = Some(Some(30));
    let changes = update_user_task(Some(&old), None, &oid(1), data).unwrap();
    assert_eq!(
        changes.notification.unwrap().unwrap().scheduled_time,
        TEN_O_CLOCK + 86_400_000 - 1_800_000
    );
}

#[test]
fn update_takes_the_reminder_away() {
    let old = stored(1, "Dentist");
    let mut data = no_changes();
    data.notification_time_unit = Some(None);
    data.notification_time_value = Some(None);
    let changes = update_user_task(Some(&old), None, &oid(1), data).unwrap();
    assert_eq!(changes.notification, Some(None));
}

#[test]
fn update_leaves_the_reminder_on_a_partial_request() {
    let old = stored(1, "Dentist");
    let cases: Vec<(Option<Option<TimeUnit>>, Option<Option<u16>>)> = vec![
        (None, None),
        (Some(Some(TimeUnit::Hour)), None),
        (None, Some(Some(2))),
        (Some(None), None),
        (None, Some(None)),
        (Some(Some(TimeUnit::Hour)), Some(None)),
        (Some(None), Some(Some(2))),
    ];
    for (unit, value) in cases {
        let mut data = no_changes();
        data.notification_time_unit = unit;
        data.notification_time_value = value;
        let changes = update_user_task(Some(&old), None, &oid(1), data).unwrap();
        assert_eq!(changes.notification, None);
    }
}

#[test]
fn update_refuses_a_reminder_out_of_range() {
    let old = stored(1, "Dentist");
    let mut data = no_changes();
    data.start_date = Some(i64::MIN);
    data.notification_time_unit = Some(Some(TimeUnit::Minute));
    data.notification_time_value = Some(Some(1));
    assert_eq!(
        update_user_task(Some(&old), None, &oid(1), data).unwrap_err(),
        TaskServiceError::NotificationOutOfRange
    );
}

#[test]
fn delete_needs_the_task() {
    let old = stored(1, "Dentist");
    assert_eq!(delete_user_task(Some(&old)), Ok(()));
    assert_eq!(delete_user_task(None), Err(TaskServiceError::TaskNotFound));
}

#[test]
fn title_lookup() {
    let mut repository = TaskRepository::new();
    let mut foreign = stored(1, "Dentist");
    foreign.user_id = oid(8);
    assert!(repository.create_task(foreign).is_some());
    assert!(repository.create_task(stored(2, "Dentist")).is_some());
    assert!(repository.create_task(stored(3, "Dentist")).is_some());
    assert_eq!(repository.get_task_by_title(&oid(9), "Dentist").unwrap().id, Some(oid(2)));
    assert_eq!(repository.get_task_by_title(&oid(8), "Dentist").unwrap().id, Some(oid(1)));
    assert!(repository.get_task_by_title(&oid(9), "dentist").is_none());
    assert!(repository.get_task_by_title(&oid(7), "Dentist").is_none());
}

#[test]
fn create_then_update_in_the_store() {
    let mut repository = TaskRepository::new();
    let existing = repository.get_task_by_title(&oid(9), "Dentist");
    let task = create_task_for_user(
        existing.as_ref(),
        &oid(9),
        request("Dentist", Some(TimeUnit::Minute), Some(15)),
    )
    .unwrap();
    let id = repository.create_task(task).unwrap();

    // A second task of the same title is turned down.
    let existing = repository.get_task_by_title(&oid(9), "Dentist");
    assert_eq!(
        create_task_for_user(existing.as_ref(), &oid(9), request("Dentist", None, None))
            .unwrap_err(),
        TaskServiceError::TaskAlreadyExists
    );

    // Once dispatched, the reminder stays sent until the user replaces it.
    assert!(repository.mark_notification_as_sent(&id));
    let old = repository.get_task_by_id(&id);
    let mut data = no_changes();
    data.description = Some(String::from("moved"));
    let changes = update_user_task(old.as_ref(), None, &id, data).unwrap();
    assert!(repository.update_task(
        &id,
        changes.title,
        changes.description,
        changes.start_date,
        changes.end_date,
        changes.status,
        changes.category_id,
        changes.notification,
    ));
    let after = repository.get_task_by_id(&id).unwrap();
    assert_eq!(after.description, "moved");
    assert_eq!(after.title, "Dentist");
    assert!(after.notification.unwrap().sent);

    let old = repository.get_task_by_id(&id);
    let mut data = no_changes();
    data.notification_time_unit = Some(Some(TimeUnit::Hour));
    data.notification_time_value = Some(Some(1));
    let changes = update_user_task(old.as_ref(), None, &id, data).unwrap();
    assert!(repository.update_task(
        &id,
        changes.title,
        changes.description,
        changes.start_date,
        changes.end_date,
        changes.status,
        changes.category_id,
        changes.notification,
    ));
    let after = repository.get_task_by_id(&id).unwrap();
    let n = after.notification.unwrap();
    assert!(!n.sent);
    assert_eq!(n.scheduled_time, TEN_O_CLOCK - 3_600_000);
    let due = repository.get_all_not_sent_notifications(n.scheduled_time, n.scheduled_time);
    assert_eq!(due.len(), 1);

    // Taking the reminder away.
    assert!(repository.update_task(&id, None, None, None, None, None, None, Some(None)));
    assert_eq!(repository.get_task_by_id(&id).unwrap().notification, None);
    assert!(repository.get_all_not_sent_notifications(i64::MIN, i64::MAX).is_empty());

    // Changing a task that is not there.
    assert!(!repository.update_task(&oid(77), None, None, None, None, None, None, None));
    assert_eq!(repository.len(), 1);
}

#[test]
fn update_changes_the_given_fields_only() {
    let mut repository = TaskRepository::new();
    assert!(repository.create_task(stored(1, "Dentist")).is_some());
    assert!(repository.create_task(stored(2, "Doctor")).is_some());
    assert!(repository.update_task(
        &oid(1),
        Some(String::from("Barber")),
        None,
        Some(10),
        None,
        Some(Status::Executada),
        None,
        None,
    ));
    let changed = repository.get_task_by_id(&oid(1)).unwrap();
    assert_eq!(changed.id, Some(oid(1)));
    assert_eq!(changed.title, "Barber");
    assert_eq!(changed.description, "old");
    assert_eq!(changed.start_date, 10);
    assert_eq!(changed.end_date, TEN_O_CLOCK + 1);
    assert_eq!(changed.status, Status::Executada);
    assert_eq!(changed.user_id, oid(9));
    assert_eq!(changed.category_id, Some(oid(50)));
    assert_eq!(changed.notification, stored(1, "Dentist").notification);
    let other = repository.get_task_by_id(&oid(2)).unwrap();
    assert_eq!(other.title, "Doctor");
    assert_eq!(other.start_date, TEN_O_CLOCK);
    assert!(repository.update_task(&oid(2), None, None, None, Some(3), None, Some(oid(60)), None));
    let other = repository.get_task_by_id(&oid(2)).unwrap();
    assert_eq!(other.end_date, 3);
    assert_eq!(other.category_id, Some(oid(60)));
}
