use bookmark_reminder::clock::Instant;
use bookmark_reminder::database::Database;
use bookmark_reminder::error::Error;
use bookmark_reminder::models::{
    Bookmark, CreateBookmarkInput, Reminder, ReminderFrequency, UpdateBookmarkInput,
};
use bookmark_reminder::reminder::{
    mark_reminder_completed, mark_reminder_completed_at, snooze_reminder, snooze_reminder_at,
};

fn weekly() -> Reminder {
    Reminder {
        enabled: true,
        frequency: ReminderFrequency::Weekly,
        time: "09:00".to_string(),
        days: vec![1, 3],
        last_reminded: Some("2024-04-30T09:00:00+00:00".to_string()),
        next_reminder: Some("2024-04-30T10:00:00+00:00".to_string()),
    }
}

fn store(reminder: Option<Reminder>) -> Database {
    let mut db = Database::new();
    let input = |title: &str, reminder: Option<Reminder>| CreateBookmarkInput {
        title: title.to_string(),
        url: "u".to_string(),
        category: Some("c".to_string()),
        tags: vec!["t".to_string()],
        notes: Some("n".to_string()),
        reminder,
    };
    db.create_bookmark_at(input("first", None), "t0".to_string()).unwrap();
    db.create_bookmark_at(input("second", reminder), "t0".to_string()).unwrap();
    db.create_bookmark_at(input("third", Some(weekly())), "t0".to_string()).unwrap();
    db
}

const NOON: Instant = Instant { secs: 1_714_564_800, nanos: 0 };

#[test]
fn completion_stamps_last_reminded_only() {
    let mut db = store(Some(weekly()));
    let before = db.get_all_bookmarks();
    assert_eq!(mark_reminder_completed_at(&mut db, 2, &NOON), Ok(()));
    let after = db.get_bookmark(2).unwrap();
    assert_eq!(
        after,
        Bookmark {
            reminder: Some(Reminder { last_reminded: Some("2024-05-01T12:00:00+00:00".to_string()), ..weekly() }),
            ..before[1].clone()
        }
    );
    assert_eq!(db.get_bookmark(1).unwrap(), before[2]);
    assert_eq!(db.get_bookmark(3).unwrap(), before[0]);
}

#[test]
fn completion_writes_fractions_of_a_second() {
    let mut db = store(Some(weekly()));
    let at = Instant { secs: 86_400, nanos: 500_000_000 };
    assert_eq!(mark_reminder_completed_at(&mut db, 2, &at), Ok(()));
    assert_eq!(
        db.get_bookmark(2).unwrap().reminder.unwrap().last_reminded.as_deref(),
        Some("1970-01-02T00:00:00.500+00:00")
    );
}

#[test]
fn completion_without_reminder_changes_nothing() {
    let mut db = store(None);
    let before = db.get_all_bookmarks();
    assert_eq!(mark_reminder_completed_at(&mut db, 2, &NOON), Ok(()));
    assert_eq!(mark_reminder_completed_at(&mut db, 2, &Instant { secs: i64::MAX, nanos: 0 }), Ok(()));
    assert_eq!(mark_reminder_completed(&mut db, 2), Ok(()));
    assert_eq!(db.get_all_bookmarks(), before);
}

#[test]
fn completion_of_a_missing_bookmark_is_not_found() {
    let mut db = store(Some(weekly()));
    let before = db.get_all_bookmarks();
    assert_eq!(mark_reminder_completed_at(&mut db, 9, &NOON), Err(Error::NotFound));
    assert_eq!(mark_reminder_completed(&mut db, 9), Err(Error::NotFound));
    assert_eq!(db.get_all_bookmarks(), before);
}

#[test]
fn completion_outside_the_range_of_time_stamps() {
    let mut db = store(Some(weekly()));
    let before = db.get_all_bookmarks();
    assert_eq!(mark_reminder_completed_at(&mut db, 2, &Instant { secs: i64::MAX, nanos: 0 }), Err(Error::TimeOutOfRange));
    assert_eq!(mark_reminder_completed_at(&mut db, 2, &Instant { secs: 0, nanos: 2_000_000_000 }), Err(Error::TimeOutOfRange));
    assert_eq!(db.get_all_bookmarks(), before);
}

#[test]
fn completion_reads_the_clock() {
    let mut db = store(Some(weekly()));
    assert_eq!(mark_reminder_completed(&mut db, 2), Ok(()));
    let reminder = db.get_bookmark(2).unwrap().reminder.unwrap();
    let at = chrono::DateTime::parse_from_rfc3339(reminder.last_reminded.as_deref().unwrap()).unwrap();
    assert!((chrono::Utc::now().timestamp() - at.timestamp()).abs() < 60);
    assert_eq!(reminder.next_reminder, weekly().next_reminder);
}

#[test]
fn snooze_sets_next_reminder_only() {
    let mut db = store(Some(weekly()));
    let before = db.get_all_bookmarks();
    assert_eq!(snooze_reminder_at(&mut db, 2, 90, &NOON), Ok(()));
    let after = db.get_bookmark(2).unwrap();
    assert_eq!(
        after,
        Bookmark {
            reminder: Some(Reminder { next_reminder: Some("2024-05-01T13:30:00+00:00".to_string()), ..weekly() }),
            ..before[1].clone()
        }
    );
    assert_eq!(after.reminder.unwrap().last_reminded, weekly().last_reminded);
    assert_eq!(db.get_bookmark(1).unwrap(), before[2]);
    assert_eq!(db.get_bookmark(3).unwrap(), before[0]);
}

#[test]
fn snooze_by_no_or_negative_minutes() {
    let mut db = store(Some(weekly()));
    assert_eq!(snooze_reminder_at(&mut db, 2, 0, &NOON), Ok(()));
    assert_eq!(db.get_bookmark(2).unwrap().reminder.unwrap().next_reminder.as_deref(), Some("2024-05-01T12:00:00+00:00"));
    assert_eq!(snooze_reminder_at(&mut db, 2, -60, &NOON), Ok(()));
    assert_eq!(db.get_bookmark(2).unwrap().reminder.unwrap().next_reminder.as_deref(), Some("2024-05-01T11:00:00+00:00"));
}

#[test]
fn snooze_without_reminder_changes_nothing() {
    let mut db = store(None);
    let before = db.get_all_bookmarks();
    assert_eq!(snooze_reminder_at(&mut db, 2, 10, &NOON), Ok(()));
    assert_eq!(snooze_reminder_at(&mut db, 2, i64::MAX, &NOON), Ok(()));
    assert_eq!(snooze_reminder(&mut db, 2, 10), Ok(()));
    assert_eq!(db.get_all_bookmarks(), before);
}

#[test]
fn snooze_of_a_missing_bookmark_is_not_found() {
    let mut db = store(Some(weekly()));
    let before = db.get_all_bookmarks();
    assert_eq!(snooze_reminder_at(&mut db, 9, 10, &NOON), Err(Error::NotFound));
    assert_eq!(snooze_reminder_at(&mut db, 9, i64::MAX, &NOON), Err(Error::NotFound));
    assert_eq!(snooze_reminder(&mut db, 9, 10), Err(Error::NotFound));
    assert_eq!(db.get_all_bookmarks(), before);
}

#[test]
fn snooze_beyond_the_range_of_time_stamps() {
    let mut db = store(Some(weekly()));
    let before = db.get_all_bookmarks();
    assert_eq!(snooze_reminder_at(&mut db, 2, i64::MAX, &NOON), Err(Error::TimeOutOfRange));
    assert_eq!(snooze_reminder_at(&mut db, 2, i64::MAX / 60, &NOON), Err(Error::TimeOutOfRange));
    assert_eq!(snooze_reminder_at(&mut db, 2, i64::MIN, &NOON), Err(Error::TimeOutOfRange));
    assert_eq!(snooze_reminder(&mut db, 2, i64::MAX), Err(Error::TimeOutOfRange));
    assert_eq!(db.get_all_bookmarks(), before);
}

#[test]
fn snooze_reads_the_clock() {
    let mut db = store(Some(weekly()));
    assert_eq!(snooze_reminder(&mut db, 2, 30), Ok(()));
    let reminder = db.get_bookmark(2).unwrap().reminder.unwrap();
    let until = chrono::DateTime::parse_from_rfc3339(reminder.next_reminder.as_deref().unwrap()).unwrap();
    assert!((until.timestamp() - chrono::Utc::now().timestamp() - 1_800).abs() < 60);
    assert_eq!(reminder.last_reminded, weekly().last_reminded);
}

fn update(reminder: Option<Reminder>) -> UpdateBookmarkInput {
    UpdateBookmarkInput {
        id: 2,
        title: Some("renamed".to_string()),
        url: None,
        category: Some("moved".to_string()),
        tags: None,
        notes: None,
        reminder,
    }
}

fn daily() -> Reminder {
    Reminder {
        enabled: true,
        frequency: ReminderFrequency::Daily,
        time: "18:00".to_string(),
        days: vec![],
        last_reminded: None,
        next_reminder: None,
    }
}

#[test]
fn completion_then_update_keeps_the_updates_reminder() {
    let mut db = store(Some(weekly()));
    mark_reminder_completed_at(&mut db, 2, &NOON).unwrap();
    db.update_bookmark_at(update(Some(daily())), "t1".to_string()).unwrap();
    assert_eq!(db.get_bookmark(2).unwrap().reminder, Some(daily()));
    let mut db = store(Some(weekly()));
    mark_reminder_completed_at(&mut db, 2, &NOON).unwrap();
    db.update_bookmark_at(update(None), "t1".to_string()).unwrap();
    assert_eq!(db.get_bookmark(2).unwrap().reminder, None);
}

#[test]
fn update_then_completion_keeps_the_completions_reminder() {
    let mut db = store(Some(weekly()));
    db.update_bookmark_at(update(Some(daily())), "t1".to_string()).unwrap();
    mark_reminder_completed_at(&mut db, 2, &NOON).unwrap();
    let after = db.get_bookmark(2).unwrap();
    assert_eq!(after.reminder, Some(Reminder { last_reminded: Some("2024-05-01T12:00:00+00:00".to_string()), ..daily() }));
    assert_eq!(after.title, "renamed");
    assert_eq!(after.category.as_deref(), Some("moved"));
}

#[test]
fn update_between_the_read_and_the_write_of_a_completion() {
    let mut db = store(Some(weekly()));
    let read = db.get_bookmark(2).unwrap().reminder.unwrap();
    db.update_bookmark_at(update(Some(daily())), "t1".to_string()).unwrap();
    let written = read.complete("2024-05-01T12:00:00+00:00".to_string());
    db.replace_reminder(2, written.clone()).unwrap();
    let after = db.get_bookmark(2).unwrap();
    assert_eq!(after.reminder, Some(written));
    assert_eq!(after.reminder.unwrap(), Reminder { last_reminded: Some("2024-05-01T12:00:00+00:00".to_string()), ..weekly() });
    assert_eq!(after.title, "renamed");
    assert_eq!(after.updated_at, "t1");
}
