use bookmark_reminder::error::Error;
use bookmark_reminder::models::{
    copy_reminder, copy_text, copy_texts, Bookmark, Reminder, ReminderFrequency,
};

#[test]
fn a_new_reminder_has_not_fired() {
    let made = Reminder::new(true, ReminderFrequency::Weekly, "07:15".to_string(), vec![0, 6, 3]).unwrap();
    assert_eq!(
        made,
        Reminder {
            enabled: true,
            frequency: ReminderFrequency::Weekly,
            time: "07:15".to_string(),
            days: vec![0, 6, 3],
            last_reminded: None,
            next_reminder: None,
        }
    );
    assert!(made.is_well_formed());
    let made = Reminder::new(false, ReminderFrequency::Custom { interval_days: 1 }, "23:59".to_string(), vec![]).unwrap();
    assert!(!made.enabled);
    assert_eq!(made.frequency, ReminderFrequency::Custom { interval_days: 1 });
}

#[test]
fn a_reminder_needs_a_time_of_day() {
    for time in ["", "noon", "24:00", "12:60", "12", "12:00:00", "-1:00"] {
        assert_eq!(Reminder::new(true, ReminderFrequency::Daily, time.to_string(), vec![]), Err(Error::MalformedField));
    }
    for time in ["00:00", "0:00", "9:05", "23:59"] {
        assert!(Reminder::new(true, ReminderFrequency::Daily, time.to_string(), vec![]).is_ok());
    }
}

#[test]
fn a_reminder_needs_days_of_the_week() {
    assert_eq!(Reminder::new(true, ReminderFrequency::Weekly, "09:00".to_string(), vec![1, 7]), Err(Error::MalformedField));
    assert_eq!(Reminder::new(true, ReminderFrequency::Daily, "09:00".to_string(), vec![255]), Err(Error::MalformedField));
    assert!(Reminder::new(true, ReminderFrequency::Weekly, "09:00".to_string(), vec![0, 1, 2, 3, 4, 5, 6, 6]).is_ok());
}

#[test]
fn an_interval_is_a_day_or_more() {
    assert_eq!(
        Reminder::new(true, ReminderFrequency::Custom { interval_days: 0 }, "09:00".to_string(), vec![]),
        Err(Error::MalformedField)
    );
    assert!(Reminder::new(true, ReminderFrequency::Custom { interval_days: u32::MAX }, "09:00".to_string(), vec![]).is_ok());
}

#[test]
fn well_formedness_is_checked_on_any_reminder() {
    let mut r = Reminder::new(true, ReminderFrequency::Once, "09:00".to_string(), vec![2]).unwrap();
    r.last_reminded = Some("whenever".to_string());
    assert!(r.is_well_formed());
    r.days.push(9);
    assert!(!r.is_well_formed());
    r.days.clear();
    r.time = "9h".to_string();
    assert!(!r.is_well_formed());
    r.time = "09:00".to_string();
    r.frequency = ReminderFrequency::Custom { interval_days: 0 };
    assert!(!r.is_well_formed());
}

#[test]
fn copies_are_equal() {
    let r = Reminder {
        enabled: true,
        frequency: ReminderFrequency::Custom { interval_days: 4 },
        time: "09:00".to_string(),
        days: vec![1, 2],
        last_reminded: Some("l".to_string()),
        next_reminder: None,
    };
    assert_eq!(r.duplicate(), r);
    assert_eq!(copy_reminder(&Some(r.clone())), Some(r.clone()));
    assert_eq!(copy_reminder(&None), None);
    let b = Bookmark {
        id: Some(3),
        title: "t".to_string(),
        url: "u".to_string(),
        category: Some("c".to_string()),
        tags: vec!["a".to_string(), "b".to_string()],
        icon_url: None,
        notes: Some("n".to_string()),
        reminder: Some(r),
        visit_count: 5,
        last_visited: Some("v".to_string()),
        created_at: "c0".to_string(),
        updated_at: "c1".to_string(),
    };
    assert_eq!(b.duplicate(), b);
    assert_eq!(copy_text(&Some("x".to_string())), Some("x".to_string()));
    assert_eq!(copy_text(&None), None);
    assert_eq!(copy_texts(&vec!["a".to_string(), "".to_string()]), vec!["a".to_string(), "".to_string()]);
    assert!(copy_texts(&vec![]).is_empty());
}

#[test]
fn days_and_intervals_are_checked() {
    assert!(Reminder::check_days(&vec![]));
    assert!(Reminder::check_days(&vec![0, 6]));
    assert!(!Reminder::check_days(&vec![0, 7, 1]));
    assert!(Reminder::check_interval(&ReminderFrequency::Daily));
    assert!(Reminder::check_interval(&ReminderFrequency::Weekly));
    assert!(Reminder::check_interval(&ReminderFrequency::Once));
    assert!(Reminder::check_interval(&ReminderFrequency::Custom { interval_days: 1 }));
    assert!(!Reminder::check_interval(&ReminderFrequency::Custom { interval_days: 0 }));
}
