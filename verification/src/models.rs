//! The records: a bookmark, the reminder it may carry, and the inputs that
//! create and change one.

use crate::clock::parse_clock_time;
use crate::clock::ClockTime;
use crate::error::Error;
use vstd::prelude::*;

verus! {

/// How often a reminder comes round.
#[derive(Clone, Copy, Debug, PartialEq, Eq, Structural)]
pub enum ReminderFrequency {
    Daily,
    Weekly,
    Custom { interval_days: u32 },
    Once,
}

/// A "check back" reminder on a bookmark.
#[derive(Clone, Debug, PartialEq, Eq)]
pub struct Reminder {
    pub enabled: bool,
    pub frequency: ReminderFrequency,
    /// The time of day, as HH:MM on a 24-hour clock.
    pub time: String,
    /// Days of the week, 0 for Sunday to 6 for Saturday; read for `Weekly`.
    pub days: Vec<u8>,
    /// When the reminder was last marked done: an RFC 3339 time stamp.
    pub last_reminded: Option<String>,
    /// Until when the reminder was last snoozed: an RFC 3339 time stamp.
    pub next_reminder: Option<String>,
}

#[derive(Clone, Debug, PartialEq, Eq)]
pub struct Bookmark {
    pub id: Option<i64>,
    pub title: String,
    pub url: String,
    pub category: Option<String>,
    pub tags: Vec<String>,
    pub icon_url: Option<String>,
    pub notes: Option<String>,
    pub reminder: Option<Reminder>,
    pub visit_count: i64,
    pub last_visited: Option<String>,
    pub created_at: String,
    pub updated_at: String,
}

#[derive(Debug)]
pub struct CreateBookmarkInput {
    pub title: String,
    pub url: String,
    pub category: Option<String>,
    pub tags: Vec<String>,
    pub notes: Option<String>,
    pub reminder: Option<Reminder>,
}

#[derive(Debug)]
pub struct UpdateBookmarkInput {
    pub id: i64,
    pub title: Option<String>,
    pub url: Option<String>,
    pub category: Option<String>,
    pub tags: Option<Vec<String>>,
    pub notes: Option<String>,
    pub reminder: Option<Reminder>,
}

/// A reminder as a value: texts as sequences of characters.
pub struct ReminderView {
    pub enabled: bool,
    pub frequency: ReminderFrequency,
    pub time: Seq<char>,
    pub days: Seq<u8>,
    pub last_reminded: Option<Seq<char>>,
    pub next_reminder: Option<Seq<char>>,
}

/// A bookmark as a value.
pub struct BookmarkView {
    pub id: Option<i64>,
    pub title: Seq<char>,
    pub url: Seq<char>,
    pub category: Option<Seq<char>>,
    pub tags: Seq<Seq<char>>,
    pub icon_url: Option<Seq<char>>,
    pub notes: Option<Seq<char>>,
    pub reminder: Option<ReminderView>,
    pub visit_count: i64,
    pub last_visited: Option<Seq<char>>,
    pub created_at: Seq<char>,
    pub updated_at: Seq<char>,
}

pub struct CreateBookmarkInputView {
    pub title: Seq<char>,
    pub url: Seq<char>,
    pub category: Option<Seq<char>>,
    pub tags: Seq<Seq<char>>,
    pub notes: Option<Seq<char>>,
    pub reminder: Option<ReminderView>,
}

pub struct UpdateBookmarkInputView {
    pub id: i64,
    pub title: Option<Seq<char>>,
    pub url: Option<Seq<char>>,
    pub category: Option<Seq<char>>,
    pub tags: Option<Seq<Seq<char>>>,
    pub notes: Option<Seq<char>>,
    pub reminder: Option<ReminderView>,
}

/// An optional text as a value.
pub open spec fn text_of(text: Option<String>) -> Option<Seq<char>> {
    match text {
        Some(t) => Some(t@),
        None => None,
    }
}

/// A list of texts as a value.
pub open spec fn texts_of(texts: Vec<String>) -> Seq<Seq<char>> {
    Seq::new(texts@.len(), |i: int| texts@[i]@)
}

/// An optional reminder as a value.
pub open spec fn reminder_of(reminder: Option<Reminder>) -> Option<ReminderView> {
    match reminder {
        Some(r) => Some(r@),
        None => None,
    }
}

/// A list of bookmarks as values, in the same order.
pub open spec fn views_of(rows: Seq<Bookmark>) -> Seq<BookmarkView> {
    Seq::new(rows.len(), |i: int| rows[i]@)
}

impl View for Reminder {
    type V = ReminderView;

    open spec fn view(&self) -> ReminderView {
        ReminderView {
            enabled: self.enabled,
            frequency: self.frequency,
            time: self.time@,
            days: self.days@,
            last_reminded: text_of(self.last_reminded),
            next_reminder: text_of(self.next_reminder),
        }
    }
}

impl View for Bookmark {
    type V = BookmarkView;

    open spec fn view(&self) -> BookmarkView {
        BookmarkView {
            id: self.id,
            title: self.title@,
            url: self.url@,
            category: text_of(self.category),
            tags: texts_of(self.tags),
            icon_url: text_of(self.icon_url),
            notes: text_of(self.notes),
            reminder: reminder_of(self.reminder),
            visit_count: self.visit_count,
            last_visited: text_of(self.last_visited),
            created_at: self.created_at@,
            updated_at: self.updated_at@,
        }
    }
}

impl View for CreateBookmarkInput {
    type V = CreateBookmarkInputView;

    open spec fn view(&self) -> CreateBookmarkInputView {
        CreateBookmarkInputView {
            title: self.title@,
            url: self.url@,
            category: text_of(self.category),
            tags: texts_of(self.tags),
            notes: text_of(self.notes),
            reminder: reminder_of(self.reminder),
        }
    }
}

impl View for UpdateBookmarkInput {
    type V = UpdateBookmarkInputView;

    open spec fn view(&self) -> UpdateBookmarkInputView {
        UpdateBookmarkInputView {
            id: self.id,
            title: text_of(self.title),
            url: text_of(self.url),
            category: text_of(self.category),
            tags: match self.tags {
                Some(t) => Some(texts_of(t)),
                None => None,
            },
            notes: text_of(self.notes),
            reminder: reminder_of(self.reminder),
        }
    }
}

/// A copy of an optional text.
pub fn copy_text(text: &Option<String>) -> (copy: Option<String>)
    ensures
        text_of(copy) == text_of(*text),
{
    match text {
        Some(t) => Some(t.clone()),
        None => None,
    }
}

/// A copy of a list of texts.
pub fn copy_texts(texts: &Vec<String>) -> (copy: Vec<String>)
    ensures
        texts_of(copy) == texts_of(*texts),
{
    let mut copy: Vec<String> = Vec::new();
    let mut i: usize = 0;
    while i < texts.len()
        invariant
            i <= texts.len(),
            copy@.len() == i,
            forall|k: int| 0 <= k < i ==> copy@[k]@ == texts@[k]@,
        decreases texts.len() - i,
    {
        copy.push(texts[i].clone());
        i = i + 1;
    }
    assert(texts_of(copy) =~= texts_of(*texts));
    copy
}

/// Whether every entry is a day of the week: 0 for Sunday to 6 for Saturday.
pub open spec fn days_of_week(days: Seq<u8>) -> bool {
    forall|i: int| 0 <= i < days.len() ==> days[i] <= 6
}

/// Whether an interval, where the frequency has one, is a day or more.
pub open spec fn interval_counts(frequency: ReminderFrequency) -> bool {
    frequency matches ReminderFrequency::Custom { interval_days } ==> interval_days >= 1
}

impl ReminderView {
    /// Whether the fields hold what their formats ask for: a time of day
    /// that reads as HH:MM, days of the week from 0 to 6, and an interval of
    /// at least one day.
    pub open spec fn well_formed(self) -> bool {
        &&& ClockTime::spec_parse(self.time) is Some
        &&& days_of_week(self.days)
        &&& interval_counts(self.frequency)
    }

    /// The reminder that `Reminder::new` makes of its arguments.
    pub open spec fn fresh(enabled: bool, frequency: ReminderFrequency, time: Seq<char>, days: Seq<u8>) -> ReminderView {
        ReminderView { enabled, frequency, time, days, last_reminded: None, next_reminder: None }
    }
}

impl Reminder {
    /// Whether every entry is a day of the week.
    pub fn check_days(days: &Vec<u8>) -> (all: bool)
        ensures
            all == days_of_week(days@),
    {
        let mut i: usize = 0;
        while i < days.len()
            invariant
                i <= days.len(),
                forall|k: int| 0 <= k < i ==> days@[k] <= 6,
            decreases days.len() - i,
        {
            if days[i] > 6 {
                return false;
            }
            i = i + 1;
        }
        true
    }

    /// Whether an interval, where the frequency has one, is a day or more.
    pub fn check_interval(frequency: &ReminderFrequency) -> (positive: bool)
        ensures
            positive == interval_counts(*frequency),
    {
        match frequency {
            ReminderFrequency::Custom { interval_days } => *interval_days >= 1,
            _ => true,
        }
    }

    /// A reminder that has not fired and was not snoozed. It is made only of
    /// fields that hold what their formats ask for.
    pub fn new(enabled: bool, frequency: ReminderFrequency, time: String, days: Vec<u8>) -> (made: Result<Reminder, Error>)
        ensures
            made is Ok <==> ReminderView::fresh(enabled, frequency, time@, days@).well_formed(),
            made matches Ok(r) ==> r@ == ReminderView::fresh(enabled, frequency, time@, days@),
            made matches Err(e) ==> e == Error::MalformedField,
    {
        let readable = parse_clock_time(time.as_str()).is_some();
        let in_week = Reminder::check_days(&days);
        let counted = Reminder::check_interval(&frequency);
        if readable && in_week && counted {
            Ok(Reminder { enabled, frequency, time, days, last_reminded: None, next_reminder: None })
        } else {
            Err(Error::MalformedField)
        }
    }

    /// Whether the fields hold what their formats ask for.
    pub fn is_well_formed(&self) -> (ok: bool)
        ensures
            ok == self@.well_formed(),
    {
        let readable = parse_clock_time(self.time.as_str()).is_some();
        let in_week = Reminder::check_days(&self.days);
        let counted = Reminder::check_interval(&self.frequency);
        readable && in_week && counted
    }

    /// A copy of the reminder.
    pub fn duplicate(&self) -> (copy: Reminder)
        ensures
            copy@ == self@,
    {
        Reminder {
            enabled: self.enabled,
            frequency: self.frequency,
            time: self.time.clone(),
            days: self.days.clone(),
            last_reminded: copy_text(&self.last_reminded),
            next_reminder: copy_text(&self.next_reminder),
        }
    }
}

/// A copy of an optional reminder.
pub fn copy_reminder(reminder: &Option<Reminder>) -> (copy: Option<Reminder>)
    ensures
        reminder_of(copy) == reminder_of(*reminder),
{
    match reminder {
        Some(r) => Some(r.duplicate()),
        None => None,
    }
}

impl Bookmark {
    /// A copy of the bookmark.
    pub fn duplicate(&self) -> (copy: Bookmark)
        ensures
            copy@ == self@,
    {
        Bookmark {
            id: self.id,
            title: self.title.clone(),
            url: self.url.clone(),
            category: copy_text(&self.category),
            tags: copy_texts(&self.tags),
            icon_url: copy_text(&self.icon_url),
            notes: copy_text(&self.notes),
            reminder: copy_reminder(&self.reminder),
            visit_count: self.visit_count,
            last_visited: copy_text(&self.last_visited),
            created_at: self.created_at.clone(),
            updated_at: self.updated_at.clone(),
        }
    }
}

} // verus!
