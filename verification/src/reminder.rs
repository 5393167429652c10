//! When a reminder is due, and the scheduler that asks.
//!
//! The verdict is a function of a reading of the local clock and of the
//! reminder. One thing in it goes by the machine: the local calendar date on
//! which the instant of `last_reminded` falls.

use crate::clock::parse_clock_time;
use crate::clock::read_local_clock;
use crate::clock::read_stamp;
use crate::clock::read_utc_clock;
use crate::clock::rfc3339_reading;
use crate::clock::write_stamp;
use crate::clock::ClockTime;
use crate::clock::Instant;
use crate::clock::Moment;
use crate::clock::NANOS_PER_SECOND;
use crate::database::holds;
use crate::database::put;
use crate::database::record;
use crate::database::Database;
use crate::error::Error;
use crate::models::text_of;
use crate::models::views_of;
use crate::models::Bookmark;
use crate::models::BookmarkView;
use crate::models::Reminder;
use crate::models::ReminderFrequency;
use crate::models::ReminderView;
use vstd::prelude::*;
use vstd::string::StringExecFns;

verus! {

/// How long after its time of day a reminder may still fire: one minute.
pub const GRACE_NANOS: u64 = 60_000_000_000;

/// What a reminder's `last_reminded` field says.
#[derive(Clone, Copy, Debug, PartialEq, Eq, Structural)]
pub enum LastReminded {
    /// The field is empty.
    Never,
    /// The field holds a text that is no RFC 3339 time stamp.
    Unreadable,
    /// The field names this instant, which falls on this local calendar date
    /// (days counted from 0001-01-01 = 1).
    At { instant: Instant, day: i32 },
}

impl LastReminded {
    /// What the field says where the instant of a readable stamp falls on the
    /// local calendar date `day`.
    pub open spec fn on_day(text: Option<Seq<char>>, day: i32) -> LastReminded {
        match text {
            None => LastReminded::Never,
            Some(t) => match rfc3339_reading(t) {
                None => LastReminded::Unreadable,
                Some((secs, nanos)) => LastReminded::At { instant: Instant { secs, nanos }, day },
            },
        }
    }

    /// Reads the field on this machine.
    pub fn read(text: &Option<String>) -> (last: LastReminded)
        ensures
            exists|day: i32| last == #[trigger] LastReminded::on_day(text_of(*text), day),
    {
        match text {
            None => {
                assert(LastReminded::Never == LastReminded::on_day(text_of(*text), 0i32));
                LastReminded::Never
            },
            Some(t) => match read_stamp(t.as_str()) {
                None => {
                    assert(LastReminded::Unreadable == LastReminded::on_day(text_of(*text), 0i32));
                    LastReminded::Unreadable
                },
                Some(stamp) => {
                    let last = LastReminded::At { instant: stamp.instant, day: stamp.day };
                    assert(last == LastReminded::on_day(text_of(*text), stamp.day));
                    last
                },
            },
        }
    }
}

/// Whether `now` lies in the grace window of the time of day `at`: not before
/// it, and no more than a minute after it. The window does not reach back
/// over midnight.
pub open spec fn in_window(now: Moment, at: ClockTime) -> bool {
    &&& now.secs_of_day >= at.seconds()
    &&& (now.secs_of_day - at.seconds()) * NANOS_PER_SECOND + now.frac <= GRACE_NANOS
}

/// Whether the reminder last fired on the calendar date of `now`.
pub open spec fn fired_today(now: Moment, last: LastReminded) -> bool {
    last matches LastReminded::At { day, .. } && day == now.day
}

/// Whether the frequency lets the reminder fire at `now`: every day; on the
/// days of the week that it names; once as many whole days as its interval
/// have passed since it last fired, and at once where it never fired or the
/// field does not read; once only, while the field is empty.
pub open spec fn frequency_met(now: Moment, frequency: ReminderFrequency, days: Seq<u8>, last: LastReminded) -> bool {
    match frequency {
        ReminderFrequency::Daily => true,
        ReminderFrequency::Weekly => days.contains(now.weekday),
        ReminderFrequency::Custom { interval_days } => match last {
            LastReminded::At { instant, .. } => instant.whole_days_until(now.instant) >= interval_days,
            _ => true,
        },
        ReminderFrequency::Once => last is Never,
    }
}

/// Whether a reminder is due at `now`, given what its time of day and its
/// `last_reminded` field read as.
pub open spec fn due(now: Moment, reminder: ReminderView, time: Option<ClockTime>, last: LastReminded) -> bool {
    &&& reminder.enabled
    &&& time is Some
    &&& in_window(now, time->0)
    &&& !fired_today(now, last)
    &&& frequency_met(now, reminder.frequency, reminder.days, last)
}

/// Whether a reminder is due at `now` on a machine where the instant of
/// `last_reminded` falls on the local calendar date `last_day`.
pub open spec fn verdict(now: Moment, reminder: ReminderView, last_day: i32) -> bool {
    due(now, reminder, ClockTime::spec_parse(reminder.time), LastReminded::on_day(reminder.last_reminded, last_day))
}

/// Whether `fires` can be the answer for the bookmark at `now`: never for a
/// bookmark without a reminder, else the verdict for some local date of
/// `last_reminded`.
pub open spec fn may_remind(bookmark: BookmarkView, now: Moment, fires: bool) -> bool {
    match bookmark.reminder {
        None => !fires,
        Some(r) => exists|last_day: i32| fires == #[trigger] verdict(now, r, last_day),
    }
}

/// Whether the day of the week is among `days`.
pub fn has_day(days: &Vec<u8>, day: u8) -> (found: bool)
    ensures
        found == days@.contains(day),
{
    let mut i: usize = 0;
    while i < days.len()
        invariant
            i <= days.len(),
            forall|k: int| 0 <= k < i ==> days@[k] != day,
        decreases days.len() - i,
    {
        if days[i] == day {
            return true;
        }
        i = i + 1;
    }
    false
}

/// The due-evaluation rule.
pub fn is_due(now: &Moment, reminder: &Reminder, time: Option<ClockTime>, last: LastReminded) -> (fires: bool)
    ensures
        fires == due(*now, reminder@, time, last),
{
    if !reminder.enabled {
        return false;
    }
    let at = match time {
        Some(at) => at,
        None => {
            return false;
        },
    };
    let set: u64 = (at.hour as u64) * 3_600 + (at.minute as u64) * 60;
    let secs: u64 = now.secs_of_day as u64;
    if secs < set {
        return false;
    }
    let late: u64 = (secs - set) * 1_000_000_000 + (now.frac as u64);
    if late > GRACE_NANOS {
        return false;
    }
    match last {
        LastReminded::At { instant, day } => {
            if day == now.day {
                return false;
            }
        },
        _ => {},
    }
    match reminder.frequency {
        ReminderFrequency::Daily => true,
        ReminderFrequency::Weekly => has_day(&reminder.days, now.weekday),
        ReminderFrequency::Custom { interval_days } => match last {
            LastReminded::At { instant, day } => instant.days_until(&now.instant) >= (interval_days as i64),
            _ => true,
        },
        ReminderFrequency::Once => match last {
            LastReminded::Never => true,
            _ => false,
        },
    }
}

/// Whether `fires` is the answer for the bookmark at `now`, where its
/// `last_reminded` field reads as `last` on this machine: never for a
/// bookmark without a reminder, else what the rule says.
pub open spec fn judged(bookmark: BookmarkView, now: Moment, fires: bool, last: LastReminded) -> bool {
    match bookmark.reminder {
        None => !fires && last is Never,
        Some(r) => {
            &&& fires == due(now, r, ClockTime::spec_parse(r.time), last)
            &&& exists|last_day: i32| last == #[trigger] LastReminded::on_day(r.last_reminded, last_day)
        },
    }
}

/// Whether the bookmark's reminder is due at `now`, and what its
/// `last_reminded` field read as on this machine.
pub fn judge(bookmark: &Bookmark, now: &Moment) -> (answer: (bool, LastReminded))
    ensures
        judged(bookmark@, *now, answer.0, answer.1),
        may_remind(bookmark@, *now, answer.0),
{
    match &bookmark.reminder {
        None => (false, LastReminded::Never),
        Some(reminder) => {
            let time = parse_clock_time(reminder.time.as_str());
            let last = LastReminded::read(&reminder.last_reminded);
            let fires = is_due(now, reminder, time, last);
            proof {
                let day = choose|day: i32| last == #[trigger] LastReminded::on_day(text_of(reminder.last_reminded), day);
                assert(fires == verdict(*now, reminder@, day));
            }
            (fires, last)
        },
    }
}

/// Whether the bookmark's reminder is due at `now`.
pub fn should_remind_at(bookmark: &Bookmark, now: &Moment) -> (fires: bool)
    ensures
        may_remind(bookmark@, *now, fires),
{
    judge(bookmark, now).0
}


/// The positions of the bookmarks that fire at `now`: `picked` rises, stays
/// within `candidates`, and holds a position where, and only where, the
/// answer for the bookmark there is that it fires.
pub open spec fn picks(candidates: Seq<BookmarkView>, now: Moment, picked: Seq<usize>) -> bool {
    &&& forall|k: int| 0 <= k < picked.len() ==> (#[trigger] picked[k]) < candidates.len()
    &&& forall|j: int, k: int| 0 <= j < k < picked.len() ==> (#[trigger] picked[j]) < (#[trigger] picked[k])
    &&& forall|i: int| 0 <= i < candidates.len() ==> may_remind(#[trigger] candidates[i], now, picked.contains(i as usize))
}

/// One tick's evaluation: the positions of the candidates that are due at
/// `now`. Every candidate is looked at, whatever the others hold.
pub fn due_at(candidates: &Vec<Bookmark>, now: &Moment) -> (picked: Vec<usize>)
    ensures
        picks(views_of(candidates@), *now, picked@),
{
    let mut picked: Vec<usize> = Vec::new();
    let mut i: usize = 0;
    while i < candidates.len()
        invariant
            i <= candidates.len(),
            forall|k: int| 0 <= k < picked@.len() ==> (#[trigger] picked@[k]) < i,
            forall|j: int, k: int| 0 <= j < k < picked@.len() ==> (#[trigger] picked@[j]) < (#[trigger] picked@[k]),
            forall|a: int| 0 <= a < i ==> may_remind(#[trigger] views_of(candidates@)[a], *now, picked@.contains(a as usize)),
        decreases candidates.len() - i,
    {
        let fires = should_remind_at(&candidates[i], now);
        let ghost before = picked@;
        assert(views_of(candidates@)[i as int] == candidates@[i as int]@);
        if fires {
            picked.push(i);
            proof {
                assert(picked@[before.len() as int] == i);
                assert forall|v: usize| v != i implies before.contains(v) == #[trigger] picked@.contains(v) by {
                    if before.contains(v) {
                        let k = choose|k: int| 0 <= k < before.len() && before[k] == v;
                        assert(picked@[k] == v);
                    }
                    if picked@.contains(v) {
                        let k = choose|k: int| 0 <= k < picked@.len() && picked@[k] == v;
                        assert(k < before.len());
                        assert(before[k] == v);
                    }
                }
            }
        } else {
            assert(!picked@.contains(i));
        }
        i = i + 1;
    }
    picked
}

impl ReminderView {
    /// The reminder after it was marked done at the time stamp `stamp`.
    pub open spec fn completed(self, stamp: Seq<char>) -> ReminderView {
        ReminderView { last_reminded: Some(stamp), ..self }
    }

    /// The reminder after it was snoozed until the time stamp `until`.
    pub open spec fn snoozed(self, until: Seq<char>) -> ReminderView {
        ReminderView { next_reminder: Some(until), ..self }
    }
}

impl BookmarkView {
    /// The record after its reminder, if it has one, was marked done.
    pub open spec fn completed(self, stamp: Seq<char>) -> BookmarkView {
        match self.reminder {
            Some(r) => self.with_reminder(r.completed(stamp)),
            None => self,
        }
    }

    /// The record after its reminder, if it has one, was snoozed.
    pub open spec fn snoozed(self, until: Seq<char>) -> BookmarkView {
        match self.reminder {
            Some(r) => self.with_reminder(r.snoozed(until)),
            None => self,
        }
    }
}

impl Reminder {
    /// Marks the reminder done at the time stamp `stamp`.
    pub fn complete(self, stamp: String) -> (done: Reminder)
        ensures
            done@ == self@.completed(stamp@),
    {
        Reminder {
            enabled: self.enabled,
            frequency: self.frequency,
            time: self.time,
            days: self.days,
            last_reminded: Some(stamp),
            next_reminder: self.next_reminder,
        }
    }

    /// Snoozes the reminder until the time stamp `until`.
    pub fn snooze(self, until: String) -> (snoozed: Reminder)
        ensures
            snoozed@ == self@.snoozed(until@),
    {
        Reminder {
            enabled: self.enabled,
            frequency: self.frequency,
            time: self.time,
            days: self.days,
            last_reminded: self.last_reminded,
            next_reminder: Some(until),
        }
    }
}

/// The time stamp that a snooze of `minutes` minutes at `now` runs to, where
/// there is one.
pub open spec fn snooze_stamp(now: Instant, minutes: i64) -> Option<Seq<char>> {
    match now.spec_plus_minutes(minutes as int) {
        Some(until) => until.spec_stamp(),
        None => None,
    }
}

/// What marking the reminder of the bookmark `id` done at `now` does to the
/// records `before`. A missing bookmark is an error. A bookmark without a
/// reminder is left alone, with success. Else the reminder's `last_reminded`
/// becomes the time stamp of `now`, and nothing else changes; where `now`
/// has no time stamp, nothing changes and that is the error.
pub open spec fn completion(before: Seq<BookmarkView>, id: i64, now: Instant, done: Result<(), Error>, after: Seq<BookmarkView>) -> bool {
    if !holds(before, id) {
        done == Err::<(), Error>(Error::NotFound) && after == before
    } else if record(before, id).reminder is None {
        done is Ok && after == before
    } else if now.spec_stamp() is None {
        done == Err::<(), Error>(Error::TimeOutOfRange) && after == before
    } else {
        done is Ok && after == put(before, id, record(before, id).completed(now.spec_stamp()->0))
    }
}

/// What snoozing the reminder of the bookmark `id` for `minutes` minutes at
/// `now` does to the records `before`. As `completion`, but the reminder's
/// `next_reminder` becomes the time stamp of `now` plus the minutes.
pub open spec fn snoozing(before: Seq<BookmarkView>, id: i64, minutes: i64, now: Instant, done: Result<(), Error>, after: Seq<BookmarkView>) -> bool {
    if !holds(before, id) {
        done == Err::<(), Error>(Error::NotFound) && after == before
    } else if record(before, id).reminder is None {
        done is Ok && after == before
    } else if snooze_stamp(now, minutes) is None {
        done == Err::<(), Error>(Error::TimeOutOfRange) && after == before
    } else {
        done is Ok && after == put(before, id, record(before, id).snoozed(snooze_stamp(now, minutes)->0))
    }
}

/// Marks the reminder of a bookmark done at `now`.
pub fn mark_reminder_completed_at(db: &mut Database, bookmark_id: i64, now: &Instant) -> (done: Result<(), Error>)
    ensures
        final(db).well_formed(),
        final(db).next_id() == old(db).next_id(),
        completion(old(db)@, bookmark_id, *now, done, final(db)@),
{
    let bookmark = match db.get_bookmark(bookmark_id) {
        Ok(b) => b,
        Err(e) => {
            return Err(e);
        },
    };
    match bookmark.reminder {
        None => Ok(()),
        Some(reminder) => match write_stamp(now) {
            None => Err(Error::TimeOutOfRange),
            Some(stamp) => match db.replace_reminder(bookmark_id, reminder.complete(stamp)) {
                Ok(_) => Ok(()),
                Err(e) => Err(e),
            },
        },
    }
}

/// Snoozes the reminder of a bookmark for `minutes` minutes from `now`.
pub fn snooze_reminder_at(db: &mut Database, bookmark_id: i64, minutes: i64, now: &Instant) -> (done: Result<(), Error>)
    ensures
        final(db).well_formed(),
        final(db).next_id() == old(db).next_id(),
        snoozing(old(db)@, bookmark_id, minutes, *now, done, final(db)@),
{
    let bookmark = match db.get_bookmark(bookmark_id) {
        Ok(b) => b,
        Err(e) => {
            return Err(e);
        },
    };
    match bookmark.reminder {
        None => Ok(()),
        Some(reminder) => {
            let until = match now.plus_minutes(minutes) {
                Some(until) => write_stamp(&until),
                None => None,
            };
            match until {
                None => Err(Error::TimeOutOfRange),
                Some(stamp) => match db.replace_reminder(bookmark_id, reminder.snooze(stamp)) {
                    Ok(_) => Ok(()),
                    Err(e) => Err(e),
                },
            }
        },
    }
}

/// Marks the reminder of a bookmark done at the reading of the UTC clock.
pub fn mark_reminder_completed(db: &mut Database, bookmark_id: i64) -> (done: Result<(), Error>)
    ensures
        final(db).well_formed(),
        final(db).next_id() == old(db).next_id(),
        done is Ok <==> holds(old(db)@, bookmark_id),
        exists|now: Instant| now.spec_stamp() is Some && #[trigger] completion(old(db)@, bookmark_id, now, done, final(db)@),
{
    let now = read_utc_clock();
    let done = mark_reminder_completed_at(db, bookmark_id, &now);
    assert(completion(old(db)@, bookmark_id, now, done, final(db)@));
    done
}

/// Snoozes the reminder of a bookmark for `minutes` minutes from the reading
/// of the UTC clock.
pub fn snooze_reminder(db: &mut Database, bookmark_id: i64, minutes: i64) -> (done: Result<(), Error>)
    ensures
        final(db).well_formed(),
        final(db).next_id() == old(db).next_id(),
        !holds(old(db)@, bookmark_id) <==> done == Err::<(), Error>(Error::NotFound),
        exists|now: Instant| now.spec_stamp() is Some && #[trigger] snoozing(old(db)@, bookmark_id, minutes, now, done, final(db)@),
{
    let now = read_utc_clock();
    let done = snooze_reminder_at(db, bookmark_id, minutes, &now);
    assert(snoozing(old(db)@, bookmark_id, minutes, now, done, final(db)@));
    done
}

/// What the user is shown for a due reminder.
#[derive(Clone, Debug, PartialEq, Eq)]
pub struct Notification {
    pub title: String,
    pub body: String,
}

/// The state of the scheduler.
#[derive(Clone, Copy, Debug, PartialEq, Eq, Structural)]
pub enum SchedulerState {
    /// Waiting for the next tick.
    Idle,
    /// Working on a tick: the candidates were asked for.
    Evaluating,
}

/// What the scheduler's host reports to it.
#[derive(Debug)]
pub enum SchedulerEvent {
    /// The period has passed.
    Tick,
    /// The store has handed out the bookmarks that carry a reminder.
    Candidates(Vec<Bookmark>),
    /// The store could not be read.
    StorageUnavailable,
    /// A notification sink has failed.
    NotificationFailed,
}

/// What the scheduler asks of its host.
#[derive(Debug)]
pub enum SchedulerAction {
    /// Nothing until the next event.
    Wait,
    /// Read the candidates from the store and report them.
    ReadCandidates,
    /// Notify for the candidates at these positions: each goes to both
    /// sinks, whatever becomes of the other sink and of the other candidates.
    Notify(Vec<usize>),
}

/// The seconds between two ticks of the scheduler.
pub const TICK_SECONDS: u64 = 60;

/// The scheduler of reminders, as the decisions that its host carries out.
#[derive(Debug)]
pub struct ReminderService {
    state: SchedulerState,
}

impl View for ReminderService {
    type V = SchedulerState;

    closed spec fn view(&self) -> SchedulerState {
        self.state
    }
}

impl ReminderService {
    /// The title of every reminder notification.
    pub open spec fn spec_title() -> Seq<char> {
        "签到提醒"@
    }

    /// The body of the notification for a bookmark with this title.
    pub open spec fn spec_body(title: Seq<char>) -> Seq<char> {
        "该去 "@ + title + " 签到了！"@
    }

    /// The name of the event that carries a due bookmark.
    pub open spec fn spec_event_name() -> Seq<char> {
        "reminder-triggered"@
    }

    /// What one step does: `Idle` turns to `Evaluating` on a tick and asks
    /// for the candidates; `Evaluating` turns to `Idle` on the candidates,
    /// with the positions of those that are due at `now`, and on a store
    /// that cannot be read, with nothing to do. Every other event, a failed
    /// notification among them, leaves the state as it is.
    pub open spec fn stepped(before: SchedulerState, event: SchedulerEvent, now: Moment, after: SchedulerState, action: SchedulerAction) -> bool {
        match (before, event) {
            (SchedulerState::Idle, SchedulerEvent::Tick) => after == SchedulerState::Evaluating && action is ReadCandidates,
            (SchedulerState::Evaluating, SchedulerEvent::Candidates(candidates)) => {
                &&& after == SchedulerState::Idle
                &&& action is Notify
                &&& picks(views_of(candidates@), now, action->Notify_0@)
            },
            (SchedulerState::Evaluating, SchedulerEvent::StorageUnavailable) => after == SchedulerState::Idle && action is Wait,
            _ => after == before && action is Wait,
        }
    }

    /// A scheduler that waits for its first tick.
    pub fn new() -> (service: ReminderService)
        ensures
            service@ == SchedulerState::Idle,
    {
        ReminderService { state: SchedulerState::Idle }
    }

    pub fn state(&self) -> (state: SchedulerState)
        ensures
            state == self@,
    {
        self.state
    }

    /// Whether the bookmark's reminder is due by the local clock.
    pub fn should_remind(bookmark: &Bookmark) -> (fires: bool)
        ensures
            exists|now: Moment| #[trigger] may_remind(bookmark@, now, fires),
    {
        let now = read_local_clock();
        let fires = should_remind_at(bookmark, &now);
        assert(may_remind(bookmark@, now, fires));
        fires
    }

    /// What the user is shown for a due bookmark.
    pub fn notification(bookmark: &Bookmark) -> (shown: Notification)
        ensures
            shown.title@ == ReminderService::spec_title(),
            shown.body@ == ReminderService::spec_body(bookmark@.title),
    {
        let mut body = "该去 ".to_owned();
        body.append(bookmark.title.as_str());
        body.append(" 签到了！");
        Notification { title: "签到提醒".to_owned(), body }
    }

    /// The name of the event that carries a due bookmark.
    pub fn event_name() -> (name: String)
        ensures
            name@ == ReminderService::spec_event_name(),
    {
        "reminder-triggered".to_owned()
    }

    /// One step of the scheduler, with the candidates judged at `now`.
    pub fn step_at(&mut self, event: &SchedulerEvent, now: &Moment) -> (action: SchedulerAction)
        ensures
            ReminderService::stepped(old(self)@, *event, *now, final(self)@, action),
    {
        match (self.state, event) {
            (SchedulerState::Idle, SchedulerEvent::Tick) => {
                self.state = SchedulerState::Evaluating;
                SchedulerAction::ReadCandidates
            },
            (SchedulerState::Evaluating, SchedulerEvent::Candidates(candidates)) => {
                self.state = SchedulerState::Idle;
                SchedulerAction::Notify(due_at(candidates, now))
            },
            (SchedulerState::Evaluating, SchedulerEvent::StorageUnavailable) => {
                self.state = SchedulerState::Idle;
                SchedulerAction::Wait
            },
            _ => SchedulerAction::Wait,
        }
    }

    /// One step of the scheduler, with the candidates judged by the local
    /// clock.
    pub fn step(&mut self, event: &SchedulerEvent) -> (action: SchedulerAction)
        ensures
            exists|now: Moment| #[trigger] ReminderService::stepped(old(self)@, *event, now, final(self)@, action),
    {
        let now = read_local_clock();
        let action = self.step_at(event, &now);
        assert(ReminderService::stepped(old(self)@, *event, now, final(self)@, action));
        action
    }
}

} // verus!
