//! What holds of the due-evaluation rule, of the two mutators and of writes
//! to the store, for all inputs.

use crate::clock::rfc3339_reading;
use crate::clock::ClockTime;
use crate::clock::Instant;
use crate::clock::Moment;
use crate::clock::NANOS_PER_SECOND;
use crate::database::holds;
use crate::database::lemma_place_is_unique;
use crate::database::lemma_update_keeps;
use crate::database::place;
use crate::database::put;
use crate::database::record;
use crate::database::well_kept;
use crate::error::Error;
use crate::models::BookmarkView;
use crate::models::ReminderView;
use crate::models::UpdateBookmarkInputView;
use crate::reminder::completion;
use crate::reminder::fired_today;
use crate::reminder::in_window;
use crate::reminder::judged;
use crate::reminder::may_remind;
use crate::reminder::snooze_stamp;
use crate::reminder::snoozing;
use crate::reminder::verdict;
use crate::reminder::LastReminded;
use vstd::prelude::*;

verus! {

/// A reminder that is not enabled is never due, whatever its other fields
/// hold.
pub proof fn law_disabled_is_inert(now: Moment, reminder: ReminderView, last_day: i32)
    requires
        !reminder.enabled,
    ensures
        !verdict(now, reminder, last_day),
{
}

/// A reminder whose time of day does not read as one is never due.
pub proof fn law_unreadable_time_is_never_due(now: Moment, reminder: ReminderView, last_day: i32)
    requires
        ClockTime::spec_parse(reminder.time) is None,
    ensures
        !verdict(now, reminder, last_day),
{
}

/// Whether a reminder is due does not depend on its `next_reminder`.
pub proof fn law_next_reminder_is_not_read(now: Moment, reminder: ReminderView, other: Option<Seq<char>>, last_day: i32)
    ensures
        verdict(now, (ReminderView { next_reminder: other, ..reminder }), last_day) == verdict(now, reminder, last_day),
{
}

/// An enabled daily reminder that has not fired on the day of `now` is due
/// exactly while `now` lies in the grace window of its time of day.
pub proof fn law_daily_fires_in_window(now: Moment, reminder: ReminderView, last_day: i32)
    requires
        reminder.enabled,
        reminder.frequency is Daily,
        !fired_today(now, LastReminded::on_day(reminder.last_reminded, last_day)),
    ensures
        verdict(now, reminder, last_day) <==> (ClockTime::spec_parse(reminder.time) is Some && in_window(
            now,
            ClockTime::spec_parse(reminder.time)->0,
        )),
{
}

/// An enabled daily reminder that has not fired on the day of `now` is due
/// when `now` shows the reminder's own hour and minute.
pub proof fn law_daily_due_on_time(now: Moment, reminder: ReminderView, last_day: i32)
    requires
        reminder.enabled,
        reminder.frequency is Daily,
        !fired_today(now, LastReminded::on_day(reminder.last_reminded, last_day)),
        ClockTime::spec_parse(reminder.time) is Some,
        ClockTime::spec_parse(reminder.time)->0.seconds() <= now.secs_of_day < ClockTime::spec_parse(reminder.time)->0.seconds() + 60,
        now.frac < NANOS_PER_SECOND,
    ensures
        verdict(now, reminder, last_day),
{
}

/// No reminder is due before its time of day, nor later than a minute after
/// it: two minutes after it, for one.
pub proof fn law_not_due_outside_window(now: Moment, reminder: ReminderView, last_day: i32)
    requires
        ClockTime::spec_parse(reminder.time) matches Some(at) ==> now.secs_of_day < at.seconds() || now.secs_of_day > at.seconds() + 60,
    ensures
        !verdict(now, reminder, last_day),
{
}

/// A weekly reminder without days is never due.
pub proof fn law_weekly_without_days_never_due(now: Moment, reminder: ReminderView, last_day: i32)
    requires
        reminder.frequency is Weekly,
        reminder.days.len() == 0,
    ensures
        !verdict(now, reminder, last_day),
{
}

/// An enabled reminder with an interval, in its grace window and not fired
/// on the day of `now`, is due exactly when as many whole days as the
/// interval have passed since it last fired.
pub proof fn law_interval_counts_whole_days(now: Moment, reminder: ReminderView, last_day: i32)
    requires
        reminder.enabled,
        reminder.frequency is Custom,
        ClockTime::spec_parse(reminder.time) is Some,
        in_window(now, ClockTime::spec_parse(reminder.time)->0),
        LastReminded::on_day(reminder.last_reminded, last_day) is At,
        last_day != now.day,
    ensures
        verdict(now, reminder, last_day) <==> LastReminded::on_day(reminder.last_reminded, last_day)->instant.whole_days_until(
            now.instant,
        ) >= reminder.frequency->interval_days,
{
}

/// An enabled one-time reminder that was never marked done is due in its
/// grace window.
pub proof fn law_once_fires_first(now: Moment, reminder: ReminderView, last_day: i32)
    requires
        reminder.enabled,
        reminder.frequency is Once,
        reminder.last_reminded is None,
        ClockTime::spec_parse(reminder.time) is Some,
        in_window(now, ClockTime::spec_parse(reminder.time)->0),
    ensures
        verdict(now, reminder, last_day),
{
}

/// A one-time reminder that was marked done is never due again.
pub proof fn law_once_never_after_completion(now: Moment, reminder: ReminderView, stamp: Seq<char>, last_day: i32)
    requires
        reminder.frequency is Once,
    ensures
        !verdict(now, reminder.completed(stamp), last_day),
{
}

/// A reminder that last fired on some calendar date is not due at any two
/// moments of that date, whatever its frequency.
pub proof fn law_same_day_suppression(first: Moment, second: Moment, reminder: ReminderView, last_day: i32)
    requires
        reminder.last_reminded is Some,
        rfc3339_reading(reminder.last_reminded->0) is Some,
        first.day == last_day,
        second.day == last_day,
    ensures
        !verdict(first, reminder, last_day),
        !verdict(second, reminder, last_day),
{
}

/// Snoozing sets `next_reminder`, leaves `last_reminded` alone, and does not
/// change whether the reminder is due.
pub proof fn law_snooze_leaves_verdict(now: Moment, reminder: ReminderView, until: Seq<char>, last_day: i32)
    ensures
        reminder.snoozed(until).next_reminder == Some(until),
        reminder.snoozed(until).last_reminded == reminder.last_reminded,
        verdict(now, reminder.snoozed(until), last_day) == verdict(now, reminder, last_day),
{
}

/// After a snooze that succeeded on a bookmark with a reminder, the store
/// holds the bookmark with the new `next_reminder` and the old
/// `last_reminded`, and every other record as it was.
pub proof fn law_snooze_persists(
    before: Seq<BookmarkView>,
    next: i64,
    id: i64,
    minutes: i64,
    now: Instant,
    done: Result<(), Error>,
    after: Seq<BookmarkView>,
)
    requires
        well_kept(before, next),
        snoozing(before, id, minutes, now, done, after),
        done is Ok,
        record(before, id).reminder is Some,
    ensures
        well_kept(after, next),
        holds(after, id),
        record(after, id).reminder is Some,
        record(after, id).reminder->0.next_reminder == snooze_stamp(now, minutes),
        record(after, id).reminder->0.last_reminded == record(before, id).reminder->0.last_reminded,
        record(after, id) == record(before, id).snoozed(snooze_stamp(now, minutes)->0),
        after.len() == before.len(),
        forall|i: int| 0 <= i < before.len() && i != place(before, id) ==> after[i] == before[i],
{
    let at = place(before, id);
    let changed = record(before, id).snoozed(snooze_stamp(now, minutes)->0);
    lemma_update_keeps(before, next, at, changed);
    lemma_place_is_unique(after, next, id, at);
}

/// After a completion that succeeded on a bookmark with a reminder, the
/// store holds the bookmark with the new `last_reminded`, every other field
/// of it and every other record as it was.
pub proof fn law_completion_persists(
    before: Seq<BookmarkView>,
    next: i64,
    id: i64,
    now: Instant,
    done: Result<(), Error>,
    after: Seq<BookmarkView>,
)
    requires
        well_kept(before, next),
        completion(before, id, now, done, after),
        done is Ok,
        record(before, id).reminder is Some,
    ensures
        well_kept(after, next),
        holds(after, id),
        record(after, id) == record(before, id).completed(now.spec_stamp()->0),
        record(after, id).reminder->0.last_reminded == now.spec_stamp(),
        after.len() == before.len(),
        forall|i: int| 0 <= i < before.len() && i != place(before, id) ==> after[i] == before[i],
{
    let at = place(before, id);
    let changed = record(before, id).completed(now.spec_stamp()->0);
    lemma_update_keeps(before, next, at, changed);
    lemma_place_is_unique(after, next, id, at);
}

/// Of a write of a reminder and a full update that meet on one record, the
/// later one decides the record's reminder: it is what the update gave where
/// the update came last, and the written reminder where that came last,
/// whatever the other write had stored.
pub proof fn law_last_writer_wins(
    records: Seq<BookmarkView>,
    next: i64,
    id: i64,
    written: ReminderView,
    input: UpdateBookmarkInputView,
    now: Seq<char>,
)
    requires
        well_kept(records, next),
        holds(records, id),
        input.id == id,
    ensures
        ({
            let first = put(records, id, record(records, id).with_reminder(written));
            let second = put(first, id, record(first, id).updated(input, now));
            holds(second, id) && record(second, id).reminder == input.reminder
        }),
        ({
            let first = put(records, id, record(records, id).updated(input, now));
            let second = put(first, id, record(first, id).with_reminder(written));
            holds(second, id) && record(second, id).reminder == Some(written)
        }),
{
    let at = place(records, id);
    {
        let first = put(records, id, record(records, id).with_reminder(written));
        lemma_update_keeps(records, next, at, record(records, id).with_reminder(written));
        lemma_place_is_unique(first, next, id, at);
        let second = put(first, id, record(first, id).updated(input, now));
        lemma_update_keeps(first, next, at, record(first, id).updated(input, now));
        lemma_place_is_unique(second, next, id, at);
    }
    {
        let first = put(records, id, record(records, id).updated(input, now));
        lemma_update_keeps(records, next, at, record(records, id).updated(input, now));
        lemma_place_is_unique(first, next, id, at);
        let second = put(first, id, record(first, id).with_reminder(written));
        lemma_update_keeps(first, next, at, record(first, id).with_reminder(written));
        lemma_place_is_unique(second, next, id, at);
    }
}

/// No answer for a bookmark is that it fires before the time of day of its
/// reminder, nor later than a minute after it: two minutes after it, for
/// one.
pub proof fn law_no_answer_outside_window(bookmark: BookmarkView, now: Moment, fires: bool)
    requires
        may_remind(bookmark, now, fires),
        bookmark.reminder matches Some(r) ==> (ClockTime::spec_parse(r.time) matches Some(at) ==> now.secs_of_day < at.seconds()
            || now.secs_of_day > at.seconds() + 60),
    ensures
        !fires,
{
}

/// The answer for a bookmark with an enabled daily reminder that was never
/// marked done is that it fires, at every moment in its grace window.
pub proof fn law_answer_daily_in_window(bookmark: BookmarkView, now: Moment, fires: bool)
    requires
        may_remind(bookmark, now, fires),
        bookmark.reminder is Some,
        bookmark.reminder->0.enabled,
        bookmark.reminder->0.frequency is Daily,
        bookmark.reminder->0.last_reminded is None,
        ClockTime::spec_parse(bookmark.reminder->0.time) is Some,
        in_window(now, ClockTime::spec_parse(bookmark.reminder->0.time)->0),
    ensures
        fires,
{
}

/// No answer for a bookmark with a weekly reminder without days is that it
/// fires.
pub proof fn law_no_answer_weekly_without_days(bookmark: BookmarkView, now: Moment, fires: bool)
    requires
        may_remind(bookmark, now, fires),
        bookmark.reminder is Some,
        bookmark.reminder->0.frequency is Weekly,
        bookmark.reminder->0.days.len() == 0,
    ensures
        !fires,
{
}

/// No answer for a bookmark whose one-time reminder was marked done is that
/// it fires, at any moment.
pub proof fn law_no_answer_once_after_completion(bookmark: BookmarkView, stamp: Seq<char>, now: Moment, fires: bool)
    requires
        bookmark.reminder is Some,
        bookmark.reminder->0.frequency is Once,
        may_remind(bookmark.completed(stamp), now, fires),
    ensures
        !fires,
{
}

/// Where the `last_reminded` field of a bookmark reads, on the machine that
/// judges it, as a moment of the calendar date of `now`, the answer is that
/// it does not fire, whatever the frequency; and so at every moment of that
/// date.
pub proof fn law_answer_same_day(bookmark: BookmarkView, first: Moment, second: Moment, fires: bool, again: bool, last: LastReminded)
    requires
        judged(bookmark, first, fires, last),
        judged(bookmark, second, again, last),
        last is At,
        last->day == first.day,
        second.day == first.day,
    ensures
        !fires,
        !again,
{
}

/// Two bookmarks that differ in the `next_reminder` of their reminders alone
/// have the same answers at every moment, and the same answer wherever
/// their `last_reminded` fields read alike.
pub proof fn law_answers_ignore_next_reminder(bookmark: BookmarkView, other: Option<Seq<char>>, now: Moment, fires: bool, last: LastReminded)
    requires
        bookmark.reminder is Some,
    ensures
        may_remind(bookmark, now, fires) <==> may_remind(
            bookmark.with_reminder((ReminderView { next_reminder: other, ..bookmark.reminder->0 })),
            now,
            fires,
        ),
        judged(bookmark, now, fires, last) <==> judged(
            bookmark.with_reminder((ReminderView { next_reminder: other, ..bookmark.reminder->0 })),
            now,
            fires,
            last,
        ),
{
    let changed = ReminderView { next_reminder: other, ..bookmark.reminder->0 };
    let twin = bookmark.with_reminder(changed);
    assert forall|day: i32| verdict(now, changed, day) == verdict(now, bookmark.reminder->0, day) by {}
    if may_remind(bookmark, now, fires) {
        let day = choose|day: i32| fires == #[trigger] verdict(now, bookmark.reminder->0, day);
        assert(fires == verdict(now, changed, day));
    }
    if may_remind(twin, now, fires) {
        let day = choose|day: i32| fires == #[trigger] verdict(now, changed, day);
        assert(fires == verdict(now, bookmark.reminder->0, day));
    }
    if judged(bookmark, now, fires, last) {
        let day = choose|day: i32| last == #[trigger] LastReminded::on_day(bookmark.reminder->0.last_reminded, day);
        assert(last == LastReminded::on_day(changed.last_reminded, day));
    }
    if judged(twin, now, fires, last) {
        let day = choose|day: i32| last == #[trigger] LastReminded::on_day(changed.last_reminded, day);
        assert(last == LastReminded::on_day(bookmark.reminder->0.last_reminded, day));
    }
}

} // verus!
