//! The store of bookmark records.
//!
//! A `Database` keeps the records in the order in which they were created
//! and hands out copies. Every operation is one step on the whole store: a
//! caller that shares a store between tasks takes an exclusive lock for the
//! length of one call and no longer.

use crate::clock::read_utc_clock;
use crate::clock::Instant;
use crate::clock::write_stamp;
use crate::error::Error;
use crate::models::text_of;
use crate::models::texts_of;
use crate::models::views_of;
use crate::models::Bookmark;
use crate::models::BookmarkView;
use crate::models::CreateBookmarkInput;
use crate::models::CreateBookmarkInputView;
use crate::models::Reminder;
use crate::models::ReminderView;
use crate::models::UpdateBookmarkInput;
use crate::models::UpdateBookmarkInputView;
use crate::text::comes_before;
use crate::text::lemma_before_is_one_way;
use crate::text::lemma_not_before_chains;
use crate::text::text_before;
use vstd::prelude::*;

verus! {

impl BookmarkView {
    /// The record that creating from `input` at the time stamp `now` stores
    /// under `id`.
    pub open spec fn created(id: i64, input: CreateBookmarkInputView, now: Seq<char>) -> BookmarkView {
        BookmarkView {
            id: Some(id),
            title: input.title,
            url: input.url,
            category: input.category,
            tags: input.tags,
            icon_url: None,
            notes: input.notes,
            reminder: input.reminder,
            visit_count: 0,
            last_visited: None,
            created_at: now,
            updated_at: now,
        }
    }

    /// The record after an update at the time stamp `now`: title and url
    /// change only where the input gives one; category, tags, notes and
    /// reminder are replaced by what the input gives, also where that is
    /// nothing.
    pub open spec fn updated(self, input: UpdateBookmarkInputView, now: Seq<char>) -> BookmarkView {
        BookmarkView {
            title: match input.title {
                Some(t) => t,
                None => self.title,
            },
            url: match input.url {
                Some(u) => u,
                None => self.url,
            },
            category: input.category,
            tags: match input.tags {
                Some(t) => t,
                None => Seq::empty(),
            },
            notes: input.notes,
            reminder: input.reminder,
            updated_at: now,
            ..self
        }
    }

    /// The record with another reminder and nothing else changed.
    pub open spec fn with_reminder(self, reminder: ReminderView) -> BookmarkView {
        BookmarkView { reminder: Some(reminder), ..self }
    }

    /// The record after one more visit at the time stamp `now`. The count
    /// stays where it is once it has reached the largest number it can hold.
    pub open spec fn visited(self, now: Seq<char>) -> BookmarkView {
        BookmarkView {
            visit_count: if self.visit_count < i64::MAX {
                (self.visit_count + 1) as i64
            } else {
                self.visit_count
            },
            last_visited: Some(now),
            ..self
        }
    }
}

/// Whether some record has the id.
pub open spec fn holds(records: Seq<BookmarkView>, id: i64) -> bool {
    exists|i: int| 0 <= i < records.len() && (#[trigger] records[i]).id == Some(id)
}

/// The place of a record with the id, where there is one.
pub open spec fn place(records: Seq<BookmarkView>, id: i64) -> int {
    choose|i: int| 0 <= i < records.len() && (#[trigger] records[i]).id == Some(id)
}

/// The record with the id, where there is one.
pub open spec fn record(records: Seq<BookmarkView>, id: i64) -> BookmarkView {
    records[place(records, id)]
}

/// The records with `changed` in the place of the record with the id, and
/// as they are where no record has it.
pub open spec fn put(records: Seq<BookmarkView>, id: i64, changed: BookmarkView) -> Seq<BookmarkView> {
    if holds(records, id) {
        records.update(place(records, id), changed)
    } else {
        records
    }
}

/// The records without the record with the id.
pub open spec fn without(records: Seq<BookmarkView>, id: i64) -> Seq<BookmarkView> {
    if holds(records, id) {
        records.remove(place(records, id))
    } else {
        records
    }
}

/// What a store keeps of its records: each has an id from 1 up to, not
/// including, `next`, and ids rise along the sequence, so that none occurs
/// twice.
pub open spec fn well_kept(records: Seq<BookmarkView>, next: i64) -> bool {
    &&& next >= 1
    &&& forall|i: int| 0 <= i < records.len() ==> (#[trigger] records[i]).id is Some
    &&& forall|i: int| 0 <= i < records.len() ==> 1 <= (#[trigger] records[i]).id->0 < next
    &&& forall|i: int, j: int| 0 <= i < j < records.len() ==> (#[trigger] records[i]).id->0 < (#[trigger] records[j]).id->0
}

/// In a well-kept sequence the record with an id stands at one place only.
pub proof fn lemma_place_is_unique(records: Seq<BookmarkView>, next: i64, id: i64, i: int)
    requires
        well_kept(records, next),
        0 <= i < records.len(),
        records[i].id == Some(id),
    ensures
        holds(records, id),
        place(records, id) == i,
        record(records, id) == records[i],
{
    let p = place(records, id);
    assert(0 <= p < records.len() && records[p].id == Some(id));
    if p < i {
        assert(records[p].id->0 < records[i].id->0);
    } else if i < p {
        assert(records[i].id->0 < records[p].id->0);
    }
}

/// Replacing a record by one with the same id keeps a sequence well kept.
pub proof fn lemma_update_keeps(records: Seq<BookmarkView>, next: i64, i: int, changed: BookmarkView)
    requires
        well_kept(records, next),
        0 <= i < records.len(),
        changed.id == records[i].id,
    ensures
        well_kept(records.update(i, changed), next),
{
    let after = records.update(i, changed);
    assert forall|a: int, b: int| 0 <= a < b < after.len() implies (#[trigger] after[a]).id->0 < (#[trigger] after[b]).id->0 by {
        assert(records[a].id->0 < records[b].id->0);
    }
    assert forall|a: int| 0 <= a < after.len() implies (#[trigger] after[a]).id is Some && 1 <= after[a].id->0 < next by {
        assert(records[a].id is Some);
    }
}

/// Taking a record out keeps a sequence well kept.
pub proof fn lemma_remove_keeps(records: Seq<BookmarkView>, next: i64, i: int)
    requires
        well_kept(records, next),
        0 <= i < records.len(),
    ensures
        well_kept(records.remove(i), next),
        !holds(records.remove(i), records[i].id->0),
{
    let after = records.remove(i);
    assert forall|a: int| 0 <= a < after.len() implies (#[trigger] after[a]).id is Some && 1 <= after[a].id->0 < next by {
        let from = if a < i { a } else { a + 1 };
        assert(after[a] == records[from]);
    }
    assert forall|a: int, b: int| 0 <= a < b < after.len() implies (#[trigger] after[a]).id->0 < (#[trigger] after[b]).id->0 by {
        let from_a = if a < i { a } else { a + 1 };
        let from_b = if b < i { b } else { b + 1 };
        assert(after[a] == records[from_a]);
        assert(after[b] == records[from_b]);
        assert(records[from_a].id->0 < records[from_b].id->0);
    }
    assert forall|a: int| 0 <= a < after.len() implies (#[trigger] after[a]).id != records[i].id by {
        let from = if a < i { a } else { a + 1 };
        assert(after[a] == records[from]);
        if from < i {
            assert(records[from].id->0 < records[i].id->0);
        } else {
            assert(records[i].id->0 < records[from].id->0);
        }
    }
}

/// Whether no record stands before one with a later `created_at`.
pub open spec fn newest_first(records: Seq<BookmarkView>) -> bool {
    forall|i: int, j: int| 0 <= i < j < records.len() ==> !text_before((#[trigger] records[i]).created_at, (#[trigger] records[j]).created_at)
}

/// Whether `listed` is a listing of `records`: it holds every record as
/// often as `records` does, and none before one with a later `created_at`.
/// Records with one `created_at` may stand either way round.
pub open spec fn lists(records: Seq<BookmarkView>, listed: Seq<BookmarkView>) -> bool {
    &&& listed.to_multiset() == records.to_multiset()
    &&& newest_first(listed)
}

/// The records that a listing is made of: all, or those with a reminder.
pub open spec fn selected(records: Seq<BookmarkView>, with_reminder: bool) -> Seq<BookmarkView> {
    if with_reminder {
        records.filter(has_reminder())
    } else {
        records
    }
}

/// A sequence with one more element, wherever it went in, holds what it
/// held and the element.
pub proof fn lemma_insert_to_multiset(records: Seq<BookmarkView>, at: int, added: BookmarkView)
    requires
        0 <= at <= records.len(),
    ensures
        records.insert(at, added).to_multiset() == records.to_multiset().insert(added),
{
    let after = records.insert(at, added);
    assert(after.remove(at) =~= records);
    assert(after[at] == added);
    vstd::seq_lib::to_multiset_remove(after, at);
    after.to_multiset_ensures();
    assert(after.contains(added));
    assert(after.to_multiset() =~= records.to_multiset().insert(added));
}

/// A listing stays one when a record goes in behind all later ones and
/// before one that is not later.
pub proof fn lemma_insert_keeps_newest_first(listed: Seq<BookmarkView>, at: int, added: BookmarkView)
    requires
        newest_first(listed),
        0 <= at <= listed.len(),
        forall|k: int| 0 <= k < at ==> text_before(added.created_at, (#[trigger] listed[k]).created_at),
        at < listed.len() ==> !text_before(added.created_at, listed[at].created_at),
    ensures
        newest_first(listed.insert(at, added)),
{
    let after = listed.insert(at, added);
    assert forall|i: int, j: int| 0 <= i < j < after.len() implies !text_before((#[trigger] after[i]).created_at, (#[trigger] after[j]).created_at) by {
        if j == at {
            assert(after[i] == listed[i]);
            lemma_before_is_one_way(added.created_at, listed[i].created_at);
        } else if i == at {
            assert(after[j] == listed[j - 1]);
            if j - 1 > at {
                assert(!text_before(listed[at].created_at, listed[j - 1].created_at));
                lemma_not_before_chains(added.created_at, listed[at].created_at, listed[j - 1].created_at);
            }
        } else {
            let from_i = if i < at { i } else { i - 1 };
            let from_j = if j < at { j } else { j - 1 };
            assert(after[i] == listed[from_i]);
            assert(after[j] == listed[from_j]);
            assert(!text_before(listed[from_i].created_at, listed[from_j].created_at));
        }
    }
}

/// The test for a record that carries a reminder, enabled or not.
pub open spec fn has_reminder() -> spec_fn(BookmarkView) -> bool {
    |r: BookmarkView| r.reminder is Some
}

/// The id that follows the last of the records: 1 where there is none.
pub open spec fn next_after(records: Seq<BookmarkView>) -> int {
    if records.len() == 0 {
        1
    } else {
        records.last().id->0 + 1
    }
}

/// Whether a store can be set up from the records and the largest id that
/// was ever given out: the records are well kept, and both the last id and
/// the largest leave room for one more.
pub open spec fn restorable(records: Seq<BookmarkView>, largest: i64) -> bool {
    &&& largest < i64::MAX
    &&& next_after(records) <= i64::MAX
    &&& well_kept(records, next_after(records) as i64)
}

/// The id that follows the records and the largest id that was ever given
/// out.
pub open spec fn next_beyond(records: Seq<BookmarkView>, largest: i64) -> int {
    if largest + 1 > next_after(records) {
        largest + 1
    } else {
        next_after(records)
    }
}

/// What creating from `input` does to the records `before` of a store whose
/// next id is `next`, where the clock reads `at`. A store without ids left
/// is unavailable and stays as it is. Else the record is stored under
/// `next` with the time stamp of `at`; where `at` has none, nothing changes
/// and that is the error.
pub open spec fn creating(
    before: Seq<BookmarkView>,
    next: i64,
    input: CreateBookmarkInputView,
    at: Instant,
    created: Result<Bookmark, Error>,
    after: Seq<BookmarkView>,
) -> bool {
    if next == i64::MAX {
        created matches Err(e) && e == Error::StorageUnavailable && after == before
    } else if at.spec_stamp() is None {
        created matches Err(e) && e == Error::TimeOutOfRange && after == before
    } else {
        created matches Ok(b) && b@ == BookmarkView::created(next, input, at.spec_stamp()->0) && after == before.push(b@)
    }
}

/// What an update does to the records `before`, where the clock reads `at`.
/// A missing record is an error. Else the record changes as the input says,
/// with the time stamp of `at`; where `at` has none, nothing changes and
/// that is the error.
pub open spec fn updating(
    before: Seq<BookmarkView>,
    input: UpdateBookmarkInputView,
    at: Instant,
    updated: Result<Bookmark, Error>,
    after: Seq<BookmarkView>,
) -> bool {
    if !holds(before, input.id) {
        updated matches Err(e) && e == Error::NotFound && after == before
    } else if at.spec_stamp() is None {
        updated matches Err(e) && e == Error::TimeOutOfRange && after == before
    } else {
        updated matches Ok(b) && b@ == record(before, input.id).updated(input, at.spec_stamp()->0) && after == put(
            before,
            input.id,
            b@,
        )
    }
}

/// What counting a visit does to the records `before`, where the clock
/// reads `at`. As `updating`, with one more visit at the time stamp of `at`.
pub open spec fn visiting(before: Seq<BookmarkView>, id: i64, at: Instant, counted: Result<(), Error>, after: Seq<BookmarkView>) -> bool {
    if !holds(before, id) {
        counted matches Err(e) && e == Error::NotFound && after == before
    } else if at.spec_stamp() is None {
        counted matches Err(e) && e == Error::TimeOutOfRange && after == before
    } else {
        counted is Ok && after == put(before, id, record(before, id).visited(at.spec_stamp()->0))
    }
}

/// What `serde_json::from_str` makes of a text that is to hold a JSON array
/// of strings: the strings, or `None` where it rejects the text.
pub uninterp spec fn tags_reading(json: Seq<char>) -> Option<Seq<Seq<char>>>;

/// What `serde_json::to_string` writes for a list of strings, or `None`
/// where it fails.
pub uninterp spec fn tags_writing(tags: Seq<Seq<char>>) -> Option<Seq<char>>;

/// What the reminder column of a row held.
#[derive(Debug)]
pub enum StoredReminder {
    /// Nothing.
    Absent,
    /// A payload that does not read as a reminder.
    Malformed,
    Present(Reminder),
}

/// A row as it is kept outside the store: the tags still as JSON text, the
/// reminder column already read.
#[derive(Debug)]
pub struct StoredRow {
    pub id: i64,
    pub title: String,
    pub url: String,
    pub category: Option<String>,
    /// A JSON array of strings.
    pub tags: String,
    pub icon_url: Option<String>,
    pub notes: Option<String>,
    pub reminder: StoredReminder,
    /// `None` where the column holds no integer.
    pub visit_count: Option<i64>,
    pub last_visited: Option<String>,
    pub created_at: String,
    pub updated_at: String,
}

impl StoredRow {
    /// The record that the row stands for, given what its tags read as. What
    /// does not read degrades: tags to none, a malformed reminder to no
    /// reminder, a missing count to 0.
    pub open spec fn bookmark_with(self, tags: Option<Seq<Seq<char>>>) -> BookmarkView {
        BookmarkView {
            id: Some(self.id),
            title: self.title@,
            url: self.url@,
            category: text_of(self.category),
            tags: match tags {
                Some(tags) => tags,
                None => Seq::empty(),
            },
            icon_url: text_of(self.icon_url),
            notes: text_of(self.notes),
            reminder: match self.reminder {
                StoredReminder::Present(r) => Some(r@),
                _ => None,
            },
            visit_count: match self.visit_count {
                Some(n) => n,
                None => 0,
            },
            last_visited: text_of(self.last_visited),
            created_at: self.created_at@,
            updated_at: self.updated_at@,
        }
    }

    /// The record that the row stands for.
    pub open spec fn bookmark(self) -> BookmarkView {
        self.bookmark_with(tags_reading(self.tags@))
    }

    /// Makes the record of the row and of what its tags read as.
    pub fn into_bookmark(self, tags: Option<Vec<String>>) -> (bookmark: Bookmark)
        ensures
            bookmark@ == self.bookmark_with(
                match tags {
                    Some(t) => Some(texts_of(t)),
                    None => None,
                },
            ),
    {
        let kept = match tags {
            Some(read) => read,
            None => Vec::new(),
        };
        assert(tags is None ==> texts_of(kept) =~= Seq::<Seq<char>>::empty());
        let reminder = match self.reminder {
            StoredReminder::Present(r) => Some(r),
            _ => None,
        };
        let visit_count = match self.visit_count {
            Some(n) => n,
            None => 0,
        };
        let bookmark = Bookmark {
            id: Some(self.id),
            title: self.title,
            url: self.url,
            category: self.category,
            tags: kept,
            icon_url: self.icon_url,
            notes: self.notes,
            reminder,
            visit_count,
            last_visited: self.last_visited,
            created_at: self.created_at,
            updated_at: self.updated_at,
        };
        bookmark
    }
}

/// `serde_json::from_str` at the type `Vec<String>`. The contract claims
/// only that the outcome is a function of the text: `tags_reading`.
#[verifier::external_body]
fn decode_tags(json: &str) -> (tags: Option<Vec<String>>)
    ensures
        tags is Some <==> tags_reading(json@) is Some,
        tags matches Some(t) ==> tags_reading(json@) == Some(texts_of(t)),
{
    match serde_json::from_str::<Vec<String>>(json) {
        Ok(tags) => Some(tags),
        Err(_) => None,
    }
}

/// `serde_json::to_string` on a list of strings. The contract claims only
/// that the outcome is a function of the strings: `tags_writing`.
#[verifier::external_body]
fn encode_tags(tags: &Vec<String>) -> (json: Option<String>)
    ensures
        json is Some <==> tags_writing(texts_of(*tags)) is Some,
        json matches Some(j) ==> tags_writing(texts_of(*tags)) == Some(j@),
{
    match serde_json::to_string(tags) {
        Ok(json) => Some(json),
        Err(_) => None,
    }
}

/// The tags as the JSON text that a row keeps.
pub fn tags_to_json(tags: &Vec<String>) -> (json: Result<String, Error>)
    ensures
        json is Ok <==> tags_writing(texts_of(*tags)) is Some,
        json matches Ok(j) ==> tags_writing(texts_of(*tags)) == Some(j@),
        json matches Err(e) ==> e == Error::MalformedField,
{
    match encode_tags(tags) {
        Some(json) => Ok(json),
        None => Err(Error::MalformedField),
    }
}

/// The store of bookmark records.
pub struct Database {
    rows: Vec<Bookmark>,
    next_id: i64,
}

impl View for Database {
    type V = Seq<BookmarkView>;

    /// The records, oldest first.
    closed spec fn view(&self) -> Seq<BookmarkView> {
        views_of(self.rows@)
    }
}

impl Database {
    #[verifier::type_invariant]
    spec fn kept(self) -> bool {
        well_kept(views_of(self.rows@), self.next_id)
    }

    /// The id that the next record gets.
    pub closed spec fn next_id(&self) -> i64 {
        self.next_id
    }

    /// What every store keeps of its records.
    pub open spec fn well_formed(&self) -> bool {
        well_kept(self@, self.next_id())
    }

    /// Takes the rows out to work on them.
    fn take_rows(&mut self) -> (rows: Vec<Bookmark>)
        ensures
            rows@ == old(self).rows@,
            final(self).rows@.len() == 0,
            final(self).next_id == old(self).next_id,
            well_kept(views_of(rows@), old(self).next_id),
    {
        proof {
            use_type_invariant(&*self);
        }
        let mut rows: Vec<Bookmark> = Vec::new();
        assert(views_of(rows@) =~= Seq::<BookmarkView>::empty());
        std::mem::swap(&mut self.rows, &mut rows);
        rows
    }

    /// Puts rows back that are well kept.
    fn put_rows(&mut self, rows: Vec<Bookmark>, next_id: i64)
        requires
            old(self).rows@.len() == 0,
            well_kept(views_of(rows@), next_id),
        ensures
            final(self).rows@ == rows@,
            final(self).next_id == next_id,
    {
        let mut rows = rows;
        assert(views_of(self.rows@) =~= Seq::<BookmarkView>::empty());
        self.next_id = next_id;
        std::mem::swap(&mut self.rows, &mut rows);
    }

    /// An empty store.
    pub fn new() -> (db: Database)
        ensures
            db.well_formed(),
            db@ == Seq::<BookmarkView>::empty(),
            db.next_id() == 1,
    {
        let db = Database { rows: Vec::new(), next_id: 1 };
        assert(db@ =~= Seq::<BookmarkView>::empty());
        db
    }

    /// Where the record with the id stands.
    fn position(&self, id: i64) -> (at: Option<usize>)
        ensures
            self.well_formed(),
            at is Some <==> holds(self@, id),
            at matches Some(i) ==> i < self.rows@.len() && place(self@, id) == i && self.rows@[i as int]@ == record(self@, id),
    {
        proof {
            use_type_invariant(self);
        }
        let mut i: usize = 0;
        while i < self.rows.len()
            invariant
                i <= self.rows.len(),
                self.well_formed(),
                forall|k: int| 0 <= k < i ==> (#[trigger] self@[k]).id != Some(id),
            decreases self.rows.len() - i,
        {
            if self.rows[i].id == Some(id) {
                proof {
                    assert(self@[i as int] == self.rows@[i as int]@);
                    lemma_place_is_unique(self@, self.next_id(), id, i as int);
                }
                return Some(i);
            }
            assert(self@[i as int] == self.rows@[i as int]@);
            i = i + 1;
        }
        None
    }

    /// Does nothing when it runs. To a caller's proof it gives what every
    /// store keeps of its records.
    pub fn kept_well(&self)
        ensures
            self.well_formed(),
    {
        proof {
            use_type_invariant(self);
        }
    }

    /// The number of records.
    pub fn len(&self) -> (n: usize)
        ensures
            n == self@.len(),
    {
        self.rows.len()
    }

    /// Reads one record.
    pub fn get_bookmark(&self, id: i64) -> (found: Result<Bookmark, Error>)
        ensures
            self.well_formed(),
            found is Ok <==> holds(self@, id),
            found matches Ok(b) ==> b@ == record(self@, id),
            found matches Err(e) ==> e == Error::NotFound,
    {
        match self.position(id) {
            Some(i) => Ok(self.rows[i].duplicate()),
            None => Err(Error::NotFound),
        }
    }

    /// Stores a new record and returns its id. The store is full, and stays
    /// as it is, once the ids are used up.
    pub fn insert_bookmark_at(&mut self, input: CreateBookmarkInput, now: String) -> (stored: Result<i64, Error>)
        ensures
            final(self).well_formed(),
            stored is Ok <==> old(self).next_id() < i64::MAX,
            stored matches Ok(id) ==> {
                &&& id == old(self).next_id()
                &&& final(self).next_id() == id + 1
                &&& final(self)@ == old(self)@.push(BookmarkView::created(id, input@, now@))
            },
            stored matches Err(e) ==> e == Error::StorageUnavailable && final(self)@ == old(self)@ && final(self).next_id() == old(self).next_id(),
    {
        proof {
            use_type_invariant(&*self);
        }
        if self.next_id == i64::MAX {
            return Err(Error::StorageUnavailable);
        }
        let id = self.next_id;
        let mut rows = self.take_rows();
        let row = Bookmark {
            id: Some(id),
            title: input.title,
            url: input.url,
            category: input.category,
            tags: input.tags,
            icon_url: None,
            notes: input.notes,
            reminder: input.reminder,
            visit_count: 0,
            last_visited: None,
            created_at: now.clone(),
            updated_at: now,
        };
        assert(row@ == BookmarkView::created(id, input@, now@));
        rows.push(row);
        proof {
            let after = views_of(rows@);
            assert(after =~= old(self)@.push(BookmarkView::created(id, input@, now@)));
            assert forall|a: int, b: int| 0 <= a < b < after.len() implies (#[trigger] after[a]).id->0 < (#[trigger] after[b]).id->0 by {
                if b < old(self)@.len() {
                    assert(old(self)@[a].id->0 < old(self)@[b].id->0);
                } else {
                    assert(1 <= old(self)@[a].id->0 < id);
                }
            }
            assert forall|a: int| 0 <= a < after.len() implies (#[trigger] after[a]).id is Some && 1 <= after[a].id->0 < id + 1 by {
                if a < old(self)@.len() {
                    assert(old(self)@[a].id is Some);
                }
            }
        }
        self.put_rows(rows, id + 1);
        Ok(id)
    }

    /// Creates a record: stores it, then reads it back, in one step. A
    /// caller that shares the store, and lets its lock go between the two,
    /// calls `insert_bookmark_at` and `get_bookmark` in turn: another writer
    /// may then come between them, but cannot reach the new id before it is
    /// handed out.
    pub fn create_bookmark_at(&mut self, input: CreateBookmarkInput, now: String) -> (created: Result<Bookmark, Error>)
        ensures
            final(self).well_formed(),
            created is Ok <==> old(self).next_id() < i64::MAX,
            created matches Ok(b) ==> {
                &&& b@ == BookmarkView::created(old(self).next_id(), input@, now@)
                &&& final(self).next_id() == old(self).next_id() + 1
                &&& final(self)@ == old(self)@.push(b@)
            },
            created matches Err(e) ==> e == Error::StorageUnavailable && final(self)@ == old(self)@ && final(self).next_id() == old(self).next_id(),
    {
        let ghost made = BookmarkView::created(self.next_id(), input@, now@);
        match self.insert_bookmark_at(input, now) {
            Ok(id) => {
                proof {
                    let last = self@.len() - 1;
                    assert(self@[last] == made);
                    lemma_place_is_unique(self@, self.next_id(), id, last);
                }
                self.get_bookmark(id)
            },
            Err(e) => Err(e),
        }
    }

    /// A listing of all records, or of those with a reminder.
    fn listing(&self, with_reminder: bool) -> (listed: Vec<Bookmark>)
        ensures
            lists(selected(self@, with_reminder), views_of(listed@)),
    {
        let mut listed: Vec<Bookmark> = Vec::new();
        let ghost records = self@;
        let mut i: usize = 0;
        proof {
            assert(records.take(0) =~= Seq::<BookmarkView>::empty());
            reveal(Seq::filter);
            assert(views_of(listed@) =~= selected(records.take(0), with_reminder));
        }
        while i < self.rows.len()
            invariant
                i <= self.rows.len(),
                records == views_of(self.rows@),
                views_of(listed@).to_multiset() == selected(records.take(i as int), with_reminder).to_multiset(),
                newest_first(views_of(listed@)),
            decreases self.rows.len() - i,
        {
            let ghost seen = records.take(i as int);
            let ghost row = self.rows@[i as int]@;
            proof {
                assert(records.take(i + 1) =~= seen.push(row));
                seen.lemma_filter_push(row, has_reminder());
                vstd::seq_lib::to_multiset_build(selected(seen, with_reminder), row);
            }
            if !with_reminder || self.rows[i].reminder.is_some() {
                let ghost before = views_of(listed@);
                let mut at: usize = 0;
                while at < listed.len() && comes_before(self.rows[i].created_at.as_str(), listed[at].created_at.as_str())
                    invariant
                        at <= listed.len(),
                        i < self.rows.len(),
                        row == self.rows@[i as int]@,
                        before == views_of(listed@),
                        forall|k: int| 0 <= k < at ==> text_before(row.created_at, (#[trigger] before[k]).created_at),
                    decreases listed.len() - at,
                {
                    assert(before[at as int] == listed@[at as int]@);
                    at = at + 1;
                }
                proof {
                    if at < listed.len() {
                        assert(before[at as int] == listed@[at as int]@);
                    }
                }
                listed.insert(at, self.rows[i].duplicate());
                proof {
                    assert(views_of(listed@) =~= before.insert(at as int, row));
                    lemma_insert_to_multiset(before, at as int, row);
                    lemma_insert_keeps_newest_first(before, at as int, row);
                }
            }
            i = i + 1;
        }
        assert(records.take(self.rows.len() as int) =~= records);
        listed
    }

    /// Reads all records, newest first by `created_at`.
    pub fn get_all_bookmarks(&self) -> (all: Vec<Bookmark>)
        ensures
            lists(self@, views_of(all@)),
    {
        self.listing(false)
    }

    /// Reads the records that carry a reminder, enabled or not, newest first
    /// by `created_at`.
    pub fn get_bookmarks_with_reminders(&self) -> (candidates: Vec<Bookmark>)
        ensures
            lists(self@.filter(has_reminder()), views_of(candidates@)),
    {
        self.listing(true)
    }

    /// Changes a record as the input says and returns it as it then stands.
    pub fn update_bookmark_at(&mut self, input: UpdateBookmarkInput, now: String) -> (updated: Result<Bookmark, Error>)
        ensures
            final(self).well_formed(),
            final(self).next_id() == old(self).next_id(),
            final(self)@ == put(old(self)@, input.id, record(old(self)@, input.id).updated(input@, now@)),
            updated is Ok <==> holds(old(self)@, input.id),
            updated matches Ok(b) ==> b@ == record(old(self)@, input.id).updated(input@, now@),
            updated matches Err(e) ==> e == Error::NotFound,
    {
        match self.position(input.id) {
            None => Err(Error::NotFound),
            Some(i) => {
                let mut rows = self.take_rows();
                let row = rows.remove(i);
                let changed = Bookmark {
                    id: row.id,
                    title: match input.title {
                        Some(t) => t,
                        None => row.title,
                    },
                    url: match input.url {
                        Some(u) => u,
                        None => row.url,
                    },
                    category: input.category,
                    tags: match input.tags {
                        Some(t) => t,
                        None => Vec::new(),
                    },
                    icon_url: row.icon_url,
                    notes: input.notes,
                    reminder: input.reminder,
                    visit_count: row.visit_count,
                    last_visited: row.last_visited,
                    created_at: row.created_at,
                    updated_at: now,
                };
                assert(changed@.tags =~= row@.updated(input@, now@).tags);
                assert(changed@ == row@.updated(input@, now@));
                let copy = changed.duplicate();
                rows.insert(i, changed);
                proof {
                    assert(views_of(rows@) =~= old(self)@.update(i as int, copy@));
                    lemma_update_keeps(old(self)@, old(self).next_id(), i as int, copy@);
                }
                self.put_rows(rows, self.next_id);
                Ok(copy)
            },
        }
    }

    /// Replaces the reminder of a record, and nothing else of it.
    pub fn replace_reminder(&mut self, id: i64, reminder: Reminder) -> (replaced: Result<Bookmark, Error>)
        ensures
            final(self).well_formed(),
            final(self).next_id() == old(self).next_id(),
            final(self)@ == put(old(self)@, id, record(old(self)@, id).with_reminder(reminder@)),
            replaced is Ok <==> holds(old(self)@, id),
            replaced matches Ok(b) ==> b@ == record(old(self)@, id).with_reminder(reminder@),
            replaced matches Err(e) ==> e == Error::NotFound,
    {
        match self.position(id) {
            None => Err(Error::NotFound),
            Some(i) => {
                let mut rows = self.take_rows();
                let row = rows.remove(i);
                let changed = Bookmark {
                    id: row.id,
                    title: row.title,
                    url: row.url,
                    category: row.category,
                    tags: row.tags,
                    icon_url: row.icon_url,
                    notes: row.notes,
                    reminder: Some(reminder),
                    visit_count: row.visit_count,
                    last_visited: row.last_visited,
                    created_at: row.created_at,
                    updated_at: row.updated_at,
                };
                assert(changed@ == row@.with_reminder(reminder@));
                let copy = changed.duplicate();
                rows.insert(i, changed);
                proof {
                    assert(views_of(rows@) =~= old(self)@.update(i as int, copy@));
                    lemma_update_keeps(old(self)@, old(self).next_id(), i as int, copy@);
                }
                self.put_rows(rows, self.next_id);
                Ok(copy)
            },
        }
    }

    /// Counts one more visit to a record.
    pub fn record_visit_at(&mut self, id: i64, now: String) -> (counted: Result<(), Error>)
        ensures
            final(self).well_formed(),
            final(self).next_id() == old(self).next_id(),
            final(self)@ == put(old(self)@, id, record(old(self)@, id).visited(now@)),
            counted is Ok <==> holds(old(self)@, id),
            counted matches Err(e) ==> e == Error::NotFound,
    {
        match self.position(id) {
            None => Err(Error::NotFound),
            Some(i) => {
                let mut rows = self.take_rows();
                let row = rows.remove(i);
                let changed = Bookmark {
                    id: row.id,
                    title: row.title,
                    url: row.url,
                    category: row.category,
                    tags: row.tags,
                    icon_url: row.icon_url,
                    notes: row.notes,
                    reminder: row.reminder,
                    visit_count: if row.visit_count < i64::MAX {
                        row.visit_count + 1
                    } else {
                        row.visit_count
                    },
                    last_visited: Some(now),
                    created_at: row.created_at,
                    updated_at: row.updated_at,
                };
                assert(changed@ == row@.visited(now@));
                let ghost after = changed@;
                rows.insert(i, changed);
                proof {
                    assert(views_of(rows@) =~= old(self)@.update(i as int, after));
                    lemma_update_keeps(old(self)@, old(self).next_id(), i as int, after);
                }
                self.put_rows(rows, self.next_id);
                Ok(())
            },
        }
    }

    /// Takes a record out of the store. Its id is not given out again.
    pub fn delete_bookmark(&mut self, id: i64) -> (deleted: Result<(), Error>)
        ensures
            final(self).well_formed(),
            final(self).next_id() == old(self).next_id(),
            final(self)@ == without(old(self)@, id),
            !holds(final(self)@, id),
            deleted is Ok <==> holds(old(self)@, id),
            deleted matches Err(e) ==> e == Error::NotFound,
    {
        match self.position(id) {
            None => Err(Error::NotFound),
            Some(i) => {
                let mut rows = self.take_rows();
                let _ = rows.remove(i);
                proof {
                    assert(views_of(rows@) =~= old(self)@.remove(i as int));
                    lemma_remove_keeps(old(self)@, old(self).next_id(), i as int);
                }
                self.put_rows(rows, self.next_id);
                Ok(())
            },
        }
    }

    /// Sets a store up from records that were kept elsewhere, oldest first,
    /// and from the largest id that was ever given out, 0 where none was. No
    /// id up to the largest is given out again.
    pub fn restore(rows: Vec<Bookmark>, largest: i64) -> (restored: Result<Database, Error>)
        ensures
            restored is Ok <==> restorable(views_of(rows@), largest),
            restored matches Ok(db) ==> {
                &&& db.well_formed()
                &&& db@ == views_of(rows@)
                &&& db.next_id() == next_beyond(views_of(rows@), largest)
            },
            restored matches Err(e) ==> e == Error::MalformedField,
    {
        if largest == i64::MAX {
            return Err(Error::MalformedField);
        }
        let ghost records = views_of(rows@);
        let mut last: i64 = 0;
        let mut i: usize = 0;
        while i < rows.len()
            invariant
                i <= rows.len(),
                records == views_of(rows@),
                0 <= last < i64::MAX,
                i == 0 ==> last == 0,
                i > 0 ==> records[i - 1].id == Some(last),
                well_kept(records.take(i as int), (last + 1) as i64),
            decreases rows.len() - i,
        {
            let ghost seen = records.take(i as int);
            assert(records[i as int] == rows@[i as int]@);
            match rows[i].id {
                None => {
                    assert(!restorable(records, largest));
                    return Err(Error::MalformedField);
                },
                Some(id) => {
                    if id <= last || id == i64::MAX {
                        proof {
                            if restorable(records, largest) {
                                let end = records.len() - 1;
                                if id == i64::MAX {
                                    if i < end {
                                        assert(records[i as int].id->0 < records[end].id->0);
                                    }
                                } else if i > 0 {
                                    assert(records[i - 1].id->0 < records[i as int].id->0);
                                }
                            }
                        }
                        return Err(Error::MalformedField);
                    }
                    proof {
                        let more = records.take(i + 1);
                        assert forall|a: int| 0 <= a < more.len() implies (#[trigger] more[a]).id is Some && 1 <= more[a].id->0 < id + 1 by {
                            if a < i {
                                assert(more[a] == seen[a]);
                            }
                        }
                        assert forall|a: int, b: int| 0 <= a < b < more.len() implies (#[trigger] more[a]).id->0 < (#[trigger] more[b]).id->0 by {
                            assert(more[a] == seen[a]);
                            if b < i {
                                assert(more[b] == seen[b]);
                            }
                        }
                    }
                    last = id;
                },
            }
            i = i + 1;
        }
        assert(records.take(rows.len() as int) =~= records);
        let next: i64 = if largest > last {
            largest + 1
        } else {
            last + 1
        };
        proof {
            assert forall|a: int| 0 <= a < records.len() implies 1 <= (#[trigger] records[a]).id->0 < next by {
                assert(1 <= records[a].id->0 < last + 1);
            }
        }
        let db = Database { rows, next_id: next };
        assert(db@ == records);
        Ok(db)
    }

    /// Reads a row that was kept outside the store.
    pub fn row_to_bookmark(row: StoredRow) -> (bookmark: Bookmark)
        ensures
            bookmark@ == row.bookmark(),
    {
        let tags = decode_tags(row.tags.as_str());
        row.into_bookmark(tags)
    }

    /// Creates a record with the time stamp of the UTC clock.
    pub fn create_bookmark(&mut self, input: CreateBookmarkInput) -> (created: Result<Bookmark, Error>)
        ensures
            final(self).well_formed(),
            created is Ok <==> old(self).next_id() < i64::MAX,
            created is Ok ==> final(self).next_id() == old(self).next_id() + 1,
            created is Err ==> final(self).next_id() == old(self).next_id(),
            exists|at: Instant| at.spec_stamp() is Some && #[trigger] creating(old(self)@, old(self).next_id(), input@, at, created, final(self)@),
    {
        self.kept_well();
        let at = read_utc_clock();
        let created = if self.next_id == i64::MAX {
            Err(Error::StorageUnavailable)
        } else {
            match write_stamp(&at) {
                None => Err(Error::TimeOutOfRange),
                Some(now) => self.create_bookmark_at(input, now),
            }
        };
        assert(creating(old(self)@, old(self).next_id(), input@, at, created, final(self)@));
        created
    }

    /// Changes a record with the time stamp of the UTC clock.
    pub fn update_bookmark(&mut self, input: UpdateBookmarkInput) -> (updated: Result<Bookmark, Error>)
        ensures
            final(self).well_formed(),
            final(self).next_id() == old(self).next_id(),
            updated is Ok <==> holds(old(self)@, input.id),
            exists|at: Instant| at.spec_stamp() is Some && #[trigger] updating(old(self)@, input@, at, updated, final(self)@),
    {
        let at = read_utc_clock();
        let updated = if self.position(input.id).is_none() {
            Err(Error::NotFound)
        } else {
            match write_stamp(&at) {
                None => Err(Error::TimeOutOfRange),
                Some(now) => self.update_bookmark_at(input, now),
            }
        };
        assert(updating(old(self)@, input@, at, updated, final(self)@));
        updated
    }

    /// Counts one more visit with the time stamp of the UTC clock.
    pub fn record_visit(&mut self, id: i64) -> (counted: Result<(), Error>)
        ensures
            final(self).well_formed(),
            final(self).next_id() == old(self).next_id(),
            counted is Ok <==> holds(old(self)@, id),
            exists|at: Instant| at.spec_stamp() is Some && #[trigger] visiting(old(self)@, id, at, counted, final(self)@),
    {
        let at = read_utc_clock();
        let counted = if self.position(id).is_none() {
            Err(Error::NotFound)
        } else {
            match write_stamp(&at) {
                None => Err(Error::TimeOutOfRange),
                Some(now) => self.record_visit_at(id, now),
            }
        };
        assert(visiting(old(self)@, id, at, counted, final(self)@));
        counted
    }
}

} // verus!
