//! Bookmarks out of an HTML bookmark file, as browsers export them.
//!
//! The document is taken apart by the scraper crate. What is made of the
//! parts, which links count and which folder they go to, is decided here.

use crate::clock::Instant;
use crate::database::Database;
use crate::models::copy_text;
use crate::models::text_of;
use crate::models::texts_of;
use crate::models::BookmarkView;
use crate::models::CreateBookmarkInput;
use crate::models::CreateBookmarkInputView;
use vstd::prelude::*;

verus! {

/// A bookmark as it was found in a document.
#[derive(Debug, Clone)]
pub struct ImportedBookmark {
    pub title: String,
    pub url: String,
    pub folder: Option<String>,
}

/// An `a` element of a document: its `href` attribute, if it has one, and
/// the text inside it.
#[derive(Debug)]
pub struct RawLink {
    pub href: Option<String>,
    pub text: String,
}

/// A `dl` element of a document: the texts of the `h3` elements inside it
/// and the `a` elements inside it, at any depth.
#[derive(Debug)]
pub struct RawFolder {
    pub headings: Vec<String>,
    pub links: Vec<RawLink>,
}

pub struct ImportedBookmarkView {
    pub title: Seq<char>,
    pub url: Seq<char>,
    pub folder: Option<Seq<char>>,
}

pub struct RawLinkView {
    pub href: Option<Seq<char>>,
    pub text: Seq<char>,
}

pub struct RawFolderView {
    pub headings: Seq<Seq<char>>,
    pub links: Seq<RawLinkView>,
}

impl View for ImportedBookmark {
    type V = ImportedBookmarkView;

    open spec fn view(&self) -> ImportedBookmarkView {
        ImportedBookmarkView {
            title: self.title@,
            url: self.url@,
            folder: match self.folder {
                Some(f) => Some(f@),
                None => None,
            },
        }
    }
}

impl View for RawLink {
    type V = RawLinkView;

    open spec fn view(&self) -> RawLinkView {
        RawLinkView {
            href: match self.href {
                Some(h) => Some(h@),
                None => None,
            },
            text: self.text@,
        }
    }
}

impl View for RawFolder {
    type V = RawFolderView;

    open spec fn view(&self) -> RawFolderView {
        RawFolderView { headings: texts_of(self.headings), links: link_views(self.links@) }
    }
}

pub open spec fn link_views(links: Seq<RawLink>) -> Seq<RawLinkView> {
    Seq::new(links.len(), |i: int| links[i]@)
}

pub open spec fn folder_views(folders: Seq<RawFolder>) -> Seq<RawFolderView> {
    Seq::new(folders.len(), |i: int| folders[i]@)
}

pub open spec fn imported_views(found: Seq<ImportedBookmark>) -> Seq<ImportedBookmarkView> {
    Seq::new(found.len(), |i: int| found[i]@)
}

/// What scraper makes of a document: the elements that `select` finds with
/// the selector `dl`, and those that it finds with the selector `a`, each in
/// the order in which `select` hands them out.
pub uninterp spec fn document_parts(html: Seq<char>) -> (Seq<RawFolderView>, Seq<RawLinkView>);

/// What `str::trim` leaves of a text.
pub uninterp spec fn trimmed(text: Seq<char>) -> Seq<char>;

/// Whether an address begins with the letters `http`.
pub open spec fn is_web_address(url: Seq<char>) -> bool {
    url.len() >= 4 && url[0] == 'h' && url[1] == 't' && url[2] == 't' && url[3] == 'p'
}

/// The bookmark that an address and a title give in a folder, if they give
/// one: the address must be there and not be empty, the title must not be
/// empty; where only web addresses count, the address must be one.
pub open spec fn entry_with(href: Option<Seq<char>>, title: Seq<char>, folder: Option<Seq<char>>, web_only: bool) -> Option<ImportedBookmarkView> {
    match href {
        Some(url) => if url.len() > 0 && title.len() > 0 && (web_only ==> is_web_address(url)) {
            Some((ImportedBookmarkView { title, url, folder }))
        } else {
            None
        },
        None => None,
    }
}

/// The bookmark that a link gives in a folder, if it gives one: its title is
/// the text of the link, trimmed.
pub open spec fn entry(link: RawLinkView, folder: Option<Seq<char>>, web_only: bool) -> Option<ImportedBookmarkView> {
    entry_with(link.href, trimmed(link.text), folder, web_only)
}

/// The bookmarks that the links give in a folder, in the order of the links.
pub open spec fn gathered(links: Seq<RawLinkView>, folder: Option<Seq<char>>, web_only: bool) -> Seq<ImportedBookmarkView>
    decreases links.len(),
{
    if links.len() == 0 {
        Seq::empty()
    } else {
        let before = gathered(links.drop_last(), folder, web_only);
        match entry(links.last(), folder, web_only) {
            Some(found) => before.push(found),
            None => before,
        }
    }
}

/// The folder that the links of the last of the `dl` elements go to: the
/// first heading, trimmed, of the last element that has one; none before
/// the first such element.
pub open spec fn folder_at_end(folders: Seq<RawFolderView>) -> Option<Seq<char>>
    decreases folders.len(),
{
    if folders.len() == 0 {
        None
    } else if folders.last().headings.len() > 0 {
        Some(trimmed(folders.last().headings[0]))
    } else {
        folder_at_end(folders.drop_last())
    }
}

/// The bookmarks of all `dl` elements, element by element.
pub open spec fn foldered(folders: Seq<RawFolderView>) -> Seq<ImportedBookmarkView>
    decreases folders.len(),
{
    if folders.len() == 0 {
        Seq::empty()
    } else {
        foldered(folders.drop_last()) + gathered(folders.last().links, folder_at_end(folders), false)
    }
}

/// The bookmarks of a document: those of its `dl` elements; where they give
/// none, every link of the document with a web address, in no folder.
pub open spec fn imported(folders: Seq<RawFolderView>, links: Seq<RawLinkView>) -> Seq<ImportedBookmarkView> {
    if foldered(folders).len() == 0 {
        gathered(links, None, true)
    } else {
        foldered(folders)
    }
}

/// scraper's `Html::parse_document`, then `select` on the document with the
/// selectors `dl` and `a`. Of each `dl` element: the texts of the `h3`
/// elements and the `a` elements that `select` finds inside it. Of each `a`
/// element: the `href` attribute and the text.
/// The contract claims only that the outcome is a function of the document:
/// `document_parts`.
#[verifier::external_body]
fn scrape(html: &str) -> (parts: (Vec<RawFolder>, Vec<RawLink>))
    ensures
        (folder_views(parts.0@), link_views(parts.1@)) == document_parts(html@),
{
    let dl = scraper::Selector::parse("dl").unwrap();
    let h3 = scraper::Selector::parse("h3").unwrap();
    let a = scraper::Selector::parse("a").unwrap();
    let link = |l: scraper::ElementRef| RawLink { href: l.value().attr("href").map(String::from), text: l.text().collect() };
    let document = scraper::Html::parse_document(html);
    let folders = document.select(&dl).map(|list| RawFolder {
        headings: list.select(&h3).map(|h| h.text().collect()).collect(),
        links: list.select(&a).map(link).collect(),
    }).collect();
    (folders, document.select(&a).map(link).collect())
}

/// `str::trim`. The contract claims only that the outcome is a function of
/// the text: `trimmed`.
#[verifier::external_body]
fn trim_text(text: &str) -> (kept: String)
    ensures
        kept@ == trimmed(text@),
{
    text.trim().to_string()
}

/// Whether an address begins with the letters `http`.
pub fn web_address(url: &str) -> (web: bool)
    ensures
        web == is_web_address(url@),
{
    if url.unicode_len() < 4 {
        return false;
    }
    url.get_char(0) == 'h' && url.get_char(1) == 't' && url.get_char(2) == 't' && url.get_char(3) == 'p'
}

/// The bookmark that an address and a title give in a folder, if they give
/// one.
pub fn entry_of(href: &Option<String>, title: String, folder: &Option<String>, web_only: bool) -> (found: Option<ImportedBookmark>)
    ensures
        found is Some <==> entry_with(text_of(*href), title@, text_of(*folder), web_only) is Some,
        found matches Some(b) ==> Some(b@) == entry_with(text_of(*href), title@, text_of(*folder), web_only),
{
    match href {
        None => None,
        Some(url) => {
            if url.as_str().unicode_len() > 0 && title.as_str().unicode_len() > 0 && (!web_only || web_address(url.as_str())) {
                Some(ImportedBookmark { title, url: url.clone(), folder: copy_text(folder) })
            } else {
                None
            }
        },
    }
}

/// The bookmark that a link gives in a folder, if it gives one.
pub fn link_entry(link: &RawLink, folder: &Option<String>, web_only: bool) -> (found: Option<ImportedBookmark>)
    ensures
        found is Some <==> entry(link@, text_of(*folder), web_only) is Some,
        found matches Some(b) ==> Some(b@) == entry(link@, text_of(*folder), web_only),
{
    entry_of(&link.href, trim_text(link.text.as_str()), folder, web_only)
}

/// Adds to `found` the bookmarks that the links give in a folder.
fn gather(found: &mut Vec<ImportedBookmark>, links: &Vec<RawLink>, folder: &Option<String>, web_only: bool)
    ensures
        imported_views(final(found)@) == imported_views(old(found)@) + gathered(link_views(links@), text_of(*folder), web_only),
{
    let ghost start = imported_views(found@);
    let ghost all = link_views(links@);
    let ghost into = text_of(*folder);
    let mut i: usize = 0;
    assert(all.take(0) =~= Seq::<RawLinkView>::empty());
    assert(imported_views(found@) =~= start + gathered(all.take(0), into, web_only));
    while i < links.len()
        invariant
            i <= links.len(),
            all == link_views(links@),
            into == text_of(*folder),
            imported_views(found@) == start + gathered(all.take(i as int), into, web_only),
        decreases links.len() - i,
    {
        let ghost before = imported_views(found@);
        proof {
            assert(all.take(i + 1).drop_last() =~= all.take(i as int));
            assert(all.take(i + 1).last() == links@[i as int]@);
        }
        match link_entry(&links[i], folder, web_only) {
            Some(bookmark) => {
                found.push(bookmark);
                assert(imported_views(found@) =~= before.push(bookmark@));
                assert(imported_views(found@) =~= start + gathered(all.take(i + 1), into, web_only));
            },
            None => {},
        }
        i = i + 1;
    }
    assert(all.take(links.len() as int) =~= all);
}

/// The bookmarks that the parts of a document give.
pub fn collect_bookmarks(folders: &Vec<RawFolder>, links: &Vec<RawLink>) -> (found: Vec<ImportedBookmark>)
    ensures
        imported_views(found@) == imported(folder_views(folders@), link_views(links@)),
{
    let mut found: Vec<ImportedBookmark> = Vec::new();
    let mut folder: Option<String> = None;
    let ghost all = folder_views(folders@);
    let mut i: usize = 0;
    assert(all.take(0) =~= Seq::<RawFolderView>::empty());
    assert(imported_views(found@) =~= foldered(all.take(0)));
    while i < folders.len()
        invariant
            i <= folders.len(),
            all == folder_views(folders@),
            text_of(folder) == folder_at_end(all.take(i as int)),
            imported_views(found@) == foldered(all.take(i as int)),
        decreases folders.len() - i,
    {
        proof {
            assert(all.take(i + 1).drop_last() =~= all.take(i as int));
            assert(all.take(i + 1).last() == folders@[i as int]@);
        }
        if folders[i].headings.len() > 0 {
            folder = Some(trim_text(folders[i].headings[0].as_str()));
        }
        gather(&mut found, &folders[i].links, &folder, false);
        i = i + 1;
    }
    assert(all.take(folders.len() as int) =~= all);
    if found.len() == 0 {
        let ghost none = imported_views(found@);
        gather(&mut found, links, &None, true);
        assert(none =~= Seq::<ImportedBookmarkView>::empty());
        assert(imported_views(found@) =~= gathered(link_views(links@), None, true));
    }
    found
}

/// The bookmarks of an HTML bookmark file, given as its text.
pub fn parse_html_bookmarks(html: &str) -> (found: Vec<ImportedBookmark>)
    ensures
        imported_views(found@) == imported(document_parts(html@).0, document_parts(html@).1),
{
    let parts = scrape(html);
    collect_bookmarks(&parts.0, &parts.1)
}

/// What is stored for an imported bookmark: its folder as the category, no
/// tags, no notes, no reminder.
pub open spec fn input_of(item: ImportedBookmarkView) -> CreateBookmarkInputView {
    CreateBookmarkInputView {
        title: item.title,
        url: item.url,
        category: item.folder,
        tags: Seq::empty(),
        notes: None,
        reminder: None,
    }
}

/// How many of `wanted` new records a store takes whose next id is `next`.
pub open spec fn room_for(next: i64, wanted: int) -> int {
    if wanted <= i64::MAX - next {
        wanted
    } else {
        i64::MAX - next
    }
}

/// Whether the record is what creating from the imported bookmark stores
/// under `id` where the clock reads `at`.
pub open spec fn stored_at(stored: BookmarkView, id: i64, item: ImportedBookmarkView, at: Instant) -> bool {
    at.spec_stamp() is Some && stored == BookmarkView::created(id, input_of(item), at.spec_stamp()->0)
}

/// Whether the `k`th record behind the first `start` of `after` is what
/// creating from the `k`th imported bookmark stores under the `k`th id from
/// `first`, at some reading of the clock.
pub open spec fn imported_at(after: Seq<BookmarkView>, start: int, first: i64, found: Seq<ImportedBookmarkView>, k: int) -> bool {
    exists|at: Instant| #[trigger] stored_at(after[start + k], (first + k) as i64, found[k], at)
}

fn input_for(item: &ImportedBookmark) -> (input: CreateBookmarkInput)
    ensures
        input@ == input_of(item@),
{
    let input = CreateBookmarkInput {
        title: item.title.clone(),
        url: item.url.clone(),
        category: copy_text(&item.folder),
        tags: Vec::new(),
        notes: None,
        reminder: None,
    };
    assert(input@.tags =~= Seq::<Seq<char>>::empty());
    input
}

/// Stores the imported bookmarks, each with the time stamp `now`, and
/// returns how many were stored: all of them, as far as the store has ids
/// left.
pub fn import_bookmarks_at(db: &mut Database, found: &Vec<ImportedBookmark>, now: &str) -> (count: usize)
    ensures
        final(db).well_formed(),
        count == room_for(old(db).next_id(), found@.len() as int),
        final(db).next_id() == old(db).next_id() + count,
        final(db)@ == old(db)@ + Seq::new(
            count as nat,
            |k: int| BookmarkView::created((old(db).next_id() + k) as i64, input_of(found@[k]@), now@),
        ),
{
    db.kept_well();
    let ghost first = db.next_id();
    let ghost start = db@;
    let mut count: usize = 0;
    let mut i: usize = 0;
    assert(db@ =~= start + Seq::new(0, |k: int| BookmarkView::created((first + k) as i64, input_of(found@[k]@), now@)));
    while i < found.len()
        invariant
            i <= found.len(),
            db.well_formed(),
            count == room_for(first, i as int),
            db.next_id() == first + count,
            db@ == start + Seq::new(count as nat, |k: int| BookmarkView::created((first + k) as i64, input_of(found@[k]@), now@)),
        decreases found.len() - i,
    {
        let ghost before = db@;
        match db.create_bookmark_at(input_for(&found[i]), now.to_owned()) {
            Ok(_) => {
                assert(count == i);
                count = count + 1;
                assert(db@ =~= start + Seq::new(
                    count as nat,
                    |k: int| BookmarkView::created((first + k) as i64, input_of(found@[k]@), now@),
                ));
            },
            Err(_) => {},
        }
        i = i + 1;
    }
    count
}

/// Stores the imported bookmarks, each with the time stamp of the UTC clock
/// at its turn, and returns how many were stored: all of them, as far as
/// the store has ids left.
pub fn import_bookmarks(db: &mut Database, found: &Vec<ImportedBookmark>) -> (count: usize)
    ensures
        final(db).well_formed(),
        count == room_for(old(db).next_id(), found@.len() as int),
        final(db).next_id() == old(db).next_id() + count,
        final(db)@.len() == old(db)@.len() + count,
        final(db)@.take(old(db)@.len() as int) == old(db)@,
        forall|k: int| 0 <= k < count ==> #[trigger] imported_at(final(db)@, old(db)@.len() as int, old(db).next_id(), imported_views(found@), k),
{
    db.kept_well();
    let ghost first = db.next_id();
    let ghost start = db@;
    let ghost items = imported_views(found@);
    let mut count: usize = 0;
    let mut i: usize = 0;
    assert(db@.take(start.len() as int) =~= start);
    while i < found.len()
        invariant
            i <= found.len(),
            items == imported_views(found@),
            db.well_formed(),
            count == room_for(first, i as int),
            db.next_id() == first + count,
            db@.len() == start.len() + count,
            db@.take(start.len() as int) == start,
            forall|k: int| 0 <= k < count ==> #[trigger] imported_at(db@, start.len() as int, first, items, k),
        decreases found.len() - i,
    {
        let ghost before = db@;
        let ghost id = db.next_id();
        match db.create_bookmark(input_for(&found[i])) {
            Ok(stored) => {
                proof {
                    assert(count == i);
                    let at = choose|at: Instant| at.spec_stamp() is Some && #[trigger] crate::database::creating(before, id, input_of(found@[i as int]@), at, Ok::<crate::models::Bookmark, crate::error::Error>(stored), db@);
                    assert(db@ == before.push(stored@));
                    assert(db@.take(start.len() as int) =~= before.take(start.len() as int));
                    assert(items[i as int] == found@[i as int]@);
                    assert(stored_at(db@[start.len() + i], (first + i) as i64, items[i as int], at));
                    assert forall|k: int| 0 <= k < count + 1 implies #[trigger] imported_at(db@, start.len() as int, first, items, k) by {
                        if k < count {
                            assert(imported_at(before, start.len() as int, first, items, k));
                            let was = choose|was: Instant| #[trigger] stored_at(before[start.len() + k], (first + k) as i64, items[k], was);
                            assert(db@[start.len() + k] == before[start.len() + k]);
                            assert(stored_at(db@[start.len() + k], (first + k) as i64, items[k], was));
                        }
                    }
                }
                count = count + 1;
            },
            Err(_) => {},
        }
        i = i + 1;
    }
    count
}

} // verus!
