//! The bookmarks as an HTML bookmark file, as browsers read them: one
//! folder for each category, in the order in which the categories first
//! occur, and one for the bookmarks without a category.

use crate::database::lists;
use crate::database::Database;
use crate::models::text_of;
use crate::models::texts_of;
use crate::models::views_of;
use crate::models::Bookmark;
use crate::models::BookmarkView;
use vstd::prelude::*;
use vstd::string::StringExecFns;

verus! {

/// How every file begins.
pub const HEADER: &'static str = "<!DOCTYPE NETSCAPE-Bookmark-file-1>\n<!-- This is an automatically generated file.\n     It will be read and overwritten.\n     DO NOT EDIT! -->\n<META HTTP-EQUIV=\"Content-Type\" CONTENT=\"text/html; charset=UTF-8\">\n<TITLE>Bookmarks</TITLE>\n<H1>Bookmarks</H1>\n<DL><p>\n";

/// How every file ends.
pub const FOOTER: &'static str = "</DL><p>\n";

/// The heading of the folder for bookmarks without a category.
pub const LOOSE: &'static str = "未分类";

/// The tags with a comma between each two.
pub open spec fn joined(tags: Seq<Seq<char>>) -> Seq<char>
    decreases tags.len(),
{
    if tags.len() == 0 {
        Seq::empty()
    } else if tags.len() == 1 {
        tags[0]
    } else {
        joined(tags.drop_last()) + ","@ + tags.last()
    }
}

/// The `TAGS` attribute of a link: nothing where there are no tags.
pub open spec fn tags_attribute(tags: Seq<Seq<char>>) -> Seq<char> {
    if tags.len() == 0 {
        Seq::empty()
    } else {
        " TAGS=\""@ + joined(tags) + "\""@
    }
}

/// The line of one bookmark.
pub open spec fn link_line(bookmark: BookmarkView) -> Seq<char> {
    "        <DT><A HREF=\""@ + bookmark.url + "\""@ + tags_attribute(bookmark.tags) + ">"@ + bookmark.title + "</A>\n"@
}

/// The lines of the bookmarks of one category, in their order.
pub open spec fn lines_of(records: Seq<BookmarkView>, category: Option<Seq<char>>) -> Seq<char>
    decreases records.len(),
{
    if records.len() == 0 {
        Seq::empty()
    } else if records.last().category == category {
        lines_of(records.drop_last(), category) + link_line(records.last())
    } else {
        lines_of(records.drop_last(), category)
    }
}

/// A folder with its heading and the lines of its bookmarks.
pub open spec fn folder_block(records: Seq<BookmarkView>, heading: Seq<char>, category: Option<Seq<char>>) -> Seq<char> {
    "    <DT><H3>"@ + heading + "</H3>\n"@ + "    <DL><p>\n"@ + lines_of(records, category) + "    </DL><p>\n"@
}

/// Whether the bookmark at `i` is the first of a category.
pub open spec fn opens_folder(records: Seq<BookmarkView>, i: int) -> bool {
    &&& records[i].category is Some
    &&& forall|j: int| 0 <= j < i ==> (#[trigger] records[j]).category != records[i].category
}

/// The folders of the categories that first occur before `upto`.
pub open spec fn folder_blocks(records: Seq<BookmarkView>, upto: int) -> Seq<char>
    decreases upto,
{
    if upto <= 0 {
        Seq::empty()
    } else if opens_folder(records, upto - 1) {
        folder_blocks(records, upto - 1) + folder_block(records, records[upto - 1].category->0, records[upto - 1].category)
    } else {
        folder_blocks(records, upto - 1)
    }
}

/// Whether some bookmark has no category.
pub open spec fn has_loose(records: Seq<BookmarkView>) -> bool {
    exists|i: int| 0 <= i < records.len() && (#[trigger] records[i]).category is None
}

/// The folder of the bookmarks without a category: nothing where all have
/// one.
pub open spec fn loose_block(records: Seq<BookmarkView>) -> Seq<char> {
    if has_loose(records) {
        folder_block(records, LOOSE@, None)
    } else {
        Seq::empty()
    }
}

/// The whole file.
pub open spec fn exported(records: Seq<BookmarkView>) -> Seq<char> {
    HEADER@ + folder_blocks(records, records.len() as int) + loose_block(records) + FOOTER@
}

/// Whether two optional texts are the same.
pub fn same_text(a: &Option<String>, b: &Option<String>) -> (same: bool)
    ensures
        same == (text_of(*a) == text_of(*b)),
{
    match (a, b) {
        (Some(x), Some(y)) => *x == *y,
        (None, None) => true,
        _ => false,
    }
}

fn push_tags(out: &mut String, tags: &Vec<String>)
    ensures
        final(out)@ == old(out)@ + tags_attribute(texts_of(*tags)),
{
    let ghost all = texts_of(*tags);
    if tags.len() == 0 {
        assert(out@ =~= old(out)@ + tags_attribute(all));
        return ;
    }
    out.append(" TAGS=\"");
    out.append(tags[0].as_str());
    let mut i: usize = 1;
    assert(all.take(1) =~= seq![all[0]]);
    assert(out@ =~= old(out)@ + " TAGS=\""@ + joined(all.take(1)));
    while i < tags.len()
        invariant
            1 <= i <= tags.len(),
            all == texts_of(*tags),
            out@ == old(out)@ + " TAGS=\""@ + joined(all.take(i as int)),
        decreases tags.len() - i,
    {
        let ghost before = out@;
        out.append(",");
        out.append(tags[i].as_str());
        proof {
            assert(all.take(i + 1).drop_last() =~= all.take(i as int));
            assert(all.take(i + 1).last() == tags@[i as int]@);
            assert(out@ =~= old(out)@ + " TAGS=\""@ + joined(all.take(i + 1)));
        }
        i = i + 1;
    }
    assert(all.take(tags.len() as int) =~= all);
    out.append("\"");
    assert(out@ =~= old(out)@ + tags_attribute(all));
}

fn push_link(out: &mut String, bookmark: &Bookmark)
    ensures
        final(out)@ == old(out)@ + link_line(bookmark@),
{
    out.append("        <DT><A HREF=\"");
    out.append(bookmark.url.as_str());
    out.append("\"");
    push_tags(out, &bookmark.tags);
    out.append(">");
    out.append(bookmark.title.as_str());
    out.append("</A>\n");
    assert(out@ =~= old(out)@ + link_line(bookmark@));
}

fn push_folder(out: &mut String, bookmarks: &Vec<Bookmark>, heading: &str, category: &Option<String>)
    ensures
        final(out)@ == old(out)@ + folder_block(views_of(bookmarks@), heading@, text_of(*category)),
{
    let ghost all = views_of(bookmarks@);
    let ghost of = text_of(*category);
    out.append("    <DT><H3>");
    out.append(heading);
    out.append("</H3>\n");
    out.append("    <DL><p>\n");
    let ghost start = out@;
    let mut i: usize = 0;
    assert(all.take(0) =~= Seq::<BookmarkView>::empty());
    assert(out@ =~= start + lines_of(all.take(0), of));
    while i < bookmarks.len()
        invariant
            i <= bookmarks.len(),
            all == views_of(bookmarks@),
            of == text_of(*category),
            out@ == start + lines_of(all.take(i as int), of),
        decreases bookmarks.len() - i,
    {
        proof {
            assert(all.take(i + 1).drop_last() =~= all.take(i as int));
            assert(all.take(i + 1).last() == bookmarks@[i as int]@);
        }
        if same_text(&bookmarks[i].category, category) {
            push_link(out, &bookmarks[i]);
            assert(out@ =~= start + lines_of(all.take(i + 1), of));
        }
        i = i + 1;
    }
    assert(all.take(bookmarks.len() as int) =~= all);
    out.append("    </DL><p>\n");
    assert(out@ =~= old(out)@ + folder_block(all, heading@, of));
}

/// Whether the bookmark at `i` is the first of a category.
fn opens(bookmarks: &Vec<Bookmark>, i: usize) -> (first: bool)
    requires
        i < bookmarks.len(),
    ensures
        first == opens_folder(views_of(bookmarks@), i as int),
{
    let ghost all = views_of(bookmarks@);
    if bookmarks[i].category.is_none() {
        return false;
    }
    let mut j: usize = 0;
    while j < i
        invariant
            j <= i < bookmarks.len(),
            all == views_of(bookmarks@),
            forall|k: int| 0 <= k < j ==> (#[trigger] all[k]).category != all[i as int].category,
        decreases i - j,
    {
        if same_text(&bookmarks[j].category, &bookmarks[i].category) {
            assert(all[j as int].category == all[i as int].category);
            return false;
        }
        j = j + 1;
    }
    true
}

/// Whether some bookmark has no category.
fn any_loose(bookmarks: &Vec<Bookmark>) -> (any: bool)
    ensures
        any == has_loose(views_of(bookmarks@)),
{
    let ghost all = views_of(bookmarks@);
    let mut i: usize = 0;
    while i < bookmarks.len()
        invariant
            i <= bookmarks.len(),
            all == views_of(bookmarks@),
            forall|k: int| 0 <= k < i ==> (#[trigger] all[k]).category is Some,
        decreases bookmarks.len() - i,
    {
        if bookmarks[i].category.is_none() {
            assert(all[i as int].category is None);
            return true;
        }
        assert(all[i as int].category is Some);
        i = i + 1;
    }
    false
}

/// The bookmarks as an HTML bookmark file.
pub fn export_html(bookmarks: &Vec<Bookmark>) -> (html: String)
    ensures
        html@ == exported(views_of(bookmarks@)),
{
    let ghost all = views_of(bookmarks@);
    let mut html = HEADER.to_owned();
    let mut i: usize = 0;
    assert(html@ =~= HEADER@ + folder_blocks(all, 0));
    while i < bookmarks.len()
        invariant
            i <= bookmarks.len(),
            all == views_of(bookmarks@),
            html@ == HEADER@ + folder_blocks(all, i as int),
        decreases bookmarks.len() - i,
    {
        if opens(bookmarks, i) {
            match &bookmarks[i].category {
                Some(name) => {
                    push_folder(&mut html, bookmarks, name.as_str(), &bookmarks[i].category);
                    assert(html@ =~= HEADER@ + folder_blocks(all, i + 1));
                },
                None => {},
            }
        }
        i = i + 1;
    }
    if any_loose(bookmarks) {
        push_folder(&mut html, bookmarks, LOOSE, &None);
    }
    html.append(FOOTER);
    assert(html@ =~= exported(all));
    html
}

/// All bookmarks of the store as an HTML bookmark file, in a listing that
/// has them newest first, and how many there are.
pub fn export_bookmarks(db: &Database) -> (out: (String, usize))
    ensures
        exists|listed: Seq<BookmarkView>| #[trigger] lists(db@, listed) && out.0@ == exported(listed),
        out.1 == db@.len(),
{
    let all = db.get_all_bookmarks();
    let html = export_html(&all);
    proof {
        assert(lists(db@, views_of(all@)));
        views_of(all@).to_multiset_ensures();
        db@.to_multiset_ensures();
        assert(views_of(all@).len() == all@.len());
    }
    (html, all.len())
}

} // verus!
