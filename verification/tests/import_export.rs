use bookmark_reminder::database::Database;
use bookmark_reminder::export::{export_bookmarks, export_html, same_text, FOOTER, HEADER, LOOSE};
use bookmark_reminder::import::{
    collect_bookmarks, import_bookmarks, import_bookmarks_at, link_entry, parse_html_bookmarks,
    web_address, ImportedBookmark, RawFolder, RawLink,
};
use bookmark_reminder::models::{Bookmark, CreateBookmarkInput};

fn link(href: Option<&str>, text: &str) -> RawLink {
    RawLink { href: href.map(|h| h.to_string()), text: text.to_string() }
}

fn found(list: &[ImportedBookmark]) -> Vec<(String, String, Option<String>)> {
    list.iter().map(|b| (b.title.clone(), b.url.clone(), b.folder.clone())).collect()
}

fn triple(title: &str, url: &str, folder: Option<&str>) -> (String, String, Option<String>) {
    (title.to_string(), url.to_string(), folder.map(|f| f.to_string()))
}

#[test]
fn links_are_taken_from_folders() {
    let html = "<dl><dt><h3> News </h3><dl><dt><a href=\"https://a.example\"> A </a></dt><dt><a href=\"\">empty</a></dt><dt><a>no href</a></dt></dl></dt><dt><a href=\"ftp://b.example\">B</a></dt></dl>";
    assert_eq!(
        found(&parse_html_bookmarks(html)),
        vec![
            triple("A", "https://a.example", Some("News")),
            triple("B", "ftp://b.example", Some("News")),
            triple("A", "https://a.example", Some("News")),
        ]
    );
}

#[test]
fn folders_follow_one_another() {
    let html = "<dl><a href=\"u0\">zero</a></dl><dl><h3>One</h3><a href=\"u1\">one</a></dl><dl><a href=\"u2\">two</a></dl><dl><h3>Three</h3><h3>Other</h3><a href=\"u3\">three</a></dl>";
    assert_eq!(
        found(&parse_html_bookmarks(html)),
        vec![
            triple("zero", "u0", None),
            triple("one", "u1", Some("One")),
            triple("two", "u2", Some("One")),
            triple("three", "u3", Some("Three")),
        ]
    );
}

#[test]
fn without_folders_web_links_are_taken() {
    let html = "<p><a href=\"https://x.example\">X</a><a href=\"mailto:y\">Y</a><a href=\"http://z.example\"> </a><a href=\"http://w.example\">\n W\t</a><a>http</a></p>";
    assert_eq!(
        found(&parse_html_bookmarks(html)),
        vec![triple("X", "https://x.example", None), triple("W", "http://w.example", None)]
    );
    assert!(parse_html_bookmarks("").is_empty());
    assert!(parse_html_bookmarks("plain text").is_empty());
}

#[test]
fn an_empty_folder_falls_back_to_all_links() {
    let html = "<dl><a href=\"\">nothing</a></dl><a href=\"https://x.example\">X</a><a href=\"ftp://y.example\">Y</a>";
    assert_eq!(found(&parse_html_bookmarks(html)), vec![triple("X", "https://x.example", None)]);
}

#[test]
fn parts_are_collected_into_bookmarks() {
    let folders = vec![
        RawFolder { headings: vec![], links: vec![link(Some("u0"), "zero")] },
        RawFolder { headings: vec!["  One\n".to_string(), "Other".to_string()], links: vec![link(Some("u1"), " one "), link(None, "x"), link(Some(""), "y"), link(Some("u"), "  ")] },
        RawFolder { headings: vec![], links: vec![link(Some("u2"), "two")] },
    ];
    let all = vec![link(Some("http://all"), "all")];
    assert_eq!(
        found(&collect_bookmarks(&folders, &all)),
        vec![triple("zero", "u0", None), triple("one", "u1", Some("One")), triple("two", "u2", Some("One"))]
    );
    let barren = vec![RawFolder { headings: vec!["One".to_string()], links: vec![link(None, "x")] }];
    let all = vec![link(Some("http://all"), " all "), link(Some("u"), "local"), link(None, "none")];
    assert_eq!(found(&collect_bookmarks(&barren, &all)), vec![triple("all", "http://all", None)]);
    assert!(collect_bookmarks(&vec![], &vec![]).is_empty());
}

#[test]
fn a_link_needs_an_address_and_a_title() {
    let folder = Some("F".to_string());
    let entry = |href: Option<&str>, text: &str, web_only: bool| link_entry(&link(href, text), &folder, web_only).map(|b| (b.title, b.url, b.folder));
    assert_eq!(entry(Some("u"), " t ", false), Some(triple("t", "u", Some("F"))));
    assert_eq!(entry(Some("u"), " t ", true), None);
    assert_eq!(entry(Some("http"), "t", true), Some(triple("t", "http", Some("F"))));
    assert_eq!(entry(Some(""), "t", false), None);
    assert_eq!(entry(Some("u"), " \t\n", false), None);
    assert_eq!(entry(None, "t", false), None);
}

#[test]
fn web_addresses_begin_with_http() {
    assert!(web_address("http"));
    assert!(web_address("https://a.example"));
    assert!(web_address("httpx"));
    assert!(!web_address("htt"));
    assert!(!web_address(""));
    assert!(!web_address("Http://a.example"));
    assert!(!web_address(" http://a.example"));
    assert!(!web_address("ftp://http"));
    assert!(!web_address("\u{4e66}http"));
    assert!(!web_address("ht\u{4e66}tp"));
}

fn imported(n: usize) -> Vec<ImportedBookmark> {
    (0..n)
        .map(|i| ImportedBookmark { title: format!("t{}", i), url: format!("u{}", i), folder: if i % 2 == 0 { Some("even".to_string()) } else { None } })
        .collect()
}

#[test]
fn imported_bookmarks_are_stored() {
    let mut db = Database::new();
    assert_eq!(import_bookmarks_at(&mut db, &imported(3), "now"), 3);
    let all = db.get_all_bookmarks();
    assert_eq!(all.len(), 3);
    assert_eq!(
        all[2],
        Bookmark {
            id: Some(1),
            title: "t0".to_string(),
            url: "u0".to_string(),
            category: Some("even".to_string()),
            tags: vec![],
            icon_url: None,
            notes: None,
            reminder: None,
            visit_count: 0,
            last_visited: None,
            created_at: "now".to_string(),
            updated_at: "now".to_string(),
        }
    );
    assert_eq!(all[1].category, None);
    assert_eq!(all[0].id, Some(3));
    assert_eq!(import_bookmarks_at(&mut db, &vec![], "now"), 0);
    assert_eq!(db.len(), 3);
}

#[test]
fn import_stops_counting_where_the_store_is_full() {
    let last = Bookmark {
        id: Some(i64::MAX - 3),
        title: "old".to_string(),
        url: "u".to_string(),
        category: None,
        tags: vec![],
        icon_url: None,
        notes: None,
        reminder: None,
        visit_count: 0,
        last_visited: None,
        created_at: "c".to_string(),
        updated_at: "c".to_string(),
    };
    let mut db = Database::restore(vec![last.clone()], 0).unwrap();
    assert_eq!(import_bookmarks_at(&mut db, &imported(5), "now"), 2);
    assert_eq!(db.len(), 3);
    assert_eq!(db.get_bookmark(i64::MAX - 1).unwrap().title, "t1");
    let mut db = Database::restore(vec![last], 0).unwrap();
    assert_eq!(import_bookmarks(&mut db, &imported(5)), 2);
    assert_eq!(db.len(), 3);
}

#[test]
fn import_reads_the_clock() {
    let mut db = Database::new();
    db.create_bookmark_at(
        CreateBookmarkInput { title: "old".to_string(), url: "u".to_string(), category: None, tags: vec![], notes: None, reminder: None },
        "2020-01-01T00:00:00+00:00".to_string(),
    )
    .unwrap();
    assert_eq!(import_bookmarks(&mut db, &imported(2)), 2);
    let all = db.get_all_bookmarks();
    assert_eq!(all.len(), 3);
    assert_eq!(all[2].title, "old");
    assert_eq!(all[1].title, "t0");
    assert_eq!(all[1].category.as_deref(), Some("even"));
    assert_eq!(all[0].title, "t1");
    assert!(chrono::DateTime::parse_from_rfc3339(&all[0].created_at).is_ok());
}

fn kept(title: &str, url: &str, category: Option<&str>, tags: &[&str]) -> Bookmark {
    Bookmark {
        id: None,
        title: title.to_string(),
        url: url.to_string(),
        category: category.map(|c| c.to_string()),
        tags: tags.iter().map(|t| t.to_string()).collect(),
        icon_url: None,
        notes: None,
        reminder: None,
        visit_count: 0,
        last_visited: None,
        created_at: "c".to_string(),
        updated_at: "c".to_string(),
    }
}

#[test]
fn the_file_begins_and_ends_the_same() {
    assert_eq!(
        HEADER,
        "<!DOCTYPE NETSCAPE-Bookmark-file-1>\n<!-- This is an automatically generated file.\n     It will be read and overwritten.\n     DO NOT EDIT! -->\n<META HTTP-EQUIV=\"Content-Type\" CONTENT=\"text/html; charset=UTF-8\">\n<TITLE>Bookmarks</TITLE>\n<H1>Bookmarks</H1>\n<DL><p>\n"
    );
    assert_eq!(FOOTER, "</DL><p>\n");
    assert_eq!(LOOSE, "未分类");
    assert_eq!(export_html(&vec![]), format!("{}{}", HEADER, FOOTER));
}

#[test]
fn categories_become_folders_in_order_of_first_use() {
    let all = vec![
        kept("t1", "u1", Some("News"), &["a", "b"]),
        kept("t2", "u2", None, &[]),
        kept("t3", "u3", Some("Dev"), &["only"]),
        kept("t4", "u4", Some("News"), &[]),
    ];
    let expected = format!(
        "{}{}{}{}{}",
        HEADER,
        "    <DT><H3>News</H3>\n    <DL><p>\n        <DT><A HREF=\"u1\" TAGS=\"a,b\">t1</A>\n        <DT><A HREF=\"u4\">t4</A>\n    </DL><p>\n",
        "    <DT><H3>Dev</H3>\n    <DL><p>\n        <DT><A HREF=\"u3\" TAGS=\"only\">t3</A>\n    </DL><p>\n",
        "    <DT><H3>未分类</H3>\n    <DL><p>\n        <DT><A HREF=\"u2\">t2</A>\n    </DL><p>\n",
        FOOTER
    );
    assert_eq!(export_html(&all), expected);
}

#[test]
fn without_loose_bookmarks_there_is_no_loose_folder() {
    let all = vec![kept("t1", "u1", Some("News"), &["a", "", "c"])];
    let expected = format!(
        "{}{}{}",
        HEADER,
        "    <DT><H3>News</H3>\n    <DL><p>\n        <DT><A HREF=\"u1\" TAGS=\"a,,c\">t1</A>\n    </DL><p>\n",
        FOOTER
    );
    assert_eq!(export_html(&all), expected);
    let all = vec![kept("t1", "u1", None, &[])];
    let expected = format!(
        "{}{}{}",
        HEADER,
        "    <DT><H3>未分类</H3>\n    <DL><p>\n        <DT><A HREF=\"u1\">t1</A>\n    </DL><p>\n",
        FOOTER
    );
    assert_eq!(export_html(&all), expected);
}

#[test]
fn the_store_is_exported_newest_first() {
    let mut db = Database::new();
    for (title, category) in [("a", Some("X")), ("b", Some("Y")), ("c", Some("X"))] {
        db.create_bookmark_at(
            CreateBookmarkInput {
                title: title.to_string(),
                url: format!("u-{}", title),
                category: category.map(|c| c.to_string()),
                tags: vec![],
                notes: None,
                reminder: None,
            },
            "t".to_string(),
        )
        .unwrap();
    }
    let (html, count) = export_bookmarks(&db);
    assert_eq!(count, 3);
    let expected = format!(
        "{}{}{}{}",
        HEADER,
        "    <DT><H3>X</H3>\n    <DL><p>\n        <DT><A HREF=\"u-c\">c</A>\n        <DT><A HREF=\"u-a\">a</A>\n    </DL><p>\n",
        "    <DT><H3>Y</H3>\n    <DL><p>\n        <DT><A HREF=\"u-b\">b</A>\n    </DL><p>\n",
        FOOTER
    );
    assert_eq!(html, expected);
    assert_eq!(export_bookmarks(&Database::new()), (format!("{}{}", HEADER, FOOTER), 0));
}

#[test]
fn an_exported_file_is_read_back() {
    let all = vec![kept("t1", "https://u1", Some("News"), &["a"]), kept("t2", "https://u2", None, &[]), kept("t3", "https://u3", Some("News"), &[])];
    let read = parse_html_bookmarks(&export_html(&all));
    let titles: Vec<&str> = read.iter().map(|b| b.title.as_str()).collect();
    assert!(titles.contains(&"t1") && titles.contains(&"t2") && titles.contains(&"t3"));
    assert!(read.iter().all(|b| b.url.starts_with("https://u")));
}

#[test]
fn optional_texts_are_compared() {
    assert!(same_text(&None, &None));
    assert!(same_text(&Some("a".to_string()), &Some("a".to_string())));
    assert!(!same_text(&Some("a".to_string()), &Some("b".to_string())));
    assert!(!same_text(&Some("".to_string()), &None));
    assert!(!same_text(&None, &Some("".to_string())));
}

#[test]
fn an_address_and_a_title_make_a_bookmark() {
    let folder = Some("F".to_string());
    let entry = |href: Option<&str>, title: &str, web_only: bool| {
        bookmark_reminder::import::entry_of(&href.map(|h| h.to_string()), title.to_string(), &folder, web_only).map(|b| (b.title, b.url, b.folder))
    };
    assert_eq!(entry(Some("u"), "t", false), Some(triple("t", "u", Some("F"))));
    assert_eq!(entry(Some("u"), " t ", false), Some(triple(" t ", "u", Some("F"))));
    assert_eq!(entry(Some("https://u"), "t", true), Some(triple("t", "https://u", Some("F"))));
    assert_eq!(entry(Some("u"), "t", true), None);
    assert_eq!(entry(Some(""), "t", false), None);
    assert_eq!(entry(Some("u"), "", false), None);
    assert_eq!(entry(None, "t", false), None);
    let loose = bookmark_reminder::import::entry_of(&Some("u".to_string()), "t".to_string(), &None, false).unwrap();
    assert_eq!(loose.folder, None);
}

#[test]
fn the_store_is_exported_by_time_of_creation() {
    let mut db = Database::new();
    for (title, stamp) in [("a", "t2"), ("b", "t1"), ("c", "t3")] {
        db.create_bookmark_at(
            CreateBookmarkInput { title: title.to_string(), url: format!("u-{}", title), category: None, tags: vec![], notes: None, reminder: None },
            stamp.to_string(),
        )
        .unwrap();
    }
    let (html, count) = export_bookmarks(&db);
    assert_eq!(count, 3);
    let expected = format!(
        "{}{}{}",
        HEADER,
        "    <DT><H3>未分类</H3>\n    <DL><p>\n        <DT><A HREF=\"u-c\">c</A>\n        <DT><A HREF=\"u-a\">a</A>\n        <DT><A HREF=\"u-b\">b</A>\n    </DL><p>\n",
        FOOTER
    );
    assert_eq!(html, expected);
}

#[test]
fn every_imported_bookmark_is_stored_in_turn() {
    let mut db = Database::new();
    assert_eq!(import_bookmarks(&mut db, &imported(4)), 4);
    for (k, id) in (1..=4).enumerate() {
        let stored = db.get_bookmark(id).unwrap();
        assert_eq!(stored.title, format!("t{}", k));
        assert_eq!(stored.url, format!("u{}", k));
        assert!(stored.tags.is_empty());
        assert_eq!(stored.reminder, None);
        assert!(chrono::DateTime::parse_from_rfc3339(&stored.created_at).is_ok());
    }
    assert_eq!(import_bookmarks(&mut db, &vec![]), 0);
}
