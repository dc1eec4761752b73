use fselect::datetime::DateTime;
use fselect::entry::{Entry, FileInfo, FileMeta, Slot};
use fselect::parser::Parser;
use fselect::searcher::Searcher;
use fselect::walk::{Action, Walker};

fn file(name: &str, size: u64) -> Entry {
    let mut e = Entry::new(name.to_string(), format!("./{}", name));
    e.meta = Slot::Loaded(FileMeta {
        size,
        is_dir: false,
        is_file: true,
        is_symlink: false,
        mode: Some(0o100644),
        uid: Some(0),
        gid: Some(0),
        created: None,
        accessed: None,
        modified: DateTime::new(2021, 1, 1, 0, 0, 0),
    });
    e.settle();
    e
}

fn file_modified(name: &str, size: u64, modified: DateTime) -> Entry {
    let mut e = file(name, size);
    if let Slot::Loaded(m) = &mut e.meta {
        m.modified = Some(modified);
    }
    e
}

fn search(query: &str, entries: &Vec<Entry>) -> String {
    let mut parser = Parser::new();
    let q = parser.parse(query).expect("the query is valid");
    let mut searcher = Searcher::new(q);
    searcher.list_search_results(&mut entries.clone()).expect("a result")
}

#[test]
fn size_filter_keeps_the_large_file() {
    let entries = vec![file("a.txt", 100), file("b.log", 5000)];
    let out = search("name, size from /tmp where size gt 1k", &entries);
    assert_eq!(out, "b.log\t5000\n");
}

#[test]
fn wildcard_on_name_keeps_enumeration_order() {
    let entries = vec![file("lib.rs", 1), file("main.rs", 2), file("README.md", 3)];
    let out = search("name from . where name = \"*.rs\"", &entries);
    assert_eq!(out, "lib.rs\nmain.rs\n");
}

#[test]
fn count_of_images() {
    let entries = vec![
        file("a.png", 1),
        file("notes.txt", 2),
        file("b.png", 3),
        file("c.PNG", 4),
        file("todo.txt", 5),
    ];
    let out = search("count(*) from /data where is_image = true", &entries);
    assert_eq!(out, "3\n");
}

#[test]
fn order_by_size_desc_limit_two() {
    let entries = vec![file("a", 10), file("b", 20), file("c", 30), file("d", 40)];
    let out = search("name, size from . order by size desc limit 2", &entries);
    assert_eq!(out, "d\t40\nc\t30\n");
}

#[test]
fn json_rows_for_a_month() {
    let march = DateTime::new(2020, 3, 15, 12, 0, 0).unwrap();
    let april = DateTime::new(2020, 4, 1, 0, 0, 0).unwrap();
    let last = DateTime::new(2020, 3, 31, 23, 59, 59).unwrap();
    let entries = vec![
        file_modified("a", 1, march),
        file_modified("x", 2, april),
        file_modified("b", 3, last),
    ];
    let out = search("name from . into json where modified = 2020-03", &entries);
    assert_eq!(out, "[{\"name\":\"a\"},{\"name\":\"b\"}]");
}

#[test]
fn member_of_an_archive() {
    let info = FileInfo {
        name: "inner/x.txt".to_string(),
        size: 12,
        mode: None,
        modified: DateTime::new(2020, 1, 1, 0, 0, 0).unwrap(),
    };
    let entries = vec![Entry::member("z.zip".to_string(), "./z.zip".to_string(), info)];
    let out = search("name from z.zip archives", &entries);
    assert_eq!(out, "[z.zip] inner/x.txt\n");
    let out = search("name, is_archive from z.zip where name = '*.txt' archives", &entries);
    assert_eq!(out, "[z.zip] inner/x.txt\ttrue\n");
    let out = search("name from z.zip where is_archive = true archives", &entries);
    assert_eq!(out, "");
    let out = search("name from z.zip where is_archive = false archives", &entries);
    assert_eq!(out, "[z.zip] inner/x.txt\n");
}

#[test]
fn a_root_that_is_a_file_holds_no_candidate() {
    let q = Parser::new().parse("name from z.zip where is_archive = true archives").unwrap();
    let root = q.roots[0].clone();
    assert!(root.archives);
    let mut walker = Walker::new(root);
    assert_eq!(
        walker.next(false),
        Action::Open { dir: "z.zip".to_string(), with_gitignore: false }
    );
    walker.opened(None, vec![]);
    assert_eq!(walker.next(false), Action::Done);
}
