use fselect::aggregate::{get_aggregate_function_value, max, min, sum, RawRow};
use fselect::datetime::DateTime;
use fselect::entry::{Entry, FileMeta, Slot, Source};
use fselect::field::Field;
use fselect::gitignore::{
    dir_string, is_excluded, matches_gitignore_filter, parent_dir, parse_gitignore_line,
    GitignoreFilter,
    GitignoreMap,
};
use fselect::mode::{format_mode, mode_field_value, mode_is_block_device, mode_is_char_device, mode_is_pipe, mode_is_socket};
use fselect::owner::UsersCache;
use fselect::parser::Parser;
use fselect::query::{OutputFormat, Root};
use fselect::render::{format_results_row, join_rows, results_end, results_start};
use fselect::searcher::{Checked, Searcher};
use fselect::text::{chars_of, decimal_string, parse_i64, parse_u64, signed_decimal_string};
use fselect::topn::{compare_keys, compare_values, TopN};
use fselect::walk::{
    should_check, should_descend, should_open_archive, Action, Child, Walker,
};

fn strings(v: &[&str]) -> Vec<String> {
    v.iter().map(|s| s.to_string()).collect()
}

fn file(name: &str, size: u64) -> Entry {
    let mut e = Entry::new(name.to_string(), format!("./{}", name));
    e.meta = Slot::Loaded(FileMeta {
        size,
        is_dir: false,
        is_file: true,
        is_symlink: false,
        mode: None,
        uid: None,
        gid: None,
        created: None,
        accessed: None,
        modified: DateTime::new(2021, 1, 1, 0, 0, 0),
    });
    e.settle();
    e
}

fn searcher(query: &str) -> Searcher {
    Searcher::new(Parser::new().parse(query).unwrap())
}

fn search(query: &str, entries: &Vec<Entry>) -> Option<String> {
    searcher(query).list_search_results(&mut entries.clone())
}

fn rows(values: &[(&[(Field, &str)])]) -> Vec<RawRow> {
    values
        .iter()
        .map(|row| RawRow { values: row.iter().map(|(f, s)| (*f, s.to_string())).collect() })
        .collect()
}

#[test]
fn a_row_in_each_format() {
    let keys = strings(&["name", "size"]);
    let values = strings(&["a b", "10"]);
    assert_eq!(format_results_row(OutputFormat::Lines, &keys, &values), "a b\n10\n");
    assert_eq!(format_results_row(OutputFormat::List, &keys, &values), "a b\u{0}10\u{0}");
    assert_eq!(format_results_row(OutputFormat::Tabs, &keys, &values), "a b\t10\n");
    assert_eq!(format_results_row(OutputFormat::Csv, &keys, &values), "a b,10\n");
    assert_eq!(
        format_results_row(OutputFormat::Json, &keys, &values),
        "{\"name\":\"a b\",\"size\":\"10\"}"
    );
    let none: Vec<String> = vec![];
    assert_eq!(format_results_row(OutputFormat::Tabs, &none, &none), "\n");
    assert_eq!(format_results_row(OutputFormat::Lines, &none, &none), "");
    assert_eq!(format_results_row(OutputFormat::Json, &none, &none), "{}");
}

#[test]
fn csv_quotes_what_needs_quotes() {
    let keys = strings(&["a", "b", "c"]);
    let values = strings(&["x,y", "say \"hi\"", "two\nlines"]);
    assert_eq!(
        format_results_row(OutputFormat::Csv, &keys, &values),
        "\"x,y\",\"say \"\"hi\"\"\",\"two\nlines\"\n"
    );
}

#[test]
fn json_escapes_and_keeps_the_last_of_equal_keys() {
    let keys = strings(&["name", "size", "name"]);
    let values = strings(&["other", "1", "q\"\\\n"]);
    assert_eq!(
        format_results_row(OutputFormat::Json, &keys, &values),
        "{\"size\":\"1\",\"name\":\"q\\\"\\\\\\n\"}"
    );
    let twice = strings(&["a", "a", "a"]);
    assert_eq!(
        format_results_row(OutputFormat::Json, &twice, &strings(&["1", "2", "3"])),
        "{\"a\":\"3\"}"
    );
}

#[test]
fn start_end_and_rows_between() {
    assert_eq!(results_start(OutputFormat::Json), "[");
    assert_eq!(results_end(OutputFormat::Json), "]");
    assert_eq!(results_start(OutputFormat::Tabs), "");
    assert_eq!(results_end(OutputFormat::Csv), "");
    let rows = strings(&["{}", "{}", "{}"]);
    assert_eq!(join_rows(OutputFormat::Json, &rows), "{},{},{}");
    assert_eq!(join_rows(OutputFormat::Lines, &rows), "{}{}{}");
    assert_eq!(join_rows(OutputFormat::Json, &vec![]), "");
}

#[test]
fn json_is_written_row_by_row_with_commas() {
    let entries = vec![file("a", 1), file("b", 2), file("c", 3)];
    assert_eq!(
        search("name into json", &entries).unwrap(),
        "[{\"name\":\"a\"},{\"name\":\"b\"},{\"name\":\"c\"}]"
    );
    assert_eq!(
        search("name into json order by size desc", &entries).unwrap(),
        "[{\"name\":\"c\"},{\"name\":\"b\"},{\"name\":\"a\"}]"
    );
    assert_eq!(search("name into json", &vec![]).unwrap(), "[]");
    assert_eq!(search("NAME, Upper(Name) into json limit 1", &entries).unwrap(), "[{\"name\":\"a\",\"upper(name)\":\"A\"}]");
}

#[test]
fn rows_never_exceed_the_limit() {
    let entries = vec![file("a", 5), file("b", 1), file("c", 9), file("d", 3)];
    assert_eq!(search("name limit 2", &entries).unwrap(), "a\nb\n");
    assert_eq!(search("name order by size limit 2", &entries).unwrap(), "b\nd\n");
    assert_eq!(search("name order by size desc limit 3", &entries).unwrap(), "c\na\nd\n");
    assert_eq!(search("name limit 9", &entries).unwrap(), "a\nb\nc\nd\n");
    let mut s = searcher("name limit 1");
    assert!(!s.is_full());
    assert_eq!(s.check_file(&entries[0]), Checked::Accepted(Some("a\n".to_string())));
    assert!(s.is_full());
    assert_eq!(s.check_file(&entries[1]), Checked::Full);
    assert_eq!(s.print_results_end(), Some(String::new()));
}

#[test]
fn streaming_and_buffering_give_the_same_rows() {
    let entries = vec![file("a", 5), file("b", 1), file("c", 9), file("d", 3), file("e", 5)];
    let streamed = search("name, size where size > 2", &entries).unwrap();
    let buffered = search("name, size where size > 2 order by name desc", &entries).unwrap();
    let mut a: Vec<&str> = streamed.lines().collect();
    let mut b: Vec<&str> = buffered.lines().collect();
    assert_eq!(b, vec!["e\t5", "d\t3", "c\t9", "a\t5"]);
    a.sort();
    b.sort();
    assert_eq!(a, b);
}

#[test]
fn leaving_candidates_out_adds_no_row() {
    let all = vec![file("a", 5), file("skip.me", 7), file("c", 9)];
    let some = vec![file("a", 5), file("c", 9)];
    let with_all = search("name where size > 4", &all).unwrap();
    let with_some = search("name where size > 4", &some).unwrap();
    for line in with_some.lines() {
        assert!(with_all.lines().any(|l| l == line));
    }
    assert_eq!(with_all, "a\nskip.me\nc\n");
}

#[test]
fn what_a_candidate_becomes() {
    let mut s = searcher("name, size where size > 2 order by size");
    assert!(s.is_buffered() && s.has_ordering() && !s.has_aggregate_column());
    assert_eq!(s.print_results_start(), "");
    let unknown = Entry::new("x".to_string(), "./x".to_string());
    assert_eq!(s.check_file(&unknown), Checked::Needs(Source::Metadata));
    assert_eq!(s.found, 0);
    assert_eq!(s.check_file(&file("small", 1)), Checked::Rejected);
    assert_eq!(s.check_file(&file("big", 10)), Checked::Accepted(None));
    assert_eq!(s.check_file(&file("mid", 5)), Checked::Accepted(None));
    assert_eq!(s.found, 2);
    assert_eq!(s.print_results_end(), Some("mid\t5\nbig\t10\n".to_string()));
    let mut t = searcher("name");
    assert!(!t.is_buffered());
    assert_eq!(t.check_file(&unknown), Checked::Accepted(Some("x\n".to_string())));
    let mut u = searcher("size");
    assert_eq!(u.check_file(&unknown), Checked::Needs(Source::Metadata));
    let mut v = searcher("name order by size");
    assert_eq!(v.check_file(&unknown), Checked::Needs(Source::Metadata));
    let mut w = searcher("count(size)");
    assert!(w.is_buffered() && w.has_aggregate_column() && !w.has_ordering());
    assert_eq!(w.check_file(&unknown), Checked::Needs(Source::Metadata));
}

#[test]
fn summaries() {
    let entries = vec![file("a", 5), file("b", 1), file("c", 9), file("d", 3)];
    assert_eq!(search("count(*)", &entries).unwrap(), "4\n");
    assert_eq!(search("min(size), max(size), sum(size), avg(size), count(name)", &entries).unwrap(), "1\t9\t18\t4\t4\n");
    assert_eq!(search("max(size) where size < 4 into json", &entries).unwrap(), "[{\"max(size)\":\"3\"}]");
    assert_eq!(search("name, count(*), 'x', lower(name)", &entries).unwrap(), "\t4\tx\t\n");
    assert_eq!(search("count(*) limit 2", &entries).unwrap(), "4\n");
    assert_eq!(search("count(*), sum(size), max(size), min(size) where size > 100", &entries).unwrap(), "0\t0\t0\t-1\n");
    assert_eq!(search("avg(size) where size > 100", &entries), None);
    assert_eq!(search("min(42), sum(upper(name)), max(length(size))", &entries).unwrap(), "-1\t0\t9\n");
}

#[test]
fn summaries_of_raw_rows() {
    let data = rows(&[
        &[(Field::Size, "7"), (Field::Name, "a")],
        &[(Field::Size, "-3"), (Field::Name, "b")],
        &[(Field::Size, "x")],
        &[(Field::Name, "c")],
        &[(Field::Size, "12"), (Field::Size, "99")],
    ]);
    assert_eq!(sum(&data, Some(Field::Size)), 19);
    assert_eq!(max(&data, Some(Field::Size)), 12);
    assert_eq!(min(&data, Some(Field::Size)), -3);
    assert_eq!(sum(&data, Some(Field::Uid)), 0);
    assert_eq!(min(&data, None), -1);
    assert_eq!(data[4].get(Field::Size), Some(&"12".to_string()));
    assert_eq!(data[3].get(Field::Size), None);
    let after_minus_one = rows(&[&[(Field::Size, "5")], &[(Field::Size, "-1")], &[(Field::Size, "8")]]);
    assert_eq!(min(&after_minus_one, Some(Field::Size)), 8);
    let big = rows(&[&[(Field::Size, "18446744073709551615")], &[(Field::Size, "18446744073709551615")]]);
    assert_eq!(sum(&big, Some(Field::Size)), 36893488147419103230u128);
    let q = Parser::new().parse("avg(size), sum(size), name, 'lit'").unwrap();
    assert_eq!(get_aggregate_function_value(&q.fields[0], &big), Some("18446744073709551615".to_string()));
    assert_eq!(get_aggregate_function_value(&q.fields[1], &big), Some("36893488147419103230".to_string()));
    assert_eq!(get_aggregate_function_value(&q.fields[0], &vec![]), None);
    assert_eq!(get_aggregate_function_value(&q.fields[2], &big), Some(String::new()));
    assert_eq!(get_aggregate_function_value(&q.fields[3], &big), Some("lit".to_string()));
}

#[test]
fn order_of_values_and_keys() {
    assert_eq!(compare_values("9", "10"), -1);
    assert_eq!(compare_values("10", "9"), 1);
    assert_eq!(compare_values("007", "7"), 0);
    assert_eq!(compare_values("abc", "abd"), -1);
    assert_eq!(compare_values("b", "abc"), 1);
    assert_eq!(compare_values("ab", "abc"), -1);
    assert_eq!(compare_values("", ""), 0);
    assert_eq!(compare_values("5", "abc"), -1);
    assert_eq!(compare_values("abc", "5"), 1);
    assert_eq!(compare_values("", "0"), 1);
    let asc = vec![true, false];
    assert_eq!(compare_keys(&strings(&["1", "b"]), &strings(&["1", "a"]), &asc), -1);
    assert_eq!(compare_keys(&strings(&["1", "a"]), &strings(&["1", "b"]), &asc), 1);
    assert_eq!(compare_keys(&strings(&["0", "a"]), &strings(&["1", "b"]), &asc), -1);
    assert_eq!(compare_keys(&strings(&["1", "a"]), &strings(&["1", "a"]), &asc), 0);
    assert_eq!(compare_keys(&strings(&["1"]), &strings(&["1", "a"]), &asc), 0);
    assert_eq!(compare_keys(&strings(&["2", "a", "z"]), &strings(&["2", "a", "y"]), &asc), 0);
}

#[test]
fn buffer_keeps_the_first_rows_in_order() {
    let mut t = TopN::new(3, vec![true]);
    for (k, row) in [("5", "five"), ("1", "one"), ("9", "nine"), ("5", "cinq"), ("0", "zero"), ("7", "seven")].iter() {
        t.insert(strings(&[*k]), row.to_string());
    }
    assert_eq!(t.values(), strings(&["zero", "one", "five"]));
    assert_eq!(t.len(), 3);
    let mut all = TopN::limitless(vec![false]);
    for (k, row) in [("5", "five"), ("1", "one"), ("9", "nine"), ("5", "cinq")].iter() {
        all.insert(strings(&[*k]), row.to_string());
    }
    assert_eq!(all.values(), strings(&["nine", "five", "cinq", "one"]));
    let mut none = TopN::new(0, vec![]);
    none.insert(vec![], "x".to_string());
    assert_eq!(none.len(), 0);
}

#[test]
fn numbers_as_text() {
    assert_eq!(decimal_string(0), "0");
    assert_eq!(decimal_string(10), "10");
    assert_eq!(decimal_string(u128::MAX), "340282366920938463463374607431768211455");
    assert_eq!(signed_decimal_string(-1), "-1");
    assert_eq!(signed_decimal_string(0), "0");
    assert_eq!(signed_decimal_string(i64::MIN), "-9223372036854775808");
    assert_eq!(signed_decimal_string(i64::MAX), "9223372036854775807");
    assert_eq!(parse_u64(&chars_of("0042"), 100), Some(42));
    assert_eq!(parse_u64(&chars_of("101"), 100), None);
    assert_eq!(parse_u64(&chars_of("100"), 100), Some(100));
    assert_eq!(parse_u64(&chars_of("+5"), 100), Some(5));
    assert_eq!(parse_u64(&chars_of("-5"), 100), None);
    assert_eq!(parse_u64(&chars_of("+"), 100), None);
    assert_eq!(parse_u64(&chars_of("5 "), 100), None);
    assert_eq!(parse_u64(&chars_of("7"), 5), None);
    assert_eq!(parse_i64(&chars_of("-9223372036854775808")), Some(i64::MIN));
    assert_eq!(parse_i64(&chars_of("-9223372036854775809")), None);
    assert_eq!(parse_i64(&chars_of("9223372036854775807")), Some(i64::MAX));
    assert_eq!(parse_i64(&chars_of("9223372036854775808")), None);
    assert_eq!(parse_i64(&chars_of("+12")), Some(12));
    assert_eq!(parse_i64(&chars_of("-0")), Some(0));
    assert_eq!(parse_i64(&chars_of("-")), None);
    assert_eq!(parse_i64(&chars_of("")), None);
}

#[test]
fn modes() {
    assert_eq!(format_mode(0o100644), "-rw-r--r--");
    assert_eq!(format_mode(0o040755), "drwxr-xr-x");
    assert_eq!(format_mode(0o120777), "lrwxrwxrwx");
    assert_eq!(format_mode(0o104755), "-rwsr-xr-x");
    assert_eq!(format_mode(0o102644), "-rw-r-Sr--");
    assert_eq!(format_mode(0o041777), "drwxrwxrwt");
    assert_eq!(format_mode(0o041776), "drwxrwxrwT");
    assert_eq!(format_mode(0o010000), "p---------");
    assert_eq!(format_mode(0o020000), "c---------");
    assert_eq!(format_mode(0o060000), "b---------");
    assert_eq!(format_mode(0o140000), "s---------");
    assert!(mode_is_pipe(0o010644) && !mode_is_pipe(0o100644));
    assert!(mode_is_char_device(0o020644) && !mode_is_char_device(0o060644));
    assert!(mode_is_block_device(0o060644) && !mode_is_block_device(0o020644));
    assert!(mode_is_socket(0o140644) && !mode_is_socket(0o100644));
    assert!(mode_field_value(Field::UserRead, 0o400) && !mode_field_value(Field::UserRead, 0o377));
    assert!(mode_field_value(Field::GroupWrite, 0o020) && mode_field_value(Field::OtherExec, 0o001));
    assert!(!mode_field_value(Field::Name, 0o777));
}

#[test]
fn filters_are_handed_down() {
    let f = |p: &str, d: bool| GitignoreFilter { pattern: p.to_string(), only_dir: d };
    let mut map = GitignoreMap::new();
    map.insert("/r".to_string(), vec![f("\\.log$", false)]);
    map.insert("/r/a/b".to_string(), vec![f("tmp", true), f("^x", false)]);
    map.insert("/other".to_string(), vec![f("zzz", false)]);
    assert_eq!(map.get_gitignore_filters("/r"), vec![f("\\.log$", false)]);
    assert_eq!(map.get_gitignore_filters("/r/a"), vec![f("\\.log$", false)]);
    assert_eq!(
        map.get_gitignore_filters("/r/a/b"),
        vec![f("\\.log$", false), f("tmp", true), f("^x", false)]
    );
    assert_eq!(map.get_gitignore_filters("/r/a/b/c").len(), 3);
    assert_eq!(map.get_gitignore_filters("/elsewhere"), vec![]);
    map.insert("/r".to_string(), vec![f("\\.bak$", false)]);
    assert_eq!(map.get_gitignore_filters("/r/a"), vec![f("\\.bak$", false)]);
    let filters = vec![f("\\.log$", false), f("tmp", true)];
    assert!(matches_gitignore_filter(&filters, "/r/a.log", false));
    assert!(matches_gitignore_filter(&filters, "/r/tmp", true));
    assert!(!matches_gitignore_filter(&filters, "/r/tmp", false));
    assert!(!matches_gitignore_filter(&filters, "/r/a.txt", false));
    assert!(!matches_gitignore_filter(&vec![], "/r/a.log", false));
    assert!(is_excluded(true, &filters, "/r/a.log", false));
    assert!(!is_excluded(false, &filters, "/r/a.log", false));
    assert!(!is_excluded(true, &filters, "/r/a.txt", false));
    let mut slashed = GitignoreMap::new();
    slashed.insert("/tmp/".to_string(), vec![f("x", false)]);
    assert_eq!(slashed.get_gitignore_filters("/tmp"), vec![f("x", false)]);
    assert_eq!(slashed.get_gitignore_filters("/tmp/"), vec![f("x", false)]);
    assert_eq!(slashed.get_gitignore_filters("/tmp/sub"), vec![f("x", false)]);
    assert_eq!(slashed.get_gitignore_filters("/tmp/sub/"), vec![f("x", false)]);
    assert_eq!(slashed.get_gitignore_filters("/tmp//sub/deep"), vec![f("x", false)]);
    assert_eq!(slashed.get_gitignore_filters("/tmpx"), vec![]);
    slashed.insert("/".to_string(), vec![f("top", false)]);
    assert_eq!(slashed.get_gitignore_filters("/tmp/sub"), vec![f("top", false), f("x", false)]);
    assert_eq!(slashed.get_gitignore_filters("/"), vec![f("top", false)]);
    let mut s = searcher("name");
    s.remember_gitignore("/r".to_string(), vec![f("a", false)]);
    assert_eq!(s.get_gitignore_filters("/r/x/y"), vec![f("a", false)]);
    let inner = s.enter_dir("/r/x", Some(strings(&["# build", "*.o", "", "!keep.o", "/out/"])));
    assert_eq!(
        inner,
        vec![f("a", false), f("^/r/x/(.*/)?.*\\.o$", false), f("^/r/x/out$", true)]
    );
    assert_eq!(s.enter_dir("/r/x/y", None), inner);
    assert_eq!(s.enter_dir("/q", None), vec![]);
}

#[test]
fn one_form_for_a_directory() {
    assert_eq!(dir_string("/tmp/"), "/tmp");
    assert_eq!(dir_string("/tmp"), "/tmp");
    assert_eq!(dir_string("/tmp///"), "/tmp");
    assert_eq!(dir_string("/"), "/");
    assert_eq!(dir_string("//"), "/");
    assert_eq!(dir_string(""), "");
    assert_eq!(dir_string("a/b/"), "a/b");
}

#[test]
fn parents_of_paths() {
    assert_eq!(parent_dir("/a//b"), Some("/a".to_string()));
    assert_eq!(parent_dir("/a/b"), Some("/a".to_string()));
    assert_eq!(parent_dir("/a"), Some("/".to_string()));
    assert_eq!(parent_dir("/"), None);
    assert_eq!(parent_dir("a/b/c"), Some("a/b".to_string()));
    assert_eq!(parent_dir("a"), None);
    assert_eq!(parent_dir(""), None);
    assert_eq!(parent_dir("a/b/"), Some("a/b".to_string()));
}

#[test]
fn levels_of_a_walk() {
    let root = |min: u32, max: u32, archives: bool| Root {
        path: ".".to_string(),
        min_depth: min,
        max_depth: max,
        archives,
        symlinks: false,
        gitignore: false,
    };
    assert!(should_check(&root(0, 0, false), 1) && should_check(&root(0, 0, false), 99));
    assert!(!should_check(&root(2, 0, false), 1) && should_check(&root(2, 0, false), 2));
    assert!(should_check(&root(0, 2, false), 2) && !should_check(&root(0, 2, false), 3));
    assert!(should_check(&root(2, 3, false), 3) && !should_check(&root(2, 3, false), 4));
    assert!(should_descend(&root(0, 0, false), 50) && should_descend(&root(0, 2, false), 1));
    assert!(!should_descend(&root(0, 2, false), 2));
    assert!(should_open_archive(&root(0, 0, true), "a.ZIP"));
    assert!(!should_open_archive(&root(0, 0, false), "a.zip"));
    assert!(!should_open_archive(&root(0, 0, true), "a.tar"));
}

#[test]
fn names_of_owners() {
    let nobody = UsersCache::without_system();
    assert_eq!(nobody.get_user_by_uid(0), None);
    assert_eq!(nobody.get_group_by_gid(0), None);
    assert_eq!(nobody.get_user_by_uid(4000000001), None);
    let system = UsersCache::new();
    let first = system.get_user_by_uid(0);
    assert_eq!(system.get_user_by_uid(0), first);
    let group = system.get_group_by_gid(0);
    assert_eq!(system.get_group_by_gid(0), group);
}

#[test]
fn lines_of_an_ignore_file() {
    let f = |p: &str, d: bool| Some(GitignoreFilter { pattern: p.to_string(), only_dir: d });
    assert_eq!(parse_gitignore_line("/r", ""), None);
    assert_eq!(parse_gitignore_line("/r", "# comment"), None);
    assert_eq!(parse_gitignore_line("/r", "!keep"), None);
    assert_eq!(parse_gitignore_line("/r", "*.log"), f("^/r/(.*/)?.*\\.log$", false));
    assert_eq!(parse_gitignore_line("/r", "target/"), f("^/r/(.*/)?target$", true));
    assert_eq!(parse_gitignore_line("/r", "/build"), f("^/r/build$", false));
    assert_eq!(parse_gitignore_line("/r.d", "/a?c/"), f("^/r\\.d/a.c$", true));
    assert_eq!(parse_gitignore_line("/r", "/"), f("^/r/(.*/)?$", true));
    assert_eq!(parse_gitignore_line("/r/", "*.log"), f("^/r/(.*/)?.*\\.log$", false));
    assert_eq!(parse_gitignore_line("/r//", "/build"), f("^/r/build$", false));
    assert_eq!(parse_gitignore_line("/", "/build"), f("^/build$", false));
    assert_eq!(parse_gitignore_line("", "/build"), f("^build$", false));
    assert_eq!(parse_gitignore_line(".", "a"), f("^\\./(.*/)?a$", false));
    let filters = vec![
        parse_gitignore_line("/r", "*.log").unwrap(),
        parse_gitignore_line("/r", "target/").unwrap(),
        parse_gitignore_line("/r", "/build").unwrap(),
    ];
    assert!(matches_gitignore_filter(&filters, "/r/a.log", false));
    assert!(matches_gitignore_filter(&filters, "/r/x/y/a.log", false));
    assert!(!matches_gitignore_filter(&filters, "/s/a.log", false));
    assert!(matches_gitignore_filter(&filters, "/r/x/target", true));
    assert!(!matches_gitignore_filter(&filters, "/r/x/target", false));
    assert!(matches_gitignore_filter(&filters, "/r/build", false));
    assert!(!matches_gitignore_filter(&filters, "/r/x/build", false));
}

#[test]
fn the_owner_is_asked_for_when_the_number_is_known() {
    let mut s = searcher("name");
    s.user_cache = UsersCache::without_system();
    let mut no_meta = Entry::new("a".to_string(), "./a".to_string());
    s.supply_owner(&mut no_meta, Source::UserName);
    assert_eq!(no_meta.user, Slot::Missing);
    assert_eq!(no_meta.group, Slot::Unknown);
    s.supply_owner(&mut no_meta, Source::Metadata);
    assert_eq!(no_meta.meta, Slot::Unknown);
    let mut owned = file("b", 1);
    owned.user = Slot::Unknown;
    owned.group = Slot::Unknown;
    if let Slot::Loaded(m) = &mut owned.meta {
        m.uid = Some(0);
        m.gid = Some(0);
    }
    let before = owned.clone();
    s.supply_owner(&mut owned, Source::UserName);
    s.supply_owner(&mut owned, Source::GroupName);
    assert_eq!(owned.user, Slot::Missing);
    assert_eq!(owned.group, Slot::Missing);
    assert_eq!(owned.meta, before.meta);
    assert_eq!(owned.name, before.name);
    let asking = searcher("name");
    let mut asked = before.clone();
    asking.supply_owner(&mut asked, Source::UserName);
    assert!(asked.user != Slot::Unknown);
    assert_eq!(asked.group, Slot::Unknown);
    let mut again = before.clone();
    asking.supply_owner(&mut again, Source::UserName);
    assert_eq!(again.user, asked.user);
}

#[test]
fn rows_come_out_in_the_order_of_their_keys() {
    let entries = vec![file("b", 5), file("a", 5), file("d", 1), file("c", 9), file("e", 5)];
    assert_eq!(search("name order by size, name", &entries).unwrap(), "d\na\nb\ne\nc\n");
    assert_eq!(search("name order by size desc, name desc", &entries).unwrap(), "c\ne\nb\na\nd\n");
    assert_eq!(search("name order by size", &entries).unwrap(), "d\nb\na\ne\nc\n");
    assert_eq!(search("name order by name limit 1", &entries).unwrap(), "a\n");
}

fn child(dir: &str, name: &str, is_dir: bool) -> Child {
    Child { name: name.to_string(), path: format!("{}/{}", dir, name), is_dir }
}

/// Walks through a tree that is given as a list of directories with what
/// they hold, and gives the paths of the candidates in their order.
fn walk(root: Root, tree: &[(&str, Vec<Child>)], ignore: &[(&str, &[&str])]) -> Vec<String> {
    let mut s = searcher("name");
    let mut walker = Walker::new(root);
    let mut seen = vec![];
    let mut steps = 0;
    loop {
        steps += 1;
        assert!(steps < 1000);
        match walker.next(false) {
            Action::Open { dir, with_gitignore } => {
                let lines = ignore.iter().find(|(d, _)| *d == dir).map(|(_, l)| strings(l));
                let filters = if with_gitignore { s.enter_dir(&dir, lines) } else { vec![] };
                let listing = tree.iter().find(|(d, _)| *d == dir).map(|(_, c)| c.clone());
                walker.opened(listing, filters);
            },
            Action::Visit { name, path, check, members } => {
                assert!(path.ends_with(&name));
                assert!(check || members);
                if check {
                    seen.push(path.clone());
                }
                if members {
                    seen.push(format!("{}!", path));
                }
            },
            Action::Done => return seen,
        }
    }
}

fn tree() -> Vec<(&'static str, Vec<Child>)> {
    vec![
        ("/r", vec![child("/r", "a.txt", false), child("/r", "sub", true), child("/r", "z.zip", false)]),
        ("/r/sub", vec![child("/r/sub", "b.log", false), child("/r/sub", "deep", true)]),
        ("/r/sub/deep", vec![child("/r/sub/deep", "c.txt", false)]),
    ]
}

fn root_of(min: u32, max: u32, archives: bool, gitignore: bool) -> Root {
    Root { path: "/r".to_string(), min_depth: min, max_depth: max, archives, symlinks: false, gitignore }
}

#[test]
fn a_walk_hands_out_each_directory_before_what_stands_in_it() {
    assert_eq!(
        walk(root_of(0, 0, false, false), &tree(), &[]),
        strings(&["/r/a.txt", "/r/sub", "/r/sub/b.log", "/r/sub/deep", "/r/sub/deep/c.txt", "/r/z.zip"])
    );
    assert_eq!(
        walk(root_of(0, 0, true, false), &tree(), &[]),
        strings(&[
            "/r/a.txt",
            "/r/sub",
            "/r/sub/b.log",
            "/r/sub/deep",
            "/r/sub/deep/c.txt",
            "/r/z.zip",
            "/r/z.zip!",
        ])
    );
    assert_eq!(
        walk(root_of(2, 0, true, false), &tree(), &[]),
        strings(&["/r/sub/b.log", "/r/sub/deep", "/r/sub/deep/c.txt", "/r/z.zip!"])
    );
}

#[test]
fn a_walk_keeps_to_the_levels_of_its_root() {
    assert_eq!(
        walk(root_of(0, 1, false, false), &tree(), &[]),
        strings(&["/r/a.txt", "/r/sub", "/r/z.zip"])
    );
    assert_eq!(
        walk(root_of(2, 2, false, false), &tree(), &[]),
        strings(&["/r/sub/b.log", "/r/sub/deep"])
    );
    assert_eq!(walk(root_of(3, 0, false, false), &tree(), &[]), strings(&["/r/sub/deep/c.txt"]));
    assert_eq!(walk(root_of(4, 0, false, false), &tree(), &[]), strings(&[]));
}

#[test]
fn a_walk_passes_over_what_is_ignored() {
    let ignore: &[(&str, &[&str])] = &[("/r", &["*.log"]), ("/r/sub", &["deep/"])];
    assert_eq!(
        walk(root_of(0, 0, false, true), &tree(), ignore),
        strings(&["/r/a.txt", "/r/sub", "/r/z.zip"])
    );
    let without = walk(root_of(0, 0, false, false), &tree(), ignore);
    for path in walk(root_of(0, 0, false, true), &tree(), ignore).iter() {
        assert!(without.contains(path));
    }
    let only_logs: &[(&str, &[&str])] = &[("/r", &["*.log"])];
    assert_eq!(
        walk(root_of(0, 0, false, true), &tree(), only_logs),
        strings(&["/r/a.txt", "/r/sub", "/r/sub/deep", "/r/sub/deep/c.txt", "/r/z.zip"])
    );
}

#[test]
fn a_walk_goes_by_the_filters_of_a_root_written_with_a_slash() {
    let mut root = root_of(0, 0, false, true);
    root.path = "/r/".to_string();
    let ignore: &[(&str, &[&str])] = &[("/r", &["*.txt"])];
    assert_eq!(walk(root, &tree(), ignore), strings(&["/r/sub", "/r/sub/b.log", "/r/sub/deep", "/r/z.zip"]));
}

#[test]
fn a_walk_ends_when_the_search_is_full_or_the_root_is_no_directory() {
    let mut walker = Walker::new(root_of(0, 0, false, false));
    assert_eq!(walker.next(true), Action::Done);
    assert_eq!(walker.next(false), Action::Open { dir: "/r".to_string(), with_gitignore: false });
    assert_eq!(walker.next(false), Action::Open { dir: "/r".to_string(), with_gitignore: false });
    walker.opened(None, vec![]);
    assert_eq!(walker.next(false), Action::Done);
    assert_eq!(walk(root_of(0, 0, false, false), &[], &[]), strings(&[]));
}

#[test]
fn what_was_not_fetched_counts_as_not_to_be_had() {
    let mut entries = vec![
        Entry::new("a".to_string(), "./a".to_string()),
        file("b", 7),
        Entry::new("c.png".to_string(), "./c.png".to_string()),
    ];
    let mut s = searcher("name, size, width where size > 5 or name = a or width = 3");
    assert_eq!(s.list_search_results(&mut entries), Some("a\t\t\nb\t7\t\n".to_string()));
    assert_eq!(entries[0].meta, Slot::Missing);
    assert_eq!(entries[0].dimensions, Slot::Unknown);
    assert_eq!(entries[0].audio, Slot::Unknown);
    assert_eq!(entries[2].meta, Slot::Missing);
    assert_eq!(entries[2].dimensions, Slot::Missing);
    assert_eq!(entries[2].head, Slot::Unknown);
    let fresh = vec![
        Entry::new("x".to_string(), "./x".to_string()),
        file("y", 2),
        Entry::new("z".to_string(), "./z".to_string()),
    ];
    let streamed = search("name", &fresh).unwrap();
    let buffered = search("name order by size desc", &fresh).unwrap();
    assert_eq!(streamed, "x\ny\nz\n");
    assert_eq!(buffered, "x\nz\ny\n");
    assert_eq!(search("name order by size", &fresh).unwrap(), "y\nx\nz\n");
}
