use fselect::datetime::DateTime;
use fselect::entry::{AudioInfo, AudioTag, Dimensions, Entry, FileInfo, FileMeta, Slot, Source};
use fselect::eval::{check_flag, check_number, check_text, check_time, conforms};
use fselect::field::Field;
use fselect::parser::Parser;
use fselect::project::{get_column_expr_value, get_field_value, get_function_value};
use fselect::function::Function;
use fselect::query::{Expr, Op};
use fselect::value::{
    has_extension, is_archive, is_audio, is_book, is_doc, is_hidden, is_image,
    is_image_dim_readable, is_shebang, is_source, is_video, is_zip_archive, read_field,
    str_to_bool, Answer, FieldValue,
};

fn meta(size: u64) -> FileMeta {
    FileMeta {
        size,
        is_dir: false,
        is_file: true,
        is_symlink: false,
        mode: Some(0o100754),
        uid: Some(1000),
        gid: Some(100),
        created: DateTime::new(2019, 12, 31, 23, 59, 59),
        accessed: DateTime::new(2020, 6, 1, 0, 0, 0),
        modified: DateTime::new(2020, 3, 15, 12, 0, 0),
    }
}

fn fresh(name: &str) -> Entry {
    Entry::new(name.to_string(), format!("/data/{}", name))
}

fn known(name: &str, size: u64) -> Entry {
    let mut e = fresh(name);
    e.meta = Slot::Loaded(meta(size));
    e.user = Slot::Loaded("alice".to_string());
    e.group = Slot::Loaded("staff".to_string());
    e.settle();
    e
}

fn member(name: &str) -> Entry {
    Entry::member(
        "z.zip".to_string(),
        "/data/z.zip".to_string(),
        FileInfo {
            name: name.to_string(),
            size: 77,
            mode: Some(0o100600),
            modified: DateTime::new(2018, 5, 6, 7, 8, 9).unwrap(),
        },
    )
}

fn condition(text: &str) -> Expr {
    Parser::new().parse(&format!("name where {}", text)).unwrap().expr.unwrap()
}

fn holds(text: &str, e: &Entry) -> bool {
    match conforms(&condition(text), e) {
        Answer::Ready(b) => b,
        Answer::Needs(s) => panic!("needs {:?}", s),
    }
}

#[test]
fn extensions_ignore_case() {
    assert!(has_extension("Photo.JPG", &[".jpg", ".png"]));
    assert!(has_extension("a.png", &[".jpg", ".png"]));
    assert!(!has_extension("a.gif", &[".jpg", ".png"]));
    assert!(!has_extension("jpg", &[".jpg"]));
    assert!(!has_extension("a.jpg", &[]));
    assert!(has_extension(".jpg", &[".jpg"]));
}

#[test]
fn kinds_of_files_by_name() {
    assert!(is_zip_archive("a.jar") && is_zip_archive("b.ZIP") && is_zip_archive("c.war") && is_zip_archive("d.ear"));
    assert!(!is_zip_archive("a.tar"));
    assert!(is_archive("a.tar") && is_archive("a.7z") && !is_archive("a.jar"));
    assert!(is_audio("a.mp3") && !is_audio("a.mp4"));
    assert!(is_book("a.epub") && !is_book("a.doc"));
    assert!(is_doc("a.docx") && is_doc("a.pdf") && !is_doc("a.txt"));
    assert!(is_image("a.tiff") && !is_image("a.svg"));
    assert!(is_image_dim_readable("a.png") && !is_image_dim_readable("a.tiff"));
    assert!(is_source("lib.rs") && is_source("a.C") && !is_source("a.rst"));
    assert!(is_video("a.mkv") && !is_video("a.mp3"));
}

#[test]
fn shebang_is_the_first_two_bytes() {
    assert!(is_shebang(&vec![0x23, 0x21, 0x2f]));
    assert!(is_shebang(&vec![0x23, 0x21]));
    assert!(!is_shebang(&vec![0x23]));
    assert!(!is_shebang(&vec![]));
    assert!(!is_shebang(&vec![0x21, 0x23]));
}

#[test]
fn hidden_files() {
    assert!(is_hidden(".git", None, false));
    assert!(!is_hidden("git", None, false));
    assert!(!is_hidden("", None, false));
    assert!(is_hidden("plain", Some(true), false));
    assert!(!is_hidden(".dot", Some(false), false));
    assert!(is_hidden("a/b/.c", None, true));
    assert!(is_hidden(".c", None, true));
    assert!(!is_hidden("a/.b/c", None, true));
    assert!(!is_hidden("a/b/", None, true));
    assert!(!is_hidden("a\\.b", None, true));
    assert!(!is_hidden("", None, true));
}

#[test]
fn words_for_true() {
    assert!(str_to_bool("true") && str_to_bool("1") && str_to_bool("yes"));
    assert!(!str_to_bool("TRUE") && !str_to_bool("Yes") && !str_to_bool("True"));
    assert!(!str_to_bool("false") && !str_to_bool("0") && !str_to_bool("") && !str_to_bool("y") && !str_to_bool("on"));
    assert!(!str_to_bool(" true") && !str_to_bool("11") && !str_to_bool("yes "));
}

#[test]
fn comparisons_of_texts() {
    let none: Option<String> = None;
    let rx = Some("^a.c$".to_string());
    assert!(check_text(Op::Eq, "abc", &none, "abc"));
    assert!(!check_text(Op::Eq, "abc", &none, "abd"));
    assert!(check_text(Op::Eq, "ignored", &rx, "abc"));
    assert!(!check_text(Op::Eq, "abc", &rx, "abcd"));
    assert!(check_text(Op::Ne, "abc", &none, "abd"));
    assert!(!check_text(Op::Ne, "x", &rx, "abc"));
    assert!(check_text(Op::Ne, "x", &rx, "zzz"));
    assert!(check_text(Op::Rx, "x", &rx, "abc"));
    assert!(check_text(Op::Like, "x", &rx, "abc"));
    assert!(!check_text(Op::Rx, "abc", &none, "abc"));
    assert!(check_text(Op::Eeq, "a.c", &rx, "a.c"));
    assert!(!check_text(Op::Eeq, "a.c", &rx, "abc"));
    assert!(check_text(Op::Ene, "a.c", &rx, "abc"));
    assert!(!check_text(Op::Gt, "a", &none, "b"));
    let bad = Some("a(".to_string());
    assert!(!check_text(Op::Eq, "a(", &bad, "a("));
    assert!(check_text(Op::Ne, "a(", &bad, "a("));
}

#[test]
fn comparisons_of_numbers() {
    assert!(check_number(Op::Eq, 5, 5) && check_number(Op::Eeq, 5, 5));
    assert!(check_number(Op::Ne, 5, 6) && check_number(Op::Ene, 5, 6));
    assert!(check_number(Op::Gt, 6, 5) && !check_number(Op::Gt, 5, 5));
    assert!(check_number(Op::Gte, 5, 5) && !check_number(Op::Gte, 4, 5));
    assert!(check_number(Op::Lt, 4, 5) && !check_number(Op::Lt, 5, 5));
    assert!(check_number(Op::Lte, 5, 5) && !check_number(Op::Lte, 6, 5));
    assert!(!check_number(Op::Rx, 5, 5) && !check_number(Op::Like, 5, 5));
}

#[test]
fn comparisons_of_flags() {
    assert!(check_flag(Op::Eq, "true", true) && check_flag(Op::Eeq, "yes", true));
    assert!(check_flag(Op::Eq, "false", false) && check_flag(Op::Eq, "whatever", false));
    assert!(!check_flag(Op::Eq, "true", false));
    assert!(check_flag(Op::Ne, "true", false) && check_flag(Op::Ene, "0", true));
    assert!(!check_flag(Op::Ne, "true", true));
    assert!(!check_flag(Op::Gt, "true", true) && !check_flag(Op::Rx, "true", true));
}

#[test]
fn comparisons_of_times() {
    let from = DateTime::new(2020, 3, 1, 0, 0, 0).unwrap();
    let to = DateTime::new(2020, 3, 31, 23, 59, 59).unwrap();
    let before = DateTime::new(2020, 2, 29, 23, 59, 59).unwrap();
    let inside = DateTime::new(2020, 3, 15, 12, 0, 0).unwrap();
    let after = DateTime::new(2020, 4, 1, 0, 0, 0).unwrap();
    assert!(check_time(Op::Eq, &from, &to, &inside) && check_time(Op::Eq, &from, &to, &from) && check_time(Op::Eq, &from, &to, &to));
    assert!(!check_time(Op::Eq, &from, &to, &before) && !check_time(Op::Eq, &from, &to, &after));
    assert!(check_time(Op::Ne, &from, &to, &before) && check_time(Op::Ne, &from, &to, &after) && !check_time(Op::Ne, &from, &to, &inside));
    assert!(check_time(Op::Eeq, &from, &to, &from) && !check_time(Op::Eeq, &from, &to, &inside));
    assert!(check_time(Op::Ene, &from, &to, &inside) && !check_time(Op::Ene, &from, &to, &from));
    assert!(check_time(Op::Gt, &from, &to, &after) && !check_time(Op::Gt, &from, &to, &to));
    assert!(check_time(Op::Gte, &from, &to, &from) && !check_time(Op::Gte, &from, &to, &before));
    assert!(check_time(Op::Lt, &from, &to, &before) && !check_time(Op::Lt, &from, &to, &from));
    assert!(check_time(Op::Lte, &from, &to, &to) && !check_time(Op::Lte, &from, &to, &after));
    assert!(!check_time(Op::Rx, &from, &to, &inside));
}

#[test]
fn conditions_on_a_file() {
    let e = known("Report.PDF", 2048);
    assert!(holds("name = Report.PDF", &e));
    assert!(!holds("name = report.pdf", &e));
    assert!(holds("name = '*.PDF'", &e));
    assert!(holds("path ~= '^/data/'", &e));
    assert!(holds("size = 2k", &e) && holds("fsize gte 2048", &e) && !holds("size gt 2k", &e));
    assert!(holds("uid = 1000", &e) && holds("gid lt 101", &e));
    assert!(holds("user = alice", &e) && holds("group != wheel", &e));
    assert!(holds("is_file = true", &e) && holds("is_dir = false", &e) && holds("is_symlink != true", &e));
    assert!(holds("mode = '-rwxr-xr--'", &e));
    assert!(holds("user_read = true", &e) && holds("user_exec = 1", &e));
    assert!(holds("group_write = false", &e) && holds("other_exec = no", &e) && holds("other_read = yes", &e));
    assert!(holds("is_pipe = false", &e) && holds("is_socket != true", &e));
    assert!(holds("is_hidden = false", &e));
    assert!(holds("is_doc = true", &e) && holds("is_book = true", &e) && holds("is_image = false", &e));
    assert!(holds("modified = 2020-03", &e) && holds("modified gt 2020-02", &e) && !holds("modified gt 2020-03", &e));
    assert!(holds("created lt 2020", &e) && holds("accessed gte 2020-06-01", &e));
    assert!(holds("created === '2019-12-31 23:59:59'", &e));
    assert!(holds("size > 1 and (name = nothing or uid = 1000)", &e));
    assert!(!holds("size > 1 and (name = nothing or uid = 1)", &e));
}

#[test]
fn what_is_missing_makes_a_condition_false() {
    let mut e = fresh("a.png");
    e.settle();
    assert!(!holds("size = 0", &e) && !holds("size != 0", &e));
    assert!(!holds("width = 1", &e) && !holds("title = x", &e) && !holds("has_xattrs = false", &e));
    assert!(!holds("user = alice", &e) && !holds("modified = 2020", &e));
    assert!(holds("is_shebang = false", &e) && !holds("is_shebang = true", &e));
    assert!(holds("name = a.png", &e) && holds("is_image = true", &e));
}

#[test]
fn sources_are_asked_for_one_by_one() {
    let mut e = fresh("song.mp3");
    let x = condition("name = other or size > 5 and (bitrate = 128 or user = bob)");
    assert_eq!(conforms(&x, &e), Answer::Needs(Source::Metadata));
    e.meta = Slot::Loaded(meta(10));
    assert_eq!(conforms(&x, &e), Answer::Needs(Source::Audio));
    e.audio = Slot::Loaded(AudioInfo { bitrate: 320, sampling_freq: 44100, tag: None });
    assert_eq!(conforms(&x, &e), Answer::Needs(Source::UserName));
    e.supply_user(Some("bob".to_string()));
    assert_eq!(conforms(&x, &e), Answer::Ready(true));
    assert_eq!(e.xattrs, Slot::Unknown);
    assert_eq!(e.head, Slot::Unknown);
    assert_eq!(e.dimensions, Slot::Unknown);
    assert_eq!(e.group, Slot::Unknown);
}

#[test]
fn nothing_is_fetched_for_what_is_not_looked_at() {
    let e = fresh("a.txt");
    assert_eq!(conforms(&condition("name = a.txt or size > 5"), &e), Answer::Ready(true));
    assert_eq!(conforms(&condition("name = b.txt and size > 5"), &e), Answer::Ready(false));
    assert_eq!(conforms(&condition("name = b.txt or size > 5"), &e), Answer::Needs(Source::Metadata));
    assert_eq!(conforms(&condition("width > 5"), &e), Answer::Ready(false));
    assert_eq!(conforms(&condition("width > 5"), &fresh("a.png")), Answer::Needs(Source::Dimensions));
    assert_eq!(conforms(&condition("is_shebang = true"), &e), Answer::Needs(Source::Head));
    assert_eq!(conforms(&condition("has_xattrs = true"), &e), Answer::Needs(Source::Xattrs));
    assert_eq!(conforms(&condition("group = staff"), &known("a", 1)), Answer::Ready(true));
}

#[test]
fn image_audio_and_content() {
    let mut e = fresh("pic.png");
    e.dimensions = Slot::Loaded(Dimensions { width: 640, height: 480 });
    e.head = Slot::Loaded(vec![0x23, 0x21, 0x2f]);
    e.xattrs = Slot::Loaded(true);
    e.audio = Slot::Loaded(AudioInfo {
        bitrate: 128,
        sampling_freq: 44100,
        tag: Some(AudioTag {
            title: "Song".to_string(),
            artist: "Band".to_string(),
            album: "Record".to_string(),
            year: 1999,
            genre: "Rock".to_string(),
        }),
    });
    e.settle();
    assert!(holds("width = 640", &e) && holds("height lt 481", &e));
    assert!(holds("is_shebang = true", &e) && holds("has_xattrs = true", &e));
    assert!(holds("bitrate = 128", &e) && holds("freq gte 44100", &e));
    assert!(holds("title = Song", &e) && holds("artist = 'B*'", &e) && holds("album ~= 'cor'", &e));
    assert!(holds("year = 1999", &e) && holds("genre != Pop", &e));
    assert_eq!(get_field_value(&e, Field::Width), Answer::Ready("640".to_string()));
    assert_eq!(get_field_value(&e, Field::Height), Answer::Ready("480".to_string()));
    assert_eq!(get_field_value(&e, Field::IsShebang), Answer::Ready("true".to_string()));
    assert_eq!(get_field_value(&e, Field::HasXattrs), Answer::Ready("true".to_string()));
    assert_eq!(get_field_value(&e, Field::Freq), Answer::Ready("44100".to_string()));
    assert_eq!(get_field_value(&e, Field::Genre), Answer::Ready("Rock".to_string()));
    assert_eq!(get_field_value(&e, Field::Year), Answer::Ready("1999".to_string()));
}

#[test]
fn year_zero_is_no_year() {
    let mut e = fresh("a.mp3");
    e.audio = Slot::Loaded(AudioInfo {
        bitrate: 128,
        sampling_freq: 44100,
        tag: Some(AudioTag {
            title: String::new(),
            artist: String::new(),
            album: String::new(),
            year: 0,
            genre: String::new(),
        }),
    });
    e.settle();
    assert!(!holds("year = 0", &e) && !holds("year != 5", &e));
    assert_eq!(get_field_value(&e, Field::Year), Answer::Ready(String::new()));
}

#[test]
fn member_of_an_archive_lacks_what_only_files_have() {
    let e = member("docs/.notes.txt");
    for field in [
        "uid", "gid", "user", "group", "created", "accessed", "has_xattrs", "is_shebang",
        "width", "height", "bitrate", "freq", "title", "artist", "album", "year", "genre",
    ]
    .iter()
    {
        let value = if *field == "created" || *field == "accessed" { "2020" } else { "1" };
        for op in ["=", "!=", "===", "!==", ">", ">=", "<", "<=", "~=", "like"].iter() {
            assert!(!holds(&format!("{} {} {}", field, op, value), &e), "{} {}", field, op);
        }
        let f = Field::from_name(field).unwrap();
        assert!(f.is_real_file_field());
        assert_eq!(read_field(f, &e), Answer::Ready(None));
        assert_eq!(get_field_value(&e, f), Answer::Ready(String::new()));
    }
}

#[test]
fn member_of_an_archive_has_its_own_values() {
    let e = member("docs/.notes.txt");
    assert!(holds("name = 'docs/.notes.txt'", &e) && holds("path = '*.txt'", &e));
    assert!(holds("size = 77", &e) && holds("is_file = true", &e) && holds("is_dir = false", &e));
    assert!(holds("is_symlink = false", &e) && holds("is_hidden = true", &e));
    assert!(holds("modified = 2018-05", &e) && holds("mode = '-rw-------'", &e));
    assert!(holds("user_read = true", &e) && holds("other_read = false", &e));
    assert!(holds("is_archive = false", &e) && holds("is_doc = false", &e));
    assert!(holds("is_archive = true", &member("inner/y.ZIP")));
    assert!(holds("is_image = true", &member("x.png")) && !holds("is_image = true", &e));
    assert!(holds("is_source != true", &member("x.png")));
    assert!(holds("is_dir = true", &member("docs/")));
    assert_eq!(get_field_value(&e, Field::Name), Answer::Ready("[z.zip] docs/.notes.txt".to_string()));
    assert_eq!(get_field_value(&e, Field::Path), Answer::Ready("[/data/z.zip] docs/.notes.txt".to_string()));
    assert_eq!(get_field_value(&e, Field::Size), Answer::Ready("77".to_string()));
    assert_eq!(get_field_value(&e, Field::Modified), Answer::Ready("2018-05-06 07:08:09".to_string()));
    assert_eq!(get_field_value(&e, Field::IsArchive), Answer::Ready("true".to_string()));
    assert_eq!(read_field(Field::Size, &e), Answer::Ready(Some(FieldValue::Number(77))));
}

#[test]
fn what_a_field_shows() {
    let e = known("a.txt", 1536);
    assert_eq!(get_field_value(&e, Field::Name), Answer::Ready("a.txt".to_string()));
    assert_eq!(get_field_value(&e, Field::Path), Answer::Ready("/data/a.txt".to_string()));
    assert_eq!(get_field_value(&e, Field::Size), Answer::Ready("1536".to_string()));
    assert_eq!(get_field_value(&e, Field::FormattedSize), Answer::Ready("1.50 KiB".to_string()));
    assert_eq!(get_field_value(&e, Field::IsDir), Answer::Ready("false".to_string()));
    assert_eq!(get_field_value(&e, Field::IsFile), Answer::Ready("true".to_string()));
    assert_eq!(get_field_value(&e, Field::Mode), Answer::Ready("-rwxr-xr--".to_string()));
    assert_eq!(get_field_value(&e, Field::Uid), Answer::Ready("1000".to_string()));
    assert_eq!(get_field_value(&e, Field::User), Answer::Ready("alice".to_string()));
    assert_eq!(get_field_value(&e, Field::Group), Answer::Ready("staff".to_string()));
    assert_eq!(get_field_value(&e, Field::Created), Answer::Ready("2019-12-31 23:59:59".to_string()));
    assert_eq!(get_field_value(&e, Field::Modified), Answer::Ready("2020-03-15 12:00:00".to_string()));
    assert_eq!(get_field_value(&e, Field::Width), Answer::Ready(String::new()));
    assert_eq!(get_field_value(&e, Field::IsSource), Answer::Ready("false".to_string()));
    assert_eq!(get_field_value(&fresh("a"), Field::Size), Answer::Needs(Source::Metadata));
    assert_eq!(get_field_value(&fresh("a"), Field::Name), Answer::Ready("a".to_string()));
}

#[test]
fn functions_of_columns() {
    assert_eq!(get_function_value(Function::Lower, "ÄbC"), "äbc");
    assert_eq!(get_function_value(Function::Upper, "straße"), "STRASSE");
    assert_eq!(get_function_value(Function::Length, "äbc"), "3");
    assert_eq!(get_function_value(Function::Length, ""), "0");
    assert_eq!(get_function_value(Function::Year, "2020-03-15 12:00:00"), "2020");
    assert_eq!(get_function_value(Function::Month, "2020-03-15 12:00:00"), "3");
    assert_eq!(get_function_value(Function::Day, "2020-03-15"), "15");
    assert_eq!(get_function_value(Function::Year, "soon"), "");
    assert_eq!(get_function_value(Function::Count, "x"), "");
    let e = known("Ab.txt", 1);
    let q = Parser::new().parse("upper(lower(name)), length(name), year(modified), yes").unwrap();
    assert_eq!(get_column_expr_value(&e, &q.fields[0]), Answer::Ready("AB.TXT".to_string()));
    assert_eq!(get_column_expr_value(&e, &q.fields[1]), Answer::Ready("6".to_string()));
    assert_eq!(get_column_expr_value(&e, &q.fields[2]), Answer::Ready("2020".to_string()));
    assert_eq!(get_column_expr_value(&e, &q.fields[3]), Answer::Ready("yes".to_string()));
    assert_eq!(get_column_expr_value(&fresh("a"), &q.fields[2]), Answer::Needs(Source::Metadata));
}

#[test]
fn a_verdict_stands_when_more_is_fetched() {
    let mut e = fresh("a.txt");
    let x = condition("name = a.txt or size > 5");
    let early = conforms(&x, &e);
    e.meta = Slot::Loaded(meta(1));
    e.settle();
    assert_eq!(conforms(&x, &e), early);
}

#[test]
fn giving_up_keeps_what_is_known() {
    let mut e = fresh("a");
    e.meta = Slot::Loaded(meta(3));
    e.give_up(Source::Metadata);
    assert_eq!(e.meta, Slot::Loaded(meta(3)));
    e.give_up(Source::Audio);
    assert_eq!(e.audio, Slot::Missing);
    e.supply_group(None);
    assert_eq!(e.group, Slot::Missing);
    e.supply_group(Some("late".to_string()));
    assert_eq!(e.group, Slot::Missing);
    e.supply_user(Some("u".to_string()));
    assert_eq!(e.user, Slot::Loaded("u".to_string()));
    let odd = DateTime { year: 7, month: 13, day: 40, hour: 99, minute: 5, second: 123 };
    assert_eq!(odd.format(), "0007-13-40 99:05:123");
    assert!(!odd.is_valid());
}
