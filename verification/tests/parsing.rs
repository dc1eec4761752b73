use fselect::datetime::{parse_datetime, DateTime};
use fselect::field::Field;
use fselect::function::Function;
use fselect::lexer::{tokenize, Lexem};
use fselect::parser::{ParseError, Parser};
use fselect::pattern::{convert_glob_to_pattern, is_glob, is_match, is_valid_pattern};
use fselect::query::{ColumnExpr, Expr, LogicalOp, Op, OutputFormat, Query, Root};
use fselect::value::parse_filesize;

fn parse(query: &str) -> Result<Query, ParseError> {
    Parser::new().parse(query)
}

fn leaf(field: Field, op: Op, val: &str) -> Expr {
    Expr::Leaf { field, op, val: val.to_string(), regex: None, range: None }
}

fn raw(s: &str) -> Lexem {
    Lexem::RawString(s.to_string())
}

#[test]
fn and_binds_tighter_than_or() {
    let q = parse("name where name = 1 or size = 2 and uid = 3").unwrap();
    let expected = Expr::Node {
        logical_op: LogicalOp::Or,
        left: Box::new(leaf(Field::Name, Op::Eq, "1")),
        right: Box::new(Expr::Node {
            logical_op: LogicalOp::And,
            left: Box::new(leaf(Field::Size, Op::Eq, "2")),
            right: Box::new(leaf(Field::Uid, Op::Eq, "3")),
        }),
    };
    assert_eq!(q.expr, Some(expected));
}

#[test]
fn brackets_override_precedence() {
    let q = parse("name where (name = 1 or size = 2) and uid = 3").unwrap();
    let expected = Expr::Node {
        logical_op: LogicalOp::And,
        left: Box::new(Expr::Node {
            logical_op: LogicalOp::Or,
            left: Box::new(leaf(Field::Name, Op::Eq, "1")),
            right: Box::new(leaf(Field::Size, Op::Eq, "2")),
        }),
        right: Box::new(leaf(Field::Uid, Op::Eq, "3")),
    };
    assert_eq!(q.expr, Some(expected));
}

#[test]
fn size_literals() {
    assert_eq!(parse_filesize("10k"), Some(10240));
    assert_eq!(parse_filesize("2m"), Some(2097152));
    assert_eq!(parse_filesize("1g"), Some(1073741824));
    assert_eq!(parse_filesize("2M"), Some(2097152));
    assert_eq!(parse_filesize("1t"), Some(1099511627776));
    assert_eq!(parse_filesize("123"), Some(123));
    assert_eq!(parse_filesize("+7"), Some(7));
    assert_eq!(parse_filesize(""), None);
    assert_eq!(parse_filesize("k"), None);
    assert_eq!(parse_filesize("1.5k"), None);
    assert_eq!(parse_filesize("18446744073709551615"), Some(u64::MAX));
    assert_eq!(parse_filesize("18446744073709551616"), None);
    assert_eq!(parse_filesize("18014398509481983k"), Some(18014398509481983 * 1024));
    assert_eq!(parse_filesize("18014398509481984k"), None);
}

#[test]
fn month_expands_to_its_first_and_last_second() {
    let (from, to) = parse_datetime("2020-03").unwrap();
    assert_eq!(from, DateTime { year: 2020, month: 3, day: 1, hour: 0, minute: 0, second: 0 });
    assert_eq!(to, DateTime { year: 2020, month: 3, day: 31, hour: 23, minute: 59, second: 59 });
}

#[test]
fn date_literals_of_each_form() {
    let (from, to) = parse_datetime("2020").unwrap();
    assert_eq!(from, DateTime { year: 2020, month: 1, day: 1, hour: 0, minute: 0, second: 0 });
    assert_eq!(to, DateTime { year: 2020, month: 12, day: 31, hour: 23, minute: 59, second: 59 });
    let (from, to) = parse_datetime("2020-02").unwrap();
    assert_eq!(from.day, 1);
    assert_eq!(to.day, 29);
    let (_, to) = parse_datetime("2021-02").unwrap();
    assert_eq!(to.day, 28);
    let (_, to) = parse_datetime("1900-02").unwrap();
    assert_eq!(to.day, 28);
    let (_, to) = parse_datetime("2000-02").unwrap();
    assert_eq!(to.day, 29);
    let (from, to) = parse_datetime("2020-03-09").unwrap();
    assert_eq!(from, DateTime { year: 2020, month: 3, day: 9, hour: 0, minute: 0, second: 0 });
    assert_eq!(to, DateTime { year: 2020, month: 3, day: 9, hour: 23, minute: 59, second: 59 });
    let (from, to) = parse_datetime("2020-03-09 18:30:05").unwrap();
    assert_eq!(from, DateTime { year: 2020, month: 3, day: 9, hour: 18, minute: 30, second: 5 });
    assert_eq!(to, from);
    assert_eq!(parse_datetime("2020-13"), None);
    assert_eq!(parse_datetime("2020-00"), None);
    assert_eq!(parse_datetime("2020-04-31"), None);
    assert_eq!(parse_datetime("2020-03-09 24:00:00"), None);
    assert_eq!(parse_datetime("2020-03-09 18:60:00"), None);
    assert_eq!(parse_datetime("2020-03-09T18:30:05"), None);
    assert_eq!(parse_datetime("yesterday"), None);
    assert_eq!(parse_datetime(""), None);
}

#[test]
fn date_in_a_condition_gets_its_range() {
    let q = parse("name where modified = 2020-03").unwrap();
    match q.expr {
        Some(Expr::Leaf { field, op, val, regex, range }) => {
            assert_eq!(field, Field::Modified);
            assert_eq!(op, Op::Eq);
            assert_eq!(val, "2020-03");
            assert_eq!(regex, None);
            let (from, to) = range.unwrap();
            assert_eq!(from.format(), "2020-03-01 00:00:00");
            assert_eq!(to.format(), "2020-03-31 23:59:59");
        },
        other => panic!("not a comparison: {:?}", other),
    }
}

#[test]
fn tokens_of_a_query() {
    let tokens = tokenize("name, size from /tmp where size>=10k and name != 'a b'");
    assert_eq!(
        tokens,
        vec![
            raw("name"),
            Lexem::Comma,
            raw("size"),
            raw("from"),
            raw("/tmp"),
            raw("where"),
            raw("size"),
            Lexem::Operator(">=".to_string()),
            raw("10k"),
            raw("and"),
            raw("name"),
            Lexem::Operator("!=".to_string()),
            Lexem::String("a b".to_string()),
        ]
    );
}

#[test]
fn tokens_with_brackets_and_escapes() {
    let tokens = tokenize("count(*)\t\"say \\\"hi\\\"\" 'back\\\\slash' \"\\d+\" 'open");
    assert_eq!(
        tokens,
        vec![
            raw("count"),
            Lexem::Open,
            raw("*"),
            Lexem::Close,
            Lexem::String("say \"hi\"".to_string()),
            Lexem::String("back\\slash".to_string()),
            Lexem::String("\\d+".to_string()),
            Lexem::String("open".to_string()),
        ]
    );
    assert_eq!(tokenize("   "), vec![]);
    assert_eq!(tokenize(""), vec![]);
}

#[test]
fn columns_of_each_kind() {
    let q = parse("name, lower(upper(path)), 'text', 42, count(*)").unwrap();
    assert_eq!(
        q.fields,
        vec![
            ColumnExpr::Field(Field::Name),
            ColumnExpr::Function(
                Function::Lower,
                Box::new(ColumnExpr::Function(
                    Function::Upper,
                    Box::new(ColumnExpr::Field(Field::Path))
                ))
            ),
            ColumnExpr::Value("text".to_string()),
            ColumnExpr::Value("42".to_string()),
            ColumnExpr::Function(Function::Count, Box::new(ColumnExpr::Value("*".to_string()))),
        ]
    );
}

#[test]
fn defaults_of_a_query() {
    let q = parse("NAME").unwrap();
    assert_eq!(q.fields, vec![ColumnExpr::Field(Field::Name)]);
    assert_eq!(
        q.roots,
        vec![Root {
            path: ".".to_string(),
            min_depth: 0,
            max_depth: 0,
            archives: false,
            symlinks: false,
            gitignore: false,
        }]
    );
    assert_eq!(q.expr, None);
    assert!(q.ordering_fields.is_empty());
    assert!(q.ordering_asc.is_empty());
    assert_eq!(q.limit, 0);
    assert_eq!(q.output_format, OutputFormat::Tabs);
}

#[test]
fn roots_with_options() {
    let q = parse("name from /a depth 2 archives, '/b c' mindepth 1 maxdepth 3 symlinks gitignore")
        .unwrap();
    assert_eq!(
        q.roots,
        vec![
            Root {
                path: "/a".to_string(),
                min_depth: 0,
                max_depth: 2,
                archives: true,
                symlinks: false,
                gitignore: false,
            },
            Root {
                path: "/b c".to_string(),
                min_depth: 1,
                max_depth: 3,
                archives: false,
                symlinks: true,
                gitignore: true,
            },
        ]
    );
}

#[test]
fn option_among_the_clauses_is_set_for_every_root() {
    let q = parse("name from /a, /b where size = 1 archives").unwrap();
    assert_eq!(q.roots.len(), 2);
    assert!(q.roots[0].archives);
    assert!(q.roots[1].archives);
    assert!(!q.roots[0].gitignore);
}

#[test]
fn clauses_in_any_order() {
    let q = parse("name into json limit 5 order by size desc, name where size > 1 from /x")
        .unwrap();
    assert_eq!(q.output_format, OutputFormat::Json);
    assert_eq!(q.limit, 5);
    assert_eq!(
        q.ordering_fields,
        vec![ColumnExpr::Field(Field::Size), ColumnExpr::Field(Field::Name)]
    );
    assert_eq!(q.ordering_asc, vec![false, true]);
    assert_eq!(q.expr, Some(leaf(Field::Size, Op::Gt, "1")));
    assert_eq!(q.roots[0].path, "/x");
}

#[test]
fn operators_in_every_spelling() {
    let cases = [
        ("=", Op::Eq),
        ("==", Op::Eq),
        ("eq", Op::Eq),
        ("!=", Op::Ne),
        ("<>", Op::Ne),
        ("NE", Op::Ne),
        ("===", Op::Eeq),
        ("eeq", Op::Eeq),
        ("!==", Op::Ene),
        ("ene", Op::Ene),
        (">", Op::Gt),
        ("gt", Op::Gt),
        (">=", Op::Gte),
        ("gte", Op::Gte),
        ("ge", Op::Gte),
        ("<", Op::Lt),
        ("lt", Op::Lt),
        ("<=", Op::Lte),
        ("lte", Op::Lte),
        ("le", Op::Lte),
    ];
    for (text, op) in cases.iter() {
        let q = parse(&format!("name where size {} 5", text)).unwrap();
        assert_eq!(q.expr, Some(leaf(Field::Size, *op, "5")));
    }
    for text in ["~=", "=~", "regexp", "rx"].iter() {
        let q = parse(&format!("name where name {} 'a+'", text)).unwrap();
        assert_eq!(
            q.expr,
            Some(Expr::Leaf {
                field: Field::Name,
                op: Op::Rx,
                val: "a+".to_string(),
                regex: Some("a+".to_string()),
                range: None,
            })
        );
    }
    let q = parse("name where name like 'a.c'").unwrap();
    assert_eq!(
        q.expr,
        Some(Expr::Leaf {
            field: Field::Name,
            op: Op::Like,
            val: "a.c".to_string(),
            regex: Some("a.c".to_string()),
            range: None,
        })
    );
}

#[test]
fn wildcard_becomes_a_regular_expression() {
    let q = parse("name where name = '*.rs'").unwrap();
    assert_eq!(
        q.expr,
        Some(Expr::Leaf {
            field: Field::Name,
            op: Op::Eq,
            val: "*.rs".to_string(),
            regex: Some("^.*\\.rs$".to_string()),
            range: None,
        })
    );
    let q = parse("name where name === '*.rs'").unwrap();
    assert_eq!(q.expr, Some(leaf(Field::Name, Op::Eeq, "*.rs")));
    assert_eq!(convert_glob_to_pattern("a?b*[c]"), "^a.b.*\\[c\\]$");
    assert_eq!(convert_glob_to_pattern(""), "^$");
    assert_eq!(convert_glob_to_pattern("x+y(z)|{1}^$#&-~\\"), "^x\\+y\\(z\\)\\|\\{1\\}\\^\\$\\#\\&\\-\\~\\\\$");
    assert!(is_glob("*.rs"));
    assert!(is_glob("a?"));
    assert!(!is_glob("plain.txt"));
    assert!(is_match(&convert_glob_to_pattern("*.rs"), "main.rs"));
    assert!(!is_match(&convert_glob_to_pattern("*.rs"), "main.rss"));
    assert!(is_match(&convert_glob_to_pattern("a+b"), "a+b"));
    assert!(!is_match(&convert_glob_to_pattern("a+b"), "aab"));
}

#[test]
fn regular_expressions() {
    assert!(is_valid_pattern("a+"));
    assert!(!is_valid_pattern("a("));
    assert!(is_match("^a+$", "aaa"));
    assert!(!is_match("^a+$", "aab"));
    assert!(is_match("b", "abc"));
    assert!(!is_match("a(", "a("));
    assert!(!is_match("abc", "x"));
}

#[test]
fn each_error() {
    assert_eq!(parse("name where name = 1 )"), Err(ParseError::UnexpectedToken));
    assert_eq!(parse("name where 'x' = 1"), Err(ParseError::UnexpectedToken));
    assert_eq!(parse("name whence"), Err(ParseError::UnexpectedToken));
    assert_eq!(parse(""), Err(ParseError::ExpectedColumn));
    assert_eq!(parse("name,"), Err(ParseError::ExpectedColumn));
    assert_eq!(parse(", name"), Err(ParseError::ExpectedColumn));
    assert_eq!(parse("name where"), Err(ParseError::ExpectedColumn));
    assert_eq!(parse("lower(name"), Err(ParseError::ExpectedClose));
    assert_eq!(parse("name where (size = 1"), Err(ParseError::ExpectedClose));
    assert_eq!(parse("name from"), Err(ParseError::ExpectedRoot));
    assert_eq!(parse("name from /a,"), Err(ParseError::ExpectedRoot));
    assert_eq!(parse("name where size"), Err(ParseError::ExpectedOperator));
    assert_eq!(parse("name where size !~= 1"), Err(ParseError::ExpectedOperator));
    assert_eq!(parse("name where size 5 1"), Err(ParseError::ExpectedOperator));
    assert_eq!(parse("name where size ="), Err(ParseError::ExpectedValue));
    assert_eq!(parse("name where size = ("), Err(ParseError::ExpectedValue));
    assert_eq!(parse("name order size"), Err(ParseError::ExpectedBy));
    assert_eq!(parse("name limit"), Err(ParseError::ExpectedNumber));
    assert_eq!(parse("name from /a depth"), Err(ParseError::ExpectedNumber));
    assert_eq!(parse("name into"), Err(ParseError::ExpectedFormat));
    assert_eq!(parse("name into xml"), Err(ParseError::ExpectedFormat));
    assert_eq!(parse("name limit many"), Err(ParseError::BadNumber));
    assert_eq!(parse("name limit 4294967296"), Err(ParseError::BadNumber));
    assert_eq!(parse("name where size = big"), Err(ParseError::BadNumber));
    assert_eq!(parse("name where uid = 4294967296"), Err(ParseError::BadNumber));
    assert_eq!(parse("name where width = 1k"), Err(ParseError::BadNumber));
    assert_eq!(parse("name where modified = 2020-13"), Err(ParseError::BadDate));
    assert_eq!(parse("name where created = soon"), Err(ParseError::BadDate));
    assert_eq!(parse("name where name ~= 'a('"), Err(ParseError::BadRegex));
    assert_eq!(parse("name where nmae = 1"), Err(ParseError::UnknownField));
    assert_eq!(parse("shout(name)"), Err(ParseError::UnknownField));
}

#[test]
fn the_first_error_is_reported() {
    assert_eq!(parse("name where nmae = 1 limit many"), Err(ParseError::UnknownField));
    assert_eq!(parse("name limit many where nmae = 1"), Err(ParseError::BadNumber));
}

#[test]
fn limit_and_formats() {
    assert_eq!(parse("name limit 4294967295").unwrap().limit, u32::MAX);
    assert_eq!(parse("name limit 0").unwrap().limit, 0);
    assert_eq!(parse("name into TABS").unwrap().output_format, OutputFormat::Tabs);
    assert_eq!(parse("name into lines").unwrap().output_format, OutputFormat::Lines);
    assert_eq!(parse("name into list").unwrap().output_format, OutputFormat::List);
    assert_eq!(parse("name into csv").unwrap().output_format, OutputFormat::Csv);
    assert_eq!(parse("name into json").unwrap().output_format, OutputFormat::Json);
}

#[test]
fn field_names() {
    assert_eq!(Field::from_name("name"), Some(Field::Name));
    assert_eq!(Field::from_name("IS_DIR"), Some(Field::IsDir));
    assert_eq!(Field::from_name("fsize"), Some(Field::FormattedSize));
    assert_eq!(Field::from_name("hsize"), Some(Field::FormattedSize));
    assert_eq!(Field::from_name("has_xattrs"), Some(Field::HasXattrs));
    assert_eq!(Field::from_name("nope"), None);
    assert_eq!(Field::from_name(""), None);
    assert_eq!(Field::Genre.name(), "genre");
    assert_eq!(Field::IsCharacterDevice.name(), "is_char");
    assert_eq!(Function::from_name("COUNT"), Some(Function::Count));
    assert_eq!(Function::from_name("median"), None);
    assert_eq!(Function::Avg.name(), "avg");
    assert!(Function::Sum.is_aggregate_function());
    assert!(!Function::Lower.is_aggregate_function());
}

#[test]
fn reparsing_what_was_parsed() {
    let first = parse("name, size from /tmp where size gt 1k and (name = '*.rs' or is_dir = true) order by size desc limit 3 into csv").unwrap();
    let again = parse("NAME , SIZE FROM '/tmp' WHERE size GT '1k' AND ( name = \"*.rs\" OR is_dir = 'true' ) ORDER BY size DESC LIMIT 3 INTO CSV").unwrap();
    assert_eq!(first, again);
}

#[test]
fn what_was_written_reads_as_the_same_query() {
    let queries = [
        "name",
        "name, size from /tmp where size gt 1k",
        "name from . where name = \"*.rs\"",
        "count(*) from /data where is_image = true",
        "name, size from . order by size desc limit 2",
        "name from . into json where modified = 2020-03",
        "name from z.zip where is_archive = true archives",
        "lower(upper(name)), 'a \"quoted\" \\\\ value', 42 from /a depth 2 archives, '/b c' mindepth 1 maxdepth 3 symlinks gitignore where (name ~= '^a.*\\.txt$' or size >= 10k) and (created lt 2021 or user != root and uid = 0) order by name, size desc, length(path) limit 10 into csv",
        "name where name like 'x' or name === y or name !== z or size < 1 or size <= 1 or size > 1 or size != 1",
        "name where ((size = 1 or size = 2) and size = 3) or size = 4",
        "name where size = 1 and size = 2 and size = 3 or size = 4 or size = 5",
    ];
    for text in queries.iter() {
        let first = parse(text).unwrap();
        let written = fselect::unparse::to_string(&first);
        let again = parse(&written).expect("what was written is a query");
        assert_eq!(again, first, "{}", written);
        assert_eq!(fselect::unparse::to_string(&again), written);
    }
}

#[test]
fn how_a_query_is_written() {
    let q = parse("NAME, count(size) where size gt 1k and (name = 'a\"b' or is_dir = true) order by size desc, name limit 3 into JSON").unwrap();
    assert_eq!(
        fselect::unparse::to_string(&q),
        "name , count ( size ) from \".\" mindepth 0 maxdepth 0 where size > \"1k\" and ( name = \"a\\\"b\" or is_dir = \"true\" ) order by size desc , name limit 3 into json "
    );
    assert_eq!(fselect::unparse::to_lexems(&parse("name").unwrap()).len(), 11);
    assert_eq!(
        fselect::writer::write_tokens(&tokenize("a,b(c) >= 'd e' \"f\\\\g\"")),
        "a , b ( c ) >= \"d e\" \"f\\\\g\" "
    );
    let tokens = tokenize("where x!=\"it's\" , ( 'say \"hi\"' )");
    assert_eq!(tokenize(&fselect::writer::write_tokens(&tokens)), tokens);
}

#[test]
fn what_is_wrong_in_words() {
    assert_eq!(ParseError::BadDate.message(), "this is no date");
    assert_eq!(ParseError::UnknownField.message(), "this is no name of a field or function");
    assert_eq!(ParseError::UnexpectedToken.message(), "unexpected token");
}
