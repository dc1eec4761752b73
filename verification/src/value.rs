//! The value of a field for a candidate, as far as it is known.
use crate::datetime::DateTime;
use crate::entry::{AudioInfo, Entry, FileInfo, FileMeta, Slot, Source};
use crate::field::Field;
use crate::mode::{format_mode, is_mode_field, mode_field_value, mode_flag, mode_text, reads_mode};
use crate::text::{
    ascii_lower, chars_end_with, chars_eq, chars_of, ends_with, lower_ascii, lower_char, parse_u64,
    parse_unsigned, starts_with, to_lower_ascii,
};
use vstd::prelude::*;

verus! {

/// What asking for a piece of information gives: the information, or the
/// source that has to be fetched before the question can be answered.
#[derive(Clone, Debug, PartialEq, Eq)]
pub enum Answer<T> {
    Ready(T),
    Needs(Source),
}

/// The value of a field, as a mathematical object.
pub enum Value {
    Text(Seq<char>),
    Number(nat),
    Flag(bool),
    Time(DateTime),
}

/// The value of a field.
#[derive(Clone, Debug, PartialEq, Eq)]
pub enum FieldValue {
    Text(String),
    Number(u64),
    Flag(bool),
    Time(DateTime),
}

impl View for FieldValue {
    type V = Value;

    open spec fn view(&self) -> Value {
        match self {
            FieldValue::Text(s) => Value::Text(s@),
            FieldValue::Number(n) => Value::Number(*n as nat),
            FieldValue::Flag(b) => Value::Flag(*b),
            FieldValue::Time(t) => Value::Time(*t),
        }
    }
}

/// The mathematical form of what `read_field` answers.
pub open spec fn answer_view(a: Answer<Option<FieldValue>>) -> Answer<Option<Value>> {
    match a {
        Answer::Ready(Some(v)) => Answer::Ready(Some(v@)),
        Answer::Ready(None) => Answer::Ready(None),
        Answer::Needs(s) => Answer::Needs(s),
    }
}

pub open spec fn zip_archive_extensions() -> Seq<&'static str> {
    seq![".zip", ".jar", ".war", ".ear"]
}

pub open spec fn archive_extensions() -> Seq<&'static str> {
    seq![".7z", ".bz2", ".bzip2", ".gz", ".gzip", ".rar", ".tar", ".xz", ".zip"]
}

pub open spec fn audio_extensions() -> Seq<&'static str> {
    seq![
        ".aac",
        ".aiff",
        ".amr",
        ".flac",
        ".gsm",
        ".m4a",
        ".m4b",
        ".m4p",
        ".mp3",
        ".ogg",
        ".wav",
        ".wma",
    ]
}

pub open spec fn book_extensions() -> Seq<&'static str> {
    seq![".azw3", ".chm", ".epub", ".fb2", ".mobi", ".pdf"]
}

pub open spec fn doc_extensions() -> Seq<&'static str> {
    seq![
        ".accdb",
        ".doc",
        ".docm",
        ".docx",
        ".dot",
        ".dotm",
        ".dotx",
        ".mdb",
        ".ods",
        ".odt",
        ".pdf",
        ".potm",
        ".potx",
        ".ppt",
        ".pptm",
        ".pptx",
        ".rtf",
        ".xlm",
        ".xls",
        ".xlsm",
        ".xlsx",
        ".xlt",
        ".xltm",
        ".xltx",
        ".xps",
    ]
}

pub open spec fn image_extensions() -> Seq<&'static str> {
    seq![".bmp", ".gif", ".jpeg", ".jpg", ".png", ".tiff", ".webp"]
}

pub open spec fn measurable_image_extensions() -> Seq<&'static str> {
    seq![".bmp", ".gif", ".jpeg", ".jpg", ".png", ".webp"]
}

pub open spec fn source_extensions() -> Seq<&'static str> {
    seq![
        ".asm",
        ".c",
        ".cpp",
        ".cs",
        ".go",
        ".h",
        ".hpp",
        ".java",
        ".js",
        ".jsp",
        ".pas",
        ".php",
        ".pl",
        ".pm",
        ".py",
        ".rb",
        ".rs",
        ".swift",
    ]
}

pub open spec fn video_extensions() -> Seq<&'static str> {
    seq![
        ".3gp",
        ".avi",
        ".flv",
        ".m4p",
        ".m4v",
        ".mkv",
        ".mov",
        ".mp4",
        ".mpeg",
        ".mpg",
        ".webm",
        ".wmv",
    ]
}

/// The file name, with its ASCII letters in lower case, ends with one of
/// the extensions.
pub open spec fn ends_with_one_of(file_name: Seq<char>, extensions: Seq<&str>) -> bool {
    exists|i: int|
        0 <= i < extensions.len() && ends_with(lower_ascii(file_name), (#[trigger] extensions[i])@)
}

/// Whether a field tells the kind of a file by the end of its name.
pub open spec fn is_extension_field(field: Field) -> bool {
    match field {
        Field::IsArchive | Field::IsAudio | Field::IsBook | Field::IsDoc | Field::IsImage
        | Field::IsSource | Field::IsVideo => true,
        _ => false,
    }
}

/// The extensions that make a file one of the kind that `field` asks for.
pub open spec fn extensions_of(field: Field) -> Seq<&'static str> {
    match field {
        Field::IsArchive => archive_extensions(),
        Field::IsAudio => audio_extensions(),
        Field::IsBook => book_extensions(),
        Field::IsDoc => doc_extensions(),
        Field::IsImage => image_extensions(),
        Field::IsSource => source_extensions(),
        Field::IsVideo => video_extensions(),
        _ => Seq::empty(),
    }
}

/// A file begins with the two bytes `#!`.
pub open spec fn starts_with_shebang(bytes: Seq<u8>) -> bool {
    bytes.len() >= 2 && bytes[0] == 0x23 && bytes[1] == 0x21
}

/// Where the last component of a path with `/` between its components
/// begins.
pub open spec fn base_start(path: Seq<char>) -> int
    decreases path.len(),
{
    if path.len() == 0 {
        0
    } else if path.last() == '/' {
        path.len() as int
    } else {
        base_start(path.drop_last())
    }
}

/// A member of an archive is hidden where its path has no `\` and its last
/// component begins with a dot.
pub open spec fn hidden_in_archive(path: Seq<char>) -> bool {
    !path.contains('\\') && base_start(path) < path.len() && path[base_start(path)] == '.'
}

/// The words that stand for "true": `true`, `1` and `yes`, written just
/// so. Anything else stands for "false".
pub open spec fn truthy(s: Seq<char>) -> bool {
    s == "true"@ || s == "1"@ || s == "yes"@
}

/// The factor that a letter at the end of a size stands for.
pub open spec fn size_unit(c: char) -> Option<nat> {
    let l = ascii_lower(c);
    if l == 'k' {
        Some(1024nat)
    } else if l == 'm' {
        Some(1048576nat)
    } else if l == 'g' {
        Some(1073741824nat)
    } else if l == 't' {
        Some(1099511627776nat)
    } else {
        None
    }
}

/// The number of bytes that a size literal such as `10k` or `2M` stands
/// for. `None` where it is no such literal, or stands for more than 64 bits
/// hold.
pub open spec fn parse_size(s: Seq<char>) -> Option<nat> {
    if s.len() > 0 && size_unit(s.last()) is Some {
        let unit = size_unit(s.last()).unwrap();
        match parse_unsigned(s.drop_last(), (u64::MAX as nat) / unit) {
            Some(n) => Some(n * unit),
            None => None,
        }
    } else {
        parse_unsigned(s, u64::MAX as nat)
    }
}

/// What the inode says of a field; `None` where it says nothing of it.
pub open spec fn meta_value(field: Field, m: FileMeta) -> Option<Value> {
    match field {
        Field::Size | Field::FormattedSize => Some(Value::Number(m.size as nat)),
        Field::IsDir => Some(Value::Flag(m.is_dir)),
        Field::IsFile => Some(Value::Flag(m.is_file)),
        Field::IsSymlink => Some(Value::Flag(m.is_symlink)),
        Field::Mode => match m.mode {
            Some(mode) => Some(Value::Text(mode_text(mode))),
            None => None,
        },
        Field::Uid => match m.uid {
            Some(id) => Some(Value::Number(id as nat)),
            None => None,
        },
        Field::Gid => match m.gid {
            Some(id) => Some(Value::Number(id as nat)),
            None => None,
        },
        Field::Created => match m.created {
            Some(t) => Some(Value::Time(t)),
            None => None,
        },
        Field::Accessed => match m.accessed {
            Some(t) => Some(Value::Time(t)),
            None => None,
        },
        Field::Modified => match m.modified {
            Some(t) => Some(Value::Time(t)),
            None => None,
        },
        _ => if is_mode_field(field) {
            match m.mode {
                Some(mode) => Some(Value::Flag(mode_flag(field, mode))),
                None => None,
            }
        } else {
            None
        },
    }
}

/// What an audio file says of a field. A year of 0 stands for no year.
pub open spec fn audio_value(field: Field, a: AudioInfo) -> Option<Value> {
    match field {
        Field::Bitrate => Some(Value::Number(a.bitrate as nat)),
        Field::Freq => Some(Value::Number(a.sampling_freq as nat)),
        _ => match a.tag {
            Some(tag) => match field {
                Field::Title => Some(Value::Text(tag.title@)),
                Field::Artist => Some(Value::Text(tag.artist@)),
                Field::Album => Some(Value::Text(tag.album@)),
                Field::Genre => Some(Value::Text(tag.genre@)),
                Field::Year => if tag.year > 0 {
                    Some(Value::Number(tag.year as nat))
                } else {
                    None
                },
                _ => None,
            },
            None => None,
        },
    }
}

/// The value of a field for a member of an archive. The kind of file goes
/// by the name of the member; the owner, the times of creation and of last
/// access, and whatever is read from the content do not exist.
pub open spec fn member_value(field: Field, info: FileInfo) -> Option<Value> {
    match field {
        Field::Name | Field::Path => Some(Value::Text(info.name@)),
        Field::Size | Field::FormattedSize => Some(Value::Number(info.size as nat)),
        Field::IsDir => Some(Value::Flag(ends_with(info.name@, seq!['/']))),
        Field::IsFile => Some(Value::Flag(!ends_with(info.name@, seq!['/']))),
        Field::IsSymlink => Some(Value::Flag(false)),
        Field::Mode => match info.mode {
            Some(mode) => Some(Value::Text(mode_text(mode))),
            None => None,
        },
        Field::IsHidden => Some(Value::Flag(hidden_in_archive(info.name@))),
        Field::Modified => Some(Value::Time(info.modified)),
        _ => if is_extension_field(field) {
            Some(Value::Flag(ends_with_one_of(info.name@, extensions_of(field))))
        } else if is_mode_field(field) {
            match info.mode {
                Some(mode) => Some(Value::Flag(mode_flag(field, mode))),
                None => None,
            }
        } else {
            None
        },
    }
}

/// What a source that was asked for gives.
pub open spec fn fetch<T>(slot: Slot<T>, source: Source) -> Answer<Option<T>> {
    match slot {
        Slot::Unknown => Answer::Needs(source),
        Slot::Missing => Answer::Ready(None),
        Slot::Loaded(v) => Answer::Ready(Some(v)),
    }
}

/// The value of a field for a file of the file system.
pub open spec fn file_value(field: Field, e: Entry) -> Answer<Option<Value>> {
    match field {
        Field::Name => Answer::Ready(Some(Value::Text(e.name@))),
        Field::Path => Answer::Ready(Some(Value::Text(e.path@))),
        Field::IsHidden => Answer::Ready(
            Some(
                Value::Flag(
                    match e.hidden_attr {
                        Some(b) => b,
                        None => starts_with(e.name@, seq!['.']),
                    },
                ),
            ),
        ),
        Field::HasXattrs => match e.xattrs {
            Slot::Unknown => Answer::Needs(Source::Xattrs),
            Slot::Missing => Answer::Ready(None),
            Slot::Loaded(b) => Answer::Ready(Some(Value::Flag(b))),
        },
        Field::IsShebang => match e.head {
            Slot::Unknown => Answer::Needs(Source::Head),
            Slot::Missing => Answer::Ready(Some(Value::Flag(false))),
            Slot::Loaded(bytes) => Answer::Ready(Some(Value::Flag(starts_with_shebang(bytes@)))),
        },
        Field::Width | Field::Height => if !ends_with_one_of(
            e.name@,
            measurable_image_extensions(),
        ) {
            Answer::Ready(None)
        } else {
            match e.dimensions {
                Slot::Unknown => Answer::Needs(Source::Dimensions),
                Slot::Missing => Answer::Ready(None),
                Slot::Loaded(d) => Answer::Ready(
                    Some(
                        Value::Number(
                            if field == Field::Width {
                                d.width as nat
                            } else {
                                d.height as nat
                            },
                        ),
                    ),
                ),
            }
        },
        Field::User => match e.meta {
            Slot::Unknown => Answer::Needs(Source::Metadata),
            Slot::Missing => Answer::Ready(None),
            Slot::Loaded(m) => if m.uid is Some {
                match e.user {
                    Slot::Unknown => Answer::Needs(Source::UserName),
                    Slot::Missing => Answer::Ready(None),
                    Slot::Loaded(name) => Answer::Ready(Some(Value::Text(name@))),
                }
            } else {
                Answer::Ready(None)
            },
        },
        Field::Group => match e.meta {
            Slot::Unknown => Answer::Needs(Source::Metadata),
            Slot::Missing => Answer::Ready(None),
            Slot::Loaded(m) => if m.gid is Some {
                match e.group {
                    Slot::Unknown => Answer::Needs(Source::GroupName),
                    Slot::Missing => Answer::Ready(None),
                    Slot::Loaded(name) => Answer::Ready(Some(Value::Text(name@))),
                }
            } else {
                Answer::Ready(None)
            },
        },
        _ => if is_extension_field(field) {
            Answer::Ready(Some(Value::Flag(ends_with_one_of(e.name@, extensions_of(field)))))
        } else if field.is_audio_field() {
            match e.audio {
                Slot::Unknown => Answer::Needs(Source::Audio),
                Slot::Missing => Answer::Ready(None),
                Slot::Loaded(a) => Answer::Ready(audio_value(field, a)),
            }
        } else {
            match e.meta {
                Slot::Unknown => Answer::Needs(Source::Metadata),
                Slot::Missing => Answer::Ready(None),
                Slot::Loaded(m) => Answer::Ready(meta_value(field, m)),
            }
        },
    }
}

/// The value of a field for a candidate: `Ready(None)` where the candidate
/// has no such value, `Needs` where a source has to be fetched first.
pub open spec fn field_value(field: Field, e: Entry) -> Answer<Option<Value>> {
    match e.file_info {
        Some(info) => Answer::Ready(member_value(field, info)),
        None => file_value(field, e),
    }
}

/// Whether the file name, whatever the case of its ASCII letters, ends
/// with one of the extensions.
pub fn has_extension(file_name: &str, extensions: &[&str]) -> (r: bool)
    ensures
        r == ends_with_one_of(file_name@, extensions@),
{
    let s = to_lower_ascii(&chars_of(file_name));
    let mut i: usize = 0;
    while i < extensions.len()
        invariant
            i <= extensions.len(),
            s@ == lower_ascii(file_name@),
            forall|j: int| 0 <= j < i ==> !ends_with(s@, (#[trigger] extensions@[j])@),
        decreases extensions.len() - i,
    {
        let ext = chars_of(extensions[i]);
        if chars_end_with(&s, &ext) {
            return true;
        }
        i += 1;
    }
    false
}

pub fn is_zip_archive(file_name: &str) -> (r: bool)
    ensures
        r == ends_with_one_of(file_name@, zip_archive_extensions()),
{
    let exts: [&str; 4] = [".zip", ".jar", ".war", ".ear"];
    assert(exts@ =~= zip_archive_extensions());
    has_extension(file_name, exts.as_slice())
}

pub fn is_archive(file_name: &str) -> (r: bool)
    ensures
        r == ends_with_one_of(file_name@, archive_extensions()),
{
    let exts: [&str; 9] = [".7z", ".bz2", ".bzip2", ".gz", ".gzip", ".rar", ".tar", ".xz", ".zip"];
    assert(exts@ =~= archive_extensions());
    has_extension(file_name, exts.as_slice())
}

pub fn is_audio(file_name: &str) -> (r: bool)
    ensures
        r == ends_with_one_of(file_name@, audio_extensions()),
{
    let exts: [&str; 12] = [
        ".aac",
        ".aiff",
        ".amr",
        ".flac",
        ".gsm",
        ".m4a",
        ".m4b",
        ".m4p",
        ".mp3",
        ".ogg",
        ".wav",
        ".wma",
    ];
    assert(exts@ =~= audio_extensions());
    has_extension(file_name, exts.as_slice())
}

pub fn is_book(file_name: &str) -> (r: bool)
    ensures
        r == ends_with_one_of(file_name@, book_extensions()),
{
    let exts: [&str; 6] = [".azw3", ".chm", ".epub", ".fb2", ".mobi", ".pdf"];
    assert(exts@ =~= book_extensions());
    has_extension(file_name, exts.as_slice())
}

pub fn is_doc(file_name: &str) -> (r: bool)
    ensures
        r == ends_with_one_of(file_name@, doc_extensions()),
{
    let exts: [&str; 25] = [
        ".accdb",
        ".doc",
        ".docm",
        ".docx",
        ".dot",
        ".dotm",
        ".dotx",
        ".mdb",
        ".ods",
        ".odt",
        ".pdf",
        ".potm",
        ".potx",
        ".ppt",
        ".pptm",
        ".pptx",
        ".rtf",
        ".xlm",
        ".xls",
        ".xlsm",
        ".xlsx",
        ".xlt",
        ".xltm",
        ".xltx",
        ".xps",
    ];
    assert(exts@ =~= doc_extensions());
    has_extension(file_name, exts.as_slice())
}

pub fn is_image(file_name: &str) -> (r: bool)
    ensures
        r == ends_with_one_of(file_name@, image_extensions()),
{
    let exts: [&str; 7] = [".bmp", ".gif", ".jpeg", ".jpg", ".png", ".tiff", ".webp"];
    assert(exts@ =~= image_extensions());
    has_extension(file_name, exts.as_slice())
}

pub fn is_image_dim_readable(file_name: &str) -> (r: bool)
    ensures
        r == ends_with_one_of(file_name@, measurable_image_extensions()),
{
    let exts: [&str; 6] = [".bmp", ".gif", ".jpeg", ".jpg", ".png", ".webp"];
    assert(exts@ =~= measurable_image_extensions());
    has_extension(file_name, exts.as_slice())
}

pub fn is_source(file_name: &str) -> (r: bool)
    ensures
        r == ends_with_one_of(file_name@, source_extensions()),
{
    let exts: [&str; 18] = [
        ".asm",
        ".c",
        ".cpp",
        ".cs",
        ".go",
        ".h",
        ".hpp",
        ".java",
        ".js",
        ".jsp",
        ".pas",
        ".php",
        ".pl",
        ".pm",
        ".py",
        ".rb",
        ".rs",
        ".swift",
    ];
    assert(exts@ =~= source_extensions());
    has_extension(file_name, exts.as_slice())
}

pub fn is_video(file_name: &str) -> (r: bool)
    ensures
        r == ends_with_one_of(file_name@, video_extensions()),
{
    let exts: [&str; 12] = [
        ".3gp",
        ".avi",
        ".flv",
        ".m4p",
        ".m4v",
        ".mkv",
        ".mov",
        ".mp4",
        ".mpeg",
        ".mpg",
        ".webm",
        ".wmv",
    ];
    assert(exts@ =~= video_extensions());
    has_extension(file_name, exts.as_slice())
}

pub fn reads_extension(field: Field) -> (b: bool)
    ensures
        b == is_extension_field(field),
{
    match field {
        Field::IsArchive | Field::IsAudio | Field::IsBook | Field::IsDoc | Field::IsImage
        | Field::IsSource | Field::IsVideo => true,
        _ => false,
    }
}

/// Whether the file name is of the kind that `field` asks for.
pub fn extension_field_value(field: Field, file_name: &str) -> (b: bool)
    requires
        is_extension_field(field),
    ensures
        b == ends_with_one_of(file_name@, extensions_of(field)),
{
    match field {
        Field::IsArchive => is_archive(file_name),
        Field::IsAudio => is_audio(file_name),
        Field::IsBook => is_book(file_name),
        Field::IsDoc => is_doc(file_name),
        Field::IsImage => is_image(file_name),
        Field::IsSource => is_source(file_name),
        _ => is_video(file_name),
    }
}

/// Whether the first bytes of a file are `#!`.
pub fn is_shebang(bytes: &Vec<u8>) -> (b: bool)
    ensures
        b == starts_with_shebang(bytes@),
{
    bytes.len() >= 2 && bytes[0] == 0x23 && bytes[1] == 0x21
}

/// Whether a file is hidden: by `hidden_attr` where the system keeps such
/// an attribute; as a member of an archive by the last component of its
/// path; else by a dot at the start of its name.
pub fn is_hidden(file_name: &str, hidden_attr: Option<bool>, archive_mode: bool) -> (b: bool)
    ensures
        b == if archive_mode {
            hidden_in_archive(file_name@)
        } else {
            match hidden_attr {
                Some(h) => h,
                None => starts_with(file_name@, seq!['.']),
            }
        },
{
    let v = chars_of(file_name);
    if archive_mode {
        let mut i: usize = v.len();
        let mut start: usize = 0;
        let mut found: bool = false;
        let mut backslash: bool = false;
        proof {
            assert(v@.take(v.len() as int) =~= v@);
            assert(v@.skip(v.len() as int) =~= Seq::<char>::empty());
        }
        while i > 0
            invariant
                i <= v.len(),
                !found ==> base_start(v@) == base_start(v@.take(i as int)),
                found ==> base_start(v@) == start as int,
                found ==> start <= v.len(),
                !found ==> start == 0,
                backslash == v@.skip(i as int).contains('\\'),
            decreases i,
        {
            i -= 1;
            proof {
                assert(v@.take(i + 1).drop_last() =~= v@.take(i as int));
                assert(v@.take(i + 1).last() == v@[i as int]);
                let tail = v@.skip(i as int);
                let rest = v@.skip(i + 1);
                assert(tail.drop_first() =~= rest);
                if rest.contains('\\') {
                    let k = choose|k: int| 0 <= k < rest.len() && rest[k] == '\\';
                    assert(tail[k + 1] == '\\');
                }
                if tail.contains('\\') && v@[i as int] != '\\' {
                    let k = choose|k: int| 0 <= k < tail.len() && tail[k] == '\\';
                    assert(rest[k - 1] == '\\');
                }
                if v@[i as int] == '\\' {
                    assert(tail[0] == '\\');
                }
            }
            if v[i] == '\\' {
                backslash = true;
            }
            if !found && v[i] == '/' {
                found = true;
                start = i + 1;
            }
        }
        proof {
            assert(v@.skip(0) =~= v@);
            assert(v@.take(0).len() == 0);
            assert(base_start(v@) == start as int);
            assert(backslash == file_name@.contains('\\'));
        }
        !backslash && start < v.len() && v[start] == '.'
    } else {
        match hidden_attr {
            Some(h) => h,
            None => {
                proof {
                    if v@.len() >= 1 {
                        assert(v@.subrange(0, 1) =~= seq![v@[0]]);
                        assert(seq!['.'][0] == '.');
                        assert(v@.subrange(0, 1)[0] == v@[0]);
                        assert(starts_with(file_name@, seq!['.']) == (v@[0] == '.'));
                    }
                }
                v.len() >= 1 && v[0] == '.'
            },
        }
    }
}

/// Whether a word of a query stands for "true".
pub fn str_to_bool(s: &str) -> (b: bool)
    ensures
        b == truthy(s@),
{
    let l = chars_of(s);
    chars_eq(&l, &chars_of("true")) || chars_eq(&l, &chars_of("1")) || chars_eq(
        &l,
        &chars_of("yes"),
    )
}

fn unit_of(c: char) -> (r: Option<u64>)
    ensures
        r.is_some() == size_unit(c).is_some(),
        r.is_some() ==> r.unwrap() as nat == size_unit(c).unwrap(),
{
    let l = lower_char(c);
    if l == 'k' {
        Some(1024)
    } else if l == 'm' {
        Some(1048576)
    } else if l == 'g' {
        Some(1073741824)
    } else if l == 't' {
        Some(1099511627776)
    } else {
        None
    }
}

/// Reads a size: a number of bytes, or a number with `k`, `m`, `g` or `t`
/// behind it, in either case, for multiples of 1024 and its powers.
pub fn parse_filesize(s: &str) -> (r: Option<u64>)
    ensures
        r.is_some() == parse_size(s@).is_some(),
        r.is_some() ==> r.unwrap() as nat == parse_size(s@).unwrap(),
{
    let mut v = chars_of(s);
    if v.len() > 0 {
        if let Some(unit) = unit_of(v[v.len() - 1]) {
            let ghost all = v@;
            v.pop();
            assert(v@ =~= all.drop_last());
            return match parse_u64(&v, u64::MAX / unit) {
                Some(n) => {
                    assert(n * unit <= u64::MAX) by (nonlinear_arith)
                        requires
                            n <= u64::MAX / unit,
                            unit > 0,
                    ;
                    Some(n * unit)
                },
                None => None,
            };
        }
    }
    parse_u64(&v, u64::MAX)
}

fn meta_field(field: Field, m: &FileMeta) -> (r: Option<FieldValue>)
    ensures
        r.is_some() == meta_value(field, *m).is_some(),
        r.is_some() ==> r.unwrap()@ == meta_value(field, *m).unwrap(),
{
    match field {
        Field::Size | Field::FormattedSize => Some(FieldValue::Number(m.size)),
        Field::IsDir => Some(FieldValue::Flag(m.is_dir)),
        Field::IsFile => Some(FieldValue::Flag(m.is_file)),
        Field::IsSymlink => Some(FieldValue::Flag(m.is_symlink)),
        Field::Mode => match m.mode {
            Some(mode) => Some(FieldValue::Text(format_mode(mode))),
            None => None,
        },
        Field::Uid => match m.uid {
            Some(id) => Some(FieldValue::Number(id as u64)),
            None => None,
        },
        Field::Gid => match m.gid {
            Some(id) => Some(FieldValue::Number(id as u64)),
            None => None,
        },
        Field::Created => match m.created {
            Some(t) => Some(FieldValue::Time(t)),
            None => None,
        },
        Field::Accessed => match m.accessed {
            Some(t) => Some(FieldValue::Time(t)),
            None => None,
        },
        Field::Modified => match m.modified {
            Some(t) => Some(FieldValue::Time(t)),
            None => None,
        },
        _ => if reads_mode(field) {
            match m.mode {
                Some(mode) => Some(FieldValue::Flag(mode_field_value(field, mode))),
                None => None,
            }
        } else {
            None
        },
    }
}

fn audio_field(field: Field, a: &AudioInfo) -> (r: Option<FieldValue>)
    ensures
        r.is_some() == audio_value(field, *a).is_some(),
        r.is_some() ==> r.unwrap()@ == audio_value(field, *a).unwrap(),
{
    match field {
        Field::Bitrate => Some(FieldValue::Number(a.bitrate as u64)),
        Field::Freq => Some(FieldValue::Number(a.sampling_freq as u64)),
        _ => match &a.tag {
            Some(tag) => match field {
                Field::Title => Some(FieldValue::Text(tag.title.clone())),
                Field::Artist => Some(FieldValue::Text(tag.artist.clone())),
                Field::Album => Some(FieldValue::Text(tag.album.clone())),
                Field::Genre => Some(FieldValue::Text(tag.genre.clone())),
                Field::Year => if tag.year > 0 {
                    Some(FieldValue::Number(tag.year as u64))
                } else {
                    None
                },
                _ => None,
            },
            None => None,
        },
    }
}

fn member_field(field: Field, info: &FileInfo) -> (r: Option<FieldValue>)
    ensures
        r.is_some() == member_value(field, *info).is_some(),
        r.is_some() ==> r.unwrap()@ == member_value(field, *info).unwrap(),
{
    match field {
        Field::Name | Field::Path => Some(FieldValue::Text(info.name.clone())),
        Field::Size | Field::FormattedSize => Some(FieldValue::Number(info.size)),
        Field::IsDir => {
            let slash: Vec<char> = vec!['/'];
            assert(slash@ =~= seq!['/']);
            Some(FieldValue::Flag(chars_end_with(&chars_of(info.name.as_str()), &slash)))
        },
        Field::IsFile => {
            let slash: Vec<char> = vec!['/'];
            assert(slash@ =~= seq!['/']);
            Some(FieldValue::Flag(!chars_end_with(&chars_of(info.name.as_str()), &slash)))
        },
        Field::IsSymlink => Some(FieldValue::Flag(false)),
        Field::Mode => match info.mode {
            Some(mode) => Some(FieldValue::Text(format_mode(mode))),
            None => None,
        },
        Field::IsHidden => Some(FieldValue::Flag(is_hidden(info.name.as_str(), None, true))),
        Field::Modified => Some(FieldValue::Time(info.modified)),
        _ => if reads_extension(field) {
            Some(FieldValue::Flag(extension_field_value(field, info.name.as_str())))
        } else if reads_mode(field) {
            match info.mode {
                Some(mode) => Some(FieldValue::Flag(mode_field_value(field, mode))),
                None => None,
            }
        } else {
            None
        },
    }
}

fn lift(r: Option<FieldValue>) -> (a: Answer<Option<FieldValue>>)
    ensures
        a == Answer::Ready(r),
{
    Answer::Ready(r)
}

fn file_field(field: Field, e: &Entry) -> (r: Answer<Option<FieldValue>>)
    requires
        e.file_info is None,
    ensures
        answer_view(r) == file_value(field, *e),
{
    match field {
        Field::Name => Answer::Ready(Some(FieldValue::Text(e.name.clone()))),
        Field::Path => Answer::Ready(Some(FieldValue::Text(e.path.clone()))),
        Field::IsHidden => Answer::Ready(
            Some(FieldValue::Flag(is_hidden(e.name.as_str(), e.hidden_attr, false))),
        ),
        Field::HasXattrs => match &e.xattrs {
            Slot::Unknown => Answer::Needs(Source::Xattrs),
            Slot::Missing => Answer::Ready(None),
            Slot::Loaded(b) => Answer::Ready(Some(FieldValue::Flag(*b))),
        },
        Field::IsShebang => match &e.head {
            Slot::Unknown => Answer::Needs(Source::Head),
            Slot::Missing => Answer::Ready(Some(FieldValue::Flag(false))),
            Slot::Loaded(bytes) => Answer::Ready(Some(FieldValue::Flag(is_shebang(bytes)))),
        },
        Field::Width | Field::Height => if !is_image_dim_readable(e.name.as_str()) {
            Answer::Ready(None)
        } else {
            match &e.dimensions {
                Slot::Unknown => Answer::Needs(Source::Dimensions),
                Slot::Missing => Answer::Ready(None),
                Slot::Loaded(d) => Answer::Ready(
                    Some(
                        FieldValue::Number(
                            if field == Field::Width {
                                d.width
                            } else {
                                d.height
                            },
                        ),
                    ),
                ),
            }
        },
        Field::User => match &e.meta {
            Slot::Unknown => Answer::Needs(Source::Metadata),
            Slot::Missing => Answer::Ready(None),
            Slot::Loaded(m) => if m.uid.is_some() {
                match &e.user {
                    Slot::Unknown => Answer::Needs(Source::UserName),
                    Slot::Missing => Answer::Ready(None),
                    Slot::Loaded(name) => Answer::Ready(Some(FieldValue::Text(name.clone()))),
                }
            } else {
                Answer::Ready(None)
            },
        },
        Field::Group => match &e.meta {
            Slot::Unknown => Answer::Needs(Source::Metadata),
            Slot::Missing => Answer::Ready(None),
            Slot::Loaded(m) => if m.gid.is_some() {
                match &e.group {
                    Slot::Unknown => Answer::Needs(Source::GroupName),
                    Slot::Missing => Answer::Ready(None),
                    Slot::Loaded(name) => Answer::Ready(Some(FieldValue::Text(name.clone()))),
                }
            } else {
                Answer::Ready(None)
            },
        },
        _ => if reads_extension(field) {
            Answer::Ready(Some(FieldValue::Flag(extension_field_value(field, e.name.as_str()))))
        } else if field.is_mp3_field() {
            match &e.audio {
                Slot::Unknown => Answer::Needs(Source::Audio),
                Slot::Missing => Answer::Ready(None),
                Slot::Loaded(a) => lift(audio_field(field, a)),
            }
        } else {
            match &e.meta {
                Slot::Unknown => Answer::Needs(Source::Metadata),
                Slot::Missing => Answer::Ready(None),
                Slot::Loaded(m) => lift(meta_field(field, m)),
            }
        },
    }
}

/// Reads the value of a field for a candidate.
pub fn read_field(field: Field, e: &Entry) -> (r: Answer<Option<FieldValue>>)
    ensures
        answer_view(r) == field_value(field, *e),
{
    match &e.file_info {
        Some(info) => lift(member_field(field, info)),
        None => file_field(field, e),
    }
}

/// A member of an archive has no value for a field that exists only for a
/// file of the file system.
pub proof fn lemma_member_lacks_real_fields(field: Field, e: Entry)
    requires
        e.is_virtual(),
        field.needs_real_file(),
    ensures
        field_value(field, e) == Answer::<Option<Value>>::Ready(None),
{
}

/// A question that was answered keeps its answer when more is fetched.
pub proof fn lemma_value_is_stable(field: Field, earlier: Entry, later: Entry)
    requires
        later.filled_from(earlier),
        field_value(field, earlier) is Ready,
    ensures
        field_value(field, later) == field_value(field, earlier),
{
}

/// A question is held up only by a source that nobody has tried to fetch.
pub proof fn lemma_needs_unknown(field: Field, e: Entry, source: Source)
    requires
        field_value(field, e) == Answer::<Option<Value>>::Needs(source),
    ensures
        !e.has(source),
{
}

} // verus!
