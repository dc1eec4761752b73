//! The attributes of a file that a query can select and test.
use crate::text::{chars_eq, chars_of, lower_ascii, to_lower_ascii};
use vstd::prelude::*;

verus! {

/// A selectable attribute of a file.
#[derive(Clone, Copy, Debug, PartialEq, Eq, Structural, Hash)]
pub enum Field {
    Name,
    Path,
    Size,
    FormattedSize,
    IsDir,
    IsFile,
    IsSymlink,
    IsPipe,
    IsCharacterDevice,
    IsBlockDevice,
    IsSocket,
    Mode,
    UserRead,
    UserWrite,
    UserExec,
    GroupRead,
    GroupWrite,
    GroupExec,
    OtherRead,
    OtherWrite,
    OtherExec,
    IsHidden,
    Uid,
    Gid,
    User,
    Group,
    Created,
    Accessed,
    Modified,
    HasXattrs,
    IsShebang,
    Width,
    Height,
    Bitrate,
    Freq,
    Title,
    Artist,
    Album,
    Year,
    Genre,
    IsArchive,
    IsAudio,
    IsBook,
    IsDoc,
    IsImage,
    IsSource,
    IsVideo,
}

/// How the value of a field is read in a comparison.
#[derive(Clone, Copy, Debug, PartialEq, Eq, Structural)]
pub enum FieldKind {
    /// Compared as text, or matched by a pattern.
    Text,
    /// Compared as an unsigned number.
    Number,
    /// True or false.
    Flag,
    /// A moment, compared with a range of moments.
    Time,
}

impl Field {
    /// The name under which a query selects the field.
    pub open spec fn label(self) -> Seq<char> {
        match self {
            Field::Name => "name"@,
            Field::Path => "path"@,
            Field::Size => "size"@,
            Field::FormattedSize => "fsize"@,
            Field::IsDir => "is_dir"@,
            Field::IsFile => "is_file"@,
            Field::IsSymlink => "is_symlink"@,
            Field::IsPipe => "is_pipe"@,
            Field::IsCharacterDevice => "is_char"@,
            Field::IsBlockDevice => "is_block"@,
            Field::IsSocket => "is_socket"@,
            Field::Mode => "mode"@,
            Field::UserRead => "user_read"@,
            Field::UserWrite => "user_write"@,
            Field::UserExec => "user_exec"@,
            Field::GroupRead => "group_read"@,
            Field::GroupWrite => "group_write"@,
            Field::GroupExec => "group_exec"@,
            Field::OtherRead => "other_read"@,
            Field::OtherWrite => "other_write"@,
            Field::OtherExec => "other_exec"@,
            Field::IsHidden => "is_hidden"@,
            Field::Uid => "uid"@,
            Field::Gid => "gid"@,
            Field::User => "user"@,
            Field::Group => "group"@,
            Field::Created => "created"@,
            Field::Accessed => "accessed"@,
            Field::Modified => "modified"@,
            Field::HasXattrs => "has_xattrs"@,
            Field::IsShebang => "is_shebang"@,
            Field::Width => "width"@,
            Field::Height => "height"@,
            Field::Bitrate => "bitrate"@,
            Field::Freq => "freq"@,
            Field::Title => "title"@,
            Field::Artist => "artist"@,
            Field::Album => "album"@,
            Field::Year => "year"@,
            Field::Genre => "genre"@,
            Field::IsArchive => "is_archive"@,
            Field::IsAudio => "is_audio"@,
            Field::IsBook => "is_book"@,
            Field::IsDoc => "is_doc"@,
            Field::IsImage => "is_image"@,
            Field::IsSource => "is_source"@,
            Field::IsVideo => "is_video"@,
        }
    }

    /// The field that a word of a query names, whatever its case, if any.
    /// `hsize` is a second name of `fsize`.
    pub open spec fn named(word: Seq<char>) -> Option<Field> {
        let key = lower_ascii(word);
        if key == "name"@ {
            Some(Field::Name)
        } else if key == "path"@ {
            Some(Field::Path)
        } else if key == "size"@ {
            Some(Field::Size)
        } else if key == "fsize"@ {
            Some(Field::FormattedSize)
        } else if key == "is_dir"@ {
            Some(Field::IsDir)
        } else if key == "is_file"@ {
            Some(Field::IsFile)
        } else if key == "is_symlink"@ {
            Some(Field::IsSymlink)
        } else if key == "is_pipe"@ {
            Some(Field::IsPipe)
        } else if key == "is_char"@ {
            Some(Field::IsCharacterDevice)
        } else if key == "is_block"@ {
            Some(Field::IsBlockDevice)
        } else if key == "is_socket"@ {
            Some(Field::IsSocket)
        } else if key == "mode"@ {
            Some(Field::Mode)
        } else if key == "user_read"@ {
            Some(Field::UserRead)
        } else if key == "user_write"@ {
            Some(Field::UserWrite)
        } else if key == "user_exec"@ {
            Some(Field::UserExec)
        } else if key == "group_read"@ {
            Some(Field::GroupRead)
        } else if key == "group_write"@ {
            Some(Field::GroupWrite)
        } else if key == "group_exec"@ {
            Some(Field::GroupExec)
        } else if key == "other_read"@ {
            Some(Field::OtherRead)
        } else if key == "other_write"@ {
            Some(Field::OtherWrite)
        } else if key == "other_exec"@ {
            Some(Field::OtherExec)
        } else if key == "is_hidden"@ {
            Some(Field::IsHidden)
        } else if key == "uid"@ {
            Some(Field::Uid)
        } else if key == "gid"@ {
            Some(Field::Gid)
        } else if key == "user"@ {
            Some(Field::User)
        } else if key == "group"@ {
            Some(Field::Group)
        } else if key == "created"@ {
            Some(Field::Created)
        } else if key == "accessed"@ {
            Some(Field::Accessed)
        } else if key == "modified"@ {
            Some(Field::Modified)
        } else if key == "has_xattrs"@ {
            Some(Field::HasXattrs)
        } else if key == "is_shebang"@ {
            Some(Field::IsShebang)
        } else if key == "width"@ {
            Some(Field::Width)
        } else if key == "height"@ {
            Some(Field::Height)
        } else if key == "bitrate"@ {
            Some(Field::Bitrate)
        } else if key == "freq"@ {
            Some(Field::Freq)
        } else if key == "title"@ {
            Some(Field::Title)
        } else if key == "artist"@ {
            Some(Field::Artist)
        } else if key == "album"@ {
            Some(Field::Album)
        } else if key == "year"@ {
            Some(Field::Year)
        } else if key == "genre"@ {
            Some(Field::Genre)
        } else if key == "is_archive"@ {
            Some(Field::IsArchive)
        } else if key == "is_audio"@ {
            Some(Field::IsAudio)
        } else if key == "is_book"@ {
            Some(Field::IsBook)
        } else if key == "is_doc"@ {
            Some(Field::IsDoc)
        } else if key == "is_image"@ {
            Some(Field::IsImage)
        } else if key == "is_source"@ {
            Some(Field::IsSource)
        } else if key == "is_video"@ {
            Some(Field::IsVideo)
        } else if key == "hsize"@ {
            Some(Field::FormattedSize)
        } else {
            None
        }
    }

    /// How the field is compared.
    pub open spec fn kind(self) -> FieldKind {
        match self {
            Field::Name | Field::Path | Field::Mode | Field::User | Field::Group | Field::Title
            | Field::Artist | Field::Album | Field::Genre => FieldKind::Text,
            Field::Size | Field::FormattedSize | Field::Uid | Field::Gid | Field::Width
            | Field::Height | Field::Bitrate | Field::Freq | Field::Year => FieldKind::Number,
            Field::Created | Field::Accessed | Field::Modified => FieldKind::Time,
            _ => FieldKind::Flag,
        }
    }

    /// Whether the field is read from the tag or the first frame of an audio file.
    pub open spec fn is_audio_field(self) -> bool {
        match self {
            Field::Bitrate | Field::Freq | Field::Title | Field::Artist | Field::Album
            | Field::Year | Field::Genre => true,
            _ => false,
        }
    }

    /// Whether the field exists only for a file of the file system itself:
    /// a member of an archive has no owner, no times but the one of its last
    /// change, no extended attributes and no content to probe.
    pub open spec fn needs_real_file(self) -> bool {
        match self {
            Field::Uid | Field::Gid | Field::User | Field::Group | Field::Created
            | Field::Accessed | Field::HasXattrs | Field::IsShebang | Field::Width
            | Field::Height => true,
            _ => self.is_audio_field(),
        }
    }

    pub fn name(&self) -> (s: &'static str)
        ensures
            s@ == self.label(),
    {
        match self {
            Field::Name => "name",
            Field::Path => "path",
            Field::Size => "size",
            Field::FormattedSize => "fsize",
            Field::IsDir => "is_dir",
            Field::IsFile => "is_file",
            Field::IsSymlink => "is_symlink",
            Field::IsPipe => "is_pipe",
            Field::IsCharacterDevice => "is_char",
            Field::IsBlockDevice => "is_block",
            Field::IsSocket => "is_socket",
            Field::Mode => "mode",
            Field::UserRead => "user_read",
            Field::UserWrite => "user_write",
            Field::UserExec => "user_exec",
            Field::GroupRead => "group_read",
            Field::GroupWrite => "group_write",
            Field::GroupExec => "group_exec",
            Field::OtherRead => "other_read",
            Field::OtherWrite => "other_write",
            Field::OtherExec => "other_exec",
            Field::IsHidden => "is_hidden",
            Field::Uid => "uid",
            Field::Gid => "gid",
            Field::User => "user",
            Field::Group => "group",
            Field::Created => "created",
            Field::Accessed => "accessed",
            Field::Modified => "modified",
            Field::HasXattrs => "has_xattrs",
            Field::IsShebang => "is_shebang",
            Field::Width => "width",
            Field::Height => "height",
            Field::Bitrate => "bitrate",
            Field::Freq => "freq",
            Field::Title => "title",
            Field::Artist => "artist",
            Field::Album => "album",
            Field::Year => "year",
            Field::Genre => "genre",
            Field::IsArchive => "is_archive",
            Field::IsAudio => "is_audio",
            Field::IsBook => "is_book",
            Field::IsDoc => "is_doc",
            Field::IsImage => "is_image",
            Field::IsSource => "is_source",
            Field::IsVideo => "is_video",
        }
    }

    pub fn from_name(word: &str) -> (r: Option<Field>)
        ensures
            r == Field::named(word@),
    {
        let key = to_lower_ascii(&chars_of(word));
        if chars_eq(&key, &chars_of("name")) {
            Some(Field::Name)
        } else if chars_eq(&key, &chars_of("path")) {
            Some(Field::Path)
        } else if chars_eq(&key, &chars_of("size")) {
            Some(Field::Size)
        } else if chars_eq(&key, &chars_of("fsize")) {
            Some(Field::FormattedSize)
        } else if chars_eq(&key, &chars_of("is_dir")) {
            Some(Field::IsDir)
        } else if chars_eq(&key, &chars_of("is_file")) {
            Some(Field::IsFile)
        } else if chars_eq(&key, &chars_of("is_symlink")) {
            Some(Field::IsSymlink)
        } else if chars_eq(&key, &chars_of("is_pipe")) {
            Some(Field::IsPipe)
        } else if chars_eq(&key, &chars_of("is_char")) {
            Some(Field::IsCharacterDevice)
        } else if chars_eq(&key, &chars_of("is_block")) {
            Some(Field::IsBlockDevice)
        } else if chars_eq(&key, &chars_of("is_socket")) {
            Some(Field::IsSocket)
        } else if chars_eq(&key, &chars_of("mode")) {
            Some(Field::Mode)
        } else if chars_eq(&key, &chars_of("user_read")) {
            Some(Field::UserRead)
        } else if chars_eq(&key, &chars_of("user_write")) {
            Some(Field::UserWrite)
        } else if chars_eq(&key, &chars_of("user_exec")) {
            Some(Field::UserExec)
        } else if chars_eq(&key, &chars_of("group_read")) {
            Some(Field::GroupRead)
        } else if chars_eq(&key, &chars_of("group_write")) {
            Some(Field::GroupWrite)
        } else if chars_eq(&key, &chars_of("group_exec")) {
            Some(Field::GroupExec)
        } else if chars_eq(&key, &chars_of("other_read")) {
            Some(Field::OtherRead)
        } else if chars_eq(&key, &chars_of("other_write")) {
            Some(Field::OtherWrite)
        } else if chars_eq(&key, &chars_of("other_exec")) {
            Some(Field::OtherExec)
        } else if chars_eq(&key, &chars_of("is_hidden")) {
            Some(Field::IsHidden)
        } else if chars_eq(&key, &chars_of("uid")) {
            Some(Field::Uid)
        } else if chars_eq(&key, &chars_of("gid")) {
            Some(Field::Gid)
        } else if chars_eq(&key, &chars_of("user")) {
            Some(Field::User)
        } else if chars_eq(&key, &chars_of("group")) {
            Some(Field::Group)
        } else if chars_eq(&key, &chars_of("created")) {
            Some(Field::Created)
        } else if chars_eq(&key, &chars_of("accessed")) {
            Some(Field::Accessed)
        } else if chars_eq(&key, &chars_of("modified")) {
            Some(Field::Modified)
        } else if chars_eq(&key, &chars_of("has_xattrs")) {
            Some(Field::HasXattrs)
        } else if chars_eq(&key, &chars_of("is_shebang")) {
            Some(Field::IsShebang)
        } else if chars_eq(&key, &chars_of("width")) {
            Some(Field::Width)
        } else if chars_eq(&key, &chars_of("height")) {
            Some(Field::Height)
        } else if chars_eq(&key, &chars_of("bitrate")) {
            Some(Field::Bitrate)
        } else if chars_eq(&key, &chars_of("freq")) {
            Some(Field::Freq)
        } else if chars_eq(&key, &chars_of("title")) {
            Some(Field::Title)
        } else if chars_eq(&key, &chars_of("artist")) {
            Some(Field::Artist)
        } else if chars_eq(&key, &chars_of("album")) {
            Some(Field::Album)
        } else if chars_eq(&key, &chars_of("year")) {
            Some(Field::Year)
        } else if chars_eq(&key, &chars_of("genre")) {
            Some(Field::Genre)
        } else if chars_eq(&key, &chars_of("is_archive")) {
            Some(Field::IsArchive)
        } else if chars_eq(&key, &chars_of("is_audio")) {
            Some(Field::IsAudio)
        } else if chars_eq(&key, &chars_of("is_book")) {
            Some(Field::IsBook)
        } else if chars_eq(&key, &chars_of("is_doc")) {
            Some(Field::IsDoc)
        } else if chars_eq(&key, &chars_of("is_image")) {
            Some(Field::IsImage)
        } else if chars_eq(&key, &chars_of("is_source")) {
            Some(Field::IsSource)
        } else if chars_eq(&key, &chars_of("is_video")) {
            Some(Field::IsVideo)
        } else if chars_eq(&key, &chars_of("hsize")) {
            Some(Field::FormattedSize)
        } else {
            None
        }
    }

    pub fn get_kind(&self) -> (k: FieldKind)
        ensures
            k == self.kind(),
    {
        match self {
            Field::Name | Field::Path | Field::Mode | Field::User | Field::Group | Field::Title
            | Field::Artist | Field::Album | Field::Genre => FieldKind::Text,
            Field::Size | Field::FormattedSize | Field::Uid | Field::Gid | Field::Width
            | Field::Height | Field::Bitrate | Field::Freq | Field::Year => FieldKind::Number,
            Field::Created | Field::Accessed | Field::Modified => FieldKind::Time,
            _ => FieldKind::Flag,
        }
    }

    pub fn is_mp3_field(&self) -> (b: bool)
        ensures
            b == self.is_audio_field(),
    {
        match self {
            Field::Bitrate | Field::Freq | Field::Title | Field::Artist | Field::Album
            | Field::Year | Field::Genre => true,
            _ => false,
        }
    }

    pub fn is_real_file_field(&self) -> (b: bool)
        ensures
            b == self.needs_real_file(),
    {
        match self {
            Field::Uid | Field::Gid | Field::User | Field::Group | Field::Created
            | Field::Accessed | Field::HasXattrs | Field::IsShebang | Field::Width
            | Field::Height => true,
            _ => self.is_mp3_field(),
        }
    }
}

/// Reveals what each field name holds, character by character.
pub proof fn reveal_field_names()
    ensures
        "name"@ == seq!['n', 'a', 'm', 'e'],
        "path"@ == seq!['p', 'a', 't', 'h'],
        "size"@ == seq!['s', 'i', 'z', 'e'],
        "fsize"@ == seq!['f', 's', 'i', 'z', 'e'],
        "is_dir"@ == seq!['i', 's', '_', 'd', 'i', 'r'],
        "is_file"@ == seq!['i', 's', '_', 'f', 'i', 'l', 'e'],
        "is_symlink"@ == seq!['i', 's', '_', 's', 'y', 'm', 'l', 'i', 'n', 'k'],
        "is_pipe"@ == seq!['i', 's', '_', 'p', 'i', 'p', 'e'],
        "is_char"@ == seq!['i', 's', '_', 'c', 'h', 'a', 'r'],
        "is_block"@ == seq!['i', 's', '_', 'b', 'l', 'o', 'c', 'k'],
        "is_socket"@ == seq!['i', 's', '_', 's', 'o', 'c', 'k', 'e', 't'],
        "mode"@ == seq!['m', 'o', 'd', 'e'],
        "user_read"@ == seq!['u', 's', 'e', 'r', '_', 'r', 'e', 'a', 'd'],
        "user_write"@ == seq!['u', 's', 'e', 'r', '_', 'w', 'r', 'i', 't', 'e'],
        "user_exec"@ == seq!['u', 's', 'e', 'r', '_', 'e', 'x', 'e', 'c'],
        "group_read"@ == seq!['g', 'r', 'o', 'u', 'p', '_', 'r', 'e', 'a', 'd'],
        "group_write"@ == seq!['g', 'r', 'o', 'u', 'p', '_', 'w', 'r', 'i', 't', 'e'],
        "group_exec"@ == seq!['g', 'r', 'o', 'u', 'p', '_', 'e', 'x', 'e', 'c'],
        "other_read"@ == seq!['o', 't', 'h', 'e', 'r', '_', 'r', 'e', 'a', 'd'],
        "other_write"@ == seq!['o', 't', 'h', 'e', 'r', '_', 'w', 'r', 'i', 't', 'e'],
        "other_exec"@ == seq!['o', 't', 'h', 'e', 'r', '_', 'e', 'x', 'e', 'c'],
        "is_hidden"@ == seq!['i', 's', '_', 'h', 'i', 'd', 'd', 'e', 'n'],
        "uid"@ == seq!['u', 'i', 'd'],
        "gid"@ == seq!['g', 'i', 'd'],
        "user"@ == seq!['u', 's', 'e', 'r'],
        "group"@ == seq!['g', 'r', 'o', 'u', 'p'],
        "created"@ == seq!['c', 'r', 'e', 'a', 't', 'e', 'd'],
        "accessed"@ == seq!['a', 'c', 'c', 'e', 's', 's', 'e', 'd'],
        "modified"@ == seq!['m', 'o', 'd', 'i', 'f', 'i', 'e', 'd'],
        "has_xattrs"@ == seq!['h', 'a', 's', '_', 'x', 'a', 't', 't', 'r', 's'],
        "is_shebang"@ == seq!['i', 's', '_', 's', 'h', 'e', 'b', 'a', 'n', 'g'],
        "width"@ == seq!['w', 'i', 'd', 't', 'h'],
        "height"@ == seq!['h', 'e', 'i', 'g', 'h', 't'],
        "bitrate"@ == seq!['b', 'i', 't', 'r', 'a', 't', 'e'],
        "freq"@ == seq!['f', 'r', 'e', 'q'],
        "title"@ == seq!['t', 'i', 't', 'l', 'e'],
        "artist"@ == seq!['a', 'r', 't', 'i', 's', 't'],
        "album"@ == seq!['a', 'l', 'b', 'u', 'm'],
        "year"@ == seq!['y', 'e', 'a', 'r'],
        "genre"@ == seq!['g', 'e', 'n', 'r', 'e'],
        "is_archive"@ == seq!['i', 's', '_', 'a', 'r', 'c', 'h', 'i', 'v', 'e'],
        "is_audio"@ == seq!['i', 's', '_', 'a', 'u', 'd', 'i', 'o'],
        "is_book"@ == seq!['i', 's', '_', 'b', 'o', 'o', 'k'],
        "is_doc"@ == seq!['i', 's', '_', 'd', 'o', 'c'],
        "is_image"@ == seq!['i', 's', '_', 'i', 'm', 'a', 'g', 'e'],
        "is_source"@ == seq!['i', 's', '_', 's', 'o', 'u', 'r', 'c', 'e'],
        "is_video"@ == seq!['i', 's', '_', 'v', 'i', 'd', 'e', 'o'],
        "hsize"@ == seq!['h', 's', 'i', 'z', 'e'],
{
    reveal_strlit("name");
    assert("name"@ =~= seq!['n', 'a', 'm', 'e']);
    reveal_strlit("path");
    assert("path"@ =~= seq!['p', 'a', 't', 'h']);
    reveal_strlit("size");
    assert("size"@ =~= seq!['s', 'i', 'z', 'e']);
    reveal_strlit("fsize");
    assert("fsize"@ =~= seq!['f', 's', 'i', 'z', 'e']);
    reveal_strlit("is_dir");
    assert("is_dir"@ =~= seq!['i', 's', '_', 'd', 'i', 'r']);
    reveal_strlit("is_file");
    assert("is_file"@ =~= seq!['i', 's', '_', 'f', 'i', 'l', 'e']);
    reveal_strlit("is_symlink");
    assert("is_symlink"@ =~= seq!['i', 's', '_', 's', 'y', 'm', 'l', 'i', 'n', 'k']);
    reveal_strlit("is_pipe");
    assert("is_pipe"@ =~= seq!['i', 's', '_', 'p', 'i', 'p', 'e']);
    reveal_strlit("is_char");
    assert("is_char"@ =~= seq!['i', 's', '_', 'c', 'h', 'a', 'r']);
    reveal_strlit("is_block");
    assert("is_block"@ =~= seq!['i', 's', '_', 'b', 'l', 'o', 'c', 'k']);
    reveal_strlit("is_socket");
    assert("is_socket"@ =~= seq!['i', 's', '_', 's', 'o', 'c', 'k', 'e', 't']);
    reveal_strlit("mode");
    assert("mode"@ =~= seq!['m', 'o', 'd', 'e']);
    reveal_strlit("user_read");
    assert("user_read"@ =~= seq!['u', 's', 'e', 'r', '_', 'r', 'e', 'a', 'd']);
    reveal_strlit("user_write");
    assert("user_write"@ =~= seq!['u', 's', 'e', 'r', '_', 'w', 'r', 'i', 't', 'e']);
    reveal_strlit("user_exec");
    assert("user_exec"@ =~= seq!['u', 's', 'e', 'r', '_', 'e', 'x', 'e', 'c']);
    reveal_strlit("group_read");
    assert("group_read"@ =~= seq!['g', 'r', 'o', 'u', 'p', '_', 'r', 'e', 'a', 'd']);
    reveal_strlit("group_write");
    assert("group_write"@ =~= seq!['g', 'r', 'o', 'u', 'p', '_', 'w', 'r', 'i', 't', 'e']);
    reveal_strlit("group_exec");
    assert("group_exec"@ =~= seq!['g', 'r', 'o', 'u', 'p', '_', 'e', 'x', 'e', 'c']);
    reveal_strlit("other_read");
    assert("other_read"@ =~= seq!['o', 't', 'h', 'e', 'r', '_', 'r', 'e', 'a', 'd']);
    reveal_strlit("other_write");
    assert("other_write"@ =~= seq!['o', 't', 'h', 'e', 'r', '_', 'w', 'r', 'i', 't', 'e']);
    reveal_strlit("other_exec");
    assert("other_exec"@ =~= seq!['o', 't', 'h', 'e', 'r', '_', 'e', 'x', 'e', 'c']);
    reveal_strlit("is_hidden");
    assert("is_hidden"@ =~= seq!['i', 's', '_', 'h', 'i', 'd', 'd', 'e', 'n']);
    reveal_strlit("uid");
    assert("uid"@ =~= seq!['u', 'i', 'd']);
    reveal_strlit("gid");
    assert("gid"@ =~= seq!['g', 'i', 'd']);
    reveal_strlit("user");
    assert("user"@ =~= seq!['u', 's', 'e', 'r']);
    reveal_strlit("group");
    assert("group"@ =~= seq!['g', 'r', 'o', 'u', 'p']);
    reveal_strlit("created");
    assert("created"@ =~= seq!['c', 'r', 'e', 'a', 't', 'e', 'd']);
    reveal_strlit("accessed");
    assert("accessed"@ =~= seq!['a', 'c', 'c', 'e', 's', 's', 'e', 'd']);
    reveal_strlit("modified");
    assert("modified"@ =~= seq!['m', 'o', 'd', 'i', 'f', 'i', 'e', 'd']);
    reveal_strlit("has_xattrs");
    assert("has_xattrs"@ =~= seq!['h', 'a', 's', '_', 'x', 'a', 't', 't', 'r', 's']);
    reveal_strlit("is_shebang");
    assert("is_shebang"@ =~= seq!['i', 's', '_', 's', 'h', 'e', 'b', 'a', 'n', 'g']);
    reveal_strlit("width");
    assert("width"@ =~= seq!['w', 'i', 'd', 't', 'h']);
    reveal_strlit("height");
    assert("height"@ =~= seq!['h', 'e', 'i', 'g', 'h', 't']);
    reveal_strlit("bitrate");
    assert("bitrate"@ =~= seq!['b', 'i', 't', 'r', 'a', 't', 'e']);
    reveal_strlit("freq");
    assert("freq"@ =~= seq!['f', 'r', 'e', 'q']);
    reveal_strlit("title");
    assert("title"@ =~= seq!['t', 'i', 't', 'l', 'e']);
    reveal_strlit("artist");
    assert("artist"@ =~= seq!['a', 'r', 't', 'i', 's', 't']);
    reveal_strlit("album");
    assert("album"@ =~= seq!['a', 'l', 'b', 'u', 'm']);
    reveal_strlit("year");
    assert("year"@ =~= seq!['y', 'e', 'a', 'r']);
    reveal_strlit("genre");
    assert("genre"@ =~= seq!['g', 'e', 'n', 'r', 'e']);
    reveal_strlit("is_archive");
    assert("is_archive"@ =~= seq!['i', 's', '_', 'a', 'r', 'c', 'h', 'i', 'v', 'e']);
    reveal_strlit("is_audio");
    assert("is_audio"@ =~= seq!['i', 's', '_', 'a', 'u', 'd', 'i', 'o']);
    reveal_strlit("is_book");
    assert("is_book"@ =~= seq!['i', 's', '_', 'b', 'o', 'o', 'k']);
    reveal_strlit("is_doc");
    assert("is_doc"@ =~= seq!['i', 's', '_', 'd', 'o', 'c']);
    reveal_strlit("is_image");
    assert("is_image"@ =~= seq!['i', 's', '_', 'i', 'm', 'a', 'g', 'e']);
    reveal_strlit("is_source");
    assert("is_source"@ =~= seq!['i', 's', '_', 's', 'o', 'u', 'r', 'c', 'e']);
    reveal_strlit("is_video");
    assert("is_video"@ =~= seq!['i', 's', '_', 'v', 'i', 'd', 'e', 'o']);
    reveal_strlit("hsize");
    assert("hsize"@ =~= seq!['h', 's', 'i', 'z', 'e']);
}

} // verus!
