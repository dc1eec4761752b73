//! A candidate of a search as plain values: a file of the file system, or a
//! member of an archive, with what is known of it so far.
use crate::datetime::DateTime;
use vstd::prelude::*;

verus! {

/// A piece of information that is fetched only when a query asks for it.
#[derive(Clone, Debug, PartialEq, Eq)]
pub enum Slot<T> {
    /// Nobody has tried to fetch it yet.
    Unknown,
    /// It was asked for and could not be had.
    Missing,
    /// It was fetched.
    Loaded(T),
}

/// Where a piece of information about a file comes from.
#[derive(Clone, Copy, Debug, PartialEq, Eq, Structural)]
pub enum Source {
    /// The inode: size, type, mode, owner and times.
    Metadata,
    /// The width and height that an image file declares.
    Dimensions,
    /// The first frame and the tag of an audio file.
    Audio,
    /// Whether the file has extended attributes.
    Xattrs,
    /// The first bytes of the file.
    Head,
    /// The name of the user that owns the file.
    UserName,
    /// The name of the group that owns the file.
    GroupName,
}

/// What is known of a member of an archive.
#[derive(Clone, Debug, PartialEq, Eq)]
pub struct FileInfo {
    /// The path of the member inside the archive.
    pub name: String,
    pub size: u64,
    /// The Unix mode, where the archive records one.
    pub mode: Option<u32>,
    pub modified: DateTime,
}

/// What the inode of a file says.
#[derive(Clone, Copy, Debug, PartialEq, Eq)]
pub struct FileMeta {
    pub size: u64,
    pub is_dir: bool,
    pub is_file: bool,
    pub is_symlink: bool,
    /// The Unix mode, on systems that have one.
    pub mode: Option<u32>,
    pub uid: Option<u32>,
    pub gid: Option<u32>,
    pub created: Option<DateTime>,
    pub accessed: Option<DateTime>,
    pub modified: Option<DateTime>,
}

/// The size of an image in pixels.
#[derive(Clone, Copy, Debug, PartialEq, Eq)]
pub struct Dimensions {
    pub width: u64,
    pub height: u64,
}

/// The tag of an audio file.
#[derive(Clone, Debug, PartialEq, Eq)]
pub struct AudioTag {
    pub title: String,
    pub artist: String,
    pub album: String,
    pub year: u16,
    pub genre: String,
}

/// What the first frame of an audio file says, and its tag if it has one.
#[derive(Clone, Debug, PartialEq, Eq)]
pub struct AudioInfo {
    pub bitrate: u16,
    pub sampling_freq: u16,
    pub tag: Option<AudioTag>,
}

/// A candidate of a search.
///
/// `name` and `path` are those of the file in the file system. For a member
/// of an archive they are those of the archive, and `file_info` describes
/// the member.
#[derive(Clone, Debug, PartialEq, Eq)]
pub struct Entry {
    pub name: String,
    pub path: String,
    pub file_info: Option<FileInfo>,
    /// On systems where hiding a file is an attribute of the file: that
    /// attribute. Elsewhere `None`, and the name decides.
    pub hidden_attr: Option<bool>,
    pub meta: Slot<FileMeta>,
    pub dimensions: Slot<Dimensions>,
    pub audio: Slot<AudioInfo>,
    pub xattrs: Slot<bool>,
    pub head: Slot<Vec<u8>>,
    pub user: Slot<String>,
    pub group: Slot<String>,
}

impl<T> Slot<T> {
    pub open spec fn known(self) -> bool {
        !(self is Unknown)
    }

    pub fn is_known(&self) -> (b: bool)
        ensures
            b == self.known(),
    {
        match self {
            Slot::Unknown => false,
            _ => true,
        }
    }
}

impl Entry {
    /// Whether the entry stands for a member of an archive.
    pub open spec fn is_virtual(self) -> bool {
        self.file_info is Some
    }

    /// Whether somebody has tried to fetch what `source` gives.
    pub open spec fn has(self, source: Source) -> bool {
        match source {
            Source::Metadata => self.meta.known(),
            Source::Dimensions => self.dimensions.known(),
            Source::Audio => self.audio.known(),
            Source::Xattrs => self.xattrs.known(),
            Source::Head => self.head.known(),
            Source::UserName => self.user.known(),
            Source::GroupName => self.group.known(),
        }
    }

    /// A file of the file system of which nothing was fetched yet.
    pub fn new(name: String, path: String) -> (e: Entry)
        ensures
            e.name == name,
            e.path == path,
            e.file_info is None,
            e.hidden_attr is None,
            forall|s: Source| !e.has(s),
    {
        Entry {
            name,
            path,
            file_info: None,
            hidden_attr: None,
            meta: Slot::Unknown,
            dimensions: Slot::Unknown,
            audio: Slot::Unknown,
            xattrs: Slot::Unknown,
            head: Slot::Unknown,
            user: Slot::Unknown,
            group: Slot::Unknown,
        }
    }

    /// A member of the archive with the given name and path. Nothing can be
    /// fetched for it beyond what `info` holds.
    pub fn member(name: String, path: String, info: FileInfo) -> (e: Entry)
        ensures
            e.name == name,
            e.path == path,
            e.file_info == Some(info),
            e.hidden_attr is None,
            forall|s: Source| e.has(s),
    {
        Entry {
            name,
            path,
            file_info: Some(info),
            hidden_attr: None,
            meta: Slot::Missing,
            dimensions: Slot::Missing,
            audio: Slot::Missing,
            xattrs: Slot::Missing,
            head: Slot::Missing,
            user: Slot::Missing,
            group: Slot::Missing,
        }
    }

    /// The entry with `source` recorded as not to be had, unless it is
    /// known already.
    pub open spec fn given_up(self, source: Source) -> Entry {
        if self.has(source) {
            self
        } else {
            match source {
                Source::Metadata => Entry { meta: Slot::Missing, ..self },
                Source::Dimensions => Entry { dimensions: Slot::Missing, ..self },
                Source::Audio => Entry { audio: Slot::Missing, ..self },
                Source::Xattrs => Entry { xattrs: Slot::Missing, ..self },
                Source::Head => Entry { head: Slot::Missing, ..self },
                Source::UserName => Entry { user: Slot::Missing, ..self },
                Source::GroupName => Entry { group: Slot::Missing, ..self },
            }
        }
    }

    /// The entry with everything that was not fetched recorded as not to
    /// be had.
    pub open spec fn settled(self) -> Entry {
        self.given_up(Source::Metadata).given_up(Source::Dimensions).given_up(
            Source::Audio,
        ).given_up(Source::Xattrs).given_up(Source::Head).given_up(Source::UserName).given_up(
            Source::GroupName,
        )
    }

    /// Records that `source` was asked for and gave nothing, unless it is
    /// known already.
    pub fn give_up(&mut self, source: Source)
        ensures
            *final(self) == old(self).given_up(source),
            final(self).has(source),
            forall|s: Source| s != source ==> final(self).has(s) == old(self).has(s),
            final(self).filled_from(*old(self)),
            !old(self).has(source) ==> final(self).unknown_count() + 1 == old(self).unknown_count(),
    {
        match source {
            Source::Metadata => {
                if !self.meta.is_known() {
                    self.meta = Slot::Missing;
                }
            },
            Source::Dimensions => {
                if !self.dimensions.is_known() {
                    self.dimensions = Slot::Missing;
                }
            },
            Source::Audio => {
                if !self.audio.is_known() {
                    self.audio = Slot::Missing;
                }
            },
            Source::Xattrs => {
                if !self.xattrs.is_known() {
                    self.xattrs = Slot::Missing;
                }
            },
            Source::Head => {
                if !self.head.is_known() {
                    self.head = Slot::Missing;
                }
            },
            Source::UserName => {
                if !self.user.is_known() {
                    self.user = Slot::Missing;
                }
            },
            Source::GroupName => {
                if !self.group.is_known() {
                    self.group = Slot::Missing;
                }
            },
        }
    }

    /// Whether nothing is left to fetch.
    pub open spec fn complete(self) -> bool {
        forall|s: Source| self.has(s)
    }

    /// Records everything that was not fetched as not to be had.
    pub fn settle(&mut self)
        ensures
            *final(self) == old(self).settled(),
            final(self).complete(),
            final(self).filled_from(*old(self)),
    {
        self.give_up(Source::Metadata);
        self.give_up(Source::Dimensions);
        self.give_up(Source::Audio);
        self.give_up(Source::Xattrs);
        self.give_up(Source::Head);
        self.give_up(Source::UserName);
        self.give_up(Source::GroupName);
        assert forall|s: Source| self.has(s) by {
            match s {
                Source::Metadata => {},
                Source::Dimensions => {},
                Source::Audio => {},
                Source::Xattrs => {},
                Source::Head => {},
                Source::UserName => {},
                Source::GroupName => {},
            }
        }
    }

    /// Records the name of the owning user as the system gave it, unless
    /// one is recorded already.
    pub fn supply_user(&mut self, name: Option<String>)
        ensures
            *final(self) == (Entry { user: final(self).user, ..*old(self) }),
            final(self).has(Source::UserName),
            final(self).filled_from(*old(self)),
            !old(self).has(Source::UserName) ==> final(self).user == match name {
                Some(n) => Slot::Loaded(n),
                None => Slot::Missing,
            },
            forall|s: Source| s != Source::UserName ==> final(self).has(s) == old(self).has(s),
    {
        if !self.user.is_known() {
            self.user = match name {
                Some(n) => Slot::Loaded(n),
                None => Slot::Missing,
            };
        }
    }

    /// Records the name of the owning group as the system gave it, unless
    /// one is recorded already.
    pub fn supply_group(&mut self, name: Option<String>)
        ensures
            *final(self) == (Entry { group: final(self).group, ..*old(self) }),
            final(self).has(Source::GroupName),
            final(self).filled_from(*old(self)),
            !old(self).has(Source::GroupName) ==> final(self).group == match name {
                Some(n) => Slot::Loaded(n),
                None => Slot::Missing,
            },
            forall|s: Source| s != Source::GroupName ==> final(self).has(s) == old(self).has(s),
    {
        if !self.group.is_known() {
            self.group = match name {
                Some(n) => Slot::Loaded(n),
                None => Slot::Missing,
            };
        }
    }

    /// `self` is `earlier` with more fetched: what `earlier` knew is
    /// unchanged.
    pub open spec fn filled_from(self, earlier: Entry) -> bool {
        &&& self.name == earlier.name
        &&& self.path == earlier.path
        &&& self.file_info == earlier.file_info
        &&& self.hidden_attr == earlier.hidden_attr
        &&& (earlier.meta.known() ==> self.meta == earlier.meta)
        &&& (earlier.dimensions.known() ==> self.dimensions == earlier.dimensions)
        &&& (earlier.audio.known() ==> self.audio == earlier.audio)
        &&& (earlier.xattrs.known() ==> self.xattrs == earlier.xattrs)
        &&& (earlier.head.known() ==> self.head == earlier.head)
        &&& (earlier.user.known() ==> self.user == earlier.user)
        &&& (earlier.group.known() ==> self.group == earlier.group)
    }

    /// The number of sources that nobody has tried to fetch yet.
    pub open spec fn unknown_count(self) -> nat {
        (if self.meta.known() { 0nat } else { 1nat })
            + (if self.dimensions.known() { 0nat } else { 1nat })
            + (if self.audio.known() { 0nat } else { 1nat })
            + (if self.xattrs.known() { 0nat } else { 1nat })
            + (if self.head.known() { 0nat } else { 1nat })
            + (if self.user.known() { 0nat } else { 1nat })
            + (if self.group.known() { 0nat } else { 1nat })
    }
}

/// Of an entry of which everything that was not fetched is recorded as not
/// to be had, nothing is left to fetch, and what was known is unchanged.
pub proof fn lemma_settled(e: Entry)
    ensures
        e.settled().complete(),
        e.settled().filled_from(e),
{
    assert forall|s: Source| e.settled().has(s) by {
        match s {
            Source::Metadata => {},
            Source::Dimensions => {},
            Source::Audio => {},
            Source::Xattrs => {},
            Source::Head => {},
            Source::UserName => {},
            Source::GroupName => {},
        }
    }
}

/// Giving up a source early changes nothing in the end: the entry is
/// settled as it would have been.
pub proof fn lemma_given_up_then_settled(e: Entry, source: Source)
    ensures
        e.given_up(source).settled() == e.settled(),
{
    match source {
        Source::Metadata => {},
        Source::Dimensions => {},
        Source::Audio => {},
        Source::Xattrs => {},
        Source::Head => {},
        Source::UserName => {},
        Source::GroupName => {},
    }
}

} // verus!
