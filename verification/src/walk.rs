//! The walk through the directories of a root: which directory is listed
//! next, and which of its entries is a candidate.
//!
//! The walk itself reads nothing. It asks for a directory to be listed, is
//! told what the directory holds, and hands the entries out one by one, each
//! directory before what stands in it.
use crate::gitignore::{dir_form, dir_string, filters_view, ignored, is_excluded, GitignoreFilter};
use crate::query::Root;
use crate::value::{ends_with_one_of, is_zip_archive, zip_archive_extensions};
use vstd::prelude::*;

verus! {

/// Whether the entries at a level are candidates: the level is not above
/// the first level of the root nor below its last, where 0 sets no bound.
/// The entries of the root itself are at level 1.
pub open spec fn in_window(depth: u32, min_depth: u32, max_depth: u32) -> bool {
    (min_depth == 0 || depth >= min_depth) && (max_depth == 0 || depth <= max_depth)
}

/// Whether a directory at a level holds candidates at some level below:
/// it does unless the last level of the root is reached.
pub open spec fn goes_deeper(depth: u32, max_depth: u32) -> bool {
    max_depth == 0 || depth < max_depth
}

/// Whether the members of a file are candidates: the root asks for
/// archives, and the file is named like a ZIP archive.
pub open spec fn opens_archive(archives: bool, file_name: Seq<char>) -> bool {
    archives && ends_with_one_of(file_name, zip_archive_extensions())
}

pub fn should_check(root: &Root, depth: u32) -> (b: bool)
    ensures
        b == in_window(depth, root.min_depth, root.max_depth),
{
    (root.min_depth == 0 || depth >= root.min_depth) && (root.max_depth == 0 || depth
        <= root.max_depth)
}

pub fn should_descend(root: &Root, depth: u32) -> (b: bool)
    ensures
        b == goes_deeper(depth, root.max_depth),
{
    root.max_depth == 0 || depth < root.max_depth
}

pub fn should_open_archive(root: &Root, file_name: &str) -> (b: bool)
    ensures
        b == opens_archive(root.archives, file_name@),
{
    root.archives && is_zip_archive(file_name)
}

/// Below the last level that holds candidates there are none: a walk that
/// stops where `should_descend` says so misses nothing.
pub proof fn lemma_nothing_below_the_window(depth: u32, deeper: u32, min_depth: u32, max_depth: u32)
    requires
        !goes_deeper(depth, max_depth),
        deeper > depth,
    ensures
        !in_window(deeper, min_depth, max_depth),
{
}

/// What the listing of a directory says of one of its entries.
#[derive(Clone, Debug, PartialEq, Eq)]
pub struct Child {
    pub name: String,
    pub path: String,
    pub is_dir: bool,
}

/// A directory that is being walked through.
#[derive(Debug, PartialEq, Eq)]
pub struct Frame {
    /// The level of the entries of the directory.
    pub depth: u32,
    pub children: Vec<Child>,
    /// The number of entries that were looked at.
    pub next: usize,
    /// The filters of `.gitignore` files that hold in the directory.
    pub filters: Vec<GitignoreFilter>,
}

/// What the walk asks for next.
#[derive(Clone, Debug, PartialEq, Eq)]
pub enum Action {
    /// List this directory, and tell the walk what it holds.
    Open { dir: String, with_gitignore: bool },
    /// This entry is a candidate where `check` says so, and its members
    /// are candidates where `members` says so. One of the two does.
    Visit { name: String, path: String, check: bool, members: bool },
    /// The walk is over.
    Done,
}

/// Where a walk stands.
pub struct WalkState {
    /// The directories that are being walked through, the root first.
    pub frames: Seq<Frame>,
    /// The directory that is to be listed next, with the level of its
    /// entries.
    pub to_open: Option<(String, u32)>,
}

/// The first entries of a frame were looked at, and one more.
pub open spec fn moved_on(f: Frame) -> Frame {
    Frame { next: (f.next + 1) as usize, ..f }
}

/// Whether a frame has no entry left to look at.
pub open spec fn used_up(f: Frame) -> bool {
    f.next >= f.children@.len() || f.next >= usize::MAX
}

/// The entries of the innermost directory that are still to be looked at.
pub open spec fn left_in_top(frames: Seq<Frame>) -> int {
    if frames.len() == 0 || used_up(frames.last()) {
        0
    } else {
        frames.last().children@.len() - frames.last().next
    }
}

/// What a walk does next, and where it stands then.
///
/// A directory that waits to be listed is listed first. Else the next entry
/// of the innermost directory is looked at; a directory without another
/// entry is left. An entry that the filters of the directory leave out is
/// passed over, with all that stands in it. Any other entry is handed out if
/// its level is one of the levels of the root or if it is an archive to look
/// into, and is listed next if it is a directory and the root goes deeper.
pub open spec fn advance(root: Root, st: WalkState) -> (WalkState, Action)
    decreases st.frames.len(), left_in_top(st.frames),
{
    match st.to_open {
        Some((dir, depth)) => (st, Action::Open { dir, with_gitignore: root.gitignore }),
        None => if st.frames.len() == 0 {
            (st, Action::Done)
        } else {
            let top = st.frames.last();
            if used_up(top) {
                advance(root, WalkState { frames: st.frames.drop_last(), to_open: None })
            } else {
                let c = top.children@[top.next as int];
                let frames = st.frames.drop_last().push(moved_on(top));
                if root.gitignore && ignored(filters_view(top.filters@), c.path@, c.is_dir) {
                    advance(root, WalkState { frames, to_open: None })
                } else {
                    let descend = c.is_dir && goes_deeper(top.depth, root.max_depth) && top.depth
                        < u32::MAX;
                    let then = WalkState {
                        frames,
                        to_open: if descend {
                            Some((c.path, (top.depth + 1) as u32))
                        } else {
                            None
                        },
                    };
                    let check = in_window(top.depth, root.min_depth, root.max_depth);
                    let members = opens_archive(root.archives, c.name@);
                    if check || members {
                        (then, Action::Visit { name: c.name, path: c.path, check, members })
                    } else if descend {
                        (then, Action::Open { dir: c.path, with_gitignore: root.gitignore })
                    } else {
                        advance(root, WalkState { frames, to_open: None })
                    }
                }
            }
        },
    }
}

/// A walk through the directories of a root.
pub struct Walker {
    pub root: Root,
    pub frames: Vec<Frame>,
    pub to_open: Option<(String, u32)>,
}

impl View for Walker {
    type V = WalkState;

    open spec fn view(&self) -> WalkState {
        WalkState { frames: self.frames@, to_open: self.to_open }
    }
}

impl Walker {
    /// A walk that begins with the listing of the root, which is asked for
    /// in the one form of its name.
    pub fn new(root: Root) -> (w: Walker)
        ensures
            w.root == root,
            w@.frames.len() == 0,
            w@.to_open matches Some((dir, depth)) && dir@ == dir_form(root.path@) && depth == 1,
    {
        let dir = dir_string(root.path.as_str());
        Walker { root, frames: Vec::new(), to_open: Some((dir, 1)) }
    }

    /// What the walk asks for next. A search that has all the rows it asked
    /// for says so with `full`, and the walk is over.
    pub fn next(&mut self, full: bool) -> (a: Action)
        ensures
            final(self).root == old(self).root,
            full ==> a == Action::Done && final(self)@ == old(self)@,
            !full ==> (final(self)@, a) == advance(old(self).root, old(self)@),
    {
        if full {
            return Action::Done;
        }
        match &self.to_open {
            Some((dir, depth)) => {
                return Action::Open { dir: dir.clone(), with_gitignore: self.root.gitignore };
            },
            None => {},
        }
        loop
            invariant
                !full,
                self.root == old(self).root,
                self.to_open is None,
                advance(self.root, self@) == advance(old(self).root, old(self)@),
            decreases self.frames.len(), left_in_top(self.frames@),
        {
            if self.frames.len() == 0 {
                return Action::Done;
            }
            let ghost before = self.frames@;
            let mut top = self.frames.pop().unwrap();
            assert(self.frames@ =~= before.drop_last());
            if top.next >= top.children.len() {
                continue ;
            }
            let name = top.children[top.next].name.clone();
            let path = top.children[top.next].path.clone();
            let is_dir = top.children[top.next].is_dir;
            let depth = top.depth;
            let excluded = is_excluded(self.root.gitignore, &top.filters, path.as_str(), is_dir);
            let ghost seen = top;
            top.next = top.next + 1;
            assert(top == moved_on(seen));
            self.frames.push(top);
            assert(self.frames@ =~= before.drop_last().push(moved_on(seen)));
            if excluded {
                continue ;
            }
            let descend = is_dir && should_descend(&self.root, depth) && depth < u32::MAX;
            let check = should_check(&self.root, depth);
            if descend {
                self.to_open = Some((path.clone(), depth + 1));
            }
            let members = should_open_archive(&self.root, name.as_str());
            if check || members {
                return Action::Visit { name, path, check, members };
            } else if descend {
                return Action::Open { dir: path, with_gitignore: self.root.gitignore };
            }
        }
    }

    /// Tells the walk what the directory that it asked for holds, and the
    /// filters of `.gitignore` files that hold in it. `None` stands for a
    /// directory that cannot be listed, or for what is no directory at all:
    /// nothing of it is walked through.
    pub fn opened(&mut self, listing: Option<Vec<Child>>, filters: Vec<GitignoreFilter>)
        ensures
            final(self).root == old(self).root,
            final(self)@.to_open is None,
            match (old(self)@.to_open, listing) {
                (Some((dir, depth)), Some(children)) => final(self)@.frames == old(
                    self,
                )@.frames.push(Frame { depth, children, next: 0, filters }),
                _ => final(self)@.frames == old(self)@.frames,
            },
    {
        let waiting = self.to_open.take();
        match (waiting, listing) {
            (Some((dir, depth)), Some(children)) => {
                self.frames.push(Frame { depth, children, next: 0, filters });
            },
            _ => {},
        }
    }
}

/// An entry that the walk hands out is one that no filter of its directory
/// leaves out: with `.gitignore` files in force, what they exclude is never a
/// candidate.
pub proof fn lemma_candidates_pass_the_filters(root: Root, st: WalkState)
    requires
        st.to_open is None,
        advance(root, st).1 is Visit,
        root.gitignore,
    ensures
        exists|k: int, i: int|
            0 <= k < st.frames.len() && 0 <= i < (#[trigger] st.frames[k]).children@.len() && (
            #[trigger] st.frames[k].children@[i]).path == advance(root, st).1->Visit_path
                && !ignored(
                filters_view(st.frames[k].filters@),
                st.frames[k].children@[i].path@,
                st.frames[k].children@[i].is_dir,
            ),
    decreases st.frames.len(), left_in_top(st.frames),
{
    let top = st.frames.last();
    let k = st.frames.len() - 1;
    if used_up(top) {
        let rest = WalkState { frames: st.frames.drop_last(), to_open: None };
        lemma_candidates_pass_the_filters(root, rest);
        let (k2, i2) = choose|k2: int, i2: int|
            0 <= k2 < rest.frames.len() && 0 <= i2 < (#[trigger] rest.frames[k2]).children@.len()
                && (#[trigger] rest.frames[k2].children@[i2]).path == advance(
                root,
                rest,
            ).1->Visit_path && !ignored(
                filters_view(rest.frames[k2].filters@),
                rest.frames[k2].children@[i2].path@,
                rest.frames[k2].children@[i2].is_dir,
            );
        assert(st.frames[k2] == rest.frames[k2]);
    } else {
        let c = top.children@[top.next as int];
        let frames = st.frames.drop_last().push(moved_on(top));
        let on = WalkState { frames, to_open: None };
        let skipped = ignored(filters_view(top.filters@), c.path@, c.is_dir);
        let descend = c.is_dir && goes_deeper(top.depth, root.max_depth) && top.depth < u32::MAX;
        if !skipped && (in_window(top.depth, root.min_depth, root.max_depth) || opens_archive(
            root.archives,
            c.name@,
        )) {
            assert(st.frames[k].children@[top.next as int] == c);
        } else if !skipped && descend {
        } else {
            lemma_candidates_pass_the_filters(root, on);
            let (k2, i2) = choose|k2: int, i2: int|
                0 <= k2 < on.frames.len() && 0 <= i2 < (#[trigger] on.frames[k2]).children@.len()
                    && (#[trigger] on.frames[k2].children@[i2]).path == advance(
                    root,
                    on,
                ).1->Visit_path && !ignored(
                    filters_view(on.frames[k2].filters@),
                    on.frames[k2].children@[i2].path@,
                    on.frames[k2].children@[i2].is_dir,
                );
            if k2 == k {
                assert(on.frames[k2] == moved_on(top));
                assert(st.frames[k].children@[i2] == on.frames[k2].children@[i2]);
            } else {
                assert(st.frames[k2] == on.frames[k2]);
            }
        }
    }
}

} // verus!
