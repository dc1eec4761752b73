//! The filters of `.gitignore` files, kept for each directory and handed
//! down to the directories below it.
use crate::pattern::{
    is_match, is_meta, is_meta_char, pattern_matches, wildcard_body, wildcard_piece,
};
use crate::text::{chars_eq, chars_of, string_of};
use crate::value::base_start;
use vstd::prelude::*;

verus! {

/// A line of a `.gitignore` file as a regular expression on paths.
#[derive(Clone, Debug, PartialEq, Eq)]
pub struct GitignoreFilter {
    /// The regular expression that the paths to leave out match.
    pub pattern: String,
    /// Whether the line speaks of directories only.
    pub only_dir: bool,
}

/// A filter as a mathematical object.
pub struct FilterView {
    pub pattern: Seq<char>,
    pub only_dir: bool,
}

impl View for GitignoreFilter {
    type V = FilterView;

    open spec fn view(&self) -> FilterView {
        FilterView { pattern: self.pattern@, only_dir: self.only_dir }
    }
}

pub open spec fn filters_view(v: Seq<GitignoreFilter>) -> Seq<FilterView> {
    Seq::new(v.len(), |i: int| v[i]@)
}

/// Whether a filter leaves a path out: its expression matches the path,
/// and the path is a directory where the filter asks for one.
pub open spec fn filter_applies(f: FilterView, path: Seq<char>, is_dir: bool) -> bool {
    (f.only_dir ==> is_dir) && pattern_matches(f.pattern, path)
}

/// Whether one of the filters leaves a path out.
pub open spec fn ignored(filters: Seq<FilterView>, path: Seq<char>, is_dir: bool) -> bool {
    exists|i: int| 0 <= i < filters.len() && filter_applies(#[trigger] filters[i], path, is_dir)
}

/// The one form in which a directory is written: without `/` at its end,
/// except for the root `/` itself. `/tmp/` and `/tmp` are one directory, and
/// this is how it is kept, looked up and written into a pattern.
pub open spec fn dir_form(path: Seq<char>) -> Seq<char>
    decreases path.len(),
{
    if path.len() > 1 && path.last() == '/' {
        dir_form(path.drop_last())
    } else {
        path
    }
}

/// What the path of every entry of a directory begins with: the directory
/// and a `/`.
pub open spec fn dir_prefix(dir: Seq<char>) -> Seq<char> {
    let d = dir_form(dir);
    if d.len() == 0 || d.last() == '/' {
        d
    } else {
        d.push('/')
    }
}

/// The directory that holds `path`, for a path with `/` between its
/// components: the path up to its last `/`, in its one form; the root for
/// what stands directly in it; nothing for the root itself and for a path
/// without `/`.
pub open spec fn parent_of(path: Seq<char>) -> Option<Seq<char>> {
    let b = base_start(path);
    if b <= 0 || b > path.len() {
        None
    } else if b == 1 {
        if path.len() > 1 {
            Some(seq!['/'])
        } else {
            None
        }
    } else {
        Some(dir_form(path.take(b - 1)))
    }
}

/// Whether `above` is a directory that `dir` stands in, directly or
/// further down.
pub open spec fn stands_above(above: Seq<char>, dir: Seq<char>) -> bool
    decreases dir.len(),
{
    match parent_of(dir) {
        Some(p) => p.len() < dir.len() && (above == p || stands_above(above, p)),
        None => false,
    }
}

/// The filters that were kept last for a directory; none where none were
/// kept.
pub open spec fn own_filters(dirs: Seq<(Seq<char>, Seq<FilterView>)>, dir: Seq<char>) -> Seq<
    FilterView,
>
    decreases dirs.len(),
{
    if dirs.len() == 0 {
        Seq::empty()
    } else if dirs.last().0 == dir {
        dirs.last().1
    } else {
        own_filters(dirs.drop_last(), dir)
    }
}

/// The filters that hold in a directory that is written in its one form:
/// those of the directories above it, from the outermost in, and then its
/// own.
pub open spec fn inherited(dirs: Seq<(Seq<char>, Seq<FilterView>)>, dir: Seq<char>) -> Seq<
    FilterView,
>
    decreases dir.len(),
{
    match parent_of(dir) {
        Some(p) => if p.len() < dir.len() {
            inherited(dirs, p) + own_filters(dirs, dir)
        } else {
            own_filters(dirs, dir)
        },
        None => own_filters(dirs, dir),
    }
}

/// The filters that hold in a directory, however it is written.
pub open spec fn filters_in(dirs: Seq<(Seq<char>, Seq<FilterView>)>, dir: Seq<char>) -> Seq<
    FilterView,
> {
    inherited(dirs, dir_form(dir))
}

/// The regular expression that matches exactly `s`.
pub open spec fn literal_body(s: Seq<char>) -> Seq<char>
    decreases s.len(),
{
    if s.len() == 0 {
        Seq::empty()
    } else if is_meta(s.last()) {
        literal_body(s.drop_last()) + seq!['\\', s.last()]
    } else {
        literal_body(s.drop_last()).push(s.last())
    }
}

/// A line of a `.gitignore` file without the `/` that may end it.
pub open spec fn without_end_slash(line: Seq<char>) -> Seq<char> {
    if line.len() > 0 && line.last() == '/' {
        line.drop_last()
    } else {
        line
    }
}

/// The filter that a line of the `.gitignore` file of a directory stands
/// for; none for an empty line, a comment, which begins with `#`, and an
/// exception, which begins with `!`.
///
/// A line that ends in `/` speaks of directories only. A line that begins
/// with `/` speaks of what stands in the directory itself, any other line of
/// what stands in it or anywhere below it. In between, `*` stands for any run
/// of characters and `?` for any one character.
pub open spec fn line_filter(dir: Seq<char>, line: Seq<char>) -> Option<FilterView> {
    if line.len() == 0 || line[0] == '#' || line[0] == '!' {
        None
    } else {
        let body = without_end_slash(line);
        let anchored = body.len() > 0 && body[0] == '/';
        let name = if anchored {
            body.subrange(1, body.len() as int)
        } else {
            body
        };
        let below = if anchored {
            Seq::<char>::empty()
        } else {
            seq!['(', '.', '*', '/', ')', '?']
        };
        Some(
            FilterView {
                pattern: seq!['^'] + literal_body(dir_prefix(dir)) + below + wildcard_body(name)
                    + seq!['$'],
                only_dir: line.last() == '/',
            },
        )
    }
}

fn push_literal(out: &mut Vec<char>, s: &Vec<char>)
    ensures
        final(out)@ == old(out)@ + literal_body(s@),
{
    let mut i: usize = 0;
    assert(out@ =~= old(out)@ + literal_body(s@.take(0)));
    while i < s.len()
        invariant
            i <= s.len(),
            out@ == old(out)@ + literal_body(s@.take(i as int)),
        decreases s.len() - i,
    {
        let ghost before = out@;
        if is_meta_char(s[i]) {
            out.push('\\');
        }
        out.push(s[i]);
        i += 1;
        proof {
            assert(s@.take(i as int).drop_last() =~= s@.take(i - 1));
            assert(s@.take(i as int).last() == s@[i - 1]);
            assert(out@ =~= old(out)@ + literal_body(s@.take(i as int)));
        }
    }
    assert(s@.take(s.len() as int) =~= s@);
}

fn push_wildcards(out: &mut Vec<char>, s: &Vec<char>, from: usize)
    requires
        from <= s.len(),
    ensures
        final(out)@ == old(out)@ + wildcard_body(s@.subrange(from as int, s@.len() as int)),
{
    let ghost name = s@.subrange(from as int, s@.len() as int);
    let mut i: usize = from;
    assert(out@ =~= old(out)@ + wildcard_body(name.take(0)));
    while i < s.len()
        invariant
            from <= i <= s.len(),
            name == s@.subrange(from as int, s@.len() as int),
            out@ == old(out)@ + wildcard_body(name.take(i - from)),
        decreases s.len() - i,
    {
        let c = s[i];
        let ghost before = out@;
        if c == '*' {
            out.push('.');
            out.push('*');
        } else if c == '?' {
            out.push('.');
        } else if is_meta_char(c) {
            out.push('\\');
            out.push(c);
        } else {
            out.push(c);
        }
        i += 1;
        proof {
            assert(name.take(i - from).drop_last() =~= name.take(i - from - 1));
            assert(name.take(i - from).last() == c);
            assert(out@ =~= before + wildcard_piece(c));
            assert(out@ =~= old(out)@ + wildcard_body(name.take(i - from)));
        }
    }
    assert(name.take(s.len() - from) =~= name);
}

/// Reads a line of the `.gitignore` file of a directory.
pub fn parse_gitignore_line(dir: &str, line: &str) -> (r: Option<GitignoreFilter>)
    ensures
        r.is_some() == line_filter(dir@, line@).is_some(),
        r.is_some() ==> r.unwrap()@ == line_filter(dir@, line@).unwrap(),
{
    let mut l = chars_of(line);
    if l.len() == 0 || l[0] == '#' || l[0] == '!' {
        return None;
    }
    let only_dir = l[l.len() - 1] == '/';
    if only_dir {
        l.pop();
        assert(l@ =~= without_end_slash(line@));
    }
    let anchored = l.len() > 0 && l[0] == '/';
    let mut out: Vec<char> = Vec::new();
    out.push('^');
    let mut prefix = dir_chars(chars_of(dir));
    if prefix.len() > 0 && prefix[prefix.len() - 1] != '/' {
        prefix.push('/');
    }
    assert(prefix@ =~= dir_prefix(dir@));
    push_literal(&mut out, &prefix);
    if anchored {
        push_wildcards(&mut out, &l, 1);
    } else {
        out.push('(');
        out.push('.');
        out.push('*');
        out.push('/');
        out.push(')');
        out.push('?');
        assert(l@.subrange(0, l@.len() as int) =~= l@);
        push_wildcards(&mut out, &l, 0);
    }
    out.push('$');
    let pattern = string_of(&out);
    assert(pattern@ =~= line_filter(dir@, line@).unwrap().pattern);
    Some(GitignoreFilter { pattern, only_dir })
}

/// The filters that the lines of the `.gitignore` file of a directory
/// stand for, in the order of the lines.
pub open spec fn lines_filters(dir: Seq<char>, lines: Seq<Seq<char>>) -> Seq<FilterView>
    decreases lines.len(),
{
    if lines.len() == 0 {
        Seq::empty()
    } else {
        match line_filter(dir, lines.last()) {
            Some(f) => lines_filters(dir, lines.drop_last()).push(f),
            None => lines_filters(dir, lines.drop_last()),
        }
    }
}

/// Reads the lines of the `.gitignore` file of a directory.
pub fn parse_gitignore(dir: &str, lines: &Vec<String>) -> (r: Vec<GitignoreFilter>)
    ensures
        filters_view(r@) == lines_filters(dir@, crate::text::texts(lines@)),
{
    let ghost all = crate::text::texts(lines@);
    let mut out: Vec<GitignoreFilter> = Vec::new();
    let mut i: usize = 0;
    assert(filters_view(out@) =~= lines_filters(dir@, all.take(0)));
    while i < lines.len()
        invariant
            i <= lines.len(),
            all == crate::text::texts(lines@),
            filters_view(out@) == lines_filters(dir@, all.take(i as int)),
        decreases lines.len() - i,
    {
        proof {
            assert(all.take(i + 1).drop_last() =~= all.take(i as int));
            assert(all.take(i + 1).last() == lines@[i as int]@);
        }
        let ghost before = filters_view(out@);
        match parse_gitignore_line(dir, lines[i].as_str()) {
            Some(f) => {
                out.push(f);
                assert(filters_view(out@) =~= before.push(f@));
            },
            None => {},
        }
        i += 1;
    }
    assert(all.take(lines.len() as int) =~= all);
    out
}

/// The filters of the directories that have a `.gitignore` file.
pub struct GitignoreMap {
    pub dirs: Vec<(String, Vec<GitignoreFilter>)>,
}

impl View for GitignoreMap {
    type V = Seq<(Seq<char>, Seq<FilterView>)>;

    open spec fn view(&self) -> Seq<(Seq<char>, Seq<FilterView>)> {
        Seq::new(self.dirs@.len(), |i: int| (self.dirs@[i].0@, filters_view(self.dirs@[i].1@)))
    }
}

fn copy_filters(out: &mut Vec<GitignoreFilter>, filters: &Vec<GitignoreFilter>)
    ensures
        filters_view(final(out)@) == filters_view(old(out)@) + filters_view(filters@),
{
    let mut i: usize = 0;
    assert(filters_view(out@) =~= filters_view(old(out)@) + filters_view(filters@).take(0));
    while i < filters.len()
        invariant
            i <= filters.len(),
            filters_view(out@) == filters_view(old(out)@) + filters_view(filters@).take(i as int),
        decreases filters.len() - i,
    {
        let ghost before = filters_view(out@);
        let f = GitignoreFilter {
            pattern: filters[i].pattern.clone(),
            only_dir: filters[i].only_dir,
        };
        out.push(f);
        i += 1;
        proof {
            assert(filters_view(out@) =~= before.push(filters@[i - 1]@));
            assert(filters_view(out@) =~= filters_view(old(out)@) + filters_view(filters@).take(
                i as int,
            ));
        }
    }
    assert(filters_view(filters@).take(filters.len() as int) =~= filters_view(filters@));
}

/// A text without `/` at its end, except for `/` itself.
pub fn dir_chars(path: Vec<char>) -> (r: Vec<char>)
    ensures
        r@ == dir_form(path@),
        r@.len() <= path@.len(),
{
    let mut v = path;
    while v.len() > 1 && v[v.len() - 1] == '/'
        invariant
            dir_form(v@) == dir_form(path@),
            v@.len() <= path@.len(),
        decreases v.len(),
    {
        let ghost before = v@;
        v.pop();
        assert(v@ =~= before.drop_last());
    }
    v
}

/// The one form in which a directory is written.
pub fn dir_string(path: &str) -> (r: String)
    ensures
        r@ == dir_form(path@),
{
    string_of(&dir_chars(chars_of(path)))
}

/// The directory that holds `path`.
pub fn parent_dir(path: &str) -> (r: Option<String>)
    ensures
        r.is_some() == parent_of(path@).is_some(),
        r.is_some() ==> r.unwrap()@ == parent_of(path@).unwrap(),
        r.is_some() ==> r.unwrap()@.len() < path@.len(),
{
    let v = chars_of(path);
    let mut i: usize = v.len();
    assert(v@.take(v.len() as int) =~= v@);
    while i > 0 && v[i - 1] != '/'
        invariant
            i <= v.len(),
            base_start(v@) == base_start(v@.take(i as int)),
        decreases i,
    {
        proof {
            assert(v@.take(i as int).drop_last() =~= v@.take(i - 1));
            assert(v@.take(i as int).last() == v@[i - 1]);
        }
        i -= 1;
    }
    proof {
        if i > 0 {
            assert(v@.take(i as int).last() == v@[i - 1]);
            assert(base_start(v@.take(i as int)) == i);
        } else {
            assert(v@.take(0).len() == 0);
        }
    }
    if i == 0 {
        None
    } else if i == 1 {
        if v.len() > 1 {
            let mut root: Vec<char> = Vec::new();
            root.push('/');
            assert(root@ =~= seq!['/']);
            Some(string_of(&root))
        } else {
            None
        }
    } else {
        let mut out: Vec<char> = Vec::new();
        let mut k: usize = 0;
        while k < i - 1
            invariant
                k <= i - 1,
                i <= v.len(),
                out@ == v@.take(k as int),
            decreases i - 1 - k,
        {
            out.push(v[k]);
            k += 1;
            assert(out@ =~= v@.take(k as int));
        }
        Some(string_of(&dir_chars(out)))
    }
}

/// Whether one of the filters leaves a path out.
pub fn matches_gitignore_filter(filters: &Vec<GitignoreFilter>, path: &str, is_dir: bool) -> (b:
    bool)
    ensures
        b == ignored(filters_view(filters@), path@, is_dir),
{
    let mut i: usize = 0;
    while i < filters.len()
        invariant
            i <= filters.len(),
            forall|j: int|
                0 <= j < i ==> !filter_applies(#[trigger] filters_view(filters@)[j], path@, is_dir),
        decreases filters.len() - i,
    {
        if (!filters[i].only_dir || is_dir) && is_match(filters[i].pattern.as_str(), path) {
            assert(filter_applies(filters_view(filters@)[i as int], path@, is_dir));
            return true;
        }
        i += 1;
    }
    false
}

/// Whether a candidate is passed over: `.gitignore` files count, and one
/// of the filters that hold in its directory leaves it out.
pub fn is_excluded(apply_gitignore: bool, filters: &Vec<GitignoreFilter>, path: &str, is_dir: bool)
    -> (b: bool)
    ensures
        b == (apply_gitignore && ignored(filters_view(filters@), path@, is_dir)),
{
    apply_gitignore && matches_gitignore_filter(filters, path, is_dir)
}

impl GitignoreMap {
    pub fn new() -> (m: GitignoreMap)
        ensures
            m@ == Seq::<(Seq<char>, Seq<FilterView>)>::empty(),
    {
        let m = GitignoreMap { dirs: Vec::new() };
        assert(m@ =~= Seq::<(Seq<char>, Seq<FilterView>)>::empty());
        m
    }

    /// Keeps the filters of a directory, under the one form of its name.
    /// They take the place of what was kept for it before.
    pub fn insert(&mut self, dir: String, filters: Vec<GitignoreFilter>)
        ensures
            final(self)@ == old(self)@.push((dir_form(dir@), filters_view(filters@))),
    {
        let key = dir_string(dir.as_str());
        self.dirs.push((key, filters));
        assert(self@ =~= old(self)@.push((dir_form(dir@), filters_view(filters@))));
    }

    fn push_own(&self, out: &mut Vec<GitignoreFilter>, dir: &str)
        ensures
            filters_view(final(out)@) == filters_view(old(out)@) + own_filters(self@, dir@),
    {
        let key = chars_of(dir);
        let mut i: usize = self.dirs.len();
        assert(self@.take(i as int) =~= self@);
        while i > 0
            invariant
                i <= self.dirs.len(),
                key@ == dir@,
                out@ == old(out)@,
                own_filters(self@, dir@) == own_filters(self@.take(i as int), dir@),
            decreases i,
        {
            proof {
                assert(self@.take(i as int).drop_last() =~= self@.take(i - 1));
                assert(self@.take(i as int).last() == self@[i - 1]);
            }
            i -= 1;
            if chars_eq(&chars_of(self.dirs[i].0.as_str()), &key) {
                copy_filters(out, &self.dirs[i].1);
                return ;
            }
        }
        assert(self@.take(0).len() == 0);
        assert(filters_view(out@) + Seq::<FilterView>::empty() =~= filters_view(out@));
    }

    fn push_inherited(&self, out: &mut Vec<GitignoreFilter>, dir: &str)
        ensures
            filters_view(final(out)@) == filters_view(old(out)@) + inherited(self@, dir@),
        decreases dir@.len(),
    {
        match parent_dir(dir) {
            Some(p) => {
                self.push_inherited(out, p.as_str());
                let ghost mid = filters_view(out@);
                self.push_own(out, dir);
                assert(filters_view(out@) =~= filters_view(old(out)@) + (inherited(self@, p@)
                    + own_filters(self@, dir@)));
            },
            None => {
                self.push_own(out, dir);
            },
        }
    }

    /// The filters that hold in a directory, however it is written: those
    /// of every directory above it that has some, from the outermost in, and
    /// then its own. The map stays as it is.
    pub fn get_gitignore_filters(&self, dir: &str) -> (r: Vec<GitignoreFilter>)
        ensures
            filters_view(r@) == filters_in(self@, dir@),
    {
        let mut out: Vec<GitignoreFilter> = Vec::new();
        assert(filters_view(out@) =~= Seq::<FilterView>::empty());
        let d = dir_string(dir);
        self.push_inherited(&mut out, d.as_str());
        assert(Seq::<FilterView>::empty() + inherited(self@, d@) =~= inherited(self@, d@));
        out
    }
}

/// A filter of a directory above holds below: what it leaves out is left
/// out by the filters of every directory under it.
pub proof fn lemma_filters_are_inherited(
    dirs: Seq<(Seq<char>, Seq<FilterView>)>,
    dir: Seq<char>,
    path: Seq<char>,
    is_dir: bool,
)
    requires
        parent_of(dir) is Some,
        ignored(inherited(dirs, parent_of(dir).unwrap()), path, is_dir),
    ensures
        ignored(inherited(dirs, dir), path, is_dir),
{
    let p = parent_of(dir).unwrap();
    let above = inherited(dirs, p);
    let i = choose|i: int| 0 <= i < above.len() && filter_applies(#[trigger] above[i], path, is_dir);
    assert(p.len() < dir.len()) by {
        let b = base_start(dir);
        if b != 1 {
            assert(dir.take(b - 1).len() == b - 1);
            lemma_dir_form_is_a_form(dir.take(b - 1));
        }
    }
    assert(inherited(dirs, dir)[i] == above[i]);
}

/// What the filters of a directory itself leave out is left out in it.
pub proof fn lemma_own_filters_hold(
    dirs: Seq<(Seq<char>, Seq<FilterView>)>,
    dir: Seq<char>,
    path: Seq<char>,
    is_dir: bool,
)
    requires
        ignored(own_filters(dirs, dir), path, is_dir),
    ensures
        ignored(inherited(dirs, dir), path, is_dir),
{
    let own = own_filters(dirs, dir);
    let i = choose|i: int| 0 <= i < own.len() && filter_applies(#[trigger] own[i], path, is_dir);
    let all = inherited(dirs, dir);
    let offset = all.len() - own.len();
    assert(all[offset + i] == own[i]);
}

/// A `/` at the end of the name of a directory makes no other directory
/// of it.
pub proof fn lemma_dir_form_drops_slash(path: Seq<char>)
    requires
        path.len() >= 1,
    ensures
        dir_form(path.push('/')) == dir_form(path),
{
    assert(path.push('/').drop_last() =~= path);
}

/// The one form of a directory is a form: it is no longer than the text it
/// was made of, and it is its own form.
pub proof fn lemma_dir_form_is_a_form(path: Seq<char>)
    ensures
        dir_form(path).len() <= path.len(),
        dir_form(dir_form(path)) == dir_form(path),
    decreases path.len(),
{
    if path.len() > 1 && path.last() == '/' {
        lemma_dir_form_is_a_form(path.drop_last());
    }
}

/// The filters of every directory above hold below: what the filters kept
/// for any directory that `dir` stands in leave out is left out in `dir`.
pub proof fn lemma_filters_from_above(
    dirs: Seq<(Seq<char>, Seq<FilterView>)>,
    above: Seq<char>,
    dir: Seq<char>,
    path: Seq<char>,
    is_dir: bool,
)
    requires
        stands_above(above, dir),
        ignored(own_filters(dirs, above), path, is_dir),
    ensures
        ignored(inherited(dirs, dir), path, is_dir),
    decreases dir.len(),
{
    let p = parent_of(dir).unwrap();
    if above == p {
        lemma_own_filters_hold(dirs, p, path, is_dir);
    } else {
        lemma_filters_from_above(dirs, above, p, path, is_dir);
    }
    lemma_filters_are_inherited(dirs, dir, path, is_dir);
}

} // verus!
