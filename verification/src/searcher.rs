//! The search itself: candidates go in one by one, rows come out.
use crate::aggregate::{aggregate_text, get_aggregate_function_value, raw_view, RawRow};
use crate::entry::{lemma_given_up_then_settled, lemma_settled, Entry, FileMeta, Slot, Source};
use crate::eval::{conforms, holds};
use crate::field::Field;
use crate::gitignore::{
    dir_form, filters_in, filters_view, lines_filters, parse_gitignore, FilterView, GitignoreFilter,
    GitignoreMap,
};
use crate::laws::{lemma_step_is_stable, lemma_step_needs_unknown};
use crate::owner::UsersCache;
use crate::project::{
    column_key, column_text, field_text, get_column_expr_value, get_field_value, lowercase,
};
use crate::query::{ColumnExpr, OutputFormat, Query};
use crate::render::{
    end_text, format_results_row, join_rows, results_end, results_start, row_text, rows_text,
    separator, start_text,
};
use crate::text::{push_str, string_of, texts};
use crate::topn::{inserted, rows_of, ItemView, TopN};
use crate::value::Answer;
use vstd::prelude::*;

verus! {

/// How far a search has come.
pub struct Progress {
    /// The number of candidates accepted so far.
    pub found: nat,
    /// The rows that wait for the end of the search, in their order.
    pub buffer: Seq<ItemView>,
    /// What the summaries will be made of.
    pub raw: Seq<Seq<(Field, Seq<char>)>>,
}

/// What became of a candidate, as a mathematical object.
pub enum Step {
    /// A source has to be fetched before the candidate can be judged or
    /// shown.
    Needs(Source),
    /// The condition of the query does not hold of the candidate.
    Rejected,
    /// The query has all the rows it asked for.
    Full,
    /// The candidate was accepted. `row` is its row; `shown` tells whether
    /// the row is written at once.
    Accepted { progress: Progress, row: Seq<char>, shown: bool },
}

/// What became of a candidate.
#[derive(Clone, Debug, PartialEq, Eq)]
pub enum Checked {
    Needs(Source),
    Rejected,
    Full,
    /// The candidate was accepted. The text is what is to be written at
    /// once, if anything is.
    Accepted(Option<String>),
}

/// The texts of the first `n` columns for a candidate.
pub open spec fn columns_text(cols: Seq<ColumnExpr>, e: Entry, n: int) -> Answer<Seq<Seq<char>>>
    decreases n,
{
    if n <= 0 {
        Answer::Ready(Seq::empty())
    } else {
        match columns_text(cols, e, n - 1) {
            Answer::Needs(s) => Answer::Needs(s),
            Answer::Ready(before) => match column_text(cols[n - 1], e) {
                Answer::Needs(s) => Answer::Needs(s),
                Answer::Ready(t) => Answer::Ready(before.push(t)),
            },
        }
    }
}

/// The fields that the first `n` columns read, each with its text for a
/// candidate.
pub open spec fn raw_text(cols: Seq<ColumnExpr>, e: Entry, n: int) -> Answer<
    Seq<(Field, Seq<char>)>,
>
    decreases n,
{
    if n <= 0 {
        Answer::Ready(Seq::empty())
    } else {
        match raw_text(cols, e, n - 1) {
            Answer::Needs(s) => Answer::Needs(s),
            Answer::Ready(before) => match cols[n - 1].inner_field() {
                Some(f) => match field_text(f, e) {
                    Answer::Needs(s) => Answer::Needs(s),
                    Answer::Ready(t) => Answer::Ready(before.push((f, t))),
                },
                None => Answer::Ready(before),
            },
        }
    }
}

/// The key of each column in a JSON row.
pub open spec fn keys_of(cols: Seq<ColumnExpr>) -> Seq<Seq<char>> {
    Seq::new(cols.len(), |i: int| lowercase(cols[i].label()))
}

/// What the first `n` columns show in the row of summaries; `None` where
/// one of them is the average of no rows.
pub open spec fn summary(cols: Seq<ColumnExpr>, raw: Seq<Seq<(Field, Seq<char>)>>, n: int)
    -> Option<Seq<Seq<char>>>
    decreases n,
{
    if n <= 0 {
        Some(Seq::empty())
    } else {
        match summary(cols, raw, n - 1) {
            Some(before) => match aggregate_text(cols[n - 1], raw) {
                Some(t) => Some(before.push(t)),
                None => None,
            },
            None => None,
        }
    }
}

/// The limit of the buffer of a query: none where the query has none.
pub open spec fn buffer_limit(q: Query) -> Option<u32> {
    if q.limit == 0 {
        None
    } else {
        Some(q.limit)
    }
}

/// Whether a query that writes its rows at once has written as many as it
/// asked for.
pub open spec fn full(q: Query, found: nat) -> bool {
    !q.buffered() && q.limit > 0 && found >= q.limit
}

/// The count of accepted candidates after one more; it stops at the
/// largest number that 64 bits hold.
pub open spec fn counted(found: nat) -> nat {
    if found < u64::MAX {
        found + 1
    } else {
        found
    }
}

/// The state of a search that has seen no candidate.
pub open spec fn start() -> Progress {
    Progress { found: 0, buffer: Seq::empty(), raw: Seq::empty() }
}

/// What a query makes of a candidate at some point of the search.
///
/// A query that writes its rows at once takes no more candidates once it
/// has its limit. Else the condition is judged, then the columns, the sort
/// key and, for a query with summaries, the fields of the columns are read;
/// the first source that one of them lacks is reported, and nothing changes.
/// An accepted candidate is counted. Its row is written at once, or it goes
/// into the buffer under its sort key; with summaries, its fields are kept
/// as well.
pub open spec fn step(q: Query, p: Progress, e: Entry) -> Step {
    if full(q, p.found) {
        Step::Full
    } else {
        match (match q.expr {
            Some(x) => holds(x, e),
            None => Answer::Ready(true),
        }) {
            Answer::Needs(s) => Step::Needs(s),
            Answer::Ready(false) => Step::Rejected,
            Answer::Ready(true) => match columns_text(q.fields@, e, q.fields@.len() as int) {
                Answer::Needs(s) => Step::Needs(s),
                Answer::Ready(values) => match columns_text(
                    q.ordering_fields@,
                    e,
                    q.ordering_fields@.len() as int,
                ) {
                    Answer::Needs(s) => Step::Needs(s),
                    Answer::Ready(key) => match (if q.aggregated() {
                        raw_text(q.fields@, e, q.fields@.len() as int)
                    } else {
                        Answer::Ready(Seq::empty())
                    }) {
                        Answer::Needs(s) => Step::Needs(s),
                        Answer::Ready(raw) => {
                            let row = row_text(q.output_format, keys_of(q.fields@), values);
                            Step::Accepted {
                                progress: Progress {
                                    found: counted(p.found),
                                    buffer: if q.buffered() {
                                        inserted(
                                            p.buffer,
                                            ItemView { key, row },
                                            q.ordering_asc@,
                                            buffer_limit(q),
                                        )
                                    } else {
                                        p.buffer
                                    },
                                    raw: if q.aggregated() {
                                        p.raw.push(raw)
                                    } else {
                                        p.raw
                                    },
                                },
                                row,
                                shown: !q.buffered(),
                            }
                        },
                    },
                },
            },
        }
    }
}

/// What is written at once for an accepted candidate: its row, after a
/// comma in JSON where it is not the first.
pub open spec fn piece(q: Query, found_before: nat, row: Seq<char>) -> Seq<char> {
    if found_before >= 1 {
        separator(q.output_format) + row
    } else {
        row
    }
}

/// What is written when the search is over: for a query with summaries the
/// one row of them, for another query that holds its rows back those rows in
/// their order, and in each case the end of the format. `None` where a
/// summary is the average of no rows.
pub open spec fn closing_text(q: Query, p: Progress) -> Option<Seq<char>> {
    if q.aggregated() {
        match summary(q.fields@, p.raw, q.fields@.len() as int) {
            Some(values) => Some(
                row_text(q.output_format, keys_of(q.fields@), values) + end_text(q.output_format),
            ),
            None => None,
        }
    } else if q.buffered() {
        Some(rows_text(q.output_format, rows_of(p.buffer)) + end_text(q.output_format))
    } else {
        Some(end_text(q.output_format))
    }
}

/// The texts one after another.
pub open spec fn concat(pieces: Seq<Seq<char>>) -> Seq<char>
    decreases pieces.len(),
{
    if pieces.len() == 0 {
        Seq::empty()
    } else {
        concat(pieces.drop_last()) + pieces.last()
    }
}

/// Where a search stands after the first `n` of the candidates, and what
/// it has written for them, piece by piece. A candidate that lacks a source
/// it needs is passed over.
pub open spec fn run(q: Query, p: Progress, entries: Seq<Entry>, n: int) -> (
    Progress,
    Seq<Seq<char>>,
)
    decreases n,
{
    if n <= 0 {
        (p, Seq::empty())
    } else {
        let (before, written) = run(q, p, entries, n - 1);
        match step(q, before, entries[n - 1]) {
            Step::Accepted { progress, row, shown } => (
                progress,
                if shown {
                    written.push(piece(q, before.found, row))
                } else {
                    written
                },
            ),
            _ => (before, written),
        }
    }
}

/// The rows of the candidates that a search accepts among the first `n`,
/// in the order of the candidates.
pub open spec fn accepted_rows(q: Query, p: Progress, entries: Seq<Entry>, n: int) -> Seq<
    Seq<char>,
>
    decreases n,
{
    if n <= 0 {
        Seq::empty()
    } else {
        let before = run(q, p, entries, n - 1).0;
        let rows = accepted_rows(q, p, entries, n - 1);
        match step(q, before, entries[n - 1]) {
            Step::Accepted { progress, row, shown } => rows.push(row),
            _ => rows,
        }
    }
}

/// The candidates with everything that was not fetched recorded as not to
/// be had.
pub open spec fn settled_all(entries: Seq<Entry>) -> Seq<Entry> {
    Seq::new(entries.len(), |i: int| entries[i].settled())
}

/// All that a search from `p` on writes for the candidates: the start of
/// the format, what is written at once, and what is written at the end.
/// `None` where the query asks for the average of no rows.
pub open spec fn output_text(q: Query, p: Progress, entries: Seq<Entry>) -> Option<Seq<char>> {
    let (end, written) = run(q, p, entries, entries.len() as int);
    match closing_text(q, end) {
        Some(closing) => Some(start_text(q.output_format) + concat(written) + closing),
        None => None,
    }
}

/// The number of the user, or of the group, that owns a file, as far as the
/// inode was fetched and gives one.
pub open spec fn owner_id(meta: Slot<FileMeta>, user: bool) -> Option<u32> {
    match meta {
        Slot::Loaded(m) => if user {
            m.uid
        } else {
            m.gid
        },
        _ => None,
    }
}

/// A search in progress.
pub struct Searcher {
    pub query: Query,
    pub user_cache: UsersCache,
    pub found: u64,
    pub raw_output_buffer: Vec<RawRow>,
    pub output_buffer: TopN,
    pub gitignore_map: GitignoreMap,
}

impl View for Searcher {
    type V = Progress;

    open spec fn view(&self) -> Progress {
        Progress {
            found: self.found as nat,
            buffer: self.output_buffer@,
            raw: raw_view(self.raw_output_buffer@),
        }
    }
}

fn copy_flags(v: &Vec<bool>) -> (r: Vec<bool>)
    ensures
        r@ == v@,
{
    let mut r: Vec<bool> = Vec::new();
    let mut i: usize = 0;
    while i < v.len()
        invariant
            i <= v.len(),
            r@ == v@.take(i as int),
        decreases v.len() - i,
    {
        r.push(v[i]);
        i += 1;
        assert(r@ =~= v@.take(i as int));
    }
    assert(v@.take(v.len() as int) =~= v@);
    r
}

/// Reads the texts of columns for a candidate.
pub fn columns_values(cols: &Vec<ColumnExpr>, e: &Entry) -> (r: Answer<Vec<String>>)
    ensures
        match r {
            Answer::Ready(v) => columns_text(cols@, *e, cols@.len() as int) == Answer::Ready(
                texts(v@),
            ),
            Answer::Needs(s) => columns_text(cols@, *e, cols@.len() as int) == Answer::<
                Seq<Seq<char>>,
            >::Needs(s),
        },
        r matches Answer::Ready(v) ==> v@.len() == cols@.len(),
{
    let mut out: Vec<String> = Vec::new();
    let mut i: usize = 0;
    assert(texts(out@) =~= Seq::<Seq<char>>::empty());
    while i < cols.len()
        invariant
            i <= cols.len(),
            out@.len() == i,
            columns_text(cols@, *e, i as int) == Answer::Ready(texts(out@)),
        decreases cols.len() - i,
    {
        match get_column_expr_value(e, &cols[i]) {
            Answer::Needs(s) => {
                proof {
                    lemma_columns_needs(cols@, *e, i + 1, cols@.len() as int);
                }
                return Answer::Needs(s);
            },
            Answer::Ready(t) => {
                let ghost before = out@;
                out.push(t);
                assert(texts(out@) =~= texts(before).push(t@));
            },
        }
        i += 1;
    }
    Answer::Ready(out)
}

/// Once a column lacks a source, so do all the columns up to any later one.
pub proof fn lemma_columns_needs(cols: Seq<ColumnExpr>, e: Entry, n: int, m: int)
    requires
        0 <= n <= m,
        columns_text(cols, e, n) is Needs,
    ensures
        columns_text(cols, e, m) == columns_text(cols, e, n),
    decreases m - n,
{
    if n < m {
        lemma_columns_needs(cols, e, n, m - 1);
    }
}

/// Once a field lacks a source, so do all the fields up to any later one.
pub proof fn lemma_raw_needs(cols: Seq<ColumnExpr>, e: Entry, n: int, m: int)
    requires
        0 <= n <= m,
        raw_text(cols, e, n) is Needs,
    ensures
        raw_text(cols, e, m) == raw_text(cols, e, n),
    decreases m - n,
{
    if n < m {
        lemma_raw_needs(cols, e, n, m - 1);
    }
}

/// Reads the fields of columns for a candidate.
pub fn raw_values(cols: &Vec<ColumnExpr>, e: &Entry) -> (r: Answer<RawRow>)
    ensures
        match r {
            Answer::Ready(row) => raw_text(cols@, *e, cols@.len() as int) == Answer::Ready(row@),
            Answer::Needs(s) => raw_text(cols@, *e, cols@.len() as int) == Answer::<
                Seq<(Field, Seq<char>)>,
            >::Needs(s),
        },
{
    let mut out: Vec<(Field, String)> = Vec::new();
    let mut i: usize = 0;
    assert((RawRow { values: out })@ =~= Seq::<(Field, Seq<char>)>::empty());
    while i < cols.len()
        invariant
            i <= cols.len(),
            raw_text(cols@, *e, i as int) == Answer::Ready((RawRow { values: out })@),
        decreases cols.len() - i,
    {
        if let Some(f) = cols[i].get_inner_field() {
            match get_field_value(e, f) {
                Answer::Needs(s) => {
                    proof {
                        lemma_raw_needs(cols@, *e, i + 1, cols@.len() as int);
                    }
                    return Answer::Needs(s);
                },
                Answer::Ready(t) => {
                    let ghost before = (RawRow { values: out })@;
                    out.push((f, t));
                    assert((RawRow { values: out })@ =~= before.push((f, t@)));
                },
            }
        }
        i += 1;
    }
    Answer::Ready(RawRow { values: out })
}

/// The key of each column in a JSON row.
pub fn column_keys(cols: &Vec<ColumnExpr>) -> (keys: Vec<String>)
    ensures
        texts(keys@) == keys_of(cols@),
        keys@.len() == cols@.len(),
{
    let mut keys: Vec<String> = Vec::new();
    let mut i: usize = 0;
    while i < cols.len()
        invariant
            i <= cols.len(),
            keys@.len() == i,
            forall|j: int| 0 <= j < i ==> (#[trigger] keys@[j])@ == lowercase(cols@[j].label()),
        decreases cols.len() - i,
    {
        keys.push(column_key(&cols[i]));
        i += 1;
    }
    assert(texts(keys@) =~= keys_of(cols@));
    keys
}

/// What the columns show in the row of summaries.
pub fn summary_values(cols: &Vec<ColumnExpr>, rows: &Vec<RawRow>) -> (r: Option<Vec<String>>)
    ensures
        r.is_some() == summary(cols@, raw_view(rows@), cols@.len() as int).is_some(),
        r.is_some() ==> texts(r.unwrap()@) == summary(
            cols@,
            raw_view(rows@),
            cols@.len() as int,
        ).unwrap(),
        r.is_some() ==> r.unwrap()@.len() == cols@.len(),
{
    let mut out: Vec<String> = Vec::new();
    let mut i: usize = 0;
    assert(texts(out@) =~= Seq::<Seq<char>>::empty());
    while i < cols.len()
        invariant
            i <= cols.len(),
            out@.len() == i,
            summary(cols@, raw_view(rows@), i as int) == Some(texts(out@)),
        decreases cols.len() - i,
    {
        match get_aggregate_function_value(&cols[i], rows) {
            Some(t) => {
                let ghost before = out@;
                out.push(t);
                assert(texts(out@) =~= texts(before).push(t@));
            },
            None => {
                proof {
                    lemma_summary_fails(cols@, raw_view(rows@), i + 1, cols@.len() as int);
                }
                return None;
            },
        }
        i += 1;
    }
    Some(out)
}

/// Once a summary does not exist, the row of summaries does not.
pub proof fn lemma_summary_fails(
    cols: Seq<ColumnExpr>,
    raw: Seq<Seq<(Field, Seq<char>)>>,
    n: int,
    m: int,
)
    requires
        0 <= n <= m,
        summary(cols, raw, n) is None,
    ensures
        summary(cols, raw, m) is None,
    decreases m - n,
{
    if n < m {
        lemma_summary_fails(cols, raw, n, m - 1);
    }
}

impl Searcher {
    /// The buffer is the one that the query calls for.
    pub open spec fn wf(self) -> bool {
        &&& self.output_buffer.wf()
        &&& self.output_buffer.asc@ == self.query.ordering_asc@
        &&& self.output_buffer.limit == buffer_limit(self.query)
    }

    /// A search that has seen no candidate.
    pub fn new(query: Query) -> (s: Searcher)
        ensures
            s.wf(),
            s.query == query,
            s@ == start(),
            s.gitignore_map@ == Seq::<(Seq<char>, Seq<FilterView>)>::empty(),
    {
        let limit = query.limit;
        let asc = copy_flags(&query.ordering_asc);
        let output_buffer = if limit == 0 {
            TopN::limitless(asc)
        } else {
            TopN::new(limit, asc)
        };
        let s = Searcher {
            query,
            user_cache: UsersCache::new(),
            found: 0,
            raw_output_buffer: Vec::new(),
            output_buffer,
            gitignore_map: GitignoreMap::new(),
        };
        assert(s@.buffer =~= Seq::empty());
        assert(s@.raw =~= Seq::empty());
        s
    }

    /// Whether the rows are held back until the search is over, to be
    /// sorted or summarized.
    pub fn is_buffered(&self) -> (b: bool)
        ensures
            b == self.query.buffered(),
    {
        self.query.is_buffered()
    }

    pub fn has_ordering(&self) -> (b: bool)
        ensures
            b == self.query.ordered(),
    {
        self.query.has_ordering()
    }

    pub fn has_aggregate_column(&self) -> (b: bool)
        ensures
            b == self.query.aggregated(),
    {
        self.query.has_aggregate_column()
    }

    /// Keeps the filters of the `.gitignore` file of a directory.
    pub fn remember_gitignore(&mut self, dir: String, filters: Vec<GitignoreFilter>)
        requires
            old(self).wf(),
        ensures
            final(self).wf(),
            final(self).query == old(self).query,
            final(self).user_cache == old(self).user_cache,
            final(self)@ == old(self)@,
            final(self).gitignore_map@ == old(self).gitignore_map@.push(
                (dir_form(dir@), filters_view(filters@)),
            ),
    {
        self.gitignore_map.insert(dir, filters);
    }

    /// The filters that hold in a directory: those of the directories
    /// above it, from the outermost in, and then its own.
    pub fn get_gitignore_filters(&self, dir: &str) -> (r: Vec<GitignoreFilter>)
        ensures
            filters_view(r@) == filters_in(self.gitignore_map@, dir@),
    {
        self.gitignore_map.get_gitignore_filters(dir)
    }

    /// Enters a directory of a root that goes by `.gitignore` files. `lines`
    /// holds the lines of the file of the directory, if it has one: their
    /// filters are kept for the directory. The result is the filters that
    /// hold in the directory.
    pub fn enter_dir(&mut self, dir: &str, lines: Option<Vec<String>>) -> (r: Vec<
        GitignoreFilter,
    >)
        requires
            old(self).wf(),
        ensures
            final(self).wf(),
            final(self).query == old(self).query,
            final(self).user_cache == old(self).user_cache,
            final(self)@ == old(self)@,
            final(self).gitignore_map@ == match lines {
                Some(l) => old(self).gitignore_map@.push(
                    (dir_form(dir@), lines_filters(dir@, texts(l@))),
                ),
                None => old(self).gitignore_map@,
            },
            filters_view(r@) == filters_in(final(self).gitignore_map@, dir@),
    {
        match lines {
            Some(l) => {
                let filters = parse_gitignore(dir, &l);
                self.gitignore_map.insert(String::from_str(dir), filters);
            },
            None => {},
        }
        self.gitignore_map.get_gitignore_filters(dir)
    }

    /// Asks for the name of the user or of the group that owns a
    /// candidate, where `source` is one of the two, and records the answer in
    /// the candidate. Without a known number of the owner, and without a
    /// system to ask, the name is recorded as not to be had. Nothing else of
    /// the candidate changes, and for any other source nothing happens.
    pub fn supply_owner(&self, entry: &mut Entry, source: Source)
        ensures
            final(entry).filled_from(*old(entry)),
            source == Source::UserName || source == Source::GroupName ==> final(entry).has(source),
            forall|s: Source| s != source ==> final(entry).has(s) == old(entry).has(s),
            source != Source::UserName && source != Source::GroupName ==> *final(entry) == *old(
                entry,
            ),
            source == Source::UserName ==> *final(entry) == (Entry {
                user: final(entry).user,
                ..*old(entry)
            }),
            source == Source::GroupName ==> *final(entry) == (Entry {
                group: final(entry).group,
                ..*old(entry)
            }),
            source == Source::UserName && !old(entry).has(source) && (owner_id(
                old(entry).meta,
                true,
            ) is None || self.user_cache.system is None) ==> final(entry).user == Slot::<
                String,
            >::Missing,
            source == Source::GroupName && !old(entry).has(source) && (owner_id(
                old(entry).meta,
                false,
            ) is None || self.user_cache.system is None) ==> final(entry).group == Slot::<
                String,
            >::Missing,
    {
        match source {
            Source::UserName => {
                let uid = match &entry.meta {
                    Slot::Loaded(m) => m.uid,
                    _ => None,
                };
                match uid {
                    Some(id) => {
                        let name = self.user_cache.get_user_by_uid(id);
                        entry.supply_user(name);
                    },
                    None => {
                        entry.give_up(Source::UserName);
                    },
                }
            },
            Source::GroupName => {
                let gid = match &entry.meta {
                    Slot::Loaded(m) => m.gid,
                    _ => None,
                };
                match gid {
                    Some(id) => {
                        let name = self.user_cache.get_group_by_gid(id);
                        entry.supply_group(name);
                    },
                    None => {
                        entry.give_up(Source::GroupName);
                    },
                }
            },
            _ => {},
        }
    }

    /// Whether the search can stop: the rows are written at once, and
    /// there are as many as the query asked for.
    pub fn is_full(&self) -> (b: bool)
        ensures
            b == full(self.query, self@.found),
    {
        !self.query.is_buffered() && self.query.limit > 0 && self.found >= self.query.limit as u64
    }

    /// What is written before the first row.
    pub fn print_results_start(&self) -> (s: String)
        ensures
            s@ == start_text(self.query.output_format),
    {
        results_start(self.query.output_format)
    }

    /// Takes a candidate. See `step` for what becomes of it.
    pub fn check_file(&mut self, entry: &Entry) -> (r: Checked)
        requires
            old(self).wf(),
        ensures
            final(self).wf(),
            final(self).query == old(self).query,
            final(self).user_cache == old(self).user_cache,
            final(self).gitignore_map == old(self).gitignore_map,
            match step(old(self).query, old(self)@, *entry) {
                Step::Needs(s) => r == Checked::Needs(s) && final(self)@ == old(self)@,
                Step::Rejected => r == Checked::Rejected && final(self)@ == old(self)@,
                Step::Full => r == Checked::Full && final(self)@ == old(self)@,
                Step::Accepted { progress, row, shown } => {
                    &&& final(self)@ == progress
                    &&& match r {
                        Checked::Accepted(Some(t)) => shown && t@ == piece(
                            old(self).query,
                            old(self)@.found,
                            row,
                        ),
                        Checked::Accepted(None) => !shown,
                        _ => false,
                    }
                },
            },
    {
        if self.is_full() {
            return Checked::Full;
        }
        let verdict = match &self.query.expr {
            Some(x) => conforms(x, entry),
            None => Answer::Ready(true),
        };
        match verdict {
            Answer::Needs(s) => {
                return Checked::Needs(s);
            },
            Answer::Ready(false) => {
                return Checked::Rejected;
            },
            Answer::Ready(true) => {},
        }
        let values = match columns_values(&self.query.fields, entry) {
            Answer::Needs(s) => {
                return Checked::Needs(s);
            },
            Answer::Ready(v) => v,
        };
        let key = match columns_values(&self.query.ordering_fields, entry) {
            Answer::Needs(s) => {
                return Checked::Needs(s);
            },
            Answer::Ready(v) => v,
        };
        let aggregated = self.query.has_aggregate_column();
        let buffered = self.query.is_buffered();
        let raw = if aggregated {
            match raw_values(&self.query.fields, entry) {
                Answer::Needs(s) => {
                    return Checked::Needs(s);
                },
                Answer::Ready(row) => Some(row),
            }
        } else {
            None
        };
        let keys = column_keys(&self.query.fields);
        let row = format_results_row(self.query.output_format, &keys, &values);
        let first = self.found == 0;
        if self.found < u64::MAX {
            self.found = self.found + 1;
        }
        if buffered {
            self.output_buffer.insert(key, row);
            match raw {
                Some(r) => {
                    let ghost before = raw_view(self.raw_output_buffer@);
                    self.raw_output_buffer.push(r);
                    assert(raw_view(self.raw_output_buffer@) =~= before.push(r@));
                },
                None => {},
            }
            Checked::Accepted(None)
        } else {
            if first || self.query.output_format != OutputFormat::Json {
                assert(row@ =~= piece(old(self).query, old(self)@.found, row@));
                Checked::Accepted(Some(row))
            } else {
                let mut out: Vec<char> = Vec::new();
                out.push(',');
                push_str(&mut out, row.as_str());
                assert(out@ =~= piece(old(self).query, old(self)@.found, row@));
                Checked::Accepted(Some(string_of(&out)))
            }
        }
    }

    /// Runs the search over candidates that are at hand, and gives all
    /// that it writes; `None` where the query asks for the average of no rows.
    /// What was not fetched for a candidate counts as not to be had, and is
    /// recorded so in the candidate when the search asks for it.
    pub fn list_search_results(&mut self, entries: &mut Vec<Entry>) -> (r: Option<String>)
        requires
            old(self).wf(),
        ensures
            final(self).wf(),
            final(self).query == old(self).query,
            final(self).user_cache == old(self).user_cache,
            final(self).gitignore_map == old(self).gitignore_map,
            final(entries)@.len() == old(entries)@.len(),
            forall|i: int|
                0 <= i < old(entries)@.len() ==> (#[trigger] final(entries)@[i]).filled_from(
                    old(entries)@[i],
                ) && final(entries)@[i].settled() == old(entries)@[i].settled(),
            final(self)@ == run(
                old(self).query,
                old(self)@,
                settled_all(old(entries)@),
                old(entries)@.len() as int,
            ).0,
            r.is_some() == output_text(
                old(self).query,
                old(self)@,
                settled_all(old(entries)@),
            ).is_some(),
            r.is_some() ==> r.unwrap()@ == output_text(
                old(self).query,
                old(self)@,
                settled_all(old(entries)@),
            ).unwrap(),
    {
        let mut out: Vec<char> = Vec::new();
        push_str(&mut out, self.print_results_start().as_str());
        let ghost q = self.query;
        let ghost p = self@;
        let ghost head = start_text(q.output_format);
        let ghost all = settled_all(old(entries)@);
        let mut i: usize = 0;
        assert(out@ =~= head + concat(Seq::<Seq<char>>::empty()));
        while i < entries.len()
            invariant
                i <= entries.len(),
                entries@.len() == old(entries)@.len(),
                forall|j: int|
                    0 <= j < entries@.len() ==> (#[trigger] entries@[j]).filled_from(
                        old(entries)@[j],
                    ) && entries@[j].settled() == old(entries)@[j].settled(),
                all == settled_all(old(entries)@),
                self.wf(),
                self.query == q,
                self.user_cache == old(self).user_cache,
                self.gitignore_map == old(self).gitignore_map,
                q == old(self).query,
                p == old(self)@,
                head == start_text(q.output_format),
                self@ == run(q, p, all, i as int).0,
                out@ == head + concat(run(q, p, all, i as int).1),
            decreases entries.len() - i,
        {
            let ghost written = run(q, p, all, i as int).1;
            let ghost before = self@;
            let mut decided = false;
            while !decided
                invariant
                    i < entries.len(),
                    entries@.len() == old(entries)@.len(),
                    forall|j: int|
                        0 <= j < entries@.len() ==> (#[trigger] entries@[j]).filled_from(
                            old(entries)@[j],
                        ) && entries@[j].settled() == old(entries)@[j].settled(),
                    all == settled_all(old(entries)@),
                    self.wf(),
                    self.query == q,
                    self.user_cache == old(self).user_cache,
                    self.gitignore_map == old(self).gitignore_map,
                    written == run(q, p, all, i as int).1,
                    before == run(q, p, all, i as int).0,
                    !decided ==> self@ == before && out@ == head + concat(written),
                    decided ==> self@ == run(q, p, all, i + 1).0 && out@ == head + concat(
                        run(q, p, all, i + 1).1,
                    ),
                decreases
                        (if decided {
                            0
                        } else {
                            1 + entries@[i as int].unknown_count()
                        }),
            {
                let ghost e = entries@[i as int];
                let ghost kept = entries@;
                match self.check_file(&entries[i]) {
                    Checked::Needs(source) => {
                        proof {
                            lemma_step_needs_unknown(q, before, e, source);
                            lemma_given_up_then_settled(e, source);
                        }
                        entries[i].give_up(source);
                        assert forall|j: int| 0 <= j < entries@.len() implies (
                        #[trigger] entries@[j]).filled_from(old(entries)@[j])
                            && entries@[j].settled() == old(entries)@[j].settled() by {
                            if j != i {
                                assert(entries@[j] == kept[j]);
                            } else {
                                assert(kept[j].filled_from(old(entries)@[j]));
                            }
                        }
                    },
                    Checked::Accepted(Some(text)) => {
                        proof {
                            lemma_settled(e);
                            lemma_step_is_stable(q, before, e, e.settled());
                            assert(all[i as int] == e.settled());
                        }
                        push_str(&mut out, text.as_str());
                        proof {
                            let next = written.push(text@);
                            assert(next.drop_last() =~= written);
                            assert(out@ =~= head + concat(next));
                        }
                        decided = true;
                    },
                    _ => {
                        proof {
                            lemma_settled(e);
                            lemma_step_is_stable(q, before, e, e.settled());
                            assert(all[i as int] == e.settled());
                        }
                        decided = true;
                    },
                }
            }
            i += 1;
        }
        match self.print_results_end() {
            Some(closing) => {
                push_str(&mut out, closing.as_str());
                let ghost written = run(q, p, all, all.len() as int).1;
                assert(out@ =~= head + concat(written) + closing@);
                Some(string_of(&out))
            },
            None => None,
        }
    }

    /// What is written when the search is over; `None` where the query
    /// asks for the average of no rows.
    pub fn print_results_end(&self) -> (r: Option<String>)
        requires
            self.wf(),
        ensures
            r.is_some() == closing_text(self.query, self@).is_some(),
            r.is_some() ==> r.unwrap()@ == closing_text(self.query, self@).unwrap(),
    {
        let format = self.query.output_format;
        let mut out: Vec<char> = Vec::new();
        if self.query.has_aggregate_column() {
            match summary_values(&self.query.fields, &self.raw_output_buffer) {
                Some(values) => {
                    let keys = column_keys(&self.query.fields);
                    push_str(&mut out, format_results_row(format, &keys, &values).as_str());
                },
                None => {
                    return None;
                },
            }
        } else if self.query.is_buffered() {
            let rows = self.output_buffer.values();
            push_str(&mut out, join_rows(format, &rows).as_str());
        }
        push_str(&mut out, results_end(format).as_str());
        assert(out@ =~= closing_text(self.query, self@).unwrap());
        Some(string_of(&out))
    }
}

} // verus!
