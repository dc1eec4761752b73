//! What holds of every search.
use crate::entry::{lemma_settled, Entry, Source};
use crate::eval::{holds, lemma_verdict_is_stable, lemma_verdict_needs_unknown};
use crate::field::Field;
use crate::project::{column_text, field_text, lemma_column_is_stable, lemma_column_needs_unknown};
use crate::query::{ColumnExpr, Query};
use crate::render::{row_text, separator};
use crate::searcher::{
    accepted_rows, buffer_limit, columns_text, counted, keys_of, raw_text, run, settled_all, start,
    step, Progress, Step,
};
use crate::topn::{
    inserted, keys_have, lemma_insert_keeps_order, lemma_place, place, rows_of, sorted, ItemView,
};
use crate::value::{lemma_needs_unknown, Answer};
use vstd::prelude::*;

verus! {

/// A buffer never holds more rows than its limit: a row that arrives
/// makes it longer by one at most, and no longer than the limit.
pub proof fn lemma_inserted_len(
    items: Seq<ItemView>,
    item: ItemView,
    asc: Seq<bool>,
    limit: Option<u32>,
)
    ensures
        inserted(items, item, asc, limit).len() <= items.len() + 1,
        limit matches Some(l) ==> (items.len() <= l ==> inserted(items, item, asc, limit).len()
            <= l),
        limit is None ==> inserted(items, item, asc, limit).len() == items.len() + 1,
{
    lemma_place(items, item.key, asc);
}

/// Without a limit a buffer loses nothing: its rows are the rows it had
/// and the one that arrived, whatever their order.
pub proof fn lemma_unlimited_buffer_keeps_rows(items: Seq<ItemView>, item: ItemView, asc: Seq<bool>)
    ensures
        rows_of(inserted(items, item, asc, None)).to_multiset() == rows_of(
            items,
        ).to_multiset().insert(item.row),
{
    lemma_place(items, item.key, asc);
    let p = place(items, item.key, asc);
    assert(rows_of(items.insert(p, item)) =~= rows_of(items).insert(p, item.row));
    vstd::seq_lib::to_multiset_insert(rows_of(items), p, item.row);
}

/// The number of rows that a query with a limit and without summaries
/// gives never exceeds the limit, be they written at once or held back.
pub proof fn lemma_limit_bounds_rows(q: Query, entries: Seq<Entry>, n: int)
    requires
        q.limit > 0,
        !q.aggregated(),
        0 <= n <= entries.len(),
    ensures
        run(q, start(), entries, n).1.len() + run(q, start(), entries, n).0.buffer.len()
            <= q.limit,
        !q.buffered() ==> run(q, start(), entries, n).0.buffer.len() == 0 && run(
            q,
            start(),
            entries,
            n,
        ).1.len() == run(q, start(), entries, n).0.found,
        q.buffered() ==> run(q, start(), entries, n).1.len() == 0,
    decreases n,
{
    if n > 0 {
        lemma_limit_bounds_rows(q, entries, n - 1);
        let (before, written) = run(q, start(), entries, n - 1);
        match step(q, before, entries[n - 1]) {
            Step::Accepted { progress, row, shown } => {
                if q.buffered() {
                    let key = columns_text(
                        q.ordering_fields@,
                        entries[n - 1],
                        q.ordering_fields@.len() as int,
                    )->Ready_0;
                    lemma_inserted_len(
                        before.buffer,
                        ItemView { key, row },
                        q.ordering_asc@,
                        buffer_limit(q),
                    );
                }
            },
            _ => {},
        }
    }
}

/// A candidate is held up only by a source that nobody has tried to fetch:
/// a caller that fetches what is asked for, or gives it up, is asked for
/// each source once at most.
pub proof fn lemma_step_needs_unknown(q: Query, p: Progress, e: Entry, source: Source)
    requires
        step(q, p, e) == Step::Needs(source),
    ensures
        !e.has(source),
{
    match q.expr {
        Some(x) => {
            if holds(x, e) is Needs {
                lemma_verdict_needs_unknown(x, e, source);
            }
        },
        None => {},
    }
    if e.has(source) {
        lemma_has_is_shown(q.fields@, e, q.fields@.len() as int, source);
        lemma_has_is_shown(q.ordering_fields@, e, q.ordering_fields@.len() as int, source);
    }
}

/// A source that was fetched holds no column up.
pub proof fn lemma_has_is_shown(cols: Seq<ColumnExpr>, e: Entry, n: int, source: Source)
    requires
        e.has(source),
        0 <= n <= cols.len(),
    ensures
        columns_text(cols, e, n) != Answer::<Seq<Seq<char>>>::Needs(source),
        raw_text(cols, e, n) != Answer::<Seq<(Field, Seq<char>)>>::Needs(source),
    decreases n,
{
    if n > 0 {
        lemma_has_is_shown(cols, e, n - 1, source);
        if column_text(cols[n - 1], e) == Answer::<Seq<char>>::Needs(source) {
            lemma_column_needs_unknown(cols[n - 1], e, source);
        }
        match cols[n - 1].inner_field() {
            Some(f) => {
                if field_text(f, e) == Answer::<Seq<char>>::Needs(source) {
                    lemma_needs_unknown(f, e, source);
                }
            },
            None => {},
        }
    }
}

/// The columns that were shown keep being shown when more is fetched.
pub proof fn lemma_columns_are_stable(cols: Seq<ColumnExpr>, earlier: Entry, later: Entry, n: int)
    requires
        later.filled_from(earlier),
        0 <= n <= cols.len(),
    ensures
        columns_text(cols, earlier, n) is Ready ==> columns_text(cols, later, n) == columns_text(
            cols,
            earlier,
            n,
        ),
        raw_text(cols, earlier, n) is Ready ==> raw_text(cols, later, n) == raw_text(
            cols,
            earlier,
            n,
        ),
    decreases n,
{
    if n > 0 {
        lemma_columns_are_stable(cols, earlier, later, n - 1);
        if column_text(cols[n - 1], earlier) is Ready {
            lemma_column_is_stable(cols[n - 1], earlier, later);
        }
        match cols[n - 1].inner_field() {
            Some(f) => {
                if field_text(f, earlier) is Ready {
                    lemma_column_is_stable(ColumnExpr::Field(f), earlier, later);
                }
            },
            None => {},
        }
    }
}

/// What became of a candidate stands when more is fetched: a candidate that
/// was accepted or rejected with some sources unknown is accepted or
/// rejected in the same way, with the same row, once they are known.
pub proof fn lemma_step_is_stable(q: Query, p: Progress, earlier: Entry, later: Entry)
    requires
        later.filled_from(earlier),
        !(step(q, p, earlier) is Needs),
    ensures
        step(q, p, later) == step(q, p, earlier),
{
    match q.expr {
        Some(x) => {
            if holds(x, earlier) is Ready {
                lemma_verdict_is_stable(x, earlier, later);
            }
        },
        None => {},
    }
    lemma_columns_are_stable(q.fields@, earlier, later, q.fields@.len() as int);
    lemma_columns_are_stable(
        q.ordering_fields@,
        earlier,
        later,
        q.ordering_fields@.len() as int,
    );
}

/// There is a text for each column that was read.
pub proof fn lemma_columns_text_len(cols: Seq<ColumnExpr>, e: Entry, n: int)
    requires
        0 <= n,
        columns_text(cols, e, n) is Ready,
    ensures
        columns_text(cols, e, n)->Ready_0.len() == n,
    decreases n,
{
    if n > 0 {
        lemma_columns_text_len(cols, e, n - 1);
    }
}

/// The rows that are held back stand in the order of their keys at every
/// moment of a search, so they are written in that order at its end.
pub proof fn lemma_buffer_is_sorted(q: Query, entries: Seq<Entry>, n: int)
    requires
        0 <= n <= entries.len(),
    ensures
        sorted(run(q, start(), entries, n).0.buffer, q.ordering_asc@),
        keys_have(run(q, start(), entries, n).0.buffer, q.ordering_fields@.len()),
    decreases n,
{
    if n > 0 {
        lemma_buffer_is_sorted(q, entries, n - 1);
        let before = run(q, start(), entries, n - 1).0;
        match step(q, before, entries[n - 1]) {
            Step::Accepted { progress, row, shown } => {
                if q.buffered() {
                    let key = columns_text(
                        q.ordering_fields@,
                        entries[n - 1],
                        q.ordering_fields@.len() as int,
                    )->Ready_0;
                    lemma_columns_text_len(
                        q.ordering_fields@,
                        entries[n - 1],
                        q.ordering_fields@.len() as int,
                    );
                    lemma_insert_keeps_order(
                        before.buffer,
                        ItemView { key, row },
                        q.ordering_asc@,
                        buffer_limit(q),
                    );
                }
            },
            _ => {},
        }
    }
}

/// Of a candidate of which nothing is left to fetch, every condition is
/// decided.
pub proof fn lemma_complete_is_judged(q: Query, e: Entry)
    requires
        e.complete(),
    ensures
        q.expr matches Some(x) ==> holds(x, e) is Ready,
{
    match q.expr {
        Some(x) => {
            if holds(x, e) is Needs {
                let s = holds(x, e)->Needs_0;
                lemma_verdict_needs_unknown(x, e, s);
            }
        },
        None => {},
    }
}

/// Of a candidate of which nothing is left to fetch, every column is
/// shown.
pub proof fn lemma_complete_is_shown(cols: Seq<ColumnExpr>, e: Entry, n: int)
    requires
        e.complete(),
        0 <= n <= cols.len(),
    ensures
        columns_text(cols, e, n) is Ready,
        raw_text(cols, e, n) is Ready,
    decreases n,
{
    if n > 0 {
        lemma_complete_is_shown(cols, e, n - 1);
        if column_text(cols[n - 1], e) is Needs {
            lemma_column_needs_unknown(cols[n - 1], e, column_text(cols[n - 1], e)->Needs_0);
        }
        match cols[n - 1].inner_field() {
            Some(f) => {
                if field_text(f, e) is Needs {
                    lemma_needs_unknown(f, e, field_text(f, e)->Needs_0);
                }
            },
            None => {},
        }
    }
}

/// The row of a candidate if the query accepts it: the condition holds,
/// and the row is made of what the columns show. It depends on the columns,
/// the condition and the format of the query, and on nothing else.
pub open spec fn accepted_row(q: Query, e: Entry) -> Option<Seq<char>> {
    match (match q.expr {
        Some(x) => holds(x, e),
        None => Answer::Ready(true),
    }) {
        Answer::Ready(true) => match columns_text(q.fields@, e, q.fields@.len() as int) {
            Answer::Ready(values) => Some(row_text(q.output_format, keys_of(q.fields@), values)),
            Answer::Needs(_) => None,
        },
        _ => None,
    }
}

/// The rows of the candidates that a query accepts, in the order of the
/// candidates.
pub open spec fn rows_in(q: Query, entries: Seq<Entry>) -> Seq<Seq<char>>
    decreases entries.len(),
{
    if entries.len() == 0 {
        Seq::empty()
    } else {
        match accepted_row(q, entries.last()) {
            Some(row) => rows_in(q, entries.drop_last()).push(row),
            None => rows_in(q, entries.drop_last()),
        }
    }
}

/// Whether nothing is left to fetch for any of the candidates.
pub open spec fn all_complete(entries: Seq<Entry>) -> bool {
    forall|i: int| 0 <= i < entries.len() ==> (#[trigger] entries[i]).complete()
}

/// The candidates for which `mask` says so, in their order.
pub open spec fn kept(entries: Seq<Entry>, mask: Seq<bool>) -> Seq<Entry>
    decreases entries.len(),
{
    if entries.len() == 0 || mask.len() != entries.len() {
        Seq::empty()
    } else if mask.last() {
        kept(entries.drop_last(), mask.drop_last()).push(entries.last())
    } else {
        kept(entries.drop_last(), mask.drop_last())
    }
}

/// Without a limit and without summaries a query accepts a candidate or
/// not whatever came before: it accepts those that have a row, counts them,
/// and writes the row or holds it back.
pub proof fn lemma_step_without_limit(q: Query, p: Progress, e: Entry)
    requires
        q.limit == 0,
        !q.aggregated(),
        e.complete(),
    ensures
        match accepted_row(q, e) {
            Some(row) => step(q, p, e) matches Step::Accepted { progress, row: r, shown } && r
                == row && shown == !q.buffered() && progress.found == counted(p.found)
                && progress.raw == p.raw && (!q.buffered() ==> progress.buffer == p.buffer) && (
            q.buffered() ==> rows_of(progress.buffer).to_multiset() == rows_of(
                p.buffer,
            ).to_multiset().insert(row)),
            None => step(q, p, e) is Rejected,
        },
{
    lemma_complete_is_judged(q, e);
    lemma_complete_is_shown(q.fields@, e, q.fields@.len() as int);
    lemma_complete_is_shown(q.ordering_fields@, e, q.ordering_fields@.len() as int);
    match accepted_row(q, e) {
        Some(row) => {
            let key = columns_text(q.ordering_fields@, e, q.ordering_fields@.len() as int)->Ready_0;
            lemma_unlimited_buffer_keeps_rows(p.buffer, ItemView { key, row }, q.ordering_asc@);
        },
        None => {},
    }
}

/// Without a limit and without summaries, the rows that a search accepts
/// are those that the query accepts one by one.
pub proof fn lemma_accepted_rows_without_limit(q: Query, p: Progress, entries: Seq<Entry>, n: int)
    requires
        q.limit == 0,
        !q.aggregated(),
        all_complete(entries),
        0 <= n <= entries.len(),
    ensures
        accepted_rows(q, p, entries, n) == rows_in(q, entries.take(n)),
    decreases n,
{
    if n > 0 {
        lemma_accepted_rows_without_limit(q, p, entries, n - 1);
        let before = run(q, p, entries, n - 1).0;
        lemma_step_without_limit(q, before, entries[n - 1]);
        assert(entries.take(n).drop_last() =~= entries.take(n - 1));
        assert(entries.take(n).last() == entries[n - 1]);
    } else {
        assert(entries.take(0).len() == 0);
    }
}

/// Holding the rows back loses none and adds none: without a limit and
/// without summaries, the rows in the buffer at the end are the rows that
/// the search accepted, whatever their order.
pub proof fn lemma_buffer_holds_accepted_rows(q: Query, entries: Seq<Entry>, n: int)
    requires
        q.limit == 0,
        !q.aggregated(),
        q.buffered(),
        all_complete(entries),
        0 <= n <= entries.len(),
    ensures
        rows_of(run(q, start(), entries, n).0.buffer).to_multiset() == accepted_rows(
            q,
            start(),
            entries,
            n,
        ).to_multiset(),
    decreases n,
{
    if n > 0 {
        lemma_buffer_holds_accepted_rows(q, entries, n - 1);
        let before = run(q, start(), entries, n - 1).0;
        lemma_step_without_limit(q, before, entries[n - 1]);
        match accepted_row(q, entries[n - 1]) {
            Some(row) => {
                vstd::seq_lib::to_multiset_build(accepted_rows(q, start(), entries, n - 1), row);
            },
            None => {},
        }
    } else {
        assert(rows_of(start().buffer) =~= Seq::<Seq<char>>::empty());
    }
}

/// What is written at once is the accepted rows in their order, the first
/// as it is and each later one behind the separator of the format.
pub proof fn lemma_written_rows(q: Query, entries: Seq<Entry>, n: int)
    requires
        q.limit == 0,
        !q.buffered(),
        all_complete(entries),
        0 <= n <= entries.len(),
    ensures
        ({
            let written = run(q, start(), entries, n).1;
            let rows = accepted_rows(q, start(), entries, n);
            &&& written.len() == rows.len()
            &&& (run(q, start(), entries, n).0.found >= 1) == (rows.len() >= 1)
            &&& forall|i: int|
                0 <= i < rows.len() ==> #[trigger] written[i] == if i >= 1 {
                    separator(q.output_format) + rows[i]
                } else {
                    rows[i]
                }
        }),
    decreases n,
{
    if n > 0 {
        lemma_written_rows(q, entries, n - 1);
        let before = run(q, start(), entries, n - 1).0;
        assert(!q.aggregated());
        lemma_step_without_limit(q, before, entries[n - 1]);
    }
}

/// The rows that a search over candidates at hand gives, where what was
/// not fetched counts as not to be had: the rows it accepts, each written at
/// once, or the rows that stand in its buffer at the end.
pub open spec fn rows_given(q: Query, entries: Seq<Entry>) -> Seq<Seq<char>> {
    let all = settled_all(entries);
    if q.buffered() {
        rows_of(run(q, start(), all, all.len() as int).0.buffer)
    } else {
        accepted_rows(q, start(), all, all.len() as int)
    }
}

/// Nothing is left to fetch for candidates that were settled.
pub proof fn lemma_settled_all_complete(entries: Seq<Entry>)
    ensures
        all_complete(settled_all(entries)),
{
    assert forall|i: int| 0 <= i < settled_all(entries).len() implies (#[trigger] settled_all(
        entries,
    )[i]).complete() by {
        lemma_settled(entries[i]);
    }
}

/// Evaluating a query row by row and evaluating it with the rows held
/// back give the same rows: for two queries without limit and summaries
/// that differ in their ordering alone, over any candidates, the rows that
/// the one writes at once and the rows that the other has in its buffer at
/// the end are equal as multisets. No row is lost, doubled or changed; only
/// the order may differ.
pub proof fn lemma_streaming_and_buffering_agree(
    streaming: Query,
    buffering: Query,
    entries: Seq<Entry>,
)
    requires
        streaming.fields == buffering.fields,
        streaming.expr == buffering.expr,
        streaming.output_format == buffering.output_format,
        streaming.limit == 0,
        buffering.limit == 0,
        !streaming.buffered(),
        buffering.buffered(),
        !buffering.aggregated(),
    ensures
        rows_given(streaming, entries).to_multiset() == rows_given(
            buffering,
            entries,
        ).to_multiset(),
{
    let all = settled_all(entries);
    let n = all.len() as int;
    lemma_settled_all_complete(entries);
    lemma_accepted_rows_without_limit(streaming, start(), all, n);
    lemma_accepted_rows_without_limit(buffering, start(), all, n);
    lemma_buffer_holds_accepted_rows(buffering, all, n);
    lemma_rows_depend_on_columns(streaming, buffering, all.take(n));
}

/// Two queries with the same columns, condition and format accept the
/// same rows.
pub proof fn lemma_rows_depend_on_columns(a: Query, b: Query, entries: Seq<Entry>)
    requires
        a.fields == b.fields,
        a.expr == b.expr,
        a.output_format == b.output_format,
    ensures
        rows_in(a, entries) == rows_in(b, entries),
    decreases entries.len(),
{
    if entries.len() > 0 {
        lemma_rows_depend_on_columns(a, b, entries.drop_last());
    }
}

/// Leaving candidates out adds no row: the rows that a query accepts
/// among some of the candidates are among those that it accepts among all
/// of them. So a search that passes over what `.gitignore` files exclude
/// finds nothing that the search without them would not find.
pub proof fn lemma_fewer_candidates_fewer_rows(q: Query, entries: Seq<Entry>, mask: Seq<bool>)
    requires
        mask.len() == entries.len(),
    ensures
        rows_in(q, kept(entries, mask)).to_multiset().subset_of(rows_in(q, entries).to_multiset()),
    decreases entries.len(),
{
    broadcast use vstd::multiset::group_multiset_axioms;

    if entries.len() > 0 {
        lemma_fewer_candidates_fewer_rows(q, entries.drop_last(), mask.drop_last());
        let sub = rows_in(q, kept(entries.drop_last(), mask.drop_last()));
        let all = rows_in(q, entries.drop_last());
        match accepted_row(q, entries.last()) {
            Some(row) => {
                vstd::seq_lib::to_multiset_build(all, row);
                if mask.last() {
                    let k = kept(entries.drop_last(), mask.drop_last());
                    assert(k.push(entries.last()).drop_last() =~= k);
                    vstd::seq_lib::to_multiset_build(sub, row);
                }
            },
            None => {
                if mask.last() {
                    let k = kept(entries.drop_last(), mask.drop_last());
                    assert(k.push(entries.last()).drop_last() =~= k);
                }
            },
        }
    }
}

/// Settling the candidates that are kept is keeping the settled
/// candidates.
pub proof fn lemma_settled_kept(entries: Seq<Entry>, mask: Seq<bool>)
    requires
        mask.len() == entries.len(),
    ensures
        settled_all(kept(entries, mask)) == kept(settled_all(entries), mask),
    decreases entries.len(),
{
    if entries.len() > 0 {
        lemma_settled_kept(entries.drop_last(), mask.drop_last());
        assert(settled_all(entries).drop_last() =~= settled_all(entries.drop_last()));
        assert(settled_all(entries).last() == entries.last().settled());
        let k = kept(entries.drop_last(), mask.drop_last());
        if mask.last() {
            assert(settled_all(k.push(entries.last())) =~= settled_all(k).push(
                entries.last().settled(),
            ));
        }
    } else {
        assert(settled_all(kept(entries, mask)) =~= kept(settled_all(entries), mask));
    }
}

/// The rows that a search without limit and summaries gives are the rows
/// that the query accepts one by one, whatever their order.
pub proof fn lemma_rows_given(q: Query, entries: Seq<Entry>)
    requires
        q.limit == 0,
        !q.aggregated(),
    ensures
        rows_given(q, entries).to_multiset() == rows_in(q, settled_all(entries)).to_multiset(),
{
    let all = settled_all(entries);
    let n = all.len() as int;
    lemma_settled_all_complete(entries);
    lemma_accepted_rows_without_limit(q, start(), all, n);
    assert(all.take(n) =~= all);
    if q.buffered() {
        lemma_buffer_holds_accepted_rows(q, all, n);
    }
}

/// With `.gitignore` files switched off a search finds all that it finds
/// with them switched on: without a limit and without summaries, the rows
/// that a search gives for the candidates that the filters let through are
/// among the rows that it gives for all candidates, whatever was fetched for
/// them. Going by `.gitignore` files takes rows away; it adds and changes
/// none.
pub proof fn lemma_gitignore_off_is_superset(q: Query, entries: Seq<Entry>, passed: Seq<bool>)
    requires
        q.limit == 0,
        !q.aggregated(),
        passed.len() == entries.len(),
    ensures
        rows_given(q, kept(entries, passed)).to_multiset().subset_of(
            rows_given(q, entries).to_multiset(),
        ),
{
    lemma_rows_given(q, entries);
    lemma_rows_given(q, kept(entries, passed));
    lemma_settled_kept(entries, passed);
    lemma_fewer_candidates_fewer_rows(q, settled_all(entries), passed);
}

} // verus!
