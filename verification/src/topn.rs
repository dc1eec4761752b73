//! A buffer that keeps rows in the order of their sort keys, and only the
//! first so many of them.
use crate::text::{chars_less, chars_of, lex_less, parse_u64, parse_unsigned, texts};
use vstd::prelude::*;

verus! {

/// A row that waits in the buffer, with the values it is sorted by.
#[derive(Clone, Debug, PartialEq, Eq)]
pub struct Item {
    pub key: Vec<String>,
    pub row: String,
}

/// A row that waits in the buffer, as a mathematical object.
pub struct ItemView {
    pub key: Seq<Seq<char>>,
    pub row: Seq<char>,
}

impl View for Item {
    type V = ItemView;

    open spec fn view(&self) -> ItemView {
        ItemView { key: texts(self.key@), row: self.row@ }
    }
}

/// The items of a buffer as mathematical objects.
pub open spec fn items_view(items: Seq<Item>) -> Seq<ItemView> {
    Seq::new(items.len(), |i: int| items[i]@)
}

/// How two values compare: -1 where `a` comes first, 1 where `b` does, 0
/// where neither does. Two unsigned numbers compare as numbers, two other
/// texts character by character, and a number comes before any other text.
///
/// A number and another text do not compare character by character: that
/// would be no order. `10` would come before `1a` and `1a` before `9`, as
/// texts, and `9` before `10`, as numbers, so that no buffer could hold the
/// three in ascending order. With the numbers first the order is one, as
/// `lemma_value_order_transitive` shows.
pub open spec fn value_order(a: Seq<char>, b: Seq<char>) -> int {
    match (parse_unsigned(a, u64::MAX as nat), parse_unsigned(b, u64::MAX as nat)) {
        (Some(x), Some(y)) => if x < y {
            -1
        } else if x > y {
            1
        } else {
            0
        },
        (Some(_), None) => -1,
        (None, Some(_)) => 1,
        (None, None) => if lex_less(a, b) {
            -1
        } else if lex_less(b, a) {
            1
        } else {
            0
        },
    }
}

/// How two keys compare from position `i` on: by the first value in which
/// they differ, the other way round where that position is descending. Only
/// the positions that both keys and `asc` have count.
pub open spec fn key_order_from(a: Seq<Seq<char>>, b: Seq<Seq<char>>, asc: Seq<bool>, i: int) -> int
    decreases a.len() - i,
{
    if i < 0 || i >= a.len() || i >= b.len() || i >= asc.len() {
        0
    } else {
        let c = value_order(a[i], b[i]);
        if c != 0 {
            if asc[i] {
                c
            } else {
                -c
            }
        } else {
            key_order_from(a, b, asc, i + 1)
        }
    }
}

/// How two keys compare.
pub open spec fn key_order(a: Seq<Seq<char>>, b: Seq<Seq<char>>, asc: Seq<bool>) -> int {
    key_order_from(a, b, asc, 0)
}

/// Where a new key goes: before the first item that it comes strictly
/// before, so behind all the items that are equal to it.
pub open spec fn place(items: Seq<ItemView>, key: Seq<Seq<char>>, asc: Seq<bool>) -> int
    decreases items.len(),
{
    if items.len() == 0 {
        0
    } else if key_order(key, items[0].key, asc) < 0 {
        0
    } else {
        1 + place(items.drop_first(), key, asc)
    }
}

/// The rows of the items, in their order.
pub open spec fn rows_of(items: Seq<ItemView>) -> Seq<Seq<char>> {
    Seq::new(items.len(), |i: int| items[i].row)
}

/// The items in the order of their keys: no item comes strictly before one
/// that stands earlier.
pub open spec fn sorted(items: Seq<ItemView>, asc: Seq<bool>) -> bool {
    forall|i: int, j: int|
        0 <= i < j < items.len() ==> key_order(
            (#[trigger] items[i]).key,
            (#[trigger] items[j]).key,
            asc,
        ) <= 0
}

/// What `items` becomes when a row arrives: the row goes to its place, and
/// where that makes more than `limit` rows, the last one leaves.
pub open spec fn inserted(
    items: Seq<ItemView>,
    item: ItemView,
    asc: Seq<bool>,
    limit: Option<u32>,
) -> Seq<ItemView> {
    let grown = items.insert(place(items, item.key, asc), item);
    match limit {
        Some(l) => if grown.len() > l {
            grown.drop_last()
        } else {
            grown
        },
        None => grown,
    }
}

/// Compares two values.
pub fn compare_values(a: &str, b: &str) -> (c: i8)
    ensures
        c as int == value_order(a@, b@),
{
    let ca = chars_of(a);
    let cb = chars_of(b);
    match (parse_u64(&ca, u64::MAX), parse_u64(&cb, u64::MAX)) {
        (Some(x), Some(y)) => if x < y {
            -1
        } else if x > y {
            1
        } else {
            0
        },
        (Some(_), None) => -1,
        (None, Some(_)) => 1,
        (None, None) => if chars_less(&ca, &cb) {
            -1
        } else if chars_less(&cb, &ca) {
            1
        } else {
            0
        },
    }
}

/// Compares two keys.
pub fn compare_keys(a: &Vec<String>, b: &Vec<String>, asc: &Vec<bool>) -> (c: i8)
    ensures
        c as int == key_order(texts(a@), texts(b@), asc@),
{
    let mut i: usize = 0;
    while i < a.len() && i < b.len() && i < asc.len()
        invariant
            i <= a.len(),
            key_order(texts(a@), texts(b@), asc@) == key_order_from(
                texts(a@),
                texts(b@),
                asc@,
                i as int,
            ),
        decreases a.len() - i,
    {
        let c = compare_values(a[i].as_str(), b[i].as_str());
        if c != 0 {
            return if asc[i] {
                c
            } else {
                -c
            };
        }
        i += 1;
    }
    0
}

/// Rows in the order of their keys, at most `limit` of them where there is
/// a limit.
#[derive(Debug)]
pub struct TopN {
    pub limit: Option<u32>,
    /// For each position of a key, whether smaller values come first.
    pub asc: Vec<bool>,
    pub items: Vec<Item>,
}

impl View for TopN {
    type V = Seq<ItemView>;

    open spec fn view(&self) -> Seq<ItemView> {
        items_view(self.items@)
    }
}

impl TopN {
    /// The buffer holds no more rows than its limit allows.
    pub open spec fn wf(self) -> bool {
        match self.limit {
            Some(l) => self.items@.len() <= l,
            None => true,
        }
    }

    /// An empty buffer for at most `limit` rows.
    pub fn new(limit: u32, asc: Vec<bool>) -> (t: TopN)
        ensures
            t.limit == Some(limit),
            t.asc == asc,
            t.items@.len() == 0,
            t.wf(),
    {
        TopN { limit: Some(limit), asc, items: Vec::new() }
    }

    /// An empty buffer for any number of rows.
    pub fn limitless(asc: Vec<bool>) -> (t: TopN)
        ensures
            t.limit is None,
            t.asc == asc,
            t.items@.len() == 0,
            t.wf(),
    {
        TopN { limit: None, asc, items: Vec::new() }
    }

    fn find_place(&self, key: &Vec<String>) -> (p: usize)
        ensures
            p as int == place(self@, texts(key@), self.asc@),
            p <= self.items@.len(),
    {
        let mut i: usize = 0;
        assert(self@.skip(0) =~= self@);
        while i < self.items.len()
            invariant
                i <= self.items.len(),
                place(self@, texts(key@), self.asc@) == i + place(
                    self@.skip(i as int),
                    texts(key@),
                    self.asc@,
                ),
            decreases self.items.len() - i,
        {
            proof {
                let rest = self@.skip(i as int);
                assert(rest[0] == self.items@[i as int]@);
                assert(rest.drop_first() =~= self@.skip(i + 1));
            }
            if compare_keys(key, &self.items[i].key, &self.asc) < 0 {
                return i;
            }
            i += 1;
        }
        i
    }

    /// Takes a row in at the place of its key. Where the buffer then holds
    /// more rows than its limit, the last row leaves.
    pub fn insert(&mut self, key: Vec<String>, row: String)
        requires
            old(self).wf(),
        ensures
            final(self).wf(),
            final(self).limit == old(self).limit,
            final(self).asc == old(self).asc,
            final(self)@ == inserted(
                old(self)@,
                ItemView { key: texts(key@), row: row@ },
                old(self).asc@,
                old(self).limit,
            ),
    {
        let p = self.find_place(&key);
        let ghost item = ItemView { key: texts(key@), row: row@ };
        self.items.insert(p, Item { key, row });
        assert(self@ =~= old(self)@.insert(p as int, item));
        let ghost grown = self@;
        match self.limit {
            Some(l) => {
                if self.items.len() > l as usize {
                    self.items.pop();
                    assert(self@ =~= grown.drop_last());
                }
            },
            None => {},
        }
    }

    /// The rows in the order of their keys.
    pub fn values(&self) -> (rows: Vec<String>)
        ensures
            texts(rows@) == rows_of(self@),
    {
        let mut rows: Vec<String> = Vec::new();
        let mut i: usize = 0;
        while i < self.items.len()
            invariant
                i <= self.items.len(),
                rows@.len() == i,
                forall|j: int| 0 <= j < i ==> (#[trigger] rows@[j])@ == self.items@[j].row@,
            decreases self.items.len() - i,
        {
            rows.push(self.items[i].row.clone());
            i += 1;
        }
        assert(texts(rows@) =~= rows_of(self@));
        rows
    }

    pub fn len(&self) -> (n: usize)
        ensures
            n == self.items@.len(),
    {
        self.items.len()
    }
}

/// No text comes before itself.
pub proof fn lemma_lex_irreflexive(a: Seq<char>)
    ensures
        !lex_less(a, a),
    decreases a.len(),
{
    if a.len() > 0 {
        lemma_lex_irreflexive(a.drop_first());
    }
}

/// Of two different texts exactly one comes before the other.
pub proof fn lemma_lex_total(a: Seq<char>, b: Seq<char>)
    ensures
        a != b ==> lex_less(a, b) || lex_less(b, a),
        !(lex_less(a, b) && lex_less(b, a)),
    decreases a.len(),
{
    if a.len() > 0 && b.len() > 0 {
        lemma_lex_total(a.drop_first(), b.drop_first());
        if a[0] == b[0] && a.drop_first() == b.drop_first() {
            assert(a =~= seq![a[0]] + a.drop_first());
            assert(b =~= seq![b[0]] + b.drop_first());
        }
    } else if a.len() == 0 && b.len() == 0 {
        assert(a =~= b);
    }
}

/// What comes before a text comes before all that the text comes before.
pub proof fn lemma_lex_transitive(a: Seq<char>, b: Seq<char>, c: Seq<char>)
    requires
        lex_less(a, b),
        lex_less(b, c),
    ensures
        lex_less(a, c),
    decreases a.len(),
{
    if a.len() > 0 && b.len() > 0 && c.len() > 0 {
        if a[0] == b[0] && b[0] == c[0] {
            lemma_lex_transitive(a.drop_first(), b.drop_first(), c.drop_first());
        }
    }
}

/// Comparing two values the other way round gives the opposite.
pub proof fn lemma_value_order_antisymmetric(a: Seq<char>, b: Seq<char>)
    ensures
        value_order(b, a) == -value_order(a, b),
{
    lemma_lex_total(a, b);
}

/// The order of values is transitive, and strict where one step is.
pub proof fn lemma_value_order_transitive(a: Seq<char>, b: Seq<char>, c: Seq<char>)
    requires
        value_order(a, b) <= 0,
        value_order(b, c) <= 0,
    ensures
        value_order(a, c) <= 0,
        value_order(a, b) < 0 || value_order(b, c) < 0 ==> value_order(a, c) < 0,
{
    let na = parse_unsigned(a, u64::MAX as nat);
    let nb = parse_unsigned(b, u64::MAX as nat);
    let nc = parse_unsigned(c, u64::MAX as nat);
    lemma_lex_total(a, b);
    lemma_lex_total(b, c);
    lemma_lex_total(a, c);
    lemma_lex_irreflexive(a);
    if na is None && nb is None && nc is None {
        if lex_less(a, b) && lex_less(b, c) {
            lemma_lex_transitive(a, b, c);
        }
    }
}

/// Whether every key has `n` values.
pub open spec fn keys_have(items: Seq<ItemView>, n: nat) -> bool {
    forall|i: int| 0 <= i < items.len() ==> (#[trigger] items[i]).key.len() == n
}

/// Comparing two keys of one length the other way round gives the
/// opposite.
pub proof fn lemma_key_order_antisymmetric(
    a: Seq<Seq<char>>,
    b: Seq<Seq<char>>,
    asc: Seq<bool>,
    i: int,
)
    requires
        a.len() == b.len(),
        0 <= i,
    ensures
        key_order_from(b, a, asc, i) == -key_order_from(a, b, asc, i),
    decreases a.len() - i,
{
    if i < a.len() && i < asc.len() {
        lemma_value_order_antisymmetric(a[i], b[i]);
        lemma_key_order_antisymmetric(a, b, asc, i + 1);
    }
}

/// The order of keys of one length is transitive, and strict where one
/// step is.
pub proof fn lemma_key_order_transitive(
    a: Seq<Seq<char>>,
    b: Seq<Seq<char>>,
    c: Seq<Seq<char>>,
    asc: Seq<bool>,
    i: int,
)
    requires
        a.len() == b.len(),
        b.len() == c.len(),
        0 <= i,
        key_order_from(a, b, asc, i) <= 0,
        key_order_from(b, c, asc, i) <= 0,
    ensures
        key_order_from(a, c, asc, i) <= 0,
        key_order_from(a, b, asc, i) < 0 || key_order_from(b, c, asc, i) < 0 ==> key_order_from(
            a,
            c,
            asc,
            i,
        ) < 0,
    decreases a.len() - i,
{
    if i < a.len() && i < asc.len() {
        let ab = value_order(a[i], b[i]);
        let bc = value_order(b[i], c[i]);
        lemma_value_order_antisymmetric(a[i], b[i]);
        lemma_value_order_antisymmetric(b[i], c[i]);
        lemma_value_order_antisymmetric(a[i], c[i]);
        if asc[i] {
            lemma_value_order_transitive(a[i], b[i], c[i]);
        } else {
            lemma_value_order_transitive(c[i], b[i], a[i]);
        }
        if ab == 0 && bc == 0 {
            lemma_key_order_transitive(a, b, c, asc, i + 1);
        }
    }
}

/// The place of a new key lies inside the buffer or at its end; the items
/// before it do not come after the key, and the item at it comes after the
/// key.
pub proof fn lemma_place(items: Seq<ItemView>, key: Seq<Seq<char>>, asc: Seq<bool>)
    ensures
        0 <= place(items, key, asc) <= items.len(),
        forall|i: int|
            0 <= i < place(items, key, asc) ==> key_order(key, (#[trigger] items[i]).key, asc)
                >= 0,
        place(items, key, asc) < items.len() ==> key_order(
            key,
            items[place(items, key, asc)].key,
            asc,
        ) < 0,
    decreases items.len(),
{
    if items.len() > 0 && !(key_order(key, items[0].key, asc) < 0) {
        let rest = items.drop_first();
        lemma_place(rest, key, asc);
        let p = place(items, key, asc);
        assert forall|i: int| 0 <= i < p implies key_order(key, (#[trigger] items[i]).key, asc)
            >= 0 by {
            if i > 0 {
                assert(items[i] == rest[i - 1]);
            }
        }
        if p < items.len() {
            assert(items[p] == rest[p - 1]);
        }
    }
}

/// A buffer in order stays in order when a row arrives, and the row that
/// leaves when the limit is passed is one that none of the rows that stay
/// comes after: the buffer holds the rows with the smallest keys.
pub proof fn lemma_insert_keeps_order(
    items: Seq<ItemView>,
    item: ItemView,
    asc: Seq<bool>,
    limit: Option<u32>,
)
    requires
        sorted(items, asc),
        keys_have(items, item.key.len()),
    ensures
        sorted(inserted(items, item, asc, limit), asc),
        keys_have(inserted(items, item, asc, limit), item.key.len()),
        sorted(items.insert(place(items, item.key, asc), item), asc),
{
    lemma_place(items, item.key, asc);
    let p = place(items, item.key, asc);
    let grown = items.insert(p, item);
    assert forall|i: int, j: int| 0 <= i < j < grown.len() implies key_order(
        (#[trigger] grown[i]).key,
        (#[trigger] grown[j]).key,
        asc,
    ) <= 0 by {
        if j < p {
            assert(grown[i] == items[i] && grown[j] == items[j]);
        } else if j == p {
            assert(grown[i] == items[i]);
            lemma_key_order_antisymmetric(item.key, items[i].key, asc, 0);
        } else if i < p {
            assert(grown[i] == items[i] && grown[j] == items[j - 1]);
        } else if i == p {
            assert(grown[j] == items[j - 1]);
            if j - 1 > p {
                assert(key_order(items[p].key, items[j - 1].key, asc) <= 0);
                lemma_key_order_transitive(item.key, items[p].key, items[j - 1].key, asc, 0);
            }
        } else {
            assert(grown[i] == items[i - 1] && grown[j] == items[j - 1]);
        }
    }
    assert forall|i: int| 0 <= i < grown.len() implies (#[trigger] grown[i]).key.len()
        == item.key.len() by {
        if i < p {
            assert(grown[i] == items[i]);
        } else if i > p {
            assert(grown[i] == items[i - 1]);
        }
    }
    let kept = inserted(items, item, asc, limit);
    assert forall|i: int, j: int| 0 <= i < j < kept.len() implies key_order(
        (#[trigger] kept[i]).key,
        (#[trigger] kept[j]).key,
        asc,
    ) <= 0 by {
        assert(kept[i] == grown[i] && kept[j] == grown[j]);
    }
    assert forall|i: int| 0 <= i < kept.len() implies (#[trigger] kept[i]).key.len()
        == item.key.len() by {
        assert(kept[i] == grown[i]);
    }
}

/// The row that leaves a full buffer is one that no row that stays comes
/// after: it is the last of the rows in the order of their keys.
pub proof fn lemma_what_leaves_is_last(items: Seq<ItemView>, item: ItemView, asc: Seq<bool>, l: u32)
    requires
        sorted(items, asc),
        keys_have(items, item.key.len()),
        items.len() == l,
    ensures
        ({
            let grown = items.insert(place(items, item.key, asc), item);
            let kept = inserted(items, item, asc, Some(l));
            &&& kept == grown.drop_last()
            &&& forall|i: int|
                0 <= i < kept.len() ==> key_order(
                    (#[trigger] kept[i]).key,
                    grown.last().key,
                    asc,
                ) <= 0
        }),
{
    lemma_place(items, item.key, asc);
    lemma_insert_keeps_order(items, item, asc, Some(l));
    let grown = items.insert(place(items, item.key, asc), item);
    let kept = inserted(items, item, asc, Some(l));
    assert forall|i: int| 0 <= i < kept.len() implies key_order(
        (#[trigger] kept[i]).key,
        grown.last().key,
        asc,
    ) <= 0 by {
        assert(kept[i] == grown[i]);
    }
}

} // verus!
