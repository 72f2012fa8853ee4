//! Stable ordering of records by lexicographic integer keys.
//!
//! A sort is described by the permutation it applies: the one arrangement of
//! the positions in which keys never decrease and equal keys keep their
//! original relative position.
use vstd::prelude::*;

verus! {

/// `a` comes strictly before `b` in lexicographic order.
pub open spec fn lex_lt(a: Seq<int>, b: Seq<int>) -> bool
    decreases a.len(),
{
    if b.len() == 0 {
        false
    } else if a.len() == 0 {
        true
    } else if a[0] != b[0] {
        a[0] < b[0]
    } else {
        lex_lt(a.drop_first(), b.drop_first())
    }
}

/// Position `i` is placed before position `j` when the records with keys
/// `keys` are sorted stably.
pub open spec fn placed_before(keys: Seq<Seq<int>>, i: int, j: int) -> bool {
    lex_lt(keys[i], keys[j]) || (keys[i] == keys[j] && i < j)
}

/// `p` lists positions of `keys`, each placed before all that follow it.
pub open spec fn in_order(keys: Seq<Seq<int>>, p: Seq<int>) -> bool {
    &&& forall|x: int| 0 <= x < p.len() ==> 0 <= #[trigger] p[x] < keys.len()
    &&& forall|x: int, y: int|
        0 <= x < y < p.len() ==> #[trigger] placed_before(keys, p[x], p[y])
}

/// `p` is the stable sort of all positions of `keys`.
pub open spec fn is_sort_order(keys: Seq<Seq<int>>, p: Seq<int>) -> bool {
    p.len() == keys.len() && in_order(keys, p)
}

/// The stable sort of the positions of `keys`.
pub open spec fn sort_order_of(keys: Seq<Seq<int>>) -> Seq<int> {
    choose|p: Seq<int>| is_sort_order(keys, p)
}

/// A record that is ordered by a sequence of integers.
pub trait SortKey: Sized {
    spec fn sort_key(&self) -> Seq<int>;

    fn precedes(&self, other: &Self) -> (b: bool)
        ensures
            b == lex_lt(self.sort_key(), other.sort_key()),
    ;
}

/// A key of one integer.
pub struct Key1 {
    pub first: i64,
}

impl SortKey for Key1 {
    open spec fn sort_key(&self) -> Seq<int> {
        seq![self.first as int]
    }

    fn precedes(&self, other: &Self) -> (b: bool) {
        reveal_with_fuel(lex_lt, 2);
        assert(self.sort_key().drop_first() =~= Seq::<int>::empty());
        assert(other.sort_key().drop_first() =~= Seq::<int>::empty());
        self.first < other.first
    }
}

/// A key of two integers.
pub struct Key2 {
    pub first: i64,
    pub second: i64,
}

impl SortKey for Key2 {
    open spec fn sort_key(&self) -> Seq<int> {
        seq![self.first as int, self.second as int]
    }

    fn precedes(&self, other: &Self) -> (b: bool) {
        proof {
            assert(self.sort_key().drop_first() =~= seq![self.second as int]);
            assert(other.sort_key().drop_first() =~= seq![other.second as int]);
            reveal_with_fuel(lex_lt, 3);
        }
        if self.first != other.first {
            self.first < other.first
        } else {
            self.second < other.second
        }
    }
}

/// Lexicographic order of pairs.
pub proof fn lex_lt_pair(a: Seq<int>, b: Seq<int>)
    requires
        a.len() == 2,
        b.len() == 2,
    ensures
        lex_lt(a, b) <==> a[0] < b[0] || (a[0] == b[0] && a[1] < b[1]),
{
    reveal_with_fuel(lex_lt, 3);
}

/// Lexicographic order of triples.
pub proof fn lex_lt_triple(a: Seq<int>, b: Seq<int>)
    requires
        a.len() == 3,
        b.len() == 3,
    ensures
        lex_lt(a, b) <==> a[0] < b[0] || (a[0] == b[0] && (a[1] < b[1] || (a[1] == b[1] && a[2]
            < b[2]))),
{
    reveal_with_fuel(lex_lt, 4);
    assert(a.drop_first().drop_first()[0] == a[2]);
    assert(b.drop_first().drop_first()[0] == b[2]);
}

/// A key of three integers.
pub struct Key3 {
    pub first: i64,
    pub second: i64,
    pub third: i64,
}

impl SortKey for Key3 {
    open spec fn sort_key(&self) -> Seq<int> {
        seq![self.first as int, self.second as int, self.third as int]
    }

    fn precedes(&self, other: &Self) -> (b: bool) {
        proof {
            let a = self.sort_key();
            let b = other.sort_key();
            assert(a.drop_first().drop_first() =~= seq![self.third as int]);
            assert(b.drop_first().drop_first() =~= seq![other.third as int]);
            reveal_with_fuel(lex_lt, 4);
        }
        if self.first != other.first {
            self.first < other.first
        } else if self.second != other.second {
            self.second < other.second
        } else {
            self.third < other.third
        }
    }
}

/// Characters as integers.
pub open spec fn char_codes(text: Seq<char>) -> Seq<int> {
    text.map_values(|c: char| c as int)
}

/// A key of two integers and a text, which is ordered by code points.
pub struct TextKey {
    pub first: i64,
    pub second: i64,
    pub text: Vec<char>,
}

impl SortKey for TextKey {
    open spec fn sort_key(&self) -> Seq<int> {
        seq![self.first as int, self.second as int] + char_codes(self.text@)
    }

    fn precedes(&self, other: &Self) -> (b: bool) {
        let ghost a = self.sort_key();
        let ghost b = other.sort_key();
        proof {
            assert(a.drop_first().drop_first() =~= char_codes(self.text@));
            assert(b.drop_first().drop_first() =~= char_codes(other.text@));
            assert(a[0] == self.first && a.drop_first()[0] == self.second);
            assert(b[0] == other.first && b.drop_first()[0] == other.second);
            reveal_with_fuel(lex_lt, 3);
        }
        if self.first != other.first {
            self.first < other.first
        } else if self.second != other.second {
            self.second < other.second
        } else {
            text_precedes(&self.text, &other.text)
        }
    }
}

/// Sequences that agree up to `i` are ordered by what follows.
pub proof fn lex_lt_after(a: Seq<int>, b: Seq<int>, i: int)
    requires
        0 <= i <= a.len(),
        i <= b.len(),
        a.subrange(0, i) == b.subrange(0, i),
    ensures
        lex_lt(a, b) == lex_lt(a.subrange(i, a.len() as int), b.subrange(i, b.len() as int)),
    decreases i,
{
    if i > 0 {
        let x = a.drop_first();
        let y = b.drop_first();
        assert(a[0] == a.subrange(0, i)[0]);
        assert(b[0] == b.subrange(0, i)[0]);
        assert(x.subrange(0, i - 1) =~= a.subrange(0, i).drop_first());
        assert(y.subrange(0, i - 1) =~= b.subrange(0, i).drop_first());
        lex_lt_after(x, y, i - 1);
        assert(x.subrange(i - 1, x.len() as int) =~= a.subrange(i, a.len() as int));
        assert(y.subrange(i - 1, y.len() as int) =~= b.subrange(i, b.len() as int));
    } else {
        assert(a.subrange(0, a.len() as int) =~= a);
        assert(b.subrange(0, b.len() as int) =~= b);
    }
}

/// The code point of a character.
fn code_point(c: char) -> (n: u32)
    ensures
        n == c as int,
{
    c as u32
}

/// Whether `a` comes strictly before `b` by code points.
pub fn text_precedes(a: &Vec<char>, b: &Vec<char>) -> (before: bool)
    ensures
        before == lex_lt(char_codes(a@), char_codes(b@)),
{
    let ghost x = char_codes(a@);
    let ghost y = char_codes(b@);
    let mut i: usize = 0;
    while i < a.len() && i < b.len() && a[i] == b[i]
        invariant
            i <= a.len(),
            i <= b.len(),
            x == char_codes(a@),
            y == char_codes(b@),
            x.subrange(0, i as int) =~= y.subrange(0, i as int),
        decreases a.len() - i,
    {
        i = i + 1;
    }
    proof {
        lex_lt_after(x, y, i as int);
        let xs = x.subrange(i as int, x.len() as int);
        let ys = y.subrange(i as int, y.len() as int);
        if i < a.len() && i < b.len() {
            assert(xs[0] == a@[i as int] as int);
            assert(ys[0] == b@[i as int] as int);
            assert(xs[0] != ys[0]);
        }
        assert(lex_lt(x, y) == lex_lt(xs, ys));
    }
    if i >= b.len() {
        false
    } else if i >= a.len() {
        true
    } else {
        code_point(a[i]) < code_point(b[i])
    }
}

/// Numbers as integers.
pub open spec fn numbers(parts: Seq<i128>) -> Seq<int> {
    parts.map_values(|n: i128| n as int)
}

/// A key of any number of integers.
pub struct ListKey {
    pub parts: Vec<i128>,
}

impl SortKey for ListKey {
    open spec fn sort_key(&self) -> Seq<int> {
        numbers(self.parts@)
    }

    fn precedes(&self, other: &Self) -> (b: bool) {
        let a = &self.parts;
        let b = &other.parts;
        let ghost x = numbers(a@);
        let ghost y = numbers(b@);
        let mut i: usize = 0;
        while i < a.len() && i < b.len() && a[i] == b[i]
            invariant
                i <= a.len(),
                i <= b.len(),
                x == numbers(a@),
                y == numbers(b@),
                x.subrange(0, i as int) =~= y.subrange(0, i as int),
            decreases a.len() - i,
        {
            i = i + 1;
        }
        proof {
            lex_lt_after(x, y, i as int);
            let xs = x.subrange(i as int, x.len() as int);
            let ys = y.subrange(i as int, y.len() as int);
            if i < a.len() && i < b.len() {
                assert(xs[0] == a@[i as int] as int);
                assert(ys[0] == b@[i as int] as int);
            }
            assert(lex_lt(x, y) == lex_lt(xs, ys));
        }
        if i >= b.len() {
            false
        } else if i >= a.len() {
            true
        } else {
            a[i] < b[i]
        }
    }
}

/// The sort keys of a sequence of records.
pub open spec fn keys_of<T: SortKey>(items: Seq<T>) -> Seq<Seq<int>> {
    items.map_values(|t: T| t.sort_key())
}

pub proof fn lex_lt_irreflexive(a: Seq<int>)
    ensures
        !lex_lt(a, a),
    decreases a.len(),
{
    if a.len() > 0 {
        lex_lt_irreflexive(a.drop_first());
    }
}

pub proof fn lex_lt_transitive(a: Seq<int>, b: Seq<int>, c: Seq<int>)
    requires
        lex_lt(a, b),
        lex_lt(b, c),
    ensures
        lex_lt(a, c),
    decreases a.len(),
{
    if a.len() > 0 && b.len() > 0 && c.len() > 0 && a[0] == b[0] && b[0] == c[0] {
        lex_lt_transitive(a.drop_first(), b.drop_first(), c.drop_first());
    }
}

pub proof fn lex_lt_total(a: Seq<int>, b: Seq<int>)
    ensures
        lex_lt(a, b) || lex_lt(b, a) || a == b,
    decreases a.len(),
{
    if a.len() > 0 && b.len() > 0 && a[0] == b[0] {
        lex_lt_total(a.drop_first(), b.drop_first());
        if a.drop_first() == b.drop_first() {
            assert(a =~= seq![a[0]] + a.drop_first());
            assert(b =~= seq![b[0]] + b.drop_first());
        }
    } else if a.len() == 0 && b.len() == 0 {
        assert(a =~= b);
    }
}

pub proof fn placed_before_transitive(keys: Seq<Seq<int>>, i: int, j: int, k: int)
    requires
        placed_before(keys, i, j),
        placed_before(keys, j, k),
    ensures
        placed_before(keys, i, k),
{
    if lex_lt(keys[i], keys[j]) && lex_lt(keys[j], keys[k]) {
        lex_lt_transitive(keys[i], keys[j], keys[k]);
    }
}

pub proof fn placed_before_irreflexive(keys: Seq<Seq<int>>, i: int)
    ensures
        !placed_before(keys, i, i),
{
    lex_lt_irreflexive(keys[i]);
}

pub proof fn placed_before_total(keys: Seq<Seq<int>>, i: int, j: int)
    ensures
        placed_before(keys, i, j) || placed_before(keys, j, i) || i == j,
{
    lex_lt_total(keys[i], keys[j]);
}

/// No position is listed twice by an ordered listing.
pub proof fn in_order_distinct(keys: Seq<Seq<int>>, p: Seq<int>)
    requires
        in_order(keys, p),
    ensures
        p.no_duplicates(),
{
    assert forall|x: int, y: int| 0 <= x < p.len() && 0 <= y < p.len() && x != y implies p[x]
        != p[y] by {
        placed_before_irreflexive(keys, p[x]);
        if x < y {
            assert(placed_before(keys, p[x], p[y]));
        } else {
            assert(placed_before(keys, p[y], p[x]));
        }
    }
}

/// Two ordered listings of the same positions are the same listing.
proof fn in_order_determined(keys: Seq<Seq<int>>, p: Seq<int>, q: Seq<int>)
    requires
        in_order(keys, p),
        in_order(keys, q),
        p.to_set() == q.to_set(),
    ensures
        p == q,
    decreases p.len(),
{
    in_order_distinct(keys, p);
    in_order_distinct(keys, q);
    p.unique_seq_to_set();
    q.unique_seq_to_set();
    if p.len() == 0 {
        assert(p =~= q);
    } else {
        assert(p.to_set().contains(p[0]));
        assert(q.to_set().contains(q[0]));
        let a: int = choose|a: int| 0 <= a < q.len() && q[a] == p[0];
        let b: int = choose|b: int| 0 <= b < p.len() && p[b] == q[0];
        if a > 0 && b > 0 {
            assert(placed_before(keys, q[0], q[a]));
            assert(placed_before(keys, p[0], p[b]));
            placed_before_transitive(keys, p[0], q[0], p[0]);
            placed_before_irreflexive(keys, p[0]);
        }
        assert(p[0] == q[0]);
        let pt = p.drop_first();
        let qt = q.drop_first();
        assert(pt.to_set() =~= p.to_set().remove(p[0])) by {
            assert forall|v: int| pt.to_set().contains(v) <==> p.to_set().remove(p[0]).contains(
                v,
            ) by {
                if pt.to_set().contains(v) {
                    let x: int = choose|x: int| 0 <= x < pt.len() && pt[x] == v;
                    assert(p[x + 1] == v);
                }
                if p.to_set().remove(p[0]).contains(v) {
                    let x: int = choose|x: int| 0 <= x < p.len() && p[x] == v;
                    assert(pt[x - 1] == v);
                }
            }
        }
        assert(qt.to_set() =~= q.to_set().remove(q[0])) by {
            assert forall|v: int| qt.to_set().contains(v) <==> q.to_set().remove(q[0]).contains(
                v,
            ) by {
                if qt.to_set().contains(v) {
                    let x: int = choose|x: int| 0 <= x < qt.len() && qt[x] == v;
                    assert(q[x + 1] == v);
                }
                if q.to_set().remove(q[0]).contains(v) {
                    let x: int = choose|x: int| 0 <= x < q.len() && q[x] == v;
                    assert(qt[x - 1] == v);
                }
            }
        }
        assert forall|x: int, y: int| 0 <= x < y < pt.len() implies #[trigger] placed_before(
            keys,
            pt[x],
            pt[y],
        ) by {
            assert(placed_before(keys, p[x + 1], p[y + 1]));
        }
        assert forall|x: int, y: int| 0 <= x < y < qt.len() implies #[trigger] placed_before(
            keys,
            qt[x],
            qt[y],
        ) by {
            assert(placed_before(keys, q[x + 1], q[y + 1]));
        }
        in_order_determined(keys, pt, qt);
        assert(p =~= seq![p[0]] + pt);
        assert(q =~= seq![q[0]] + qt);
    }
}

/// A sort order lists every position.
pub proof fn sort_order_covers(keys: Seq<Seq<int>>, p: Seq<int>)
    requires
        is_sort_order(keys, p),
    ensures
        p.no_duplicates(),
        p.to_set() == Set::new(|i: int| 0 <= i < keys.len()),
        forall|i: int| 0 <= i < keys.len() ==> #[trigger] p.contains(i),
{
    in_order_distinct(keys, p);
    p.unique_seq_to_set();
    let all = vstd::set_lib::set_int_range(0, keys.len() as int);
    vstd::set_lib::lemma_int_range(0, keys.len() as int);
    assert(p.to_set().subset_of(all)) by {
        assert forall|v: int| p.to_set().contains(v) implies all.contains(v) by {
            let x: int = choose|x: int| 0 <= x < p.len() && p[x] == v;
            assert(0 <= p[x] < keys.len());
        }
    }
    vstd::set_lib::lemma_subset_equality(p.to_set(), all);
    assert(all =~= Set::new(|i: int| 0 <= i < keys.len()));
    assert forall|i: int| 0 <= i < keys.len() implies #[trigger] p.contains(i) by {
        assert(all.contains(i));
        assert(p.to_set().contains(i));
    }
}

/// Every sequence of keys has a sort order.
pub proof fn sort_order_exists(keys: Seq<Seq<int>>)
    ensures
        is_sort_order(keys, sort_order_of(keys)),
    decreases keys.len(),
{
    if keys.len() == 0 {
        assert(is_sort_order(keys, Seq::<int>::empty()));
    } else {
        let front = keys.drop_last();
        let last: int = keys.len() - 1;
        sort_order_exists(front);
        let q = sort_order_of(front);
        // Everything that is placed before the last position stands in front.
        let cut = cut_point(keys, q, last, q.len());
        cut_point_splits(keys, q, last, q.len());
        let p = q.subrange(0, cut as int) + seq![last] + q.subrange(cut as int, q.len() as int);
        assert forall|x: int, y: int| 0 <= x < y < p.len() implies #[trigger] placed_before(
            keys,
            p[x],
            p[y],
        ) by {
            let qx: int = if x < cut {
                x
            } else {
                x - 1
            };
            let qy: int = if y < cut {
                y
            } else {
                y - 1
            };
            if x != cut && y != cut {
                assert(placed_before(front, q[qx], q[qy]));
            } else if x == cut {
                placed_before_total(keys, last, q[qy]);
            }
        }
        assert(is_sort_order(keys, p));
    }
}

/// How many of the first `n` positions of `q` stand before the first one that
/// is not placed before `last`.
spec fn cut_point(keys: Seq<Seq<int>>, q: Seq<int>, last: int, n: nat) -> nat
    decreases n,
{
    if n == 0 {
        0
    } else if placed_before(keys, q[n - 1], last) {
        n
    } else {
        cut_point(keys, q, last, (n - 1) as nat)
    }
}

proof fn cut_point_splits(keys: Seq<Seq<int>>, q: Seq<int>, last: int, n: nat)
    requires
        keys.len() > 0,
        last == keys.len() - 1,
        in_order(keys.drop_last(), q),
        n <= q.len(),
    ensures
        cut_point(keys, q, last, n) <= n,
        forall|x: int|
            0 <= x < cut_point(keys, q, last, n) ==> placed_before(keys, #[trigger] q[x], last),
        forall|x: int|
            cut_point(keys, q, last, n) <= x < n ==> !placed_before(keys, #[trigger] q[x], last),
    decreases n,
{
    if n > 0 {
        if placed_before(keys, q[n - 1], last) {
            assert forall|x: int| 0 <= x < n implies placed_before(keys, #[trigger] q[x], last) by {
                if x < n - 1 {
                    assert(placed_before(keys.drop_last(), q[x], q[n - 1]));
                    placed_before_transitive(keys, q[x], q[n - 1], last);
                }
            }
        } else {
            cut_point_splits(keys, q, last, (n - 1) as nat);
        }
    }
}

/// There is only one sort order.
pub proof fn sort_order_unique(keys: Seq<Seq<int>>, p: Seq<int>)
    requires
        is_sort_order(keys, p),
    ensures
        p == sort_order_of(keys),
{
    sort_order_exists(keys);
    sort_order_covers(keys, p);
    sort_order_covers(keys, sort_order_of(keys));
    in_order_determined(keys, p, sort_order_of(keys));
}

/// Positions held as machine integers, as mathematical ones.
pub open spec fn positions(p: Seq<usize>) -> Seq<int> {
    p.map_values(|i: usize| i as int)
}

/// Merges two ordered listings of neighbouring blocks of positions.
fn merge_orders<T: SortKey>(items: &[T], left: &Vec<usize>, right: &Vec<usize>, Ghost(mid): Ghost<int>) -> (p: Vec<usize>)
    requires
        in_order(keys_of(items@), positions(left@)),
        in_order(keys_of(items@), positions(right@)),
        forall|x: int| 0 <= x < left.len() ==> #[trigger] left[x] < mid,
        forall|x: int| 0 <= x < right.len() ==> mid <= #[trigger] right[x],
        left.len() + right.len() <= usize::MAX,
    ensures
        p.len() == left.len() + right.len(),
        in_order(keys_of(items@), positions(p@)),
        forall|v: usize| p@.contains(v) ==> left@.contains(v) || right@.contains(v),
{
    let ghost keys = keys_of(items@);
    let mut out: Vec<usize> = Vec::with_capacity(left.len() + right.len());
    let mut a: usize = 0;
    let mut b: usize = 0;
    while a < left.len() || b < right.len()
        invariant
            a <= left.len(),
            b <= right.len(),
            left.len() + right.len() <= usize::MAX,
            keys == keys_of(items@),
            out.len() == a + b,
            in_order(keys, positions(left@)),
            in_order(keys, positions(right@)),
            in_order(keys, positions(out@)),
            forall|x: int| 0 <= x < left.len() ==> #[trigger] left[x] < mid,
            forall|x: int| 0 <= x < right.len() ==> mid <= #[trigger] right[x],
            forall|z: int, x: int|
                0 <= z < out.len() && a <= x < left.len() ==> #[trigger] placed_before(
                    keys,
                    positions(out@)[z],
                    positions(left@)[x],
                ),
            forall|z: int, x: int|
                0 <= z < out.len() && b <= x < right.len() ==> #[trigger] placed_before(
                    keys,
                    positions(out@)[z],
                    positions(right@)[x],
                ),
            forall|z: int|
                0 <= z < out.len() ==> left@.contains(#[trigger] out@[z]) || right@.contains(
                    out@[z],
                ),
        decreases left.len() - a + right.len() - b,
    {
        let ghost before = positions(out@);
        let ghost lp = positions(left@);
        let ghost rp = positions(right@);
        let take_right: bool = if a >= left.len() {
            true
        } else if b >= right.len() {
            false
        } else {
            assert(0 <= lp[a as int] < keys.len());
            assert(0 <= rp[b as int] < keys.len());
            items[right[b]].precedes(&items[left[a]])
        };
        proof {
            if a < left.len() && b < right.len() {
                let i = lp[a as int];
                let j = rp[b as int];
                assert(keys[i] == items@[i].sort_key());
                assert(keys[j] == items@[j].sort_key());
                lex_lt_total(keys[i], keys[j]);
                assert(left[a as int] < mid <= right[b as int]);
                if take_right {
                    assert(placed_before(keys, j, i));
                    assert forall|x: int| a <= x < left.len() implies placed_before(
                        keys,
                        j,
                        #[trigger] lp[x],
                    ) by {
                        if x > a {
                            assert(placed_before(keys, lp[a as int], lp[x]));
                            placed_before_transitive(keys, j, i, lp[x]);
                        }
                    }
                } else {
                    assert(placed_before(keys, i, j));
                    assert forall|x: int| b <= x < right.len() implies placed_before(
                        keys,
                        i,
                        #[trigger] rp[x],
                    ) by {
                        if x > b {
                            assert(placed_before(keys, rp[b as int], rp[x]));
                            placed_before_transitive(keys, i, j, rp[x]);
                        }
                    }
                }
            }
        }
        if take_right {
            out.push(right[b]);
            b = b + 1;
        } else {
            out.push(left[a]);
            a = a + 1;
        }
        proof {
            let after = positions(out@);
            assert(after =~= before.push(after.last()));
            if take_right {
                assert(after.last() == rp[b - 1]);
                assert(right@.contains(out@.last()));
                assert forall|x: int| b <= x < right.len() implies placed_before(
                    keys,
                    after.last(),
                    #[trigger] rp[x],
                ) by {
                    assert(placed_before(keys, rp[b - 1], rp[x]));
                }
            } else {
                assert(after.last() == lp[a - 1]);
                assert(left@.contains(out@.last()));
                assert forall|x: int| a <= x < left.len() implies placed_before(
                    keys,
                    after.last(),
                    #[trigger] lp[x],
                ) by {
                    assert(placed_before(keys, lp[a - 1], lp[x]));
                }
            }
            assert forall|z: int| 0 <= z < after.len() implies 0 <= #[trigger] after[z]
                < keys.len() by {
                if z < before.len() {
                    assert(after[z] == before[z]);
                }
            }
            assert forall|z: int, x: int| 0 <= z < x < after.len() implies #[trigger] placed_before(
                keys,
                after[z],
                after[x],
            ) by {
                assert(after[z] == before[z]);
                if x < before.len() {
                    assert(after[x] == before[x]);
                    assert(placed_before(keys, before[z], before[x]));
                } else if take_right {
                    assert(placed_before(keys, before[z], rp[b - 1]));
                } else {
                    assert(placed_before(keys, before[z], lp[a - 1]));
                }
            }
            assert forall|z: int, x: int|
                0 <= z < out.len() && a <= x < left.len() implies #[trigger] placed_before(
                keys,
                after[z],
                lp[x],
            ) by {
                if z < before.len() {
                    assert(after[z] == before[z]);
                    assert(placed_before(keys, before[z], lp[x]));
                } else {
                    assert(placed_before(keys, after.last(), lp[x]));
                }
            }
            assert forall|z: int, x: int|
                0 <= z < out.len() && b <= x < right.len() implies #[trigger] placed_before(
                keys,
                after[z],
                rp[x],
            ) by {
                if z < before.len() {
                    assert(after[z] == before[z]);
                    assert(placed_before(keys, before[z], rp[x]));
                } else {
                    assert(placed_before(keys, after.last(), rp[x]));
                }
            }
            assert forall|z: int| 0 <= z < out.len() implies left@.contains(#[trigger] out@[z])
                || right@.contains(out@[z]) by {
                if z < before.len() {
                    assert(after[z] == before[z]);
                }
            }
        }
    }
    proof {
        assert forall|v: usize| out@.contains(v) implies left@.contains(v) || right@.contains(v) by {
            let z: int = choose|z: int| 0 <= z < out@.len() && out@[z] == v;
            assert(left@.contains(out@[z]) || right@.contains(out@[z]));
        }
    }
    out
}

/// Sorts the positions from `lo` up to `hi`.
fn sort_block<T: SortKey>(items: &[T], lo: usize, hi: usize) -> (p: Vec<usize>)
    requires
        lo <= hi <= items.len(),
    ensures
        p.len() == hi - lo,
        in_order(keys_of(items@), positions(p@)),
        forall|x: int| 0 <= x < p.len() ==> lo <= #[trigger] p[x] < hi,
    decreases hi - lo,
{
    if hi - lo == 0 {
        Vec::new()
    } else if hi - lo == 1 {
        let mut p: Vec<usize> = Vec::new();
        p.push(lo);
        p
    } else {
        let mid: usize = lo + (hi - lo) / 2;
        let left = sort_block(items, lo, mid);
        let right = sort_block(items, mid, hi);
        let p = merge_orders(items, &left, &right, Ghost(mid as int));
        proof {
            assert forall|x: int| 0 <= x < p.len() implies lo <= #[trigger] p[x] < hi by {
                assert(p@.contains(p@[x]));
                if left@.contains(p@[x]) {
                    let y: int = choose|y: int| 0 <= y < left@.len() && left@[y] == p@[x];
                    assert(left[y] == p[x]);
                } else {
                    let y: int = choose|y: int| 0 <= y < right@.len() && right@[y] == p@[x];
                    assert(right[y] == p[x]);
                }
            }
        }
        p
    }
}

/// The positions of `items` in stable sort order.
pub fn sort_order<T: SortKey>(items: &[T]) -> (p: Vec<usize>)
    ensures
        positions(p@) == sort_order_of(keys_of(items@)),
        is_sort_order(keys_of(items@), positions(p@)),
{
    let p = sort_block(items, 0, items.len());
    proof {
        sort_order_unique(keys_of(items@), positions(p@));
    }
    p
}

/// Pairs in lexicographic order.
pub open spec fn pair_lt(a: (i64, i64), b: (i64, i64)) -> bool {
    a.0 < b.0 || (a.0 == b.0 && a.1 < b.1)
}

/// The pairs grow strictly.
pub open spec fn pairs_grow(pairs: Seq<(i64, i64)>) -> bool {
    forall|i: int, j: int|
        0 <= i < j < pairs.len() ==> pair_lt(#[trigger] pairs[i], #[trigger] pairs[j])
}

/// The numbers grow strictly.
pub open spec fn numbers_grow(values: Seq<i64>) -> bool {
    forall|i: int, j: int|
        0 <= i < j < values.len() ==> #[trigger] values[i] < #[trigger] values[j]
}

/// The pairs in order, each once.
pub fn distinct_pairs(pairs: &Vec<(i64, i64)>) -> (out: Vec<(i64, i64)>)
    ensures
        pairs_grow(out@),
        forall|p: (i64, i64)| #[trigger] out@.contains(p) <==> pairs@.contains(p),
{
    let mut keys: Vec<Key2> = Vec::with_capacity(pairs.len());
    let mut i: usize = 0;
    while i < pairs.len()
        invariant
            i <= pairs.len(),
            keys.len() == i,
            forall|x: int|
                0 <= x < i ==> (#[trigger] keys@[x]).first == pairs@[x].0 && keys@[x].second
                    == pairs@[x].1,
        decreases pairs.len() - i,
    {
        keys.push(Key2 { first: pairs[i].0, second: pairs[i].1 });
        i = i + 1;
    }
    let order = sort_order(keys.as_slice());
    let ghost p = positions(order@);
    let ghost ks = keys_of(keys@);
    let ghost sorted = Seq::new(p.len(), |x: int| pairs@[p[x]]);
    proof {
        sort_order_covers(ks, p);
        assert forall|x: int, y: int| 0 <= x < y < sorted.len() implies {
            ||| pair_lt(#[trigger] sorted[x], #[trigger] sorted[y])
            ||| sorted[x] == sorted[y]
        } by {
            assert(placed_before(ks, p[x], p[y]));
            let a = keys@[p[x]];
            let b = keys@[p[y]];
            assert(ks[p[x]] == a.sort_key());
            assert(ks[p[y]] == b.sort_key());
            if lex_lt(ks[p[x]], ks[p[y]]) {
                lex_lt_pair(ks[p[x]], ks[p[y]]);
            } else {
                assert(a.sort_key()[0] == b.sort_key()[0]);
                assert(a.sort_key()[1] == b.sort_key()[1]);
            }
        }
    }
    let mut out: Vec<(i64, i64)> = Vec::new();
    let mut j: usize = 0;
    while j < order.len()
        invariant
            j <= order.len(),
            p == positions(order@),
            order.len() == pairs.len(),
            forall|x: int| 0 <= x < p.len() ==> 0 <= #[trigger] p[x] < pairs.len(),
            sorted == Seq::new(p.len(), |x: int| pairs@[p[x]]),
            forall|x: int, y: int|
                0 <= x < y < sorted.len() ==> {
                    ||| pair_lt(#[trigger] sorted[x], #[trigger] sorted[y])
                    ||| sorted[x] == sorted[y]
                },
            pairs_grow(out@),
            j > 0 ==> out.len() > 0 && out@.last() == sorted[j - 1],
            j == 0 ==> out.len() == 0,
            forall|x: int| 0 <= x < j ==> out@.contains(#[trigger] sorted[x]),
            forall|x: int|
                0 <= x < out.len() ==> exists|y: int|
                    0 <= y < j && #[trigger] out@[x] == #[trigger] sorted[y],
        decreases order.len() - j,
    {
        assert(p[j as int] == order@[j as int]);
        let next: (i64, i64) = pairs[order[j]];
        assert(next == sorted[j as int]);
        let ghost before = out@;
        if out.len() == 0 || out[out.len() - 1].0 != next.0 || out[out.len() - 1].1 != next.1 {
            proof {
                if j > 0 {
                    assert(pair_lt(sorted[j - 1], sorted[j as int]));
                    assert forall|x: int| 0 <= x < before.len() implies pair_lt(
                        #[trigger] before[x],
                        next,
                    ) by {
                        if x < before.len() - 1 {
                            assert(pair_lt(before[x], before[before.len() - 1]));
                        }
                    }
                }
            }
            out.push(next);
            proof {
                assert forall|x: int| 0 <= x < j + 1 implies out@.contains(#[trigger] sorted[x]) by {
                    if x < j {
                        assert(before.contains(sorted[x]));
                        let i = choose|i: int| 0 <= i < before.len() && before[i] == sorted[x];
                        assert(out@[i] == sorted[x]);
                    } else {
                        assert(out@[before.len() as int] == sorted[x]);
                    }
                }
                assert forall|x: int| 0 <= x < out.len() implies exists|y: int|
                    0 <= y < j + 1 && #[trigger] out@[x] == #[trigger] sorted[y] by {
                    if x < before.len() {
                        assert(before[x] == out@[x]);
                    } else {
                        assert(out@[x] == sorted[j as int]);
                    }
                }
            }
        } else {
            proof {
                assert(out@[out.len() - 1] == sorted[j as int]);
            }
        }
        j = j + 1;
    }
    proof {
        assert forall|q: (i64, i64)| #[trigger] out@.contains(q) <==> pairs@.contains(q) by {
            if out@.contains(q) {
                let x = choose|x: int| 0 <= x < out@.len() && out@[x] == q;
                let y = choose|y: int|
                    0 <= y < sorted.len() && #[trigger] out@[x] == #[trigger] sorted[y];
                assert(pairs@[p[y]] == q);
            }
            if pairs@.contains(q) {
                let i = choose|i: int| 0 <= i < pairs@.len() && pairs@[i] == q;
                assert(p.contains(i));
                let x = choose|x: int| 0 <= x < p.len() && p[x] == i;
                assert(sorted[x] == q);
            }
        }
    }
    out
}

/// The numbers in order, each once.
pub fn distinct_numbers(values: &Vec<i64>) -> (out: Vec<i64>)
    ensures
        numbers_grow(out@),
        forall|v: i64| #[trigger] out@.contains(v) <==> values@.contains(v),
{
    let mut pairs: Vec<(i64, i64)> = Vec::with_capacity(values.len());
    let mut i: usize = 0;
    while i < values.len()
        invariant
            i <= values.len(),
            pairs.len() == i,
            forall|x: int| 0 <= x < i ==> #[trigger] pairs@[x] == (values@[x], 0i64),
        decreases values.len() - i,
    {
        pairs.push((values[i], 0));
        i = i + 1;
    }
    let distinct = distinct_pairs(&pairs);
    let mut out: Vec<i64> = Vec::with_capacity(distinct.len());
    let mut j: usize = 0;
    while j < distinct.len()
        invariant
            j <= distinct.len(),
            out.len() == j,
            forall|x: int| 0 <= x < j ==> #[trigger] out@[x] == distinct@[x].0,
        decreases distinct.len() - j,
    {
        out.push(distinct[j].0);
        j = j + 1;
    }
    proof {
        assert forall|x: int| 0 <= x < distinct.len() implies (#[trigger] distinct@[x]).1 == 0 by {
            assert(distinct@.contains(distinct@[x]));
            assert(pairs@.contains(distinct@[x]));
        }
        assert forall|x: int, y: int| 0 <= x < y < out.len() implies #[trigger] out@[x]
            < #[trigger] out@[y] by {
            assert(pair_lt(distinct@[x], distinct@[y]));
        }
        assert forall|v: i64| #[trigger] out@.contains(v) <==> values@.contains(v) by {
            if out@.contains(v) {
                let x = choose|x: int| 0 <= x < out@.len() && out@[x] == v;
                assert(distinct@.contains(distinct@[x]));
                assert(pairs@.contains(distinct@[x]));
                let y = choose|y: int| 0 <= y < pairs@.len() && pairs@[y] == distinct@[x];
                assert(values@[y] == v);
            }
            if values@.contains(v) {
                let y = choose|y: int| 0 <= y < values@.len() && values@[y] == v;
                assert(pairs@[y] == (v, 0i64));
                assert(distinct@.contains((v, 0i64)));
                let x = choose|x: int| 0 <= x < distinct@.len() && distinct@[x] == (v, 0i64);
                assert(out@[x] == v);
            }
        }
    }
    out
}

} // verus!
