//! Stable ordering of list items by a rank and a text.

use vstd::prelude::*;

verus! {

/// What an item is ordered by: first the rank, then the text, character by
/// character.
pub struct SortKey {
    pub rank: u8,
    pub text: Vec<char>,
}

/// Mathematical value of a `SortKey`.
pub struct SortKeyView {
    pub rank: u8,
    pub text: Seq<char>,
}

impl View for SortKey {
    type V = SortKeyView;

    open spec fn view(&self) -> SortKeyView {
        SortKeyView { rank: self.rank, text: self.text@ }
    }
}

/// The values of a list of keys, in order.
pub open spec fn key_views(keys: Seq<SortKey>) -> Seq<SortKeyView> {
    keys.map_values(|k: SortKey| k@)
}

/// Dictionary order on texts: `a` comes no later than `b`.
pub open spec fn text_le(a: Seq<char>, b: Seq<char>) -> bool
    decreases a.len(),
{
    if a.len() == 0 {
        true
    } else if b.len() == 0 {
        false
    } else if a[0] != b[0] {
        (a[0] as u32) < (b[0] as u32)
    } else {
        text_le(a.drop_first(), b.drop_first())
    }
}

/// Order on keys: `a` comes no later than `b`.
pub open spec fn key_le(a: SortKeyView, b: SortKeyView) -> bool {
    a.rank < b.rank || (a.rank == b.rank && text_le(a.text, b.text))
}

/// `sorted` with the index `x` put behind the last index whose key comes no
/// later than the key of `x`.
pub open spec fn insert_index(sorted: Seq<usize>, x: usize, keys: Seq<SortKeyView>) -> Seq<usize>
    decreases sorted.len(),
{
    if sorted.len() == 0 {
        seq![x]
    } else if key_le(keys[sorted.last() as int], keys[x as int]) {
        sorted.push(x)
    } else {
        insert_index(sorted.drop_last(), x, keys).push(sorted.last())
    }
}

/// The indices `0..n` ordered by their keys; indices with equal keys keep
/// their order.
pub open spec fn sorted_order(keys: Seq<SortKeyView>, n: nat) -> Seq<usize>
    decreases n,
{
    if n == 0 {
        Seq::empty()
    } else {
        insert_index(sorted_order(keys, (n - 1) as nat), (n - 1) as usize, keys)
    }
}

/// Whether every index in `order` points into a list of `n` items.
pub open spec fn in_range(order: Seq<usize>, n: nat) -> bool {
    forall|k: int| 0 <= k < order.len() ==> (#[trigger] order[k]) < n
}

/// Whether the keys picked by `order` never step down.
pub open spec fn ascending(order: Seq<usize>, keys: Seq<SortKeyView>) -> bool {
    forall|i: int, j: int|
        0 <= i < j < order.len() ==> key_le(
            keys[(#[trigger] order[i]) as int],
            keys[(#[trigger] order[j]) as int],
        )
}

proof fn lemma_text_le_total(a: Seq<char>, b: Seq<char>)
    ensures
        text_le(a, b) || text_le(b, a),
    decreases a.len(),
{
    if a.len() > 0 && b.len() > 0 {
        if a[0] == b[0] {
            lemma_text_le_total(a.drop_first(), b.drop_first());
        } else {
            vstd::utf8::char_u32_cast(a[0], a[0] as u32);
            vstd::utf8::char_u32_cast(b[0], b[0] as u32);
        }
    }
}

proof fn lemma_text_le_trans(a: Seq<char>, b: Seq<char>, c: Seq<char>)
    requires
        text_le(a, b),
        text_le(b, c),
    ensures
        text_le(a, c),
    decreases a.len(),
{
    if a.len() > 0 && b.len() > 0 && c.len() > 0 && a[0] == b[0] && b[0] == c[0] {
        lemma_text_le_trans(a.drop_first(), b.drop_first(), c.drop_first());
    }
}

/// Of two keys one comes no later than the other.
pub proof fn lemma_key_le_total(a: SortKeyView, b: SortKeyView)
    ensures
        key_le(a, b) || key_le(b, a),
{
    lemma_text_le_total(a.text, b.text);
}

/// The order on keys is transitive.
pub proof fn lemma_key_le_trans(a: SortKeyView, b: SortKeyView, c: SortKeyView)
    requires
        key_le(a, b),
        key_le(b, c),
    ensures
        key_le(a, c),
{
    if a.rank == b.rank && b.rank == c.rank {
        lemma_text_le_trans(a.text, b.text, c.text);
    }
}

proof fn lemma_insert_index(sorted: Seq<usize>, x: usize, keys: Seq<SortKeyView>)
    requires
        in_range(sorted, keys.len()),
        x < keys.len(),
        ascending(sorted, keys),
    ensures
        insert_index(sorted, x, keys).len() == sorted.len() + 1,
        in_range(insert_index(sorted, x, keys), keys.len()),
        ascending(insert_index(sorted, x, keys), keys),
        insert_index(sorted, x, keys).to_multiset() == sorted.to_multiset().insert(x),
    decreases sorted.len(),
{
    broadcast use vstd::seq_lib::group_to_multiset_ensures;

    let r = insert_index(sorted, x, keys);
    if sorted.len() == 0 {
        assert(sorted =~= Seq::<usize>::empty());
        assert(r =~= Seq::<usize>::empty().push(x));
    } else if key_le(keys[sorted.last() as int], keys[x as int]) {
        assert forall|i: int, j: int| 0 <= i < j < r.len() implies key_le(
            keys[(#[trigger] r[i]) as int],
            keys[(#[trigger] r[j]) as int],
        ) by {
            if j == sorted.len() {
                if i < sorted.len() - 1 {
                    assert(key_le(keys[sorted[i] as int], keys[sorted[sorted.len() - 1] as int]));
                    lemma_key_le_trans(
                        keys[sorted[i] as int],
                        keys[sorted.last() as int],
                        keys[x as int],
                    );
                }
            } else {
                assert(r[i] == sorted[i] && r[j] == sorted[j]);
            }
        }
    } else {
        let front = sorted.drop_last();
        let last = sorted.last();
        assert forall|i: int, j: int| 0 <= i < j < front.len() implies key_le(
            keys[(#[trigger] front[i]) as int],
            keys[(#[trigger] front[j]) as int],
        ) by {
            assert(front[i] == sorted[i] && front[j] == sorted[j]);
        }
        lemma_insert_index(front, x, keys);
        let inner = insert_index(front, x, keys);
        assert(r == inner.push(last));
        assert(sorted =~= front.push(last));
        lemma_key_le_total(keys[last as int], keys[x as int]);
        assert forall|i: int| 0 <= i < inner.len() implies key_le(
            keys[(#[trigger] inner[i]) as int],
            keys[last as int],
        ) by {
            assert(inner.to_multiset().count(inner[i]) > 0);
            if inner[i] != x {
                assert(front.to_multiset().count(inner[i]) > 0);
                let k = choose|k: int| 0 <= k < front.len() && front[k] == inner[i];
                assert(sorted[k] == inner[i]);
                assert(key_le(keys[sorted[k] as int], keys[sorted[sorted.len() - 1] as int]));
            }
        }
        assert forall|i: int, j: int| 0 <= i < j < r.len() implies key_le(
            keys[(#[trigger] r[i]) as int],
            keys[(#[trigger] r[j]) as int],
        ) by {
            if j < inner.len() {
                assert(r[i] == inner[i] && r[j] == inner[j]);
            } else {
                assert(r[i] == inner[i]);
            }
        }
        assert(inner.push(last).to_multiset() =~= front.push(last).to_multiset().insert(x));
    }
}

/// The sorted order holds each index below `n` once, and the keys it picks
/// never step down.
pub proof fn lemma_sorted_order(keys: Seq<SortKeyView>, n: nat)
    requires
        n <= keys.len(),
        n <= usize::MAX,
    ensures
        sorted_order(keys, n).len() == n,
        in_range(sorted_order(keys, n), n),
        ascending(sorted_order(keys, n), keys),
        forall|x: usize|
            sorted_order(keys, n).to_multiset().count(x) == if x < n {
                1nat
            } else {
                0nat
            },
    decreases n,
{
    broadcast use vstd::seq_lib::group_to_multiset_ensures;

    if n == 0 {
        assert(sorted_order(keys, n).to_multiset() =~= vstd::multiset::Multiset::<usize>::empty());
    } else {
        let m = (n - 1) as nat;
        lemma_sorted_order(keys, m);
        let s = sorted_order(keys, m);
        assert(in_range(s, keys.len()));
        lemma_insert_index(s, m as usize, keys);
        let r = sorted_order(keys, n);
        assert forall|k: int| 0 <= k < r.len() implies (#[trigger] r[k]) < n by {
            assert(r.to_multiset().count(r[k]) > 0);
        }
    }
}

/// Where `insert_index` puts `x`: behind the last index whose key comes no
/// later.
pub open spec fn insert_position(sorted: Seq<usize>, x: usize, keys: Seq<SortKeyView>) -> int
    decreases sorted.len(),
{
    if sorted.len() == 0 {
        0
    } else if key_le(keys[sorted.last() as int], keys[x as int]) {
        sorted.len() as int
    } else {
        insert_position(sorted.drop_last(), x, keys)
    }
}

proof fn lemma_insert_position(sorted: Seq<usize>, x: usize, keys: Seq<SortKeyView>)
    ensures
        0 <= insert_position(sorted, x, keys) <= sorted.len(),
        insert_index(sorted, x, keys) == sorted.insert(insert_position(sorted, x, keys), x),
        forall|j: int|
            insert_position(sorted, x, keys) <= j < sorted.len() ==> !key_le(
                keys[(#[trigger] sorted[j]) as int],
                keys[x as int],
            ),
    decreases sorted.len(),
{
    if sorted.len() == 0 {
        assert(insert_index(sorted, x, keys) =~= sorted.insert(0, x));
    } else if key_le(keys[sorted.last() as int], keys[x as int]) {
        assert(sorted.push(x) =~= sorted.insert(sorted.len() as int, x));
    } else {
        let front = sorted.drop_last();
        lemma_insert_position(front, x, keys);
        let pos = insert_position(front, x, keys);
        assert(front.insert(pos, x).push(sorted.last()) =~= sorted.insert(pos, x));
        assert forall|j: int| pos <= j < sorted.len() implies !key_le(
            keys[(#[trigger] sorted[j]) as int],
            keys[x as int],
        ) by {
            if j < front.len() {
                assert(front[j] == sorted[j]);
            }
        }
    }
}

/// Whether indices whose keys are equal in the order stand in `order` as
/// they stand in the list.
pub open spec fn stable(order: Seq<usize>, keys: Seq<SortKeyView>) -> bool {
    forall|p: int, q: int|
        0 <= p < q < order.len() && key_le(
            keys[(#[trigger] order[q]) as int],
            keys[(#[trigger] order[p]) as int],
        ) ==> order[p] < order[q]
}

/// The sorted order never lets a later item overtake an earlier one with
/// an equal key.
pub proof fn lemma_sorted_order_stable(keys: Seq<SortKeyView>, n: nat)
    requires
        n <= keys.len(),
        n <= usize::MAX,
    ensures
        stable(sorted_order(keys, n), keys),
    decreases n,
{
    if n > 0 {
        let m = (n - 1) as nat;
        lemma_sorted_order_stable(keys, m);
        lemma_sorted_order(keys, m);
        let s = sorted_order(keys, m);
        let x = m as usize;
        lemma_insert_position(s, x, keys);
        let pos = insert_position(s, x, keys);
        let r = sorted_order(keys, n);
        assert(r == s.insert(pos, x));
        assert forall|p: int, q: int|
            0 <= p < q < r.len() && key_le(
                keys[(#[trigger] r[q]) as int],
                keys[(#[trigger] r[p]) as int],
            ) implies r[p] < r[q] by {
            if q == pos {
                assert(r[p] == s[p]);
            } else if p == pos {
                assert(r[q] == s[q - 1]);
            } else {
                let sp = if p < pos {
                    p
                } else {
                    p - 1
                };
                let sq = if q < pos {
                    q
                } else {
                    q - 1
                };
                assert(r[p] == s[sp] && r[q] == s[sq]);
            }
        }
    }
}

/// Where the first key comes before every other key, the sorted order
/// begins with the first item.
pub proof fn lemma_least_stays_first(keys: Seq<SortKeyView>, n: nat)
    requires
        0 < n <= keys.len(),
        n <= usize::MAX,
        forall|i: int| 0 < i < keys.len() ==> key_le(keys[0], #[trigger] keys[i]),
    ensures
        sorted_order(keys, n).len() == n,
        sorted_order(keys, n)[0] == 0,
    decreases n,
{
    lemma_sorted_order(keys, n);
    if n > 1 {
        let m = (n - 1) as nat;
        lemma_least_stays_first(keys, m);
        lemma_sorted_order(keys, m);
        lemma_insert_keeps_head(sorted_order(keys, m), m as usize, keys);
    }
}

proof fn lemma_insert_keeps_head(sorted: Seq<usize>, x: usize, keys: Seq<SortKeyView>)
    requires
        sorted.len() > 0,
        key_le(keys[sorted[0] as int], keys[x as int]),
    ensures
        insert_index(sorted, x, keys).len() > 0,
        insert_index(sorted, x, keys)[0] == sorted[0],
    decreases sorted.len(),
{
    if !key_le(keys[sorted.last() as int], keys[x as int]) {
        let front = sorted.drop_last();
        assert(front.len() > 0);
        assert(front[0] == sorted[0]);
        lemma_insert_keeps_head(front, x, keys);
    }
}

/// Whether the text `a` comes no later than `b` in dictionary order.
pub fn text_no_later(a: &Vec<char>, b: &Vec<char>) -> (r: bool)
    ensures
        r == text_le(a@, b@),
{
    let mut i: usize = 0;
    proof {
        assert(a@.subrange(0, a@.len() as int) =~= a@);
        assert(b@.subrange(0, b@.len() as int) =~= b@);
    }
    loop
        invariant
            i <= a@.len(),
            i <= b@.len(),
            text_le(a@, b@) == text_le(
                a@.subrange(i as int, a@.len() as int),
                b@.subrange(i as int, b@.len() as int),
            ),
        decreases a@.len() - i,
    {
        let ghost ra = a@.subrange(i as int, a@.len() as int);
        let ghost rb = b@.subrange(i as int, b@.len() as int);
        if i >= a.len() {
            return true;
        }
        if i >= b.len() {
            return false;
        }
        let x: char = a[i];
        let y: char = b[i];
        assert(ra[0] == x && rb[0] == y);
        if x != y {
            return (x as u32) < (y as u32);
        }
        proof {
            assert(ra.drop_first() =~= a@.subrange(i + 1, a@.len() as int));
            assert(rb.drop_first() =~= b@.subrange(i + 1, b@.len() as int));
        }
        i += 1;
    }
}

/// Whether the key `a` comes no later than `b`.
pub fn key_no_later(a: &SortKey, b: &SortKey) -> (r: bool)
    ensures
        r == key_le(a@, b@),
{
    a.rank < b.rank || (a.rank == b.rank && text_no_later(&a.text, &b.text))
}

/// The positions of `keys` in ascending order of their keys; positions with
/// equal keys keep their order.
pub fn sort_order(keys: &Vec<SortKey>) -> (order: Vec<usize>)
    ensures
        order@ == sorted_order(key_views(keys@), keys@.len()),
        order@.len() == keys@.len(),
        in_range(order@, keys@.len()),
{
    let ghost kv = key_views(keys@);
    let n = keys.len();
    let mut order: Vec<usize> = Vec::new();
    let mut i: usize = 0;
    while i < n
        invariant
            i <= n,
            n == keys@.len(),
            kv == key_views(keys@),
            order@ == sorted_order(kv, i as nat),
            order@.len() == i,
            in_range(order@, i as nat),
        decreases n - i,
    {
        let ghost before = order@;
        let mut pos: usize = order.len();
        proof {
            assert(before.subrange(0, pos as int) =~= before);
            assert(insert_index(before, i, kv) + before.subrange(pos as int, before.len() as int)
                =~= insert_index(before, i, kv));
        }
        while pos > 0 && !key_no_later(&keys[order[pos - 1]], &keys[i])
            invariant
                pos <= order@.len(),
                order@ == before,
                i < n,
                n == keys@.len(),
                kv == key_views(keys@),
                in_range(before, i as nat),
                insert_index(before, i, kv) == insert_index(before.subrange(0, pos as int), i, kv)
                    + before.subrange(pos as int, before.len() as int),
            decreases pos,
        {
            proof {
                let front = before.subrange(0, pos as int);
                assert(front.last() == before[pos - 1]);
                assert(kv[before[pos - 1] as int] == keys@[before[pos - 1] as int]@);
                assert(kv[i as int] == keys@[i as int]@);
                assert(front.drop_last() =~= before.subrange(0, pos - 1));
                assert(insert_index(front.drop_last(), i, kv).push(front.last()) + before.subrange(
                    pos as int,
                    before.len() as int,
                ) =~= insert_index(front.drop_last(), i, kv) + before.subrange(
                    pos - 1,
                    before.len() as int,
                ));
            }
            pos -= 1;
        }
        proof {
            let front = before.subrange(0, pos as int);
            if pos > 0 {
                assert(front.last() == before[pos - 1]);
                assert(kv[before[pos - 1] as int] == keys@[before[pos - 1] as int]@);
                assert(kv[i as int] == keys@[i as int]@);
            }
            assert(insert_index(front, i, kv) =~= front.push(i));
            assert(front.push(i) + before.subrange(pos as int, before.len() as int)
                =~= before.insert(pos as int, i));
        }
        order.insert(pos, i);
        i += 1;
    }
    order
}

} // verus!
