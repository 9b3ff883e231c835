//! Sorted collections and stable sorting over totally ordered keys.

use vstd::prelude::*;

use crate::syntax;
use crate::text::chars_of;

verus! {

/// Whether `a` comes before `b` in lexicographic order.
pub open spec fn lex_lt(a: Seq<u64>, b: Seq<u64>) -> bool
    decreases a.len(),
{
    if b.len() == 0 {
        false
    } else if a.len() == 0 {
        true
    } else if a[0] != b[0] {
        a[0] < b[0]
    } else {
        lex_lt(a.skip(1), b.skip(1))
    }
}

/// No sequence comes before itself.
pub proof fn lex_irreflexive(a: Seq<u64>)
    ensures
        !lex_lt(a, a),
    decreases a.len(),
{
    if a.len() > 0 {
        lex_irreflexive(a.skip(1));
    }
}

/// Of two different sequences one comes before the other.
pub proof fn lex_total(a: Seq<u64>, b: Seq<u64>)
    ensures
        a == b || lex_lt(a, b) || lex_lt(b, a),
    decreases a.len(),
{
    if a.len() > 0 && b.len() > 0 && a[0] == b[0] {
        lex_total(a.skip(1), b.skip(1));
        if a.skip(1) == b.skip(1) {
            assert(a =~= seq![a[0]] + a.skip(1));
            assert(b =~= seq![b[0]] + b.skip(1));
        }
    } else if a.len() == 0 && b.len() == 0 {
        assert(a =~= b);
    }
}

/// The order is transitive.
pub proof fn lex_transitive(a: Seq<u64>, b: Seq<u64>, c: Seq<u64>)
    requires
        lex_lt(a, b),
        lex_lt(b, c),
    ensures
        lex_lt(a, c),
    decreases a.len(),
{
    if a.len() > 0 && a[0] == b[0] && b[0] == c[0] {
        lex_transitive(a.skip(1), b.skip(1), c.skip(1));
    }
}

/// Tells whether `a` comes before `b`.
pub fn lex_less(a: &Vec<u64>, b: &Vec<u64>) -> (r: bool)
    ensures
        r == lex_lt(a@, b@),
{
    let mut i: usize = 0;
    assert(a@.skip(0) =~= a@);
    assert(b@.skip(0) =~= b@);
    while i < a.len() && i < b.len()
        invariant
            i <= a@.len(),
            i <= b@.len(),
            lex_lt(a@, b@) == lex_lt(a@.skip(i as int), b@.skip(i as int)),
        decreases a@.len() - i,
    {
        if a[i] < b[i] {
            return true;
        }
        if b[i] < a[i] {
            return false;
        }
        assert(a@.skip(i as int).skip(1) =~= a@.skip(i as int + 1));
        assert(b@.skip(i as int).skip(1) =~= b@.skip(i as int + 1));
        i += 1;
    }
    i < b.len()
}

/// The first position in `order` whose key comes after the key of `item`.
pub open spec fn insert_point(
    order: Seq<int>,
    keys: Seq<Seq<u64>>,
    item: int,
    i: int,
) -> int
    decreases order.len() - i,
{
    if i < 0 || i >= order.len() {
        order.len() as int
    } else if lex_lt(keys[item], keys[order[i]]) {
        i
    } else {
        insert_point(order, keys, item, i + 1)
    }
}

/// The first `n` positions of `keys` in stable ascending order of their keys.
pub open spec fn stable_order(keys: Seq<Seq<u64>>, n: int) -> Seq<int>
    decreases n,
{
    if n <= 0 {
        Seq::empty()
    } else {
        let before = stable_order(keys, n - 1);
        before.insert(insert_point(before, keys, n - 1, 0), n - 1)
    }
}

/// Whether item `x` comes before item `y`: by key, then by position.
pub open spec fn comes_before(keys: Seq<Seq<u64>>, x: int, y: int) -> bool {
    lex_lt(keys[x], keys[y]) || (keys[x] == keys[y] && x < y)
}

/// Whether `order` lists the positions `0..n` once each, in stable ascending order.
pub open spec fn is_stable_order(keys: Seq<Seq<u64>>, order: Seq<int>, n: int) -> bool {
    &&& order.len() == n
    &&& forall|i: int| 0 <= i < n ==> 0 <= #[trigger] order[i] < n
    &&& forall|i: int, j: int|
        0 <= i < j < n ==> comes_before(keys, #[trigger] order[i], #[trigger] order[j])
    &&& forall|x: int| 0 <= x < n ==> #[trigger] order.contains(x)
}

proof fn insert_point_bounds(order: Seq<int>, keys: Seq<Seq<u64>>, item: int, i: int)
    requires
        0 <= i <= order.len(),
    ensures
        i <= insert_point(order, keys, item, i) <= order.len(),
        forall|k: int|
            i <= k < insert_point(order, keys, item, i) ==> !lex_lt(
                keys[item],
                keys[#[trigger] order[k]],
            ),
        insert_point(order, keys, item, i) < order.len() ==> lex_lt(
            keys[item],
            keys[order[insert_point(order, keys, item, i)]],
        ),
    decreases order.len() - i,
{
    if i < order.len() && !lex_lt(keys[item], keys[order[i]]) {
        insert_point_bounds(order, keys, item, i + 1);
    }
}

/// Sorting lists every position once, in ascending order of keys, and keeps
/// the order of positions with equal keys.
pub proof fn stable_order_sorts(keys: Seq<Seq<u64>>, n: int)
    requires
        0 <= n <= keys.len(),
    ensures
        is_stable_order(keys, stable_order(keys, n), n),
    decreases n,
{
    if n > 0 {
        stable_order_sorts(keys, n - 1);
        let before = stable_order(keys, n - 1);
        let p = insert_point(before, keys, n - 1, 0);
        insert_point_bounds(before, keys, n - 1, 0);
        let after = stable_order(keys, n);
        assert(after == before.insert(p, n - 1));
        assert forall|i: int, j: int| 0 <= i < j < n implies comes_before(
            keys,
            #[trigger] after[i],
            #[trigger] after[j],
        ) by {
            if i == p {
                assert(after[j] == before[j - 1]);
                if p < before.len() {
                    let first = before[p];
                    if j - 1 > p {
                        assert(comes_before(keys, before[p], before[j - 1]));
                        if lex_lt(keys[first], keys[before[j - 1]]) {
                            lex_transitive(
                                keys[n - 1],
                                keys[first],
                                keys[before[j - 1]],
                            );
                        }
                    }
                }
            } else if j == p {
                assert(after[i] == before[i]);
                lex_total(keys[n - 1], keys[before[i]]);
            } else if i < p && j < p {
                assert(comes_before(keys, before[i], before[j]));
            } else if i < p {
                assert(comes_before(keys, before[i], before[j - 1]));
            } else {
                assert(comes_before(keys, before[i - 1], before[j - 1]));
            }
        }
        assert forall|x: int| 0 <= x < n implies #[trigger] after.contains(x) by {
            if x == n - 1 {
                assert(after[p] == x);
            } else {
                assert(before.contains(x));
                let k = choose|k: int| 0 <= k < before.len() && before[k] == x;
                if k < p {
                    assert(after[k] == x);
                } else {
                    assert(after[k + 1] == x);
                }
            }
        }
    }
}

/// Positions as numbers.
pub open spec fn positions(order: Seq<usize>) -> Seq<int> {
    Seq::new(order.len(), |i: int| order[i] as int)
}

/// Lists the positions of `keys` in stable ascending order.
pub fn sort_order(keys: &Vec<Vec<u64>>) -> (r: Vec<usize>)
    ensures
        positions(r@) == stable_order(syntax::views(keys@), keys@.len() as int),
        is_stable_order(syntax::views(keys@), positions(r@), keys@.len() as int),
        r@.len() == keys@.len(),
        forall|i: int| 0 <= i < r@.len() ==> #[trigger] r@[i] < keys@.len(),
{
    let ghost ks = syntax::views(keys@);
    let mut order: Vec<usize> = Vec::new();
    let mut n: usize = 0;
    assert(positions(order@) =~= stable_order(ks, 0));
    while n < keys.len()
        invariant
            n <= keys.len(),
            ks == syntax::views(keys@),
            positions(order@) == stable_order(ks, n as int),
        decreases keys.len() - n,
    {
        proof {
            stable_order_sorts(ks, n as int);
        }
        let ghost before = positions(order@);
        assert(forall|i: int| 0 <= i < order@.len() ==> before[i] == #[trigger] order@[i]);
        let mut p: usize = 0;
        while p < order.len() && !lex_less(&keys[n], &keys[order[p]])
            invariant
                n < keys.len(),
                ks == syntax::views(keys@),
                p <= order.len(),
                before.len() == order@.len(),
                forall|i: int| 0 <= i < order@.len() ==> before[i] == #[trigger] order@[i],
                is_stable_order(ks, before, n as int),
                insert_point(before, ks, n as int, 0) == insert_point(
                    before,
                    ks,
                    n as int,
                    p as int,
                ),
            decreases order.len() - p,
        {
            assert(0 <= before[p as int] < n);
            p += 1;
        }
        order.insert(p, n);
        assert(positions(order@) =~= before.insert(p as int, n as int));
        n += 1;
    }
    proof {
        stable_order_sorts(ks, n as int);
        assert forall|i: int| 0 <= i < order@.len() implies #[trigger] order@[i] < keys@.len() by {
            assert(0 <= positions(order@)[i] < keys@.len());
        }
    }
    order
}

/// The elements of `items` taken in the given order.
pub open spec fn arranged<T>(items: Seq<T>, order: Seq<int>) -> Seq<T> {
    Seq::new(order.len(), |i: int| items[order[i]])
}

/// The elements of `items` in stable ascending order of `keys`.
pub open spec fn sorted_by<T>(items: Seq<T>, keys: Seq<Seq<u64>>) -> Seq<T> {
    arranged(items, stable_order(keys, keys.len() as int))
}

/// A string as a sort key: every character above zero, then a zero.
pub open spec fn string_key(s: Seq<char>) -> Seq<u64> {
    Seq::new(
        (s.len() + 1) as nat,
        |i: int|
            if i < s.len() {
                (s[i] as u32 + 1) as u64
            } else {
                0u64
            },
    )
}

/// Whether one string comes before another by the numbers of their characters.
pub open spec fn string_lt(a: Seq<char>, b: Seq<char>) -> bool
    decreases a.len(),
{
    if b.len() == 0 {
        false
    } else if a.len() == 0 {
        true
    } else if a[0] != b[0] {
        (a[0] as u32) < (b[0] as u32)
    } else {
        string_lt(a.skip(1), b.skip(1))
    }
}

/// The number of a character is its value.
pub proof fn char_number(c: char)
    ensures
        c as u32 == c as int,
{
}

/// Keys that start with a string compare by the string first and by the rest
/// of the key when the strings are equal.
pub proof fn string_key_order(a: Seq<char>, x: Seq<u64>, b: Seq<char>, y: Seq<u64>)
    ensures
        lex_lt(string_key(a) + x, string_key(b) + y) == (string_lt(a, b) || (a == b && lex_lt(
            x,
            y,
        ))),
        string_lt(a, b) ==> a != b,
    decreases a.len(),
{
    if a.len() > 0 {
        char_number(a[0]);
    }
    if b.len() > 0 {
        char_number(b[0]);
    }
    let s = string_key(a) + x;
    let t = string_key(b) + y;
    if a.len() > 0 && b.len() > 0 {
        assert(s.skip(1) =~= string_key(a.skip(1)) + x);
        assert(t.skip(1) =~= string_key(b.skip(1)) + y);
        string_key_order(a.skip(1), x, b.skip(1), y);
        assert(s[0] == (a[0] as u32 + 1) as u64);
        assert(t[0] == (b[0] as u32 + 1) as u64);
        if a[0] == b[0] {
            if a.skip(1) == b.skip(1) {
                assert(a =~= seq![a[0]] + a.skip(1));
                assert(b =~= seq![b[0]] + b.skip(1));
            } else {
                assert(a != b);
            }
        }
    } else if a.len() == 0 && b.len() == 0 {
        assert(s.skip(1) =~= x);
        assert(t.skip(1) =~= y);
        assert(a =~= b);
    } else if a.len() == 0 {
        assert(s[0] == 0);
        assert(t[0] == (b[0] as u32 + 1) as u64);
    } else {
        assert(t[0] == 0);
        assert(s[0] == (a[0] as u32 + 1) as u64);
    }
}

/// Appends a string to a sort key.
pub fn push_string_key(key: &mut Vec<u64>, s: &str)
    ensures
        final(key)@ == old(key)@ + string_key(s@),
{
    let chars = chars_of(s);
    let mut i: usize = 0;
    while i < chars.len()
        invariant
            i <= chars@.len(),
            chars@ == s@,
            key@ == old(key)@ + string_key(s@).take(i as int),
        decreases chars@.len() - i,
    {
        let code: u32 = chars[i] as u32;
        key.push(code as u64 + 1);
        assert(string_key(s@).take(i as int + 1) =~= string_key(s@).take(i as int).push(
            string_key(s@)[i as int],
        ));
        i += 1;
    }
    key.push(0);
    assert(string_key(s@) =~= string_key(s@).take(i as int).push(0));
}

/// A key with a total order given by a number.
pub trait Key: Copy + Sized {
    /// The place of the key in the order.
    spec fn rank_spec(&self) -> u64;

    /// Returns the place of the key in the order.
    fn rank(&self) -> (r: u64)
        ensures
            r == self.rank_spec(),
    ;

    /// Different keys have different places.
    proof fn injective(a: Self, b: Self)
        requires
            a.rank_spec() == b.rank_spec(),
        ensures
            a == b,
    ;
}

/// The first position from `i` on whose key does not come before `key`.
pub open spec fn key_point<K: Key, V>(entries: Seq<(K, V)>, key: K, i: int) -> int
    decreases entries.len() - i,
{
    if i < 0 || i >= entries.len() {
        entries.len() as int
    } else if entries[i].0.rank_spec() >= key.rank_spec() {
        i
    } else {
        key_point(entries, key, i + 1)
    }
}

/// Whether the entries stand in strictly ascending order of their keys.
pub open spec fn ascending<K: Key, V>(entries: Seq<(K, V)>) -> bool {
    forall|i: int, j: int|
        0 <= i < j < entries.len() ==> (#[trigger] entries[i]).0.rank_spec() < (
        #[trigger] entries[j]).0.rank_spec()
}

/// The value that belongs to `key`.
pub open spec fn lookup<K: Key, V>(entries: Seq<(K, V)>, key: K) -> Option<V> {
    let p = key_point(entries, key, 0);
    if p < entries.len() && entries[p].0.rank_spec() == key.rank_spec() {
        Some(entries[p].1)
    } else {
        None
    }
}

/// The entries after `key` was given the value `value`.
pub open spec fn put<K: Key, V>(entries: Seq<(K, V)>, key: K, value: V) -> Seq<(K, V)> {
    let p = key_point(entries, key, 0);
    if p < entries.len() && entries[p].0.rank_spec() == key.rank_spec() {
        entries.update(p, (key, value))
    } else {
        entries.insert(p, (key, value))
    }
}

/// Every key before the point comes before `key`, and the key at the point
/// does not.
pub proof fn key_point_bounds<K: Key, V>(entries: Seq<(K, V)>, key: K, i: int)
    requires
        0 <= i <= entries.len(),
    ensures
        i <= key_point(entries, key, i) <= entries.len(),
        forall|k: int|
            i <= k < key_point(entries, key, i) ==> (#[trigger] entries[k]).0.rank_spec()
                < key.rank_spec(),
        key_point(entries, key, i) < entries.len() ==> entries[key_point(
            entries,
            key,
            i,
        )].0.rank_spec() >= key.rank_spec(),
    decreases entries.len() - i,
{
    if i < entries.len() && entries[i].0.rank_spec() < key.rank_spec() {
        key_point_bounds(entries, key, i + 1);
    }
}

/// Where a key belongs depends on nothing but the keys.
pub proof fn key_point_by_keys<K: Key, V, W>(
    a: Seq<(K, V)>,
    b: Seq<(K, W)>,
    key: K,
    i: int,
)
    requires
        a.len() == b.len(),
        0 <= i <= a.len(),
        forall|k: int| 0 <= k < a.len() ==> (#[trigger] a[k]).0 == b[k].0,
    ensures
        key_point(a, key, i) == key_point(b, key, i),
    decreases a.len() - i,
{
    if i < a.len() {
        assert(a[i].0 == b[i].0);
        key_point_by_keys(a, b, key, i + 1);
    }
}

/// Among ascending entries the value of a key is that of the entry with the key.
pub proof fn lookup_finds<K: Key, V>(entries: Seq<(K, V)>, key: K)
    requires
        ascending(entries),
    ensures
        match lookup(entries, key) {
            Some(value) => entries.contains((key, value)),
            None => forall|i: int| 0 <= i < entries.len() ==> (#[trigger] entries[i]).0 != key,
        },
        forall|i: int|
            0 <= i < entries.len() && (#[trigger] entries[i]).0 == key ==> lookup(entries, key)
                == Some(entries[i].1),
{
    key_point_bounds(entries, key, 0);
    let p = key_point(entries, key, 0);
    if lookup(entries, key) is Some {
        K::injective(entries[p].0, key);
        assert(entries[p] == (key, entries[p].1));
    }
    assert forall|i: int| 0 <= i < entries.len() && (#[trigger] entries[i]).0 == key implies lookup(
        entries,
        key,
    ) == Some(entries[i].1) by {
        if i > p {
            assert(entries[p].0.rank_spec() < entries[i].0.rank_spec());
        }
    }
}

/// Giving a key a value keeps the entries ascending, and changes the value of
/// that key alone.
pub proof fn put_ascending<K: Key, V>(entries: Seq<(K, V)>, key: K, value: V, other: K)
    requires
        ascending(entries),
    ensures
        ascending(put(entries, key, value)),
        lookup(put(entries, key, value), other) == if other == key {
            Some(value)
        } else {
            lookup(entries, other)
        },
{
    key_point_bounds(entries, key, 0);
    let p = key_point(entries, key, 0);
    let after = put(entries, key, value);
    if lookup(entries, key) is Some {
        assert(after.len() == entries.len());
        assert forall|i: int, j: int| 0 <= i < j < after.len() implies (
        #[trigger] after[i]).0.rank_spec() < (#[trigger] after[j]).0.rank_spec() by {
            assert(entries[i].0.rank_spec() < entries[j].0.rank_spec());
        }
    } else {
        assert forall|i: int, j: int| 0 <= i < j < after.len() implies (
        #[trigger] after[i]).0.rank_spec() < (#[trigger] after[j]).0.rank_spec() by {
            if i < p && j > p {
                assert(entries[i].0.rank_spec() < entries[j - 1].0.rank_spec());
            } else if i == p {
                if j - 1 > p {
                    assert(entries[p].0.rank_spec() < entries[j - 1].0.rank_spec());
                }
            } else if i > p {
                assert(entries[i - 1].0.rank_spec() < entries[j - 1].0.rank_spec());
            }
        }
    }
    lookup_finds(entries, other);
    lookup_finds(after, other);
    if other == key {
        assert(after[p].0 == key);
    } else {
        match lookup(entries, other) {
            Some(found) => {
                let k = choose|k: int|
                    0 <= k < entries.len() && entries[k] == (other, found);
                if lookup(entries, key) is Some {
                    if k == p {
                        K::injective(entries[p].0, key);
                    }
                    assert(after[k] == entries[k]);
                } else if k < p {
                    assert(after[k] == entries[k]);
                } else {
                    assert(after[k + 1] == entries[k]);
                }
            },
            None => {
                assert forall|i: int| 0 <= i < after.len() implies (#[trigger] after[i]).0
                    != other by {
                    if i != p {
                        if lookup(entries, key) is Some || i < p {
                            assert(after[i] == entries[i]);
                        } else {
                            assert(after[i] == entries[i - 1]);
                        }
                    }
                }
            },
        }
    }
}

/// Returns the value of `key`.
pub fn find_value<'a, K: Key, V>(entries: &'a Vec<(K, V)>, key: K) -> (r: Option<&'a V>)
    ensures
        match r {
            Some(value) => lookup(entries@, key) == Some(*value),
            None => lookup(entries@, key) is None,
        },
{
    let mut i: usize = 0;
    while i < entries.len()
        invariant
            i <= entries@.len(),
            key_point(entries@, key, 0) == key_point(entries@, key, i as int),
        decreases entries@.len() - i,
    {
        let rank: u64 = entries[i].0.rank();
        if rank >= key.rank() {
            if rank == key.rank() {
                return Some(&entries[i].1);
            }
            return None;
        }
        i += 1;
    }
    None
}

/// Gives `key` the value `value`.
pub fn put_value<K: Key, V>(entries: &mut Vec<(K, V)>, key: K, value: V)
    ensures
        final(entries)@ == put(old(entries)@, key, value),
{
    let mut i: usize = 0;
    while i < entries.len() && entries[i].0.rank() < key.rank()
        invariant
            i <= entries@.len(),
            entries@ == old(entries)@,
            key_point(entries@, key, 0) == key_point(entries@, key, i as int),
        decreases entries@.len() - i,
    {
        i += 1;
    }
    if i < entries.len() && entries[i].0.rank() == key.rank() {
        entries.set(i, (key, value));
    } else {
        entries.insert(i, (key, value));
    }
}

/// The entries with the contents of their values.
pub open spec fn entry_views<K, V: View>(entries: Seq<(K, V)>) -> Seq<(K, V::V)> {
    Seq::new(entries.len(), |i: int| (entries[i].0, entries[i].1@))
}

/// The point of a key does not depend on the values.
pub proof fn key_point_views<K: Key, V: View>(entries: Seq<(K, V)>, key: K, i: int)
    requires
        0 <= i <= entries.len(),
    ensures
        key_point(entry_views(entries), key, i) == key_point(entries, key, i),
    decreases entries.len() - i,
{
    if i < entries.len() {
        key_point_views(entries, key, i + 1);
    }
}

/// Giving a key a value gives it the contents of the value.
pub proof fn put_views<K: Key, V: View>(entries: Seq<(K, V)>, key: K, value: V)
    ensures
        entry_views(put(entries, key, value)) == put(entry_views(entries), key, value@),
{
    key_point_views(entries, key, 0);
    key_point_bounds(entries, key, 0);
    let p = key_point(entries, key, 0);
    if p < entries.len() && entries[p].0.rank_spec() == key.rank_spec() {
        assert(entry_views(entries.update(p, (key, value))) =~= entry_views(entries).update(
            p,
            (key, value@),
        ));
    } else {
        assert(entry_views(entries.insert(p, (key, value))) =~= entry_views(entries).insert(
            p,
            (key, value@),
        ));
    }
}

/// The contents of a key's value are the value of the key among the contents.
pub proof fn lookup_views<K: Key, V: View>(entries: Seq<(K, V)>, key: K)
    ensures
        lookup(entry_views(entries), key) == match lookup(entries, key) {
            Some(value) => Some(value@),
            None => None,
        },
{
    key_point_views(entries, key, 0);
    key_point_bounds(entries, key, 0);
}

/// Returns the position of `key`.
pub fn find_index<K: Key, V>(entries: &Vec<(K, V)>, key: K) -> (r: Option<usize>)
    ensures
        match r {
            Some(i) => i < entries@.len() && i == key_point(entries@, key, 0)
                && entries@[i as int].0 == key && lookup(entries@, key) == Some(
                entries@[i as int].1,
            ),
            None => lookup(entries@, key) is None,
        },
{
    let mut i: usize = 0;
    while i < entries.len()
        invariant
            i <= entries@.len(),
            key_point(entries@, key, 0) == key_point(entries@, key, i as int),
        decreases entries@.len() - i,
    {
        let rank: u64 = entries[i].0.rank();
        if rank >= key.rank() {
            if rank == key.rank() {
                proof {
                    K::injective(entries@[i as int].0, key);
                }
                return Some(i);
            }
            return None;
        }
        i += 1;
    }
    None
}

impl Key for usize {
    open spec fn rank_spec(&self) -> u64 {
        *self as u64
    }

    fn rank(&self) -> (r: u64) {
        *self as u64
    }

    proof fn injective(a: Self, b: Self) {
    }
}

/// The sorted keys after `key` was added.
pub open spec fn with_key<K: Key>(keys: Seq<K>, key: K, i: int) -> Seq<K>
    decreases keys.len() - i,
{
    if i < 0 || i >= keys.len() {
        keys.push(key)
    } else if keys[i].rank_spec() == key.rank_spec() {
        keys
    } else if keys[i].rank_spec() > key.rank_spec() {
        keys.insert(i, key)
    } else {
        with_key(keys, key, i + 1)
    }
}

/// Whether the keys stand in strictly ascending order.
pub open spec fn keys_ascending<K: Key>(keys: Seq<K>) -> bool {
    forall|i: int, j: int|
        0 <= i < j < keys.len() ==> (#[trigger] keys[i]).rank_spec() < (
        #[trigger] keys[j]).rank_spec()
}

/// Adding a key keeps the keys ascending and adds nothing else.
pub proof fn with_key_ascending<K: Key>(keys: Seq<K>, key: K, i: int)
    requires
        keys_ascending(keys),
        0 <= i <= keys.len(),
        forall|k: int| 0 <= k < i ==> (#[trigger] keys[k]).rank_spec() < key.rank_spec(),
    ensures
        keys_ascending(with_key(keys, key, i)),
        forall|x: K| #[trigger]
            with_key(keys, key, i).contains(x) <==> (x == key || keys.contains(x)),
    decreases keys.len() - i,
{
    if i >= keys.len() {
        let after = keys.push(key);
        assert(after[keys.len() as int] == key);
        assert forall|x: K| keys.contains(x) implies after.contains(x) by {
            let k = choose|k: int| 0 <= k < keys.len() && keys[k] == x;
            assert(after[k] == x);
        }
    } else if keys[i].rank_spec() == key.rank_spec() {
        K::injective(keys[i], key);
        assert(keys[i] == key);
    } else if keys[i].rank_spec() > key.rank_spec() {
        let after = keys.insert(i, key);
        assert(after[i] == key);
        assert forall|a: int, b: int| 0 <= a < b < after.len() implies (
        #[trigger] after[a]).rank_spec() < (#[trigger] after[b]).rank_spec() by {
            if a < i && b > i {
                assert(keys[a].rank_spec() < keys[b - 1].rank_spec());
            } else if a == i {
                if b - 1 > i {
                    assert(keys[i].rank_spec() < keys[b - 1].rank_spec());
                }
            } else if a > i {
                assert(keys[a - 1].rank_spec() < keys[b - 1].rank_spec());
            }
        }
        assert forall|x: K| keys.contains(x) implies after.contains(x) by {
            let k = choose|k: int| 0 <= k < keys.len() && keys[k] == x;
            if k < i {
                assert(after[k] == x);
            } else {
                assert(after[k + 1] == x);
            }
        }
        assert forall|x: K| after.contains(x) implies x == key || keys.contains(x) by {
            let k = choose|k: int| 0 <= k < after.len() && after[k] == x;
            if k < i {
                assert(keys[k] == x);
            } else if k > i {
                assert(keys[k - 1] == x);
            }
        }
    } else {
        with_key_ascending(keys, key, i + 1);
    }
}

/// Adds `key` to sorted keys.
pub fn add_key<K: Key>(keys: &mut Vec<K>, key: K)
    ensures
        final(keys)@ == with_key(old(keys)@, key, 0),
{
    let mut i: usize = 0;
    while i < keys.len()
        invariant
            i <= keys@.len(),
            keys@ == old(keys)@,
            with_key(keys@, key, 0) == with_key(keys@, key, i as int),
        decreases keys@.len() - i,
    {
        let rank: u64 = keys[i].rank();
        if rank == key.rank() {
            return;
        }
        if rank > key.rank() {
            keys.insert(i, key);
            return;
        }
        i += 1;
    }
    keys.push(key);
}

/// Tells whether `key` is among `keys`.
pub fn has_key<K: Key>(keys: &Vec<K>, key: K) -> (r: bool)
    ensures
        r == keys@.contains(key),
{
    let mut i: usize = 0;
    while i < keys.len()
        invariant
            i <= keys@.len(),
            forall|k: int| 0 <= k < i ==> keys@[k] != key,
        decreases keys@.len() - i,
    {
        if keys[i].rank() == key.rank() {
            proof {
                K::injective(keys@[i as int], key);
            }
            return true;
        }
        i += 1;
    }
    false
}

} // verus!
