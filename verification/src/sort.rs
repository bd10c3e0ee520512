//! Ordering the entries of a list by their lowercased names (and folders):
//! a stable sort that gives the order in which to show the entries.
use vstd::prelude::*;
use crate::text::{chars_of, lower, to_lower};

verus! {

/// `a` comes before or equals `b` in lexicographic order of code points
/// (the order of `String`, since UTF-8 keeps the order of code points).
pub open spec fn text_le(a: Seq<char>, b: Seq<char>) -> bool
    decreases a.len(),
{
    if a.len() == 0 {
        true
    } else if b.len() == 0 {
        false
    } else if a[0] != b[0] {
        (a[0] as u32) < (b[0] as u32)
    } else {
        text_le(a.drop_first(), b.drop_first())
    }
}

/// A sort key: a primary and a secondary text.
pub type SortKey = (Seq<char>, Seq<char>);

/// Order of sort keys: by the primary text, then by the secondary one.
pub open spec fn key_le(a: SortKey, b: SortKey) -> bool {
    if a.0 == b.0 {
        text_le(a.1, b.1)
    } else {
        text_le(a.0, b.0)
    }
}

/// The keys as texts.
pub open spec fn keys_view(keys: Seq<(Vec<char>, Vec<char>)>) -> Seq<SortKey> {
    keys.map_values(|k: (Vec<char>, Vec<char>)| (k.0@, k.1@))
}

/// `order` lists each index below `n` exactly once.
pub open spec fn is_permutation(order: Seq<usize>, n: nat) -> bool {
    &&& order.len() == n
    &&& forall|i: int| 0 <= i < order.len() ==> #[trigger] order[i] < n
    &&& forall|i: int, j: int| 0 <= i < j < order.len() ==> order[i] != order[j]
}

/// Taken in `order`, the keys do not decrease, and entries with equal keys
/// keep their original order.
pub open spec fn stably_sorted(keys: Seq<SortKey>, order: Seq<usize>) -> bool {
    &&& forall|i: int, j: int|
        0 <= i < j < order.len() ==> key_le(keys[order[i] as int], keys[order[j] as int])
    &&& forall|i: int, j: int|
        0 <= i < j < order.len() && keys[order[i] as int] == keys[order[j] as int] ==> order[i]
            < order[j]
}

/// Lexicographic order is reflexive.
pub proof fn lemma_text_le_refl(a: Seq<char>)
    ensures
        text_le(a, a),
    decreases a.len(),
{
    if a.len() > 0 {
        lemma_text_le_refl(a.drop_first());
    }
}

/// Lexicographic order is total.
pub proof fn lemma_text_le_total(a: Seq<char>, b: Seq<char>)
    ensures
        text_le(a, b) || text_le(b, a),
    decreases a.len(),
{
    if a.len() > 0 && b.len() > 0 {
        if a[0] == b[0] {
            lemma_text_le_total(a.drop_first(), b.drop_first());
        } else {
            vstd::utf8::char_u32_cast(a[0], a[0] as u32);
            vstd::utf8::char_u32_cast(b[0], b[0] as u32);
        }
    }
}

/// Lexicographic order is antisymmetric.
pub proof fn lemma_text_le_antisym(a: Seq<char>, b: Seq<char>)
    requires
        text_le(a, b),
        text_le(b, a),
    ensures
        a == b,
    decreases a.len(),
{
    if a.len() > 0 && b.len() > 0 {
        if a[0] == b[0] {
            lemma_text_le_antisym(a.drop_first(), b.drop_first());
            assert(a =~= seq![a[0]] + a.drop_first());
            assert(b =~= seq![b[0]] + b.drop_first());
        }
    } else {
        assert(a =~= b);
    }
}

/// Lexicographic order is transitive.
pub proof fn lemma_text_le_trans(a: Seq<char>, b: Seq<char>, c: Seq<char>)
    requires
        text_le(a, b),
        text_le(b, c),
    ensures
        text_le(a, c),
    decreases a.len(),
{
    if a.len() > 0 && b.len() > 0 && c.len() > 0 {
        if a[0] == b[0] && b[0] == c[0] {
            lemma_text_le_trans(a.drop_first(), b.drop_first(), c.drop_first());
        }
    }
}

/// The order of keys is reflexive, total and transitive.
pub proof fn lemma_key_le_order(a: SortKey, b: SortKey, c: SortKey)
    ensures
        key_le(a, a),
        key_le(a, b) || key_le(b, a),
        key_le(a, b) && key_le(b, c) ==> key_le(a, c),
        key_le(a, b) && key_le(b, a) ==> a == b,
{
    lemma_text_le_refl(a.1);
    lemma_text_le_total(a.0, b.0);
    lemma_text_le_total(a.1, b.1);
    if key_le(a, b) && key_le(b, c) {
        if a.0 == b.0 && b.0 == c.0 {
            lemma_text_le_trans(a.1, b.1, c.1);
        } else if a.0 == b.0 {
        } else if b.0 == c.0 {
        } else {
            lemma_text_le_trans(a.0, b.0, c.0);
            if a.0 == c.0 {
                lemma_text_le_antisym(a.0, b.0);
            }
        }
    }
    if key_le(a, b) && key_le(b, a) {
        if a.0 == b.0 {
            lemma_text_le_antisym(a.1, b.1);
        } else {
            lemma_text_le_antisym(a.0, b.0);
        }
    }
}

/// Whether `a` comes before or equals `b`.
pub fn text_le_exec(a: &Vec<char>, b: &Vec<char>) -> (r: bool)
    ensures
        r == text_le(a@, b@),
{
    let mut i: usize = 0;
    assert(a@.skip(0) =~= a@);
    assert(b@.skip(0) =~= b@);
    while i < a.len() && i < b.len() && a[i] == b[i]
        invariant
            i <= a.len(),
            i <= b.len(),
            text_le(a@, b@) == text_le(a@.skip(i as int), b@.skip(i as int)),
        decreases a.len() - i,
    {
        assert(a@.skip(i as int).drop_first() =~= a@.skip(i + 1));
        assert(b@.skip(i as int).drop_first() =~= b@.skip(i + 1));
        i = i + 1;
    }
    if i == a.len() {
        true
    } else if i == b.len() {
        false
    } else {
        assert(a@.skip(i as int)[0] == a@[i as int]);
        assert(b@.skip(i as int)[0] == b@[i as int]);
        (a[i] as u32) < (b[i] as u32)
    }
}

/// Whether two texts are equal.
fn text_eq(a: &Vec<char>, b: &Vec<char>) -> (r: bool)
    ensures
        r == (a@ == b@),
{
    if a.len() != b.len() {
        return false;
    }
    let mut i: usize = 0;
    while i < a.len()
        invariant
            i <= a.len() == b.len(),
            forall|k: int| 0 <= k < i ==> a@[k] == b@[k],
        decreases a.len() - i,
    {
        if a[i] != b[i] {
            assert(a@[i as int] != b@[i as int]);
            return false;
        }
        i = i + 1;
    }
    assert(a@ =~= b@);
    true
}

/// Whether key `a` comes before or equals key `b`.
pub fn key_le_exec(a: &(Vec<char>, Vec<char>), b: &(Vec<char>, Vec<char>)) -> (r: bool)
    ensures
        r == key_le((a.0@, a.1@), (b.0@, b.1@)),
{
    if text_eq(&a.0, &b.0) {
        text_le_exec(&a.1, &b.1)
    } else {
        text_le_exec(&a.0, &b.0)
    }
}

/// The order in which to show entries with these keys: a stable sort.
pub fn sorted_order(keys: &Vec<(Vec<char>, Vec<char>)>) -> (order: Vec<usize>)
    ensures
        is_permutation(order@, keys@.len()),
        stably_sorted(keys_view(keys@), order@),
{
    let ghost kv = keys_view(keys@);
    let mut order: Vec<usize> = Vec::new();
    let mut k: usize = 0;
    while k < keys.len()
        invariant
            k <= keys.len(),
            kv == keys_view(keys@),
            kv.len() == keys@.len(),
            is_permutation(order@, k as nat),
            stably_sorted(kv, order@),
        decreases keys.len() - k,
    {
        // find the first position whose key is greater than key k
        let mut p: usize = 0;
        while p < order.len() && key_le_exec(&keys[order[p]], &keys[k])
            invariant
                p <= order.len(),
                k < keys.len(),
                kv == keys_view(keys@),
                is_permutation(order@, k as nat),
                forall|q: int| 0 <= q < p ==> key_le(kv[order@[q] as int], kv[k as int]),
            decreases order.len() - p,
        {
            assert(kv[order@[p as int] as int] == (keys@[order@[p as int] as int].0@, keys@[order@[p as int] as int].1@));
            p = p + 1;
        }
        proof {
            if p < order.len() {
                assert(kv[order@[p as int] as int] == (keys@[order@[p as int] as int].0@, keys@[order@[p as int] as int].1@));
                assert(kv[k as int] == (keys@[k as int].0@, keys@[k as int].1@));
            }
        }
        let ghost old_order = order@;
        order.insert(p, k);
        proof {
            let n = old_order;
            assert(order@ == n.insert(p as int, k));
            // facts about the new element against the others
            assert forall|q: int| p <= q < n.len() implies !key_le(kv[n[q] as int], kv[k as int])
                && key_le(kv[k as int], kv[n[q] as int]) by {
                lemma_key_le_order(kv[k as int], kv[n[p as int] as int], kv[n[q] as int]);
                lemma_key_le_order(kv[n[p as int] as int], kv[k as int], kv[n[q] as int]);
                lemma_key_le_order(kv[n[q] as int], kv[k as int], kv[n[p as int] as int]);
                lemma_key_le_order(kv[n[p as int] as int], kv[n[q] as int], kv[k as int]);
            }
            assert forall|i: int, j: int| 0 <= i < j < order@.len() implies key_le(
                kv[order@[i] as int],
                kv[order@[j] as int],
            ) by {
                if j < p {
                } else if j == p {
                    assert(order@[i] == n[i]);
                } else if i < p {
                    assert(order@[j] == n[j - 1]);
                    lemma_key_le_order(kv[n[i] as int], kv[k as int], kv[n[j - 1] as int]);
                } else if i == p {
                    assert(order@[j] == n[j - 1]);
                } else {
                    assert(order@[i] == n[i - 1]);
                    assert(order@[j] == n[j - 1]);
                }
            }
            assert forall|i: int, j: int|
                0 <= i < j < order@.len() && kv[order@[i] as int] == kv[order@[j] as int] implies order@[i]
                < order@[j] by {
                if j < p {
                } else if j == p {
                    assert(order@[i] == n[i]);
                } else if i < p {
                    assert(order@[j] == n[j - 1]);
                } else if i == p {
                    assert(order@[j] == n[j - 1]);
                    lemma_key_le_order(kv[n[j - 1] as int], kv[k as int], kv[k as int]);
                } else {
                    assert(order@[i] == n[i - 1]);
                    assert(order@[j] == n[j - 1]);
                }
            }
            assert forall|i: int, j: int| 0 <= i < j < order@.len() implies order@[i] != order@[j] by {
                if i == p {
                    assert(order@[j] == n[j - 1]);
                } else if j == p {
                    assert(order@[i] == n[i]);
                } else {
                    let a = if i < p { i } else { i - 1 };
                    let b = if j < p { j } else { j - 1 };
                    assert(order@[i] == n[a]);
                    assert(order@[j] == n[b]);
                }
            }
            assert forall|i: int| 0 <= i < order@.len() implies #[trigger] order@[i] < k + 1 by {
                if i < p {
                    assert(order@[i] == n[i]);
                } else if i > p {
                    assert(order@[i] == n[i - 1]);
                }
            }
        }
        k = k + 1;
    }
    order
}

/// The entries taken in `order`: entry `k` of the result is the entry at
/// `order[k]`.
pub fn apply_order<T>(items: Vec<T>, order: &Vec<usize>) -> (res: Vec<T>)
    requires
        is_permutation(order@, items@.len()),
    ensures
        res@.len() == order@.len(),
        forall|k: int| 0 <= k < order@.len() ==> #[trigger] res@[k] == items@[order@[k] as int],
{
    let ghost orig = items@;
    let n = items.len();
    let mut items = items;
    // slot `j` holds the entry at `n - 1 - j` until it is taken
    let mut slots: Vec<Option<T>> = Vec::new();
    while items.len() > 0
        invariant
            items@.len() + slots@.len() == n,
            n == orig.len(),
            items@ == orig.take(items@.len() as int),
            forall|j: int| 0 <= j < slots@.len() ==> #[trigger] slots@[j] == Some(orig[n - 1 - j]),
        decreases items@.len(),
    {
        let ghost before = items@;
        let x = items.pop().unwrap();
        assert(x == orig[n - 1 - slots@.len()]);
        slots.push(Some(x));
        assert(items@ =~= orig.take(items@.len() as int));
    }
    let mut res: Vec<T> = Vec::new();
    let mut k: usize = 0;
    while k < order.len()
        invariant
            k <= order@.len(),
            n == orig.len(),
            slots@.len() == n,
            is_permutation(order@, n as nat),
            res@.len() == k,
            forall|q: int| 0 <= q < k ==> #[trigger] res@[q] == orig[order@[q] as int],
            forall|j: int|
                0 <= j < n && (#[trigger] slots@[j]) is Some ==> slots@[j]->0 == orig[n - 1 - j],
            forall|q: int| k <= q < order@.len() ==> (#[trigger] slots@[n - 1 - order@[q]]) is Some,
        decreases order@.len() - k,
    {
        let i = order[k];
        let s = n - 1 - i;
        assert(slots@[n - 1 - order@[k as int]] is Some);
        let ghost before = slots@;
        let v = slots[s].take().unwrap();
        assert(slots@ == before.update(s as int, None::<T>));
        assert forall|q: int| k + 1 <= q < order@.len() implies (#[trigger] slots@[n - 1 - order@[q]]) is Some by {
            assert(order@[q] != order@[k as int]);
            assert(before[n - 1 - order@[q]] is Some);
        }
        res.push(v);
        k = k + 1;
    }
    res
}

/// Sort keys made of the lowercased names.
pub fn name_keys(names: &Vec<String>) -> (keys: Vec<(Vec<char>, Vec<char>)>)
    ensures
        keys_view(keys@) == names@.map_values(|s: String| (lower(s@), Seq::<char>::empty())),
{
    let mut keys: Vec<(Vec<char>, Vec<char>)> = Vec::new();
    let mut i: usize = 0;
    while i < names.len()
        invariant
            i <= names.len(),
            keys_view(keys@) == names@.map_values(|s: String| (lower(s@), Seq::<char>::empty())).take(
                i as int,
            ),
        decreases names.len() - i,
    {
        let c = chars_of(names[i].as_str());
        let l = to_lower(&c);
        let ghost before = keys_view(keys@);
        let e: Vec<char> = Vec::new();
        assert(e@ =~= Seq::<char>::empty());
        keys.push((l, e));
        assert(keys_view(keys@) =~= before.push((lower(names@[i as int]@), Seq::<char>::empty())));
        i = i + 1;
        assert(keys_view(keys@) =~= names@.map_values(|s: String| (lower(s@), Seq::<char>::empty())).take(
            i as int,
        ));
    }
    assert(names@.map_values(|s: String| (lower(s@), Seq::<char>::empty())).take(i as int) =~= names@.map_values(
        |s: String| (lower(s@), Seq::<char>::empty()),
    ));
    keys
}

/// Sort keys made of the lowercased folders and the lowercased names.
pub fn folder_name_keys(folders: &Vec<String>, names: &Vec<String>) -> (keys: Vec<(Vec<char>, Vec<char>)>)
    requires
        folders@.len() == names@.len(),
    ensures
        keys_view(keys@) == Seq::new(
            names@.len(),
            |i: int| (lower(folders@[i]@), lower(names@[i]@)),
        ),
{
    let mut keys: Vec<(Vec<char>, Vec<char>)> = Vec::new();
    let mut i: usize = 0;
    while i < names.len()
        invariant
            i <= names.len() == folders.len(),
            keys_view(keys@) == Seq::new(
                names@.len(),
                |i: int| (lower(folders@[i]@), lower(names@[i]@)),
            ).take(i as int),
        decreases names.len() - i,
    {
        let f = chars_of(folders[i].as_str());
        let n = chars_of(names[i].as_str());
        let lf = to_lower(&f);
        let ln = to_lower(&n);
        let ghost before = keys_view(keys@);
        keys.push((lf, ln));
        assert(keys_view(keys@) =~= before.push((lower(folders@[i as int]@), lower(names@[i as int]@))));
        i = i + 1;
        assert(keys_view(keys@) =~= Seq::new(
            names@.len(),
            |i: int| (lower(folders@[i]@), lower(names@[i]@)),
        ).take(i as int));
    }
    assert(Seq::new(names@.len(), |i: int| (lower(folders@[i]@), lower(names@[i]@))).take(i as int)
        =~= Seq::new(names@.len(), |i: int| (lower(folders@[i]@), lower(names@[i]@))));
    keys
}

} // verus!
