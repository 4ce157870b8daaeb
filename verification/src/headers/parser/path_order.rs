use crate::api::traits::has_relative_path::HasRelativePath;
use core::cmp::Ordering;
use vstd::prelude::*;
use vstd::string::StringSliceAdditionalSpecFns;

verus! {

/// `a` comes before `b` in byte-wise lexicographic order (the order of `str`): at the first
/// position where they differ `a` holds the smaller byte, or `a` is a proper prefix of `b`.
pub open spec fn path_lt(a: Seq<u8>, b: Seq<u8>) -> bool {
    exists|k: int|
        #![trigger a.take(k), b.take(k)]
        0 <= k <= a.len() && k <= b.len() && a.take(k) == b.take(k) && (
            (k == a.len() && k < b.len()) || (k < a.len() && k < b.len() && a[k] < b[k])
        )
}

/// The paths of `items` are in ascending order.
pub open spec fn paths_sorted<T: HasRelativePath>(items: Seq<T>) -> bool {
    forall|i: int, j: int|
        0 <= i < j < items.len() ==> !path_lt(items[j].spec_relative_path(), items[i].spec_relative_path())
}

/// The relative path of each item, in order.
pub open spec fn relative_paths<T: HasRelativePath>(items: Seq<T>) -> Seq<Seq<u8>> {
    Seq::new(items.len(), |i: int| items[i].spec_relative_path())
}

/// The length of the longest common prefix of `a` and `b`.
pub(crate) fn common_prefix_len(a: &[u8], b: &[u8]) -> (k: usize)
    ensures
        k <= a@.len(),
        k <= b@.len(),
        a@.take(k as int) == b@.take(k as int),
        k < a@.len() && k < b@.len() ==> a@[k as int] != b@[k as int],
{
    let n = if a.len() < b.len() { a.len() } else { b.len() };
    let mut i: usize = 0;
    while i < n
        invariant
            n <= a@.len(),
            n <= b@.len(),
            n == a@.len() || n == b@.len(),
            i <= n,
            a@.take(i as int) == b@.take(i as int),
        decreases n - i,
    {
        if a[i] != b[i] {
            return i;
        }
        proof {
            assert(a@.take(i + 1) =~= a@.take(i as int).push(a@[i as int]));
            assert(b@.take(i + 1) =~= b@.take(i as int).push(b@[i as int]));
        }
        i = i + 1;
    }
    i
}

/// Tells whether two byte strings are equal.
pub fn bytes_equal(a: &[u8], b: &[u8]) -> (r: bool)
    ensures
        r == (a@ == b@),
{
    let k = common_prefix_len(a, b);
    proof {
        lemma_path_lt_at_index(a@, b@, k);
    }
    k == a.len() && k == b.len()
}

/// At the end of the common prefix of two byte strings their order is decided.
proof fn lemma_path_lt_at(a: Seq<u8>, b: Seq<u8>, k: int)
    requires
        0 <= k <= a.len(),
        k <= b.len(),
        a.take(k) == b.take(k),
        k < a.len() && k < b.len() ==> a[k] != b[k],
    ensures
        path_lt(a, b) == ((k == a.len() && k < b.len()) || (k < a.len() && k < b.len() && a[k] < b[k])),
        path_lt(b, a) == ((k == b.len() && k < a.len()) || (k < a.len() && k < b.len() && b[k] < a[k])),
        (a == b) == (k == a.len() && k == b.len()),
{
    assert forall|x: Seq<u8>, y: Seq<u8>|
        x.take(k) == y.take(k) && k <= x.len() && k <= y.len() && (k < x.len() && k < y.len() ==> x[k] != y[k])
        implies path_lt(x, y) == ((k == x.len() && k < y.len()) || (k < x.len() && k < y.len() && x[k] < y[k])) by {
        if path_lt(x, y) {
            let j = choose|j: int|
                #![trigger x.take(j), y.take(j)]
                0 <= j <= x.len() && j <= y.len() && x.take(j) == y.take(j) && (
                    (j == x.len() && j < y.len()) || (j < x.len() && j < y.len() && x[j] < y[j]));
            if j < k {
                assert(x.take(k)[j] == x[j]);
                assert(y.take(k)[j] == y[j]);
            } else if j > k {
                assert(x.take(j)[k] == x[k]);
                assert(y.take(j)[k] == y[k]);
            }
        }
        if (k == x.len() && k < y.len()) || (k < x.len() && k < y.len() && x[k] < y[k]) {
            assert(x.take(k) == y.take(k));
        }
    }
    if k == a.len() && k == b.len() {
        assert(a =~= a.take(k));
        assert(b =~= b.take(k));
    }
    if a == b {
        if k < a.len() {
            assert(a[k] == b[k]);
        }
    }
}

/// [`lemma_path_lt_at`] at a position held in a `usize`.
proof fn lemma_path_lt_at_index(a: Seq<u8>, b: Seq<u8>, k: usize)
    requires
        k <= a.len(),
        k <= b.len(),
        a.take(k as int) == b.take(k as int),
        k < a.len() && k < b.len() ==> a[k as int] != b[k as int],
    ensures
        path_lt(a, b) == ((k == a.len() && k < b.len()) || (k < a.len() && k < b.len() && a[k as int] < b[k as int])),
        path_lt(b, a) == ((k == b.len() && k < a.len()) || (k < a.len() && k < b.len() && b[k as int] < a[k as int])),
        (a == b) == (k == a.len() && k == b.len()),
{
    lemma_path_lt_at(a, b, k as int);
}

/// The end of the common prefix of `a` and `b`, searched from `i` on.
proof fn lemma_common_prefix_end(a: Seq<u8>, b: Seq<u8>, i: int) -> (k: int)
    requires
        0 <= i <= a.len(),
        i <= b.len(),
        a.take(i) == b.take(i),
    ensures
        i <= k <= a.len(),
        k <= b.len(),
        a.take(k) == b.take(k),
        k < a.len() && k < b.len() ==> a[k] != b[k],
    decreases a.len() - i,
{
    if i < a.len() && i < b.len() && a[i] == b[i] {
        assert(a.take(i + 1) =~= a.take(i).push(a[i]));
        assert(b.take(i + 1) =~= b.take(i).push(b[i]));
        lemma_common_prefix_end(a, b, i + 1)
    } else {
        i
    }
}

/// Byte-wise lexicographic order is a strict total order: no path comes before itself,
/// no two paths each come before the other, and of two different paths one comes first.
pub proof fn lemma_path_lt_total(a: Seq<u8>, b: Seq<u8>)
    ensures
        !path_lt(a, a),
        !(path_lt(a, b) && path_lt(b, a)),
        a != b ==> path_lt(a, b) || path_lt(b, a),
{
    assert(a.take(0) =~= b.take(0));
    let k = lemma_common_prefix_end(a, b, 0);
    lemma_path_lt_at(a, b, k);
    assert(a.take(0) =~= a.take(0));
    let j = lemma_common_prefix_end(a, a, 0);
    lemma_path_lt_at(a, a, j);
}

/// The relative paths of two arrangements of the same items, each sorted by path, are
/// the same sequence: sorting by path leaves only items with equal paths free to move.
pub proof fn lemma_sorted_paths_unique<T: HasRelativePath>(a: Seq<T>, b: Seq<T>)
    requires
        a.to_multiset() == b.to_multiset(),
        paths_sorted(a),
        paths_sorted(b),
    ensures
        relative_paths(a) == relative_paths(b),
    decreases a.len(),
{
    broadcast use vstd::seq_lib::group_to_multiset_ensures;
    vstd::seq_lib::to_multiset_len(a);
    vstd::seq_lib::to_multiset_len(b);
    if a.len() == 0 {
        assert(b.len() == 0);
        assert(relative_paths(a) =~= relative_paths(b));
    } else {
        let x = a[0];
        assert(a.to_multiset().count(x) > 0);
        assert(b.contains(x));
        let j = choose|j: int| 0 <= j < b.len() && b[j] == x;
        let y = b[0];
        assert(b.to_multiset().count(y) > 0);
        assert(a.contains(y));
        let i = choose|i: int| 0 <= i < a.len() && a[i] == y;
        let p = x.spec_relative_path();
        let q = y.spec_relative_path();
        lemma_path_lt_total(p, q);
        if j > 0 {
            assert(!path_lt(b[j].spec_relative_path(), b[0].spec_relative_path()));
        }
        if i > 0 {
            assert(!path_lt(a[i].spec_relative_path(), a[0].spec_relative_path()));
        }
        assert(p == q);
        assert forall|t: int| 0 <= t <= j implies #[trigger] b[t].spec_relative_path() == p by {
            lemma_path_lt_total(b[t].spec_relative_path(), p);
            if t > 0 {
                assert(!path_lt(b[t].spec_relative_path(), b[0].spec_relative_path()));
            }
            if t < j {
                assert(!path_lt(b[j].spec_relative_path(), b[t].spec_relative_path()));
            }
        }
        let a2 = a.drop_first();
        let b2 = b.remove(j);
        vstd::seq_lib::to_multiset_remove(a, 0);
        vstd::seq_lib::to_multiset_remove(b, j);
        assert(a.remove(0) =~= a2);
        assert forall|s: int, t: int| 0 <= s < t < a2.len() implies !path_lt(a2[t].spec_relative_path(), a2[s].spec_relative_path()) by {
            assert(a2[t] == a[t + 1] && a2[s] == a[s + 1]);
        }
        assert forall|s: int, t: int| 0 <= s < t < b2.len() implies !path_lt(b2[t].spec_relative_path(), b2[s].spec_relative_path()) by {
            let s1 = if s < j { s } else { s + 1 };
            let t1 = if t < j { t } else { t + 1 };
            assert(b2[t] == b[t1] && b2[s] == b[s1]);
        }
        lemma_sorted_paths_unique(a2, b2);
        assert forall|t: int| 0 <= t < b.len() implies #[trigger] relative_paths(b)[t] == (seq![p] + relative_paths(b2))[t] by {
            if t > 0 {
                if t <= j {
                    assert(b2[t - 1] == b[t - 1]);
                    assert(b[t - 1].spec_relative_path() == p);
                } else {
                    assert(b2[t - 1] == b[t]);
                }
            }
        }
        assert(relative_paths(b) =~= seq![p] + relative_paths(b2));
        assert(relative_paths(a) =~= seq![p] + relative_paths(a2));
    }
}

/// Compares two byte strings in byte-wise lexicographic order.
pub fn compare_path_bytes(a: &[u8], b: &[u8]) -> (r: Ordering)
    ensures
        (r == Ordering::Less) == path_lt(a@, b@),
        (r == Ordering::Greater) == path_lt(b@, a@),
        (r == Ordering::Equal) == (a@ == b@),
{
    let k = common_prefix_len(a, b);
    proof {
        lemma_path_lt_at_index(a@, b@, k);
    }
    if k < a.len() && k < b.len() {
        if a[k] < b[k] {
            Ordering::Less
        } else {
            Ordering::Greater
        }
    } else if a.len() < b.len() {
        Ordering::Less
    } else if b.len() < a.len() {
        Ordering::Greater
    } else {
        Ordering::Equal
    }
}

/// Compares the relative paths of two items in byte-wise lexicographic order.
pub fn compare_relative_paths<T: HasRelativePath>(a: &T, b: &T) -> (r: Ordering)
    ensures
        (r == Ordering::Less) == path_lt(a.spec_relative_path(), b.spec_relative_path()),
        (r == Ordering::Greater) == path_lt(b.spec_relative_path(), a.spec_relative_path()),
        (r == Ordering::Equal) == (a.spec_relative_path() == b.spec_relative_path()),
{
    compare_path_bytes(a.relative_path().as_bytes(), b.relative_path().as_bytes())
}

/// Calls `slice::sort_by` with [`compare_relative_paths`], which is a total order. The
/// documentation of `sort_by` says that it sorts the slice by the comparison: the items are
/// rearranged, none is lost or added, and they come out in ascending order of their paths.
#[verifier::external_body]
pub(crate) fn sort_by_relative_path<T: HasRelativePath>(items: &mut [T])
    ensures
        final(items)@.to_multiset() == old(items)@.to_multiset(),
        paths_sorted(final(items)@),
{
    items.sort_by(|a, b| compare_relative_paths(a, b));
}

} // verus!
