//! Stable ordering of items by a (rank, name) key.

use vstd::prelude::*;
use crate::text::{lex_lt, lemma_lex_irreflexive, lemma_lex_transitive, lemma_lex_total};

verus! {

/// Items ordered by a key made of a small rank first, then a name in code
/// point order.
pub trait SortKey: Sized {
    /// The key of the item.
    spec fn sort_key(&self) -> (u8, Seq<char>);

    /// Whether this item's key is strictly below `other`'s.
    fn key_below(&self, other: &Self) -> (r: bool)
        ensures
            r == key_lt(self.sort_key(), other.sort_key()),
    ;
}

/// The key of an item.
pub open spec fn key_of<T: SortKey>(x: T) -> (u8, Seq<char>) {
    x.sort_key()
}

/// Strict order on keys: rank first, then name.
pub open spec fn key_lt(a: (u8, Seq<char>), b: (u8, Seq<char>)) -> bool {
    a.0 < b.0 || (a.0 == b.0 && lex_lt(a.1, b.1))
}

/// No item is followed by one with a smaller key.
pub open spec fn sorted_by_key<T: SortKey>(s: Seq<T>) -> bool {
    forall|i: int, j: int| 0 <= i < j < s.len() ==> !key_lt(key_of(s[j]), key_of(s[i]))
}

/// The items of `s` whose key is `k`, in their order in `s`.
pub open spec fn with_key<T: SortKey>(s: Seq<T>, k: (u8, Seq<char>)) -> Seq<T> {
    s.filter(|x: T| key_of(x) == k)
}

/// `a` and `b` hold, for every key, the same items in the same order.
pub open spec fn same_key_order<T: SortKey>(a: Seq<T>, b: Seq<T>) -> bool {
    forall|k: (u8, Seq<char>)| #[trigger] with_key(a, k) == with_key(b, k)
}

proof fn lemma_key_lt_transitive(a: (u8, Seq<char>), b: (u8, Seq<char>), c: (u8, Seq<char>))
    requires
        key_lt(a, b),
        key_lt(b, c),
    ensures
        key_lt(a, c),
{
    if a.0 == b.0 && b.0 == c.0 {
        lemma_lex_transitive(a.1, b.1, c.1);
    }
}

proof fn lemma_key_lt_irreflexive(a: (u8, Seq<char>))
    ensures
        !key_lt(a, a),
{
    lemma_lex_irreflexive(a.1);
}

proof fn lemma_key_total(a: (u8, Seq<char>), b: (u8, Seq<char>))
    ensures
        key_lt(a, b) || key_lt(b, a) || a == b,
{
    lemma_lex_total(a.1, b.1);
}

proof fn lemma_filter_push<T: SortKey>(s: Seq<T>, x: T, k: (u8, Seq<char>))
    ensures
        with_key(s.push(x), k) == if key_of(x) == k {
            with_key(s, k).push(x)
        } else {
            with_key(s, k)
        },
{
    reveal(Seq::filter);
    assert(s.push(x).drop_last() =~= s);
}

proof fn lemma_filter_none<T: SortKey>(s: Seq<T>, k: (u8, Seq<char>))
    requires
        forall|j: int| 0 <= j < s.len() ==> key_of(#[trigger] s[j]) != k,
    ensures
        with_key(s, k) == Seq::<T>::empty(),
    decreases s.len(),
{
    reveal(Seq::filter);
    if s.len() > 0 {
        let t = s.drop_last();
        assert forall|j: int| 0 <= j < t.len() implies key_of(#[trigger] t[j]) != k by {
            assert(t[j] == s[j]);
        }
        lemma_filter_none(t, k);
    }
}

proof fn lemma_filter_front<T: SortKey>(s: Seq<T>, k: (u8, Seq<char>))
    requires
        s.len() > 0,
    ensures
        with_key(s, k) == if key_of(s[0]) == k {
            seq![s[0]] + with_key(s.drop_first(), k)
        } else {
            with_key(s.drop_first(), k)
        },
{
    assert(s =~= seq![s[0]] + s.drop_first());
    Seq::filter_distributes_over_add(seq![s[0]], s.drop_first(), |x: T| key_of(x) == k);
    reveal(Seq::filter);
    assert(seq![s[0]].drop_last() =~= Seq::<T>::empty());
    assert(with_key(Seq::<T>::empty(), k) =~= Seq::<T>::empty());
    if key_of(s[0]) != k {
        assert(with_key(seq![s[0]], k) =~= Seq::<T>::empty());
        assert(with_key(seq![s[0]], k) + with_key(s.drop_first(), k) =~= with_key(
            s.drop_first(),
            k,
        ));
    } else {
        assert(with_key(seq![s[0]], k) =~= seq![s[0]]);
    }
}

proof fn lemma_key_present<T: SortKey>(s: Seq<T>, k: (u8, Seq<char>))
    requires
        with_key(s, k).len() > 0,
    ensures
        exists|j: int| 0 <= j < s.len() && key_of(#[trigger] s[j]) == k,
{
    let f = with_key(s, k);
    let x = f[0];
    broadcast use vstd::seq_lib::group_filter_ensures;
    assert(f.contains(x));
    s.lemma_filter_contains_rev(|y: T| key_of(y) == k, x);
    assert(key_of(x) == k);
    let j = choose|j: int| 0 <= j < s.len() && s[j] == x;
    assert(key_of(s[j]) == k);
}

/// The order is determined: two sequences that are both sorted by key and
/// hold, key by key, the same items in the same order are equal. So the
/// result of `stable_sort` is the only one its contract allows.
pub proof fn lemma_stable_order_unique<T: SortKey>(a: Seq<T>, b: Seq<T>)
    requires
        sorted_by_key(a),
        sorted_by_key(b),
        same_key_order(a, b),
    ensures
        a == b,
    decreases a.len() + b.len(),
{
    if a.len() == 0 && b.len() == 0 {
        assert(a =~= b);
    } else if a.len() == 0 {
        lemma_filter_front(b, key_of(b[0]));
        assert(with_key(a, key_of(b[0])) == with_key(b, key_of(b[0])));
        reveal(Seq::filter);
        assert(with_key(a, key_of(b[0])).len() == 0);
    } else if b.len() == 0 {
        lemma_filter_front(a, key_of(a[0]));
        assert(with_key(a, key_of(a[0])) == with_key(b, key_of(a[0])));
        reveal(Seq::filter);
        assert(with_key(b, key_of(a[0])).len() == 0);
    } else {
        let ka = key_of(a[0]);
        let kb = key_of(b[0]);
        lemma_filter_front(a, ka);
        lemma_filter_front(b, kb);
        assert(with_key(a, kb) == with_key(b, kb));
        assert(with_key(b, ka) == with_key(a, ka));
        lemma_key_present(a, kb);
        lemma_key_present(b, ka);
        let ja = choose|j: int| 0 <= j < a.len() && key_of(#[trigger] a[j]) == kb;
        let jb = choose|j: int| 0 <= j < b.len() && key_of(#[trigger] b[j]) == ka;
        if ja > 0 {
            assert(!key_lt(key_of(a[ja]), key_of(a[0])));
        }
        if jb > 0 {
            assert(!key_lt(key_of(b[jb]), key_of(b[0])));
        }
        lemma_key_lt_irreflexive(ka);
        lemma_key_total(ka, kb);
        assert(ka == kb);
        lemma_filter_front(b, ka);
        assert(a[0] == b[0]) by {
            assert(with_key(a, ka)[0] == a[0]);
            assert(with_key(b, ka)[0] == b[0]);
        }
        let a2 = a.drop_first();
        let b2 = b.drop_first();
        assert forall|k: (u8, Seq<char>)| #[trigger] with_key(a2, k) == with_key(b2, k) by {
            lemma_filter_front(a, k);
            lemma_filter_front(b, k);
            assert(with_key(a, k) == with_key(b, k));
            if key_of(a[0]) == k {
                assert(with_key(a2, k) =~= with_key(a, k).drop_first());
                assert(with_key(b2, k) =~= with_key(b, k).drop_first());
            }
        }
        assert(sorted_by_key(a2)) by {
            assert forall|i: int, j: int| 0 <= i < j < a2.len() implies !key_lt(
                key_of(a2[j]),
                key_of(a2[i]),
            ) by {
                assert(a2[i] == a[i + 1] && a2[j] == a[j + 1]);
            }
        }
        assert(sorted_by_key(b2)) by {
            assert forall|i: int, j: int| 0 <= i < j < b2.len() implies !key_lt(
                key_of(b2[j]),
                key_of(b2[i]),
            ) by {
                assert(b2[i] == b[i + 1] && b2[j] == b[j + 1]);
            }
        }
        lemma_stable_order_unique(a2, b2);
        assert(a =~= seq![a[0]] + a2);
        assert(b =~= seq![b[0]] + b2);
    }
}

/// The items of `v`, stably ordered by key, as `slice::sort_by` orders them.
pub fn stable_sort<T: SortKey>(v: Vec<T>) -> (r: Vec<T>)
    ensures
        sorted_by_key(r@),
        same_key_order(r@, v@),
{
    let ghost orig = v@;
    assert(orig.len() == v.len());
    let mut rest = v;
    let mut out: Vec<T> = Vec::new();
    let mut done: usize = 0;
    assert(orig.take(0) =~= Seq::<T>::empty());
    assert(orig.skip(0) =~= orig);
    while rest.len() > 0
        invariant
            done <= orig.len(),
            orig.len() <= usize::MAX,
            rest@ == orig.skip(done as int),
            sorted_by_key(out@),
            same_key_order(out@, orig.take(done as int)),
        decreases rest@.len(),
    {
        let x = rest.remove(0);
        let ghost kx = key_of(x);
        assert(x == orig[done as int]);
        assert(rest@ =~= orig.skip(done + 1));
        // find the first position whose key is greater than x's
        let mut pos: usize = 0;
        while pos < out.len() && !x.key_below(&out[pos])
            invariant
                pos <= out@.len(),
                forall|j: int| 0 <= j < pos ==> !key_lt(kx, key_of(#[trigger] out@[j])),
                kx == key_of(x),
            decreases out@.len() - pos,
        {
            pos = pos + 1;
        }
        let ghost old_out = out@;
        proof {
            // everything from pos on is strictly greater than x
            assert forall|j: int| pos <= j < old_out.len() implies key_lt(kx, key_of(#[trigger] old_out[j])) by {
                if j > pos {
                    lemma_key_total(key_of(old_out[pos as int]), key_of(old_out[j]));
                    if key_lt(key_of(old_out[pos as int]), key_of(old_out[j])) {
                        lemma_key_lt_transitive(kx, key_of(old_out[pos as int]), key_of(old_out[j]));
                    }
                }
            }
        }
        out.insert(pos, x);
        proof {
            let nw = out@;
            assert(nw =~= old_out.take(pos as int).push(x) + old_out.skip(pos as int));
            assert forall|i: int, j: int| 0 <= i < j < nw.len() implies !key_lt(key_of(nw[j]), key_of(nw[i])) by {
                if i < pos && j < pos {
                    assert(nw[i] == old_out[i] && nw[j] == old_out[j]);
                } else if i < pos && j == pos {
                    lemma_key_total(kx, key_of(old_out[i]));
                    if key_lt(key_of(old_out[i]), kx) {
                        lemma_key_lt_irreflexive(kx);
                        if key_lt(kx, key_of(old_out[i])) {
                            lemma_key_lt_transitive(kx, key_of(old_out[i]), kx);
                        }
                    }
                    assert(nw[i] == old_out[i]);
                } else if i < pos && j > pos {
                    assert(nw[i] == old_out[i] && nw[j] == old_out[j - 1]);
                } else if i == pos {
                    assert(nw[j] == old_out[j - 1]);
                    if key_lt(key_of(old_out[j - 1]), kx) {
                        lemma_key_lt_transitive(kx, key_of(old_out[j - 1]), kx);
                        lemma_key_lt_irreflexive(kx);
                    }
                } else {
                    assert(nw[i] == old_out[i - 1] && nw[j] == old_out[j - 1]);
                }
            }
            assert forall|k: (u8, Seq<char>)| #[trigger] with_key(nw, k) == with_key(orig.take(done + 1), k) by {
                let pre = old_out.take(pos as int);
                let post = old_out.skip(pos as int);
                assert(old_out =~= pre + post);
                Seq::filter_distributes_over_add(pre, post, |y: T| key_of(y) == k);
                Seq::filter_distributes_over_add(pre.push(x), post, |y: T| key_of(y) == k);
                lemma_filter_push(pre, x, k);
                assert(orig.take(done + 1) =~= orig.take(done as int).push(x));
                lemma_filter_push(orig.take(done as int), x, k);
                if key_of(x) == k {
                    assert forall|j: int| 0 <= j < post.len() implies key_of(#[trigger] post[j]) != k by {
                        assert(post[j] == old_out[pos + j]);
                        lemma_key_lt_irreflexive(kx);
                    }
                    lemma_filter_none(post, k);
                    assert(with_key(pre, k) + with_key(post, k) =~= with_key(pre, k));
                    assert(with_key(pre, k).push(x) + with_key(post, k) =~= with_key(pre, k).push(x));
                }
                assert(with_key(old_out, k) == with_key(orig.take(done as int), k));
            }
        }
        done = done + 1;
    }
    assert(orig.take(done as int) =~= orig);
    out
}

/// Whether key `(ra, na)` is strictly below key `(rb, nb)`.
pub fn key_less(ra: u8, na: &[char], rb: u8, nb: &[char]) -> (r: bool)
    ensures
        r == key_lt((ra, na@), (rb, nb@)),
{
    ra < rb || (ra == rb && crate::text::lex_less(na, nb))
}

} // verus!
