//! The lexicographic order of texts and ascending lists without repetition.

use crate::text;
use crate::text::chars_of;
use vstd::prelude::*;

verus! {

/// Lexicographic order by code point: `a` comes strictly before `b`.
pub open spec fn before(a: Seq<char>, b: Seq<char>) -> bool
    decreases a.len(),
{
    if b.len() == 0 {
        false
    } else if a.len() == 0 {
        true
    } else if a[0] != b[0] {
        a[0] < b[0]
    } else {
        before(a.drop_first(), b.drop_first())
    }
}

/// Every text of the list comes strictly before the ones that follow it.
pub open spec fn ascending(v: Seq<Seq<char>>) -> bool {
    forall|i: int, j: int| 0 <= i < j < v.len() ==> before(#[trigger] v[i], #[trigger] v[j])
}

/// No text comes before itself.
pub proof fn before_is_irreflexive(a: Seq<char>)
    ensures
        !before(a, a),
    decreases a.len(),
{
    if a.len() > 0 {
        before_is_irreflexive(a.drop_first());
    }
}

/// The order is transitive.
pub proof fn before_is_transitive(a: Seq<char>, b: Seq<char>, c: Seq<char>)
    requires
        before(a, b),
        before(b, c),
    ensures
        before(a, c),
    decreases a.len(),
{
    if a.len() > 0 && a[0] == b[0] && b[0] == c[0] {
        before_is_transitive(a.drop_first(), b.drop_first(), c.drop_first());
    }
}

/// Of two different texts one comes before the other.
pub proof fn before_is_total(a: Seq<char>, b: Seq<char>)
    ensures
        a == b || before(a, b) || before(b, a),
    decreases a.len(),
{
    if a.len() == 0 || b.len() == 0 {
        if a.len() == b.len() {
            assert(a == b);
        }
    } else if a[0] == b[0] {
        before_is_total(a.drop_first(), b.drop_first());
        if a.drop_first() == b.drop_first() {
            assert(a == seq![a[0]] + a.drop_first());
            assert(b == seq![b[0]] + b.drop_first());
        }
    }
}

/// Two ascending lists with the same texts are the same list.
pub proof fn ascending_list_is_unique(a: Seq<Seq<char>>, b: Seq<Seq<char>>)
    requires
        ascending(a),
        ascending(b),
        a.to_set() == b.to_set(),
    ensures
        a == b,
    decreases a.len(),
{
    if a.len() == 0 {
        if b.len() > 0 {
            assert(b.to_set().contains(b[0]));
            assert(a.to_set().contains(b[0]));
        }
        assert(a == b);
    } else {
        assert(a.to_set().contains(a.last()));
        assert(b.to_set().contains(a.last()));
        let k = choose|k: int| 0 <= k < b.len() && b[k] == a.last();
        assert(b.to_set().contains(b.last()));
        assert(a.to_set().contains(b.last()));
        let m = choose|m: int| 0 <= m < a.len() && a[m] == b.last();
        if k < b.len() - 1 {
            assert(before(b[k], b.last()));
            if m < a.len() - 1 {
                assert(before(a[m], a.last()));
                before_is_transitive(a.last(), b.last(), a.last());
            }
            before_is_irreflexive(a.last());
        }
        let a0 = a.drop_last();
        let b0 = b.drop_last();
        assert forall|t: Seq<char>| a0.to_set().contains(t) == b0.to_set().contains(t) by {
            before_is_irreflexive(a.last());
            if a0.to_set().contains(t) {
                let i = choose|i: int| 0 <= i < a0.len() && a0[i] == t;
                assert(before(a[i], a.last()));
                assert(a.to_set().contains(a[i]));
                assert(b.to_set().contains(t));
                let j = choose|j: int| 0 <= j < b.len() && b[j] == t;
                assert(j < b.len() - 1);
                assert(b0[j] == t);
            }
            if b0.to_set().contains(t) {
                let i = choose|i: int| 0 <= i < b0.len() && b0[i] == t;
                assert(before(b[i], b.last()));
                assert(b.to_set().contains(b[i]));
                assert(a.to_set().contains(t));
                let j = choose|j: int| 0 <= j < a.len() && a[j] == t;
                assert(j < a.len() - 1);
                assert(a0[j] == t);
            }
        }
        assert(a0.to_set() =~= b0.to_set());
        ascending_list_is_unique(a0, b0);
        assert(a == a0.push(a.last()));
        assert(b == b0.push(b.last()));
    }
}

/// Whether `a` comes strictly before `b`.
pub fn comes_before(a: &str, b: &str) -> (r: bool)
    ensures
        r == before(a@, b@),
{
    let x = chars_of(a);
    let y = chars_of(b);
    let mut i: usize = 0;
    assert(x@.skip(0) == x@);
    assert(y@.skip(0) == y@);
    loop
        invariant
            x@ == a@,
            y@ == b@,
            i <= x@.len(),
            i <= y@.len(),
            before(a@, b@) == before(x@.skip(i as int), y@.skip(i as int)),
        decreases x@.len() - i,
    {
        if i >= y.len() {
            return false;
        }
        if i >= x.len() {
            return true;
        }
        if x[i] != y[i] {
            return x[i] < y[i];
        }
        assert(x@.skip(i as int).drop_first() == x@.skip(i + 1));
        assert(y@.skip(i as int).drop_first() == y@.skip(i + 1));
        i += 1;
    }
}

/// Puts `s` in its place in an ascending list, unless the list holds it already.
pub fn insert_ascending(v: &mut Vec<String>, s: String)
    requires
        ascending(text::texts(old(v)@)),
    ensures
        ascending(text::texts(final(v)@)),
        text::texts(final(v)@).to_set() == text::texts(old(v)@).to_set().insert(s@),
{
    let ghost t0 = text::texts(v@);
    let mut i: usize = 0;
    while i < v.len() && comes_before(v[i].as_str(), s.as_str())
        invariant
            i <= v@.len(),
            t0 == text::texts(v@),
            ascending(t0),
            forall|j: int| 0 <= j < i ==> before(#[trigger] t0[j], s@),
        decreases v@.len() - i,
    {
        assert(t0[i as int] == v@[i as int]@);
        i += 1;
    }
    if i < v.len() {
        assert(t0[i as int] == v@[i as int]@);
        if v[i] == s {
            assert(t0.to_set().insert(s@) =~= t0.to_set()) by {
                assert(t0.to_set().contains(t0[i as int]));
            }
            return;
        }
        proof {
            before_is_total(t0[i as int], s@);
        }
    }
    let ghost key = s@;
    v.insert(i, s);
    proof {
        let t1 = text::texts(v@);
        assert(t1 =~= t0.insert(i as int, key));
        assert forall|p: int, q: int| 0 <= p < q < t1.len() implies before(#[trigger] t1[p], #[trigger] t1[q]) by {
            if p == i {
                assert(t1[q] == t0[q - 1]);
                if q - 1 > i {
                    assert(before(t0[i as int], t0[q - 1]));
                    before_is_transitive(key, t0[i as int], t0[q - 1]);
                }
            } else if q == i {
                assert(t1[p] == t0[p]);
            } else {
                let p0 = if p < i { p } else { p - 1 };
                let q0 = if q < i { q } else { q - 1 };
                assert(t1[p] == t0[p0] && t1[q] == t0[q0]);
                assert(before(t0[p0], t0[q0]));
            }
        }
        assert forall|t: Seq<char>| t1.to_set().contains(t) == t0.to_set().insert(key).contains(t) by {
            if t0.to_set().contains(t) {
                let p = choose|p: int| 0 <= p < t0.len() && t0[p] == t;
                if p < i {
                    assert(t1[p] == t);
                } else {
                    assert(t1[p + 1] == t);
                }
            }
            if t == key {
                assert(t1[i as int] == t);
            }
            if t1.to_set().contains(t) {
                let p = choose|p: int| 0 <= p < t1.len() && t1[p] == t;
                if p < i {
                    assert(t0[p] == t);
                } else if p > i {
                    assert(t0[p - 1] == t);
                }
            }
        }
        assert(t1.to_set() =~= t0.to_set().insert(key));
    }
}

} // verus!
