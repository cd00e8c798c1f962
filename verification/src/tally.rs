//! Counting the elements of a sequence that satisfy a predicate, and
//! copying a vector.

use vstd::prelude::*;

verus! {

/// One for true, zero for false.
pub open spec fn unit(b: bool) -> nat {
    if b {
        1
    } else {
        0
    }
}

/// How many elements of `s` satisfy `p`.
pub open spec fn tally<T>(s: Seq<T>, p: spec_fn(T) -> bool) -> nat
    decreases s.len(),
{
    if s.len() == 0 {
        0
    } else {
        tally(s.drop_last(), p) + unit(p(s.last()))
    }
}

/// A vector with the same elements.
pub(crate) fn copy_of<T: Copy>(v: &Vec<T>) -> (copy: Vec<T>)
    ensures
        copy@ == v@,
{
    let mut copy: Vec<T> = Vec::new();
    let mut i: usize = 0;
    while i < v.len()
        invariant
            i <= v@.len(),
            copy@ == v@.take(i as int),
        decreases v@.len() - i,
    {
        copy.push(v[i]);
        proof {
            assert(copy@ =~= v@.take(i + 1));
        }
        i += 1;
    }
    proof {
        assert(v@.take(i as int) =~= v@);
    }
    copy
}

/// Counts the elements of `v` for which `f` answers true, where `f` decides
/// the predicate `p`.
pub(crate) fn count_where<T, F: Fn(&T) -> bool>(v: &Vec<T>, f: F, Ghost(p): Ghost<
    spec_fn(T) -> bool,
>) -> (count: usize)
    requires
        forall|t: &T| call_requires(f, (t,)),
        forall|t: &T, r: bool| call_ensures(f, (t,), r) ==> r == p(*t),
    ensures
        count == tally(v@, p),
        count <= v@.len(),
{
    let n = v.len();
    let mut count: usize = 0;
    let mut i: usize = 0;
    while i < n
        invariant
            i <= n,
            n == v@.len(),
            forall|t: &T| call_requires(f, (t,)),
            forall|t: &T, r: bool| call_ensures(f, (t,), r) ==> r == p(*t),
            count == tally(v@.take(i as int), p),
            count <= i,
        decreases n - i,
    {
        proof {
            lemma_tally_step(v@, p, i as int);
        }
        if f(&v[i]) {
            count += 1;
        }
        i += 1;
    }
    proof {
        assert(v@.take(n as int) =~= v@);
    }
    count
}

/// Counting one element more adds that element's unit.
pub proof fn lemma_tally_step<T>(s: Seq<T>, p: spec_fn(T) -> bool, i: int)
    requires
        0 <= i < s.len(),
    ensures
        tally(s.take(i + 1), p) == tally(s.take(i), p) + unit(p(s[i])),
{
    assert(s.take(i + 1).drop_last() =~= s.take(i));
}

/// Replacing one element changes the tally by the difference of the two units.
pub proof fn lemma_tally_update<T>(s: Seq<T>, p: spec_fn(T) -> bool, i: int, v: T)
    requires
        0 <= i < s.len(),
    ensures
        tally(s.update(i, v), p) + unit(p(s[i])) == tally(s, p) + unit(p(v)),
    decreases s.len(),
{
    let t = s.update(i, v);
    if i == s.len() - 1 {
        assert(t.drop_last() =~= s.drop_last());
    } else {
        assert(t.drop_last() =~= s.drop_last().update(i, v));
        lemma_tally_update(s.drop_last(), p, i, v);
    }
}

/// The tally is zero exactly when no element satisfies the predicate.
pub proof fn lemma_tally_zero<T>(s: Seq<T>, p: spec_fn(T) -> bool)
    ensures
        tally(s, p) == 0 <==> forall|i: int| 0 <= i < s.len() ==> !p(#[trigger] s[i]),
    decreases s.len(),
{
    if s.len() > 0 {
        let d = s.drop_last();
        lemma_tally_zero(d, p);
        if tally(s, p) == 0 {
            assert forall|i: int| 0 <= i < s.len() implies !p(#[trigger] s[i]) by {
                if i < s.len() - 1 {
                    assert(d[i] == s[i]);
                }
            }
        }
        if forall|i: int| 0 <= i < s.len() ==> !p(#[trigger] s[i]) {
            assert forall|i: int| 0 <= i < d.len() implies !p(#[trigger] d[i]) by {
                assert(d[i] == s[i]);
            }
            assert(!p(s[s.len() - 1]));
        }
    }
}

/// Two sequences that agree on the predicate at every index have equal tallies.
pub proof fn lemma_tally_agree<T>(s: Seq<T>, t: Seq<T>, p: spec_fn(T) -> bool, q: spec_fn(T) -> bool)
    requires
        s.len() == t.len(),
        forall|i: int| 0 <= i < s.len() ==> p(#[trigger] s[i]) == q(t[i]),
    ensures
        tally(s, p) == tally(t, q),
    decreases s.len(),
{
    if s.len() > 0 {
        assert forall|i: int| 0 <= i < s.drop_last().len() implies p(#[trigger] s.drop_last()[i]) == q(
            t.drop_last()[i],
        ) by {
            assert(s.drop_last()[i] == s[i]);
        }
        lemma_tally_agree(s.drop_last(), t.drop_last(), p, q);
        assert(p(s[s.len() - 1]) == q(t[s.len() - 1]));
    }
}

/// How many of the numbers below `n` satisfy `p`.
pub open spec fn count_below(n: nat, p: spec_fn(int) -> bool) -> nat
    decreases n,
{
    if n == 0 {
        0
    } else {
        count_below((n - 1) as nat, p) + unit(p(n - 1))
    }
}

/// A count never exceeds its bound, and grows with it.
pub proof fn lemma_count_bound(m: nat, n: nat, p: spec_fn(int) -> bool)
    requires
        m <= n,
    ensures
        count_below(m, p) <= count_below(n, p) <= count_below(m, p) + (n - m),
        count_below(n, p) <= n,
    decreases n,
{
    if n > m {
        lemma_count_bound(m, (n - 1) as nat, p);
    } else if n > 0 {
        lemma_count_bound((m - 1) as nat, (n - 1) as nat, p);
    }
}

/// Predicates that agree below `n` have equal counts.
pub proof fn lemma_count_agree(n: nat, p: spec_fn(int) -> bool, q: spec_fn(int) -> bool)
    requires
        forall|i: int| 0 <= i < n ==> (#[trigger] p(i)) == q(i),
    ensures
        count_below(n, p) == count_below(n, q),
    decreases n,
{
    if n > 0 {
        lemma_count_agree((n - 1) as nat, p, q);
    }
}

/// Where `q` differs from `p` only at `j`, which satisfies `p` and not `q`,
/// it counts one less.
pub proof fn lemma_count_drop(n: nat, p: spec_fn(int) -> bool, q: spec_fn(int) -> bool, j: int)
    requires
        0 <= j < n,
        p(j),
        !q(j),
        forall|i: int| 0 <= i < n && i != j ==> (#[trigger] p(i)) == q(i),
    ensures
        count_below(n, p) == count_below(n, q) + 1,
    decreases n,
{
    if j == n - 1 {
        lemma_count_agree((n - 1) as nat, p, q);
    } else {
        lemma_count_drop((n - 1) as nat, p, q, j);
    }
}

/// Where every number below `n` satisfies `p`, the count is `n`.
pub proof fn lemma_count_all(n: nat, p: spec_fn(int) -> bool)
    requires
        forall|i: int| 0 <= i < n ==> #[trigger] p(i),
    ensures
        count_below(n, p) == n,
    decreases n,
{
    if n > 0 {
        lemma_count_all((n - 1) as nat, p);
    }
}

} // verus!
