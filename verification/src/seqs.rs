use vstd::prelude::*;

verus! {

/// The views of the items of `s`, in order.
pub open spec fn views<T: View>(s: Seq<T>) -> Seq<T::V> {
    Seq::new(s.len(), |i: int| s[i]@)
}

/// Filtering the first `k + 1` items keeps what filtering the first `k`
/// keeps, followed by item `k` where the predicate holds of it.
pub proof fn lemma_filter_take_step<A>(s: Seq<A>, keep: spec_fn(A) -> bool, k: int)
    requires
        0 <= k < s.len(),
    ensures
        s.take(k + 1).filter(keep) == if keep(s[k]) {
            s.take(k).filter(keep).push(s[k])
        } else {
            s.take(k).filter(keep)
        },
{
    reveal(Seq::filter);
    assert(s.take(k + 1).drop_last() =~= s.take(k));
    assert(s.take(k + 1).last() == s[k]);
}

/// A filter that every item passes changes nothing.
pub proof fn lemma_filter_keeps_all<A>(s: Seq<A>, keep: spec_fn(A) -> bool)
    requires
        forall|i: int| 0 <= i < s.len() ==> keep(#[trigger] s[i]),
    ensures
        s.filter(keep) == s,
    decreases s.len(),
{
    reveal(Seq::filter);
    if s.len() > 0 {
        lemma_filter_keeps_all(s.drop_last(), keep);
        assert(s.drop_last().push(s.last()) =~= s);
    }
}

/// A filter that exactly one item fails removes that item.
pub proof fn lemma_filter_drops_one<A>(s: Seq<A>, keep: spec_fn(A) -> bool, at: int)
    requires
        0 <= at < s.len(),
        !keep(s[at]),
        forall|i: int| 0 <= i < s.len() && i != at ==> keep(#[trigger] s[i]),
    ensures
        s.filter(keep) == s.remove(at),
    decreases s.len(),
{
    reveal(Seq::filter);
    if at == s.len() - 1 {
        lemma_filter_keeps_all(s.drop_last(), keep);
        assert(s.remove(at) =~= s.drop_last());
    } else {
        lemma_filter_drops_one(s.drop_last(), keep, at);
        assert(s.drop_last().remove(at).push(s.last()) =~= s.remove(at));
    }
}

/// A filter keeps every item that passes.
pub proof fn lemma_filter_keeps_passing<A>(s: Seq<A>, keep: spec_fn(A) -> bool, at: int)
    requires
        0 <= at < s.len(),
        keep(s[at]),
    ensures
        s.filter(keep).contains(s[at]),
    decreases s.len(),
{
    reveal(Seq::filter);
    let kept = s.drop_last().filter(keep);
    if at == s.len() - 1 {
        assert(s.filter(keep) == kept.push(s.last()));
        assert(s.filter(keep)[kept.len() as int] == s[at]);
    } else {
        lemma_filter_keeps_passing(s.drop_last(), keep, at);
        let i = choose|i: int| 0 <= i < kept.len() && kept[i] == s.drop_last()[at];
        assert(s.filter(keep)[i] == s[at]);
    }
}

/// The place in `s` of the `i`-th item that the filter keeps.
pub open spec fn filter_source<A>(s: Seq<A>, keep: spec_fn(A) -> bool, i: int) -> int
    decreases s.len(),
{
    if s.len() == 0 {
        0
    } else if keep(s.last()) && i == s.drop_last().filter(keep).len() {
        s.len() - 1
    } else {
        filter_source(s.drop_last(), keep, i)
    }
}

/// What a filter keeps are items of the sequence that pass, in their order.
pub proof fn lemma_filter_is_subsequence<A>(s: Seq<A>, keep: spec_fn(A) -> bool)
    ensures
        forall|i: int|
            0 <= i < s.filter(keep).len() ==> {
                let k = #[trigger] filter_source(s, keep, i);
                0 <= k < s.len() && s[k] == s.filter(keep)[i] && keep(s[k])
            },
        forall|i: int, j: int|
            0 <= i < j < s.filter(keep).len() ==> (#[trigger] filter_source(s, keep, i)) < (
            #[trigger] filter_source(s, keep, j)),
    decreases s.len(),
{
    reveal(Seq::filter);
    if s.len() > 0 {
        lemma_filter_is_subsequence(s.drop_last(), keep);
        let sub = s.drop_last().filter(keep);
        assert forall|i: int| 0 <= i < s.filter(keep).len() implies {
            let k = #[trigger] filter_source(s, keep, i);
            0 <= k < s.len() && s[k] == s.filter(keep)[i] && keep(s[k])
        } by {
            if keep(s.last()) && i == sub.len() {
            } else {
                let k = filter_source(s.drop_last(), keep, i);
                assert(0 <= k < s.drop_last().len());
                assert(s.drop_last()[k] == s[k]);
            }
        }
        assert forall|i: int, j: int| 0 <= i < j < s.filter(keep).len() implies (
        #[trigger] filter_source(s, keep, i)) < (#[trigger] filter_source(s, keep, j)) by {
            let a = filter_source(s.drop_last(), keep, i);
            assert(0 <= a < s.drop_last().len());
            if keep(s.last()) && j == sub.len() {
                assert(filter_source(s, keep, j) == s.len() - 1);
                assert(filter_source(s, keep, i) == a);
            } else {
                let b = filter_source(s.drop_last(), keep, j);
                assert(a < b);
                assert(filter_source(s, keep, i) == a);
                assert(filter_source(s, keep, j) == b);
            }
        }
    }
}


} // verus!
