use vstd::prelude::*;
use std::marker::PhantomData;
use crate::callfinish::CollectResult;
use crate::timings::{Timings, merged_durations, concat_others, merge_durations, lemma_merge_associative, lemma_merge_commutative, lemma_merge_empty};

verus! {

/// The other values that collecting `ts` gives: those of the last of `ts`,
/// then those of the others in order.
pub open spec fn collected_others<U: Sync + Send + 'static>(ts: Seq<Timings<U>>) -> Seq<
    (Seq<char>, U),
> {
    if ts.len() == 0 {
        Seq::empty()
    } else {
        ts.last().others_view() + concat_others(ts.drop_last())
    }
}

/// Merging the durations of a list is merging those of the list without
/// its `j`-th element with those of that element.
proof fn lemma_merged_remove<U: Sync + Send + 'static>(ts: Seq<Timings<U>>, j: int)
    requires
        0 <= j < ts.len(),
    ensures
        merged_durations(ts) == merge_durations(merged_durations(ts.remove(j)), ts[j].durations()),
    decreases ts.len(),
{
    let n = ts.len();
    if j == n - 1 {
        assert(ts.remove(j) =~= ts.drop_last());
    } else {
        let p = ts.drop_last();
        lemma_merged_remove(p, j);
        assert(ts.remove(j).drop_last() =~= p.remove(j));
        assert(ts.remove(j).last() == ts.last());
        let a = merged_durations(p.remove(j));
        let b = ts[j].durations();
        let c = ts.last().durations();
        lemma_merge_associative(a, b, c);
        lemma_merge_commutative(b, c);
        lemma_merge_associative(a, c, b);
    }
}

/// The other values of a list, as a multiset, are those of the list without
/// its `j`-th element together with those of that element.
proof fn lemma_others_remove<U: Sync + Send + 'static>(ts: Seq<Timings<U>>, j: int)
    requires
        0 <= j < ts.len(),
    ensures
        concat_others(ts).to_multiset() == concat_others(ts.remove(j)).to_multiset().add(
            ts[j].others_view().to_multiset(),
        ),
    decreases ts.len(),
{
    broadcast use vstd::multiset::group_multiset_axioms;

    let n = ts.len();
    if j == n - 1 {
        assert(ts.remove(j) =~= ts.drop_last());
        vstd::seq_lib::lemma_multiset_commutative(
            concat_others(ts.drop_last()),
            ts.last().others_view(),
        );
    } else {
        let p = ts.drop_last();
        lemma_others_remove(p, j);
        assert(ts.remove(j).drop_last() =~= p.remove(j));
        assert(ts.remove(j).last() == ts.last());
        vstd::seq_lib::lemma_multiset_commutative(concat_others(p), ts.last().others_view());
        vstd::seq_lib::lemma_multiset_commutative(
            concat_others(p.remove(j)),
            ts.last().others_view(),
        );
        assert(concat_others(ts).to_multiset() =~= concat_others(ts.remove(j)).to_multiset().add(
            ts[j].others_view().to_multiset(),
        ));
    }
}

/// Collecting does not depend on the order of its inputs: for two lists with
/// the same elements, the durations come out the same, and the other values
/// come out as permutations of one another.
pub proof fn law_collect_order_free<U: Sync + Send + 'static>(
    vv1: Seq<Timings<U>>,
    vv2: Seq<Timings<U>>,
)
    requires
        vv1.to_multiset() == vv2.to_multiset(),
    ensures
        merged_durations(vv1) == merged_durations(vv2),
        collected_others(vv1).to_multiset() == collected_others(vv2).to_multiset(),
    decreases vv1.len(),
{
    broadcast use vstd::seq_lib::group_to_multiset_ensures;
    broadcast use vstd::multiset::group_multiset_axioms;

    lemma_collected_is_concat(vv1);
    lemma_collected_is_concat(vv2);
    if vv1.len() == 0 {
        assert(vv1.to_multiset().len() == vv1.len());
        assert(vv2.to_multiset().len() == vv2.len());
        assert(vv1 =~= vv2);
    } else {
        let n = vv1.len() - 1;
        let x = vv1[n];
        assert(vv1.to_multiset().count(x) > 0) by {
            assert(vv1.contains(x));
        }
        assert(vv2.contains(x));
        let j = choose|j: int| 0 <= j < vv2.len() && vv2[j] == x;
        assert(vv1.remove(n) =~= vv1.drop_last());
        assert(vv1.drop_last().to_multiset() =~= vv2.remove(j).to_multiset());
        law_collect_order_free(vv1.drop_last(), vv2.remove(j));
        lemma_collected_is_concat(vv1.drop_last());
        lemma_collected_is_concat(vv2.remove(j));
        lemma_merged_remove(vv2, j);
        lemma_others_remove(vv2, j);
        lemma_others_remove(vv1, n);
    }
}

/// What collecting gives back is, as a multiset, the other values of all
/// the inputs.
proof fn lemma_collected_is_concat<U: Sync + Send + 'static>(ts: Seq<Timings<U>>)
    ensures
        collected_others(ts).to_multiset() == concat_others(ts).to_multiset(),
{
    if ts.len() > 0 {
        vstd::seq_lib::lemma_seq_union_to_multiset_commutative(
            ts.last().others_view(),
            concat_others(ts.drop_last()),
        );
    } else {
        assert(collected_others(ts) =~= concat_others(ts));
    }
}

/// Collects the timings of several stages into one: the durations of each
/// name are added up, and the other values are kept.
pub struct MergeTimings<U: Sync + Send + 'static>(PhantomData<U>);

impl<U: Sync + Send + 'static> MergeTimings<U> {
    pub fn new() -> MergeTimings<U> {
        MergeTimings(PhantomData)
    }
}

impl<U: Sync + Send + 'static> CollectResult for MergeTimings<U> {
    type InType = Timings<U>;
    type OutType = Timings<U>;

    /// The last of `vv` combined with each of the others in turn.
    fn collect(&self, vv: Vec<Timings<U>>) -> (r: Timings<U>)
        ensures
            r.durations() == merged_durations(vv@),
            r.others_view() == collected_others(vv@),
    {
        let ghost all = vv@;
        let mut vv = vv;
        if vv.is_empty() {
            return Timings::new();
        }
        let mut r = vv.pop().unwrap();
        let ghost last = r;
        let ghost rest = vv@;
        proof {
            assert(rest =~= all.drop_last());
            assert(rest.take(0) =~= Seq::<Timings<U>>::empty());
            lemma_merge_empty(last.durations());
            assert(last.others_view() + concat_others(rest.take(0)) =~= last.others_view());
        }
        if vv.len() > 0 {
            for v in it: vv
                invariant
                    it.seq() == rest,
                    r.durations() == merge_durations(
                        last.durations(),
                        merged_durations(rest.take(it.index() as int)),
                    ),
                    r.others_view() == last.others_view() + concat_others(
                        rest.take(it.index() as int),
                    ),
            {
                let ghost j = it.index() as int;
                proof {
                    assert(rest.take(j + 1).drop_last() =~= rest.take(j));
                    assert(rest[j] == v);
                    lemma_merge_associative(
                        last.durations(),
                        merged_durations(rest.take(j)),
                        v.durations(),
                    );
                }
                r.combine(v);
                proof {
                    assert(r.others_view() =~= last.others_view() + concat_others(
                        rest.take(j + 1),
                    ));
                }
            }
        }
        proof {
            assert(rest.take(rest.len() as int) =~= rest);
            lemma_merge_commutative(last.durations(), merged_durations(rest));
            assert(all.drop_last() =~= rest);
        }
        r
    }
}

} // verus!
