use vstd::prelude::*;
use crate::callfinish::{CallFinish, CollectResult};
use crate::error::{Error, Result};

verus! {

/// The last error among `rs`, if there is one.
pub open spec fn last_error<U, E>(rs: Seq<Result<U, E>>) -> Option<Error<E>>
    decreases rs.len(),
{
    if rs.len() == 0 {
        None
    } else {
        match rs.last() {
            Err(e) => Some(e),
            Ok(_) => last_error(rs.drop_last()),
        }
    }
}

/// The values of `rs`, each taken out of its `Ok`.
pub open spec fn ok_values<U, E>(rs: Seq<Result<U, E>>) -> Seq<U> {
    rs.map_values(|r: Result<U, E>| r->Ok_0)
}

/// The outcome of finishing several stages: the last error among them if
/// any failed, else all their results, in order.
pub fn merge_outcomes<U, E>(results: Vec<Result<U, E>>) -> (r: Result<Vec<U>, E>)
    ensures
        match last_error(results@) {
            Some(e) => r == Err::<Vec<U>, Error<E>>(e),
            None => r is Ok && r->Ok_0@ == ok_values(results@),
        },
{
    let ghost all = results@;
    let mut values: Vec<U> = Vec::new();
    let mut err: Option<Error<E>> = None;
    for r in it: results
        invariant
            it.seq() == all,
            err == last_error(all.take(it.index() as int)),
            err is None ==> values@ == ok_values(all.take(it.index() as int)),
    {
        let ghost j = it.index() as int;
        proof {
            assert(all.take(j + 1).drop_last() =~= all.take(j));
            assert(all.take(j + 1).last() == r);
        }
        match r {
            Ok(s) => {
                values.push(s);
                proof {
                    if err is None {
                        assert(values@ =~= ok_values(all.take(j + 1)));
                    }
                }
            },
            Err(e) => {
                err = Some(e);
            },
        }
    }
    proof {
        assert(all.take(all.len() as int) =~= all);
    }
    match err {
        Some(e) => Err(e),
        None => Ok(values),
    }
}

/// The stage that a merge of `l` stages hands its call to after `k` calls,
/// by the steps that `CallbackMerge::new` and `CallbackMerge::call` state.
pub open spec fn target_after(l: nat, k: nat) -> int
    decreases k,
{
    if k == 0 {
        0
    } else {
        (target_after(l, (k - 1) as nat) + 1) % (l as int)
    }
}

/// Round robin: the `k`-th call to a merge of `l` stages, counting from 0
/// after `new`, goes to the stage `k % l`.
pub proof fn law_round_robin(l: nat, k: nat)
    requires
        l > 0,
    ensures
        target_after(l, k) == (k as int) % (l as int),
    decreases k,
{
    if k == 0 {
        vstd::arithmetic::div_mod::lemma_small_mod(0, l);
    } else {
        law_round_robin(l, (k - 1) as nat);
        vstd::arithmetic::div_mod::lemma_add_mod_noop((k - 1) as int, 1, l as int);
        if l > 1 {
            vstd::arithmetic::div_mod::lemma_small_mod(1, l);
        } else {
            assert(1int % 1 == 0);
        }
    }
}

/// Whether `r` is what finishing a merge gives back where its stages gave
/// back `rs`: the last error among them if any failed, else what the
/// collector `k` makes of their values, in order.
pub open spec fn merges_to<C: CallFinish, K: CollectResult<InType = C::ReturnType>>(
    rs: Seq<Result<C::ReturnType, C::ErrorType>>,
    k: K,
    r: Result<K::OutType, C::ErrorType>,
) -> bool {
    match last_error(rs) {
        Some(e) => r == Err::<K::OutType, Error<C::ErrorType>>(e),
        None => r is Ok && exists|v: Vec<C::ReturnType>|
            v@ == ok_values(rs) && #[trigger] call_ensures(K::collect, (&k, v), r->Ok_0),
    }
}

/// Finishing a merge finishes each of its stages exactly once, one after
/// the other in the order of the stages: the finish of stage `j` comes after
/// the finish of every stage before it.
pub proof fn law_stages_finished_in_order<C: CallFinish, K: CollectResult<InType = C::ReturnType>>(
    before: CallbackMerge<C, K>,
    after: CallbackMerge<C, K>,
)
    requires
        after.finish_log() == before.finish_log() + Seq::new(
            before.stages().len(),
            |i: int| i,
        ),
    ensures
        after.finish_log().len() == before.finish_log().len() + before.stages().len(),
        forall|j: int|
            0 <= j < before.stages().len() ==> #[trigger] after.finish_log()[before.finish_log().len() + j] == j,
        forall|p: int, q: int|
            before.finish_log().len() <= p < q < after.finish_log().len()
                ==> after.finish_log()[p] < after.finish_log()[q],
{
}

/// Hands the calls out to several stages in turn, and on `finish` collects
/// what they give back.
pub struct CallbackMerge<C: CallFinish, K: CollectResult<InType = C::ReturnType>> {
    callbacks: Vec<C>,
    collect: K,
    idx: usize,
    seen: Ghost<Seq<C::CallType>>,
    finished: Ghost<Seq<int>>,
}

impl<C: CallFinish, K: CollectResult<InType = C::ReturnType>> CallbackMerge<C, K> {
    /// The stages.
    pub closed spec fn stages(self) -> Seq<C> {
        self.callbacks@
    }

    /// What combines the stages' results.
    pub closed spec fn collector(self) -> K {
        self.collect
    }

    /// The stage that the next call goes to.
    pub closed spec fn next_target(self) -> int {
        if self.callbacks@.len() == 0 {
            0
        } else {
            self.idx as int % self.callbacks@.len() as int
        }
    }

    /// The values that the merge has been called with so far, in order.
    pub closed spec fn calls(self) -> Seq<C::CallType> {
        self.seen@
    }

    /// The indices of the stages in the order in which they were finished.
    pub closed spec fn finish_log(self) -> Seq<int> {
        self.finished@
    }

    /// Whether each stage that keeps the model may be called.
    pub open spec fn stages_ready(self) -> bool {
        forall|i: int|
            0 <= i < self.stages().len() && #[trigger] self.stages()[i].obeys_stage_spec()
                ==> self.stages()[i].ready()
    }

    /// A merge of the stages `callbacks`; the first call goes to the first
    /// of them.
    pub fn new(callbacks: Vec<C>, collect: K) -> (m: CallbackMerge<C, K>)
        ensures
            m.stages() == callbacks@,
            m.collector() == collect,
            m.next_target() == 0,
            m.calls() == Seq::<C::CallType>::empty(),
            m.finish_log() == Seq::<int>::empty(),
    {
        proof {
            if callbacks@.len() > 0 {
                vstd::arithmetic::div_mod::lemma_small_mod(0, callbacks@.len());
            }
        }
        CallbackMerge {
            callbacks: callbacks,
            collect: collect,
            idx: 0,
            seen: Ghost(Seq::empty()),
            finished: Ghost(Seq::empty()),
        }
    }
}

impl<C: CallFinish, K: CollectResult<InType = C::ReturnType>> CallFinish for CallbackMerge<C, K> {
    type CallType = C::CallType;
    type ReturnType = K::OutType;
    type ErrorType = C::ErrorType;

    /// It keeps the model: it records what it is called with.
    open spec fn obeys_stage_spec(&self) -> bool {
        true
    }

    open spec fn received(&self) -> Seq<C::CallType> {
        self.calls()
    }

    /// It may be called where it has a stage, and each stage that keeps the
    /// model may be called.
    open spec fn ready(&self) -> bool {
        self.stages().len() > 0 && self.stages_ready()
    }

    /// The stages' outcomes, one per stage, merged by `merges_to`.
    open spec fn finishes_with(&self, r: Result<K::OutType, C::ErrorType>) -> bool {
        exists|rs: Seq<Result<C::ReturnType, C::ErrorType>>|
            rs.len() == self.stages().len() && (forall|i: int|
                0 <= i < rs.len() && #[trigger] self.stages()[i].obeys_stage_spec()
                    ==> self.stages()[i].finishes_with(rs[i])) && #[trigger] merges_to::<C, K>(
                rs,
                self.collector(),
                r,
            )
    }

    /// Hands `t` to the stage whose turn it is; the next call goes to the
    /// stage after it, and after the last stage to the first.
    fn call(&mut self, t: C::CallType)
        ensures
            final(self).stages().len() == old(self).stages().len(),
            final(self).collector() == old(self).collector(),
            final(self).finish_log() == old(self).finish_log(),
            final(self).next_target() == (old(self).next_target() + 1) % (old(
                self,
            ).stages().len() as int),
            forall|j: int|
                0 <= j < old(self).stages().len() && j != old(self).next_target()
                    ==> #[trigger] final(self).stages()[j] == old(self).stages()[j],
            final(self).stages()[old(self).next_target()].obeys_stage_spec()
                == old(self).stages()[old(self).next_target()].obeys_stage_spec(),
            old(self).stages()[old(self).next_target()].obeys_stage_spec()
                ==> final(self).stages()[old(self).next_target()].received()
                == old(self).stages()[old(self).next_target()].received().push(t),
    {
        let ghost arg = t;
        let l = self.callbacks.len();
        let i = self.idx % l;
        proof {
            assert(self.stages()[i as int].obeys_stage_spec() ==> self.stages()[i as int].ready());
        }
        self.callbacks[i].call(t);
        self.idx = (i + 1) % l;
        self.seen = Ghost(self.seen@.push(arg));
        proof {
            vstd::arithmetic::div_mod::lemma_small_mod(self.idx as nat, l as nat);
            assert forall|j: int|
                0 <= j < self.stages().len() && #[trigger] self.stages()[j].obeys_stage_spec()
                    implies self.stages()[j].ready() by {
                if j != i {
                    assert(self.stages()[j] == old(self).stages()[j]);
                }
            }
        }
    }

    /// Finishes every stage in order; gives back the last error if any of
    /// them failed, else what the collector makes of their results, in order.
    fn finish(&mut self) -> (r: Result<K::OutType, C::ErrorType>)
        ensures
            final(self).finish_log() == old(self).finish_log() + Seq::new(
                old(self).stages().len(),
                |i: int| i,
            ),
            final(self).stages().len() == old(self).stages().len(),
            final(self).collector() == old(self).collector(),
            final(self).next_target() == old(self).next_target(),
            final(self).calls() == old(self).calls(),
            old(self).finishes_with(r),
    {
        let mut results: Vec<Result<C::ReturnType, C::ErrorType>> = Vec::new();
        let n = self.callbacks.len();
        let mut i: usize = 0;
        while i < n
            invariant
                n == self.callbacks@.len(),
                n == old(self).callbacks@.len(),
                i <= n,
                self.collect == old(self).collect,
                self.idx == old(self).idx,
                self.seen == old(self).seen,
                self.finished@ == old(self).finished@ + Seq::new(i as nat, |k: int| k),
                results@.len() == i,
                forall|j: int| i <= j < n ==> #[trigger] self.callbacks@[j] == old(self).callbacks@[j],
                forall|j: int|
                    0 <= j < i && #[trigger] old(self).stages()[j].obeys_stage_spec()
                        ==> old(self).stages()[j].finishes_with(results@[j]),
            decreases n - i,
        {
            let r = self.callbacks[i].finish();
            self.finished = Ghost(self.finished@.push(i as int));
            results.push(r);
            i = i + 1;
            assert(self.finished@ =~= old(self).finished@ + Seq::new(i as nat, |k: int| k));
        }
        let ghost rs = results@;
        match merge_outcomes(results) {
            Err(e) => {
                let res: Result<K::OutType, C::ErrorType> = Err(e);
                proof {
                    assert(merges_to::<C, K>(rs, old(self).collector(), res));
                }
                res
            },
            Ok(values) => {
                let ghost handed = values;
                let out = self.collect.collect(values);
                let res: Result<K::OutType, C::ErrorType> = Ok(out);
                proof {
                    assert(call_ensures(K::collect, (&old(self).collector(), handed), res->Ok_0));
                    assert(merges_to::<C, K>(rs, old(self).collector(), res));
                }
                res
            },
        }
    }
}

} // verus!
