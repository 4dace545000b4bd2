use vstd::prelude::*;
use crate::callfinish::CallFinish;
use crate::error::Result;
use crate::timings::Timings;

verus! {

/// Whether `r` is what a stage that may give back no timings gives back
/// where its inner stage gave back `x`: no timings become empty timings,
/// and errors pass through.
pub open spec fn replaces_none<U: Sync + Send + 'static, E>(
    x: Result<Option<Timings<U>>, E>,
    r: Result<Timings<U>, E>,
) -> bool {
    match x {
        Err(e) => r == Err::<Timings<U>, crate::error::Error<E>>(e),
        Ok(Some(y)) => r == Ok::<Timings<U>, crate::error::Error<E>>(y),
        Ok(None) => r is Ok && r->Ok_0.durations() == Map::<Seq<char>, u64>::empty()
            && r->Ok_0.others_view() == Seq::<(Seq<char>, U)>::empty(),
    }
}

/// What a stage that may give back no timings gives back in their place:
/// no timings become empty timings, and errors pass through.
pub fn replace_none<U: Sync + Send + 'static, E>(x: Result<Option<Timings<U>>, E>) -> (r: Result<
    Timings<U>,
    E,
>)
    ensures
        replaces_none(x, r),
{
    match x {
        Err(e) => Err(e),
        Ok(None) => Ok(Timings::new()),
        Ok(Some(y)) => Ok(y),
    }
}

/// Passes the calls on to `out`, and gives back empty timings where `out`
/// gives back none.
pub struct ReplaceNoneWithTimings<T: ?Sized> {
    out: Box<T>,
}

impl<T: ?Sized> ReplaceNoneWithTimings<T> {
    /// The stage that the calls are passed on to.
    pub closed spec fn inner(&self) -> &T {
        &*self.out
    }

    pub fn new(out: Box<T>) -> (r: ReplaceNoneWithTimings<T>)
        ensures
            r.inner() == &*out,
    {
        ReplaceNoneWithTimings { out }
    }
}

impl<T, U, E> CallFinish for ReplaceNoneWithTimings<T> where
    T: CallFinish<ReturnType = Option<Timings<U>>, ErrorType = E> + ?Sized,
    U: Sync + Send + 'static,
    E: Send + 'static,
 {
    type CallType = T::CallType;
    type ReturnType = Timings<U>;
    type ErrorType = E;

    /// It keeps the model where its inner stage does.
    open spec fn obeys_stage_spec(&self) -> bool {
        self.inner().obeys_stage_spec()
    }

    /// What the inner stage has received.
    open spec fn received(&self) -> Seq<T::CallType> {
        self.inner().received()
    }

    open spec fn ready(&self) -> bool {
        self.inner().ready()
    }

    /// An outcome of the inner stage, passed through `replaces_none`.
    open spec fn finishes_with(&self, r: Result<Timings<U>, E>) -> bool {
        exists|x: Result<Option<Timings<U>>, E>|
            #[trigger] self.inner().finishes_with(x) && replaces_none(x, r)
    }

    /// Passes `c` on to the inner stage.
    fn call(&mut self, c: T::CallType)
        ensures
            final(self).inner().obeys_stage_spec() == old(self).inner().obeys_stage_spec(),
            old(self).inner().obeys_stage_spec() ==> final(self).inner().received() == old(
                self,
            ).inner().received().push(c),
    {
        self.out.call(c);
    }

    /// Finishes the inner stage and passes its outcome through
    /// `replace_none`.
    fn finish(&mut self) -> (r: Result<Timings<U>, E>)
        ensures
            final(self).inner().obeys_stage_spec() == old(self).inner().obeys_stage_spec(),
            exists|x: Result<Option<Timings<U>>, E>|
                (old(self).inner().obeys_stage_spec() ==> old(self).inner().finishes_with(x))
                    && #[trigger] replaces_none(x, r),
    {
        let x = self.out.finish();
        let r = replace_none(x);
        assert(replaces_none(x, r));
        r
    }
}

} // verus!
