use vstd::prelude::*;
use crate::error::Result;

verus! {

/// A stage of a pipeline: it takes values one at a time with `call` and,
/// once no more values come, gives back its result with `finish`.
///
/// A kind of stage may keep a model of what it does: the values it has
/// received, whether it may be called, and what finishing it may give back.
/// The stages of this library keep it, and say so by `obeys_stage_spec`;
/// for a stage written elsewhere that flag is `false`, and the model then
/// says nothing of it.
pub trait CallFinish: Sync + Send + 'static {
    type CallType;
    type ReturnType;
    type ErrorType: Send + 'static;

    /// Whether this stage keeps the model.
    open spec fn obeys_stage_spec(&self) -> bool {
        false
    }

    /// The values that the stage has been called with so far, in order.
    open spec fn received(&self) -> Seq<Self::CallType> {
        Seq::empty()
    }

    /// Whether the stage may be called.
    open spec fn ready(&self) -> bool {
        true
    }

    /// Whether finishing the stage in this state may give back `r`.
    open spec fn finishes_with(&self, r: Result<Self::ReturnType, Self::ErrorType>) -> bool {
        true
    }

    /// Takes the value `f`.
    fn call(&mut self, f: Self::CallType)
        requires
            old(self).obeys_stage_spec() ==> old(self).ready(),
        ensures
            final(self).obeys_stage_spec() == old(self).obeys_stage_spec(),
            old(self).obeys_stage_spec() ==> final(self).received() == old(
                self,
            ).received().push(f),
            old(self).obeys_stage_spec() ==> final(self).ready(),
    ;

    /// Gives back the stage's result.
    fn finish(&mut self) -> (r: Result<Self::ReturnType, Self::ErrorType>)
        ensures
            final(self).obeys_stage_spec() == old(self).obeys_stage_spec(),
            old(self).obeys_stage_spec() ==> old(self).finishes_with(r),
    ;
}

/// A boxed stage is a stage: so stages of different types, boxed as trait
/// objects, can stand together in one `CallbackMerge`.
impl<T: CallFinish + ?Sized> CallFinish for Box<T> {
    type CallType = T::CallType;
    type ReturnType = T::ReturnType;
    type ErrorType = T::ErrorType;

    open spec fn obeys_stage_spec(&self) -> bool {
        (**self).obeys_stage_spec()
    }

    open spec fn received(&self) -> Seq<T::CallType> {
        (**self).received()
    }

    open spec fn ready(&self) -> bool {
        (**self).ready()
    }

    open spec fn finishes_with(&self, r: Result<T::ReturnType, T::ErrorType>) -> bool {
        (**self).finishes_with(r)
    }

    fn call(&mut self, f: T::CallType) {
        (**self).call(f)
    }

    fn finish(&mut self) -> (r: Result<T::ReturnType, T::ErrorType>) {
        (**self).finish()
    }
}

/// Combines the results of several stages into one.
pub trait CollectResult: Sync + Send + 'static {
    type InType;
    type OutType;

    fn collect(&self, a: Vec<Self::InType>) -> Self::OutType;
}

/// A boxed collector is a collector, so it may be a trait object.
impl<K: CollectResult + ?Sized> CollectResult for Box<K> {
    type InType = K::InType;
    type OutType = K::OutType;

    /// Collects exactly as the collector it holds does, on the same values.
    fn collect(&self, a: Vec<K::InType>) -> (r: K::OutType)
        ensures
            call_ensures(K::collect, (&**self, a), r),
    {
        (**self).collect(a)
    }
}

/// A boxed collector hands its values on unchanged: whatever collecting
/// through the box gives back, the collector it holds may give back on the
/// very same values, in the same order.
pub proof fn law_boxed_collect_passes_through<K: CollectResult + ?Sized>(
    k: Box<K>,
    a: Vec<K::InType>,
    r: K::OutType,
)
    requires
        call_ensures(Box::<K>::collect, (&k, a), r),
    ensures
        call_ensures(K::collect, (&*k, a), r),
{
}

} // verus!
