use vstd::prelude::*;
use std::marker::PhantomData;
use crate::callfinish::CallFinish;
use crate::error::Result;
use crate::timings::{Timings, sat_add};

verus! {

#[verifier::external_type_specification]
#[verifier::external_body]
pub struct ExThreadTime(cpu_time::ThreadTime);

/// `cpu_time::ThreadTime::try_now`: the CPU time that the current thread
/// has used so far, or `None` where the clock could not be read (the crate
/// gives back the OS error then). What it reads depends on the clock, so
/// nothing is stated of it.
#[verifier::external_body]
fn thread_time_now() -> Option<cpu_time::ThreadTime> {
    cpu_time::ThreadTime::try_now().ok()
}

/// `cpu_time::ThreadTime::try_elapsed`: the CPU time that the current
/// thread has used since `start`, given as its whole seconds
/// (`Duration::as_secs`) and the nanoseconds beyond them
/// (`Duration::subsec_nanos`), or `None` where the clock could not be read.
/// Its value depends on the clock; the one thing stated is that std
/// documents the nanoseconds as less than one billion.
#[verifier::external_body]
fn thread_time_elapsed(start: &cpu_time::ThreadTime) -> (r: Option<(u64, u32)>)
    ensures
        r matches Some(p) ==> p.1 < 1_000_000_000,
{
    match start.try_elapsed() {
        Ok(d) => Some((d.as_secs(), d.subsec_nanos())),
        Err(_) => None,
    }
}

/// A duration given in whole seconds and nanoseconds, in nanoseconds, held
/// at `u64::MAX` where it would not fit.
pub open spec fn duration_nanos_spec(secs: u64, nanos: u32) -> u64 {
    if secs * 1_000_000_000 + nanos > u64::MAX {
        u64::MAX
    } else {
        (secs * 1_000_000_000 + nanos) as u64
    }
}

/// A duration given in whole seconds and nanoseconds, in nanoseconds.
pub fn duration_nanos(secs: u64, nanos: u32) -> (r: u64)
    ensures
        r == duration_nanos_spec(secs, nanos),
{
    let n = nanos as u64;
    if secs > (u64::MAX - n) / 1_000_000_000 {
        proof {
            assert(secs * 1_000_000_000 + nanos > u64::MAX) by (nonlinear_arith)
                requires
                    secs > (u64::MAX - n) / 1_000_000_000,
                    n == nanos,
                    n <= u64::MAX,
            ;
        }
        u64::MAX
    } else {
        proof {
            assert(secs * 1_000_000_000 + nanos <= u64::MAX) by (nonlinear_arith)
                requires
                    secs <= (u64::MAX - n) / 1_000_000_000,
                    n == nanos,
                    n <= u64::MAX,
            ;
        }
        secs * 1_000_000_000 + n
    }
}

/// The nanoseconds of one reading of the thread clock around an application
/// of the function: the elapsed time where the clock could be read, else
/// nothing.
pub open spec fn reading_nanos(rd: Option<(u64, u32)>) -> u64 {
    match rd {
        Some(p) => duration_nanos_spec(p.0, p.1),
        None => 0,
    }
}

/// The readings added up one after the other, each sum held at `u64::MAX`.
pub open spec fn total_nanos(rs: Seq<Option<(u64, u32)>>) -> u64
    decreases rs.len(),
{
    if rs.len() == 0 {
        0
    } else {
        sat_add(total_nanos(rs.drop_last()), reading_nanos(rs.last()))
    }
}

/// The readings added up as whole numbers.
pub open spec fn sum_nanos(rs: Seq<Option<(u64, u32)>>) -> int
    decreases rs.len(),
{
    if rs.len() == 0 {
        0
    } else {
        sum_nanos(rs.drop_last()) + reading_nanos(rs.last())
    }
}

/// The time that a stage measures is the sum of its readings: adding the
/// readings one at a time, each sum held at `u64::MAX`, gives their whole
/// sum, or `u64::MAX` where that does not fit.
pub proof fn law_own_time_is_sum_of_readings(rs: Seq<Option<(u64, u32)>>)
    ensures
        total_nanos(rs) == (if sum_nanos(rs) > u64::MAX {
            u64::MAX as int
        } else {
            sum_nanos(rs)
        }),
    decreases rs.len(),
{
    if rs.len() > 0 {
        law_own_time_is_sum_of_readings(rs.drop_last());
    }
}

/// Whether `res` is what a stage that measures its own time gives back where
/// its inner stage gave back `r`: timings that came back get the duration
/// `tm` under the name `name`; an error passes through.
pub open spec fn records_time<V: Sync + Send + 'static, E>(
    r: Result<Timings<V>, E>,
    name: Seq<char>,
    tm: u64,
    res: Result<Timings<V>, E>,
) -> bool {
    match r {
        Err(e) => res == Err::<Timings<V>, crate::error::Error<E>>(e),
        Ok(t) => res is Ok && res->Ok_0.durations() == t.durations().insert(name, tm)
            && res->Ok_0.others_view() == t.others_view(),
    }
}

/// The outcome of a stage that measures its own time: timings that came
/// back get the duration `tm` under the name `msg`; an error passes through.
pub fn record_time<V: Sync + Send + 'static, E>(r: Result<Timings<V>, E>, msg: &str, tm: u64) -> (res:
    Result<Timings<V>, E>)
    ensures
        records_time(r, msg@, tm, res),
{
    match r {
        Ok(t) => {
            let mut t = t;
            t.add(msg, tm);
            Ok(t)
        },
        Err(e) => Err(e),
    }
}

/// The function that a `CallAll` applies, with the time it has taken.
#[verifier::reject_recursive_types(U)]
#[verifier::reject_recursive_types(T)]
struct Measured<T: CallFinish + ?Sized, U, W: Fn(U) -> T::CallType> {
    callfunc: Box<W>,
    tm: u64,
    x: PhantomData<U>,
    t: PhantomData<T>,
}

impl<T: CallFinish + ?Sized, U, W: Fn(U) -> T::CallType> Measured<T, U, W> {
    #[verifier::type_invariant]
    spec fn applies_to_all(self) -> bool {
        forall|u: U| call_requires(*self.callfunc, (u,))
    }
}

/// Applies `callfunc` to each value that comes in and passes the outcome on
/// to `out`; on `finish`, adds the CPU time that `callfunc` has taken, in
/// nanoseconds, under the name `msg` to the timings that `out` gives back.
#[verifier::reject_recursive_types(U)]
#[verifier::reject_recursive_types(T)]
pub struct CallAll<T: CallFinish + ?Sized, U: Sync + Send + 'static, W: Fn(U) -> T::CallType, V, E> {
    out: Box<T>,
    msg: String,
    run: Measured<T, U, W>,
    seen: Ghost<Seq<U>>,
    readings: Ghost<Seq<Option<(u64, u32)>>>,
    y: PhantomData<V>,
    z: PhantomData<E>,
}

impl<T, U, W, V, E> CallAll<T, U, W, V, E> where
    T: CallFinish<ReturnType = Timings<V>, ErrorType = E> + ?Sized,
    U: Sync + Send + 'static,
    W: Fn(U) -> T::CallType + Sync + Send + 'static,
    V: Sync + Send + 'static,
 {
    /// The name under which the time is recorded.
    pub closed spec fn name(self) -> Seq<char> {
        self.msg@
    }

    /// The time, in nanoseconds, that the function has taken so far.
    pub closed spec fn own_time(self) -> u64 {
        self.run.tm
    }

    /// The stage that the outcomes are passed on to.
    pub closed spec fn inner(&self) -> &T {
        &*self.out
    }

    /// The function applied to each value that comes in.
    pub closed spec fn function(self) -> W {
        *self.run.callfunc
    }

    /// The values that the stage has been called with so far, in order.
    pub closed spec fn calls(self) -> Seq<U> {
        self.seen@
    }

    /// The readings of the thread clock around each application of the
    /// function so far, in order: the elapsed whole seconds and nanoseconds,
    /// or `None` where the clock could not be read.
    pub closed spec fn readings(self) -> Seq<Option<(u64, u32)>> {
        self.readings@
    }

    pub fn new(out: Box<T>, msg: &str, callfunc: Box<W>) -> (c: CallAll<T, U, W, V, E>)
        requires
            forall|u: U| call_requires(*callfunc, (u,)),
        ensures
            c.name() == msg@,
            c.own_time() == 0,
            c.inner() == &*out,
            c.function() == *callfunc,
            c.calls() == Seq::<U>::empty(),
            c.readings() == Seq::<Option<(u64, u32)>>::empty(),
            c.own_time() == total_nanos(c.readings()),
    {
        CallAll {
            out: out,
            msg: msg.to_owned(),
            run: Measured { callfunc: callfunc, tm: 0, x: PhantomData, t: PhantomData },
            seen: Ghost(Seq::empty()),
            readings: Ghost(Seq::empty()),
            y: PhantomData,
            z: PhantomData,
        }
    }
}

impl<T, U, W, V, E> CallFinish for CallAll<T, U, W, V, E> where
    T: CallFinish<ReturnType = Timings<V>, ErrorType = E> + ?Sized,
    U: Sync + Send + 'static,
    W: Fn(U) -> T::CallType + Sync + Send + 'static,
    V: Sync + Send + 'static,
    E: Sync + Send + 'static,
 {
    type CallType = U;
    type ReturnType = Timings<V>;
    type ErrorType = E;

    /// It keeps the model: it records what it is called with.
    open spec fn obeys_stage_spec(&self) -> bool {
        true
    }

    open spec fn received(&self) -> Seq<U> {
        self.calls()
    }

    /// It may be called where its inner stage may.
    open spec fn ready(&self) -> bool {
        self.inner().obeys_stage_spec() ==> self.inner().ready()
    }

    /// An outcome of the inner stage, with the stage's own time recorded
    /// under its name.
    open spec fn finishes_with(&self, r: Result<Timings<V>, E>) -> bool {
        exists|x: Result<Timings<V>, E>|
            (self.inner().obeys_stage_spec() ==> self.inner().finishes_with(x))
                && #[trigger] records_time(x, self.name(), self.own_time(), r)
    }

    /// Applies the function to `c`, adds the CPU time it took to the
    /// stage's own time, and passes the function's value on to the inner
    /// stage. Where the clock cannot be read before or after, no time is
    /// added.
    fn call(&mut self, c: U)
        ensures
            final(self).name() == old(self).name(),
            final(self).function() == old(self).function(),
            exists|spent: u64|
                final(self).own_time() == #[trigger] sat_add(old(self).own_time(), spent),
            final(self).readings().len() == old(self).readings().len() + 1,
            final(self).readings().drop_last() == old(self).readings(),
            final(self).readings().last() matches Some(p) ==> p.1 < 1_000_000_000,
            final(self).own_time() == sat_add(
                old(self).own_time(),
                reading_nanos(final(self).readings().last()),
            ),
            old(self).own_time() == total_nanos(old(self).readings()) ==> final(self).own_time()
                == total_nanos(final(self).readings()),
            final(self).inner().obeys_stage_spec() == old(self).inner().obeys_stage_spec(),
            old(self).inner().obeys_stage_spec() ==> exists|x: T::CallType|
                #[trigger] call_ensures(old(self).function(), (c,), x)
                    && final(self).inner().received() == old(self).inner().received().push(x),
    {
        proof {
            use_type_invariant(&self.run);
        }
        let ghost arg = c;
        let tx = thread_time_now();
        let r = (self.run.callfunc)(c);
        let ghost value = r;
        let reading = match tx {
            Some(start) => thread_time_elapsed(&start),
            None => None,
        };
        let spent = match reading {
            Some((secs, nanos)) => duration_nanos(secs, nanos),
            None => 0,
        };
        self.run.tm = self.run.tm.saturating_add(spent);
        self.seen = Ghost(self.seen@.push(arg));
        self.readings = Ghost(self.readings@.push(reading));
        self.out.call(r);
        assert(self.run.tm == sat_add(old(self).own_time(), spent));
        assert(self.readings@.drop_last() =~= old(self).readings@);
        assert(call_ensures(old(self).function(), (arg,), value));
    }

    /// Finishes the inner stage; timings that come back get the stage's own
    /// time under its name.
    fn finish(&mut self) -> (r: Result<Timings<V>, E>)
        ensures
            final(self).name() == old(self).name(),
            final(self).own_time() == old(self).own_time(),
            final(self).function() == old(self).function(),
            final(self).calls() == old(self).calls(),
            final(self).readings() == old(self).readings(),
            final(self).inner().obeys_stage_spec() == old(self).inner().obeys_stage_spec(),
            exists|x: Result<Timings<V>, E>|
                (old(self).inner().obeys_stage_spec() ==> old(self).inner().finishes_with(x))
                    && #[trigger] records_time(x, old(self).name(), old(self).own_time(), r),
    {
        let x = self.out.finish();
        let r = record_time(x, self.msg.as_str(), self.run.tm);
        assert(records_time(x, old(self).name(), old(self).own_time(), r));
        r
    }
}

} // verus!
