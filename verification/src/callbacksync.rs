use vstd::prelude::*;
use crate::callback::{join_outcome, already_finished_message, join_failed_message};
use crate::callfinish::CallFinish;
use crate::error::{Error, Result};

verus! {

/// The most channels that a synchronised callback may be split into.
pub const MAXNUMCHAN: usize = 32;

/// Hands one sender to each of the stages that share a worker: the `i`-th
/// stage gets the `i`-th sender, and only the last one waits for the worker's
/// result.
pub fn arrange_senders<S>(sends: Vec<S>) -> (res: Vec<(S, bool)>)
    requires
        1 <= sends@.len() <= MAXNUMCHAN,
    ensures
        res@.len() == sends@.len(),
        forall|i: int|
            0 <= i < res@.len() ==> #[trigger] res@[i].0 == sends@[i] && res@[i].1 == (i
                == res@.len() - 1),
{
    let ghost orig = sends@;
    let n = sends.len();
    let mut sends = sends;
    let mut popped: Vec<(S, bool)> = Vec::new();
    let first = sends.pop().unwrap();
    popped.push((first, true));
    let mut k: usize = 1;
    while k < n
        invariant
            1 <= k <= n,
            n == orig.len(),
            sends@ == orig.take(n - k),
            popped@.len() == k,
            forall|j: int|
                0 <= j < k ==> #[trigger] popped@[j].0 == orig[n - 1 - j] && popped@[j].1 == (j
                    == 0),
        decreases n - k,
    {
        let s = sends.pop().unwrap();
        popped.push((s, false));
        k = k + 1;
        proof {
            assert(sends@ =~= orig.take(n - k));
        }
    }
    let mut res: Vec<(S, bool)> = Vec::new();
    while popped.len() > 0
        invariant
            n == orig.len(),
            popped@.len() + res@.len() == n,
            forall|j: int|
                0 <= j < popped@.len() ==> #[trigger] popped@[j].0 == orig[n - 1 - j]
                    && popped@[j].1 == (j == 0),
            forall|j: int|
                0 <= j < res@.len() ==> #[trigger] res@[j].0 == orig[j] && res@[j].1 == (j == n
                    - 1),
        decreases popped@.len(),
    {
        let e = popped.pop().unwrap();
        res.push(e);
    }
    res
}

/// The channel that a receiver of `l` channels reads after `k` reads that
/// did not finish its stage, by the steps that `SyncReceiver::new`,
/// `SyncReceiver::on_message` and `SyncReceiver::on_closed` state.
pub open spec fn channel_after(l: nat, k: nat) -> int
    decreases k,
{
    if k == 0 {
        0
    } else {
        (channel_after(l, (k - 1) as nat) + 1) % (l as int)
    }
}

/// The channels are read in turn, round after round: after `k` reads that
/// did not finish the stage, whether they brought a value or found their
/// channel closed, the channel `k % l` is read next.
pub proof fn law_channels_in_turn(l: nat, k: nat)
    requires
        l > 0,
    ensures
        channel_after(l, k) == (k as int) % (l as int),
    decreases k,
{
    if k == 0 {
        vstd::arithmetic::div_mod::lemma_small_mod(0, l);
    } else {
        law_channels_in_turn(l, (k - 1) as nat);
        vstd::arithmetic::div_mod::lemma_add_mod_noop((k - 1) as int, 1, l as int);
        if l > 1 {
            vstd::arithmetic::div_mod::lemma_small_mod(1, l);
        } else {
            assert(1int % 1 == 0);
        }
    }
}

/// The receiving side of stages that share one worker: the channels are
/// read in turn, each value is handed to the worker's stage, and the stage
/// is finished once as many reads as there are channels have found their
/// channel closed.
pub struct SyncReceiver {
    i: usize,
    nf: usize,
    l: usize,
}

impl SyncReceiver {
    #[verifier::type_invariant]
    spec fn counts_in_range(self) -> bool {
        &&& 0 < self.l
        &&& self.i < self.l
        &&& self.nf <= self.l
    }

    /// The number of channels.
    pub closed spec fn channels(self) -> nat {
        self.l as nat
    }

    /// The channel that is read next.
    pub closed spec fn current(self) -> nat {
        self.i as nat
    }

    /// How many reads have found their channel closed.
    pub closed spec fn closed_reads(self) -> nat {
        self.nf as nat
    }

    /// Whether the stage has been finished.
    pub open spec fn done(self) -> bool {
        self.closed_reads() == self.channels()
    }

    pub fn new(l: usize) -> (s: SyncReceiver)
        requires
            l > 0,
        ensures
            s.channels() == l,
            s.current() == 0,
            s.closed_reads() == 0,
    {
        SyncReceiver { i: 0, nf: 0, l }
    }

    /// The channel to read next.
    pub fn channel(&self) -> (c: usize)
        ensures
            c == self.current(),
            c < self.channels(),
    {
        proof {
            use_type_invariant(self);
        }
        self.i
    }

    /// A value `m` came from the current channel: it goes to `cf`, and the
    /// next channel is read next.
    pub fn on_message<C: CallFinish + ?Sized>(&mut self, cf: &mut C, m: C::CallType)
        requires
            !old(self).done(),
            old(cf).obeys_stage_spec() ==> old(cf).ready(),
        ensures
            final(cf).obeys_stage_spec() == old(cf).obeys_stage_spec(),
            old(cf).obeys_stage_spec() ==> final(cf).received() == old(cf).received().push(m),
            old(cf).obeys_stage_spec() ==> final(cf).ready(),
            final(self).channels() == old(self).channels(),
            final(self).closed_reads() == old(self).closed_reads(),
            final(self).current() == ((old(self).current() + 1) as int) % (old(self).channels() as int),
    {
        proof {
            use_type_invariant(&*self);
        }
        cf.call(m);
        self.i = (self.i + 1) % self.l;
    }

    /// The current channel is closed. Once as many reads as there are
    /// channels have found their channel closed, `cf` is finished and its
    /// outcome given back; until then `cf` is left alone and the next
    /// channel is read next.
    pub fn on_closed<C: CallFinish + ?Sized>(&mut self, cf: &mut C) -> (r: Option<
        Result<C::ReturnType, C::ErrorType>,
    >)
        requires
            !old(self).done(),
        ensures
            final(self).channels() == old(self).channels(),
            final(self).closed_reads() == old(self).closed_reads() + 1,
            r is Some <==> final(self).done(),
            final(cf).obeys_stage_spec() == old(cf).obeys_stage_spec(),
            r matches Some(x) ==> (old(cf).obeys_stage_spec() ==> old(cf).finishes_with(x)),
            !final(self).done() ==> &*final(cf) == &*old(cf),
            !final(self).done() ==> final(self).current() == ((old(self).current() + 1) as int) % (old(
                self,
            ).channels() as int),
    {
        proof {
            use_type_invariant(&*self);
        }
        self.nf = self.nf + 1;
        if self.nf == self.l {
            Some(cf.finish())
        } else {
            self.i = (self.i + 1) % self.l;
            None
        }
    }
}

/// The outcome of finishing one of the stages that share a worker: only the
/// stage that waits for the worker's result gives it back, as `Some`; the
/// others give back `None`. `joined` is as for `join_outcome`.
pub fn sync_join_outcome<U, E>(
    expectresult: bool,
    joined: Option<core::result::Result<Result<U, E>, String>>,
) -> (r: Result<Option<U>, E>)
    ensures
        !expectresult ==> r == Ok::<Option<U>, Error<E>>(None),
        expectresult ==> match joined {
            None => r matches Err(Error::ChannelledCallbackError(m)) && m@
                == already_finished_message(),
            Some(Err(d)) => r matches Err(Error::ChannelledCallbackError(m)) && m@
                == join_failed_message(d@),
            Some(Ok(Ok(q))) => r == Ok::<Option<U>, Error<E>>(Some(q)),
            Some(Ok(Err(e))) => r == Err::<Option<U>, Error<E>>(e),
        },
{
    if !expectresult {
        return Ok(None);
    }
    match join_outcome(joined) {
        Ok(q) => Ok(Some(q)),
        Err(e) => Err(e),
    }
}

} // verus!
