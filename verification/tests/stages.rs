use channelled_callbacks::callall::{duration_nanos, record_time};
use channelled_callbacks::callback::join_outcome;
use channelled_callbacks::callbacksync::{arrange_senders, sync_join_outcome, SyncReceiver, MAXNUMCHAN};
use channelled_callbacks::replacenonewithtimings::replace_none;
use channelled_callbacks::reversecallback::lift_error;
use channelled_callbacks::callbackmerge::merge_outcomes;
use channelled_callbacks::{
    CallAll, CallFinish, CallbackMerge, CollectResult, Error, MergeTimings, ReplaceNoneWithTimings,
    Result, Timings,
};

/// A stage that keeps what it receives and gives it back, or fails.
struct Recorder {
    got: Vec<u32>,
    fail: Option<String>,
    finished: usize,
}

impl Recorder {
    fn new(fail: Option<&str>) -> Recorder {
        Recorder { got: Vec::new(), fail: fail.map(|s| s.to_string()), finished: 0 }
    }
}

impl CallFinish for Recorder {
    type CallType = u32;
    type ReturnType = Vec<u32>;
    type ErrorType = String;

    fn call(&mut self, f: u32) {
        self.got.push(f);
    }

    fn finish(&mut self) -> Result<Vec<u32>, String> {
        self.finished += 1;
        match &self.fail {
            Some(e) => Err(Error::OtherError(e.clone())),
            None => Ok(self.got.clone()),
        }
    }
}

struct Concat;

impl CollectResult for Concat {
    type InType = Vec<u32>;
    type OutType = Vec<Vec<u32>>;

    fn collect(&self, a: Vec<Vec<u32>>) -> Vec<Vec<u32>> {
        a
    }
}

#[test]
fn merge_hands_calls_out_in_turn() {
    let mut m = CallbackMerge::new(
        vec![Recorder::new(None), Recorder::new(None), Recorder::new(None)],
        Concat,
    );
    for i in 0..7 {
        m.call(i);
    }
    let r = m.finish();
    match r {
        Ok(v) => assert_eq!(v, vec![vec![0, 3, 6], vec![1, 4], vec![2, 5]]),
        Err(_) => panic!("expected results"),
    }
}

#[test]
fn merge_gives_back_last_error() {
    let mut m = CallbackMerge::new(
        vec![Recorder::new(Some("first")), Recorder::new(None), Recorder::new(Some("second"))],
        Concat,
    );
    m.call(1);
    match m.finish() {
        Err(Error::OtherError(e)) => assert_eq!(e, "second"),
        _ => panic!("expected the last error"),
    }
}

#[test]
fn merge_of_no_stages_finishes_with_an_empty_collection() {
    let mut m: CallbackMerge<Recorder, Concat> = CallbackMerge::new(Vec::new(), Concat);
    match m.finish() {
        Ok(v) => assert!(v.is_empty()),
        Err(_) => panic!("expected no results"),
    }
    let mut t: CallbackMerge<Box<dyn CallFinish<CallType = u64, ReturnType = Timings<u8>, ErrorType = String>>, MergeTimings<u8>> =
        CallbackMerge::new(Vec::new(), MergeTimings::new());
    let r = t.finish().unwrap();
    assert!(r.timings().is_empty() && r.others().is_empty());
}

#[test]
fn merge_of_one_stage_gives_it_every_call() {
    let mut m = CallbackMerge::new(vec![Recorder::new(None)], Concat);
    m.call(4);
    m.call(5);
    match m.finish() {
        Ok(v) => assert_eq!(v, vec![vec![4, 5]]),
        Err(_) => panic!("expected results"),
    }
}

/// A stage that gives back twice what it received.
struct Doubler {
    got: Vec<u32>,
}

impl CallFinish for Doubler {
    type CallType = u32;
    type ReturnType = Vec<u32>;
    type ErrorType = String;

    fn call(&mut self, f: u32) {
        self.got.push(2 * f);
    }

    fn finish(&mut self) -> Result<Vec<u32>, String> {
        Ok(self.got.clone())
    }
}

type Stage = Box<dyn CallFinish<CallType = u32, ReturnType = Vec<u32>, ErrorType = String>>;
type Collector = Box<dyn CollectResult<InType = Vec<u32>, OutType = Vec<Vec<u32>>>>;

#[test]
fn merge_mixes_boxed_stages_of_different_types() {
    let stages: Vec<Stage> = vec![Box::new(Recorder::new(None)), Box::new(Doubler { got: Vec::new() })];
    let collect: Collector = Box::new(Concat);
    let mut m = CallbackMerge::new(stages, collect);
    for i in 1..5 {
        m.call(i);
    }
    match m.finish() {
        Ok(v) => assert_eq!(v, vec![vec![1, 3], vec![4, 8]]),
        Err(_) => panic!("expected results"),
    }
}

#[test]
fn replace_none_takes_a_boxed_trait_object() {
    let inner: Box<dyn CallFinish<CallType = u64, ReturnType = Option<Timings<u8>>, ErrorType = String>> =
        Box::new(TimingsOut { calls: 0, mode: 1 });
    let mut s = ReplaceNoneWithTimings::new(inner);
    s.call(7);
    assert_eq!(s.finish().unwrap().get("calls"), Some(7));
}

#[test]
fn merge_outcomes_picks_last_error_or_all_values() {
    let ok: Vec<Result<u8, String>> = vec![Ok(1), Ok(2)];
    assert_eq!(merge_outcomes(ok).unwrap(), vec![1, 2]);
    let bad: Vec<Result<u8, String>> = vec![
        Err(Error::OtherError("a".to_string())),
        Ok(2),
        Err(Error::OtherError("b".to_string())),
        Ok(3),
    ];
    match merge_outcomes(bad) {
        Err(Error::OtherError(e)) => assert_eq!(e, "b"),
        _ => panic!("expected an error"),
    }
    let none: Vec<Result<u8, String>> = Vec::new();
    assert!(merge_outcomes(none).unwrap().is_empty());
}

/// A stage that gives back timings, or none, or an error.
struct TimingsOut {
    calls: u64,
    mode: u8,
}

impl CallFinish for TimingsOut {
    type CallType = u64;
    type ReturnType = Option<Timings<u8>>;
    type ErrorType = String;

    fn call(&mut self, f: u64) {
        self.calls += f;
    }

    fn finish(&mut self) -> Result<Option<Timings<u8>>, String> {
        match self.mode {
            0 => Ok(None),
            1 => {
                let mut t = Timings::new();
                t.add("calls", self.calls);
                Ok(Some(t))
            },
            _ => Err(Error::ChannelledCallbackError("broken".to_string())),
        }
    }
}

#[test]
fn replace_none_gives_empty_timings() {
    let r: Result<Timings<u8>, String> = replace_none(Ok(None));
    let t = r.unwrap();
    assert!(t.timings().is_empty() && t.others().is_empty());
    let mut x: Timings<u8> = Timings::new();
    x.add("a", 1);
    assert_eq!(replace_none::<u8, String>(Ok(Some(x))).unwrap().get("a"), Some(1));
    match replace_none::<u8, String>(Err(Error::OtherError("e".to_string()))) {
        Err(Error::OtherError(e)) => assert_eq!(e, "e"),
        _ => panic!("expected the error"),
    }
}

#[test]
fn replace_none_stage_forwards_calls() {
    let mut s = ReplaceNoneWithTimings::new(Box::new(TimingsOut { calls: 0, mode: 1 }));
    s.call(2);
    s.call(3);
    assert_eq!(s.finish().unwrap().get("calls"), Some(5));
    let mut n = ReplaceNoneWithTimings::new(Box::new(TimingsOut { calls: 0, mode: 0 }));
    n.call(2);
    assert!(n.finish().unwrap().timings().is_empty());
    let mut e = ReplaceNoneWithTimings::new(Box::new(TimingsOut { calls: 0, mode: 2 }));
    match e.finish() {
        Err(Error::ChannelledCallbackError(m)) => assert_eq!(m, "broken"),
        _ => panic!("expected the error"),
    }
}

/// A stage that sums what it receives and gives it back as timings.
struct Summer {
    total: u64,
    fail: bool,
}

impl CallFinish for Summer {
    type CallType = u64;
    type ReturnType = Timings<u8>;
    type ErrorType = String;

    fn call(&mut self, f: u64) {
        self.total += f;
    }

    fn finish(&mut self) -> Result<Timings<u8>, String> {
        if self.fail {
            return Err(Error::OtherError("no".to_string()));
        }
        let mut t = Timings::new();
        t.add("sum", self.total);
        Ok(t)
    }
}

#[test]
fn call_all_applies_function_and_records_time() {
    let mut c = CallAll::new(
        Box::new(Summer { total: 0, fail: false }),
        "double",
        Box::new(|x: u32| (x as u64) * 2),
    );
    c.call(1);
    c.call(20);
    let t = c.finish().unwrap();
    assert_eq!(t.get("sum"), Some(42));
    assert!(t.get("double").is_some());
    assert_eq!(t.timings().len(), 2);
}

#[test]
fn call_all_passes_errors_through() {
    let mut c = CallAll::new(
        Box::new(Summer { total: 0, fail: true }),
        "id",
        Box::new(|x: u32| x as u64),
    );
    c.call(1);
    match c.finish() {
        Err(Error::OtherError(e)) => assert_eq!(e, "no"),
        _ => panic!("expected the error"),
    }
}

#[test]
fn record_time_sets_own_time() {
    let mut t: Timings<u8> = Timings::new();
    t.add("x", 1);
    t.add("own", 100);
    let r = record_time::<u8, String>(Ok(t), "own", 7).unwrap();
    assert_eq!(r.get("own"), Some(7));
    assert_eq!(r.get("x"), Some(1));
    match record_time::<u8, String>(Err(Error::OtherError("e".to_string())), "own", 7) {
        Err(Error::OtherError(e)) => assert_eq!(e, "e"),
        _ => panic!("expected the error"),
    }
}

#[test]
fn duration_nanos_values() {
    assert_eq!(duration_nanos(0, 0), 0);
    assert_eq!(duration_nanos(1, 500), 1_000_000_500);
    assert_eq!(duration_nanos(3, 999_999_999), 3_999_999_999);
    assert_eq!(duration_nanos(u64::MAX / 1_000_000_000, 0), (u64::MAX / 1_000_000_000) * 1_000_000_000);
    assert_eq!(duration_nanos(u64::MAX / 1_000_000_000 + 1, 0), u64::MAX);
    assert_eq!(duration_nanos(u64::MAX, 999_999_999), u64::MAX);
}

#[test]
fn join_outcome_messages() {
    let r: Result<u8, String> = join_outcome(None);
    match r {
        Err(Error::ChannelledCallbackError(m)) => assert_eq!(m, "already called finish"),
        _ => panic!("expected an error"),
    }
    let r: Result<u8, String> = join_outcome(Some(Err("Any { .. }".to_string())));
    match r {
        Err(Error::ChannelledCallbackError(m)) => assert_eq!(m, "failed to join Any { .. }"),
        _ => panic!("expected an error"),
    }
    let r: Result<u8, String> = join_outcome(Some(Ok(Ok(9))));
    assert_eq!(r.unwrap(), 9);
    let r: Result<u8, String> = join_outcome(Some(Ok(Err(Error::OtherError("u".to_string())))));
    match r {
        Err(Error::OtherError(e)) => assert_eq!(e, "u"),
        _ => panic!("expected the thread's error"),
    }
}

#[test]
fn sync_join_outcome_only_for_the_waiting_stage() {
    let r: Result<Option<u8>, String> = sync_join_outcome(false, None);
    assert_eq!(r.unwrap(), None);
    let r: Result<Option<u8>, String> = sync_join_outcome(true, Some(Ok(Ok(4))));
    assert_eq!(r.unwrap(), Some(4));
    let r: Result<Option<u8>, String> = sync_join_outcome(true, None);
    match r {
        Err(Error::ChannelledCallbackError(m)) => assert_eq!(m, "already called finish"),
        _ => panic!("expected an error"),
    }
}

#[test]
fn arrange_senders_gives_result_to_last() {
    let r = arrange_senders(vec!['a', 'b', 'c']);
    assert_eq!(r, vec![('a', false), ('b', false), ('c', true)]);
    let one = arrange_senders(vec![7u8]);
    assert_eq!(one, vec![(7u8, true)]);
    let many: Vec<usize> = (0..MAXNUMCHAN).collect();
    let r = arrange_senders(many);
    assert_eq!(r.len(), 32);
    assert!(r[31].1 && !r[30].1 && r[5].0 == 5);
}

#[test]
fn sync_receiver_finishes_after_as_many_closed_reads_as_channels() {
    let mut cf = Recorder::new(None);
    let mut s = SyncReceiver::new(3);
    assert_eq!(s.channel(), 0);
    s.on_message(&mut cf, 10);
    assert_eq!(s.channel(), 1);
    assert!(s.on_closed(&mut cf).is_none());
    assert_eq!(s.channel(), 2);
    s.on_message(&mut cf, 11);
    assert_eq!(s.channel(), 0);
    assert!(s.on_closed(&mut cf).is_none());
    assert_eq!(cf.finished, 0);
    assert_eq!(s.channel(), 1);
    match s.on_closed(&mut cf) {
        Some(Ok(v)) => assert_eq!(v, vec![10, 11]),
        _ => panic!("expected the finished result"),
    }
    assert_eq!(cf.finished, 1);
}

#[test]
fn sync_receiver_with_one_channel_finishes_on_first_close() {
    let mut cf = Recorder::new(None);
    let mut s = SyncReceiver::new(1);
    s.on_message(&mut cf, 1);
    s.on_message(&mut cf, 2);
    assert_eq!(s.channel(), 0);
    assert_eq!(s.on_closed(&mut cf).unwrap().unwrap(), vec![1, 2]);
}

#[test]
fn lift_error_wraps_user_errors() {
    let r: Result<u8, String> = lift_error(Ok(3));
    assert_eq!(r.unwrap(), 3);
    let r: Result<u8, String> = lift_error(Err("bad".to_string()));
    match r {
        Err(Error::OtherError(e)) => assert_eq!(e, "bad"),
        _ => panic!("expected the error"),
    }
    let e: Error<String> = Error::from("x".to_string());
    assert!(matches!(e, Error::OtherError(ref s) if s == "x"));
}
