//! The sink interface driven by the host logging framework, and the fan-out
//! combinator that lets several sinks receive one record stream.

use vstd::prelude::*;
use crate::wire::Level;

verus! {

/// A transport failure reported by a sink: the raw OS error code of the
/// failed operation (0 when none was available).
#[derive(Clone, Copy, PartialEq, Eq, Structural, Debug)]
pub struct SendError {
    pub code: i32,
}

/// A consumer of log records that performs some side effect per record.
/// Failures are reported to the caller, never fatal.
pub trait LogSink {
    /// Handles one record arriving at `now_secs` seconds after the epoch.
    fn write(
        &mut self,
        now_secs: u64,
        level: Level,
        source: &Option<(String, u32)>,
        message: &str,
    ) -> Result<(), SendError>;

    /// Flushes whatever the sink buffers.
    fn flush(&mut self) -> Result<(), SendError>;
}

/// Fold of per-sink results: success only when every member succeeded,
/// otherwise the last failure observed.
pub open spec fn combined_spec(results: Seq<Result<(), SendError>>) -> Result<(), SendError>
    decreases results.len(),
{
    if results.len() == 0 {
        Ok(())
    } else {
        match results.last() {
            Err(e) => Err(e),
            Ok(_) => combined_spec(results.drop_last()),
        }
    }
}

/// Aggregates per-sink results, as `combined_spec` describes.
pub fn combine_results(results: &Vec<Result<(), SendError>>) -> (r: Result<(), SendError>)
    ensures
        r == combined_spec(results@),
{
    let mut r: Result<(), SendError> = Ok(());
    let mut i: usize = 0;
    assert(results@.subrange(0, 0) =~= Seq::<Result<(), SendError>>::empty());
    while i < results.len()
        invariant
            i <= results@.len(),
            r == combined_spec(results@.subrange(0, i as int)),
        decreases results@.len() - i,
    {
        match results[i] {
            Err(e) => {
                r = Err(e);
            },
            Ok(_) => {},
        }
        proof {
            let ext = results@.subrange(0, i + 1);
            assert(ext.drop_last() =~= results@.subrange(0, i as int));
            assert(ext.last() == results@[i as int]);
        }
        i = i + 1;
    }
    assert(results@.subrange(0, results@.len() as int) =~= results@);
    r
}

/// Fan-out aggregation law: the combined result is `Ok` exactly when every
/// member result is `Ok`; otherwise it equals the last failure in the list,
/// however many members ran after the failing one.
pub proof fn lemma_combined_last_failure(results: Seq<Result<(), SendError>>)
    ensures
        (combined_spec(results) matches Ok(_)) <==> (forall|i: int|
            0 <= i < results.len() ==> ((#[trigger] results[i]) matches Ok(_))),
        forall|j: int|
            0 <= j < results.len() && ((#[trigger] results[j]) matches Err(_)) && (forall|k: int|
                j < k < results.len() ==> ((#[trigger] results[k]) matches Ok(_))) ==> combined_spec(
                results,
            ) == results[j],
    decreases results.len(),
{
    if results.len() > 0 {
        lemma_combined_last_failure(results.drop_last());
        let d = results.drop_last();
        if results.last() matches Ok(_) {
            if forall|i: int| 0 <= i < results.len() ==> ((#[trigger] results[i]) matches Ok(_)) {
                assert forall|i: int| 0 <= i < d.len() implies ((#[trigger] d[i]) matches Ok(
                    _,
                )) by {
                    assert(d[i] == results[i]);
                }
            }
            if combined_spec(results) matches Ok(_) {
                assert forall|i: int| 0 <= i < results.len() implies ((#[trigger] results[i])
                    matches Ok(_)) by {
                    if i < results.len() - 1 {
                        assert(d[i] == results[i]);
                        assert(d[i] matches Ok(_));
                    }
                }
            }
        } else {
            assert(!(combined_spec(results) matches Ok(_)));
            assert(!((results[results.len() - 1]) matches Ok(_)));
        }
        assert forall|j: int|
            0 <= j < results.len() && ((#[trigger] results[j]) matches Err(_)) && (forall|k: int|
                j < k < results.len() ==> ((#[trigger] results[k]) matches Ok(_))) implies
            combined_spec(results) == results[j] by {
            if j == results.len() - 1 {
            } else {
                assert(results.last() matches Ok(_));
                assert forall|k: int|
                    j < k < results.drop_last().len() implies (#[trigger] results.drop_last()[k])
                        matches Ok(_) by {
                    assert(results.drop_last()[k] == results[k]);
                }
                assert(results.drop_last()[j] == results[j]);
            }
        }
    }
}

/// Fan-out combinator: holds an ordered list of sinks and drives every
/// member, in list order, for each record.
pub struct LogWriterAdapter<S: LogSink> {
    pub writers: Vec<S>,
}

impl<S: LogSink> LogWriterAdapter<S> {
    /// Wraps the given sinks; they are invoked in this order.
    pub fn new(writers: Vec<S>) -> (a: LogWriterAdapter<S>)
        ensures
            a.writers == writers,
    {
        LogWriterAdapter { writers }
    }

    /// Hands the record to every member in order, earlier failures
    /// notwithstanding, and returns the members' results folded by
    /// `combined_spec`: success only if all succeeded, else the last
    /// failure.  With no members there is nothing that can fail.
    pub fn write(
        &mut self,
        now_secs: u64,
        level: Level,
        source: &Option<(String, u32)>,
        message: &str,
    ) -> (r: Result<(), SendError>)
        ensures
            final(self).writers@.len() == old(self).writers@.len(),
            old(self).writers@.len() == 0 ==> r == Ok::<(), SendError>(()),
    {
        let mut results: Vec<Result<(), SendError>> = Vec::new();
        let mut done: Vec<S> = Vec::new();
        let ghost n = self.writers@.len();
        while self.writers.len() > 0
            invariant
                done@.len() + self.writers@.len() == n,
                results@.len() == done@.len(),
            decreases self.writers@.len(),
        {
            let mut w = self.writers.remove(0);
            let res = w.write(now_secs, level, source, message);
            results.push(res);
            done.push(w);
        }
        self.writers = done;
        combine_results(&results)
    }

    /// Flushes every member in order with the same aggregation rule; with
    /// no members there is nothing that can fail.
    pub fn flush(&mut self) -> (r: Result<(), SendError>)
        ensures
            final(self).writers@.len() == old(self).writers@.len(),
            old(self).writers@.len() == 0 ==> r == Ok::<(), SendError>(()),
    {
        let mut results: Vec<Result<(), SendError>> = Vec::new();
        let mut done: Vec<S> = Vec::new();
        let ghost n = self.writers@.len();
        while self.writers.len() > 0
            invariant
                done@.len() + self.writers@.len() == n,
                results@.len() == done@.len(),
            decreases self.writers@.len(),
        {
            let mut w = self.writers.remove(0);
            let res = w.flush();
            results.push(res);
            done.push(w);
        }
        self.writers = done;
        combine_results(&results)
    }
}

} // verus!
